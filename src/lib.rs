use vstd::prelude::*;

pub mod id_set;
pub mod ingredients;
pub mod clock;
pub mod evaluator;
pub mod executor;
pub mod expander;
pub mod game;
pub mod models;
pub mod repository;
pub mod scoreboard;
pub mod search;
pub mod state;

verus! {

/// Number of ingredient tiers tracked in an inventory.
pub const INGREDIENT_TIER_COUNT: usize = 4;

/// Most ingredients an inventory may hold across all tiers.
pub const MAX_INGREDIENT_COUNT: i32 = 10;

/// Milliseconds a search may run before it answers with what it has.
pub const TIMEOUT: u128 = 50;

/// Depth beyond which the search does not expand states.
pub const MAX_DEPTH: i32 = 3;

/// Most times a repeatable spell is cast in one action.
pub const MAX_REPEAT_COUNT: i32 = 2;

/// Identifies an action: the game's id, and the number of times a spell is
/// cast in one go (0 for orders).
pub type ActionId = (i32, i32);

/// The identifier given to the action that rests.
pub const REST_ID: ActionId = (-50, 0);

/// The identifier that stands for no action at all.
pub const NULL_ACTION_ID: ActionId = (-1, 0);

/// The ingredient change of an action that changes nothing.
pub const NO_INGREDIENT_CHANGE: [i32; 4] = [0, 0, 0, 0];

} // verus!
