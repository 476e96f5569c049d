use vstd::prelude::*;

use crate::id_set::IdSet;
use crate::ingredients::valid_inventory;
use crate::ActionId;

verus! {

/// The mathematical model of a search state.
pub ghost struct StateView {
    pub ingredients: [i32; 4],
    pub rupees: int,
    /// Orders already completed; they never become available again.
    pub inactive_orders: Set<i32>,
    /// Spells disabled until the next rest.
    pub inactive_spells: Set<i32>,
    /// Spells unlocked on this branch.
    pub learnt_spells: Set<i32>,
    /// The action taken at depth 1 of this branch.
    pub root_action_id: Option<ActionId>,
    pub depth: int,
}

impl StateView {
    /// The inventory respects the storage rules, the depth is not negative,
    /// and the balance is no larger than a 32-bit amount per step taken plus one.
    pub open spec fn wf(self) -> bool {
        &&& valid_inventory(self.ingredients)
        &&& self.depth >= 0
        &&& -(self.depth + 1) * 0x8000_0000 <= self.rupees <= (self.depth + 1) * 0x8000_0000
    }

    /// Whether the action with this id may be taken from this state.
    pub open spec fn is_active(self, id: ActionId) -> bool {
        self.learnt_spells.contains(id.0) || (!self.inactive_spells.contains(id.0)
            && !self.inactive_orders.contains(id.0))
    }
}

/// One reachable game position, with the score that was cached for it.
pub struct State {
    my_ingredients: [i32; 4],
    my_rupees: i64,
    inactive_orders: IdSet,
    inactive_spells: IdSet,
    learnt_spells: IdSet,
    root_action_id: Option<ActionId>,
    depth: i32,
    score: i128,
}

impl View for State {
    type V = StateView;

    closed spec fn view(&self) -> StateView {
        StateView {
            ingredients: self.my_ingredients,
            rupees: self.my_rupees as int,
            inactive_orders: self.inactive_orders@,
            inactive_spells: self.inactive_spells@,
            learnt_spells: self.learnt_spells@,
            root_action_id: self.root_action_id,
            depth: self.depth as int,
        }
    }
}

impl State {
    /// The score cached in this state.
    pub closed spec fn spec_score(&self) -> int {
        self.score as int
    }

    /// A state with the given contents and no cached score yet.
    pub fn new(
        my_ingredients: [i32; 4],
        my_rupees: i64,
        inactive_orders: IdSet,
        inactive_spells: IdSet,
        learnt_spells: IdSet,
        root_action_id: Option<ActionId>,
        depth: i32,
    ) -> (r: State)
        ensures
            r@ == (StateView {
                ingredients: my_ingredients,
                rupees: my_rupees as int,
                inactive_orders: inactive_orders@,
                inactive_spells: inactive_spells@,
                learnt_spells: learnt_spells@,
                root_action_id,
                depth: depth as int,
            }),
            r.spec_score() == 0,
    {
        State {
            my_ingredients,
            my_rupees,
            inactive_orders,
            inactive_spells,
            learnt_spells,
            root_action_id,
            depth,
            score: 0,
        }
    }

    pub fn get_ingredients(&self) -> (r: &[i32; 4])
        ensures
            *r == self@.ingredients,
    {
        &self.my_ingredients
    }

    pub fn get_rupees(&self) -> (r: &i64)
        ensures
            *r == self@.rupees,
    {
        &self.my_rupees
    }

    pub fn get_inactive_orders(&self) -> (r: &IdSet)
        ensures
            r@ == self@.inactive_orders,
    {
        &self.inactive_orders
    }

    pub fn get_inactive_spells(&self) -> (r: &IdSet)
        ensures
            r@ == self@.inactive_spells,
    {
        &self.inactive_spells
    }

    pub fn get_learnt_spells(&self) -> (r: &IdSet)
        ensures
            r@ == self@.learnt_spells,
    {
        &self.learnt_spells
    }

    pub fn get_root_action_id(&self) -> (r: &Option<ActionId>)
        ensures
            *r == self@.root_action_id,
    {
        &self.root_action_id
    }

    pub fn get_depth(&self) -> (r: &i32)
        ensures
            *r == self@.depth,
    {
        &self.depth
    }

    pub fn get_score(&self) -> (r: &i128)
        ensures
            *r == self.spec_score(),
    {
        &self.score
    }

    /// Caches a score in the state; the position itself is unchanged.
    pub fn set_score(&mut self, score: i128)
        ensures
            final(self)@ == old(self)@,
            final(self).spec_score() == score,
    {
        self.score = score;
    }

    pub fn is_action_active(&self, action_id: &ActionId) -> (r: bool)
        ensures
            r == self@.is_active(*action_id),
    {
        self.learnt_spells.contains(action_id.0) || (!self.inactive_spells.contains(action_id.0)
            && !self.inactive_orders.contains(action_id.0))
    }

    /// Marks an order as completed for good.
    pub fn deactivate_order(&mut self, action_id: &ActionId)
        ensures
            final(self)@ == (StateView {
                inactive_orders: old(self)@.inactive_orders.insert(action_id.0),
                ..old(self)@
            }),
            final(self).spec_score() == old(self).spec_score(),
    {
        self.inactive_orders.insert(action_id.0);
    }

    /// Disables a spell until the next rest, unless it was unlocked by this very action.
    pub fn deactivate_spell(&mut self, action_id: &ActionId, is_new_learn: bool)
        ensures
            final(self)@ == (StateView {
                inactive_spells: if is_new_learn {
                    old(self)@.inactive_spells
                } else {
                    old(self)@.inactive_spells.insert(action_id.0)
                },
                ..old(self)@
            }),
            final(self).spec_score() == old(self).spec_score(),
    {
        if !is_new_learn {
            self.inactive_spells.insert(action_id.0);
        }
    }
}

} // verus!
