use vstd::prelude::*;

use crate::id_set::IdSet;
use crate::ingredients::{pay, valid_inventory};
use crate::models::{Action, ActionModel, ActionType, delta_of};
use crate::repository::ActionsRepository;
use crate::state::{State, StateView};
use crate::{ActionId, MAX_INGREDIENT_COUNT};

verus! {

/// Whether taking the action `id` unlocks a spell that this branch has not learnt yet.
pub open spec fn is_fresh_unlock(a: ActionModel, s: StateView, id: ActionId) -> bool {
    a is Learn && !s.learnt_spells.contains(id.0)
}

/// The ingredient change that taking `a` under `id` applies to the inventory
/// of `s`: the tier-0 unlock cost for a fresh unlock, the action's own change otherwise.
pub open spec fn effective_delta(a: ActionModel, s: StateView, id: ActionId) -> Seq<int> {
    if is_fresh_unlock(a, s, id) {
        seq![-(a->Learn_0).read_ahead_tax, 0, 0, 0]
    } else {
        let d = delta_of(a);
        seq![d[0] as int, d[1] as int, d[2] as int, d[3] as int]
    }
}

/// The inventory `ing` with the change `d` applied, tier by tier.
pub open spec fn applied(ing: [i32; 4], d: Seq<int>) -> Seq<int> {
    seq![ing[0] + d[0], ing[1] + d[1], ing[2] + d[2], ing[3] + d[3]]
}

/// No tier below zero, and the total within capacity.
pub open spec fn within_storage(n: Seq<int>) -> bool {
    &&& 0 <= n[0] && 0 <= n[1] && 0 <= n[2] && 0 <= n[3]
    &&& n[0] + n[1] + n[2] + n[3] <= MAX_INGREDIENT_COUNT
}

/// The root action of a child of `s` reached through `id`.
pub open spec fn child_root(s: StateView, id: ActionId) -> Option<ActionId> {
    if s.root_action_id is None {
        Some(id)
    } else {
        s.root_action_id
    }
}

/// The state reached from `s` by taking the action `id` of `repo`, or `None`
/// when the action is unknown or its result would break the storage rules.
pub open spec fn spec_execute(
    repo: Map<ActionId, ActionModel>,
    s: StateView,
    id: ActionId,
) -> Option<StateView> {
    if !repo.contains_key(id) {
        None
    } else {
        let a = repo[id];
        let root = child_root(s, id);
        if a is Rest {
            Some(
                StateView {
                    inactive_spells: Set::empty(),
                    root_action_id: root,
                    depth: s.depth + 1,
                    ..s
                },
            )
        } else {
            let fresh = is_fresh_unlock(a, s, id);
            let n = applied(s.ingredients, effective_delta(a, s, id));
            if !within_storage(n) {
                None
            } else {
                let total = n[0] + n[1] + n[2] + n[3];
                let bonus = if fresh {
                    vstd::math::min((a->Learn_0).tax_gain, MAX_INGREDIENT_COUNT - total)
                } else {
                    0
                };
                Some(
                    StateView {
                        ingredients: [(n[0] + bonus) as i32, n[1] as i32, n[2] as i32, n[3] as i32],
                        rupees: if a is Brew {
                            s.rupees + (a->Brew_0).price
                        } else {
                            s.rupees
                        },
                        inactive_orders: if a is Brew {
                            s.inactive_orders.insert(id.0)
                        } else {
                            s.inactive_orders
                        },
                        inactive_spells: if a is Brew || fresh {
                            s.inactive_spells
                        } else {
                            s.inactive_spells.insert(id.0)
                        },
                        learnt_spells: if fresh {
                            s.learnt_spells.insert(id.0)
                        } else {
                            s.learnt_spells
                        },
                        root_action_id: root,
                        depth: s.depth + 1,
                    },
                )
            }
        }
    }
}

/// The state reached from `s` by taking the actions of `path` in turn, or
/// `None` when one of them is rejected.
pub open spec fn run_path(
    repo: Map<ActionId, ActionModel>,
    s: StateView,
    path: Seq<ActionId>,
) -> Option<StateView>
    decreases path.len(),
{
    if path.len() == 0 {
        Some(s)
    } else {
        match run_path(repo, s, path.drop_last()) {
            Some(t) => spec_execute(repo, t, path.last()),
            None => None,
        }
    }
}

/// Along any path of accepted actions, each step adds exactly one to the
/// depth, and the root action is the first action of the path when the start
/// had none; once set, it is the same in every descendant, however long the path.
pub proof fn lemma_path_depth_and_root(
    repo: Map<ActionId, ActionModel>,
    s: StateView,
    path: Seq<ActionId>,
)
    requires
        run_path(repo, s, path) is Some,
    ensures
        run_path(repo, s, path).unwrap().depth == s.depth + path.len(),
        s.root_action_id is Some ==> run_path(repo, s, path).unwrap().root_action_id
            == s.root_action_id,
        s.root_action_id is None && path.len() > 0 ==> run_path(repo, s, path).unwrap().root_action_id
            == Some(path[0]),
        s.root_action_id is None && path.len() == 0 ==> run_path(repo, s, path).unwrap().root_action_id
            is None,
    decreases path.len(),
{
    if path.len() > 0 {
        let prefix = path.drop_last();
        lemma_path_depth_and_root(repo, s, prefix);
        if prefix.len() > 0 {
            assert(prefix[0] == path[0]);
        }
    }
}

/// Takes actions on states.
pub struct ActionExecutor;

impl ActionExecutor {
    /// The state reached from `state` by taking the action `action_id`, with
    /// no score cached yet; `None` when the action is unknown or unaffordable.
    pub fn execute(repo: &ActionsRepository, state: &State, action_id: &ActionId) -> (r: Option<State>)
        requires
            repo.wf(),
            state@.wf(),
            state@.depth < i32::MAX,
        ensures
            r.is_some() == spec_execute(repo@, state@, *action_id).is_some(),
            r.is_some() ==> r.unwrap()@ == spec_execute(repo@, state@, *action_id).unwrap(),
            r.is_some() ==> r.unwrap().spec_score() == 0,
            r.is_some() ==> r.unwrap()@.wf(),
            r.is_some() ==> valid_inventory(r.unwrap()@.ingredients),
            r.is_some() ==> r.unwrap()@.depth == state@.depth + 1,
            r.is_some() ==> r.unwrap()@.root_action_id == child_root(state@, *action_id),
            r.is_some() && repo@[*action_id] is Rest ==> r.unwrap()@.inactive_spells
                == Set::<i32>::empty(),
            r.is_some() && is_fresh_unlock(repo@[*action_id], state@, *action_id)
                && state@.is_active(*action_id) ==> !r.unwrap()@.inactive_spells.contains(
                action_id.0,
            ),
    {
        let action = match repo.get_action(action_id) {
            None => {
                return None;
            },
            Some(a) => a,
        };
        let root_action_id = match state.get_root_action_id() {
            Some(id) => Some(*id),
            None => Some(*action_id),
        };
        let current = *state.get_ingredients();
        let depth = *state.get_depth() + 1;
        if action.is_rest() {
            let r = State::new(
                current,
                *state.get_rupees(),
                state.get_inactive_orders().duplicate(),
                IdSet::new(),
                state.get_learnt_spells().duplicate(),
                root_action_id,
                depth,
            );
            return Some(r);
        }
        let fresh = match action {
            Action::Learn(_) => !state.get_learnt_spells().contains(action_id.0),
            _ => false,
        };
        let change = match action {
            Action::Learn(spell) => {
                if fresh {
                    let tax = spell.get_read_ahead_tax();
                    if tax < -MAX_INGREDIENT_COUNT {
                        // Such a refund alone would overflow the storage.
                        return None;
                    }
                    [-tax, 0, 0, 0]
                } else {
                    action.get_ingredient_change()
                }
            },
            _ => action.get_ingredient_change(),
        };
        let mut new_ingredients = match pay(&change, &current) {
            None => {
                return None;
            },
            Some(n) => n,
        };
        let total = new_ingredients[0] + new_ingredients[1] + new_ingredients[2]
            + new_ingredients[3];
        let mut new_rupees = *state.get_rupees();
        let mut learnt_spells = state.get_learnt_spells().duplicate();
        match action {
            Action::Brew(order) => {
                new_rupees = new_rupees + *order.get_price() as i64;
            },
            Action::Learn(spell) => {
                if fresh {
                    let gain = spell.get_tax_gain();
                    let room = MAX_INGREDIENT_COUNT - total;
                    let bonus = if gain < room {
                        gain
                    } else {
                        room
                    };
                    new_ingredients = [
                        new_ingredients[0] + bonus,
                        new_ingredients[1],
                        new_ingredients[2],
                        new_ingredients[3],
                    ];
                    learnt_spells.insert(action_id.0);
                }
            },
            _ => {},
        }
        let mut new_state = State::new(
            new_ingredients,
            new_rupees,
            state.get_inactive_orders().duplicate(),
            state.get_inactive_spells().duplicate(),
            learnt_spells,
            root_action_id,
            depth,
        );
        match action.get_action_type() {
            ActionType::Brew => new_state.deactivate_order(action_id),
            ActionType::Rest => {},
            _ => new_state.deactivate_spell(action_id, fresh),
        }
        proof {
            let n = applied(state@.ingredients, effective_delta(action@, state@, *action_id));
            assert(n[0] == current[0] + change[0]);
            let e = spec_execute(repo@, state@, *action_id).unwrap();
            assert(new_state@.ingredients =~= e.ingredients);
            assert(new_state@.rupees == e.rupees);
            assert(new_state@.inactive_orders =~= e.inactive_orders);
            assert(new_state@.inactive_spells =~= e.inactive_spells);
            assert(new_state@.learnt_spells =~= e.learnt_spells);
            assert(new_state@.root_action_id == e.root_action_id);
            assert(new_state@.depth == e.depth);
            assert(new_state@ =~= e);
        }
        Some(new_state)
    }
}

} // verus!
