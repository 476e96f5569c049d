use vstd::prelude::*;

use std::time::Instant;

use crate::clock::is_timeout;
use crate::evaluator::{MAX_SCORED_ORDERS, StateEvaluator};
use crate::executor::{ActionExecutor, child_root, spec_execute};
use crate::models::ActionModel;
use crate::repository::ActionsRepository;
use crate::state::{State, StateView};
use crate::ActionId;

verus! {

/// The models of a sequence of states.
pub open spec fn views(s: Seq<State>) -> Seq<StateView> {
    s.map_values(|c: State| c@)
}

/// The children of `s` through the actions `ids`, in that order: one for each
/// action that is active in `s` and whose execution succeeds.
pub open spec fn expand_spec(
    repo: Map<ActionId, ActionModel>,
    s: StateView,
    ids: Seq<ActionId>,
) -> Seq<StateView>
    decreases ids.len(),
{
    if ids.len() == 0 {
        Seq::empty()
    } else {
        let id = ids.last();
        expand_spec(repo, s, ids.drop_last()) + if s.is_active(id) && spec_execute(
            repo,
            s,
            id,
        ) is Some {
            seq![spec_execute(repo, s, id).unwrap()]
        } else {
            Seq::empty()
        }
    }
}

/// `c` is a well-formed child of `s`, reached through an action active in `s`.
pub open spec fn child_of(repo: Map<ActionId, ActionModel>, s: StateView, c: StateView) -> bool {
    exists|id: ActionId|
        {
            &&& s.is_active(id)
            &&& spec_execute(repo, s, id) == Some(c)
            &&& c.wf()
            &&& c.depth == s.depth + 1
            &&& #[trigger] child_root(s, id) == c.root_action_id
        }
}

/// Produces the children of states.
pub struct StateExpander;

impl StateExpander {
    /// The children of `state`, each with its score cached, through the
    /// actions of `repo` in their order, and how many of those actions were
    /// considered: all of them, unless a check of the deadline, made before
    /// each active action, found it passed.
    pub fn get_children_until<E: StateEvaluator>(
        state: &State,
        repo: &ActionsRepository,
        time: &Instant,
        timeout_ms: u128,
        state_evaluator: &E,
    ) -> (r: (Vec<State>, usize))
        requires
            repo.wf(),
            repo.spec_order_ids().len() <= MAX_SCORED_ORDERS,
            state@.wf(),
            state@.depth < i32::MAX,
        ensures
            r.1 <= repo.spec_ids().len(),
            views(r.0@) == expand_spec(repo@, state@, repo.spec_ids().take(r.1 as int)),
            r.0@.len() <= repo.spec_ids().len(),
            forall|i: int|
                0 <= i < r.0@.len() ==> child_of(repo@, state@, #[trigger] r.0@[i]@)
                    && r.0@[i].spec_score() == state_evaluator.spec_evaluate(r.0@[i]@, repo),
    {
        let ids = repo.get_action_ids();
        let ghost all = repo.spec_ids();
        let mut new_states: Vec<State> = Vec::new();
        let mut i: usize = 0;
        while i < ids.len()
            invariant
                repo.wf(),
                repo.spec_order_ids().len() <= MAX_SCORED_ORDERS,
                state@.wf(),
                state@.depth < i32::MAX,
                ids@.len() == all.len(),
                forall|j: int| 0 <= j < ids@.len() ==> *ids@[j] == all[j],
                i <= all.len(),
                views(new_states@) == expand_spec(repo@, state@, all.take(i as int)),
                new_states@.len() <= i,
                forall|j: int|
                    0 <= j < new_states@.len() ==> child_of(repo@, state@, #[trigger] new_states@[j]@)
                        && new_states@[j].spec_score() == state_evaluator.spec_evaluate(
                        new_states@[j]@,
                        repo,
                    ),
            decreases all.len() - i,
        {
            let id = ids[i];
            let ghost before = new_states@;
            proof {
                assert(all.take(i + 1).drop_last() =~= all.take(i as int));
                assert(all.take(i + 1).last() == *id);
            }
            if !state.is_action_active(id) {
                i = i + 1;
                continue;
            }
            if is_timeout(time, timeout_ms) {
                break;
            }
            match ActionExecutor::execute(repo, state, id) {
                Some(child) => {
                    let mut child = child;
                    let score = state_evaluator.evaluate(&child, repo);
                    child.set_score(score);
                    new_states.push(child);
                    proof {
                        assert(views(new_states@) =~= views(before).push(child@));
                        assert(child_root(state@, *id) == child@.root_action_id);
                        assert(child_of(repo@, state@, new_states@[new_states@.len() - 1]@));
                    }
                },
                None => {},
            }
            i = i + 1;
        }
        assert(all.take(all.len() as int) =~= all);
        (new_states, i)
    }

    /// The children of `state`, each with its score cached, through the
    /// actions of `repo` in their order; the deadline, checked before each
    /// active action, may cut the list short.
    pub fn get_children<E: StateEvaluator>(
        state: &State,
        repo: &ActionsRepository,
        time: &Instant,
        timeout_ms: u128,
        state_evaluator: &E,
    ) -> (r: Vec<State>)
        requires
            repo.wf(),
            repo.spec_order_ids().len() <= MAX_SCORED_ORDERS,
            state@.wf(),
            state@.depth < i32::MAX,
        ensures
            exists|m: int|
                0 <= m <= repo.spec_ids().len() && views(r@) == expand_spec(
                    repo@,
                    state@,
                    repo.spec_ids().take(m),
                ),
            r@.len() <= repo.spec_ids().len(),
            forall|i: int|
                0 <= i < r@.len() ==> child_of(repo@, state@, #[trigger] r@[i]@)
                    && r@[i].spec_score() == state_evaluator.spec_evaluate(r@[i]@, repo),
    {
        let (children, cut) = StateExpander::get_children_until(
            state,
            repo,
            time,
            timeout_ms,
            state_evaluator,
        );
        children
    }
}

} // verus!
