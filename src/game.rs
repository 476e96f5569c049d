use vstd::prelude::*;

use crate::evaluator::{DefaultStateEvaluator, MAX_SCORED_ORDERS};
use crate::id_set::IdSet;
use crate::ingredients::valid_inventory;
use crate::models::{
    Action, ActionModel, LearntSpell, Order, OrderView, UnlearntSpell, UnlearntSpellView,
};
use crate::repository::{ActionsRepository, RepoModel, empty_model, put_model};
use crate::search::{
    BestFirstSolutionFinder, BreadthFirstSolutionFinder, SolutionFinder, Strategy, answer_of,
    best_first_explored, bfs_explored, board_of, valid_first_action,
};
use crate::state::{State, StateView};
use crate::{ActionId, MAX_DEPTH, MAX_REPEAT_COUNT, NULL_ACTION_ID, REST_ID};

verus! {

/// The category of an action as the turn input names it.
#[derive(Clone, Copy, Debug, PartialEq, Eq, Structural)]
pub enum DescriptorKind {
    Cast,
    OpponentCast,
    Learn,
    Brew,
    Other,
}

/// One action as the turn input describes it.
#[derive(Clone, Copy, Debug)]
pub struct ActionDescriptor {
    pub action_id: i32,
    pub kind: DescriptorKind,
    pub delta: [i32; 4],
    /// The reward of an order.
    pub price: i32,
    /// The tier-0 cost of unlocking a spell.
    pub tome_index: i32,
    /// The tier-0 bonus granted by unlocking a spell.
    pub tax_count: i32,
    /// Whether a known spell can be cast this turn.
    pub castable: bool,
    /// Whether a spell can be cast several times in one action.
    pub repeatable: bool,
}

/// The command that carries out the chosen action.
#[derive(Clone, Copy, Debug, PartialEq, Eq, Structural)]
pub enum Command {
    Cast(i32, i32),
    Brew(i32),
    Learn(i32),
    Rest,
    Wait,
}

/// `d` scaled `k` times, tier by tier.
pub open spec fn scaled(d: [i32; 4], k: int) -> [i32; 4] {
    [(d[0] * k) as i32, (d[1] * k) as i32, (d[2] * k) as i32, (d[3] * k) as i32]
}

/// The spell that a descriptor of a known or unlockable spell gives when cast `k` times at once.
pub open spec fn spell_model(d: ActionDescriptor, k: int) -> ActionModel {
    if d.kind == DescriptorKind::Learn {
        ActionModel::Learn(
            UnlearntSpellView {
                delta: scaled(d.delta, k),
                read_ahead_tax: d.tome_index as int,
                tax_gain: d.tax_count as int,
            },
        )
    } else {
        ActionModel::Cast(scaled(d.delta, k))
    }
}

/// `m` after storing the spells of `d` cast 1 to `k` times at once, under
/// `(id, 1)` to `(id, k)` in that order.
pub open spec fn with_repeats(m: RepoModel, d: ActionDescriptor, k: int) -> RepoModel
    decreases k,
{
    if k <= 0 {
        m
    } else {
        put_model(with_repeats(m, d, k - 1), (d.action_id, k as i32), spell_model(d, k))
    }
}

/// `m` with the actions of one descriptor added: a known or unlockable
/// spell once, or once per repeat count when it is repeatable; an order
/// under `(id, 0)`; nothing for the other kinds.
pub open spec fn apply_descriptor(m: RepoModel, d: ActionDescriptor) -> RepoModel {
    if d.kind == DescriptorKind::Cast || d.kind == DescriptorKind::Learn {
        with_repeats(m, d, if d.repeatable { MAX_REPEAT_COUNT as int } else { 1 })
    } else if d.kind == DescriptorKind::Brew {
        put_model(
            m,
            (d.action_id, 0),
            ActionModel::Brew(OrderView { delta: d.delta, price: d.price as int }),
        )
    } else {
        m
    }
}

/// The actions of a turn: the rest, then those of each descriptor in turn.
pub open spec fn loaded(ds: Seq<ActionDescriptor>) -> RepoModel
    decreases ds.len(),
{
    if ds.len() == 0 {
        put_model(empty_model(), REST_ID, ActionModel::Rest)
    } else {
        apply_descriptor(loaded(ds.drop_last()), ds.last())
    }
}

/// The known spells that cannot be cast this turn.
pub open spec fn disabled_at_start(ds: Seq<ActionDescriptor>) -> Set<i32>
    decreases ds.len(),
{
    if ds.len() == 0 {
        Set::empty()
    } else if ds.last().kind == DescriptorKind::Cast && !ds.last().castable {
        disabled_at_start(ds.drop_last()).insert(ds.last().action_id)
    } else {
        disabled_at_start(ds.drop_last())
    }
}

/// A descriptor that can be loaded: an unlock bonus is not negative, and a
/// repeatable spell's change stays within 32 bits when repeated.
pub open spec fn descriptor_fits(d: ActionDescriptor) -> bool {
    &&& d.kind == DescriptorKind::Learn ==> d.tax_count >= 0
    &&& (d.kind == DescriptorKind::Cast || d.kind == DescriptorKind::Learn) && d.repeatable ==> {
        &&& -0x4000_0000 <= d.delta[0] < 0x4000_0000
        &&& -0x4000_0000 <= d.delta[1] < 0x4000_0000
        &&& -0x4000_0000 <= d.delta[2] < 0x4000_0000
        &&& -0x4000_0000 <= d.delta[3] < 0x4000_0000
    }
}

/// The state at the start of a turn: nothing completed or learnt, no root action, depth 0.
pub open spec fn initial_view(ingredients: [i32; 4], rupees: i32, disabled: Set<i32>) -> StateView {
    StateView {
        ingredients,
        rupees: rupees as int,
        inactive_orders: Set::empty(),
        inactive_spells: disabled,
        learnt_spells: Set::empty(),
        root_action_id: None,
        depth: 0,
    }
}

/// The command for the action `id` of `repo`: wait when there is no such action.
pub open spec fn command_of(repo: Map<ActionId, ActionModel>, id: ActionId) -> Command {
    if !repo.contains_key(id) {
        Command::Wait
    } else {
        match repo[id] {
            ActionModel::Cast(_) => Command::Cast(id.0, id.1),
            ActionModel::Brew(_) => Command::Brew(id.0),
            ActionModel::Learn(_) => Command::Learn(id.0),
            ActionModel::Rest => Command::Rest,
        }
    }
}

/// What one turn may answer: `r` is the command for `id`, found by a search
/// on `repo`, the repository loaded from `ds`, from the state at the start of
/// the turn, with the default scorer and depth limit. `id` is the null action
/// or a valid first action, and is the answer read from the scoreboard of the
/// states the search visited: in breadth-first order, or in best-first order,
/// as `strategy` says.
pub open spec fn turn_answer(
    strategy: Strategy,
    ds: Seq<ActionDescriptor>,
    ingredients: [i32; 4],
    rupees: i32,
    repo: ActionsRepository,
    id: ActionId,
    r: Command,
) -> bool {
    let start = initial_view(ingredients, rupees, disabled_at_start(ds));
    &&& repo.wf()
    &&& repo.spec_model() == loaded(ds)
    &&& r == command_of(loaded(ds).actions, id)
    &&& id == NULL_ACTION_ID || valid_first_action(loaded(ds).actions, start, id)
    &&& match strategy {
        Strategy::BreadthFirstSearch => exists|f: Seq<StateView>, v: int|
            bfs_explored(&repo, start, MAX_DEPTH as int, f, v) && answer_of(
                board_of(&DefaultStateEvaluator {}, &repo, f.take(v)),
                id,
            ),
        Strategy::BestFirstSearch => exists|w: Seq<StateView>|
            best_first_explored(&repo, start, MAX_DEPTH as int, w) && answer_of(
                board_of(&DefaultStateEvaluator {}, &repo, w),
                id,
            ),
    }
}

/// One turn of the game, from its input to the command to send.
pub struct Game;

impl Game {
    /// The change `d` scaled `k` times.
    fn scale(d: [i32; 4], k: i32) -> (r: [i32; 4])
        requires
            1 <= k <= MAX_REPEAT_COUNT,
            k == 1 || (-0x4000_0000 <= d[0] < 0x4000_0000 && -0x4000_0000 <= d[1] < 0x4000_0000
                && -0x4000_0000 <= d[2] < 0x4000_0000 && -0x4000_0000 <= d[3] < 0x4000_0000),
        ensures
            r == scaled(d, k as int),
    {
        let r = [d[0] * k, d[1] * k, d[2] * k, d[3] * k];
        assert(r =~= scaled(d, k as int));
        r
    }

    /// The actions of a turn, the rest included, and the known spells that
    /// cannot be cast this turn.
    pub fn load_actions(descriptors: &Vec<ActionDescriptor>) -> (r: (ActionsRepository, IdSet))
        requires
            forall|i: int| 0 <= i < descriptors@.len() ==> descriptor_fits(#[trigger] descriptors@[i]),
        ensures
            r.0.wf(),
            r.0.spec_model() == loaded(descriptors@),
            r.1@ == disabled_at_start(descriptors@),
            r.0.spec_order_ids().len() <= descriptors@.len(),
    {
        let mut repo = ActionsRepository::new();
        repo.add_rest();
        let mut inactive = IdSet::new();
        let mut i: usize = 0;
        while i < descriptors.len()
            invariant
                forall|j: int| 0 <= j < descriptors@.len() ==> descriptor_fits(#[trigger] descriptors@[j]),
                i <= descriptors@.len(),
                repo.wf(),
                repo.spec_model() == loaded(descriptors@.take(i as int)),
                inactive@ == disabled_at_start(descriptors@.take(i as int)),
                repo.spec_order_ids().len() <= i,
            decreases descriptors@.len() - i,
        {
            let d = descriptors[i];
            proof {
                assert(descriptors@.take(i + 1).drop_last() =~= descriptors@.take(i as int));
                assert(descriptors@.take(i + 1).last() == d);
                assert(descriptor_fits(d));
            }
            let ghost m0 = repo.spec_model();
            match d.kind {
                DescriptorKind::Cast | DescriptorKind::Learn => {
                    let count = if d.repeatable {
                        MAX_REPEAT_COUNT
                    } else {
                        1
                    };
                    let ghost orders0 = repo.spec_order_ids().len();
                    let mut k: i32 = 1;
                    while k <= count
                        invariant
                            1 <= k <= count + 1,
                            count == if d.repeatable { MAX_REPEAT_COUNT } else { 1 },
                            descriptor_fits(d),
                            d.kind == DescriptorKind::Cast || d.kind == DescriptorKind::Learn,
                            repo.wf(),
                            repo.spec_model() == with_repeats(m0, d, k - 1),
                            repo.spec_order_ids().len() <= orders0,
                        decreases count + 1 - k,
                    {
                        let change = Game::scale(d.delta, k);
                        if d.kind == DescriptorKind::Learn {
                            repo.add_unlearnt_spell(
                                (d.action_id, k),
                                UnlearntSpell::new(change, d.tome_index, d.tax_count),
                            );
                        } else {
                            repo.add_learnt_spell((d.action_id, k), LearntSpell::new(change));
                        }
                        k = k + 1;
                    }
                    if d.kind == DescriptorKind::Cast && !d.castable {
                        inactive.insert(d.action_id);
                    }
                },
                DescriptorKind::Brew => {
                    repo.add_order((d.action_id, 0), Order::new(d.price, d.delta));
                },
                _ => {},
            }
            i = i + 1;
        }
        assert(descriptors@.take(descriptors@.len() as int) =~= descriptors@);
        (repo, inactive)
    }

    /// The state at the start of a turn.
    pub fn initial_state(ingredients: [i32; 4], rupees: i32, inactive_spells: IdSet) -> (r: State)
        ensures
            r@ == initial_view(ingredients, rupees, inactive_spells@),
            r.spec_score() == 0,
    {
        State::new(
            ingredients,
            rupees as i64,
            IdSet::new(),
            inactive_spells,
            IdSet::new(),
            None,
            0,
        )
    }

    /// The command for the action `action_id` of `repo`.
    pub fn command_for(repo: &ActionsRepository, action_id: &ActionId) -> (r: Command)
        requires
            repo.wf(),
        ensures
            r == command_of(repo@, *action_id),
    {
        match repo.get_action(action_id) {
            None => Command::Wait,
            Some(action) => match action {
                Action::Cast(_) => Command::Cast(action_id.0, action_id.1),
                Action::Brew(_) => Command::Brew(action_id.0),
                Action::Learn(_) => Command::Learn(action_id.0),
                Action::Rest(_) => Command::Rest,
            },
        }
    }

    /// Plays one turn: loads its actions, searches from its state with the
    /// default scorer, the default deadline and the default depth limit, and
    /// gives the command for the action found, or wait when none was found.
    pub fn choose_command(
        strategy: &Strategy,
        descriptors: &Vec<ActionDescriptor>,
        ingredients: [i32; 4],
        rupees: i32,
    ) -> (r: Command)
        requires
            forall|i: int| 0 <= i < descriptors@.len() ==> descriptor_fits(#[trigger] descriptors@[i]),
            descriptors@.len() <= MAX_SCORED_ORDERS,
            valid_inventory(ingredients),
        ensures
            exists|repo: ActionsRepository, id: ActionId|
                #[trigger] turn_answer(*strategy, descriptors@, ingredients, rupees, repo, id, r),
    {
        let (repo, inactive_spells) = Game::load_actions(descriptors);
        let state = Game::initial_state(ingredients, rupees, inactive_spells);
        let best = match strategy {
            Strategy::BreadthFirstSearch => {
                let finder = BreadthFirstSolutionFinder::new(DefaultStateEvaluator::new());
                finder.search(state, &repo)
            },
            Strategy::BestFirstSearch => {
                let finder = BestFirstSolutionFinder::new(DefaultStateEvaluator::new());
                finder.search(state, &repo)
            },
        };
        let r = Game::command_for(&repo, &best);
        assert(turn_answer(*strategy, descriptors@, ingredients, rupees, repo, best, r));
        r
    }
}

} // verus!
