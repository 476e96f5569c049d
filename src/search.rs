use vstd::prelude::*;

use std::time::Instant;

use crate::clock::is_timeout;
use crate::evaluator::{MAX_SCORED_ORDERS, StateEvaluator};
use crate::executor::{child_root, spec_execute};
use crate::expander::{StateExpander, child_of, expand_spec, views};
use crate::models::ActionModel;
use crate::repository::ActionsRepository;
use crate::scoreboard::{ScoreEntry, Scoreboard, is_first_best, spec_record, unique_roots};
use crate::state::{State, StateView};
use crate::{ActionId, MAX_DEPTH, NULL_ACTION_ID, TIMEOUT};

verus! {

/// The order in which the frontier is explored.
pub enum Strategy {
    BestFirstSearch,
    BreadthFirstSearch,
}

/// `id` can be taken as the first action from `root`: it is active there and its execution succeeds.
pub open spec fn valid_first_action(
    repo: Map<ActionId, ActionModel>,
    root: StateView,
    id: ActionId,
) -> bool {
    root.is_active(id) && spec_execute(repo, root, id) is Some
}

/// The number of states in the full tree of a state at `depth`, when each
/// state has at most `n` children and states at `max_depth` or deeper have none.
pub open spec fn subtree_weight(depth: int, n: nat, max_depth: int) -> nat
    decreases max_depth - depth,
{
    if depth >= max_depth {
        1
    } else {
        1 + n * subtree_weight(depth + 1, n, max_depth)
    }
}

/// The number of states that exploring every state of `s` could still visit.
pub open spec fn frontier_weight(s: Seq<State>, n: nat, max_depth: int) -> nat
    decreases s.len(),
{
    if s.len() == 0 {
        0
    } else {
        subtree_weight(s[0]@.depth, n, max_depth) + frontier_weight(
            s.subrange(1, s.len() as int),
            n,
            max_depth,
        )
    }
}

proof fn lemma_frontier_weight_append(a: Seq<State>, b: Seq<State>, n: nat, max_depth: int)
    ensures
        frontier_weight(a + b, n, max_depth) == frontier_weight(a, n, max_depth)
            + frontier_weight(b, n, max_depth),
    decreases a.len(),
{
    if a.len() == 0 {
        assert(a + b =~= b);
    } else {
        assert((a + b).subrange(1, (a + b).len() as int) =~= a.subrange(1, a.len() as int) + b);
        lemma_frontier_weight_append(a.subrange(1, a.len() as int), b, n, max_depth);
    }
}

proof fn lemma_frontier_weight_uniform(s: Seq<State>, depth: int, n: nat, max_depth: int)
    requires
        forall|i: int| 0 <= i < s.len() ==> (#[trigger] s[i])@.depth == depth,
    ensures
        frontier_weight(s, n, max_depth) == s.len() * subtree_weight(depth, n, max_depth),
    decreases s.len(),
{
    if s.len() > 0 {
        lemma_frontier_weight_uniform(s.subrange(1, s.len() as int), depth, n, max_depth);
        assert(s.len() * subtree_weight(depth, n, max_depth) == subtree_weight(depth, n, max_depth)
            + (s.len() - 1) * subtree_weight(depth, n, max_depth)) by (nonlinear_arith);
    }
}

/// Pushing the children of a state popped from the frontier shrinks the frontier's weight.
proof fn lemma_children_weigh_less(children: Seq<State>, depth: int, n: nat, max_depth: int)
    requires
        depth < max_depth,
        children.len() <= n,
        forall|i: int| 0 <= i < children.len() ==> (#[trigger] children[i])@.depth == depth + 1,
    ensures
        frontier_weight(children, n, max_depth) < subtree_weight(depth, n, max_depth),
{
    lemma_frontier_weight_uniform(children, depth + 1, n, max_depth);
    let w = subtree_weight(depth + 1, n, max_depth);
    assert(children.len() * w <= n * w) by (nonlinear_arith)
        requires
            children.len() <= n,
    ;
}

/// What the search keeps true of each state in its frontier: it is
/// well-formed, and it is either the root itself or it descends from a
/// valid first action of the root.
pub open spec fn in_search_tree(
    repo: Map<ActionId, ActionModel>,
    root: StateView,
    f: StateView,
) -> bool {
    &&& f.wf()
    &&& f.root_action_id is None ==> f == root
    &&& f.root_action_id is Some ==> valid_first_action(repo, root, f.root_action_id.unwrap())
}

/// Every root action on the scoreboard is a valid first action of the root.
pub open spec fn board_valid(
    repo: Map<ActionId, ActionModel>,
    root: StateView,
    b: Seq<crate::scoreboard::ScoreEntry>,
) -> bool {
    &&& unique_roots(b)
    &&& forall|k: int|
        0 <= k < b.len() ==> valid_first_action(repo, root, #[trigger] b[k].root_action_id)
}

proof fn lemma_children_in_tree(
    repo: Map<ActionId, ActionModel>,
    root: StateView,
    parent: StateView,
    children: Seq<State>,
)
    requires
        in_search_tree(repo, root, parent),
        forall|i: int| 0 <= i < children.len() ==> child_of(repo, parent, #[trigger] children[i]@),
    ensures
        forall|i: int|
            0 <= i < children.len() ==> in_search_tree(repo, root, (#[trigger] children[i])@),
        forall|i: int|
            0 <= i < children.len() ==> (#[trigger] children[i])@.depth == parent.depth + 1,
{
    assert forall|i: int| 0 <= i < children.len() implies in_search_tree(
        repo,
        root,
        (#[trigger] children[i])@,
    ) && children[i]@.depth == parent.depth + 1 by {
        let c = children[i]@;
        assert(child_of(repo, parent, c));
        let id = choose|id: ActionId|
            {
                &&& parent.is_active(id)
                &&& spec_execute(repo, parent, id) == Some(c)
                &&& c.wf()
                &&& c.depth == parent.depth + 1
                &&& #[trigger] child_root(parent, id) == c.root_action_id
            };
        if parent.root_action_id is None {
            assert(parent == root);
        }
    }
}

/// The children that the search pushes after visiting `s`: none at the
/// depth limit, otherwise one for each active action whose execution
/// succeeds, in the order of the repository's actions.
pub open spec fn kids(repo: &ActionsRepository, s: StateView, max_depth: int) -> Seq<StateView> {
    if s.depth >= max_depth {
        Seq::empty()
    } else {
        expand_spec(repo@, s, repo.spec_ids())
    }
}

/// The children of the states `xs`, those of `xs[0]` first.
pub open spec fn expansion(repo: &ActionsRepository, xs: Seq<StateView>, max_depth: int) -> Seq<
    StateView,
>
    decreases xs.len(),
{
    if xs.len() == 0 {
        Seq::empty()
    } else {
        expansion(repo, xs.drop_last(), max_depth) + kids(repo, xs.last(), max_depth)
    }
}

/// `f` is the breadth-first order of the tree of `root`, cut at `max_depth`,
/// as far as the search found it, and the search visited its first `v`
/// states: either every state was visited and expanded, or the search
/// stopped at state `v - 1`, having expanded those before it.
pub open spec fn bfs_explored(
    repo: &ActionsRepository,
    root: StateView,
    max_depth: int,
    f: Seq<StateView>,
    v: int,
) -> bool {
    &&& 1 <= v <= f.len()
    &&& {
        ||| v == f.len() && f == seq![root] + expansion(repo, f, max_depth)
        ||| f == seq![root] + expansion(repo, f.take(v - 1), max_depth)
    }
}

/// `w` is a best-first visit from `root`: it starts at the root, and every
/// later state is a child pushed by the expansion of an earlier one.
pub open spec fn best_first_explored(
    repo: &ActionsRepository,
    root: StateView,
    max_depth: int,
    w: Seq<StateView>,
) -> bool {
    &&& w.len() >= 1
    &&& w[0] == root
    &&& forall|j: int| 1 <= j < w.len() ==> #[trigger] pushed_earlier(repo, max_depth, w, j)
}

/// `s` is a child pushed by the expansion of a state of `w`.
pub open spec fn pushed_by(repo: &ActionsRepository, max_depth: int, w: Seq<StateView>, s: StateView) -> bool {
    exists|i: int| 0 <= i < w.len() && #[trigger] kids(repo, w[i], max_depth).contains(s)
}

/// State `j` of `w` is a child pushed by the expansion of an earlier state of `w`.
pub open spec fn pushed_earlier(
    repo: &ActionsRepository,
    max_depth: int,
    w: Seq<StateView>,
    j: int,
) -> bool {
    exists|i: int| 0 <= i < j && #[trigger] kids(repo, w[i], max_depth).contains(w[j])
}

/// The scoreboard made by recording, in order, each of the `visited` states
/// that has a root action, with its depth and the score `e` gives it.
pub open spec fn board_of<E: StateEvaluator>(
    e: &E,
    repo: &ActionsRepository,
    visited: Seq<StateView>,
) -> Seq<ScoreEntry>
    decreases visited.len(),
{
    if visited.len() == 0 {
        Seq::empty()
    } else {
        let b = board_of(e, repo, visited.drop_last());
        let s = visited.last();
        match s.root_action_id {
            Some(id) => spec_record(b, id, s.depth as i32, e.spec_evaluate(s, repo) as i128),
            None => b,
        }
    }
}

/// The answer read from a scoreboard: the null action when it is empty,
/// otherwise the root action of its first entry with the highest score.
pub open spec fn answer_of(b: Seq<ScoreEntry>, r: ActionId) -> bool {
    if b.len() == 0 {
        r == NULL_ACTION_ID
    } else {
        exists|k: int| is_first_best(b, k) && r == b[k].root_action_id
    }
}

/// Visits a state taken from the frontier: records its score under its root
/// action; then, given whether the deadline had passed, tells whether the
/// search must stop, and gives the children to push.
fn visit<E: StateEvaluator>(
    current: &State,
    board: &mut Scoreboard,
    repo: &ActionsRepository,
    start: &Instant,
    timeout_ms: u128,
    timed_out: bool,
    max_depth: i32,
    state_evaluator: &E,
) -> (r: (bool, Vec<State>))
    requires
        repo.wf(),
        repo.spec_order_ids().len() <= MAX_SCORED_ORDERS,
        current@.wf(),
        unique_roots(old(board)@),
    ensures
        unique_roots(final(board)@),
        final(board)@ == match current@.root_action_id {
            Some(id) => spec_record(old(board)@, id, current@.depth as i32, current.spec_score() as i128),
            None => old(board)@,
        },
        timed_out ==> r.0 && r.1@.len() == 0,
        !timed_out && current@.depth >= max_depth ==> !r.0 && r.1@.len() == 0,
        !timed_out && current@.depth < max_depth ==> exists|m: int|
            0 <= m <= repo.spec_ids().len() && views(r.1@) == expand_spec(
                repo@,
                current@,
                repo.spec_ids().take(m),
            ) && (r.0 <==> m < repo.spec_ids().len()),
        !r.0 ==> views(r.1@) == kids(repo, current@, max_depth as int),
        r.1@.len() <= repo.spec_ids().len(),
        forall|i: int|
            0 <= i < r.1@.len() ==> child_of(repo@, current@, #[trigger] r.1@[i]@)
                && r.1@[i].spec_score() == state_evaluator.spec_evaluate(r.1@[i]@, repo),
{
    let depth = *current.get_depth();
    if let Some(id) = current.get_root_action_id() {
        board.record(*id, depth, *current.get_score());
    }
    if timed_out {
        return (true, Vec::new());
    }
    if depth >= max_depth {
        let none: Vec<State> = Vec::new();
        assert(views(none@) =~= Seq::<StateView>::empty());
        return (false, none);
    }
    let (children, cut) = StateExpander::get_children_until(
        current,
        repo,
        start,
        timeout_ms,
        state_evaluator,
    );
    let ids_len = repo.action_count();
    proof {
        if cut == ids_len {
            assert(repo.spec_ids().take(cut as int) =~= repo.spec_ids());
        }
    }
    (cut < ids_len, children)
}

/// Picks the action to take from a state.
pub trait SolutionFinder {
    /// The first action of the most promising branch explored from `state`,
    /// or the null action when no branch was scored.
    fn search(&self, state: State, repo: &ActionsRepository) -> (r: ActionId)
        requires
            repo.wf(),
            repo.spec_order_ids().len() <= MAX_SCORED_ORDERS,
            state@.wf(),
            state@.root_action_id is None,
        ensures
            r == NULL_ACTION_ID || valid_first_action(repo@, state@, r),
    ;
}

/// Explores states in the order they were found, level after level.
pub struct BreadthFirstSolutionFinder<E: StateEvaluator> {
    state_evaluator: E,
    timeout_ms: u128,
    max_depth: i32,
}

impl<E: StateEvaluator> BreadthFirstSolutionFinder<E> {
    /// A finder with the default deadline and depth limit.
    pub fn new(state_evaluator: E) -> (r: BreadthFirstSolutionFinder<E>)
        ensures
            r.spec_timeout_ms() == TIMEOUT,
            r.spec_max_depth() == MAX_DEPTH,
            r.spec_evaluator() == state_evaluator,
    {
        BreadthFirstSolutionFinder { state_evaluator, timeout_ms: TIMEOUT, max_depth: MAX_DEPTH }
    }

    /// A finder with the given deadline, in milliseconds, and depth limit.
    pub fn with_limits(state_evaluator: E, timeout_ms: u128, max_depth: i32) -> (r:
        BreadthFirstSolutionFinder<E>)
        ensures
            r.spec_timeout_ms() == timeout_ms,
            r.spec_max_depth() == max_depth,
            r.spec_evaluator() == state_evaluator,
    {
        BreadthFirstSolutionFinder { state_evaluator, timeout_ms, max_depth }
    }

    pub closed spec fn spec_timeout_ms(&self) -> u128 {
        self.timeout_ms
    }

    pub closed spec fn spec_max_depth(&self) -> i32 {
        self.max_depth
    }

    pub closed spec fn spec_evaluator(&self) -> E {
        self.state_evaluator
    }
}

impl<E: StateEvaluator> SolutionFinder for BreadthFirstSolutionFinder<E> {
    /// Visits the states in breadth-first order, each action's children in
    /// the order of the repository, until every state up to the depth limit
    /// is visited or the deadline passes; the answer is the root action with
    /// the best score recorded over the visited states.
    fn search(&self, state: State, repo: &ActionsRepository) -> (r: ActionId)
        ensures
            exists|f: Seq<StateView>, v: int|
                bfs_explored(repo, state@, self.spec_max_depth() as int, f, v) && answer_of(
                    board_of(&self.spec_evaluator(), repo, f.take(v)),
                    r,
                ),
    {
        let start = Instant::now();
        let ghost root = state@;
        let ghost n = repo.spec_ids().len();
        let ghost max_depth = self.max_depth as int;
        let ghost e = &self.spec_evaluator();
        let mut state = state;
        let score = self.state_evaluator.evaluate(&state, repo);
        state.set_score(score);
        // States are appended in the order they are found and visited in
        // that order; those before `head` have been visited.
        let mut frontier: Vec<State> = Vec::new();
        frontier.push(state);
        let mut head: usize = 0;
        let mut board = Scoreboard::new();
        let ghost mut f_end: Seq<StateView> = Seq::empty();
        let ghost mut v_end: int = 0;
        let ghost mut stopped = false;
        proof {
            assert(views(frontier@).take(0) =~= Seq::<StateView>::empty());
            assert(views(frontier@) =~= seq![root]);
            assert(seq![root] + Seq::<StateView>::empty() =~= seq![root]);
        }
        while head < frontier.len()
            invariant_except_break
                !stopped,
            invariant
                repo.wf(),
                repo.spec_order_ids().len() <= MAX_SCORED_ORDERS,
                n == repo.spec_ids().len(),
                max_depth == self.max_depth,
                e == &self.spec_evaluator(),
                root.wf(),
                root.root_action_id is None,
                head <= frontier@.len(),
                frontier@.len() >= 1,
                forall|k: int|
                    0 <= k < frontier@.len() ==> in_search_tree(repo@, root, (#[trigger] frontier@[k])@),
                forall|k: int|
                    0 <= k < frontier@.len() ==> (#[trigger] frontier@[k]).spec_score()
                        == e.spec_evaluate(frontier@[k]@, repo),
                board_valid(repo@, root, board@),
                !stopped ==> views(frontier@) == seq![root] + expansion(
                    repo,
                    views(frontier@).take(head as int),
                    max_depth,
                ),
                !stopped ==> board@ == board_of(e, repo, views(frontier@).take(head as int)),
                stopped ==> bfs_explored(repo, root, max_depth, f_end, v_end) && board@ == board_of(
                    e,
                    repo,
                    f_end.take(v_end),
                ),
            ensures
                stopped || head >= frontier@.len(),
            decreases frontier_weight(frontier@.subrange(head as int, frontier@.len() as int), n, max_depth),
        {
            let ghost f0 = frontier@;
            let ghost b0 = board@;
            let ghost vs = views(f0);
            proof {
                assert(f0.subrange(head as int, f0.len() as int).subrange(1, f0.len() - head) =~= f0.subrange(head + 1, f0.len() as int));
                assert(in_search_tree(repo@, root, f0[head as int]@));
                assert(vs.take(head + 1).drop_last() =~= vs.take(head as int));
                assert(vs.take(head + 1).last() == f0[head as int]@);
            }
            let timed_out = is_timeout(&start, self.timeout_ms);
            let (stop, children) = visit(
                &frontier[head],
                &mut board,
                repo,
                &start,
                self.timeout_ms,
                timed_out,
                self.max_depth,
                &self.state_evaluator,
            );
            proof {
                let c = f0[head as int]@;
                if c.root_action_id is Some {
                    lemma_record_keeps_board_valid(repo@, root, b0, c.root_action_id.unwrap(), c.depth as i32, f0[head as int].spec_score() as i128);
                }
                assert(f0[head as int].spec_score() == e.spec_evaluate(f0[head as int]@, repo));
                assert(vs[head as int] == f0[head as int]@);
                assert(board@ == board_of(e, repo, vs.take(head + 1)));
            }
            if stop {
                proof {
                    f_end = vs;
                    v_end = head + 1;
                    stopped = true;
                }
                break;
            }
            proof {
                let c = f0[head as int];
                lemma_children_in_tree(repo@, root, c@, children@);
                if c@.depth < max_depth {
                    lemma_children_weigh_less(children@, c@.depth, n, max_depth);
                }
            }
            let mut children = children;
            let ghost kids_seq = children@;
            frontier.append(&mut children);
            head = head + 1;
            proof {
                assert(frontier@.subrange(head as int, frontier@.len() as int) =~= f0.subrange(head as int, f0.len() as int) + kids_seq);
                lemma_frontier_weight_append(f0.subrange(head as int, f0.len() as int), kids_seq, n, max_depth);
                assert forall|k: int| 0 <= k < frontier@.len() implies in_search_tree(repo@, root, (#[trigger] frontier@[k])@)
                    && frontier@[k].spec_score() == e.spec_evaluate(frontier@[k]@, repo) by {
                    if k >= f0.len() {
                        assert(frontier@[k] == kids_seq[k - f0.len()]);
                    } else {
                        assert(frontier@[k] == f0[k]);
                    }
                }
                let nv = views(frontier@);
                assert(nv =~= vs + views(kids_seq));
                assert(nv.take(head as int) =~= vs.take(head as int));
                assert(expansion(repo, vs.take(head as int), max_depth) == expansion(repo, vs.take(head - 1), max_depth) + kids(repo, f0[head - 1]@, max_depth));
                assert(nv =~= seq![root] + expansion(repo, nv.take(head as int), max_depth));
            }
        }
        proof {
            if !stopped {
                let f = views(frontier@);
                assert(f.take(head as int) =~= f);
                f_end = f;
                v_end = head as int;
            }
            assert(bfs_explored(repo, root, max_depth, f_end, v_end));
            assert(board@ == board_of(e, repo, f_end.take(v_end)));
        }
        let r = board.best_action();
        assert(answer_of(board_of(e, repo, f_end.take(v_end)), r));
        assert(root == state@);
        assert(max_depth == self.spec_max_depth() as int);
        assert(bfs_explored(repo, state@, self.spec_max_depth() as int, f_end, v_end) && answer_of(
            board_of(&self.spec_evaluator(), repo, f_end.take(v_end)),
            r,
        ));
        r
    }
}

/// The position of the first state with the highest cached score.
fn best_index(frontier: &Vec<State>) -> (r: usize)
    requires
        frontier@.len() > 0,
    ensures
        r < frontier@.len(),
        forall|j: int|
            0 <= j < frontier@.len() ==> (#[trigger] frontier@[j]).spec_score()
                <= frontier@[r as int].spec_score(),
        forall|j: int|
            0 <= j < r ==> (#[trigger] frontier@[j]).spec_score() < frontier@[r as int].spec_score(),
{
    let mut best: usize = 0;
    let mut i: usize = 1;
    while i < frontier.len()
        invariant
            1 <= i <= frontier@.len(),
            best < i,
            forall|j: int|
                0 <= j < i ==> (#[trigger] frontier@[j]).spec_score() <= frontier@[best as int].spec_score(),
            forall|j: int|
                0 <= j < best ==> (#[trigger] frontier@[j]).spec_score() < frontier@[best as int].spec_score(),
        decreases frontier@.len() - i,
    {
        if *frontier[i].get_score() > *frontier[best].get_score() {
            best = i;
        }
        i = i + 1;
    }
    best
}

/// Explores the state with the highest cached score first, the earliest
/// found among equals.
pub struct BestFirstSolutionFinder<E: StateEvaluator> {
    state_evaluator: E,
    timeout_ms: u128,
    max_depth: i32,
}

impl<E: StateEvaluator> BestFirstSolutionFinder<E> {
    /// A finder with the default deadline and depth limit.
    pub fn new(state_evaluator: E) -> (r: BestFirstSolutionFinder<E>)
        ensures
            r.spec_timeout_ms() == TIMEOUT,
            r.spec_max_depth() == MAX_DEPTH,
            r.spec_evaluator() == state_evaluator,
    {
        BestFirstSolutionFinder { state_evaluator, timeout_ms: TIMEOUT, max_depth: MAX_DEPTH }
    }

    /// A finder with the given deadline, in milliseconds, and depth limit.
    pub fn with_limits(state_evaluator: E, timeout_ms: u128, max_depth: i32) -> (r:
        BestFirstSolutionFinder<E>)
        ensures
            r.spec_timeout_ms() == timeout_ms,
            r.spec_max_depth() == max_depth,
            r.spec_evaluator() == state_evaluator,
    {
        BestFirstSolutionFinder { state_evaluator, timeout_ms, max_depth }
    }

    pub closed spec fn spec_timeout_ms(&self) -> u128 {
        self.timeout_ms
    }

    pub closed spec fn spec_max_depth(&self) -> i32 {
        self.max_depth
    }

    pub closed spec fn spec_evaluator(&self) -> E {
        self.state_evaluator
    }
}

impl<E: StateEvaluator> SolutionFinder for BestFirstSolutionFinder<E> {
    /// Visits first the found state with the highest cached score, until no
    /// state is left to visit or the deadline passes; the answer is the root
    /// action with the best score recorded over the visited states.
    #[verifier::rlimit(60)]
    fn search(&self, state: State, repo: &ActionsRepository) -> (r: ActionId)
        ensures
            exists|w: Seq<StateView>|
                best_first_explored(repo, state@, self.spec_max_depth() as int, w) && answer_of(
                    board_of(&self.spec_evaluator(), repo, w),
                    r,
                ),
    {
        let start = Instant::now();
        let ghost root = state@;
        let ghost n = repo.spec_ids().len();
        let ghost max_depth = self.max_depth as int;
        let ghost e = &self.spec_evaluator();
        let mut state = state;
        let score = self.state_evaluator.evaluate(&state, repo);
        state.set_score(score);
        let mut frontier: Vec<State> = Vec::new();
        frontier.push(state);
        let mut board = Scoreboard::new();
        let ghost mut w: Seq<StateView> = Seq::empty();
        while frontier.len() > 0
            invariant
                repo.wf(),
                repo.spec_order_ids().len() <= MAX_SCORED_ORDERS,
                n == repo.spec_ids().len(),
                max_depth == self.max_depth,
                e == &self.spec_evaluator(),
                root.wf(),
                root.root_action_id is None,
                forall|k: int|
                    0 <= k < frontier@.len() ==> in_search_tree(repo@, root, (#[trigger] frontier@[k])@),
                forall|k: int|
                    0 <= k < frontier@.len() ==> (#[trigger] frontier@[k]).spec_score()
                        == e.spec_evaluate(frontier@[k]@, repo),
                board_valid(repo@, root, board@),
                w.len() == 0 ==> frontier@.len() == 1 && frontier@[0]@ == root,
                w.len() > 0 ==> best_first_explored(repo, root, max_depth, w),
                w.len() > 0 ==> forall|k: int|
                    0 <= k < frontier@.len() ==> pushed_by(repo, max_depth, w, (#[trigger] frontier@[k])@),
                board@ == board_of(e, repo, w),
            ensures
                w.len() > 0,
            decreases frontier_weight(frontier@, n, max_depth),
        {
            let ghost f0 = frontier@;
            let ghost b0 = board@;
            let ghost w0 = w;
            let k = best_index(&frontier);
            let current = frontier.remove(k);
            proof {
                let pre = f0.subrange(0, k as int);
                let post = f0.subrange(k + 1, f0.len() as int);
                assert(f0 =~= pre + (seq![current] + post));
                assert(frontier@ =~= pre + post);
                lemma_frontier_weight_append(pre, seq![current] + post, n, max_depth);
                lemma_frontier_weight_append(seq![current], post, n, max_depth);
                lemma_frontier_weight_append(pre, post, n, max_depth);
                assert(seq![current].subrange(1, 1) =~= Seq::<State>::empty());
                assert(in_search_tree(repo@, root, f0[k as int]@));
                assert(current == f0[k as int]);
                assert forall|j: int| 0 <= j < frontier@.len() implies frontier@[j] == f0[if j < k { j } else { j + 1 }] by {}
                if w0.len() == 0 {
                    assert(k == 0);
                } else {
                    assert(pushed_by(repo, max_depth, w0, f0[k as int]@));
                }
                lemma_push_visited(repo, max_depth, root, w0, current@);
                assert(current.spec_score() == e.spec_evaluate(f0[k as int]@, repo));
                w = w.push(current@);
                assert(w.drop_last() =~= w0);
            }
            let timed_out = is_timeout(&start, self.timeout_ms);
            let (stop, children) = visit(
                &current,
                &mut board,
                repo,
                &start,
                self.timeout_ms,
                timed_out,
                self.max_depth,
                &self.state_evaluator,
            );
            proof {
                let c = current@;
                if c.root_action_id is Some {
                    lemma_record_keeps_board_valid(repo@, root, b0, c.root_action_id.unwrap(), c.depth as i32, current.spec_score() as i128);
                }
                assert(board@ == board_of(e, repo, w));
            }
            if stop {
                break;
            }
            proof {
                lemma_children_in_tree(repo@, root, current@, children@);
                if current@.depth < max_depth {
                    lemma_children_weigh_less(children@, current@.depth, n, max_depth);
                }
            }
            let mut children = children;
            let ghost f1 = frontier@;
            let ghost kids_seq = children@;
            frontier.append(&mut children);
            proof {
                lemma_frontier_weight_append(f1, kids_seq, n, max_depth);
                let last = w.len() - 1;
                assert(w[last] == current@);
                assert forall|j: int| 0 <= j < frontier@.len() implies in_search_tree(repo@, root, (#[trigger] frontier@[j])@)
                    && frontier@[j].spec_score() == e.spec_evaluate(frontier@[j]@, repo)
                    && pushed_by(repo, max_depth, w, frontier@[j]@) by {
                    if j >= f1.len() {
                        assert(frontier@[j] == kids_seq[j - f1.len()]);
                        assert(views(kids_seq)[j - f1.len()] == kids_seq[j - f1.len()]@);
                        lemma_pushed_by_kids(repo, max_depth, w, frontier@[j]@);
                    } else {
                        assert(frontier@[j] == f1[j]);
                        let jj = if j < k { j } else { j + 1 };
                        assert(frontier@[j] == f0[jj]);
                        assert(pushed_by(repo, max_depth, w0, f0[jj]@));
                    }
                }
            }
        }
        let r = board.best_action();
        assert(w.len() > 0);
        assert(answer_of(board_of(e, repo, w), r));
        assert(best_first_explored(repo, state@, self.spec_max_depth() as int, w) && answer_of(
            board_of(&self.spec_evaluator(), repo, w),
            r,
        ));
        r
    }
}

/// Visiting a state found by an earlier expansion (or the root, first)
/// extends a best-first visit, and keeps every state already pushed pushed.
proof fn lemma_push_visited(
    repo: &ActionsRepository,
    max_depth: int,
    root: StateView,
    w0: Seq<StateView>,
    s: StateView,
)
    requires
        w0.len() == 0 ==> s == root,
        w0.len() > 0 ==> best_first_explored(repo, root, max_depth, w0) && pushed_by(repo, max_depth, w0, s),
    ensures
        best_first_explored(repo, root, max_depth, w0.push(s)),
        forall|t: StateView| pushed_by(repo, max_depth, w0, t) ==> pushed_by(repo, max_depth, w0.push(s), t),
{
    let w = w0.push(s);
    assert forall|j: int| 1 <= j < w.len() implies #[trigger] pushed_earlier(repo, max_depth, w, j) by {
        if j < w0.len() {
            assert(pushed_earlier(repo, max_depth, w0, j));
            let i = choose|i: int| 0 <= i < j && #[trigger] kids(repo, w0[i], max_depth).contains(w0[j]);
            assert(w[i] == w0[i] && w[j] == w0[j]);
        } else {
            let i = choose|i: int| 0 <= i < w0.len() && #[trigger] kids(repo, w0[i], max_depth).contains(s);
            assert(w[i] == w0[i] && w[j] == s);
        }
    }
    assert forall|t: StateView| pushed_by(repo, max_depth, w0, t) implies pushed_by(repo, max_depth, w, t) by {
        let i = choose|i: int| 0 <= i < w0.len() && #[trigger] kids(repo, w0[i], max_depth).contains(t);
        assert(w[i] == w0[i]);
    }
}

/// A child pushed by the last visited state is pushed by the visit.
proof fn lemma_pushed_by_kids(repo: &ActionsRepository, max_depth: int, w: Seq<StateView>, t: StateView)
    requires
        w.len() > 0,
        kids(repo, w.last(), max_depth).contains(t),
    ensures
        pushed_by(repo, max_depth, w, t),
{
    assert(kids(repo, w[w.len() - 1], max_depth).contains(t));
}

/// Recording a valid first action keeps every root action of the scoreboard valid.
proof fn lemma_record_keeps_board_valid(
    repo: Map<ActionId, ActionModel>,
    root: StateView,
    b: Seq<crate::scoreboard::ScoreEntry>,
    id: ActionId,
    depth: i32,
    score: i128,
)
    requires
        board_valid(repo, root, b),
        valid_first_action(repo, root, id),
    ensures
        board_valid(repo, root, spec_record(b, id, depth, score)),
{
    let n = spec_record(b, id, depth, score);
    if crate::scoreboard::has_root(b, id) {
        let i = crate::scoreboard::root_index(b, id);
        assert(b[i].root_action_id == id);
        assert forall|k: int| 0 <= k < n.len() implies valid_first_action(repo, root, #[trigger] n[k].root_action_id) by {
            if k != i {
                assert(n[k] == b[k]);
            }
        }
        assert forall|x: int, y: int| 0 <= x < y < n.len() implies #[trigger] n[x].root_action_id != #[trigger] n[y].root_action_id by {
            assert(n[x].root_action_id == b[x].root_action_id);
            assert(n[y].root_action_id == b[y].root_action_id);
        }
    } else {
        assert forall|k: int| 0 <= k < n.len() implies valid_first_action(repo, root, #[trigger] n[k].root_action_id) by {
            if k < b.len() {
                assert(n[k] == b[k]);
            }
        }
        assert forall|x: int, y: int| 0 <= x < y < n.len() implies #[trigger] n[x].root_action_id != #[trigger] n[y].root_action_id by {
            assert(n[x].root_action_id == b[x].root_action_id);
            if y < b.len() {
                assert(n[y].root_action_id == b[y].root_action_id);
            } else {
                assert(b[x].root_action_id != id);
            }
        }
    }
}

} // verus!
