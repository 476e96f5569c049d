use brew_search::evaluator::{DefaultStateEvaluator, RandomStateEvaluator, StateEvaluator};
use brew_search::id_set::IdSet;
use brew_search::models::{LearntSpell, Order};
use brew_search::repository::ActionsRepository;
use brew_search::scoreboard::Scoreboard;
use brew_search::search::{BestFirstSolutionFinder, BreadthFirstSolutionFinder, SolutionFinder};
use brew_search::clock::is_timeout;
use brew_search::state::State;
use brew_search::{NULL_ACTION_ID, REST_ID};

fn state(ingredients: [i32; 4], rupees: i64, completed: &[i32]) -> State {
    let mut orders = IdSet::new();
    for id in completed {
        orders.insert(*id);
    }
    State::new(ingredients, rupees, orders, IdSet::new(), IdSet::new(), None, 0)
}

fn one_order() -> ActionsRepository {
    let mut repo = ActionsRepository::new();
    repo.add_rest();
    repo.add_order((10, 0), Order::new(10, [-2, 0, 0, 0]));
    repo
}

#[test]
fn score_of_an_affordable_order() {
    let e = DefaultStateEvaluator::new();
    assert_eq!(e.evaluate(&state([3, 0, 0, 0], 0, &[]), &one_order()), 30);
}

#[test]
fn score_of_an_order_out_of_reach() {
    let e = DefaultStateEvaluator::new();
    assert_eq!(e.evaluate(&state([0, 1, 0, 0], 0, &[]), &one_order()), -20);
    assert_eq!(e.evaluate(&state([1, 0, 0, 0], 0, &[]), &one_order()), -10);
}

#[test]
fn score_of_a_completed_order_and_rupees() {
    let e = DefaultStateEvaluator::new();
    assert_eq!(e.evaluate(&state([0, 0, 0, 0], 10, &[10]), &one_order()), 10_000 + 10 + 300);
}

#[test]
fn score_weighs_the_consumed_tiers() {
    let mut repo = ActionsRepository::new();
    repo.add_order((5, 0), Order::new(2, [-1, -1, -1, -1]));
    let e = DefaultStateEvaluator::new();
    assert_eq!(e.evaluate(&state([0, 0, 0, 0], 0, &[5]), &repo), 2_000 + 5 + 10 + 20 + 30);
    assert_eq!(e.evaluate(&state([1, 0, 2, 0], 0, &[]), &repo), -2 * 2);
}

#[test]
fn score_ignores_depth_and_disabled_spells() {
    let repo = one_order();
    let e = DefaultStateEvaluator::new();
    let mut disabled = IdSet::new();
    disabled.insert(3);
    let deep = State::new([3, 0, 0, 0], 0, IdSet::new(), disabled, IdSet::new(), Some((3, 1)), 3);
    assert_eq!(e.evaluate(&deep, &repo), e.evaluate(&state([3, 0, 0, 0], 0, &[]), &repo));
}

#[test]
fn order_completion_reward_dominance() {
    let mut repo = ActionsRepository::new();
    repo.add_rest();
    repo.add_order((1, 0), Order::new(10, [-2, -2, 0, 0]));
    repo.add_order((2, 0), Order::new(30, [0, 0, -3, -2]));
    let e = DefaultStateEvaluator::new();
    let inventories = [[0, 0, 0, 0], [10, 0, 0, 0], [0, 0, 5, 5], [2, 2, 3, 2], [0, 0, 0, 10]];
    for hi in &inventories {
        for lo in &inventories {
            let only_high = e.evaluate(&state(*hi, 4, &[2]), &repo);
            let only_low = e.evaluate(&state(*lo, 4, &[1]), &repo);
            assert!(only_high > only_low);
        }
    }
}

#[test]
fn random_evaluator_scores_rupees() {
    let e = RandomStateEvaluator::new();
    assert_eq!(e.evaluate(&state([1, 0, 0, 0], 17, &[]), &one_order()), 17);
}

#[test]
fn scoreboard_keeps_improvements_only() {
    let mut b = Scoreboard::new();
    b.record((1, 1), 3, 10);
    b.record((1, 1), 5, 6);
    assert_eq!((b.entries()[0].depth, b.entries()[0].score), (3, 10));
    b.record((1, 1), 3, 10);
    assert_eq!((b.entries()[0].depth, b.entries()[0].score), (3, 10));
    b.record((1, 1), 4, 11);
    assert_eq!((b.entries()[0].depth, b.entries()[0].score), (4, 11));
    b.record((1, 1), 2, 5);
    assert_eq!((b.entries()[0].depth, b.entries()[0].score), (2, 5));
    assert_eq!(b.entries().len(), 1);
}

#[test]
fn scoreboard_picks_the_first_best() {
    let mut b = Scoreboard::new();
    assert_eq!(b.best_action(), NULL_ACTION_ID);
    b.record((4, 1), 1, 7);
    b.record((2, 0), 1, 9);
    b.record((6, 1), 1, 9);
    b.record((8, 1), 1, -3);
    assert_eq!(b.best_action(), (2, 0));
    b.record((6, 1), 2, 12);
    assert_eq!(b.best_action(), (6, 1));
}

#[test]
fn breadth_first_prefers_brewing_at_depth_one() {
    let f = BreadthFirstSolutionFinder::with_limits(DefaultStateEvaluator::new(), 60_000, 1);
    assert_eq!(f.search(state([2, 0, 0, 0], 0, &[]), &one_order()), (10, 0));
}

#[test]
fn best_first_prefers_brewing_at_depth_one() {
    let f = BestFirstSolutionFinder::with_limits(DefaultStateEvaluator::new(), 60_000, 1);
    assert_eq!(f.search(state([2, 0, 0, 0], 0, &[]), &one_order()), (10, 0));
}

#[test]
fn search_reaches_a_brew_two_steps_away() {
    let mut repo = one_order();
    repo.add_learnt_spell((3, 1), LearntSpell::new([2, 0, 0, 0]));
    let f = BreadthFirstSolutionFinder::with_limits(DefaultStateEvaluator::new(), 60_000, 2);
    assert_eq!(f.search(state([0, 0, 0, 0], 0, &[]), &repo), (3, 1));
    let g = BestFirstSolutionFinder::with_limits(DefaultStateEvaluator::new(), 60_000, 2);
    assert_eq!(g.search(state([0, 0, 0, 0], 0, &[]), &repo), (3, 1));
}

#[test]
fn zero_deadline_answers_at_once() {
    let f = BreadthFirstSolutionFinder::with_limits(DefaultStateEvaluator::new(), 0, 5);
    assert_eq!(f.search(state([2, 0, 0, 0], 0, &[]), &one_order()), NULL_ACTION_ID);
    let g = BestFirstSolutionFinder::with_limits(DefaultStateEvaluator::new(), 0, 5);
    assert_eq!(g.search(state([2, 0, 0, 0], 0, &[]), &one_order()), NULL_ACTION_ID);
}

#[test]
fn default_deadline_answers_a_valid_first_action() {
    let mut repo = one_order();
    repo.add_learnt_spell((3, 1), LearntSpell::new([1, 0, 0, 0]));
    repo.add_learnt_spell((4, 1), LearntSpell::new([-1, 1, 0, 0]));
    let f = BreadthFirstSolutionFinder::new(DefaultStateEvaluator::new());
    let r = f.search(state([0, 0, 0, 0], 0, &[]), &repo);
    assert!(r == NULL_ACTION_ID || r == REST_ID || r == (3, 1));
    let g = BestFirstSolutionFinder::new(DefaultStateEvaluator::new());
    let r = g.search(state([0, 0, 0, 0], 0, &[]), &repo);
    assert!(r == NULL_ACTION_ID || r == REST_ID || r == (3, 1));
}

#[test]
fn no_root_action_without_actions() {
    let f = BreadthFirstSolutionFinder::with_limits(DefaultStateEvaluator::new(), 60_000, 3);
    assert_eq!(f.search(state([0, 0, 0, 0], 0, &[]), &ActionsRepository::new()), NULL_ACTION_ID);
}

#[test]
fn timeout_after_zero_milliseconds() {
    let clock = std::time::Instant::now();
    assert!(is_timeout(&clock, 0));
    assert!(!is_timeout(&clock, 3_600_000));
}
