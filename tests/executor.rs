use brew_search::executor::ActionExecutor;
use brew_search::expander::StateExpander;
use brew_search::evaluator::{DefaultStateEvaluator, StateEvaluator};
use brew_search::id_set::IdSet;
use brew_search::models::{LearntSpell, Order, UnlearntSpell};
use brew_search::repository::ActionsRepository;
use brew_search::state::State;
use brew_search::REST_ID;

fn set_of(ids: &[i32]) -> IdSet {
    let mut s = IdSet::new();
    for id in ids {
        s.insert(*id);
    }
    s
}

fn start(ingredients: [i32; 4]) -> State {
    State::new(ingredients, 0, IdSet::new(), IdSet::new(), IdSet::new(), None, 0)
}

fn valid(s: &State) -> bool {
    let i = s.get_ingredients();
    i.iter().all(|t| *t >= 0) && i.iter().sum::<i32>() <= 10
}

#[test]
fn capacity_rejection() {
    let mut repo = ActionsRepository::new();
    repo.add_learnt_spell((1, 1), LearntSpell::new([2, 0, 0, 0]));
    let s = start([9, 0, 0, 0]);
    assert!(ActionExecutor::execute(&repo, &s, &(1, 1)).is_none());
}

#[test]
fn unaffordable_cast_is_rejected() {
    let mut repo = ActionsRepository::new();
    repo.add_learnt_spell((1, 1), LearntSpell::new([-2, 1, 0, 0]));
    let s = start([1, 0, 0, 0]);
    assert!(ActionExecutor::execute(&repo, &s, &(1, 1)).is_none());
}

#[test]
fn unknown_action_is_rejected() {
    let repo = ActionsRepository::new();
    let s = start([1, 0, 0, 0]);
    assert!(ActionExecutor::execute(&repo, &s, &(5, 1)).is_none());
}

#[test]
fn cast_applies_its_change_and_disables_itself() {
    let mut repo = ActionsRepository::new();
    repo.add_learnt_spell((1, 1), LearntSpell::new([-1, 1, 0, 0]));
    let s = start([3, 0, 0, 0]);
    let c = ActionExecutor::execute(&repo, &s, &(1, 1)).unwrap();
    assert_eq!(*c.get_ingredients(), [2, 1, 0, 0]);
    assert!(c.get_inactive_spells().contains(1));
    assert!(!c.is_action_active(&(1, 1)));
    assert_eq!(*c.get_depth(), 1);
    assert_eq!(*c.get_root_action_id(), Some((1, 1)));
    assert_eq!(*c.get_rupees(), 0);
    assert_eq!(*c.get_score(), 0);
    assert!(valid(&c));
}

#[test]
fn order_pays_its_price_and_completes_for_good() {
    let mut repo = ActionsRepository::new();
    repo.add_rest();
    repo.add_order((30, 0), Order::new(14, [-2, 0, -1, 0]));
    let mut s = start([3, 0, 1, 0]);
    s = State::new(*s.get_ingredients(), 5, IdSet::new(), IdSet::new(), IdSet::new(), None, 0);
    let c = ActionExecutor::execute(&repo, &s, &(30, 0)).unwrap();
    assert_eq!(*c.get_ingredients(), [1, 0, 0, 0]);
    assert_eq!(*c.get_rupees(), 19);
    assert!(c.get_inactive_orders().contains(30));
    assert!(!c.get_inactive_spells().contains(30));
    let rested = ActionExecutor::execute(&repo, &c, &REST_ID).unwrap();
    assert!(rested.get_inactive_orders().contains(30));
    assert!(!rested.is_action_active(&(30, 0)));
}

#[test]
fn rest_clears_the_disabled_set() {
    let mut repo = ActionsRepository::new();
    repo.add_rest();
    let s = State::new([1, 2, 0, 0], 7, set_of(&[9]), set_of(&[3, 4, 5]), set_of(&[6]), Some((3, 1)), 2);
    let c = ActionExecutor::execute(&repo, &s, &REST_ID).unwrap();
    assert!(c.get_inactive_spells().is_empty());
    assert_eq!(*c.get_ingredients(), [1, 2, 0, 0]);
    assert_eq!(*c.get_rupees(), 7);
    assert!(c.get_inactive_orders().contains(9));
    assert!(c.get_learnt_spells().contains(6));
    assert_eq!(*c.get_depth(), 3);
    assert_eq!(*c.get_root_action_id(), Some((3, 1)));
}

#[test]
fn rest_from_an_empty_disabled_set() {
    let mut repo = ActionsRepository::new();
    repo.add_rest();
    let s = start([0, 0, 0, 0]);
    let c = ActionExecutor::execute(&repo, &s, &REST_ID).unwrap();
    assert!(c.get_inactive_spells().is_empty());
    assert_eq!(*c.get_root_action_id(), Some(REST_ID));
}

#[test]
fn unlock_bonus_capping() {
    let mut repo = ActionsRepository::new();
    repo.add_unlearnt_spell((7, 1), UnlearntSpell::new([0, -1, 2, 0], 0, 5));
    let s = start([8, 0, 0, 1]);
    let c = ActionExecutor::execute(&repo, &s, &(7, 1)).unwrap();
    assert_eq!(*c.get_ingredients(), [9, 0, 0, 1]);
    assert!(valid(&c));
}

#[test]
fn unlock_pays_its_tax_before_the_bonus() {
    let mut repo = ActionsRepository::new();
    repo.add_unlearnt_spell((7, 1), UnlearntSpell::new([0, -1, 2, 0], 3, 2));
    let s = start([4, 1, 0, 0]);
    let c = ActionExecutor::execute(&repo, &s, &(7, 1)).unwrap();
    assert_eq!(*c.get_ingredients(), [3, 1, 0, 0]);
    let poor = start([2, 0, 0, 0]);
    assert!(ActionExecutor::execute(&repo, &poor, &(7, 1)).is_none());
}

#[test]
fn fresh_unlock_is_not_disabled() {
    let mut repo = ActionsRepository::new();
    repo.add_unlearnt_spell((7, 1), UnlearntSpell::new([-1, 1, 0, 0], 1, 0));
    let s = start([3, 0, 0, 0]);
    let c = ActionExecutor::execute(&repo, &s, &(7, 1)).unwrap();
    assert!(!c.get_inactive_spells().contains(7));
    assert!(c.get_learnt_spells().contains(7));
    assert!(c.is_action_active(&(7, 1)));
    // Cast afterwards, it applies its own change and is disabled until a rest.
    let cast = ActionExecutor::execute(&repo, &c, &(7, 1)).unwrap();
    assert_eq!(*cast.get_ingredients(), [1, 1, 0, 0]);
    assert!(cast.get_inactive_spells().contains(7));
    assert!(cast.get_learnt_spells().contains(7));
}

#[test]
fn depth_and_root_along_a_path() {
    let mut repo = ActionsRepository::new();
    repo.add_rest();
    repo.add_learnt_spell((1, 1), LearntSpell::new([1, 0, 0, 0]));
    repo.add_learnt_spell((2, 1), LearntSpell::new([-1, 1, 0, 0]));
    let s0 = start([0, 0, 0, 0]);
    let s1 = ActionExecutor::execute(&repo, &s0, &(1, 1)).unwrap();
    let s2 = ActionExecutor::execute(&repo, &s1, &(2, 1)).unwrap();
    let s3 = ActionExecutor::execute(&repo, &s2, &REST_ID).unwrap();
    let s4 = ActionExecutor::execute(&repo, &s3, &(1, 1)).unwrap();
    let path = [&s1, &s2, &s3, &s4];
    for (k, s) in path.iter().enumerate() {
        assert_eq!(*s.get_depth(), k as i32 + 1);
        assert_eq!(*s.get_root_action_id(), Some((1, 1)));
        assert!(valid(s));
    }
    assert_eq!(*s4.get_ingredients(), [1, 1, 0, 0]);
}

#[test]
fn children_are_the_accepted_active_actions_in_order() {
    let mut repo = ActionsRepository::new();
    repo.add_rest();
    repo.add_learnt_spell((1, 1), LearntSpell::new([2, 0, 0, 0]));
    repo.add_learnt_spell((2, 1), LearntSpell::new([-1, 1, 0, 0]));
    repo.add_learnt_spell((3, 1), LearntSpell::new([0, 0, 0, 1]));
    repo.add_order((4, 0), Order::new(10, [-2, 0, 0, 0]));
    // Spell 3 is disabled; spell 2 cannot be paid.
    let s = State::new([0, 0, 0, 0], 0, IdSet::new(), set_of(&[3]), IdSet::new(), None, 0);
    let clock = std::time::Instant::now();
    let e = DefaultStateEvaluator::new();
    let children = StateExpander::get_children(&s, &repo, &clock, 60_000, &e);
    let roots: Vec<Option<(i32, i32)>> =
        children.iter().map(|c| *c.get_root_action_id()).collect();
    assert_eq!(roots, vec![Some(REST_ID), Some((1, 1))]);
    for c in &children {
        assert_eq!(*c.get_score(), e.evaluate(c, &repo));
        assert_eq!(*c.get_depth(), 1);
    }
}

#[test]
fn children_stop_at_a_passed_deadline() {
    let mut repo = ActionsRepository::new();
    repo.add_rest();
    let s = start([0, 0, 0, 0]);
    let clock = std::time::Instant::now();
    let children = StateExpander::get_children(&s, &repo, &clock, 0, &DefaultStateEvaluator::new());
    assert!(children.is_empty());
}

#[test]
fn children_until_reports_the_whole_list_before_the_deadline() {
    let mut repo = ActionsRepository::new();
    repo.add_rest();
    repo.add_learnt_spell((1, 1), LearntSpell::new([2, 0, 0, 0]));
    repo.add_learnt_spell((2, 1), LearntSpell::new([-1, 1, 0, 0]));
    let s = start([0, 0, 0, 0]);
    let clock = std::time::Instant::now();
    let (children, cut) =
        StateExpander::get_children_until(&s, &repo, &clock, 60_000, &DefaultStateEvaluator::new());
    assert_eq!(cut, 3);
    assert_eq!(cut, repo.action_count());
    assert_eq!(children.len(), 2);
}

#[test]
fn children_until_cuts_at_the_first_active_action_after_the_deadline() {
    let mut repo = ActionsRepository::new();
    repo.add_rest();
    repo.add_learnt_spell((1, 1), LearntSpell::new([2, 0, 0, 0]));
    let s = start([0, 0, 0, 0]);
    let clock = std::time::Instant::now();
    let (children, cut) =
        StateExpander::get_children_until(&s, &repo, &clock, 0, &DefaultStateEvaluator::new());
    assert_eq!(cut, 0);
    assert!(children.is_empty());
}
