use brew_search::models::{Action, ActionType, LearntSpell, Order, UnlearntSpell};
use brew_search::repository::ActionsRepository;
use brew_search::REST_ID;

fn sample() -> ActionsRepository {
    let mut repo = ActionsRepository::new();
    repo.add_rest();
    repo.add_order((40, 0), Order::new(12, [-2, -1, 0, 0]));
    repo.add_learnt_spell((3, 1), LearntSpell::new([2, 0, 0, 0]));
    repo.add_unlearnt_spell((8, 1), UnlearntSpell::new([-1, 1, 0, 0], 2, 1));
    repo.add_order((41, 0), Order::new(9, [0, 0, -2, 0]));
    repo
}

#[test]
fn repository_lists_ids_in_order_of_insertion() {
    let repo = sample();
    let ids: Vec<(i32, i32)> = repo.get_action_ids().into_iter().copied().collect();
    assert_eq!(ids, vec![REST_ID, (40, 0), (3, 1), (8, 1), (41, 0)]);
    assert_eq!(repo.get_order_ids(), &vec![(40, 0), (41, 0)]);
    assert_eq!(repo.get_learnt_spell_ids(), &vec![(3, 1)]);
}

#[test]
fn repository_finds_actions_by_id() {
    let repo = sample();
    match repo.get_action(&(40, 0)) {
        Some(Action::Brew(o)) => {
            assert_eq!(*o.get_price(), 12);
            assert_eq!(o.get_delta(), [-2, -1, 0, 0]);
        }
        _ => panic!("expected the order"),
    }
    match repo.get_action(&(8, 1)) {
        Some(Action::Learn(s)) => {
            assert_eq!(s.get_read_ahead_tax(), 2);
            assert_eq!(s.get_tax_gain(), 1);
        }
        _ => panic!("expected the unlockable spell"),
    }
    assert!(repo.get_action(&REST_ID).unwrap().is_rest());
    assert!(repo.get_action(&(8, 1)).unwrap().is_learn());
    assert!(repo.get_action(&(3, 2)).is_none());
}

#[test]
fn repository_replaces_an_action_stored_twice() {
    let mut repo = sample();
    repo.add_learnt_spell((40, 0), LearntSpell::new([1, 0, 0, 0]));
    assert_eq!(repo.get_order_ids(), &vec![(41, 0)]);
    assert_eq!(repo.get_learnt_spell_ids(), &vec![(3, 1), (40, 0)]);
    assert_eq!(repo.get_action_ids().len(), 5);
    let a = repo.get_action(&(40, 0)).unwrap();
    assert_eq!(a.get_action_type(), ActionType::Cast);
    assert_eq!(a.get_ingredient_change(), [1, 0, 0, 0]);
}

#[test]
fn action_types_and_changes() {
    let repo = sample();
    assert_eq!(repo.get_action(&REST_ID).unwrap().get_action_type(), ActionType::Rest);
    assert_eq!(repo.get_action(&REST_ID).unwrap().get_ingredient_change(), [0, 0, 0, 0]);
    assert_eq!(repo.get_action(&(3, 1)).unwrap().get_action_type(), ActionType::Cast);
    assert_eq!(repo.get_action(&(8, 1)).unwrap().get_action_type(), ActionType::Learn);
    assert_eq!(repo.get_action(&(8, 1)).unwrap().get_ingredient_change(), [-1, 1, 0, 0]);
    assert_eq!(repo.get_action(&(41, 0)).unwrap().get_action_type(), ActionType::Brew);
}

#[test]
fn repository_moves_an_id_between_lists() {
    let mut repo = sample();
    repo.add_order((3, 1), Order::new(5, [-1, 0, 0, 0]));
    assert_eq!(repo.get_learnt_spell_ids(), &vec![]);
    assert_eq!(repo.get_order_ids(), &vec![(40, 0), (41, 0), (3, 1)]);
    repo.add_rest();
    assert_eq!(repo.action_count(), 5);
    assert_eq!(repo.get_order_ids(), &vec![(40, 0), (41, 0), (3, 1)]);
}
