use brew_search::game::{ActionDescriptor, Command, DescriptorKind, Game};
use brew_search::id_set::IdSet;
use brew_search::models::Action;
use brew_search::search::Strategy;
use brew_search::{NULL_ACTION_ID, REST_ID};

fn desc(action_id: i32, kind: DescriptorKind, delta: [i32; 4]) -> ActionDescriptor {
    ActionDescriptor {
        action_id,
        kind,
        delta,
        price: 0,
        tome_index: 0,
        tax_count: 0,
        castable: true,
        repeatable: false,
    }
}

#[test]
fn load_actions_builds_the_turn() {
    let mut brew = desc(50, DescriptorKind::Brew, [-1, -1, 0, 0]);
    brew.price = 9;
    let mut cast = desc(78, DescriptorKind::Cast, [-1, 2, 0, 0]);
    cast.repeatable = true;
    cast.castable = false;
    let mut learn = desc(12, DescriptorKind::Learn, [2, 0, -1, 0]);
    learn.tome_index = 1;
    learn.tax_count = 3;
    let other = desc(90, DescriptorKind::OpponentCast, [1, 0, 0, 0]);
    let (repo, inactive) = Game::load_actions(&vec![brew, cast, learn, other]);
    let ids: Vec<(i32, i32)> = repo.get_action_ids().into_iter().copied().collect();
    assert_eq!(ids, vec![REST_ID, (50, 0), (78, 1), (78, 2), (12, 1)]);
    assert_eq!(repo.get_order_ids(), &vec![(50, 0)]);
    assert_eq!(repo.get_learnt_spell_ids(), &vec![(78, 1), (78, 2)]);
    assert_eq!(repo.get_action(&(78, 2)).unwrap().get_ingredient_change(), [-2, 4, 0, 0]);
    match repo.get_action(&(12, 1)) {
        Some(Action::Learn(s)) => {
            assert_eq!(s.get_read_ahead_tax(), 1);
            assert_eq!(s.get_tax_gain(), 3);
        }
        _ => panic!("expected the unlockable spell"),
    }
    match repo.get_action(&(50, 0)) {
        Some(Action::Brew(o)) => assert_eq!(*o.get_price(), 9),
        _ => panic!("expected the order"),
    }
    assert_eq!(inactive.to_vec(), vec![78]);
}

#[test]
fn initial_state_has_no_history() {
    let mut inactive = IdSet::new();
    inactive.insert(4);
    let s = Game::initial_state([1, 2, 3, 4], 25, inactive);
    assert_eq!(*s.get_ingredients(), [1, 2, 3, 4]);
    assert_eq!(*s.get_rupees(), 25);
    assert_eq!(*s.get_depth(), 0);
    assert_eq!(*s.get_root_action_id(), None);
    assert!(s.get_inactive_spells().contains(4));
    assert!(s.get_inactive_orders().is_empty());
    assert!(s.get_learnt_spells().is_empty());
}

#[test]
fn command_for_each_kind() {
    let mut brew = desc(50, DescriptorKind::Brew, [-1, -1, 0, 0]);
    brew.price = 9;
    let mut cast = desc(78, DescriptorKind::Cast, [-1, 2, 0, 0]);
    cast.repeatable = true;
    let learn = desc(12, DescriptorKind::Learn, [2, 0, -1, 0]);
    let (repo, _) = Game::load_actions(&vec![brew, cast, learn]);
    assert_eq!(Game::command_for(&repo, &(50, 0)), Command::Brew(50));
    assert_eq!(Game::command_for(&repo, &(78, 2)), Command::Cast(78, 2));
    assert_eq!(Game::command_for(&repo, &(12, 1)), Command::Learn(12));
    assert_eq!(Game::command_for(&repo, &REST_ID), Command::Rest);
    assert_eq!(Game::command_for(&repo, &NULL_ACTION_ID), Command::Wait);
}

#[test]
fn choose_command_with_only_rest() {
    let c = Game::choose_command(&Strategy::BreadthFirstSearch, &vec![], [0, 0, 0, 0], 0);
    assert!(c == Command::Rest || c == Command::Wait);
    let c = Game::choose_command(&Strategy::BestFirstSearch, &vec![], [0, 0, 0, 0], 0);
    assert!(c == Command::Rest || c == Command::Wait);
}

#[test]
fn choose_command_picks_a_legal_action() {
    let mut brew = desc(50, DescriptorKind::Brew, [-2, 0, 0, 0]);
    brew.price = 12;
    let blocked = desc(60, DescriptorKind::Brew, [0, 0, 0, -1]);
    let c = Game::choose_command(&Strategy::BreadthFirstSearch, &vec![brew, blocked], [2, 0, 0, 0], 0);
    assert!(c == Command::Brew(50) || c == Command::Rest || c == Command::Wait);
}
