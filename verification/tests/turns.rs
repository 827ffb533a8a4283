use gridworld::turns::TurnManager;

#[test]
fn scenario_player_then_others_cycles() {
    // TurnManager initialized with player=0, others=[1,2]: the calls
    // return 0, 1, 2, 0, 1, ...
    let mut tm = TurnManager::new();
    tm.initialize(0, &[1, 2]);
    assert_eq!(tm.current_entity(), None);
    assert_eq!(tm.next_turn(), Some(0));
    assert_eq!(tm.next_turn(), Some(1));
    assert_eq!(tm.next_turn(), Some(2));
    assert_eq!(tm.next_turn(), Some(0));
    assert_eq!(tm.next_turn(), Some(1));
}

#[test]
fn every_id_is_visited_within_queue_size_calls() {
    let mut tm = TurnManager::new();
    tm.initialize(5, &[7, 9]);
    let mut seen = Vec::new();
    for _ in 0..3 {
        seen.push(tm.next_turn().expect("queue is non-empty"));
    }
    let first = seen[0];
    for id in [5, 7, 9] {
        assert!(seen.contains(&id), "id {} not visited within 3 calls", id);
    }
    // The K+1-th call returns the same id as the first call.
    assert_eq!(tm.next_turn(), Some(first));
}

#[test]
fn first_call_does_not_rotate() {
    let mut tm = TurnManager::new();
    tm.initialize(3, &[4]);
    // The very first call picks the front without consuming a rotation.
    assert_eq!(tm.next_turn(), Some(3));
    assert_eq!(tm.current_entity(), Some(3));
}

#[test]
fn empty_queue_yields_none() {
    let mut tm = TurnManager::new();
    assert_eq!(tm.next_turn(), None);
    assert_eq!(tm.current_entity(), None);
}

#[test]
fn initialize_drops_duplicates_of_the_player() {
    let mut tm = TurnManager::new();
    tm.initialize(1, &[2, 1, 3, 1]);
    assert_eq!(tm.queue_len(), 3);
    assert_eq!(tm.next_turn(), Some(1));
    assert_eq!(tm.next_turn(), Some(2));
    assert_eq!(tm.next_turn(), Some(3));
    assert_eq!(tm.next_turn(), Some(1));
}

#[test]
fn add_entity_is_idempotent() {
    let mut tm = TurnManager::new();
    tm.initialize(1, &[2]);
    tm.add_entity(3);
    tm.add_entity(3);
    assert_eq!(tm.queue_len(), 3);
}

#[test]
fn remove_entity_clears_current_when_it_was_acting() {
    let mut tm = TurnManager::new();
    tm.initialize(1, &[2, 3]);
    assert_eq!(tm.next_turn(), Some(1));
    tm.remove_entity(1);
    assert_eq!(tm.current_entity(), None);
    assert_eq!(tm.queue_len(), 2);
    // With current unset, the next call picks the new front.
    assert_eq!(tm.next_turn(), Some(2));
}

#[test]
fn remove_entity_keeps_current_when_another_dies() {
    let mut tm = TurnManager::new();
    tm.initialize(1, &[2, 3]);
    tm.next_turn();
    tm.remove_entity(3);
    assert_eq!(tm.current_entity(), Some(1));
    assert_eq!(tm.queue_len(), 2);
}
