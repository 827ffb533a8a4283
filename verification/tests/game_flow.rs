use gridworld::create_initial_game_state;
use gridworld::entity::EntityKind;
use gridworld::events::GameEvent;
use gridworld::events::StateChange;
use gridworld::types::Direction;
use gridworld::world_position::WorldPosition;

#[test]
fn the_initial_state_is_laid_out_as_documented() {
    let state = create_initial_game_state();
    let player = state.world.get_entity(1).expect("player exists");
    assert!(matches!(player.kind, EntityKind::Player));
    assert_eq!(player.pos, Some(WorldPosition::new(0, 0)));
    let goblin = state.world.get_entity(2).expect("goblin exists");
    assert!(matches!(goblin.kind, EntityKind::Npc { .. }));
    assert_eq!(goblin.pos, Some(WorldPosition::new(5, 0)));
    assert_eq!(state.world.player_id(), 1);
    assert_eq!(state.get_current_entity(), None);
}

#[test]
fn a_player_move_produces_and_applies_one_change() {
    let mut state = create_initial_game_state();
    let changes = state.handle_event(GameEvent::MoveByDirection(1, Direction::East));
    assert_eq!(
        changes,
        vec![StateChange::EntityMoved {
            entity_id: 1,
            from: Some(WorldPosition::new(0, 0)),
            to: Some(WorldPosition::new(1, 0)),
        }]
    );
    assert_eq!(state.world.get_entity(1).unwrap().pos, Some(WorldPosition::new(1, 0)));
}

#[test]
fn the_level_wall_blocks_the_player() {
    let mut state = create_initial_game_state();
    // Walk east until the middle wall at x = 3 stops the player: from
    // (2,0) the next step east is blocked.
    let first = state.handle_event(GameEvent::MoveByDirection(1, Direction::East));
    assert_eq!(first.len(), 1);
    let second = state.handle_event(GameEvent::MoveByDirection(1, Direction::East));
    assert_eq!(second.len(), 1);
    assert_eq!(state.world.get_entity(1).unwrap().pos, Some(WorldPosition::new(2, 0)));
    let blocked = state.handle_event(GameEvent::MoveByDirection(1, Direction::East));
    assert!(blocked.is_empty());
    assert_eq!(state.world.get_entity(1).unwrap().pos, Some(WorldPosition::new(2, 0)));
}

#[test]
fn the_first_end_turn_starts_the_player_turn() {
    let mut state = create_initial_game_state();
    // No actor is current yet, so the scheduler picks the front (the
    // player) without rotating, and waits for input.
    let changes = state.handle_event(GameEvent::EndTurn(1));
    assert_eq!(
        changes,
        vec![
            StateChange::TurnEnded { entity_id: 1 },
            StateChange::TurnStarted { entity_id: 1 },
        ]
    );
    assert_eq!(state.get_current_entity(), Some(1));
}

#[test]
fn ending_the_player_turn_auto_plays_the_goblin_round() {
    let mut state = create_initial_game_state();
    state.handle_event(GameEvent::EndTurn(1));
    // Now the player is current; ending again rotates to the goblin,
    // whose whole turn is auto-played, and comes back to the player.
    let changes = state.handle_event(GameEvent::EndTurn(1));
    assert_eq!(changes[0], StateChange::TurnEnded { entity_id: 1 });
    assert_eq!(changes[1], StateChange::TurnStarted { entity_id: 2 });
    // The goblin at (5,0) has free cells on all four sides, so its
    // random move always lands.
    assert!(matches!(changes[2], StateChange::EntityMoved { entity_id: 2, .. }));
    assert_eq!(changes[3], StateChange::TurnEnded { entity_id: 2 });
    assert_eq!(changes[4], StateChange::TurnStarted { entity_id: 1 });
    assert_eq!(changes.len(), 5);
    let goblin_pos = state.world.get_entity(2).unwrap().pos.unwrap();
    assert_eq!(goblin_pos.manhattan_distance(&WorldPosition::new(5, 0)), 1);
}

#[test]
fn a_skip_changes_nothing() {
    let mut state = create_initial_game_state();
    let changes = state.handle_event(GameEvent::SkipTurn);
    assert!(changes.is_empty());
    assert_eq!(state.world.get_entity(1).unwrap().pos, Some(WorldPosition::new(0, 0)));
}

#[test]
fn consumers_can_replay_the_log_on_their_own_mirror() {
    let mut state = create_initial_game_state();
    let mut mirror_player = state.world.get_entity(1).unwrap().pos;
    let mut mirror_goblin = state.world.get_entity(2).unwrap().pos;
    let mut log = state.handle_event(GameEvent::MoveByDirection(1, Direction::South));
    log.extend(state.handle_event(GameEvent::EndTurn(1)));
    log.extend(state.handle_event(GameEvent::EndTurn(1)));
    for change in &log {
        if let StateChange::EntityMoved { entity_id, to, .. } = change {
            match entity_id {
                1 => mirror_player = *to,
                2 => mirror_goblin = *to,
                _ => {}
            }
        }
    }
    assert_eq!(mirror_player, state.world.get_entity(1).unwrap().pos);
    assert_eq!(mirror_goblin, state.world.get_entity(2).unwrap().pos);
}

#[test]
fn removal_is_atomic_across_registry_and_turn_order() {
    let mut state = create_initial_game_state();
    state.handle_event(GameEvent::EndTurn(1));
    state.remove_entity(2);
    assert!(state.world.get_entity(2).is_none());
    assert_eq!(state.turn_manager.queue_len(), 1);
    // The dead goblin never comes up again: both calls land on the player.
    let a = state.handle_event(GameEvent::EndTurn(1));
    assert_eq!(
        a,
        vec![
            StateChange::TurnEnded { entity_id: 1 },
            StateChange::TurnStarted { entity_id: 1 },
        ]
    );
}

#[test]
fn removing_the_current_actor_resets_the_turn() {
    let mut state = create_initial_game_state();
    state.handle_event(GameEvent::EndTurn(1));
    assert_eq!(state.get_current_entity(), Some(1));
    state.remove_entity(1);
    assert_eq!(state.get_current_entity(), None);
}
