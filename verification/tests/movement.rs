use gridworld::attributes::CoreAttributes;
use gridworld::attributes::Exhaustion;
use gridworld::attributes::Status;
use gridworld::entity::Entity;
use gridworld::entity::EntityKind;
use gridworld::entity::Material;
use gridworld::entity::MaterialKind;
use gridworld::events::GameEvent;
use gridworld::events::StateChange;
use gridworld::game_loop::GameState;
use gridworld::turns::TurnManager;
use gridworld::types::Direction;
use gridworld::world::World;
use gridworld::world_position::WorldPosition;

fn plain_status() -> Status {
    Status { health: 10, stamina: 10, mana: 10, exhaustion: Exhaustion::Rested }
}

fn stone() -> Material {
    MaterialKind::Stone.get_material()
}

fn player_at(id: usize, pos: Option<WorldPosition>) -> Entity {
    Entity::new(id, EntityKind::Player, pos, CoreAttributes::default(), plain_status(), None)
}

fn wall_at(id: usize, x: i32, y: i32) -> Entity {
    Entity::new(
        id,
        EntityKind::Wall { material: stone() },
        Some(WorldPosition::new(x, y)),
        CoreAttributes::default(),
        plain_status(),
        None,
    )
}

fn floor_at(id: usize, x: i32, y: i32) -> Entity {
    Entity::new(
        id,
        EntityKind::Floor { material: stone() },
        Some(WorldPosition::new(x, y)),
        CoreAttributes::default(),
        plain_status(),
        None,
    )
}

#[test]
fn moving_an_unplaced_entity_yields_no_changes() {
    let mut world = World::new(1);
    world.add_entity(player_at(1, None));
    let changes = GameEvent::MoveByDirection(1, Direction::East).get_changes(&world);
    assert!(changes.is_empty());
}

#[test]
fn moving_an_absent_entity_yields_no_changes() {
    let world = World::new(1);
    let changes = GameEvent::MoveByDirection(9, Direction::North).get_changes(&world);
    assert!(changes.is_empty());
}

#[test]
fn scenario_wall_blocks_and_floor_does_not() {
    // Player at (0,0), Wall at (1,0): moving east produces no change.
    let mut world = World::new(1);
    world.add_entity(player_at(1, Some(WorldPosition::new(0, 0))));
    world.add_entity(wall_at(2, 1, 0));
    let changes = GameEvent::MoveByDirection(1, Direction::East).get_changes(&world);
    assert!(changes.is_empty());

    // Player at (0,0), Floor at (1,0): moving east produces exactly one
    // EntityMoved{from: (0,0), to: (1,0)}.
    let mut world = World::new(1);
    world.add_entity(player_at(1, Some(WorldPosition::new(0, 0))));
    world.add_entity(floor_at(2, 1, 0));
    let changes = GameEvent::MoveByDirection(1, Direction::East).get_changes(&world);
    assert_eq!(changes.len(), 1);
    assert_eq!(
        changes[0],
        StateChange::EntityMoved {
            entity_id: 1,
            from: Some(WorldPosition::new(0, 0)),
            to: Some(WorldPosition::new(1, 0)),
        }
    );
}

#[test]
fn non_wall_occupants_never_block() {
    let mut world = World::new(1);
    world.add_entity(player_at(1, Some(WorldPosition::new(0, 0))));
    world.add_entity(player_at(2, Some(WorldPosition::new(0, 1))));
    world.add_entity(floor_at(3, 0, 1));
    let changes = GameEvent::MoveByDirection(1, Direction::South).get_changes(&world);
    assert_eq!(changes.len(), 1);
}

#[test]
fn directions_step_as_documented() {
    for (dir, expected) in [
        (Direction::North, WorldPosition::new(0, -1)),
        (Direction::South, WorldPosition::new(0, 1)),
        (Direction::East, WorldPosition::new(1, 0)),
        (Direction::West, WorldPosition::new(-1, 0)),
    ] {
        let mut world = World::new(1);
        world.add_entity(player_at(1, Some(WorldPosition::new(0, 0))));
        let changes = GameEvent::MoveByDirection(1, dir).get_changes(&world);
        assert_eq!(
            changes[0],
            StateChange::EntityMoved {
                entity_id: 1,
                from: Some(WorldPosition::new(0, 0)),
                to: Some(expected),
            }
        );
    }
}

#[test]
fn resolver_writes_nothing_itself() {
    let mut world = World::new(1);
    world.add_entity(player_at(1, Some(WorldPosition::new(0, 0))));
    let _ = GameEvent::MoveByDirection(1, Direction::East).get_changes(&world);
    assert_eq!(world.get_entity(1).unwrap().pos, Some(WorldPosition::new(0, 0)));
}

#[test]
fn round_trip_restores_the_original_position() {
    // Applying an EntityMoved{from, to} and then its logical inverse
    // restores the position-tracking state exactly.
    let mut world = World::new(1);
    world.add_entity(player_at(1, Some(WorldPosition::new(2, 3))));
    let tm = TurnManager::new();
    let mut state = GameState::new(world, tm);

    let from = Some(WorldPosition::new(2, 3));
    let to = Some(WorldPosition::new(2, 4));
    state.apply_change(&StateChange::EntityMoved { entity_id: 1, from, to });
    assert_eq!(state.world.get_entity(1).unwrap().pos, to);
    state.apply_change(&StateChange::EntityMoved { entity_id: 1, from: to, to: from });
    assert_eq!(state.world.get_entity(1).unwrap().pos, from);
}

#[test]
fn end_turn_produces_the_turn_ended_record() {
    let mut world = World::new(1);
    world.add_entity(player_at(1, Some(WorldPosition::new(0, 0))));
    let changes = GameEvent::EndTurn(1).get_changes(&world);
    assert_eq!(changes, vec![StateChange::TurnEnded { entity_id: 1 }]);
}

#[test]
fn apply_writes_the_move_outcome_directly() {
    let mut world = World::new(1);
    world.add_entity(player_at(1, Some(WorldPosition::new(0, 0))));
    GameEvent::MoveByDirection(1, Direction::North).apply(&mut world);
    assert_eq!(world.get_entity(1).unwrap().pos, Some(WorldPosition::new(0, -1)));

    // A blocked move writes nothing.
    world.add_entity(wall_at(2, 0, -2));
    GameEvent::MoveByDirection(1, Direction::North).apply(&mut world);
    assert_eq!(world.get_entity(1).unwrap().pos, Some(WorldPosition::new(0, -1)));
}
