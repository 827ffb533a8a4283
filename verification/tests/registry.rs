use gridworld::attributes::CoreAttributes;
use gridworld::attributes::Exhaustion;
use gridworld::attributes::Status;
use gridworld::entity::Entity;
use gridworld::entity::EntityKind;
use gridworld::world::World;
use gridworld::world_position::WorldPosition;

fn plain_status() -> Status {
    Status { health: 10, stamina: 10, mana: 10, exhaustion: Exhaustion::Rested }
}

fn actor(id: usize, x: i32, y: i32) -> Entity {
    Entity::new(
        id,
        EntityKind::Player,
        Some(WorldPosition::new(x, y)),
        CoreAttributes::default(),
        plain_status(),
        None,
    )
}

#[test]
fn allocator_hands_out_increasing_ids() {
    let mut world = World::new(1);
    assert_eq!(world.player_id(), 1);
    assert_eq!(world.get_next_entity_id(), 2);
    assert_eq!(world.get_next_entity_id(), 3);
    assert_eq!(world.get_next_entity_id(), 4);
}

#[test]
fn insert_then_get_finds_the_record() {
    let mut world = World::new(1);
    world.add_entity(actor(1, 0, 0));
    let e = world.get_entity(1).expect("inserted entity must be found");
    assert_eq!(e.id, 1);
    assert_eq!(e.pos, Some(WorldPosition::new(0, 0)));
    assert!(world.get_entity(7).is_none());
}

#[test]
fn remove_deletes_and_is_noop_when_absent() {
    let mut world = World::new(1);
    world.add_entity(actor(1, 0, 0));
    world.add_entity(actor(2, 1, 1));
    world.remove_entity(1);
    assert!(world.get_entity(1).is_none());
    assert!(world.get_entity(2).is_some());
    world.remove_entity(42);
    assert!(world.get_entity(2).is_some());
}

#[test]
fn entities_at_returns_exactly_the_cell_occupants() {
    let mut world = World::new(1);
    world.add_entity(actor(1, 0, 0));
    world.add_entity(actor(2, 3, 4));
    world.add_entity(actor(3, 3, 4));
    world.add_entity(Entity::new(
        4,
        EntityKind::Player,
        None,
        CoreAttributes::default(),
        plain_status(),
        None,
    ));
    let here = world.get_entities_by_pos(&WorldPosition::new(3, 4));
    let mut ids: Vec<usize> = here.iter().map(|e| e.id).collect();
    ids.sort();
    assert_eq!(ids, vec![2, 3]);
    let empty = world.get_entities_by_pos(&WorldPosition::new(9, 9));
    assert!(empty.is_empty());
}

#[test]
fn move_entity_writes_the_position() {
    let mut world = World::new(1);
    world.add_entity(actor(1, 0, 0));
    world.move_entity(&1, &WorldPosition::new(2, -3));
    assert_eq!(world.get_entity(1).unwrap().pos, Some(WorldPosition::new(2, -3)));
    world.set_entity_pos(1, None);
    assert_eq!(world.get_entity(1).unwrap().pos, None);
}
