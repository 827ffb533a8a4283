use gridworld::attributes::CoreAttributes;
use gridworld::attributes::Exhaustion;
use gridworld::attributes::Status;
use gridworld::entity::Entity;
use gridworld::entity::EntityKind;
use gridworld::entity::Material;
use gridworld::entity::MaterialKind;
use gridworld::world::World;
use gridworld::world_position::WorldPosition;

fn plain_status() -> Status {
    Status { health: 10, stamina: 10, mana: 10, exhaustion: Exhaustion::Rested }
}

fn vision_blocking_wall(id: usize, x: i32, y: i32) -> Entity {
    Entity::new(
        id,
        EntityKind::Wall { material: MaterialKind::Stone.get_material() },
        Some(WorldPosition::new(x, y)),
        CoreAttributes::default(),
        plain_status(),
        None,
    )
}

fn transparent_wall(id: usize, x: i32, y: i32) -> Entity {
    Entity::new(
        id,
        EntityKind::Wall {
            material: Material {
                kind: MaterialKind::Flesh,
                blocks_vision: false,
                blocks_movement: false,
            },
        },
        Some(WorldPosition::new(x, y)),
        CoreAttributes::default(),
        plain_status(),
        None,
    )
}

#[test]
fn line_of_sight_to_self_always_holds() {
    let world = World::new(1);
    for p in [WorldPosition::new(0, 0), WorldPosition::new(-7, 13), WorldPosition::new(40, -2)] {
        assert!(world.has_line_of_sight(&p, &p));
    }
}

#[test]
fn radius_zero_sees_exactly_the_origin() {
    let world = World::new(1);
    let origin = WorldPosition::new(3, -2);
    let visible = world.get_visible_positions(&origin, 0);
    assert_eq!(visible, vec![origin]);
}

#[test]
fn scenario_wall_occludes_the_cells_behind_it() {
    // Wall at (2,0) with blocks_vision=true, origin (0,0), target (4,0),
    // radius 5: (4,0) is occluded, (1,0) is not.
    let mut world = World::new(1);
    world.add_entity(vision_blocking_wall(1, 2, 0));
    let origin = WorldPosition::new(0, 0);
    let visible = world.get_visible_positions(&origin, 5);
    assert!(!visible.contains(&WorldPosition::new(4, 0)));
    assert!(visible.contains(&WorldPosition::new(1, 0)));
    // The wall's own cell stays visible: endpoints are never tested.
    assert!(visible.contains(&WorldPosition::new(2, 0)));
}

#[test]
fn a_wall_without_blocks_vision_does_not_occlude() {
    let mut world = World::new(1);
    world.add_entity(transparent_wall(1, 2, 0));
    assert!(world.has_line_of_sight(&WorldPosition::new(0, 0), &WorldPosition::new(4, 0)));
}

#[test]
fn endpoints_are_never_tested_for_blocking() {
    let mut world = World::new(1);
    world.add_entity(vision_blocking_wall(1, 0, 0));
    world.add_entity(vision_blocking_wall(2, 3, 0));
    // Seeing out of one wall's cell into another's: only the strictly
    // intermediate cells count, and they are empty here.
    assert!(world.has_line_of_sight(&WorldPosition::new(0, 0), &WorldPosition::new(3, 0)));
}

#[test]
fn the_field_of_view_is_circular_not_square() {
    let world = World::new(1);
    let origin = WorldPosition::new(0, 0);
    let visible = world.get_visible_positions(&origin, 2);
    // The square corner (2,2) has squared distance 8 > 4.
    assert!(!visible.contains(&WorldPosition::new(2, 2)));
    assert!(visible.contains(&WorldPosition::new(2, 0)));
    assert!(visible.contains(&WorldPosition::new(0, -2)));
    assert!(visible.contains(&WorldPosition::new(1, 1)));
}

#[test]
fn negative_radius_sees_nothing() {
    let world = World::new(1);
    let visible = world.get_visible_positions(&WorldPosition::new(0, 0), -3);
    assert!(visible.is_empty());
}

#[test]
fn the_discrete_line_is_symmetric_in_both_axes() {
    let world = World::new(1);
    let horizontal = world.get_line(&WorldPosition::new(0, 0), &WorldPosition::new(3, 0));
    assert_eq!(
        horizontal,
        vec![
            WorldPosition::new(0, 0),
            WorldPosition::new(1, 0),
            WorldPosition::new(2, 0),
            WorldPosition::new(3, 0),
        ]
    );
    let vertical = world.get_line(&WorldPosition::new(0, 0), &WorldPosition::new(0, 3));
    assert_eq!(
        vertical,
        vec![
            WorldPosition::new(0, 0),
            WorldPosition::new(0, 1),
            WorldPosition::new(0, 2),
            WorldPosition::new(0, 3),
        ]
    );
    let diagonal = world.get_line(&WorldPosition::new(0, 0), &WorldPosition::new(-2, -2));
    assert_eq!(
        diagonal,
        vec![WorldPosition::new(0, 0), WorldPosition::new(-1, -1), WorldPosition::new(-2, -2)]
    );
}

#[test]
fn diagonal_occlusion_follows_the_bresenham_cells() {
    let mut world = World::new(1);
    world.add_entity(vision_blocking_wall(1, 1, 1));
    assert!(!world.has_line_of_sight(&WorldPosition::new(0, 0), &WorldPosition::new(2, 2)));
    assert!(world.has_line_of_sight(&WorldPosition::new(0, 0), &WorldPosition::new(2, -2)));
}

#[test]
fn a_shallow_line_rounds_half_toward_the_start() {
    let world = World::new(1);
    let line = world.get_line(&WorldPosition::new(0, 0), &WorldPosition::new(4, 2));
    assert_eq!(
        line,
        vec![
            WorldPosition::new(0, 0),
            WorldPosition::new(1, 0),
            WorldPosition::new(2, 1),
            WorldPosition::new(3, 1),
            WorldPosition::new(4, 2),
        ]
    );
}
