use gridworld::ai::Ai;
use gridworld::attributes::CoreAttributes;
use gridworld::attributes::Exhaustion;
use gridworld::attributes::Status;
use gridworld::debug_data::basic_level::get_level;
use gridworld::entity::EntityKind;
use gridworld::entity::EntityWithoutId;
use gridworld::entity::MaterialKind;
use gridworld::events::GameEvent;
use gridworld::prefabs::dungeon_environment::create_stone_floor;
use gridworld::prefabs::dungeon_environment::create_stone_wall;
use gridworld::prefabs::goblins::create_goblin;
use gridworld::types::Dice;
use gridworld::types::DieRoll;
use gridworld::world::World;
use gridworld::world_position::WorldPosition;

#[test]
fn dice_sides_match_their_names() {
    assert_eq!(Dice::D4.sides(), 4);
    assert_eq!(Dice::D6.sides(), 6);
    assert_eq!(Dice::D8.sides(), 8);
    assert_eq!(Dice::D10.sides(), 10);
    assert_eq!(Dice::D12.sides(), 12);
    assert_eq!(Dice::D20.sides(), 20);
    assert_eq!(Dice::D100.sides(), 100);
    assert_eq!(Dice::Flat(17).sides(), 17);
}

#[test]
fn flat_dice_roll_exactly() {
    let roll = DieRoll { count: 3, dice: Dice::Flat(7), modifier: -2 };
    assert_eq!(roll.roll(), 19);
    let zero = DieRoll { count: 0, dice: Dice::Flat(7), modifier: 5 };
    assert_eq!(zero.roll(), 5);
}

#[test]
fn random_dice_stay_in_their_range() {
    let roll = DieRoll { count: 2, dice: Dice::D4, modifier: 1 };
    for _ in 0..50 {
        let r = roll.roll();
        assert!((3..=7).contains(&r), "2d4+1 out of range: {}", r);
    }
}

#[test]
fn materials_carry_their_blocking_flags() {
    let stone = MaterialKind::Stone.get_material();
    assert!(stone.blocks_vision);
    assert!(stone.blocks_movement);
    assert_eq!(stone.kind, MaterialKind::Stone);
    let flesh = MaterialKind::Flesh.get_material();
    assert!(!flesh.blocks_vision);
    assert!(!flesh.blocks_movement);
}

#[test]
fn world_position_arithmetic() {
    let a = WorldPosition::new(1, 2);
    let b = WorldPosition::new(4, -2);
    assert_eq!(a.manhattan_distance(&b), 7);
    assert_eq!(a.distance_squared_to(&b), 25);
    let n = a.neighbors();
    assert_eq!(
        n,
        vec![
            WorldPosition::new(2, 2),
            WorldPosition::new(0, 2),
            WorldPosition::new(1, 3),
            WorldPosition::new(1, 1),
        ]
    );
}

#[test]
fn prefabs_build_what_their_names_say() {
    let wall = create_stone_wall(Some(WorldPosition::new(1, 1)));
    assert!(matches!(wall.kind, EntityKind::Wall { ref material } if material.blocks_vision));
    assert_eq!(wall.pos, Some(WorldPosition::new(1, 1)));
    assert!(wall.ai.is_none());
    assert!(wall.visible);
    assert!(!wall.discovered);

    let floor = create_stone_floor(None);
    assert!(matches!(floor.kind, EntityKind::Floor { .. }));
    assert_eq!(floor.pos, None);

    let goblin = create_goblin(Some(WorldPosition::new(5, 0)));
    assert!(matches!(goblin.kind, EntityKind::Npc { .. }));
    assert!(goblin.ai.is_some());
    assert_eq!(goblin.status.health, 2);
    assert_eq!(goblin.stats.speed, 5);
}

#[test]
fn the_debug_level_holds_its_walls() {
    let level = get_level();
    assert_eq!(level.len(), 47);
    assert!(level.iter().all(|e| matches!(e.kind, EntityKind::Wall { .. })));
    let positions: Vec<WorldPosition> = level.iter().map(|e| e.pos.unwrap()).collect();
    assert!(positions.contains(&WorldPosition::new(-4, -4)));
    assert!(positions.contains(&WorldPosition::new(8, 4)));
    assert!(positions.contains(&WorldPosition::new(3, -1)));
    assert!(!positions.contains(&WorldPosition::new(0, 0)));
}

#[test]
fn entity_records_start_undiscovered() {
    let template = EntityWithoutId::new(
        EntityKind::Player,
        Some(WorldPosition::new(0, 0)),
        CoreAttributes::new(1, 2, 3, 4, 5),
        Status { health: 1, stamina: 1, mana: 1, exhaustion: Exhaustion::Tired },
        None,
    );
    assert!(!template.visible);
    assert!(!template.discovered);
    let entity = template.with_id(9);
    assert_eq!(entity.id, 9);
    assert_eq!(entity.stats.magic, 5);
}

#[test]
fn default_attributes_are_all_ten() {
    let d = CoreAttributes::default();
    assert_eq!(
        (d.strength, d.speed, d.durability, d.fortitude, d.magic),
        (10, 10, 10, 10, 10)
    );
}

#[test]
fn the_ai_always_proposes_a_move_for_its_own_actor() {
    let world = World::new(1);
    let ai = Ai::new();
    for _ in 0..25 {
        let action = ai.get_action(7, &world);
        assert!(matches!(action, GameEvent::MoveByDirection(7, _)));
    }
}
