//! Stone walls and floors: the only prefabs whose material blocks
//! movement and vision.

use vstd::prelude::*;
use crate::attributes::CoreAttributes;
use crate::attributes::Exhaustion;
use crate::attributes::Status;
use crate::entity::EntityKind;
use crate::entity::EntityWithoutId;
use crate::entity::Material;
use crate::entity::MaterialKind;
use crate::world_position::WorldPosition;

verus! {

/// Stone: blocks both movement and vision.
pub open spec fn spec_stone_material() -> Material {
    Material { kind: MaterialKind::Stone, blocks_vision: true, blocks_movement: true }
}

/// The record a stone wall prefab produces at a given cell.
pub open spec fn stone_wall_proto(pos: Option<WorldPosition>) -> EntityWithoutId {
    EntityWithoutId {
        kind: EntityKind::Wall { material: spec_stone_material() },
        pos,
        status: Status { health: 5, stamina: 0, mana: 0, exhaustion: Exhaustion::Rested },
        stats: CoreAttributes { strength: 0, speed: 0, durability: 10, fortitude: 0, magic: 0 },
        visible: true,
        discovered: false,
        ai: None,
    }
}

/// The record a stone floor prefab produces at a given cell.
pub open spec fn stone_floor_proto(pos: Option<WorldPosition>) -> EntityWithoutId {
    EntityWithoutId {
        kind: EntityKind::Floor { material: spec_stone_material() },
        pos,
        status: Status { health: 5, stamina: 0, mana: 0, exhaustion: Exhaustion::Rested },
        stats: CoreAttributes { strength: 0, speed: 0, durability: 10, fortitude: 0, magic: 0 },
        visible: true,
        discovered: false,
        ai: None,
    }
}

pub fn get_stone_material() -> (r: Material)
    ensures
        r == spec_stone_material(),
{
    Material { kind: MaterialKind::Stone, blocks_vision: true, blocks_movement: true }
}

pub fn create_stone_wall(pos: Option<WorldPosition>) -> (r: EntityWithoutId)
    ensures
        r == stone_wall_proto(pos),
{
    EntityWithoutId {
        kind: EntityKind::Wall { material: get_stone_material() },
        pos,
        status: Status { health: 5, stamina: 0, mana: 0, exhaustion: Exhaustion::Rested },
        stats: CoreAttributes { strength: 0, speed: 0, durability: 10, fortitude: 0, magic: 0 },
        visible: true,
        discovered: false,
        ai: None,
    }
}

pub fn create_stone_floor(pos: Option<WorldPosition>) -> (r: EntityWithoutId)
    ensures
        r == stone_floor_proto(pos),
{
    EntityWithoutId {
        kind: EntityKind::Floor { material: get_stone_material() },
        pos,
        status: Status { health: 5, stamina: 0, mana: 0, exhaustion: Exhaustion::Rested },
        stats: CoreAttributes { strength: 0, speed: 0, durability: 10, fortitude: 0, magic: 0 },
        visible: true,
        discovered: false,
        ai: None,
    }
}

} // verus!
