//! Goblin prefab: an autonomous NPC with a fresh AI.

use vstd::prelude::*;
use crate::ai::Ai;
use crate::attributes::CoreAttributes;
use crate::attributes::Exhaustion;
use crate::attributes::Status;
use crate::entity::EntityKind;
use crate::entity::EntityWithoutId;
use crate::entity::SpeciesKind;
use crate::world_position::WorldPosition;

verus! {

pub fn create_goblin(pos: Option<WorldPosition>) -> (r: EntityWithoutId)
    ensures
        r.kind == (EntityKind::Npc { species: SpeciesKind::Goblin }),
        r.pos == pos,
        r.status == (Status { health: 2, stamina: 2, mana: 0, exhaustion: Exhaustion::Rested }),
        r.stats == (CoreAttributes {
            strength: 4,
            speed: 5,
            durability: 3,
            fortitude: 2,
            magic: 0,
        }),
        r.visible == true,
        r.discovered == false,
        r.ai matches Some(a) && a.is_fresh(),
{
    EntityWithoutId {
        kind: EntityKind::Npc { species: SpeciesKind::Goblin },
        pos,
        status: Status { health: 2, stamina: 2, mana: 0, exhaustion: Exhaustion::Rested },
        stats: CoreAttributes { strength: 4, speed: 5, durability: 3, fortitude: 2, magic: 0 },
        visible: true,
        discovered: false,
        ai: Some(Ai::new()),
    }
}

} // verus!
