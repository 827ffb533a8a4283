//! The entity model: tagged kinds with per-variant payload, and the entity
//! record itself. Only `Wall` blocks movement under the default collision
//! policy, and only a `Wall` whose material has `blocks_vision` occludes
//! sight.

use vstd::prelude::*;
use crate::ai::Ai;
use crate::attributes::CoreAttributes;
use crate::attributes::Status;
use crate::equipment::ItemKind;
use crate::types::Direction;
use crate::world_position::WorldPosition;

verus! {

/// Unique within a `World`; assigned monotonically and never reused.
pub type EntityId = usize;

pub enum Size {
    Tiny,
    Small,
    Medium,
    Large,
}

#[derive(PartialEq, Eq, Clone, Debug, Structural)]
pub enum SpeciesKind {
    Human,
    Goblin,
}

#[derive(PartialEq, Eq, Clone, Debug, Structural)]
pub enum MaterialKind {
    Stone,
    Flesh,
}

/// A physical substance with two independent blocking flags.
#[derive(PartialEq, Eq, Clone, Debug, Structural)]
pub struct Material {
    pub kind: MaterialKind,
    pub blocks_vision: bool,
    pub blocks_movement: bool,
}

impl MaterialKind {
    pub fn get_material(&self) -> (r: Material)
        ensures
            self matches MaterialKind::Stone ==> r == (Material {
                kind: MaterialKind::Stone,
                blocks_vision: true,
                blocks_movement: true,
            }),
            self matches MaterialKind::Flesh ==> r == (Material {
                kind: MaterialKind::Flesh,
                blocks_vision: false,
                blocks_movement: false,
            }),
    {
        match self {
            MaterialKind::Stone => Material {
                kind: MaterialKind::Stone,
                blocks_vision: true,
                blocks_movement: true,
            },
            MaterialKind::Flesh => Material {
                kind: MaterialKind::Flesh,
                blocks_vision: false,
                blocks_movement: false,
            },
        }
    }
}

#[derive(PartialEq, Clone, Debug)]
pub enum EntityKind {
    Player,
    Npc { species: SpeciesKind },
    Item { kind: ItemKind },
    Wall { material: Material },
    Floor { material: Material },
}

/// The default collision policy: a `Wall` is non-traversable by kind alone,
/// whatever its material flags say; no other kind ever blocks movement.
pub open spec fn is_wall(k: EntityKind) -> bool {
    k matches EntityKind::Wall { .. }
}

/// A cell occupant occludes sight exactly when it is a `Wall` whose
/// material has `blocks_vision` set.
pub open spec fn occludes(k: EntityKind) -> bool {
    match k {
        EntityKind::Wall { material } => material.blocks_vision,
        _ => false,
    }
}

/// One step from `p` in direction `dir`: north is `y - 1`, south `y + 1`,
/// east `x + 1`, west `x - 1`.
pub open spec fn dir_step(p: WorldPosition, dir: Direction) -> WorldPosition {
    match dir {
        Direction::North => WorldPosition { x: p.x, y: (p.y - 1) as i32 },
        Direction::South => WorldPosition { x: p.x, y: (p.y + 1) as i32 },
        Direction::East => WorldPosition { x: (p.x + 1) as i32, y: p.y },
        Direction::West => WorldPosition { x: (p.x - 1) as i32, y: p.y },
    }
}

/// Both coordinates leave room for one step in any direction.
pub open spec fn pos_step_ok(p: WorldPosition) -> bool {
    i32::MIN < p.x < i32::MAX && i32::MIN < p.y < i32::MAX
}

#[derive(Debug, Clone)]
pub struct Entity {
    pub id: EntityId,
    pub kind: EntityKind,
    pub pos: Option<WorldPosition>,
    pub stats: CoreAttributes,
    pub status: Status,
    pub visible: bool,
    pub discovered: bool,
    pub ai: Option<Ai>,
}

#[derive(Debug, Clone)]
pub struct EntityWithoutId {
    pub kind: EntityKind,
    pub pos: Option<WorldPosition>,
    pub stats: CoreAttributes,
    pub status: Status,
    pub visible: bool,
    pub discovered: bool,
    pub ai: Option<Ai>,
}

impl Entity {
    pub fn new(
        id: EntityId,
        kind: EntityKind,
        pos: Option<WorldPosition>,
        stats: CoreAttributes,
        status: Status,
        ai: Option<Ai>,
    ) -> (r: Self)
        ensures
            r == (Entity { id, kind, pos, stats, status, visible: false, discovered: false, ai }),
    {
        Self { id, kind, pos, visible: false, discovered: false, stats, status, ai }
    }

    pub fn pos(&self) -> (r: Option<WorldPosition>)
        ensures
            r == self.pos,
    {
        self.pos
    }

    pub fn set_pos(&mut self, pos: Option<WorldPosition>)
        ensures
            *final(self) == (Entity { pos, ..*old(self) }),
    {
        self.pos = pos;
    }

    /// Movement into a cell is allowed exactly when none of its occupants
    /// is a `Wall`.
    pub fn can_move_to(&self, pos: &WorldPosition, entities_in_pos: &Vec<&Entity>) -> (r: bool)
        ensures
            r == (forall|j: int|
                0 <= j < entities_in_pos@.len() ==> !is_wall(entities_in_pos@[j].kind)),
    {
        let n = entities_in_pos.len();
        let mut j: usize = 0;
        while j < n
            invariant
                j <= n == entities_in_pos@.len(),
                forall|k: int| 0 <= k < j ==> !is_wall(entities_in_pos@[k].kind),
            decreases n - j,
        {
            match entities_in_pos[j].kind {
                EntityKind::Wall { .. } => {
                    return false;
                },
                _ => {},
            }
            j = j + 1;
        }
        true
    }

    /// The cell one step from this entity's position, or `None` for an
    /// entity that is not placed in the world.
    pub fn get_pos_in_direction(&self, dir: Direction) -> (r: Option<WorldPosition>)
        requires
            self.pos matches Some(p) ==> pos_step_ok(p),
        ensures
            r == match self.pos {
                Some(p) => Some(dir_step(p, dir)),
                None => None::<WorldPosition>,
            },
    {
        match (self.pos, dir) {
            (Some(pos), Direction::North) => Some(WorldPosition { x: pos.x, y: pos.y - 1 }),
            (Some(pos), Direction::South) => Some(WorldPosition { x: pos.x, y: pos.y + 1 }),
            (Some(pos), Direction::East) => Some(WorldPosition { x: pos.x + 1, y: pos.y }),
            (Some(pos), Direction::West) => Some(WorldPosition { x: pos.x - 1, y: pos.y }),
            (None, _) => None,
        }
    }

    pub fn ai(&self) -> (r: Option<&Ai>)
        ensures
            r matches Some(a) ==> self.ai matches Some(b) && *a == b,
            r is None <==> self.ai is None,
    {
        self.ai.as_ref()
    }

    pub fn kind(&self) -> (r: &EntityKind)
        ensures
            *r == self.kind,
    {
        &self.kind
    }
}

impl EntityWithoutId {
    pub fn new(
        kind: EntityKind,
        pos: Option<WorldPosition>,
        stats: CoreAttributes,
        status: Status,
        ai: Option<Ai>,
    ) -> (r: Self)
        ensures
            r == (EntityWithoutId {
                kind,
                pos,
                stats,
                status,
                visible: false,
                discovered: false,
                ai,
            }),
    {
        Self { kind, pos, visible: false, discovered: false, stats, status, ai }
    }

    /// Attaches a freshly allocated id, producing the entity record that
    /// the registry stores.
    pub fn with_id(self, id: EntityId) -> (r: Entity)
        ensures
            r == (Entity {
                id,
                kind: self.kind,
                pos: self.pos,
                stats: self.stats,
                status: self.status,
                visible: self.visible,
                discovered: self.discovered,
                ai: self.ai,
            }),
    {
        Entity {
            id,
            kind: self.kind,
            pos: self.pos,
            stats: self.stats,
            status: self.status,
            visible: self.visible,
            discovered: self.discovered,
            ai: self.ai,
        }
    }
}

} // verus!
