//! The AI capability attached to autonomous actors. The kernel only relies
//! on its interface: given an actor and read access to the world, produce
//! exactly one intent. The reference policy picks a uniformly random
//! cardinal direction.

use vstd::prelude::*;
use crate::entity::EntityId;
use crate::events::GameEvent;
use crate::rng::random_below;
use crate::types::Direction;
use crate::world::World;
use crate::world_position::WorldPosition;

verus! {

#[derive(Debug, Clone)]
pub struct LastSeen {
    entity: EntityId,
    position: WorldPosition,
    on_turn: usize,
}

#[derive(Debug, Clone)]
pub struct Memory {
    last_seen_positions: Vec<LastSeen>,
}

#[derive(Debug, Clone)]
pub struct Ai {
    memory: Memory,
}

impl Ai {
    /// A fresh AI remembers nothing.
    pub closed spec fn is_fresh(&self) -> bool {
        self.memory.last_seen_positions@.len() == 0
    }

    pub fn new() -> (r: Self)
        ensures
            r.is_fresh(),
    {
        Ai { memory: Memory { last_seen_positions: Vec::new() } }
    }

    /// Produce exactly one intent for the actor: the reference policy
    /// draws a uniformly random cardinal direction. Whatever the draw,
    /// the intent is a directional move for this very actor.
    pub fn get_action(&self, entity_id: EntityId, world: &World) -> (r: GameEvent)
        ensures
            r matches GameEvent::MoveByDirection(id, _) && id == entity_id,
    {
        let _ = world;
        let directions: [Direction; 4] = [
            Direction::North,
            Direction::East,
            Direction::South,
            Direction::West,
        ];
        let pick = random_below(4);
        let dir = directions[pick];
        GameEvent::MoveByDirection(entity_id, dir)
    }
}

} // verus!
