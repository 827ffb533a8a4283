//! Turn-based grid-world simulation kernel: an entity registry with unique
//! ids, a cyclic turn scheduler, movement resolution against a wall-collision
//! policy, discrete line-of-sight visibility, and an append-only log of state
//! changes that external consumers can replay.

pub mod ai;
pub mod attributes;
pub mod combat;
pub mod debug_data;
pub mod entity;
pub mod equipment;
pub mod events;
pub mod game_loop;
pub mod prefabs;
mod rng;
pub mod turns;
pub mod types;
pub mod visibility;
pub mod world;
pub mod world_position;

pub use game_loop::create_initial_game_state;
pub use world_position::WorldPosition;
