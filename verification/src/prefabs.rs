//! Ready-made entity templates.

pub mod dungeon_environment;
pub mod goblins;
