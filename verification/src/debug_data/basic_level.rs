//! A small walled room split by a middle wall: four border walls and one
//! partition, all stone.

use vstd::prelude::*;
use crate::entity::EntityWithoutId;
use crate::prefabs::dungeon_environment::create_stone_wall;
use crate::prefabs::dungeon_environment::stone_wall_proto;
use crate::world_position::WorldPosition;

verus! {

/// Where the `i`-th wall of the level stands: the left border (x = -4,
/// y in -4..4), then the right border (x = 8, y in -4..5), the top border
/// (y = 4, x in -4..8), the bottom border (y = -4, x in -4..8), and the
/// middle partition (x = 3, y in -1..5).
pub open spec fn level_pos(i: int) -> WorldPosition {
    if 0 <= i < 8 {
        WorldPosition { x: -4i32, y: (-4 + i) as i32 }
    } else if i < 17 {
        WorldPosition { x: 8i32, y: (-4 + (i - 8)) as i32 }
    } else if i < 29 {
        WorldPosition { x: (-4 + (i - 17)) as i32, y: 4i32 }
    } else if i < 41 {
        WorldPosition { x: (-4 + (i - 29)) as i32, y: -4i32 }
    } else {
        WorldPosition { x: 3i32, y: (-1 + (i - 41)) as i32 }
    }
}

/// The number of wall records the level holds.
pub open spec fn level_len() -> int {
    47
}

pub fn get_level() -> (r: Vec<EntityWithoutId>)
    ensures
        r@.len() == level_len(),
        forall|i: int| 0 <= i < r@.len() ==> r@[i] == stone_wall_proto(Some(level_pos(i))),
{
    let mut r: Vec<EntityWithoutId> = Vec::new();
    let mut y: i32 = -4;
    while y < 4
        invariant
            -4 <= y <= 4,
            r@.len() == y + 4,
            forall|i: int| 0 <= i < r@.len() ==> r@[i] == stone_wall_proto(Some(level_pos(i))),
        decreases 4 - y,
    {
        r.push(create_stone_wall(Some(WorldPosition { x: -4, y })));
        y = y + 1;
    }
    let mut y: i32 = -4;
    while y < 5
        invariant
            -4 <= y <= 5,
            r@.len() == 8 + y + 4,
            forall|i: int| 0 <= i < r@.len() ==> r@[i] == stone_wall_proto(Some(level_pos(i))),
        decreases 5 - y,
    {
        r.push(create_stone_wall(Some(WorldPosition { x: 8, y })));
        y = y + 1;
    }
    let mut x: i32 = -4;
    while x < 8
        invariant
            -4 <= x <= 8,
            r@.len() == 17 + x + 4,
            forall|i: int| 0 <= i < r@.len() ==> r@[i] == stone_wall_proto(Some(level_pos(i))),
        decreases 8 - x,
    {
        r.push(create_stone_wall(Some(WorldPosition { x, y: 4 })));
        x = x + 1;
    }
    let mut x: i32 = -4;
    while x < 8
        invariant
            -4 <= x <= 8,
            r@.len() == 29 + x + 4,
            forall|i: int| 0 <= i < r@.len() ==> r@[i] == stone_wall_proto(Some(level_pos(i))),
        decreases 8 - x,
    {
        r.push(create_stone_wall(Some(WorldPosition { x, y: -4 })));
        x = x + 1;
    }
    let mut y: i32 = -1;
    while y < 5
        invariant
            -1 <= y <= 5,
            r@.len() == 41 + y + 1,
            forall|i: int| 0 <= i < r@.len() ==> r@[i] == stone_wall_proto(Some(level_pos(i))),
        decreases 5 - y,
    {
        r.push(create_stone_wall(Some(WorldPosition { x: 3, y })));
        y = y + 1;
    }
    r
}

} // verus!
