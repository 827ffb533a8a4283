//! Integer 2D coordinates on the grid. Equality is by exact coordinate; the
//! four cardinal neighbors are the only adjacency (no diagonals).

use vstd::prelude::*;

verus! {

#[derive(Clone, Copy, PartialEq, Eq, Hash, Debug, Structural)]
pub struct WorldPosition {
    pub x: i32,
    pub y: i32,
}

impl WorldPosition {
    pub fn new(x: i32, y: i32) -> (r: Self)
        ensures
            r.x == x,
            r.y == y,
    {
        Self { x, y }
    }

    /// Squared Euclidean distance, exact in integers (no rounding).
    pub fn distance_squared_to(&self, other: &WorldPosition) -> (r: i128)
        ensures
            r == spec_dist2(*self, *other),
    {
        let dx: i128 = self.x as i128 - other.x as i128;
        let dy: i128 = self.y as i128 - other.y as i128;
        proof {
            lemma_square_bound(dx as int, dy as int);
        }
        dx * dx + dy * dy
    }

    pub fn manhattan_distance(&self, other: &WorldPosition) -> (r: i64)
        ensures
            r == abs_int(self.x - other.x) + abs_int(self.y - other.y),
    {
        let dx: i64 = self.x as i64 - other.x as i64;
        let dy: i64 = self.y as i64 - other.y as i64;
        let ax: i64 = if dx < 0 { -dx } else { dx };
        let ay: i64 = if dy < 0 { -dy } else { dy };
        ax + ay
    }

    /// The four cardinal neighbors: east, west, south, north, in that order.
    pub fn neighbors(&self) -> (r: Vec<WorldPosition>)
        requires
            i32::MIN < self.x < i32::MAX,
            i32::MIN < self.y < i32::MAX,
        ensures
            r@.len() == 4,
            r@[0] == (WorldPosition { x: (self.x + 1) as i32, y: self.y }),
            r@[1] == (WorldPosition { x: (self.x - 1) as i32, y: self.y }),
            r@[2] == (WorldPosition { x: self.x, y: (self.y + 1) as i32 }),
            r@[3] == (WorldPosition { x: self.x, y: (self.y - 1) as i32 }),
    {
        let mut r: Vec<WorldPosition> = Vec::new();
        r.push(WorldPosition::new(self.x + 1, self.y));
        r.push(WorldPosition::new(self.x - 1, self.y));
        r.push(WorldPosition::new(self.x, self.y + 1));
        r.push(WorldPosition::new(self.x, self.y - 1));
        r
    }
}

/// Squared Euclidean distance between two cells, as a mathematical integer.
pub open spec fn spec_dist2(a: WorldPosition, b: WorldPosition) -> int {
    (a.x - b.x) * (a.x - b.x) + (a.y - b.y) * (a.y - b.y)
}

/// Absolute value of a mathematical integer.
pub open spec fn abs_int(v: int) -> int {
    if v < 0 {
        -v
    } else {
        v
    }
}

proof fn lemma_square_bound(dx: int, dy: int)
    requires
        -0x1_0000_0000 <= dx <= 0x1_0000_0000,
        -0x1_0000_0000 <= dy <= 0x1_0000_0000,
    ensures
        0 <= dx * dx <= 0x1_0000_0000_0000_0000,
        0 <= dy * dy <= 0x1_0000_0000_0000_0000,
        dx * dx + dy * dy <= 0x2_0000_0000_0000_0000,
{
    assert(0 <= dx * dx <= 0x1_0000_0000_0000_0000) by (nonlinear_arith)
        requires
            -0x1_0000_0000 <= dx <= 0x1_0000_0000,
    ;
    assert(0 <= dy * dy <= 0x1_0000_0000_0000_0000) by (nonlinear_arith)
        requires
            -0x1_0000_0000 <= dy <= 0x1_0000_0000,
    ;
}

} // verus!
