//! The visibility engine: discrete line-of-sight by integer Bresenham
//! stepping, symmetric in both axes, and a circular field of view built on
//! it. Only the registry's per-cell occupant query is consulted, so this
//! lives entirely on `World`'s public surface.
//!
//! The discrete line is pinned down by a closed form: on the major axis
//! the line advances every step, and the minor coordinate after `i` steps
//! is `(i * minor + (major - 1) / 2) / major` — the rounding the halved
//! error term of Bresenham's algorithm produces.

use vstd::arithmetic::div_mod::lemma_basic_div;
use vstd::arithmetic::div_mod::lemma_fundamental_div_mod_converse;
use vstd::prelude::*;
use crate::entity::Entity;
use crate::entity::occludes;
use crate::world::World;
use crate::world::occluder_at;
use crate::world_position::WorldPosition;
use crate::world_position::abs_int;
use crate::world_position::spec_dist2;

verus! {

/// Machine limit for line endpoints: each coordinate delta fits well
/// inside `i32`, leaving room for the error-term arithmetic.
pub open spec fn delta_ok(a: WorldPosition, b: WorldPosition) -> bool {
    &&& -0x3FFF_FFFF <= b.x - a.x <= 0x3FFF_FFFF
    &&& -0x3FFF_FFFF <= b.y - a.y <= 0x3FFF_FFFF
}

pub open spec fn line_dx(a: WorldPosition, b: WorldPosition) -> int {
    abs_int(b.x - a.x)
}

pub open spec fn line_dy(a: WorldPosition, b: WorldPosition) -> int {
    abs_int(b.y - a.y)
}

pub open spec fn line_sx(a: WorldPosition, b: WorldPosition) -> int {
    if a.x < b.x {
        1int
    } else {
        -1int
    }
}

pub open spec fn line_sy(a: WorldPosition, b: WorldPosition) -> int {
    if a.y < b.y {
        1int
    } else {
        -1int
    }
}

/// Number of cells on the discrete line, endpoints included.
pub open spec fn line_len(a: WorldPosition, b: WorldPosition) -> int {
    1 + if line_dx(a, b) > line_dy(a, b) {
        line_dx(a, b)
    } else {
        line_dy(a, b)
    }
}

/// The `i`-th cell of the discrete line from `a` to `b`, for
/// `0 <= i < line_len(a, b)`.
pub open spec fn line_cell(a: WorldPosition, b: WorldPosition, i: int) -> WorldPosition {
    let dx = line_dx(a, b);
    let dy = line_dy(a, b);
    if dx > dy {
        WorldPosition {
            x: (a.x + i * line_sx(a, b)) as i32,
            y: (a.y + line_sy(a, b) * ((i * dy + (dx - 1) / 2) / dx)) as i32,
        }
    } else if dy > 0 {
        WorldPosition {
            x: (a.x + line_sx(a, b) * ((i * dx + (dy - 1) / 2) / dy)) as i32,
            y: (a.y + i * line_sy(a, b)) as i32,
        }
    } else {
        a
    }
}

/// Line of sight holds when the endpoints coincide, or when no strictly
/// intermediate cell of the discrete line holds a vision-blocking wall.
/// The endpoints themselves are never tested.
pub open spec fn spec_los(s: Seq<Entity>, a: WorldPosition, b: WorldPosition) -> bool {
    a == b || forall|i: int|
        1 <= i < line_len(a, b) - 1 ==> !occluder_at(s, #[trigger] line_cell(a, b, i))
}

/// The circular field of view: within Euclidean distance `radius`,
/// compared exactly on squares.
pub open spec fn in_radius(c: WorldPosition, p: WorldPosition, radius: i32) -> bool {
    radius >= 0 && spec_dist2(c, p) <= radius * radius
}

/// A cell is visible from `c` when it lies in the circle and has line of
/// sight.
pub open spec fn spec_visible(
    s: Seq<Entity>,
    c: WorldPosition,
    radius: i32,
    p: WorldPosition,
) -> bool {
    in_radius(c, p, radius) && spec_los(s, c, p)
}

/// Stepping by a unit sign is injective: two step counts land on the
/// same coordinate only when they are equal.
proof fn lemma_sign_cancel(m: int, n: int, sg: int)
    requires
        sg == 1 || sg == -1,
    ensures
        m * sg == n * sg <==> m == n,
{
    assert(m * sg == n * sg <==> m == n) by (nonlinear_arith)
        requires
            sg == 1 || sg == -1,
    ;
}

/// For a major axis of length `d >= 1`, the two floored halves rebuild
/// `d - 1`.
proof fn lemma_halves(d: int)
    requires
        d >= 1,
    ensures
        (d - 1) / 2 + d / 2 == d - 1,
        0 <= d / 2 <= d - 1,
        0 <= (d - 1) / 2 < d,
{
    assert((d - 1) / 2 + d / 2 == d - 1 && 0 <= d / 2 <= d - 1 && 0 <= (d - 1) / 2 < d)
        by (nonlinear_arith)
        requires
            d >= 1,
    ;
}

impl World {
    /// Bresenham's discrete line from `from` to `to`, both endpoints
    /// included.
    pub fn get_line(&self, from: &WorldPosition, to: &WorldPosition) -> (line: Vec<WorldPosition>)
        requires
            delta_ok(*from, *to),
        ensures
            line@.len() == line_len(*from, *to),
            forall|i: int| 0 <= i < line@.len() ==> line@[i] == line_cell(*from, *to, i),
    {
        let ghost a = *from;
        let ghost b = *to;
        let ghost dxg = line_dx(a, b);
        let ghost dyg = line_dy(a, b);
        let ghost sxg = line_sx(a, b);
        let ghost syg = line_sy(a, b);

        let mut line: Vec<WorldPosition> = Vec::new();

        let mut x = from.x;
        let mut y = from.y;

        let dx: i32 = if to.x >= from.x {
            to.x - from.x
        } else {
            from.x - to.x
        };
        let dy: i32 = if to.y >= from.y {
            to.y - from.y
        } else {
            from.y - to.y
        };

        let sx: i32 = if from.x < to.x {
            1
        } else {
            -1
        };
        let sy: i32 = if from.y < to.y {
            1
        } else {
            -1
        };

        proof {
            if dxg >= 1 {
                lemma_halves(dxg);
            }
            if dyg >= 1 {
                lemma_halves(dyg);
            }
        }

        let mut err: i32 = if dx > dy {
            dx / 2
        } else {
            -(dy / 2)
        };

        let ghost mut px: int = 0;
        let ghost mut py: int = 0;

        line.push(WorldPosition { x, y });

        proof {
            if dxg > dyg {
                lemma_basic_div((dxg - 1) / 2, dxg);
            } else if dyg > 0 {
                lemma_basic_div((dyg - 1) / 2, dyg);
            }
            assert(line@[0] == line_cell(a, b, 0));
        }

        while !(x == to.x && y == to.y)
            invariant
                a == *from && b == *to,
                delta_ok(a, b),
                dxg == line_dx(a, b) && dyg == line_dy(a, b),
                sxg == line_sx(a, b) && syg == line_sy(a, b),
                dx as int == dxg && dy as int == dyg,
                sx as int == sxg && sy as int == syg,
                b.x == a.x + dxg * sxg,
                b.y == a.y + dyg * syg,
                0 <= px <= dxg,
                0 <= py <= dyg,
                x as int == a.x + px * sxg,
                y as int == a.y + py * syg,
                dxg > dyg ==> err as int == dxg / 2 - px * dyg + py * dxg && 0 <= (err as int) <= dxg - 1 && px == line@.len() - 1,
                !(dxg > dyg) && dyg > 0 ==> err as int == -(dyg / 2) - px * dyg + py * dxg && 1 - dyg <= (err as int) <= 0 && py == line@.len() - 1,
                dxg == 0 && dyg == 0 ==> px == 0 && py == 0 && line@.len() == 1,
                line@.len() >= 1,
                forall|i: int| 0 <= i < line@.len() ==> line@[i] == line_cell(a, b, i),
            decreases (dxg - px) + (dyg - py),
        {
            proof {
                lemma_sign_cancel(px, dxg, sxg);
                lemma_sign_cancel(py, dyg, syg);
                assert(x == to.x <==> px == dxg);
                assert(y == to.y <==> py == dyg);
                if dxg > dyg {
                    lemma_halves(dxg);
                    if px == dxg {
                        assert(py * dxg == err - dxg / 2 + dxg * dyg);
                        assert(py == dyg) by (nonlinear_arith)
                            requires
                                dxg >= 1,
                                dxg * dyg - dxg / 2 <= py * dxg <= dxg - 1 - dxg / 2 + dxg * dyg,
                                0 <= dxg / 2 <= dxg - 1,
                        ;
                        assert(false);
                    }
                    assert(px < dxg);
                } else if dyg > 0 {
                    lemma_halves(dyg);
                    if py == dyg {
                        assert(px * dyg == dyg * dxg - dyg / 2 - err);
                        assert(px == dxg) by (nonlinear_arith)
                            requires
                                dyg >= 1,
                                dyg * dxg - dyg / 2 <= px * dyg <= dyg * dxg - dyg / 2 + dyg - 1,
                                0 <= dyg / 2 <= dyg - 1,
                        ;
                        assert(false);
                    }
                    assert(py < dyg);
                } else {
                    assert(false);
                }
            }
            let ghost px0 = px;
            let ghost py0 = py;
            let e2 = err;
            if e2 > -dx {
                proof {
                    if dxg > dyg {
                    } else {
                        assert(px < dxg) by (nonlinear_arith)
                            requires
                                dyg >= 1,
                                0 <= dxg,
                                py < dyg,
                                (e2 as int) == -(dyg / 2) - px * dyg + py * dxg,
                                (e2 as int) > -dxg,
                                0 <= dyg / 2 <= dyg - 1,
                                0 <= px,
                                dxg <= dyg,
                        ;
                    }
                }
                err = err - dy;
                x = x + sx;
                proof {
                    px = px + 1;
                    assert((px0 + 1) * dyg == px0 * dyg + dyg) by (nonlinear_arith);
                    assert((px0 + 1) * sxg == px0 * sxg + sxg) by (nonlinear_arith);
                }
            }
            if e2 < dy {
                proof {
                    if dxg > dyg {
                        assert(py == py0);
                        assert(py < dyg) by (nonlinear_arith)
                            requires
                                dxg >= 1,
                                0 <= dyg,
                                0 <= px0 <= dxg - 1,
                                (e2 as int) == dxg / 2 - px0 * dyg + py * dxg,
                                (e2 as int) < dyg,
                                dyg < dxg,
                                0 <= dxg / 2 <= dxg - 1,
                                0 <= py,
                        ;
                    }
                }
                err = err + dx;
                y = y + sy;
                proof {
                    py = py + 1;
                    assert((py0 + 1) * dxg == py0 * dxg + dxg) by (nonlinear_arith);
                    assert((py0 + 1) * syg == py0 * syg + syg) by (nonlinear_arith);
                }
            }
            proof {
                if dxg > dyg {
                    lemma_halves(dxg);
                    assert(0 <= (err as int) <= dxg - 1);
                    assert(px * dyg + (dxg - 1) / 2 == py * dxg + (dxg - 1 - err as int));
                    lemma_fundamental_div_mod_converse(
                        px * dyg + (dxg - 1) / 2,
                        dxg,
                        py,
                        dxg - 1 - err as int,
                    );
                    assert((a.x + px * sxg) as i32 == x);
                    assert((a.y + syg * ((px * dyg + (dxg - 1) / 2) / dxg)) as i32 == y);
                } else {
                    lemma_halves(dyg);
                    assert(1 - dyg <= (err as int) <= 0);
                    assert(py * dxg + (dyg - 1) / 2 == px * dyg + (dyg - 1 + err as int));
                    lemma_fundamental_div_mod_converse(
                        py * dxg + (dyg - 1) / 2,
                        dyg,
                        px,
                        dyg - 1 + err as int,
                    );
                    assert((a.y + py * syg) as i32 == y);
                    assert((a.x + sxg * ((py * dxg + (dyg - 1) / 2) / dyg)) as i32 == x);
                }
            }
            line.push(WorldPosition { x, y });
        }
        proof {
            lemma_sign_cancel(px, dxg, sxg);
            lemma_sign_cancel(py, dyg, syg);
            assert(px == dxg && py == dyg);
        }
        line
    }

    /// Whether an unbroken, unblocked discrete path exists between the two
    /// cells. The endpoints themselves are never tested for blocking.
    pub fn has_line_of_sight(&self, from: &WorldPosition, to: &WorldPosition) -> (r: bool)
        requires
            delta_ok(*from, *to),
        ensures
            r == spec_los(self.entities_seq(), *from, *to),
    {
        let ghost s = self.entities_seq();
        if from.x == to.x && from.y == to.y {
            return true;
        }
        let line = self.get_line(from, to);
        let len = line.len();
        let mut i: usize = 1;
        while i + 1 < len
            invariant
                s == self.entities_seq(),
                delta_ok(*from, *to),
                len == line@.len() == line_len(*from, *to),
                forall|k: int| 0 <= k < len ==> line@[k] == line_cell(*from, *to, k),
                1 <= i <= len,
                forall|k: int| 1 <= k < i ==> !occluder_at(s, #[trigger] line_cell(*from, *to, k)),
            decreases len - i,
        {
            let occupants = self.get_entities_by_pos(&line[i]);
            let blocked = any_occludes(&occupants);
            proof {
                lemma_occupant_occluders(s, occupants@, line@[i as int]);
            }
            if blocked {
                proof {
                    assert(occluder_at(s, line_cell(*from, *to, i as int)));
                }
                return false;
            }
            i = i + 1;
        }
        true
    }

    /// Every cell within Euclidean distance `radius` of `from` that has
    /// line of sight from it: a circular, not square, field of view. The
    /// result carries no duplicates.
    pub fn get_visible_positions(&self, from: &WorldPosition, radius: i32) -> (r: Vec<
        WorldPosition,
    >)
        requires
            radius <= 0x3FFF_FFFF,
            i32::MIN <= from.x - radius,
            from.x + radius <= i32::MAX,
            i32::MIN <= from.y - radius,
            from.y + radius <= i32::MAX,
        ensures
            forall|p: WorldPosition| r@.contains(p) <==> spec_visible(
                self.entities_seq(),
                *from,
                radius,
                p,
            ),
            forall|i: int, j: int| 0 <= i < j < r@.len() ==> r@[i] != r@[j],
    {
        let ghost s = self.entities_seq();
        let mut r: Vec<WorldPosition> = Vec::new();
        if radius < 0 {
            proof {
                assert forall|p: WorldPosition| !spec_visible(s, *from, radius, p) by {}
            }
            return r;
        }
        let mut dy: i32 = -radius;
        proof {
            assert forall|p: WorldPosition|
                spec_visible(s, *from, radius, p) && p.y < from.y + (-radius) implies
                r@.contains(p) by {
                lemma_in_radius_box(*from, p, radius);
            }
        }
        while dy <= radius
            invariant
                s == self.entities_seq(),
                radius >= 0,
                radius <= 0x3FFF_FFFF,
                i32::MIN <= from.x - radius,
                from.x + radius <= i32::MAX,
                i32::MIN <= from.y - radius,
                from.y + radius <= i32::MAX,
                -radius <= dy <= radius + 1,
                forall|k: int| 0 <= k < r@.len() ==> spec_visible(
                    s,
                    *from,
                    radius,
                    #[trigger] r@[k],
                ),
                forall|k: int| 0 <= k < r@.len() ==> (#[trigger] r@[k]).y < from.y + dy,
                forall|p: WorldPosition| spec_visible(s, *from, radius, p) && p.y < from.y + dy
                    ==> r@.contains(p),
                forall|i: int, j: int| 0 <= i < j < r@.len() ==> r@[i] != r@[j],
            decreases radius + 1 - dy,
        {
            let mut dx: i32 = -radius;
            proof {
                assert forall|p: WorldPosition|
                    spec_visible(s, *from, radius, p) && (p.y < from.y + dy || (p.y == from.y + dy
                        && p.x < from.x + (-radius))) implies r@.contains(p) by {
                    lemma_in_radius_box(*from, p, radius);
                }
            }
            while dx <= radius
                invariant
                    s == self.entities_seq(),
                    radius >= 0,
                    radius <= 0x3FFF_FFFF,
                    i32::MIN <= from.x - radius,
                    from.x + radius <= i32::MAX,
                    i32::MIN <= from.y - radius,
                    from.y + radius <= i32::MAX,
                    -radius <= dy <= radius,
                    -radius <= dx <= radius + 1,
                    forall|k: int| 0 <= k < r@.len() ==> spec_visible(
                        s,
                        *from,
                        radius,
                        #[trigger] r@[k],
                    ),
                    forall|k: int| 0 <= k < r@.len() ==> (#[trigger] r@[k]).y < from.y + dy || (
                    (#[trigger] r@[k]).y == from.y + dy && r@[k].x < from.x + dx),
                    forall|p: WorldPosition| spec_visible(s, *from, radius, p) && (p.y < from.y
                        + dy || (p.y == from.y + dy && p.x < from.x + dx)) ==> r@.contains(p),
                    forall|i: int, j: int| 0 <= i < j < r@.len() ==> r@[i] != r@[j],
                decreases radius + 1 - dx,
            {
                let ghost r0 = r@;
                let to = WorldPosition { x: from.x + dx, y: from.y + dy };
                proof {
                    assert((radius as int) * (radius as int) <= 0x1000_0000_0000_0000)
                        by (nonlinear_arith)
                        requires
                            0 <= radius <= 0x3FFF_FFFF,
                    ;
                }
                let d2 = from.distance_squared_to(&to);
                let r2 = (radius as i128) * (radius as i128);
                let mut pushed = false;
                if d2 <= r2 {
                    if self.has_line_of_sight(from, &to) {
                        r.push(to);
                        pushed = true;
                    }
                }
                proof {
                    if pushed {
                        assert(r@ == r0.push(to));
                        assert(r@[r0.len() as int] == to);
                        assert(spec_visible(s, *from, radius, to));
                    } else {
                        assert(r@ == r0);
                        assert(!spec_visible(s, *from, radius, to));
                    }
                    assert forall|p: WorldPosition|
                        spec_visible(s, *from, radius, p) && (p.y < from.y + dy || (p.y == from.y
                            + dy && p.x < from.x + dx + 1)) implies r@.contains(p) by {
                        lemma_in_radius_box(*from, p, radius);
                        if p.y == from.y + dy && p.x == from.x + dx {
                            assert(p == to);
                            assert(r@.contains(p)) by {
                                assert(r@[r0.len() as int] == to);
                            }
                        } else {
                            assert(r0.contains(p));
                            let w = choose|w: int| 0 <= w < r0.len() && r0[w] == p;
                            assert(r@[w] == p);
                        }
                    }
                    assert forall|k: int| 0 <= k < r@.len() implies (#[trigger] r@[k]).y < from.y
                        + dy || (r@[k].y == from.y + dy && r@[k].x < from.x + dx + 1) by {}
                }
                dx = dx + 1;
            }
            proof {
                assert forall|p: WorldPosition|
                    spec_visible(s, *from, radius, p) && p.y < from.y + dy + 1 implies r@.contains(
                    p,
                ) by {
                    lemma_in_radius_box(*from, p, radius);
                }
            }
            dy = dy + 1;
        }
        proof {
            assert forall|p: WorldPosition| spec_visible(s, *from, radius, p) implies r@.contains(
                p,
            ) by {
                lemma_in_radius_box(*from, p, radius);
            }
            assert forall|p: WorldPosition| r@.contains(p) implies spec_visible(
                s,
                *from,
                radius,
                p,
            ) by {
                let w = choose|w: int| 0 <= w < r@.len() && r@[w] == p;
            }
        }
        r
    }
}

/// Scans an occupant list for anything that occludes sight.
fn any_occludes(list: &Vec<&Entity>) -> (r: bool)
    ensures
        r == exists|j: int| 0 <= j < list@.len() && occludes((#[trigger] list@[j]).kind),
{
    let n = list.len();
    let mut j: usize = 0;
    while j < n
        invariant
            j <= n == list@.len(),
            forall|k: int| 0 <= k < j ==> !occludes((#[trigger] list@[k]).kind),
        decreases n - j,
    {
        let e: &Entity = list[j];
        let blocking = match &e.kind {
            crate::entity::EntityKind::Wall { material } => material.blocks_vision,
            _ => false,
        };
        if blocking {
            proof {
                assert(occludes(list@[j as int].kind));
            }
            return true;
        }
        j = j + 1;
    }
    false
}

/// Connects the occupant list handed out by the registry to the
/// `occluder_at` predicate over the whole world.
proof fn lemma_occupant_occluders(s: Seq<Entity>, occ: Seq<&Entity>, p: WorldPosition)
    requires
        forall|j: int| 0 <= j < occ.len() ==> s.contains(*(#[trigger] occ[j])) && occ[j].pos
            == Some(p),
        forall|i: int| 0 <= i < s.len() && (#[trigger] s[i]).pos == Some(p) ==> exists|j: int|
            0 <= j < occ.len() && *(#[trigger] occ[j]) == s[i],
    ensures
        (exists|j: int| 0 <= j < occ.len() && occludes((#[trigger] occ[j]).kind)) <==> occluder_at(
            s,
            p,
        ),
{
    if occluder_at(s, p) {
        let i = choose|i: int|
            0 <= i < s.len() && (#[trigger] s[i]).pos == Some(p) && occludes(s[i].kind);
        let j = choose|j: int| 0 <= j < occ.len() && *(#[trigger] occ[j]) == s[i];
        assert(occludes(occ[j].kind));
    }
    if exists|j: int| 0 <= j < occ.len() && occludes((#[trigger] occ[j]).kind) {
        let j = choose|j: int| 0 <= j < occ.len() && occludes((#[trigger] occ[j]).kind);
        let e = *occ[j];
        let i = choose|i: int| 0 <= i < s.len() && s[i] == e;
        assert(s[i].pos == Some(p) && occludes(s[i].kind));
    }
}

/// A cell in the circle around `from` keeps both coordinates within
/// `radius` of the center.
proof fn lemma_in_radius_box(c: WorldPosition, p: WorldPosition, radius: i32)
    requires
        in_radius(c, p, radius),
    ensures
        c.x - radius <= p.x <= c.x + radius,
        c.y - radius <= p.y <= c.y + radius,
{
    assert((c.x - p.x) * (c.x - p.x) + (c.y - p.y) * (c.y - p.y) <= radius * radius
        ==> -radius <= c.x - p.x <= radius && -radius <= c.y - p.y <= radius) by (nonlinear_arith)
        requires
            radius >= 0,
    ;
}

/// Law: a cell always has line of sight to itself.
pub proof fn lemma_los_reflexive(s: Seq<Entity>, a: WorldPosition)
    ensures
        spec_los(s, a, a),
{
}

/// Law: the field of view of radius zero holds exactly the origin.
pub proof fn lemma_visible_radius_zero(s: Seq<Entity>, origin: WorldPosition, p: WorldPosition)
    ensures
        spec_visible(s, origin, 0, p) <==> p == origin,
{
    if spec_visible(s, origin, 0, p) {
        assert(p.x == origin.x && p.y == origin.y) by (nonlinear_arith)
            requires
                (origin.x - p.x) * (origin.x - p.x) + (origin.y - p.y) * (origin.y - p.y) <= 0,
        ;
    }
    if p == origin {
        assert(spec_dist2(origin, p) == 0);
        assert(spec_los(s, origin, p));
    }
}

} // verus!
