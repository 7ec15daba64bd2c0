//! Fixed-point 3D geometry and the hit-scan ray test.
//!
//! Coordinates are integers in fixed-point world units: `SCALE` fixed units
//! per world unit. All combat geometry is exact integer arithmetic, so the
//! hit predicate is a decidable function of the coordinates alone.
use vstd::prelude::*;

verus! {

/// Fixed-point units per world unit.
pub const SCALE: i32 = 100;

/// Largest coordinate magnitude (fixed units) a position may carry; keeps
/// every intermediate product of the hit test inside `i128`.
pub const COORD_LIMIT: i32 = 500_000;

/// Maximum reach of a shot: 100 world units, in fixed units.
pub const SHOT_RANGE: i32 = 10_000;

/// Collision radius around a player: 1 world unit, in fixed units.
pub const HIT_RADIUS: i32 = 100;

/// A 3D point or vector in fixed-point world coordinates.
#[derive(Clone, Copy, PartialEq, Eq, Structural, Debug)]
pub struct Vec3Fx {
    pub x: i32,
    pub y: i32,
    pub z: i32,
}

/// An orientation quaternion with fixed-point components. Advisory data:
/// the server stores and relays it but never computes with it.
#[derive(Clone, Copy, PartialEq, Eq, Structural, Debug)]
pub struct QuatFx {
    pub x: i32,
    pub y: i32,
    pub z: i32,
    pub w: i32,
}

impl Vec3Fx {
    /// Every coordinate within the world bound.
    pub open spec fn wf(self) -> bool {
        &&& -COORD_LIMIT <= self.x <= COORD_LIMIT
        &&& -COORD_LIMIT <= self.y <= COORD_LIMIT
        &&& -COORD_LIMIT <= self.z <= COORD_LIMIT
    }

    /// The origin.
    pub fn zero() -> (r: Self)
        ensures
            r == (Vec3Fx { x: 0, y: 0, z: 0 }),
    {
        Vec3Fx { x: 0, y: 0, z: 0 }
    }

    /// A point from its three coordinates.
    pub fn new(x: i32, y: i32, z: i32) -> (r: Self)
        ensures
            r == (Vec3Fx { x, y, z }),
    {
        Vec3Fx { x, y, z }
    }
}

impl QuatFx {
    /// The identity rotation.
    pub fn identity() -> (r: Self)
        ensures
            r == (QuatFx { x: 0, y: 0, z: 0, w: 1 }),
    {
        QuatFx { x: 0, y: 0, z: 0, w: 1 }
    }
}

/// Whether a shot fired from `from` toward `to` hits a player standing at
/// `victim`.
///
/// The shot is the segment that starts at `from`, runs in the direction of
/// `to - from`, and extends `SHOT_RANGE` units; the victim is hit when the
/// distance from `victim` to the closest point of that segment is below
/// `HIT_RADIUS`. With `d = to - from` and `w = victim - from`, the closest
/// point sits at arc length `s = (w . d) / |d|`, clamped to `[0, SHOT_RANGE]`,
/// and each clamp case below is that distance comparison with both sides
/// squared until it is polynomial in the coordinates:
/// - `d == 0`: the aim direction is undefined and nothing is hit;
/// - `s <= 0`: the closest point is `from` itself;
/// - `s >= SHOT_RANGE`: the closest point is the far end of the segment
///   (here `|w| >= SHOT_RANGE > HIT_RADIUS`, so the left side of the final
///   comparison is positive and squaring preserves the inequality);
/// - otherwise: the perpendicular distance to the aim line decides.
pub open spec fn spec_ray_hits(victim: Vec3Fx, from: Vec3Fx, to: Vec3Fx) -> bool {
    let dx = to.x - from.x;
    let dy = to.y - from.y;
    let dz = to.z - from.z;
    let wx = victim.x - from.x;
    let wy = victim.y - from.y;
    let wz = victim.z - from.z;
    let dd = dx * dx + dy * dy + dz * dz;
    let wd = wx * dx + wy * dy + wz * dz;
    let ww = wx * wx + wy * wy + wz * wz;
    let r2 = HIT_RADIUS * HIT_RADIUS;
    let range2 = SHOT_RANGE * SHOT_RANGE;
    if dd == 0 {
        false
    } else if wd <= 0 {
        ww < r2
    } else if wd * wd >= range2 * dd {
        let l = ww + range2 - r2;
        l * l * dd < 4 * range2 * (wd * wd)
    } else {
        ww * dd - wd * wd < r2 * dd
    }
}

/// `|a * b| <= ca * cb` whenever `|a| <= ca` and `|b| <= cb`.
proof fn lemma_mul_abs_bound(a: int, b: int, ca: int, cb: int)
    by (nonlinear_arith)
    requires
        -ca <= a <= ca,
        -cb <= b <= cb,
        0 <= ca,
        0 <= cb,
    ensures
        -(ca * cb) <= a * b <= ca * cb,
{
}

/// Decides whether the shot from `from` toward `to` hits a player at `pos`.
pub fn ray_hits_player(pos: Vec3Fx, from: Vec3Fx, to: Vec3Fx) -> (r: bool)
    requires
        pos.wf(),
        from.wf(),
        to.wf(),
    ensures
        r == spec_ray_hits(pos, from, to),
{
    let dx = to.x as i64 - from.x as i64;
    let dy = to.y as i64 - from.y as i64;
    let dz = to.z as i64 - from.z as i64;
    let wx = pos.x as i64 - from.x as i64;
    let wy = pos.y as i64 - from.y as i64;
    let wz = pos.z as i64 - from.z as i64;
    proof {
        lemma_mul_abs_bound(dx as int, dx as int, 1_000_000, 1_000_000);
        lemma_mul_abs_bound(dy as int, dy as int, 1_000_000, 1_000_000);
        lemma_mul_abs_bound(dz as int, dz as int, 1_000_000, 1_000_000);
        lemma_mul_abs_bound(wx as int, wx as int, 1_000_000, 1_000_000);
        lemma_mul_abs_bound(wy as int, wy as int, 1_000_000, 1_000_000);
        lemma_mul_abs_bound(wz as int, wz as int, 1_000_000, 1_000_000);
        lemma_mul_abs_bound(wx as int, dx as int, 1_000_000, 1_000_000);
        lemma_mul_abs_bound(wy as int, dy as int, 1_000_000, 1_000_000);
        lemma_mul_abs_bound(wz as int, dz as int, 1_000_000, 1_000_000);
    }
    let dd: i64 = dx * dx + dy * dy + dz * dz;
    let wd: i64 = wx * dx + wy * dy + wz * dz;
    let ww: i64 = wx * wx + wy * wy + wz * wz;
    let r2: i64 = 10_000;
    let range2: i64 = 100_000_000;
    proof {
        assert(r2 == HIT_RADIUS * HIT_RADIUS);
        assert(range2 == SHOT_RANGE * SHOT_RANGE);
    }
    if dd == 0 {
        false
    } else if wd <= 0 {
        ww < r2
    } else {
        proof {
            lemma_mul_abs_bound(wd as int, wd as int, 3_000_000_000_000, 3_000_000_000_000);
            lemma_mul_abs_bound(range2 as int, dd as int, 100_000_000, 3_000_000_000_000);
        }
        let wd2: i128 = (wd as i128) * (wd as i128);
        if wd2 >= (range2 as i128) * (dd as i128) {
            let l: i128 = ww as i128 + range2 as i128 - r2 as i128;
            proof {
                lemma_mul_abs_bound(l as int, l as int, 3_000_100_000_000, 3_000_100_000_000);
                lemma_mul_abs_bound(
                    (l * l) as int,
                    dd as int,
                    9_000_600_010_000_000_000_000_000,
                    3_000_000_000_000,
                );
                lemma_mul_abs_bound(
                    4 * range2 as int,
                    wd2 as int,
                    400_000_000,
                    9_000_000_000_000_000_000_000_000,
                );
            }
            l * l * (dd as i128) < 4 * (range2 as i128) * wd2
        } else {
            proof {
                lemma_mul_abs_bound(ww as int, dd as int, 3_000_000_000_000, 3_000_000_000_000);
                lemma_mul_abs_bound(r2 as int, dd as int, 10_000, 3_000_000_000_000);
            }
            (ww as i128) * (dd as i128) - wd2 < (r2 as i128) * (dd as i128)
        }
    }
}

} // verus!
