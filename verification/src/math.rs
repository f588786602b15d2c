//! Fixed-point plane vectors.
//!
//! Positions, velocities, accelerations and box sizes are pairs of `i64`
//! values in hundredths of a world unit (so `500` is five units). Keeping
//! every coordinate within [`WORLD_LIMIT`] lets every product that the
//! collision sweep forms fit comfortably in `i64`.

use vstd::prelude::*;

verus! {

/// Number of fixed-point steps per world unit.
pub const SCALE: i64 = 100;

/// Bound on every world coordinate, velocity and size (ten thousand
/// world units). Integration saturates here instead of overflowing.
pub const WORLD_LIMIT: i64 = 1_000_000;

/// A plane vector in fixed-point world coordinates.
#[derive(Clone, Copy, PartialEq, Eq, Structural, Debug)]
pub struct V2 {
    pub x: i64,
    pub y: i64,
}

impl V2 {
    /// Both coordinates lie within the world bound.
    pub open spec fn wf(self) -> bool {
        &&& -WORLD_LIMIT <= self.x <= WORLD_LIMIT
        &&& -WORLD_LIMIT <= self.y <= WORLD_LIMIT
    }

    /// Both coordinates are nonnegative (required of box sizes).
    pub open spec fn nonneg(self) -> bool {
        self.x >= 0 && self.y >= 0
    }

    pub fn new(x: i64, y: i64) -> (r: V2)
        ensures
            r == (V2 { x, y }),
    {
        V2 { x, y }
    }

    pub fn zero() -> (r: V2)
        ensures
            r == (V2 { x: 0, y: 0 }),
    {
        V2 { x: 0, y: 0 }
    }
}

/// Clamp an integer into the world bound.
pub open spec fn clamp_spec(v: int) -> int {
    if v < -WORLD_LIMIT {
        -WORLD_LIMIT as int
    } else if v > WORLD_LIMIT {
        WORLD_LIMIT as int
    } else {
        v
    }
}

/// Sum clamped into the world bound.
pub open spec fn sat_add_spec(a: int, b: int) -> int {
    clamp_spec(a + b)
}

/// Componentwise saturating vector sum.
pub open spec fn sat_add_v2_spec(a: V2, b: V2) -> V2 {
    V2 { x: sat_add_spec(a.x as int, b.x as int) as i64, y: sat_add_spec(a.y as int, b.y as int) as i64 }
}

/// Saturating addition of two in-bound coordinates.
pub fn sat_add(a: i64, b: i64) -> (r: i64)
    requires
        -WORLD_LIMIT <= a <= WORLD_LIMIT,
        -WORLD_LIMIT <= b <= WORLD_LIMIT,
    ensures
        r == sat_add_spec(a as int, b as int),
        -WORLD_LIMIT <= r <= WORLD_LIMIT,
{
    let s = a + b;
    if s < -WORLD_LIMIT {
        -WORLD_LIMIT
    } else if s > WORLD_LIMIT {
        WORLD_LIMIT
    } else {
        s
    }
}

/// Componentwise saturating vector addition.
pub fn sat_add_v2(a: V2, b: V2) -> (r: V2)
    requires
        a.wf(),
        b.wf(),
    ensures
        r == sat_add_v2_spec(a, b),
        r.wf(),
{
    V2 { x: sat_add(a.x, b.x), y: sat_add(a.y, b.y) }
}

/// Squared length of a vector.
pub open spec fn len2_spec(v: V2) -> int {
    v.x * v.x + v.y * v.y
}

/// `v` scaled by the fraction `n / d`, rounded toward zero. With
/// `0 <= n <= d` the result never exceeds `v` in magnitude, so truncated
/// motion can never overshoot the contact point.
pub open spec fn scaled_spec(v: int, n: int, d: int) -> int {
    if v >= 0 {
        (v * n) / d
    } else {
        -(((-v) * n) / d)
    }
}

/// Bound on a product of two bounded factors.
pub proof fn lemma_mul_bounds(a: int, b: int, aa: int, bb: int)
    by (nonlinear_arith)
    requires
        -aa <= a <= aa,
        -bb <= b <= bb,
        0 <= aa,
        0 <= bb,
    ensures
        -(aa * bb) <= a * b <= aa * bb,
{
}

/// Nonnegative truncated scaling is monotone and bounded by `v`.
proof fn lemma_scaled_nonneg_le(v: int, n: int, d: int)
    by (nonlinear_arith)
    requires
        v >= 0,
        0 <= n <= d,
        1 <= d,
    ensures
        0 <= (v * n) / d <= v,
{
}

/// Truncated scaling by a fraction at most one never grows a coordinate.
pub proof fn lemma_scaled_bounds(v: int, n: int, d: int)
    requires
        0 <= n <= d,
        1 <= d,
    ensures
        v >= 0 ==> 0 <= scaled_spec(v, n, d) <= v,
        v < 0 ==> v <= scaled_spec(v, n, d) <= 0,
{
    if v >= 0 {
        lemma_scaled_nonneg_le(v, n, d);
    } else {
        lemma_scaled_nonneg_le(-v, n, d);
    }
}

/// One coordinate scaled by `n / d`, truncating toward zero.
pub fn scale1(v: i64, n: i64, d: i64) -> (r: i64)
    requires
        -WORLD_LIMIT <= v <= WORLD_LIMIT,
        0 <= n <= d,
        1 <= d,
        n <= 8 * WORLD_LIMIT,
    ensures
        r == scaled_spec(v as int, n as int, d as int),
        v >= 0 ==> 0 <= r <= v,
        v < 0 ==> v <= r <= 0,
{
    proof {
        lemma_scaled_bounds(v as int, n as int, d as int);
    }
    if v >= 0 {
        proof {
            lemma_mul_bounds(v as int, n as int, WORLD_LIMIT as int, 8 * WORLD_LIMIT as int);
        }
        let q = ((v as u64) * (n as u64)) / (d as u64);
        q as i64
    } else {
        proof {
            lemma_mul_bounds(-v as int, n as int, WORLD_LIMIT as int, 8 * WORLD_LIMIT as int);
        }
        let q = (((-v) as u64) * (n as u64)) / (d as u64);
        -(q as i64)
    }
}

/// A vector scaled by `n / d`, truncating each coordinate toward zero.
pub open spec fn scaled_v2_spec(v: V2, n: int, d: int) -> V2 {
    V2 { x: scaled_spec(v.x as int, n, d) as i64, y: scaled_spec(v.y as int, n, d) as i64 }
}

pub fn scale_v2(v: V2, n: i64, d: i64) -> (r: V2)
    requires
        v.wf(),
        0 <= n <= d,
        1 <= d,
        n <= 8 * WORLD_LIMIT,
    ensures
        r == scaled_v2_spec(v, n as int, d as int),
        r.wf(),
{
    V2 { x: scale1(v.x, n, d), y: scale1(v.y, n, d) }
}

/// Squared length of an in-bound vector.
pub fn len2(v: V2) -> (r: i64)
    requires
        v.wf(),
    ensures
        r == len2_spec(v),
{
    proof {
        lemma_mul_bounds(v.x as int, v.x as int, WORLD_LIMIT as int, WORLD_LIMIT as int);
        lemma_mul_bounds(v.y as int, v.y as int, WORLD_LIMIT as int, WORLD_LIMIT as int);
    }
    v.x * v.x + v.y * v.y
}

} // verus!
