//! Fixed-point plane geometry: vectors in milli-units, integer square
//! root, normalization to a scaled unit vector, and the scaled division
//! used by every displacement computation.

use vstd::prelude::*;
use crate::DIR_SCALE;
use crate::POS_LIMIT;

verus! {

/// A 2D point or vector, in milli-units (1000 per world unit).
#[derive(Clone, Copy, PartialEq, Eq, Structural, Debug)]
pub struct Vec2I {
    pub x: i64,
    pub y: i64,
}

/// A coordinate inside the simulation bounds.
pub open spec fn coord_in_bounds(v: int) -> bool {
    -POS_LIMIT <= v <= POS_LIMIT
}

/// A point inside the simulation bounds.
pub open spec fn pos_in_bounds(v: Vec2I) -> bool {
    coord_in_bounds(v.x as int) && coord_in_bounds(v.y as int)
}

pub open spec fn spec_abs(a: int) -> int {
    if a >= 0 {
        a
    } else {
        -a
    }
}

/// Floor of the square root, defined by counting up.
pub open spec fn isqrt_spec(n: nat) -> nat
    decreases n,
{
    if n == 0 {
        0
    } else {
        let p = isqrt_spec((n - 1) as nat);
        if (p + 1) * (p + 1) <= n {
            p + 1
        } else {
            p
        }
    }
}

/// `isqrt_spec(n)` satisfies the floor-square-root characterization.
pub proof fn lemma_isqrt_bounds(n: nat)
    ensures
        isqrt_spec(n) * isqrt_spec(n) <= n,
        n < (isqrt_spec(n) + 1) * (isqrt_spec(n) + 1),
    decreases n,
{
    if n == 0 {
        let s = isqrt_spec(n);
        assert(s == 0);
        assert(n < (s + 1) * (s + 1)) by (nonlinear_arith)
            requires
                s == 0,
                n == 0,
        ;
    } else {
        let p = isqrt_spec((n - 1) as nat);
        lemma_isqrt_bounds((n - 1) as nat);
        assert(isqrt_spec(n) == if (p + 1) * (p + 1) <= n {
            p + 1
        } else {
            p
        });
        let s = isqrt_spec(n);
        if (p + 1) * (p + 1) <= n {
            assert(n <= (p + 1) * (p + 1));
            assert(s * s <= n) by (nonlinear_arith)
                requires
                    s == p + 1,
                    (p + 1) * (p + 1) <= n,
            ;
            assert(n < (s + 1) * (s + 1)) by (nonlinear_arith)
                requires
                    s == p + 1,
                    n <= (p + 1) * (p + 1),
                    p >= 0,
            ;
        } else {
            assert(p * p <= n - 1 <= n);
            assert(s * s <= n) by (nonlinear_arith)
                requires
                    s == p,
                    p * p <= n,
            ;
            assert(n < (s + 1) * (s + 1)) by (nonlinear_arith)
                requires
                    s == p,
                    n < (p + 1) * (p + 1),
            ;
        }
    }
}

/// No other value satisfies the floor-square-root characterization.
pub proof fn lemma_isqrt_unique(n: nat, r: nat)
    requires
        r * r <= n,
        n < (r + 1) * (r + 1),
    ensures
        r == isqrt_spec(n),
{
    let s = isqrt_spec(n);
    lemma_isqrt_bounds(n);
    if r < s {
        assert((r + 1) * (r + 1) <= s * s) by (nonlinear_arith)
            requires
                r + 1 <= s,
        ;
    }
    if s < r {
        assert((s + 1) * (s + 1) <= r * r) by (nonlinear_arith)
            requires
                s + 1 <= r,
        ;
    }
}

/// A value below a square has its root below the base.
pub proof fn lemma_root_le(n: nat, b: nat)
    requires
        n < (b + 1) * (b + 1),
    ensures
        isqrt_spec(n) <= b,
{
    lemma_isqrt_bounds(n);
    let r = isqrt_spec(n);
    if r > b {
        assert((b + 1) * (b + 1) <= r * r) by (nonlinear_arith)
            requires
                b + 1 <= r,
        ;
    }
}

/// Integer square root by binary search.
pub fn isqrt(n: u128) -> (r: u64)
    requires
        n < 85070591730234615865843651857942052864u128,
    ensures
        r * r <= n < (r + 1) * (r + 1),
        r == isqrt_spec(n as nat),
{
    let mut lo: u64 = 0;
    let mut hi: u64 = 9223372036854775808u64;
    assert((9223372036854775808int) * (9223372036854775808int)
        == 85070591730234615865843651857942052864int) by (nonlinear_arith);
    while lo + 1 < hi
        invariant
            lo < hi <= 9223372036854775808u64,
            (lo as int) * (lo as int) <= n,
            n < (hi as int) * (hi as int),
        decreases hi - lo,
    {
        let mid = lo + (hi - lo) / 2;
        assert((mid as int) * (mid as int) <= (9223372036854775808int) * (9223372036854775808int))
            by (nonlinear_arith)
            requires
                0 <= mid <= 9223372036854775808int,
        ;
        assert((9223372036854775808int) * (9223372036854775808int)
            == 85070591730234615865843651857942052864int) by (nonlinear_arith);
        let sq: u128 = (mid as u128) * (mid as u128);
        if sq <= n {
            lo = mid;
        } else {
            hi = mid;
        }
    }
    proof {
        lemma_isqrt_unique(n as nat, lo as nat);
    }
    lo
}

/// Truncating signed division by a positive `d`: the quotient is
/// rounded toward zero.
pub open spec fn spec_sdiv(a: int, d: int) -> int {
    if a >= 0 {
        a / d
    } else {
        -((-a) / d)
    }
}

/// The quotient stays below any bound whose product with the divisor
/// dominates the dividend.
pub proof fn lemma_sdiv_bound(a: int, d: int, b: int)
    requires
        d >= 1,
        0 <= b,
        spec_abs(a) <= b * d,
    ensures
        spec_abs(spec_sdiv(a, d)) <= b,
{
    if a >= 0 {
        assert(a / d <= b) by (nonlinear_arith)
            requires
                d >= 1,
                0 <= a <= b * d,
        ;
        assert(a / d >= 0) by (nonlinear_arith)
            requires
                d >= 1,
                a >= 0,
        ;
    } else {
        assert((-a) / d <= b) by (nonlinear_arith)
            requires
                d >= 1,
                0 <= -a <= b * d,
        ;
        assert((-a) / d >= 0) by (nonlinear_arith)
            requires
                d >= 1,
                -a >= 0,
        ;
    }
}

/// Compute `spec_sdiv(a * m, d)`: scale `a` by a nonnegative factor `m`
/// and divide by a positive `d`, rounding toward zero.
pub fn scale_div(a: i64, m: i64, d: i64) -> (r: i64)
    requires
        0 < d,
        0 <= m,
        spec_abs(a as int) * (m as int) <= i64::MAX,
    ensures
        r == spec_sdiv((a as int) * (m as int), d as int),
{
    let neg: bool = a < 0;
    let av: u64 = if a < 0 {
        (-(a as i128)) as u64
    } else {
        a as u64
    };
    assert(av as int == spec_abs(a as int));
    let prod: u64 = av * (m as u64);
    let q: u64 = prod / (d as u64);
    assert(q <= prod) by (nonlinear_arith)
        requires
            d >= 1,
            prod >= 0,
            q == (prod as int) / (d as int),
    ;
    proof {
        assert((a as int) * (m as int) == if a >= 0 {
            (av as int) * (m as int)
        } else {
            -((av as int) * (m as int))
        }) by (nonlinear_arith)
            requires
                av as int == spec_abs(a as int),
        ;
    }
    if neg {
        -(q as i64)
    } else {
        q as i64
    }
}

/// Squared length of a vector.
pub open spec fn spec_len2(v: Vec2I) -> int {
    (v.x as int) * (v.x as int) + (v.y as int) * (v.y as int)
}

/// Length (floor of the Euclidean norm), in milli-units.
pub open spec fn spec_len(v: Vec2I) -> int {
    isqrt_spec(spec_len2(v) as nat) as int
}

/// A component is never longer than the whole vector.
pub proof fn lemma_component_le_len(v: Vec2I)
    ensures
        0 <= spec_len(v),
        spec_abs(v.x as int) <= spec_len(v),
        spec_abs(v.y as int) <= spec_len(v),
{
    assert((v.x as int) * (v.x as int) >= 0 && (v.y as int) * (v.y as int) >= 0)
        by (nonlinear_arith);
    let n = spec_len2(v) as nat;
    lemma_isqrt_bounds(n);
    let r = isqrt_spec(n);
    assert(spec_abs(v.x as int) <= r) by (nonlinear_arith)
        requires
            (v.x as int) * (v.x as int) <= n,
            n < (r + 1) * (r + 1),
            r >= 0,
    ;
    assert(spec_abs(v.y as int) <= r) by (nonlinear_arith)
        requires
            (v.y as int) * (v.y as int) <= n,
            n < (r + 1) * (r + 1),
            r >= 0,
    ;
}

/// The length of a nonzero vector is at least one.
pub proof fn lemma_nonzero_len(v: Vec2I)
    requires
        v.x != 0 || v.y != 0,
    ensures
        spec_len(v) >= 1,
{
    assert(spec_len2(v) >= 1) by (nonlinear_arith)
        requires
            v.x != 0 || v.y != 0,
    ;
    let n = spec_len2(v) as nat;
    lemma_isqrt_bounds(n);
    let r = isqrt_spec(n);
    assert(r >= 1) by (nonlinear_arith)
        requires
            n >= 1,
            n < (r + 1) * (r + 1),
            r >= 0,
    ;
}

/// Difference `a - b` of two in-bounds points, exact.
pub fn vec_sub(a: Vec2I, b: Vec2I) -> (r: Vec2I)
    requires
        pos_in_bounds(a),
        pos_in_bounds(b),
    ensures
        r.x == a.x - b.x,
        r.y == a.y - b.y,
{
    Vec2I { x: a.x - b.x, y: a.y - b.y }
}

/// Length of a difference vector, exact; bounded by three times the
/// simulation radius.
pub fn vec_len(v: Vec2I) -> (r: i64)
    requires
        spec_abs(v.x as int) <= 2 * POS_LIMIT,
        spec_abs(v.y as int) <= 2 * POS_LIMIT,
    ensures
        r == spec_len(v),
        0 <= r <= 3 * POS_LIMIT,
{
    let xa: i128 = v.x as i128;
    let ya: i128 = v.y as i128;
    assert(0 <= xa * xa <= 4000000000000000000000000int && 0 <= ya * ya
        <= 4000000000000000000000000int) by (nonlinear_arith)
        requires
            spec_abs(xa as int) <= 2000000000000int,
            spec_abs(ya as int) <= 2000000000000int,
    ;
    let n: u128 = (xa * xa + ya * ya) as u128;
    let r = isqrt(n);
    proof {
        assert((3 * POS_LIMIT + 1) * (3 * POS_LIMIT + 1) > 8000000000000000000000000int)
            by (nonlinear_arith)
            requires
                POS_LIMIT == 1000000000000i64,
        ;
        lemma_root_le(n as nat, (3 * POS_LIMIT) as nat);
    }
    r as i64
}

/// The normalized direction of `v`, scaled by `DIR_SCALE`; only
/// meaningful for `v` nonzero.
pub open spec fn spec_norm_x(v: Vec2I) -> int {
    spec_sdiv((v.x as int) * DIR_SCALE, spec_len(v))
}

pub open spec fn spec_norm_y(v: Vec2I) -> int {
    spec_sdiv((v.y as int) * DIR_SCALE, spec_len(v))
}

/// Normalize a vector to length (about) `DIR_SCALE`. Returns `None`
/// exactly on the zero vector, the degenerate case every caller must
/// guard.
pub fn normalize(v: Vec2I) -> (r: Option<Vec2I>)
    requires
        spec_abs(v.x as int) <= 2 * POS_LIMIT,
        spec_abs(v.y as int) <= 2 * POS_LIMIT,
    ensures
        r is None <==> v.x == 0 && v.y == 0,
        r matches Some(d) ==> {
            &&& d.x == spec_norm_x(v)
            &&& d.y == spec_norm_y(v)
            &&& spec_abs(d.x as int) <= DIR_SCALE
            &&& spec_abs(d.y as int) <= DIR_SCALE
        },
{
    if v.x == 0 && v.y == 0 {
        return None;
    }
    let len = vec_len(v);
    proof {
        lemma_nonzero_len(v);
        lemma_component_le_len(v);
        assert(spec_abs((v.x as int) * 1000) <= 1000 * (len as int) && spec_abs(
            (v.y as int) * 1000,
        ) <= 1000 * (len as int)) by (nonlinear_arith)
            requires
                spec_abs(v.x as int) <= len,
                spec_abs(v.y as int) <= len,
        ;
        lemma_sdiv_bound((v.x as int) * 1000, len as int, 1000);
        lemma_sdiv_bound((v.y as int) * 1000, len as int, 1000);
    }
    let dx = scale_div(v.x, DIR_SCALE, len);
    let dy = scale_div(v.y, DIR_SCALE, len);
    Some(Vec2I { x: dx, y: dy })
}

/// Displacement along one axis: direction component times speed times
/// delta-time, brought back from milli-scaled units
/// (`DIR_SCALE` times milliseconds-per-second).
pub open spec fn spec_disp(dirc: int, speed: int, dt: int) -> int {
    spec_sdiv(dirc * (speed * dt), 1_000_000)
}

/// A coordinate after a displacement, clamped to the simulation bounds.
pub open spec fn spec_moved_coord(pos: int, dirc: int, speed: int, dt: int) -> int {
    crate::spec_clamp_coord(pos + spec_disp(dirc, speed, dt))
}

/// A point after a displacement by a normalized direction, speed and
/// delta-time, clamped axis-wise to the simulation bounds.
pub open spec fn spec_moved_pos(pos: Vec2I, dir: Vec2I, speed: int, dt: int) -> Vec2I {
    Vec2I {
        x: spec_moved_coord(pos.x as int, dir.x as int, speed, dt) as i64,
        y: spec_moved_coord(pos.y as int, dir.y as int, speed, dt) as i64,
    }
}

/// Displacement along one axis, exact and bounded.
pub fn disp_axis(dirc: i64, speed: i64, dt: i64) -> (r: i64)
    requires
        spec_abs(dirc as int) <= DIR_SCALE,
        0 <= speed <= crate::SPEED_LIMIT,
        0 <= dt < crate::DT_LIMIT,
    ensures
        r == spec_disp(dirc as int, speed as int, dt as int),
        spec_abs(r as int) <= 1_600_000_000,
{
    assert(0 <= (speed as int) * (dt as int) <= 1_600_000_000_000int) by (nonlinear_arith)
        requires
            0 <= speed <= 16_000_000int,
            0 <= dt <= 100_000int,
    ;
    let m = speed * dt;
    assert(spec_abs(dirc as int) * (m as int) <= 1000 * 1_600_000_000_000int) by (nonlinear_arith)
        requires
            spec_abs(dirc as int) <= 1000,
            0 <= m <= 1_600_000_000_000int,
    ;
    assert(spec_abs((dirc as int) * (m as int)) == spec_abs(dirc as int) * (m as int))
        by (nonlinear_arith)
        requires
            m >= 0,
    ;
    let r = scale_div(dirc, m, 1_000_000);
    proof {
        lemma_sdiv_bound((dirc as int) * (m as int), 1_000_000int, 1_600_000_000int);
    }
    r
}

/// Move a point by a normalized direction, speed and delta-time; each
/// axis is displaced then clamped to the simulation bounds.
pub fn apply_disp(pos: Vec2I, dir: Vec2I, speed: i64, dt: i64) -> (r: Vec2I)
    requires
        pos_in_bounds(pos),
        spec_abs(dir.x as int) <= DIR_SCALE,
        spec_abs(dir.y as int) <= DIR_SCALE,
        0 <= speed <= crate::SPEED_LIMIT,
        0 <= dt < crate::DT_LIMIT,
    ensures
        r == spec_moved_pos(pos, dir, speed as int, dt as int),
        r.x == spec_moved_coord(pos.x as int, dir.x as int, speed as int, dt as int),
        r.y == spec_moved_coord(pos.y as int, dir.y as int, speed as int, dt as int),
        pos_in_bounds(r),
{
    let dx = disp_axis(dir.x, speed, dt);
    let dy = disp_axis(dir.y, speed, dt);
    let x = crate::clamp_coord(pos.x + dx);
    let y = crate::clamp_coord(pos.y + dy);
    Vec2I { x, y }
}

} // verus!
