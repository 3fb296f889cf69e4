//! Shared geometry primitives: integer points and rectangles, floor square
//! root, point distance, linear interpolation and range remapping.
//!
//! World coordinates are `i64` values kept within [`COORD_LIMIT`] so that
//! squares and products of differences never overflow 64 bits.

use vstd::prelude::*;

use crate::trig;

verus! {

/// Largest coordinate magnitude the geometry helpers accept.
pub const COORD_LIMIT: i64 = 0x4000_0000;

/// Fixed-point scale used by [`norm`]: a value at the top of its input
/// range normalizes to `NORM_ONE`.
pub const NORM_ONE: i64 = 1024;

/// A world-space point with integer coordinates.
#[derive(Clone, Copy, Debug, PartialEq, Eq, Structural)]
pub struct Vec2i {
    pub x: i64,
    pub y: i64,
}

/// An axis-aligned rectangle: origin corner plus non-negative extent.
#[derive(Clone, Copy, Debug, PartialEq, Eq, Structural)]
pub struct RectI {
    pub x: i64,
    pub y: i64,
    pub w: i64,
    pub h: i64,
}

/// Whether a coordinate is small enough for the overflow-free helpers.
pub open spec fn in_coord_range(v: i64) -> bool {
    -COORD_LIMIT <= v && v <= COORD_LIMIT
}

/// Whether both coordinates of a point are within [`COORD_LIMIT`].
pub open spec fn point_in_range(p: Vec2i) -> bool {
    in_coord_range(p.x) && in_coord_range(p.y)
}

/// The floor of the real square root of `n`.
pub open spec fn sqrt_floor(n: nat) -> nat
    decreases n,
{
    if n == 0 {
        0
    } else {
        let r = sqrt_floor((n - 1) as nat);
        if (r + 1) * (r + 1) <= n {
            r + 1
        } else {
            r
        }
    }
}

/// `sqrt_floor(n)` really is the floor of the square root: its square is at
/// most `n` and the next square is beyond `n`.
pub proof fn lemma_sqrt_floor_bounds(n: nat)
    ensures
        sqrt_floor(n) * sqrt_floor(n) <= n,
        n < (sqrt_floor(n) + 1) * (sqrt_floor(n) + 1),
    decreases n,
{
    if n > 0 {
        lemma_sqrt_floor_bounds((n - 1) as nat);
        let r = sqrt_floor((n - 1) as nat);
        if (r + 1) * (r + 1) <= n {
            assert(sqrt_floor(n) == r + 1);
            assert(n < (r + 2) * (r + 2)) by (nonlinear_arith)
                requires
                    (n - 1) < (r + 1) * (r + 1),
                    r >= 0,
            ;
        } else {
            assert(sqrt_floor(n) == r);
        }
    } else {
        assert(sqrt_floor(n) == 0);
        assert(n < (sqrt_floor(n) + 1) * (sqrt_floor(n) + 1)) by (nonlinear_arith)
            requires
                sqrt_floor(n) == 0,
                n == 0,
        ;
    }
}

/// Only one value satisfies the floor-square-root bounds.
pub proof fn lemma_sqrt_floor_unique(n: nat, r: nat)
    requires
        r * r <= n,
        n < (r + 1) * (r + 1),
    ensures
        r == sqrt_floor(n),
{
    lemma_sqrt_floor_bounds(n);
    let s = sqrt_floor(n);
    if r < s {
        assert((r + 1) * (r + 1) <= s * s) by (nonlinear_arith)
            requires
                r + 1 <= s,
        ;
    }
    if s < r {
        assert((s + 1) * (s + 1) <= r * r) by (nonlinear_arith)
            requires
                s + 1 <= r,
        ;
    }
}

/// Floor square root, by bisection over the answer.
pub fn isqrt(n: u64) -> (r: u64)
    ensures
        r == sqrt_floor(n as nat),
        r * r <= n,
        n < (r + 1) * (r + 1),
        r < 0x1_0000_0000,
{
    let mut lo: u64 = 0;
    let mut hi: u64 = 0x1_0000_0000;
    while hi - lo > 1
        invariant
            lo < hi,
            hi <= 0x1_0000_0000,
            lo * lo <= n,
            n < (hi as int) * (hi as int),
        decreases hi - lo,
    {
        let mid: u64 = lo + (hi - lo) / 2;
        proof {
            assert(mid < hi);
            assert(mid * mid <= 0xFFFF_FFFF * 0xFFFF_FFFF) by (nonlinear_arith)
                requires
                    0 <= mid <= 0xFFFF_FFFF,
            ;
        }
        if mid * mid <= n {
            lo = mid;
        } else {
            hi = mid;
        }
    }
    proof {
        lemma_sqrt_floor_unique(n as nat, lo as nat);
    }
    lo
}

/// The squared distance between two points.
pub open spec fn dist_sq(a: Vec2i, b: Vec2i) -> int {
    (a.x - b.x) * (a.x - b.x) + (a.y - b.y) * (a.y - b.y)
}

/// The distance between two points, rounded down to an integer.
pub open spec fn dist(a: Vec2i, b: Vec2i) -> nat {
    sqrt_floor(dist_sq(a, b) as nat)
}

/// The magnitude of a coordinate as an unsigned value.
pub fn abs_i64(v: i64) -> (r: u64)
    requires
        v > i64::MIN,
    ensures
        r == if v >= 0 {
            v as int
        } else {
            -v as int
        },
{
    if v >= 0 {
        v as u64
    } else {
        (-v) as u64
    }
}

/// Distance from `a` to `b`, rounded down.
pub fn distance(a: Vec2i, b: Vec2i) -> (r: u64)
    requires
        point_in_range(a),
        point_in_range(b),
    ensures
        r == dist(a, b),
        r <= 3 * COORD_LIMIT,
{
    let dx: u64 = abs_i64(a.x - b.x);
    let dy: u64 = abs_i64(a.y - b.y);
    assert(dx * dx + dy * dy == dist_sq(a, b)) by (nonlinear_arith)
        requires
            dx == if a.x - b.x >= 0 {
                a.x - b.x
            } else {
                -(a.x - b.x)
            },
            dy == if a.y - b.y >= 0 {
                a.y - b.y
            } else {
                -(a.y - b.y)
            },
    ;
    assert(dx * dx <= (2 * COORD_LIMIT) * (2 * COORD_LIMIT)) by (nonlinear_arith)
        requires
            0 <= dx <= 2 * COORD_LIMIT,
    ;
    assert(dy * dy <= (2 * COORD_LIMIT) * (2 * COORD_LIMIT)) by (nonlinear_arith)
        requires
            0 <= dy <= 2 * COORD_LIMIT,
    ;
    let r = isqrt(dx * dx + dy * dy);
    proof {
        assert(r <= 3 * COORD_LIMIT) by (nonlinear_arith)
            requires
                r * r <= (2 * COORD_LIMIT) * (2 * COORD_LIMIT) + (2 * COORD_LIMIT) * (2
                    * COORD_LIMIT),
                r >= 0,
        ;
    }
    r
}

/// Scaling a non-negative value by a fraction `num / den <= 1` does not
/// increase it.
pub proof fn lemma_mul_div_le(x: int, num: int, den: int)
    requires
        0 <= x,
        0 <= num <= den,
        1 <= den,
    ensures
        0 <= (x * num) / den <= x,
{
    vstd::arithmetic::mul::lemma_mul_nonnegative(x, num);
    vstd::arithmetic::div_mod::lemma_div_is_ordered(0, x * num, den);
    assert(x * num <= x * den) by (nonlinear_arith)
        requires
            0 <= x,
            num <= den,
    ;
    vstd::arithmetic::div_mod::lemma_div_is_ordered(x * num, x * den, den);
    vstd::arithmetic::mul::lemma_mul_is_commutative(x, den);
    vstd::arithmetic::div_mod::lemma_div_multiples_vanish(x, den);
}

/// Linear interpolation from `from` toward `to` by the fraction
/// `num / den`, rounding toward `from`.
pub open spec fn lerp_spec(from: int, to: int, num: int, den: int) -> int {
    if to >= from {
        from + ((to - from) * num) / den
    } else {
        from - ((from - to) * num) / den
    }
}

/// Linear interpolation between two non-negative values by the fraction
/// `num / den`; the result always lies between the two.
pub fn lerp(from: u64, to: u64, num: u64, den: u64) -> (r: u64)
    requires
        1 <= den <= 0x1_0000_0000,
        num <= den,
        from <= 0x8000_0000,
        to <= 0x8000_0000,
    ensures
        r == lerp_spec(from as int, to as int, num as int, den as int),
        from <= to ==> from <= r <= to,
        to <= from ==> to <= r <= from,
{
    proof {
        assert((to - from) * num <= 0x8000_0000 * 0x1_0000_0000 && (from - to) * num <= 0x8000_0000
            * 0x1_0000_0000) by (nonlinear_arith)
            requires
                from <= 0x8000_0000,
                to <= 0x8000_0000,
                0 <= num <= 0x1_0000_0000,
                0 <= from,
                0 <= to,
        ;
    }
    if to >= from {
        let delta: u64 = (to - from) * num / den;
        proof {
            lemma_mul_div_le(to - from, num as int, den as int);
        }
        from + delta
    } else {
        let delta: u64 = (from - to) * num / den;
        proof {
            lemma_mul_div_le(from - to, num as int, den as int);
        }
        from - delta
    }
}

/// Remapping of `v` from the range `[a1, b1]` to the range `[a2, b2]`,
/// rounding toward `a2`.
pub open spec fn map_spec(v: int, a1: int, b1: int, a2: int, b2: int) -> int {
    a2 + ((v - a1) * (b2 - a2)) / (b1 - a1)
}

/// Remaps `v` linearly from `[a1, b1]` to `[a2, b2]`.
pub fn map_range(v: i64, a1: i64, b1: i64, a2: i64, b2: i64) -> (r: i64)
    requires
        in_coord_range(v),
        in_coord_range(a1),
        in_coord_range(b1),
        in_coord_range(a2),
        in_coord_range(b2),
        a1 < b1,
        a1 <= v <= b1,
        a2 <= b2,
    ensures
        r == map_spec(v as int, a1 as int, b1 as int, a2 as int, b2 as int),
        a2 <= r <= b2,
{
    let run: u64 = (v - a1) as u64;
    let span_out: u64 = (b2 - a2) as u64;
    let span_in: u64 = (b1 - a1) as u64;
    proof {
        assert(run * span_out <= (2 * COORD_LIMIT) * (2 * COORD_LIMIT)) by (nonlinear_arith)
            requires
                0 <= run <= 2 * COORD_LIMIT,
                0 <= span_out <= 2 * COORD_LIMIT,
        ;
        lemma_mul_div_le(span_out as int, run as int, span_in as int);
        vstd::arithmetic::mul::lemma_mul_is_commutative(span_out as int, run as int);
    }
    let scaled: u64 = run * span_out / span_in;
    a2 + (scaled as i64)
}

/// Normalization of `v` within `[start, stop]` to the fixed-point range
/// `[0, NORM_ONE]`.
pub fn norm(v: i64, start: i64, stop: i64) -> (r: i64)
    requires
        in_coord_range(v),
        in_coord_range(start),
        in_coord_range(stop),
        start < stop,
        start <= v <= stop,
    ensures
        r == map_spec(v as int, start as int, stop as int, 0, NORM_ONE as int),
        0 <= r <= NORM_ONE,
{
    map_range(v, start, stop, 0, NORM_ONE)
}

/// Division of a signed value by a positive divisor, rounding toward zero.
pub open spec fn sdiv_spec(a: int, b: int) -> int {
    if a >= 0 {
        a / b
    } else {
        -((-a) / b)
    }
}

/// Divides `a` by `b`, rounding toward zero.
pub fn sdiv(a: i64, b: u64) -> (r: i64)
    requires
        a > i64::MIN,
        b >= 1,
    ensures
        r == sdiv_spec(a as int, b as int),
{
    if a >= 0 {
        proof {
            vstd::arithmetic::div_mod::lemma_div_is_ordered(0, a as int, b as int);
            vstd::arithmetic::div_mod::lemma_div_nonincreasing(a as int, b as int);
        }
        ((a as u64) / b) as i64
    } else {
        let m: u64 = (-a) as u64;
        proof {
            vstd::arithmetic::div_mod::lemma_div_is_ordered(0, m as int, b as int);
            vstd::arithmetic::div_mod::lemma_div_nonincreasing(m as int, b as int);
        }
        -(((m / b) as i64))
    }
}

/// Rounding toward zero loses less than one divisor's worth: the quotient
/// scaled back differs from the dividend by less than `b`.
pub proof fn lemma_sdiv_close(a: int, b: int)
    requires
        b >= 1,
    ensures
        a >= 0 ==> 0 <= a - sdiv_spec(a, b) * b < b,
        a < 0 ==> -b < a - sdiv_spec(a, b) * b <= 0,
{
    if a >= 0 {
        vstd::arithmetic::div_mod::lemma_fundamental_div_mod(a, b);
        vstd::arithmetic::div_mod::lemma_mod_bound(a, b);
        vstd::arithmetic::mul::lemma_mul_is_commutative(b, a / b);
    } else {
        vstd::arithmetic::div_mod::lemma_fundamental_div_mod(-a, b);
        vstd::arithmetic::div_mod::lemma_mod_bound(-a, b);
        vstd::arithmetic::mul::lemma_mul_is_commutative(b, (-a) / b);
        assert((-((-a) / b)) * b == -(((-a) / b) * b)) by (nonlinear_arith);
    }
}

/// The x coordinate of `v` rotated by `angle` angle units.
pub open spec fn rotate_x_spec(v: Vec2i, angle: int, turn: int) -> int {
    sdiv_spec(
        v.x * trig::cosine_spec(angle, turn) - v.y * trig::sine_spec(angle, turn),
        trig::TRIG_ONE as int,
    )
}

/// The y coordinate of `v` rotated by `angle` angle units.
pub open spec fn rotate_y_spec(v: Vec2i, angle: int, turn: int) -> int {
    sdiv_spec(
        v.x * trig::sine_spec(angle, turn) + v.y * trig::cosine_spec(angle, turn),
        trig::TRIG_ONE as int,
    )
}

/// Rotates `v` by `angle` angle units out of a `turn`-unit full turn.
pub fn rotate(v: Vec2i, angle: u64, turn: u64) -> (r: Vec2i)
    requires
        point_in_range(v),
        trig::turn_ok(turn),
        angle < turn,
    ensures
        r.x == rotate_x_spec(v, angle as int, turn as int),
        r.y == rotate_y_spec(v, angle as int, turn as int),
        -2 * COORD_LIMIT <= r.x <= 2 * COORD_LIMIT,
        -2 * COORD_LIMIT <= r.y <= 2 * COORD_LIMIT,
{
    let s: i64 = trig::sine_fx(angle, turn);
    let c: i64 = trig::cosine_fx(angle, turn);
    proof {
        lemma_mul_trig_bounded(v.x as int, c as int);
        lemma_mul_trig_bounded(v.y as int, s as int);
        lemma_mul_trig_bounded(v.x as int, s as int);
        lemma_mul_trig_bounded(v.y as int, c as int);
    }
    let xs: i64 = v.x * c - v.y * s;
    let ys: i64 = v.x * s + v.y * c;
    proof {
        lemma_sdiv_mag(xs as int, trig::TRIG_ONE as int, 2 * COORD_LIMIT);
        lemma_sdiv_mag(ys as int, trig::TRIG_ONE as int, 2 * COORD_LIMIT);
    }
    let rx: i64 = sdiv(xs, trig::TRIG_ONE as u64);
    let ry: i64 = sdiv(ys, trig::TRIG_ONE as u64);
    Vec2i { x: rx, y: ry }
}

/// A coordinate times a trig value stays within `i64` comfortably.
proof fn lemma_mul_trig_bounded(v: int, t: int)
    requires
        -COORD_LIMIT <= v <= COORD_LIMIT,
        -trig::TRIG_ONE <= t <= trig::TRIG_ONE,
    ensures
        -(COORD_LIMIT * trig::TRIG_ONE) <= v * t <= COORD_LIMIT * trig::TRIG_ONE,
{
    assert(-(COORD_LIMIT * trig::TRIG_ONE) <= v * t <= COORD_LIMIT * trig::TRIG_ONE) by (
    nonlinear_arith)
        requires
            -COORD_LIMIT <= v <= COORD_LIMIT,
            -trig::TRIG_ONE <= t <= trig::TRIG_ONE,
    ;
}

/// A dividend bounded by `m * b` divides down to a quotient bounded by `m`.
pub proof fn lemma_sdiv_mag(a: int, b: int, m: int)
    requires
        b >= 1,
        0 <= m,
        -(m * b) <= a <= m * b,
    ensures
        -m <= sdiv_spec(a, b) <= m,
{
    lemma_sdiv_close(a, b);
    assert(-m <= sdiv_spec(a, b) <= m) by (nonlinear_arith)
        requires
            b >= 1,
            0 <= m,
            -(m * b) <= a <= m * b,
            -b < a - sdiv_spec(a, b) * b < b,
    ;
}

} // verus!
