//! Fixed-point trigonometry on integer angles.
//!
//! A full turn is `turn` angle units; trigonometric values are scaled by
//! [`TRIG_ONE`].  The sine uses a rational approximation that is exact at
//! the quadrant boundaries and stays within `[-TRIG_ONE, TRIG_ONE]`
//! everywhere, which is all the surface construction relies on.

use vstd::prelude::*;

verus! {

/// Fixed-point one: `sine_fx` and `cosine_fx` return values scaled by this.
pub const TRIG_ONE: i64 = 4096;

/// Largest accepted turn size, keeping every intermediate product in `u64`.
pub const MAX_TURN: u64 = 0x40_0000;

/// Whether `turn` is an acceptable full-turn size: a positive multiple of 8
/// (so that half, quarter and eighth turns are exact) no larger than
/// [`MAX_TURN`].
pub open spec fn turn_ok(turn: u64) -> bool {
    turn % 8 == 0 && 8 <= turn && turn <= MAX_TURN
}

/// Sine over the first half turn, as a rational approximation on angle
/// `a` in `[0, h]` where `h` is the half turn.  Exact at `0`, `h/2`, `h`.
pub open spec fn half_sine_spec(a: int, h: int) -> int {
    (16 * (a * (h - a)) * TRIG_ONE) / (5 * (h * h) - 4 * (a * (h - a)))
}

/// Sine of `a` angle units, where `turn` units make a full turn, scaled by
/// [`TRIG_ONE`].
pub open spec fn sine_spec(a: int, turn: int) -> int {
    if a <= turn / 2 {
        half_sine_spec(a, turn / 2)
    } else {
        -half_sine_spec(a - turn / 2, turn / 2)
    }
}

/// Cosine of `a` angle units, as the sine a quarter turn ahead.
pub open spec fn cosine_spec(a: int, turn: int) -> int {
    sine_spec((a + turn / 4) % turn, turn)
}

/// The half-turn sine stays within `[0, TRIG_ONE]`.
proof fn lemma_half_sine_bounds(a: int, h: int)
    requires
        0 <= a <= h,
        1 <= h,
    ensures
        0 <= half_sine_spec(a, h) <= TRIG_ONE,
{
    let t = a * (h - a);
    assert(0 <= t && 4 * t <= h * h && h * h >= 1) by (nonlinear_arith)
        requires
            0 <= a <= h,
            1 <= h,
            t == a * (h - a),
    ;
    let den = 5 * (h * h) - 4 * t;
    let num = 16 * t * TRIG_ONE;
    assert(den >= 4 * (h * h) && den >= 1 && num >= 0 && num <= TRIG_ONE * den) by (
    nonlinear_arith)
        requires
            0 <= t,
            4 * t <= h * h,
            h * h >= 1,
            den == 5 * (h * h) - 4 * t,
            num == 16 * t * TRIG_ONE,
    ;
    vstd::arithmetic::div_mod::lemma_div_pos_is_pos(num, den);
    assert(num / den <= TRIG_ONE) by (nonlinear_arith)
        requires
            den >= 1,
            num <= TRIG_ONE * den,
            num >= 0,
    ;
    assert(half_sine_spec(a, h) == num / den);
}

/// The sine of any angle in `[0, turn)` stays within `[-TRIG_ONE, TRIG_ONE]`.
pub proof fn lemma_sine_bounds(a: int, turn: int)
    requires
        0 <= a < turn,
        turn % 8 == 0,
        8 <= turn,
    ensures
        -TRIG_ONE <= sine_spec(a, turn) <= TRIG_ONE,
{
    let h = turn / 2;
    if a <= h {
        lemma_half_sine_bounds(a, h);
    } else {
        lemma_half_sine_bounds(a - h, h);
    }
}

/// The cosine of any angle in `[0, turn)` stays within
/// `[-TRIG_ONE, TRIG_ONE]`.
pub proof fn lemma_cosine_bounds(a: int, turn: int)
    requires
        0 <= a < turn,
        turn % 8 == 0,
        8 <= turn,
    ensures
        -TRIG_ONE <= cosine_spec(a, turn) <= TRIG_ONE,
{
    vstd::arithmetic::div_mod::lemma_mod_bound(a + turn / 4, turn);
    lemma_sine_bounds((a + turn / 4) % turn, turn);
}

/// Sine of `a` angle units out of a `turn`-unit full turn, scaled by
/// [`TRIG_ONE`].
pub fn sine_fx(a: u64, turn: u64) -> (r: i64)
    requires
        turn_ok(turn),
        a < turn,
    ensures
        r == sine_spec(a as int, turn as int),
        -TRIG_ONE <= r <= TRIG_ONE,
{
    let h: u64 = turn / 2;
    let (fold, neg): (u64, bool) = if a <= h {
        (a, false)
    } else {
        (a - h, true)
    };
    proof {
        assert(fold * (h - fold) <= h * h && 4 * (fold * (h - fold)) <= h * h && h * h <= 0x20_0000
            * 0x20_0000) by (nonlinear_arith)
            requires
                0 <= fold <= h,
                h <= 0x20_0000,
        ;
    }
    let t: u64 = fold * (h - fold);
    let num: u64 = 16 * t * (TRIG_ONE as u64);
    proof {
        assert(5 * ((h as int) * (h as int)) - 4 * (t as int) >= 4 * ((h as int) * (h as int)) && 5
            * ((h as int) * (h as int)) - 4 * (t as int) >= 1) by (nonlinear_arith)
            requires
                4 * (t as int) <= (h as int) * (h as int),
                h >= 1,
        ;
    }
    let den: u64 = 5 * (h * h) - 4 * t;
    let mag: u64 = num / den;
    proof {
        assert(num / den <= TRIG_ONE) by (nonlinear_arith)
            requires
                den >= 1,
                num == 16 * (t as int) * TRIG_ONE,
                4 * (t as int) <= (h as int) * (h as int),
                den == 5 * ((h as int) * (h as int)) - 4 * (t as int),
        ;
        if a <= h {
            lemma_half_sine_bounds(a as int, h as int);
            assert(mag == half_sine_spec(a as int, h as int));
        } else {
            lemma_half_sine_bounds(a - h, h as int);
            assert(mag == half_sine_spec(a - h, h as int));
        }
    }
    if neg {
        -(mag as i64)
    } else {
        mag as i64
    }
}

/// Cosine of `a` angle units out of a `turn`-unit full turn, scaled by
/// [`TRIG_ONE`].
pub fn cosine_fx(a: u64, turn: u64) -> (r: i64)
    requires
        turn_ok(turn),
        a < turn,
    ensures
        r == cosine_spec(a as int, turn as int),
        -TRIG_ONE <= r <= TRIG_ONE,
{
    let shifted: u64 = (a + turn / 4) % turn;
    proof {
        vstd::arithmetic::div_mod::lemma_mod_bound((a + turn / 4) as int, turn as int);
        lemma_sine_bounds(shifted as int, turn as int);
    }
    sine_fx(shifted, turn)
}

/// The angle of the direction from the origin toward `(x, y)`, in angle
/// units out of a `turn`-unit full turn, measured clockwise from the
/// positive y axis (the direction of angle `a` is `(sine a, cosine a)`).
/// Within each eighth of the turn the angle varies linearly with the ratio
/// of the two coordinates.  The zero vector maps to angle `0`.
pub open spec fn angle_of_spec(x: int, y: int, turn: int) -> int {
    let o = turn / 8;
    if x == 0 && y == 0 {
        0
    } else if x >= 0 && y > 0 && x <= y {
        (x * o) / y
    } else if x > 0 && y > 0 && x > y {
        2 * o - (y * o) / x
    } else if x > 0 && y <= 0 && -y <= x {
        2 * o + ((-y) * o) / x
    } else if x > 0 && y < 0 && -y > x {
        4 * o - (x * o) / (-y)
    } else if x <= 0 && y < 0 && -x <= -y {
        4 * o + ((-x) * o) / (-y)
    } else if x < 0 && y < 0 && -x > -y {
        6 * o - ((-y) * o) / (-x)
    } else if x < 0 && y >= 0 && y <= -x {
        6 * o + (y * o) / (-x)
    } else {
        let t = ((-x) * o) / y;
        if t == 0 {
            0
        } else {
            8 * o - t
        }
    }
}

/// The angle of the direction from the origin toward `(x, y)`.
pub fn angle_of(x: i64, y: i64, turn: u64) -> (r: u64)
    requires
        turn_ok(turn),
        -0x8000_0000 <= x <= 0x8000_0000,
        -0x8000_0000 <= y <= 0x8000_0000,
    ensures
        r == angle_of_spec(x as int, y as int, turn as int),
        r < turn,
{
    let o: u64 = turn / 8;
    let ax: u64 = if x >= 0 {
        x as u64
    } else {
        (-x) as u64
    };
    let ay: u64 = if y >= 0 {
        y as u64
    } else {
        (-y) as u64
    };
    proof {
        assert(turn == 8 * o);
        assert(ax * o <= 0x8000_0000 * 0x80_0000 && ay * o <= 0x8000_0000 * 0x80_0000) by (
        nonlinear_arith)
            requires
                0 <= ax <= 0x8000_0000,
                0 <= ay <= 0x8000_0000,
                0 <= o <= 0x80_0000,
        ;
    }
    if x == 0 && y == 0 {
        0
    } else if x >= 0 && y > 0 && x <= y {
        proof {
            crate::common::lemma_mul_div_le(o as int, ax as int, ay as int);
            vstd::arithmetic::mul::lemma_mul_is_commutative(o as int, ax as int);
        }
        ax * o / ay
    } else if x > 0 && y > 0 && x > y {
        proof {
            crate::common::lemma_mul_div_le(o as int, ay as int, ax as int);
            vstd::arithmetic::mul::lemma_mul_is_commutative(o as int, ay as int);
        }
        2 * o - ay * o / ax
    } else if x > 0 && y <= 0 && -y <= x {
        proof {
            crate::common::lemma_mul_div_le(o as int, ay as int, ax as int);
            vstd::arithmetic::mul::lemma_mul_is_commutative(o as int, ay as int);
        }
        2 * o + ay * o / ax
    } else if x > 0 && y < 0 && -y > x {
        proof {
            crate::common::lemma_mul_div_le(o as int, ax as int, ay as int);
            vstd::arithmetic::mul::lemma_mul_is_commutative(o as int, ax as int);
        }
        4 * o - ax * o / ay
    } else if x <= 0 && y < 0 && -x <= -y {
        proof {
            crate::common::lemma_mul_div_le(o as int, ax as int, ay as int);
            vstd::arithmetic::mul::lemma_mul_is_commutative(o as int, ax as int);
        }
        4 * o + ax * o / ay
    } else if x < 0 && y < 0 && -x > -y {
        proof {
            crate::common::lemma_mul_div_le(o as int, ay as int, ax as int);
            vstd::arithmetic::mul::lemma_mul_is_commutative(o as int, ay as int);
        }
        6 * o - ay * o / ax
    } else if x < 0 && y >= 0 && y <= -x {
        proof {
            crate::common::lemma_mul_div_le(o as int, ay as int, ax as int);
            vstd::arithmetic::mul::lemma_mul_is_commutative(o as int, ay as int);
        }
        6 * o + ay * o / ax
    } else {
        proof {
            crate::common::lemma_mul_div_le(o as int, ax as int, ay as int);
            vstd::arithmetic::mul::lemma_mul_is_commutative(o as int, ax as int);
        }
        let t: u64 = ax * o / ay;
        if t == 0 {
            0
        } else {
            8 * o - t
        }
    }
}

} // verus!
