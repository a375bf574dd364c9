use vstd::prelude::*;

verus! {

/// Angles are measured in `TURN` units per full turn.
pub const TURN: u64 = 65536;

pub const HALF_TURN: u64 = 32768;

pub const QUARTER_TURN: u64 = 16384;

/// Wave values are fixed-point with `UNIT` standing for one.
pub const UNIT: i64 = 16384;

/// Bhaskara's rational approximation of the sine over the first half turn,
/// for `t` in `[0, HALF_TURN]`, scaled by `UNIT`: within about a sixth of a
/// percent of the sine.
pub open spec fn half_sine(t: int) -> int {
    let p = t * (HALF_TURN - t);
    16 * p * UNIT / (5 * HALF_TURN * HALF_TURN - 4 * p)
}

/// The fixed-point sine of the angle `a`: positive over the first half of
/// each turn, its mirror image over the second.
pub open spec fn spec_sine(a: u64) -> int {
    let t = a % TURN;
    if t < HALF_TURN {
        half_sine(t as int)
    } else {
        -half_sine(t - HALF_TURN)
    }
}

proof fn lemma_half_sine_bounds(t: int)
    requires
        0 <= t <= HALF_TURN,
    ensures
        0 <= t * (HALF_TURN - t) <= HALF_TURN * HALF_TURN / 4,
        0 <= half_sine(t) <= UNIT,
        t == 0 ==> half_sine(t) == 0,
        t == QUARTER_TURN ==> half_sine(t) == UNIT,
{
    let h = HALF_TURN as int;
    let p = t * (h - t);
    assert(0 <= p) by (nonlinear_arith)
        requires 0 <= t <= h, p == t * (h - t);
    assert(4 * p <= h * h) by (nonlinear_arith)
        requires p == t * (h - t);
    let den = 5 * h * h - 4 * p;
    assert(den >= 4 * h * h);
    assert(16 * p * UNIT <= UNIT * den) by (nonlinear_arith)
        requires 4 * p <= h * h, den == 5 * h * h - 4 * p, 0 <= p;
    assert(16 * p * UNIT / den <= UNIT) by (nonlinear_arith)
        requires 16 * p * UNIT <= UNIT * den, den > 0;
    assert(0 <= 16 * p * UNIT / den) by (nonlinear_arith)
        requires 0 <= p, den > 0;
    if t == QUARTER_TURN {
        assert(p == 268435456) by (nonlinear_arith)
            requires t == 16384, h == 32768, p == t * (h - t);
        assert(den == 4294967296);
        assert(16 * p * UNIT == 70368744177664);
        assert(70368744177664int / 4294967296int == 16384);
    }
}

/// The fixed-point sine of `a`.
pub fn sine(a: u64) -> (r: i64)
    ensures
        r == spec_sine(a),
        -UNIT <= r <= UNIT,
        a % TURN == 0 ==> r == 0,
        a % TURN == QUARTER_TURN ==> r == UNIT,
{
    let t = a % TURN;
    let (u, negative) = if t < HALF_TURN {
        (t, false)
    } else {
        (t - HALF_TURN, true)
    };
    proof {
        lemma_half_sine_bounds(u as int);
    }
    let p: u64 = u * (HALF_TURN - u);
    let num: u64 = 16 * p * (UNIT as u64);
    let den: u64 = 5 * HALF_TURN * HALF_TURN - 4 * p;
    let v = (num / den) as i64;
    if negative {
        -v
    } else {
        v
    }
}

/// The fixed-point cosine of `a`: the sine a quarter turn later.
pub fn cosine(a: u64) -> (r: i64)
    ensures
        r == spec_sine(((a % TURN) + QUARTER_TURN) as u64),
        -UNIT <= r <= UNIT,
        a % TURN == 0 ==> r == UNIT,
{
    sine(a % TURN + QUARTER_TURN)
}

} // verus!
