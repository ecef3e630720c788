//! Fixed-point musical time.
//!
//! The clock's base unit is the tick: two ticks per metronome beat, so the
//! sixteen-tick default loop spans eight metronome beats.  Pattern offsets,
//! hit timestamps and tolerance margins are all fractions of ticks, held as
//! `i64` values scaled by [`TICK_SCALE`] (four decimal digits).  All
//! divisions on tick values truncate toward zero, matching the way a
//! continuous clock reading is cut down to whole ticks and loops.

use vstd::prelude::*;

verus! {

use vstd::arithmetic::div_mod::lemma_fundamental_div_mod;

/// Sub-units per tick: tick values are fixed-point with four decimal digits.
pub const TICK_SCALE: i64 = 10_000;

/// Default length of one loop, in ticks.
pub const DEFAULT_BEATS_PER_LOOP: usize = 16;

/// A hit within this distance of a desired beat (in scaled ticks) is on time.
pub const CORRECT_MARGIN: i64 = 1_510;

/// A hit farther than this from every desired beat (in scaled ticks) is a miss.
pub const MISS_MARGIN: i64 = 3_000;

/// How far ahead of the clock the scheduler works, in scaled ticks (two ticks).
pub const TICK_SCHEDULE_AHEAD: i64 = 20_000;

/// Magnitude bound on every tick value the crate computes with; leaves room
/// in an `i64` for the sums and products of the scheduling arithmetic.
pub const TICK_LIMIT: i64 = 0x1000_0000_0000_0000;

/// Quotient of truncating division (toward zero), the rounding that `i64`
/// division and a float-to-integer cast both perform.
pub open spec fn tdiv(a: int, b: int) -> int {
    if a >= 0 {
        a / b
    } else {
        -((-a) / b)
    }
}

/// Remainder of truncating division: same sign as `a`, magnitude below `b`.
pub open spec fn tmod(a: int, b: int) -> int {
    if a >= 0 {
        a % b
    } else {
        -((-a) % b)
    }
}

/// The fundamental identity and range bounds of truncating division.
pub proof fn lemma_tdiv_tmod(a: int, b: int)
    requires
        b > 0,
    ensures
        a == b * tdiv(a, b) + tmod(a, b),
        -b < tmod(a, b) < b,
        a >= 0 ==> 0 <= tmod(a, b) && 0 <= tdiv(a, b) && b * tdiv(a, b) <= a,
        a < 0 ==> tmod(a, b) <= 0 && tdiv(a, b) <= 0,
{
    if a >= 0 {
        lemma_fundamental_div_mod(a, b);
    } else {
        lemma_fundamental_div_mod(-a, b);
        let q = (-a) / b;
        assert(b * -q == -(b * q)) by (nonlinear_arith);
    }
}

/// Truncating division is monotone in the dividend.
pub proof fn lemma_tdiv_monotone(a: int, c: int, b: int)
    requires
        b > 0,
        a <= c,
    ensures
        tdiv(a, b) <= tdiv(c, b),
{
    lemma_tdiv_tmod(a, b);
    lemma_tdiv_tmod(c, b);
    let qa = tdiv(a, b);
    let qc = tdiv(c, b);
    if qa > qc {
        assert(b * qa >= b * qc + b) by (nonlinear_arith)
            requires b > 0 && qa >= qc + 1;
        assert(false);
    }
}

/// Remainder of a tick value: truncates toward zero like the source clock's
/// float remainder.
pub fn tick_rem(a: i64, b: i64) -> (r: i64)
    requires
        b > 0,
        a > i64::MIN,
    ensures
        r == tmod(a as int, b as int),
{
    if a >= 0 {
        a % b
    } else {
        -((-a) % b)
    }
}

/// Quotient of a tick value: truncates toward zero like a float-to-integer
/// cast of the loop counter.
pub fn tick_div(a: i64, b: i64) -> (r: i64)
    requires
        b > 0,
        a > i64::MIN,
    ensures
        r == tdiv(a as int, b as int),
{
    if a >= 0 {
        a / b
    } else {
        -((-a) / b)
    }
}

/// Length of one loop in scaled ticks.
pub open spec fn loop_ticks_spec(beats_per_loop: int) -> int {
    beats_per_loop * TICK_SCALE
}

/// Length of one loop in scaled ticks.
pub fn loop_ticks(beats_per_loop: usize) -> (r: i64)
    requires
        0 < beats_per_loop <= 0x10_0000,
    ensures
        r == loop_ticks_spec(beats_per_loop as int),
        0 < r <= TICK_LIMIT,
{
    (beats_per_loop as i64) * TICK_SCALE
}

} // verus!
