//! The transport's arithmetic: tempo clamping, tick-rate conversions,
//! beat-boundary detection and latency calibration.
//!
//! The clock itself (a free-running tick counter advanced by the audio
//! backend) lives outside this crate; everything here is a pure function
//! of a clock reading, so the session loop can feed readings in and act
//! on what comes back.

use vstd::prelude::*;

verus! {

use crate::ticks::{
    loop_ticks, loop_ticks_spec, tdiv, tick_div, tick_rem, tmod, lemma_tdiv_tmod, TICK_LIMIT,
    TICK_SCALE,
};

/// Messages the audio side sends the session: the player was set up, or
/// the clock just crossed into the numbered loop.
#[derive(Debug, PartialEq, Eq, Structural, Clone, Copy)]
pub enum TxMsg {
    AudioNew,
    StartingLoop(i32),
}

/// The tempo the transport starts at.
pub const DEFAULT_BPM: u32 = 60;

/// The slowest tempo the transport accepts.
pub const MIN_BPM: u32 = 40;

/// The fastest tempo the transport accepts.
pub const MAX_BPM: u32 = 240;

/// What a requested tempo is clamped to.
pub open spec fn clamp_bpm_spec(bpm: int) -> int {
    if bpm < MIN_BPM {
        MIN_BPM as int
    } else if bpm > MAX_BPM {
        MAX_BPM as int
    } else {
        bpm
    }
}

/// Clamps a requested tempo into the transport's range.
pub fn clamp_bpm(bpm: i64) -> (r: u32)
    ensures
        r == clamp_bpm_spec(bpm as int),
{
    if bpm < MIN_BPM as i64 {
        MIN_BPM
    } else if bpm > MAX_BPM as i64 {
        MAX_BPM
    } else {
        bpm as u32
    }
}

/// How long one tick lasts at `bpm`, in microseconds, rounded down: the
/// clock runs at two ticks per metronome beat, so a tick lasts
/// `60 / bpm / 2` seconds.
pub fn micros_per_tick(bpm: u32) -> (r: u64)
    requires
        bpm >= 1,
    ensures
        r == 30_000_000int / bpm as int,
{
    30_000_000u64 / (bpm as u64)
}

/// An input-processing delay, given in microseconds, converted to scaled
/// ticks at `bpm` (rounded down): at two ticks per beat the clock advances
/// `bpm / 30` ticks per second.
pub fn delay_to_ticks(bpm: u32, delay_micros: u64) -> (r: i64)
    requires
        bpm <= 100_000,
        delay_micros <= 1_000_000_000,
    ensures
        r == (delay_micros * bpm * TICK_SCALE) / 30_000_000,
        0 <= r <= TICK_LIMIT,
{
    proof {
        vstd::arithmetic::mul::lemma_mul_upper_bound(
            delay_micros as int,
            1_000_000_000,
            bpm as int,
            100_000,
        );
        vstd::arithmetic::mul::lemma_mul_nonnegative(delay_micros as int, bpm as int);
    }
    let scaled = delay_micros * (bpm as u64) * (TICK_SCALE as u64);
    proof {
        vstd::arithmetic::div_mod::lemma_div_is_ordered(
            scaled as int,
            0x10000_0000_0000_0000,
            30_000_000,
        );
    }
    (scaled / 30_000_000) as i64
}

/// Where within its loop a clock reading sits, in scaled ticks.
pub fn current_beat(now: i64, beats_per_loop: usize) -> (r: i64)
    requires
        now > i64::MIN,
        0 < beats_per_loop <= 0x10_0000,
    ensures
        r == tmod(now as int, loop_ticks_spec(beats_per_loop as int)),
{
    let l = loop_ticks(beats_per_loop);
    tick_rem(now, l)
}

/// How many whole loops a clock reading has completed.
pub fn current_loop(now: i64, beats_per_loop: usize) -> (r: i64)
    requires
        now > i64::MIN,
        0 < beats_per_loop <= 0x10_0000,
    ensures
        r == tdiv(now as int, loop_ticks_spec(beats_per_loop as int)),
{
    let l = loop_ticks(beats_per_loop);
    tick_div(now, l)
}

/// The whole tick within the loop that a clock reading sits on.
pub open spec fn whole_beat(now: int, loop_len: int) -> int {
    tdiv(tmod(now, loop_len), TICK_SCALE as int)
}

/// Compares a clock reading against the last whole tick seen: when the
/// reading has moved onto a new whole tick the first component updates,
/// and when that tick is the start of a loop the second carries the
/// message the session layer forwards to the progression controller.
pub fn check_new_beat(last_beat: i32, now: i64, beats_per_loop: usize) -> (r: (i32, Option<TxMsg>))
    requires
        0 <= now <= TICK_LIMIT,
        0 < beats_per_loop <= 0x10_0000,
        tdiv(now as int, loop_ticks_spec(beats_per_loop as int)) <= i32::MAX,
    ensures
        r.0 == whole_beat(now as int, loop_ticks_spec(beats_per_loop as int)),
        r.1 == if whole_beat(now as int, loop_ticks_spec(beats_per_loop as int)) != last_beat
            && whole_beat(now as int, loop_ticks_spec(beats_per_loop as int)) == 0 {
            Some(
                TxMsg::StartingLoop(
                    tdiv(now as int, loop_ticks_spec(beats_per_loop as int)) as i32,
                ),
            )
        } else {
            None::<TxMsg>
        },
{
    let l = loop_ticks(beats_per_loop);
    proof {
        lemma_tdiv_tmod(now as int, l as int);
    }
    let within = tick_rem(now, l);
    proof {
        lemma_tdiv_tmod(within as int, TICK_SCALE as int);
    }
    let current_beat = tick_div(within, TICK_SCALE) as i32;
    if current_beat != last_beat && current_beat == 0 {
        let current_loop = tick_div(now, l) as i32;
        (current_beat, Some(TxMsg::StartingLoop(current_loop)))
    } else {
        (current_beat, None)
    }
}

/// The whole tick nearest to a loop position, in scaled ticks (halfway
/// rounds up).
pub open spec fn nearest_whole_tick(b: int) -> int {
    tdiv(b + TICK_SCALE / 2, TICK_SCALE as int) * TICK_SCALE
}

/// The sum of each sample's signed drift from its nearest whole tick.
pub open spec fn drift_sum(samples: Seq<i64>) -> int
    decreases samples.len(),
{
    if samples.len() == 0 {
        0
    } else {
        drift_sum(samples.drop_last()) + (samples.last() - nearest_whole_tick(
            samples.last() as int,
        ))
    }
}

/// Feeds one more loop position (the beat at which the player tapped along
/// with the metronome) into the calibration window and returns the average
/// signed drift from the whole ticks, in scaled ticks rounded toward zero.
/// The window keeps at most the five most recent samples; the average is
/// taken just before the oldest is dropped.
pub fn track_for_calibration(samples: &mut Vec<i64>, beat: i64) -> (avg: i64)
    requires
        old(samples)@.len() <= 5,
        0 <= beat <= TICK_LIMIT,
        forall|i: int| 0 <= i < old(samples)@.len() ==> 0 <= #[trigger] old(samples)@[i]
            <= TICK_LIMIT,
    ensures
        avg == tdiv(drift_sum(old(samples)@.push(beat)), old(samples)@.len() as int + 1),
        final(samples)@ == if old(samples)@.len() < 5 {
            old(samples)@.push(beat)
        } else {
            old(samples)@.push(beat).drop_first()
        },
        final(samples)@.len() <= 5,
        forall|i: int| 0 <= i < final(samples)@.len() ==> 0 <= #[trigger] final(samples)@[i]
            <= TICK_LIMIT,
{
    samples.push(beat);
    let ghost window = samples@;
    let mut sum: i64 = 0;
    let mut i: usize = 0;
    while i < samples.len()
        invariant
            samples@ == window,
            i <= window.len(),
            window.len() <= 6,
            forall|k: int| 0 <= k < window.len() ==> 0 <= #[trigger] window[k] <= TICK_LIMIT,
            sum == drift_sum(window.take(i as int)),
            -5_000 * i <= sum <= 5_000 * i,
        decreases window.len() - i,
    {
        proof {
            assert(window.take(i + 1).drop_last() =~= window.take(i as int));
            assert(window.take(i + 1).last() == window[i as int]);
            lemma_tdiv_tmod(window[i as int] + TICK_SCALE / 2, TICK_SCALE as int);
        }
        let s = samples[i];
        let rounded = tick_div(s + TICK_SCALE / 2, TICK_SCALE) * TICK_SCALE;
        proof {
            assert(rounded == nearest_whole_tick(s as int));
            assert(-5_000 <= s - rounded <= 5_000) by {
                let q = tdiv(s + TICK_SCALE / 2, TICK_SCALE as int);
                assert(TICK_SCALE * q + tmod(s + TICK_SCALE / 2, TICK_SCALE as int) == s
                    + TICK_SCALE / 2);
                vstd::arithmetic::mul::lemma_mul_is_commutative(q, TICK_SCALE as int);
            }
        }
        sum = sum + (s - rounded);
        i = i + 1;
    }
    proof {
        assert(window.take(window.len() as int) =~= window);
    }
    let n = samples.len() as i64;
    let avg = tick_div(sum, n);
    if samples.len() > 5 {
        samples.remove(0);
        proof {
            assert(samples@ =~= window.drop_first());
        }
    }
    avg
}

} // verus!
