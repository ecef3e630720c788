//! The look-ahead scheduler.
//!
//! Each application tick, the scheduler turns the pattern and the clock's
//! current reading into "play this instrument at that absolute tick"
//! commands for the span between the previously scheduled horizon and the
//! reading plus the look-ahead window, splitting the span across the loop
//! boundary when it wraps.  The horizon only ever moves forward, and a
//! window that would lie behind it schedules nothing.

use vstd::prelude::*;

verus! {

use vstd::arithmetic::mul::{
    lemma_mul_basics, lemma_mul_is_commutative, lemma_mul_is_distributive_add,
    lemma_mul_is_distributive_sub, lemma_mul_left_inequality,
};
use crate::instrument::{all_instruments, all_instruments_seq, Instrument, NUM_INSTRUMENTS};
use crate::ticks::{lemma_tdiv_tmod, lemma_tdiv_monotone, tdiv, tick_div, tick_rem, tmod,
    TICK_LIMIT};
use crate::voices::Voices;

/// One scheduling decision: play `instrument` when the clock reaches
/// absolute tick `tick` (scaled).
#[derive(Debug, PartialEq, Eq, Structural, Copy, Clone)]
pub struct PlayCommand {
    pub instrument: Instrument,
    pub tick: i64,
}

/// Where (if anywhere) one pattern note `b` is scheduled by the window
/// from `last` to `target`: the note's position within the loop being
/// scheduled (exclusive of the window's start, inclusive of its end), with
/// the window split in two when it crosses the loop boundary — the note is
/// then due either at the end of the current loop or at the start of the
/// next one.
pub open spec fn note_tick(b: int, last: int, target: int, loop_len: int) -> Option<int> {
    let prev = tmod(last, loop_len);
    let next = tmod(target, loop_len);
    let k = tdiv(last, loop_len);
    if prev < b && b <= next {
        Some(b + k * loop_len)
    } else if next < prev && prev < b && b <= loop_len {
        Some(b + k * loop_len)
    } else if next < prev && 0 <= b && b <= next {
        Some(b + (k + 1) * loop_len)
    } else {
        None
    }
}

/// The absolute ticks at which one voice's notes fall due in the window
/// from `last` to `target`, in pattern order.
pub open spec fn voice_window_ticks(notes: Seq<i64>, last: int, target: int, loop_len: int) -> Seq<
    int,
>
    decreases notes.len(),
{
    if notes.len() == 0 {
        Seq::<int>::empty()
    } else {
        let rest = voice_window_ticks(notes.drop_last(), last, target, loop_len);
        match note_tick(notes.last() as int, last, target, loop_len) {
            Some(t) => rest.push(t),
            None => rest,
        }
    }
}

/// Mirror of [`voice_window_ticks`] in executable code: the absolute ticks
/// at which one voice's notes fall due in the window from
/// `last_scheduled_tick` to `tick_to_schedule`.
pub fn schedule_voice_window(
    notes: &Vec<i64>,
    last_scheduled_tick: i64,
    tick_to_schedule: i64,
    loop_len: i64,
) -> (r: Vec<i64>)
    requires
        0 < loop_len <= TICK_LIMIT,
        -TICK_LIMIT <= last_scheduled_tick <= TICK_LIMIT,
        -TICK_LIMIT <= tick_to_schedule <= TICK_LIMIT,
        forall|i: int|
            0 <= i < notes@.len() ==> -TICK_LIMIT <= #[trigger] notes@[i] <= TICK_LIMIT,
    ensures
        r@.map_values(|t: i64| t as int) == voice_window_ticks(
            notes@,
            last_scheduled_tick as int,
            tick_to_schedule as int,
            loop_len as int,
        ),
{
    let prev_beat = tick_rem(last_scheduled_tick, loop_len);
    let next_beat = tick_rem(tick_to_schedule, loop_len);
    let loop_num = tick_div(last_scheduled_tick, loop_len);
    proof {
        lemma_tdiv_tmod(last_scheduled_tick as int, loop_len as int);
        lemma_tdiv_tmod(tick_to_schedule as int, loop_len as int);
        lemma_mul_is_commutative(loop_num as int, loop_len as int);
        assert(loop_num * loop_len == last_scheduled_tick - prev_beat);
    }
    let base = last_scheduled_tick - prev_beat;
    let mut out: Vec<i64> = Vec::new();
    let mut i: usize = 0;
    while i < notes.len()
        invariant
            i <= notes@.len(),
            0 < loop_len <= TICK_LIMIT,
            -TICK_LIMIT <= last_scheduled_tick <= TICK_LIMIT,
            -TICK_LIMIT <= tick_to_schedule <= TICK_LIMIT,
            forall|k: int|
                0 <= k < notes@.len() ==> -TICK_LIMIT <= #[trigger] notes@[k] <= TICK_LIMIT,
            prev_beat == tmod(last_scheduled_tick as int, loop_len as int),
            next_beat == tmod(tick_to_schedule as int, loop_len as int),
            loop_num == tdiv(last_scheduled_tick as int, loop_len as int),
            base == loop_num * loop_len,
            base == last_scheduled_tick - prev_beat,
            out@.map_values(|t: i64| t as int) == voice_window_ticks(
                notes@.take(i as int),
                last_scheduled_tick as int,
                tick_to_schedule as int,
                loop_len as int,
            ),
        decreases notes@.len() - i,
    {
        proof {
            assert(notes@.take(i + 1).drop_last() =~= notes@.take(i as int));
            assert(notes@.take(i + 1).last() == notes@[i as int]);
            lemma_mul_is_commutative(loop_num as int, loop_len as int);
            lemma_mul_is_commutative(loop_num as int + 1, loop_len as int);
            lemma_mul_is_distributive_add(loop_len as int, loop_num as int, 1);
            lemma_mul_basics(loop_len as int);
        }
        let note = notes[i];
        let ghost prev_out = out@;
        if note > prev_beat && note <= next_beat {
            out.push(note + base);
        }
        if next_beat < prev_beat {
            if note > prev_beat && note <= loop_len {
                out.push(note + base);
            }
            if note >= 0 && note <= next_beat {
                out.push(note + base + loop_len);
            }
        }
        proof {
            assert(out@.map_values(|t: i64| t as int) =~= voice_window_ticks(
                notes@.take(i + 1),
                last_scheduled_tick as int,
                tick_to_schedule as int,
                loop_len as int,
            ));
        }
        i = i + 1;
    }
    proof {
        assert(notes@.take(notes@.len() as int) =~= notes@);
    }
    out
}

/// One voice's window ticks, packaged as play commands for its instrument.
pub open spec fn commands_for(
    voices: Voices,
    ins: Instrument,
    last: int,
    target: int,
    loop_len: int,
) -> Seq<PlayCommand> {
    voice_window_ticks(voices.beats_of(ins), last, target, loop_len).map(
        |i: int, t: int| PlayCommand { instrument: ins, tick: t as i64 },
    )
}

/// The commands of the first `n` instruments of the canonical order, laid
/// end to end.
pub open spec fn commands_upto(
    voices: Voices,
    n: int,
    last: int,
    target: int,
    loop_len: int,
) -> Seq<PlayCommand>
    decreases n,
{
    if n <= 0 {
        Seq::<PlayCommand>::empty()
    } else {
        commands_upto(voices, n - 1, last, target, loop_len) + commands_for(
            voices,
            all_instruments_seq()[n - 1],
            last,
            target,
            loop_len,
        )
    }
}

/// Every instrument's window commands, in the canonical instrument order.
pub open spec fn window_commands(voices: Voices, last: int, target: int, loop_len: int) -> Seq<
    PlayCommand,
> {
    commands_upto(voices, NUM_INSTRUMENTS as int, last, target, loop_len)
}

/// One scheduling step: from the pattern, the clock's current reading and
/// the horizon scheduled so far, the play commands now falling due and the
/// new horizon.  A reading at or behind the horizon is a no-op that keeps
/// the horizon, so nothing is ever scheduled twice; otherwise everything
/// due up to `clock_now + look_ahead` is emitted and the horizon moves
/// there.  The horizon never moves backward.
pub fn schedule_window(
    voices: &Voices,
    clock_now: i64,
    last_scheduled_tick: i64,
    look_ahead: i64,
    beats_per_loop: usize,
) -> (r: (Vec<PlayCommand>, i64))
    requires
        voices.wf(),
        0 <= clock_now,
        clock_now + look_ahead <= TICK_LIMIT,
        -TICK_LIMIT <= last_scheduled_tick <= TICK_LIMIT,
        0 < look_ahead,
        0 < beats_per_loop <= 0x10_0000,
    ensures
        clock_now <= last_scheduled_tick ==> r.0@ == Seq::<PlayCommand>::empty() && r.1
            == last_scheduled_tick,
        clock_now > last_scheduled_tick ==> r.1 == clock_now + look_ahead && r.0@
            == window_commands(
            *voices,
            last_scheduled_tick as int,
            clock_now + look_ahead,
            crate::ticks::loop_ticks_spec(beats_per_loop as int),
        ),
        r.1 >= last_scheduled_tick,
{
    if clock_now <= last_scheduled_tick {
        return (Vec::new(), last_scheduled_tick);
    }
    let tick_to_schedule = clock_now + look_ahead;
    let loop_len = crate::ticks::loop_ticks(beats_per_loop);
    let ghost last = last_scheduled_tick as int;
    let ghost target = tick_to_schedule as int;
    let ghost ll = loop_len as int;
    let instruments = all_instruments();
    let mut out: Vec<PlayCommand> = Vec::new();
    let mut i: usize = 0;
    while i < instruments.len()
        invariant
            voices.wf(),
            i <= instruments.len(),
            instruments@ == all_instruments_seq(),
            0 < loop_len <= TICK_LIMIT,
            -TICK_LIMIT <= last_scheduled_tick <= TICK_LIMIT,
            -TICK_LIMIT <= tick_to_schedule <= TICK_LIMIT,
            last == last_scheduled_tick as int,
            target == tick_to_schedule as int,
            ll == loop_len as int,
            out@ == commands_upto(*voices, i as int, last, target, ll),
        decreases instruments.len() - i,
    {
        let instrument = instruments[i];
        let notes = voices.get_instrument_beats(&instrument);
        let ticks = schedule_voice_window(notes, last_scheduled_tick, tick_to_schedule, loop_len);
        let ghost prev_out = out@;
        let mut j: usize = 0;
        while j < ticks.len()
            invariant
                j <= ticks@.len(),
                out@ == prev_out + ticks@.take(j as int).map_values(
                    |t: i64| PlayCommand { instrument, tick: t },
                ),
            decreases ticks@.len() - j,
        {
            proof {
                assert(prev_out + ticks@.take(j + 1).map_values(
                    |t: i64| PlayCommand { instrument, tick: t },
                ) =~= (prev_out + ticks@.take(j as int).map_values(
                    |t: i64| PlayCommand { instrument, tick: t },
                )).push(PlayCommand { instrument, tick: ticks@[j as int] }));
            }
            out.push(PlayCommand { instrument, tick: ticks[j] });
            j = j + 1;
        }
        proof {
            assert(ticks@.take(ticks@.len() as int) =~= ticks@);
            assert(ticks@.map_values(|t: i64| PlayCommand { instrument, tick: t })
                =~= commands_for(*voices, instrument, last, target, ll));
        }
        i = i + 1;
    }
    (out, tick_to_schedule)
}

/// Every command a window emits falls strictly after the window's start
/// and no later than its end.  This holds for any window the scheduler can
/// be handed, however far the clock has run ahead.
pub proof fn lemma_note_tick_in_window(b: int, last: int, target: int, loop_len: int)
    requires
        loop_len > 0,
        last < target,
        0 <= target,
    ensures
        note_tick(b, last, target, loop_len) matches Some(t) ==> last < t <= target,
{
    lemma_tdiv_tmod(last, loop_len);
    lemma_tdiv_tmod(target, loop_len);
    lemma_tdiv_monotone(last, target, loop_len);
    let prev = tmod(last, loop_len);
    let next = tmod(target, loop_len);
    let k = tdiv(last, loop_len);
    let kt = tdiv(target, loop_len);
    lemma_mul_is_commutative(k, loop_len);
    lemma_mul_is_commutative(k + 1, loop_len);
    lemma_mul_is_commutative(kt, loop_len);
    lemma_mul_is_distributive_add(loop_len, k, 1);
    lemma_mul_basics(loop_len);
    lemma_mul_left_inequality(loop_len, k, kt);
    lemma_mul_left_inequality(loop_len, k + 1, kt);
    if note_tick(b, last, target, loop_len) is Some {
        if prev < b && b <= next {
            assert(loop_len * k == last - prev);
            assert(loop_len * kt >= loop_len * k);
        } else {
            assert(next < prev);
            assert(kt != k);
            assert(kt >= k + 1);
            assert(loop_len * kt >= loop_len * (k + 1));
        }
    }
}

/// Everything a voice's window emits lies in the window's half-open span.
/// Since consecutive windows of a monotone horizon have disjoint spans,
/// no absolute tick is ever scheduled twice across a session.
pub proof fn lemma_voice_window_in_window(notes: Seq<i64>, last: int, target: int, loop_len: int)
    requires
        loop_len > 0,
        last < target,
        0 <= target,
    ensures
        forall|i: int|
            0 <= i < voice_window_ticks(notes, last, target, loop_len).len() ==> last
                < #[trigger] voice_window_ticks(notes, last, target, loop_len)[i] <= target,
    decreases notes.len(),
{
    if notes.len() > 0 {
        lemma_voice_window_in_window(notes.drop_last(), last, target, loop_len);
        lemma_note_tick_in_window(notes.last() as int, last, target, loop_len);
        let full = voice_window_ticks(notes, last, target, loop_len);
        let rest = voice_window_ticks(notes.drop_last(), last, target, loop_len);
        assert forall|i: int| 0 <= i < full.len() implies last < #[trigger] full[i] <= target by {
            match note_tick(notes.last() as int, last, target, loop_len) {
                Some(t) => {
                    if i < rest.len() {
                        assert(full[i] == rest[i]);
                    } else {
                        assert(full[i] == t);
                    }
                },
                None => {
                    assert(full[i] == rest[i]);
                },
            }
        }
    }
}

/// In the steady state — a horizon already past the session start and a
/// window shorter than the loop — a pattern note is scheduled in the
/// window if and only if one of its per-loop occurrences falls there, and
/// it is scheduled exactly at that occurrence.  With
/// [`lemma_note_tick_in_window`] this pins the window's output completely:
/// no occurrence is skipped and none fires twice.
pub proof fn lemma_note_tick_exact(b: int, last: int, target: int, loop_len: int)
    requires
        loop_len > 0,
        0 <= last < target,
        target - last < loop_len,
        0 <= b < loop_len,
    ensures
        forall|m: int|
            last < b + #[trigger] (m * loop_len) <= target ==> note_tick(b, last, target, loop_len)
                == Some(b + m * loop_len),
{
    lemma_tdiv_tmod(last, loop_len);
    lemma_tdiv_tmod(target, loop_len);
    lemma_tdiv_monotone(last, target, loop_len);
    let prev = tmod(last, loop_len);
    let next = tmod(target, loop_len);
    let k = tdiv(last, loop_len);
    let kt = tdiv(target, loop_len);
    lemma_mul_is_commutative(k, loop_len);
    lemma_mul_is_commutative(k + 1, loop_len);
    lemma_mul_is_commutative(kt, loop_len);
    lemma_mul_is_distributive_add(loop_len, k, 1);
    lemma_mul_is_distributive_add(loop_len, k, 2);
    lemma_mul_basics(loop_len);
    assert(loop_len * 2 == loop_len + loop_len) by (nonlinear_arith);
    assert(kt <= k + 1) by {
        if kt >= k + 2 {
            lemma_mul_left_inequality(loop_len, k + 2, kt);
        }
    }
    assert forall|m: int| last < b + #[trigger] (m * loop_len) <= target implies note_tick(
        b,
        last,
        target,
        loop_len,
    ) == Some(b + m * loop_len) by {
        lemma_mul_is_commutative(m, loop_len);
        assert(m >= k) by {
            if m <= k - 1 {
                lemma_mul_left_inequality(loop_len, m, k - 1);
                lemma_mul_is_distributive_sub(loop_len, k, 1);
            }
        }
        assert(m <= k + 1) by {
            if m >= k + 2 {
                lemma_mul_left_inequality(loop_len, k + 2, m);
                lemma_mul_left_inequality(loop_len, kt, k + 1);
            }
        }
        if m == k {
            assert(b > prev);
            if kt == k {
                assert(b <= next);
            } else {
                assert(kt == k + 1);
                assert(next < prev) by {
                    assert(loop_len * kt == loop_len * k + loop_len);
                }
            }
        } else {
            assert(m == k + 1);
            assert(kt == k + 1) by {
                if kt == k {
                    assert(b + loop_len * m > target);
                }
            }
            assert(next < prev) by {
                assert(loop_len * kt == loop_len * k + loop_len);
            }
            assert(b <= next) by {
                assert(loop_len * kt == loop_len * k + loop_len);
            }
        }
    }
}

/// Every command of a scheduling window falls strictly after the window's
/// start and no later than its end, whichever instrument it plays.  Since
/// the horizon never moves backward, the spans of successive windows are
/// disjoint and no command is ever issued twice.
pub proof fn lemma_window_commands_in_window(voices: Voices, n: int, last: int, target: int,
    loop_len: int)
    requires
        loop_len > 0,
        i64::MIN <= last < target <= i64::MAX,
        0 <= target,
        0 <= n <= NUM_INSTRUMENTS,
    ensures
        forall|i: int|
            0 <= i < commands_upto(voices, n, last, target, loop_len).len() ==> last
                < (#[trigger] commands_upto(voices, n, last, target, loop_len)[i]).tick <= target,
    decreases n,
{
    if n > 0 {
        lemma_window_commands_in_window(voices, n - 1, last, target, loop_len);
        let ins = all_instruments_seq()[n - 1];
        lemma_voice_window_in_window(voices.beats_of(ins), last, target, loop_len);
        let full = commands_upto(voices, n, last, target, loop_len);
        let rest = commands_upto(voices, n - 1, last, target, loop_len);
        let ticks = voice_window_ticks(voices.beats_of(ins), last, target, loop_len);
        assert forall|i: int| 0 <= i < full.len() implies last < (#[trigger] full[i]).tick
            <= target by {
            if i < rest.len() {
                assert(full[i] == rest[i]);
            } else {
                assert(full[i] == commands_for(voices, ins, last, target, loop_len)[i
                    - rest.len()]);
                let t = ticks[i - rest.len()];
                assert(last < t <= target);
                assert(full[i].tick == t as i64);
                assert(t as i64 == t);
            }
        }
    }
}

/// At the session start the horizon sentinel sits just below zero: the
/// whole window lies inside the first loop, and every note from the start
/// of the loop up to the window's end is scheduled at its own offset —
/// beat zero included, exactly once.
pub proof fn lemma_note_tick_session_start(b: int, last: int, target: int, loop_len: int)
    requires
        loop_len > 0,
        -loop_len < last < 0,
        0 <= target < loop_len,
        0 <= b < loop_len,
    ensures
        note_tick(b, last, target, loop_len) == if last < b && b <= target {
            Some(b)
        } else {
            None::<int>
        },
{
    lemma_mul_basics(loop_len);
    vstd::arithmetic::div_mod::lemma_small_mod((-last) as nat, loop_len as nat);
    vstd::arithmetic::div_mod::lemma_small_mod(target as nat, loop_len as nat);
    vstd::arithmetic::div_mod::lemma_basic_div(-last, loop_len);
    vstd::arithmetic::div_mod::lemma_basic_div(target, loop_len);
    assert(tmod(last, loop_len) == last);
    assert(tmod(target, loop_len) == target);
    assert(tdiv(last, loop_len) == 0);
}

/// Two windows that a monotone horizon produces one after the other never
/// schedule the same absolute tick: whatever either window emits for a
/// note lies inside its own half-open span, and the spans are disjoint.
pub proof fn lemma_no_double_fire(
    b: int,
    last1: int,
    target1: int,
    last2: int,
    target2: int,
    loop_len: int,
)
    requires
        loop_len > 0,
        last1 < target1 <= last2 < target2,
        0 <= target1,
        0 <= target2,
    ensures
        note_tick(b, last1, target1, loop_len) matches Some(t1) ==> (note_tick(
            b,
            last2,
            target2,
            loop_len,
        ) matches Some(t2) ==> t1 != t2),
{
    lemma_note_tick_in_window(b, last1, target1, loop_len);
    lemma_note_tick_in_window(b, last2, target2, loop_len);
}

/// The ticks (scaled) at which the metronome clicks: every other tick of
/// the default sixteen-tick loop, the quarter notes.
pub fn metronome_notes() -> (r: Vec<i64>)
    ensures
        r@ == seq![
            0i64,
            20_000i64,
            40_000i64,
            60_000i64,
            80_000i64,
            100_000i64,
            120_000i64,
            140_000i64,
        ],
{
    let mut v: Vec<i64> = Vec::new();
    v.push(0);
    v.push(20_000);
    v.push(40_000);
    v.push(60_000);
    v.push(80_000);
    v.push(100_000);
    v.push(120_000);
    v.push(140_000);
    proof {
        assert(v@ =~= seq![
            0i64,
            20_000i64,
            40_000i64,
            60_000i64,
            80_000i64,
            100_000i64,
            120_000i64,
            140_000i64,
        ]);
    }
    v
}

/// Playback volume of each instrument's sample, in thousandths of full
/// scale: cymbals and toms are mixed quieter than the core kit.
pub fn get_volume(ins: &Instrument) -> (r: u32)
    ensures
        r == match *ins {
            Instrument::OpenHihat => 500u32,
            Instrument::PedalHiHat => 500u32,
            Instrument::Ride => 150u32,
            Instrument::Crash => 400u32,
            Instrument::Tom1 => 250u32,
            Instrument::Tom2 => 250u32,
            Instrument::Tom3 => 250u32,
            _ => 1000u32,
        },
{
    match ins {
        Instrument::OpenHihat => 500,
        Instrument::PedalHiHat => 500,
        Instrument::Ride => 150,
        Instrument::Crash => 400,
        Instrument::Tom1 | Instrument::Tom2 | Instrument::Tom3 => 250,
        _ => 1000,
    }
}

} // verus!
