//! The gold-mode progression controller.
//!
//! Each time a loop finishes, its score either extends or resets the run
//! of consecutive perfect takes; after three in a row the tempo is raised
//! by two beats per minute and the run starts over.

use vstd::prelude::*;

verus! {

use crate::clock::{clamp_bpm, clamp_bpm_spec};
use crate::hits::UserHit;
use crate::instrument::Instrument;
use crate::score::{
    close_count, compute_last_loop_summary, correct_count, hit_timings_for, loop_performance,
    LastLoopSummary, Score,
};
use crate::ticks::{loop_ticks_spec, TICK_LIMIT};
use crate::voices::Voices;

/// How many consecutive perfect loops earn a tempo step.
pub const GOLD_MODE_CORRECT_TAKES: i32 = 3;

/// By how many beats per minute the tempo rises on a gold step.
pub const GOLD_MODE_BPM_STEP: u32 = 2;

/// The progression controller's state: the current run of consecutive
/// perfect loops, and whether the loop that just ended completed a run.
#[derive(Debug, PartialEq, Eq, Structural, Clone, Copy)]
pub struct GoldMode {
    pub correct_takes: i32,
    pub was_gold: bool,
}

/// The controller's invariant: the run counter resets on reaching the
/// threshold, so it stays below it.
pub open spec fn gold_wf(g: GoldMode) -> bool {
    0 <= g.correct_takes < GOLD_MODE_CORRECT_TAKES
}

/// One step of the progression state machine: a perfect loop extends the
/// run and any other resets it; a run reaching the threshold is a gold
/// step — the run starts over and the step is reported.
pub open spec fn gold_update(g: GoldMode, perfect: bool) -> (GoldMode, bool) {
    let run: int = if perfect {
        g.correct_takes + 1
    } else {
        0
    };
    if run == GOLD_MODE_CORRECT_TAKES {
        (GoldMode { correct_takes: 0, was_gold: true }, true)
    } else {
        (GoldMode { correct_takes: run as i32, was_gold: false }, false)
    }
}

/// Mirror of [`gold_update`] in executable code: feeds one finished
/// loop's verdict into the controller and reports whether it completed a
/// run of three perfect takes.
pub fn update_gold_mode(gold: &mut GoldMode, perfect: bool) -> (stepped: bool)
    requires
        gold_wf(*old(gold)),
    ensures
        gold_wf(*final(gold)),
        (*final(gold), stepped) == gold_update(*old(gold), perfect),
        stepped == (perfect && old(gold).correct_takes + 1 == GOLD_MODE_CORRECT_TAKES),
{
    gold.was_gold = false;
    if perfect {
        gold.correct_takes = gold.correct_takes + 1;
    } else {
        gold.correct_takes = 0;
    }
    if gold.correct_takes == GOLD_MODE_CORRECT_TAKES {
        gold.correct_takes = 0;
        gold.was_gold = true;
        true
    } else {
        false
    }
}

/// Three perfect loops in a row, starting from a fresh run, produce
/// exactly one gold step: the first two extend the run without stepping,
/// the third steps, resets the run and marks the loop gold.
pub proof fn lemma_gold_progression(g0: GoldMode)
    requires
        gold_wf(g0),
        g0.correct_takes == 0,
    ensures
        ({
            let (g1, s1) = gold_update(g0, true);
            let (g2, s2) = gold_update(g1, true);
            let (g3, s3) = gold_update(g2, true);
            &&& !s1 && !s2 && s3
            &&& !g1.was_gold && !g2.was_gold && g3.was_gold
            &&& g3.correct_takes == 0
        }),
{
}

/// A loop that is not perfect resets the run to zero, whatever state the
/// controller is in, and never produces a gold step.
pub proof fn lemma_gold_reset(g: GoldMode)
    ensures
        ({
            let (g1, s) = gold_update(g, false);
            &&& !s
            &&& !g1.was_gold
            &&& g1.correct_takes == 0
        }),
{
}

/// Everything the session does when the clock crosses into a new loop:
/// scores the finished loop's hits against the pattern, feeds the verdict
/// into the gold-mode controller, and computes the tempo to run at next —
/// raised by [`GOLD_MODE_BPM_STEP`] (within the transport's range) exactly
/// when the loop completed a run of three perfect takes.
pub fn process_starting_loop(
    gold: &mut GoldMode,
    last_loop_hits: &Vec<UserHit>,
    desired: &Voices,
    beats_per_loop: usize,
    bpm: u32,
) -> (r: (LastLoopSummary, Score, u32))
    requires
        gold_wf(*old(gold)),
        forall|i: int|
            0 <= i < last_loop_hits@.len() ==> -TICK_LIMIT
                <= (#[trigger] last_loop_hits@[i]).clock_tick <= TICK_LIMIT,
        desired.wf(),
        forall|ins: Instrument| (#[trigger] desired.beats_of(ins)).len() <= 0x100_0000,
        0 < beats_per_loop <= 0x10_0000,
    ensures
        gold_wf(*final(gold)),
        r.0.wf(),
        forall|ins: Instrument| #[trigger] r.0.accuracies_of(ins) == loop_performance(
            hit_timings_for(last_loop_hits@, ins, loop_ticks_spec(beats_per_loop as int)),
            desired.beats_of(ins),
            loop_ticks_spec(beats_per_loop as int),
            loop_ticks_spec(beats_per_loop as int),
        ),
        r.1.points == 2 * correct_count(r.0.combined_seq()) + close_count(r.0.combined_seq()),
        r.1.max_points == 2 * r.0.combined_seq().len(),
        ({
            let perfect = r.1.points == r.1.max_points && r.1.max_points > 0;
            &&& (*final(gold), final(gold).was_gold) == gold_update(*old(gold), perfect)
            &&& r.2 == if final(gold).was_gold {
                clamp_bpm_spec(bpm + GOLD_MODE_BPM_STEP)
            } else {
                bpm as int
            }
        }),
{
    let summary = compute_last_loop_summary(last_loop_hits, desired, beats_per_loop);
    proof {
        lemma_combined_len_bounded(&summary, crate::instrument::NUM_INSTRUMENTS as int);
    }
    let totals = summary.combined();
    let score = totals.score();
    let perfect = score.is_perfect();
    let stepped = update_gold_mode(gold, perfect);
    let new_bpm = if stepped {
        clamp_bpm((bpm as i64) + (GOLD_MODE_BPM_STEP as i64))
    } else {
        bpm
    };
    (summary, score, new_bpm)
}

/// A summary whose every tally is short flattens to a short sequence.
proof fn lemma_combined_len_bounded(s: &LastLoopSummary, n: int)
    requires
        s.wf(),
        0 <= n <= crate::instrument::NUM_INSTRUMENTS,
        forall|ins: Instrument| (#[trigger] s.accuracies_of(ins)).len() <= 0x100_0000,
    ensures
        s.combined_upto(n).len() <= n * 0x100_0000,
    decreases n,
{
    if n > 0 {
        lemma_combined_len_bounded(s, n - 1);
    }
}

} // verus!
