//! The accuracy engine: classifies timestamped user hits against the
//! desired pattern and aggregates the result of a completed loop.
//!
//! A hit is matched to the nearest desired beat (the first one found, when
//! scanning in order, among those at minimal distance); when the pattern has
//! a note at beat zero, the same note in the *next* loop is also a
//! candidate, so a late hit just before the loop boundary counts for the
//! downbeat that follows.  The signed distance to the chosen beat is then
//! cut into bands: within [`CORRECT_MARGIN`] on time, within
//! [`MISS_MARGIN`] early or late, beyond it a miss.

use vstd::prelude::*;

verus! {

use vstd::math::abs;
use vstd::pervasive::VecAdditionalExecFns;
use crate::instrument::{
    all_instruments, all_instruments_seq, instrument_index, instrument_index_spec, Instrument,
    NUM_INSTRUMENTS,
};
use crate::hits::UserHit;
use crate::ticks::{
    loop_ticks, loop_ticks_spec, tdiv, tick_div, tmod, lemma_tdiv_tmod, CORRECT_MARGIN,
    MISS_MARGIN, TICK_LIMIT,
};
use crate::voices::Voices;

/// How one desired beat was met: on time, within the near margins, not at
/// all, or not yet due this loop.
#[derive(Debug, PartialEq, Eq, Structural, Copy, Clone)]
pub enum Accuracy {
    Correct,
    Early,
    Late,
    Miss,
    Unknown,
}

/// The tolerance bands on the signed distance (in scaled ticks) from a hit
/// to its chosen beat.
pub open spec fn classify_distance(d: int) -> Accuracy {
    if abs(d) > MISS_MARGIN {
        Accuracy::Miss
    } else if d < -CORRECT_MARGIN {
        Accuracy::Early
    } else if d > CORRECT_MARGIN {
        Accuracy::Late
    } else {
        Accuracy::Correct
    }
}

/// The beat of `beats` nearest to `user`, scanning in order and keeping the
/// earlier beat on ties.
pub open spec fn nearest_beat(user: int, beats: Seq<i64>) -> Option<i64>
    decreases beats.len(),
{
    if beats.len() == 0 {
        None
    } else {
        let last = beats.last();
        match nearest_beat(user, beats.drop_last()) {
            None => Some(last),
            Some(b) => if abs(user - last) < abs(user - b) {
                Some(last)
            } else {
                Some(b)
            },
        }
    }
}

/// The beat a hit is measured against, and whether that beat is the next
/// loop's downbeat: the nearest of the listed beats, displaced by the
/// virtual candidate at `loop_len` when the list has a note at beat zero
/// and the virtual candidate is strictly nearer.
pub open spec fn hit_target(user: int, beats: Seq<i64>, loop_len: int) -> (Option<int>, bool) {
    match nearest_beat(user, beats) {
        None => if beats.contains(0) {
            (Some(loop_len), false)
        } else {
            (None, false)
        },
        Some(b) => if beats.contains(0) && abs(user - loop_len) < abs(user - b) {
            (Some(loop_len), true)
        } else {
            (Some(b as int), false)
        },
    }
}

/// What a single hit at `user` scores against `beats`, and whether its
/// chosen beat wraps to the next loop.  With no candidate at all the hit is
/// a miss.
pub open spec fn single_hit_accuracy(user: int, beats: Seq<i64>, loop_len: int) -> (
    Accuracy,
    bool,
) {
    let (target, is_next_loop) = hit_target(user, beats, loop_len);
    match target {
        None => (Accuracy::Miss, false),
        Some(t) => (classify_distance(user - t), is_next_loop),
    }
}

/// The chosen beat exists in the list and minimizes the distance to the hit.
pub proof fn lemma_nearest_is_minimal(user: int, beats: Seq<i64>)
    ensures
        beats.len() == 0 <==> nearest_beat(user, beats) is None,
        nearest_beat(user, beats) matches Some(b) ==> beats.contains(b) && forall|i: int|
            0 <= i < beats.len() ==> abs(user - b) <= abs(user - #[trigger] beats[i]),
    decreases beats.len(),
{
    if beats.len() > 0 {
        lemma_nearest_is_minimal(user, beats.drop_last());
        let b = nearest_beat(user, beats).unwrap();
        assert(beats.contains(b)) by {
            if beats.len() == 1 || nearest_beat(user, beats.drop_last()) is None {
                assert(beats[beats.len() - 1] == b);
            } else {
                let p = nearest_beat(user, beats.drop_last()).unwrap();
                if b == p {
                    assert(beats.drop_last().contains(p));
                    let i = choose|i: int|
                        0 <= i < beats.drop_last().len() && beats.drop_last()[i] == p;
                    assert(beats[i] == p);
                } else {
                    assert(beats[beats.len() - 1] == b);
                }
            }
        }
        assert forall|i: int| 0 <= i < beats.len() implies abs(user - b) <= abs(
            user - #[trigger] beats[i],
        ) by {
            if i < beats.len() - 1 {
                assert(beats.drop_last()[i] == beats[i]);
            }
        }
    }
}

/// Mirror of [`single_hit_accuracy`] in executable code: the accuracy of
/// one user hit against one voice's desired beats, and whether the chosen
/// beat belongs to the next loop.
pub fn compute_accuracy_of_single_hit(
    user_beat_with_latency: i64,
    desired_hits: &Vec<i64>,
    beats_per_loop: usize,
) -> (r: (Accuracy, bool))
    requires
        -TICK_LIMIT <= user_beat_with_latency <= TICK_LIMIT,
        forall|i: int|
            0 <= i < desired_hits@.len() ==> -TICK_LIMIT <= #[trigger] desired_hits@[i]
                <= TICK_LIMIT,
        0 < beats_per_loop <= 0x10_0000,
    ensures
        r == single_hit_accuracy(
            user_beat_with_latency as int,
            desired_hits@,
            loop_ticks_spec(beats_per_loop as int),
        ),
{
    let user = user_beat_with_latency;
    let mut target: Option<(i64, i64)> = None;
    let mut has_zero: bool = false;
    let mut i: usize = 0;
    while i < desired_hits.len()
        invariant
            i <= desired_hits@.len(),
            -TICK_LIMIT <= user <= TICK_LIMIT,
            forall|k: int|
                0 <= k < desired_hits@.len() ==> -TICK_LIMIT <= #[trigger] desired_hits@[k]
                    <= TICK_LIMIT,
            has_zero == desired_hits@.take(i as int).contains(0i64),
            match nearest_beat(user as int, desired_hits@.take(i as int)) {
                None => target is None,
                Some(b) => target == Some((b, (user - b) as i64)),
            },
        decreases desired_hits@.len() - i,
    {
        let desired = desired_hits[i];
        proof {
            assert(desired_hits@.take(i + 1).drop_last() =~= desired_hits@.take(i as int));
            assert(desired_hits@.take(i + 1).last() == desired);
            if desired_hits@.take(i as int).contains(0i64) {
                let z = choose|k: int|
                    0 <= k < desired_hits@.take(i as int).len() && desired_hits@.take(
                        i as int,
                    )[k] == 0i64;
                assert(desired_hits@.take(i + 1)[z] == 0i64);
            }
        }
        if desired == 0 {
            has_zero = true;
        }
        match target {
            None => {
                target = Some((desired, user - desired));
            },
            Some((_, prev_dist)) => {
                let new_dist = user - desired;
                if iabs(new_dist) < iabs(prev_dist) {
                    target = Some((desired, new_dist));
                }
            },
        }
        i = i + 1;
    }
    proof {
        assert(desired_hits@.take(desired_hits@.len() as int) =~= desired_hits@);
    }

    let loop_len = loop_ticks(beats_per_loop);
    let mut is_next_loop: bool = false;
    if has_zero {
        match target {
            None => {
                target = Some((loop_len, user - loop_len));
            },
            Some((_, prev_dist)) => {
                let new_dist = user - loop_len;
                if iabs(new_dist) < iabs(prev_dist) {
                    is_next_loop = true;
                    target = Some((loop_len, new_dist));
                }
            },
        }
    }

    match target {
        None => (Accuracy::Miss, false),
        Some((b, _)) => {
            let distance = user - b;
            let acc = if iabs(distance) > MISS_MARGIN {
                Accuracy::Miss
            } else if distance < -CORRECT_MARGIN {
                Accuracy::Early
            } else if distance > CORRECT_MARGIN {
                Accuracy::Late
            } else {
                Accuracy::Correct
            };
            (acc, is_next_loop)
        },
    }
}

/// Absolute value of a tick difference.
fn iabs(x: i64) -> (r: i64)
    requires
        x > i64::MIN,
    ensures
        r == abs(x as int),
{
    if x < 0 {
        -x
    } else {
        x
    }
}

/// What one desired beat earns from a list of hits: the accuracy of the
/// first hit that is not a miss against that beat alone, or a miss when
/// every hit is.  A hit is not consumed: every desired beat scans the full
/// list independently.
pub open spec fn voice_hit_accuracy(user_hits: Seq<i64>, desired: i64, loop_len: int) -> Accuracy
    decreases user_hits.len(),
{
    if user_hits.len() == 0 {
        Accuracy::Miss
    } else {
        let a = single_hit_accuracy(user_hits[0] as int, seq![desired], loop_len).0;
        if a != Accuracy::Miss {
            a
        } else {
            voice_hit_accuracy(user_hits.drop_first(), desired, loop_len)
        }
    }
}

/// One accuracy per desired beat, in pattern order: beats after
/// `loop_current_beat` are not due yet and stay unknown, the rest earn what
/// the hit list gives them.
pub open spec fn loop_performance(
    user_hits: Seq<i64>,
    desired: Seq<i64>,
    loop_current_beat: int,
    loop_len: int,
) -> Seq<Accuracy> {
    Seq::new(
        desired.len(),
        |i: int|
            if desired[i] > loop_current_beat {
                Accuracy::Unknown
            } else {
                voice_hit_accuracy(user_hits, desired[i], loop_len)
            },
    )
}

/// Mirror of [`loop_performance`] in executable code: scores one voice of
/// the pattern against the hits recorded for it.
pub fn compute_loop_performance_for_voice(
    user_hits: &Vec<i64>,
    desired_hits: &Vec<i64>,
    loop_current_beat: i64,
    beats_per_loop: usize,
) -> (r: Vec<Accuracy>)
    requires
        forall|i: int|
            0 <= i < user_hits@.len() ==> -TICK_LIMIT <= #[trigger] user_hits@[i] <= TICK_LIMIT,
        forall|i: int|
            0 <= i < desired_hits@.len() ==> -TICK_LIMIT <= #[trigger] desired_hits@[i]
                <= TICK_LIMIT,
        0 < beats_per_loop <= 0x10_0000,
    ensures
        r@ == loop_performance(
            user_hits@,
            desired_hits@,
            loop_current_beat as int,
            loop_ticks_spec(beats_per_loop as int),
        ),
{
    let ghost loop_len = loop_ticks_spec(beats_per_loop as int);
    let mut out: Vec<Accuracy> = Vec::new();
    let mut i: usize = 0;
    while i < desired_hits.len()
        invariant
            loop_len == loop_ticks_spec(beats_per_loop as int),
            i <= desired_hits@.len(),
            out@.len() == i,
            forall|k: int|
                0 <= k < user_hits@.len() ==> -TICK_LIMIT <= #[trigger] user_hits@[k]
                    <= TICK_LIMIT,
            forall|k: int|
                0 <= k < desired_hits@.len() ==> -TICK_LIMIT <= #[trigger] desired_hits@[k]
                    <= TICK_LIMIT,
            0 < beats_per_loop <= 0x10_0000,
            forall|k: int|
                0 <= k < i ==> out@[k] == (if desired_hits@[k] > loop_current_beat {
                    Accuracy::Unknown
                } else {
                    voice_hit_accuracy(user_hits@, desired_hits@[k], loop_len)
                }),
        decreases desired_hits@.len() - i,
    {
        let desired = desired_hits[i];
        if desired > loop_current_beat {
            out.push(Accuracy::Unknown);
        } else {
            let mut single: Vec<i64> = Vec::new();
            single.push(desired);
            proof {
                assert(single@ =~= seq![desired]);
            }
            let mut j: usize = 0;
            let mut found: bool = false;
            let mut found_acc: Accuracy = Accuracy::Miss;
            let n = user_hits.len();
            proof {
                assert(user_hits@.skip(0) =~= user_hits@);
            }
            while j < n && !found
                invariant
                    loop_len == loop_ticks_spec(beats_per_loop as int),
                    j <= n,
                    n == user_hits@.len(),
                    single@ == seq![desired],
                    -TICK_LIMIT <= desired <= TICK_LIMIT,
                    forall|k: int|
                        0 <= k < user_hits@.len() ==> -TICK_LIMIT <= #[trigger] user_hits@[k]
                            <= TICK_LIMIT,
                    0 < beats_per_loop <= 0x10_0000,
                    !found ==> voice_hit_accuracy(user_hits@, desired, loop_len)
                        == voice_hit_accuracy(user_hits@.skip(j as int), desired, loop_len),
                    found ==> found_acc == voice_hit_accuracy(user_hits@, desired, loop_len)
                        && found_acc != Accuracy::Miss,
                decreases n - j, (if found { 0int } else { 1int }),
            {
                let (acc, _) = compute_accuracy_of_single_hit(
                    user_hits[j],
                    &single,
                    beats_per_loop,
                );
                proof {
                    let tail = user_hits@.skip(j as int);
                    assert(tail.len() > 0);
                    assert(tail[0] == user_hits@[j as int]);
                    assert(tail.drop_first() =~= user_hits@.skip(j + 1));
                    assert(voice_hit_accuracy(tail, desired, loop_len) == {
                        let a = single_hit_accuracy(tail[0] as int, seq![desired], loop_len).0;
                        if a != Accuracy::Miss {
                            a
                        } else {
                            voice_hit_accuracy(tail.drop_first(), desired, loop_len)
                        }
                    });
                }
                if !matches!(acc, Accuracy::Miss) {
                    found = true;
                    found_acc = acc;
                } else {
                    j = j + 1;
                }
            }
            if found {
                out.push(found_acc);
            } else {
                proof {
                    assert(user_hits@.skip(n as int) =~= Seq::<i64>::empty());
                }
                out.push(Accuracy::Miss);
            }
        }
        i = i + 1;
    }
    proof {
        assert(out@ =~= loop_performance(
            user_hits@,
            desired_hits@,
            loop_current_beat as int,
            loop_len,
        ));
    }
    out
}

/// The loop-relative beats of the hits struck on `ins`, in log order.
pub open spec fn hit_timings_for(hits: Seq<UserHit>, ins: Instrument, loop_len: int) -> Seq<i64>
    decreases hits.len(),
{
    if hits.len() == 0 {
        Seq::<i64>::empty()
    } else {
        let rest = hit_timings_for(hits.drop_last(), ins, loop_len);
        if hits.last().instrument == ins {
            rest.push(tmod(hits.last().clock_tick as int, loop_len) as i64)
        } else {
            rest
        }
    }
}

/// Projects out of the hit log the loop-relative beats of the hits struck
/// on one instrument.
pub fn get_user_hit_timings_by_instrument(
    user_hits: &Vec<UserHit>,
    instrument: Instrument,
    beats_per_loop: usize,
) -> (r: Vec<i64>)
    requires
        forall|i: int|
            0 <= i < user_hits@.len() ==> -TICK_LIMIT <= (#[trigger] user_hits@[i]).clock_tick
                <= TICK_LIMIT,
        0 < beats_per_loop <= 0x10_0000,
    ensures
        r@ == hit_timings_for(user_hits@, instrument, loop_ticks_spec(beats_per_loop as int)),
        forall|i: int| 0 <= i < r@.len() ==> -TICK_LIMIT <= #[trigger] r@[i] <= TICK_LIMIT,
{
    let ghost loop_len = loop_ticks_spec(beats_per_loop as int);
    let mut out: Vec<i64> = Vec::new();
    let mut i: usize = 0;
    while i < user_hits.len()
        invariant
            loop_len == loop_ticks_spec(beats_per_loop as int),
            i <= user_hits@.len(),
            0 < beats_per_loop <= 0x10_0000,
            forall|k: int|
                0 <= k < user_hits@.len() ==> -TICK_LIMIT <= (#[trigger] user_hits@[k]).clock_tick
                    <= TICK_LIMIT,
            out@ == hit_timings_for(user_hits@.take(i as int), instrument, loop_len),
            forall|k: int| 0 <= k < out@.len() ==> -TICK_LIMIT <= #[trigger] out@[k] <= TICK_LIMIT,
        decreases user_hits@.len() - i,
    {
        proof {
            assert(user_hits@.take(i + 1).drop_last() =~= user_hits@.take(i as int));
            assert(user_hits@.take(i + 1).last() == user_hits@[i as int]);
            lemma_tdiv_tmod(user_hits@[i as int].clock_tick as int, loop_len);
        }
        let hit = &user_hits[i];
        if hit.instrument == instrument {
            let b = hit.beat(beats_per_loop);
            out.push(b);
        }
        i = i + 1;
    }
    proof {
        assert(user_hits@.take(user_hits@.len() as int) =~= user_hits@);
    }
    out
}

/// The accuracies one voice (or the whole pattern) earned in a loop.
#[derive(Debug)]
pub struct Accuracies {
    pub accuracies: Vec<Accuracy>,
}

/// How many entries of `s` are on time.
pub open spec fn correct_count(s: Seq<Accuracy>) -> nat
    decreases s.len(),
{
    if s.len() == 0 {
        0nat
    } else {
        correct_count(s.drop_last()) + if s.last() == Accuracy::Correct {
            1nat
        } else {
            0nat
        }
    }
}

/// How many entries of `s` are near hits (early or late).
pub open spec fn close_count(s: Seq<Accuracy>) -> nat
    decreases s.len(),
{
    if s.len() == 0 {
        0nat
    } else {
        close_count(s.drop_last()) + if s.last() == Accuracy::Early || s.last()
            == Accuracy::Late {
            1nat
        } else {
            0nat
        }
    }
}

/// A loop score as an exact ratio: a full point per on-time hit, half a
/// point per near hit, out of one point per desired beat.  `points` is
/// counted in half-points so the ratio `points / max_points` stays exact.
#[derive(Debug, PartialEq, Eq, Structural, Copy, Clone)]
pub struct Score {
    pub points: usize,
    pub max_points: usize,
}

impl Score {
    /// A perfect take: every desired beat on time.  A loop without desired
    /// beats has no ratio at all and never counts as perfect.
    pub fn is_perfect(&self) -> (r: bool)
        ensures
            r == (self.points == self.max_points && self.max_points > 0),
    {
        self.points == self.max_points && self.max_points > 0
    }
}

impl Accuracies {
    /// An empty tally.
    pub fn new() -> (r: Accuracies)
        ensures
            r.accuracies@ == Seq::<Accuracy>::empty(),
    {
        Accuracies { accuracies: Vec::new() }
    }

    /// The take's score: on-time hits earn a full point, near hits half a
    /// point, out of one point per desired beat.
    pub fn score(&self) -> (r: Score)
        requires
            self.accuracies@.len() <= 0x1000_0000,
        ensures
            r.points == 2 * correct_count(self.accuracies@) + close_count(self.accuracies@),
            r.max_points == 2 * self.accuracies@.len(),
    {
        let mut num_correct: usize = 0;
        let mut num_close: usize = 0;
        let mut i: usize = 0;
        while i < self.accuracies.len()
            invariant
                i <= self.accuracies@.len(),
                self.accuracies@.len() <= 0x1000_0000,
                num_correct == correct_count(self.accuracies@.take(i as int)),
                num_close == close_count(self.accuracies@.take(i as int)),
            decreases self.accuracies@.len() - i,
        {
            proof {
                assert(self.accuracies@.take(i + 1).drop_last() =~= self.accuracies@.take(
                    i as int,
                ));
                assert(self.accuracies@.take(i + 1).last() == self.accuracies@[i as int]);
                lemma_counts_bounded(self.accuracies@.take(i + 1));
            }
            match self.accuracies[i] {
                Accuracy::Correct => {
                    num_correct = num_correct + 1;
                },
                Accuracy::Early => {
                    num_close = num_close + 1;
                },
                Accuracy::Late => {
                    num_close = num_close + 1;
                },
                Accuracy::Miss => {
                },
                Accuracy::Unknown => {
                },
            }
            i = i + 1;
        }
        proof {
            assert(self.accuracies@.take(self.accuracies@.len() as int) =~= self.accuracies@);
            lemma_counts_bounded(self.accuracies@);
        }
        let num_notes = self.accuracies.len();
        Score { points: 2 * num_correct + num_close, max_points: 2 * num_notes }
    }
}

/// Both tallies are bounded by the length of the take.
pub proof fn lemma_counts_bounded(s: Seq<Accuracy>)
    ensures
        correct_count(s) <= s.len(),
        close_count(s) <= s.len(),
        correct_count(s) + close_count(s) <= s.len(),
    decreases s.len(),
{
    if s.len() > 0 {
        lemma_counts_bounded(s.drop_last());
    }
}

/// A take scores full points exactly when every desired beat was hit on
/// time (and there was at least one beat to hit): near hits only ever earn
/// half their point, so nothing short of all-correct reaches the maximum.
pub proof fn lemma_perfect_score_is_all_correct(s: Seq<Accuracy>)
    ensures
        (2 * correct_count(s) + close_count(s) == 2 * s.len() && s.len() > 0) <==> (correct_count(
            s,
        ) == s.len() && s.len() > 0),
{
    lemma_counts_bounded(s);
}

/// The accuracies every instrument earned in the evaluated loop: one tally
/// per instrument, in the canonical instrument order.
#[derive(Debug)]
pub struct LastLoopSummary {
    pub data: Vec<Accuracies>,
}

impl LastLoopSummary {
    /// The structural invariant: one tally per instrument.
    pub open spec fn wf(self) -> bool {
        self.data@.len() == NUM_INSTRUMENTS
    }

    /// The tally of `ins`.
    pub open spec fn accuracies_of(self, ins: Instrument) -> Seq<Accuracy> {
        self.data@[instrument_index_spec(ins)].accuracies@
    }

    /// An empty summary: every instrument present with an empty tally.
    pub fn new() -> (r: LastLoopSummary)
        ensures
            r.wf(),
            forall|ins: Instrument| #[trigger] r.accuracies_of(ins) == Seq::<Accuracy>::empty(),
    {
        let mut data: Vec<Accuracies> = Vec::new();
        let mut i: usize = 0;
        while i < NUM_INSTRUMENTS
            invariant
                i <= NUM_INSTRUMENTS,
                data@.len() == i,
                forall|k: int|
                    0 <= k < i ==> (#[trigger] data@[k]).accuracies@ == Seq::<Accuracy>::empty(),
            decreases NUM_INSTRUMENTS - i,
        {
            data.push(Accuracies::new());
            i = i + 1;
        }
        let r = LastLoopSummary { data };
        proof {
            assert forall|ins: Instrument| #[trigger] r.accuracies_of(ins) == Seq::<
                Accuracy,
            >::empty() by {
                crate::instrument::lemma_instrument_index(ins);
            }
        }
        r
    }

    /// The tally of `ins`; every instrument is present in a well-formed
    /// summary, so the lookup always succeeds.
    pub fn get_score_tracker(&self, instrument: &Instrument) -> (r: &Accuracies)
        requires
            self.wf(),
        ensures
            r.accuracies@ == self.accuracies_of(*instrument),
    {
        proof {
            crate::instrument::lemma_instrument_index(*instrument);
        }
        let idx = instrument_index(*instrument);
        &self.data[idx]
    }

    /// Replaces the tally of `ins`, leaving every other instrument's alone.
    pub fn set_score_tracker(&mut self, instrument: &Instrument, score_tracker: Accuracies)
        requires
            old(self).wf(),
        ensures
            final(self).wf(),
            final(self).accuracies_of(*instrument) == score_tracker.accuracies@,
            forall|other: Instrument|
                other != *instrument ==> #[trigger] final(self).accuracies_of(other) == old(
                    self,
                ).accuracies_of(other),
    {
        proof {
            crate::instrument::lemma_instrument_index(*instrument);
        }
        let idx = instrument_index(*instrument);
        self.data.set(idx, score_tracker);
        proof {
            assert forall|other: Instrument|
                other != *instrument implies #[trigger] self.accuracies_of(other) == old(
                self,
            ).accuracies_of(other) by {
                crate::instrument::lemma_instrument_index(other);
            }
        }
    }

    /// The tallies of the first `n` instruments of the canonical order,
    /// laid end to end.
    pub open spec fn combined_upto(self, n: int) -> Seq<Accuracy>
        decreases n,
    {
        if n <= 0 {
            Seq::<Accuracy>::empty()
        } else {
            self.combined_upto(n - 1) + self.accuracies_of(all_instruments_seq()[n - 1])
        }
    }

    /// Every instrument's tally, laid end to end in the canonical order.
    pub open spec fn combined_seq(self) -> Seq<Accuracy> {
        self.combined_upto(NUM_INSTRUMENTS as int)
    }

    /// Flattens the summary into one tally across all instruments, for the
    /// aggregate score of the loop.
    pub fn combined(&self) -> (r: Accuracies)
        requires
            self.wf(),
        ensures
            r.accuracies@ == self.combined_seq(),
    {
        let mut all_acc: Vec<Accuracy> = Vec::new();
        let instruments = all_instruments();
        let mut i: usize = 0;
        while i < instruments.len()
            invariant
                self.wf(),
                i <= instruments.len(),
                instruments@ == all_instruments_seq(),
                all_acc@ == self.combined_upto(i as int),
            decreases instruments.len() - i,
        {
            let ghost prev = all_acc@;
            let st = self.get_score_tracker(&instruments[i]);
            let mut j: usize = 0;
            while j < st.accuracies.len()
                invariant
                    j <= st.accuracies@.len(),
                    all_acc@ == prev + st.accuracies@.take(j as int),
                decreases st.accuracies@.len() - j,
            {
                proof {
                    assert(prev + st.accuracies@.take(j + 1) =~= (prev + st.accuracies@.take(
                        j as int,
                    )).push(st.accuracies@[j as int]));
                }
                all_acc.push(st.accuracies[j]);
                j = j + 1;
            }
            proof {
                assert(st.accuracies@.take(st.accuracies@.len() as int) =~= st.accuracies@);
            }
            i = i + 1;
        }
        Accuracies { accuracies: all_acc }
    }
}

/// Scores the hits of a completed loop against the whole pattern: for each
/// instrument, the loop-relative beats of its hits measured against its
/// desired beats, evaluated to the end of the loop so nothing stays
/// unknown.
pub fn compute_last_loop_summary(
    user_hits: &Vec<UserHit>,
    desired_hits: &Voices,
    beats_per_loop: usize,
) -> (r: LastLoopSummary)
    requires
        forall|i: int|
            0 <= i < user_hits@.len() ==> -TICK_LIMIT <= (#[trigger] user_hits@[i]).clock_tick
                <= TICK_LIMIT,
        desired_hits.wf(),
        0 < beats_per_loop <= 0x10_0000,
    ensures
        r.wf(),
        forall|ins: Instrument| #[trigger] r.accuracies_of(ins) == loop_performance(
            hit_timings_for(user_hits@, ins, loop_ticks_spec(beats_per_loop as int)),
            desired_hits.beats_of(ins),
            loop_ticks_spec(beats_per_loop as int),
            loop_ticks_spec(beats_per_loop as int),
        ),
{
    let ghost loop_len = loop_ticks_spec(beats_per_loop as int);
    let mut out = LastLoopSummary::new();
    let instruments = all_instruments();
    let mut i: usize = 0;
    while i < instruments.len()
        invariant
            loop_len == loop_ticks_spec(beats_per_loop as int),
            i <= instruments.len(),
            instruments@ == all_instruments_seq(),
            forall|k: int|
                0 <= k < user_hits@.len() ==> -TICK_LIMIT <= (#[trigger] user_hits@[k]).clock_tick
                    <= TICK_LIMIT,
            desired_hits.wf(),
            0 < beats_per_loop <= 0x10_0000,
            out.wf(),
            forall|k: int|
                0 <= k < i ==> #[trigger] out.accuracies_of(all_instruments_seq()[k])
                    == loop_performance(
                    hit_timings_for(user_hits@, all_instruments_seq()[k], loop_len),
                    desired_hits.beats_of(all_instruments_seq()[k]),
                    loop_len,
                    loop_len,
                ),
        decreases instruments.len() - i,
    {
        let instrument = instruments[i];
        let user_timings = get_user_hit_timings_by_instrument(
            user_hits,
            instrument,
            beats_per_loop,
        );
        let desired_timings = desired_hits.get_instrument_beats(&instrument);
        let loop_len_ticks = loop_ticks(beats_per_loop);
        let accuracies = compute_loop_performance_for_voice(
            &user_timings,
            desired_timings,
            loop_len_ticks,
            beats_per_loop,
        );
        out.set_score_tracker(&instrument, Accuracies { accuracies });
        proof {
            assert forall|k: int|
                0 <= k < i + 1 implies #[trigger] out.accuracies_of(all_instruments_seq()[k])
                == loop_performance(
                hit_timings_for(user_hits@, all_instruments_seq()[k], loop_len),
                desired_hits.beats_of(all_instruments_seq()[k]),
                loop_len,
                loop_len,
            ) by {
                if all_instruments_seq()[k] != instrument {
                }
            }
        }
        i = i + 1;
    }
    proof {
        assert forall|ins: Instrument| #[trigger] out.accuracies_of(ins) == loop_performance(
            hit_timings_for(user_hits@, ins, loop_len),
            desired_hits.beats_of(ins),
            loop_len,
            loop_len,
        ) by {
            crate::instrument::lemma_instrument_index(ins);
        }
    }
    out
}

/// Which loop a hit belongs to: the loop whose span contains the hit's
/// tick, except that a hit within the miss margin before a loop boundary
/// already belongs to the upcoming loop (it was likely aimed at that
/// loop's first beat).  A hit from before the session's first loop counts
/// toward loop zero.
pub open spec fn hit_loop_index(tick: int, loop_len: int) -> int {
    if tick + MISS_MARGIN < 0 {
        0
    } else {
        tdiv(tick + MISS_MARGIN, loop_len)
    }
}

/// The hits of `hits` that belong to loop `idx`, in log order.
pub open spec fn hits_in_loop(hits: Seq<UserHit>, idx: int, loop_len: int) -> Seq<UserHit>
    decreases hits.len(),
{
    if hits.len() == 0 {
        Seq::<UserHit>::empty()
    } else {
        let rest = hits_in_loop(hits.drop_last(), idx, loop_len);
        if hit_loop_index(hits.last().clock_tick as int, loop_len) == idx {
            rest.push(hits.last())
        } else {
            rest
        }
    }
}

/// Filters the hit log down to the hits attributed to loop
/// `desired_loop_idx`.
pub fn get_hits_from_nth_loop(
    user_hits: &Vec<UserHit>,
    desired_loop_idx: usize,
    beats_per_loop: usize,
) -> (r: Vec<UserHit>)
    requires
        forall|i: int|
            0 <= i < user_hits@.len() ==> -TICK_LIMIT <= (#[trigger] user_hits@[i]).clock_tick
                <= TICK_LIMIT,
        0 < beats_per_loop <= 0x10_0000,
    ensures
        r@ == hits_in_loop(
            user_hits@,
            desired_loop_idx as int,
            loop_ticks_spec(beats_per_loop as int),
        ),
{
    let ghost loop_len = loop_ticks_spec(beats_per_loop as int);
    let l = loop_ticks(beats_per_loop);
    let mut out: Vec<UserHit> = Vec::new();
    let mut i: usize = 0;
    while i < user_hits.len()
        invariant
            loop_len == loop_ticks_spec(beats_per_loop as int),
            l == loop_len,
            0 < l <= TICK_LIMIT,
            i <= user_hits@.len(),
            forall|k: int|
                0 <= k < user_hits@.len() ==> -TICK_LIMIT <= (#[trigger] user_hits@[k]).clock_tick
                    <= TICK_LIMIT,
            out@ == hits_in_loop(user_hits@.take(i as int), desired_loop_idx as int, loop_len),
        decreases user_hits@.len() - i,
    {
        proof {
            assert(user_hits@.take(i + 1).drop_last() =~= user_hits@.take(i as int));
            assert(user_hits@.take(i + 1).last() == user_hits@[i as int]);
        }
        let hit = &user_hits[i];
        let shifted = hit.clock_tick + MISS_MARGIN;
        let in_loop: bool = if shifted < 0 {
            desired_loop_idx == 0
        } else {
            let q = tick_div(shifted, l);
            proof {
                lemma_tdiv_tmod(shifted as int, l as int);
            }
            (q as u64) == (desired_loop_idx as u64)
        };
        if in_loop {
            out.push(*hit);
        }
        i = i + 1;
    }
    proof {
        assert(user_hits@.take(user_hits@.len() as int) =~= user_hits@);
    }
    out
}

} // verus!
