//! The pattern to be played: one ordered list of beat offsets per instrument.

use vstd::prelude::*;

verus! {

use crate::instrument::{
    all_instruments, all_instruments_seq, instrument_index, instrument_index_spec, Instrument,
    NUM_INSTRUMENTS,
};
use crate::ticks::TICK_LIMIT;

/// The notes to be played on one instrument: offsets within the loop, in
/// scaled ticks.
#[derive(Debug, Clone)]
pub struct Voice {
    pub instrument: Instrument,
    pub beat_timings: Vec<i64>,
}

impl Voice {
    /// An empty voice for `instrument`.
    pub fn new(instrument: Instrument) -> (r: Voice)
        ensures
            r.instrument == instrument,
            r.beat_timings@ == Seq::<i64>::empty(),
    {
        Voice { instrument, beat_timings: Vec::new() }
    }
}

/// The plain shape a loop file stores: one list of beat offsets (scaled
/// ticks) for each of the instruments such files carry.
#[derive(Debug, Clone)]
pub struct VoicesFromJSON {
    pub closed_hihat: Vec<i64>,
    pub snare: Vec<i64>,
    pub kick: Vec<i64>,
    pub open_hihat: Vec<i64>,
    pub ride: Vec<i64>,
    pub crash: Vec<i64>,
}

impl VoicesFromJSON {
    fn new() -> (r: VoicesFromJSON)
        ensures
            r.closed_hihat@ == Seq::<i64>::empty(),
            r.snare@ == Seq::<i64>::empty(),
            r.kick@ == Seq::<i64>::empty(),
            r.open_hihat@ == Seq::<i64>::empty(),
            r.ride@ == Seq::<i64>::empty(),
            r.crash@ == Seq::<i64>::empty(),
    {
        VoicesFromJSON {
            closed_hihat: Vec::new(),
            snare: Vec::new(),
            kick: Vec::new(),
            open_hihat: Vec::new(),
            ride: Vec::new(),
            crash: Vec::new(),
        }
    }

    /// A small fixed pattern, for demonstrations: two closed hi-hat notes.
    pub fn new_mock() -> (r: VoicesFromJSON)
        ensures
            r.closed_hihat@ == seq![10_000i64, 30_000i64],
            r.snare@ == Seq::<i64>::empty(),
            r.kick@ == Seq::<i64>::empty(),
            r.open_hihat@ == Seq::<i64>::empty(),
            r.ride@ == Seq::<i64>::empty(),
            r.crash@ == Seq::<i64>::empty(),
    {
        let mut voices = VoicesFromJSON::new();
        let mut hihat: Vec<i64> = Vec::new();
        hihat.push(10_000);
        hihat.push(30_000);
        voices.closed_hihat = hihat;
        proof {
            assert(voices.closed_hihat@ =~= seq![10_000i64, 30_000i64]);
        }
        voices
    }

    /// The offsets the file gives to `ins`; the instruments a loop file
    /// does not carry get no notes.
    pub open spec fn beats_for(self, ins: Instrument) -> Seq<i64> {
        match ins {
            Instrument::ClosedHihat => self.closed_hihat@,
            Instrument::Snare => self.snare@,
            Instrument::Kick => self.kick@,
            Instrument::OpenHihat => self.open_hihat@,
            Instrument::Ride => self.ride@,
            Instrument::Crash => self.crash@,
            _ => Seq::<i64>::empty(),
        }
    }
}

/// The notes to be played on each instrument: one `Voice` per instrument,
/// in the canonical instrument order.
#[derive(Debug, Clone)]
pub struct Voices {
    pub data: Vec<Voice>,
}

impl Voices {
    /// The structural invariant: every instrument is present, at its
    /// canonical position, and every stored offset is a sane tick value.
    pub open spec fn wf(self) -> bool {
        &&& self.data@.len() == NUM_INSTRUMENTS
        &&& forall|i: int|
            0 <= i < NUM_INSTRUMENTS ==> (#[trigger] self.data@[i]).instrument
                == all_instruments_seq()[i]
        &&& forall|i: int, j: int|
            0 <= i < NUM_INSTRUMENTS && 0 <= j < self.data@[i].beat_timings@.len()
                ==> -TICK_LIMIT <= #[trigger] self.data@[i].beat_timings@[j] <= TICK_LIMIT
    }

    /// The beat offsets of `ins`.
    pub open spec fn beats_of(self, ins: Instrument) -> Seq<i64> {
        self.data@[instrument_index_spec(ins)].beat_timings@
    }

    /// An empty pattern: every instrument present, no notes anywhere.
    pub fn new() -> (r: Voices)
        ensures
            r.wf(),
            forall|ins: Instrument| #[trigger] r.beats_of(ins) == Seq::<i64>::empty(),
    {
        let instruments = all_instruments();
        let mut data: Vec<Voice> = Vec::new();
        let mut i: usize = 0;
        while i < instruments.len()
            invariant
                i <= instruments.len(),
                instruments@ == all_instruments_seq(),
                data@.len() == i,
                forall|k: int|
                    0 <= k < i ==> (#[trigger] data@[k]).instrument == all_instruments_seq()[k],
                forall|k: int|
                    0 <= k < i ==> (#[trigger] data@[k]).beat_timings@ == Seq::<i64>::empty(),
            decreases instruments.len() - i,
        {
            data.push(Voice::new(instruments[i]));
            i = i + 1;
        }
        let r = Voices { data };
        proof {
            assert forall|ins: Instrument| #[trigger] r.beats_of(ins) == Seq::<i64>::empty() by {
                crate::instrument::lemma_instrument_index(ins);
            }
        }
        r
    }

    /// Builds the full pattern out of the lists a loop file carries.
    pub fn new_from_voices_old_model(vo: &VoicesFromJSON) -> (r: Voices)
        requires
            forall|ins: Instrument, j: int|
                0 <= j < vo.beats_for(ins).len() ==> -TICK_LIMIT
                    <= #[trigger] vo.beats_for(ins)[j] <= TICK_LIMIT,
        ensures
            r.wf(),
            forall|ins: Instrument| #[trigger] r.beats_of(ins) == vo.beats_for(ins),
    {
        let instruments = all_instruments();
        let mut data: Vec<Voice> = Vec::new();
        let mut i: usize = 0;
        while i < instruments.len()
            invariant
                i <= instruments.len(),
                instruments@ == all_instruments_seq(),
                data@.len() == i,
                forall|ins: Instrument, j: int|
                    0 <= j < vo.beats_for(ins).len() ==> -TICK_LIMIT
                        <= #[trigger] vo.beats_for(ins)[j] <= TICK_LIMIT,
                forall|k: int|
                    0 <= k < i ==> (#[trigger] data@[k]).instrument == all_instruments_seq()[k],
                forall|k: int|
                    0 <= k < i ==> (#[trigger] data@[k]).beat_timings@ == vo.beats_for(
                        all_instruments_seq()[k],
                    ),
            decreases instruments.len() - i,
        {
            let ins = instruments[i];
            let beat_timings = match ins {
                Instrument::ClosedHihat => vo.closed_hihat.clone(),
                Instrument::Snare => vo.snare.clone(),
                Instrument::Kick => vo.kick.clone(),
                Instrument::OpenHihat => vo.open_hihat.clone(),
                Instrument::Ride => vo.ride.clone(),
                Instrument::Crash => vo.crash.clone(),
                Instrument::Tom1 => Vec::new(),
                Instrument::Tom2 => Vec::new(),
                Instrument::Tom3 => Vec::new(),
                Instrument::PedalHiHat => Vec::new(),
            };
            data.push(Voice { instrument: ins, beat_timings });
            i = i + 1;
        }
        let r = Voices { data };
        proof {
            assert forall|ins: Instrument| #[trigger] r.beats_of(ins) == vo.beats_for(ins) by {
                crate::instrument::lemma_instrument_index(ins);
            }
        }
        r
    }

    /// Adds `beat` to the voice of `ins`, or removes its first occurrence
    /// if the voice already has it.
    pub fn toggle_beat(&mut self, ins: Instrument, beat: i64)
        requires
            old(self).wf(),
            -TICK_LIMIT <= beat <= TICK_LIMIT,
        ensures
            final(self).wf(),
            old(self).beats_of(ins).contains(beat) ==> final(self).beats_of(ins) == old(
                self,
            ).beats_of(ins).remove(old(self).beats_of(ins).index_of_first(beat).unwrap()),
            !old(self).beats_of(ins).contains(beat) ==> final(self).beats_of(ins) == old(
                self,
            ).beats_of(ins).push(beat),
            forall|other: Instrument|
                other != ins ==> #[trigger] final(self).beats_of(other) == old(self).beats_of(
                    other,
                ),
    {
        let idx = instrument_index(ins);
        proof {
            crate::instrument::lemma_instrument_index(ins);
        }
        let mut voice = self.data.remove(idx);
        let ghost old_beats = voice.beat_timings@;
        let mut j: usize = 0;
        let mut found: bool = false;
        let n = voice.beat_timings.len();
        while j < n && !found
            invariant
                voice.beat_timings@ == old_beats,
                n == old_beats.len(),
                j <= n,
                !found ==> forall|k: int| 0 <= k < j ==> old_beats[k] != beat,
                found ==> j < n && old_beats[j as int] == beat && (forall|k: int|
                    0 <= k < j ==> old_beats[k] != beat),
            decreases n - j, (if found { 0int } else { 1int }),
        {
            if voice.beat_timings[j] == beat {
                found = true;
            } else {
                j = j + 1;
            }
        }
        if found {
            proof {
                old_beats.index_of_first_ensures(beat);
            }
            voice.beat_timings.remove(j);
        } else {
            voice.beat_timings.push(beat);
        }
        let ghost new_voice = voice;
        self.data.insert(idx, voice);
        proof {
            assert(self.data@ =~= old(self).data@.update(idx as int, new_voice));
            assert forall|other: Instrument|
                other != ins implies #[trigger] self.beats_of(other) == old(self).beats_of(
                other,
            ) by {
                crate::instrument::lemma_instrument_index(other);
            }
        }
    }

    /// The sample file played for `ins`.
    pub fn get_audio_file_for_instrument(ins: &Instrument) -> (r: &'static str)
        ensures
            r@ == audio_file_path(*ins),
    {
        match ins {
            Instrument::ClosedHihat => "assets/sounds/closed-hihat.wav",
            Instrument::Snare => "assets/sounds/snare.wav",
            Instrument::Kick => "assets/sounds/kick.wav",
            Instrument::OpenHihat => "assets/sounds/open-hihat.wav",
            Instrument::Ride => "assets/sounds/ride.wav",
            Instrument::Crash => "assets/sounds/crash.wav",
            Instrument::Tom1 => "assets/sounds/tom-hi.wav",
            Instrument::Tom2 => "assets/sounds/tom-med.wav",
            Instrument::Tom3 => "assets/sounds/tom-low.wav",
            Instrument::PedalHiHat => "assets/sounds/pedal-hihat.wav",
        }
    }

    /// The beat offsets of `ins`; every instrument is present in a
    /// well-formed pattern, so the lookup always succeeds.
    pub fn get_instrument_beats(&self, ins: &Instrument) -> (r: &Vec<i64>)
        requires
            self.wf(),
        ensures
            r@ == self.beats_of(*ins),
    {
        proof {
            crate::instrument::lemma_instrument_index(*ins);
        }
        let idx = instrument_index(*ins);
        &self.data[idx].beat_timings
    }
}

/// The name of the sample file played for each instrument.
pub open spec fn audio_file_path(ins: Instrument) -> Seq<char> {
    match ins {
        Instrument::ClosedHihat => "assets/sounds/closed-hihat.wav"@,
        Instrument::Snare => "assets/sounds/snare.wav"@,
        Instrument::Kick => "assets/sounds/kick.wav"@,
        Instrument::OpenHihat => "assets/sounds/open-hihat.wav"@,
        Instrument::Ride => "assets/sounds/ride.wav"@,
        Instrument::Crash => "assets/sounds/crash.wav"@,
        Instrument::Tom1 => "assets/sounds/tom-hi.wav"@,
        Instrument::Tom2 => "assets/sounds/tom-med.wav"@,
        Instrument::Tom3 => "assets/sounds/tom-low.wav"@,
        Instrument::PedalHiHat => "assets/sounds/pedal-hihat.wav"@,
    }
}

/// The full information needed to play one stored loop: its tempo, its
/// length in ticks, and its per-instrument offsets.
#[derive(Debug, Clone)]
pub struct Loop {
    pub bpm: usize,
    pub length_in_beats: usize,
    pub voices: VoicesFromJSON,
}

} // verus!
