//! MIDI note mapping: raw note-on events become user hits.
//!
//! The connection to the device and its callback live outside this crate;
//! what arrives here is the batch of raw messages a frame collected.  Each
//! known drum module maps note numbers to instruments; a raw event whose
//! note number appears in several instruments' sets yields a hit on each.

use vstd::prelude::*;

verus! {

use crate::hits::UserHit;
use crate::instrument::{
    all_instruments, all_instruments_seq, Instrument, NUM_INSTRUMENTS,
};

/// One raw MIDI message as the input callback recorded it.
#[derive(Eq, Clone, Debug, Copy, PartialEq, Structural)]
pub struct MidiInputDataRaw {
    pub note_number: u8,
    pub timestamp: u64,
    pub non_midi_timestamp_ms: u128,
    pub status: u8,
    pub note_velocity: u8,
}

impl MidiInputDataRaw {
    /// Whether the message is a note-on: status bytes 144 through 159
    /// (0x90 through 0x9F, one per MIDI channel).
    pub fn is_note_on(&self) -> (r: bool)
        ensures
            r == (144 <= self.status <= 159),
    {
        self.status >= 144 && self.status <= 159
    }
}

/// Which note numbers a drum module sends for each instrument.
#[derive(Debug, Clone)]
pub struct InputConfigMidi {
    pub kick: Vec<u8>,
    pub snare: Vec<u8>,
    pub closed_hi_hat: Vec<u8>,
    pub open_hi_hat: Vec<u8>,
    pub ride: Vec<u8>,
    pub crash: Vec<u8>,
    pub tom_1: Vec<u8>,
    pub tom_2: Vec<u8>,
    pub tom_3: Vec<u8>,
    pub pedal_hihat: Vec<u8>,
}

impl InputConfigMidi {
    /// The note numbers of `ins`.
    pub open spec fn notes_for(self, ins: Instrument) -> Seq<u8> {
        match ins {
            Instrument::ClosedHihat => self.closed_hi_hat@,
            Instrument::Snare => self.snare@,
            Instrument::Kick => self.kick@,
            Instrument::OpenHihat => self.open_hi_hat@,
            Instrument::Ride => self.ride@,
            Instrument::Crash => self.crash@,
            Instrument::Tom1 => self.tom_1@,
            Instrument::Tom2 => self.tom_2@,
            Instrument::Tom3 => self.tom_3@,
            Instrument::PedalHiHat => self.pedal_hihat@,
        }
    }

    /// The note numbers the module sends for `ins`.
    pub fn get_note_numbers(&self, ins: &Instrument) -> (r: &Vec<u8>)
        ensures
            r@ == self.notes_for(*ins),
    {
        match ins {
            Instrument::ClosedHihat => &self.closed_hi_hat,
            Instrument::Snare => &self.snare,
            Instrument::Kick => &self.kick,
            Instrument::OpenHihat => &self.open_hi_hat,
            Instrument::Ride => &self.ride,
            Instrument::Crash => &self.crash,
            Instrument::Tom1 => &self.tom_1,
            Instrument::Tom2 => &self.tom_2,
            Instrument::Tom3 => &self.tom_3,
            Instrument::PedalHiHat => &self.pedal_hihat,
        }
    }
}

/// The hits one raw message yields against the first `n` instruments of
/// the canonical order.
pub open spec fn hits_for_midi_upto(cfg: InputConfigMidi, m: MidiInputDataRaw, n: int) -> Seq<
    UserHit,
>
    decreases n,
{
    if n <= 0 {
        Seq::<UserHit>::empty()
    } else {
        let rest = hits_for_midi_upto(cfg, m, n - 1);
        let ins = all_instruments_seq()[n - 1];
        if cfg.notes_for(ins).contains(m.note_number) {
            rest.push(UserHit { instrument: ins, clock_tick: m.timestamp as i64 })
        } else {
            rest
        }
    }
}

/// The hits a batch of raw messages yields, in batch order; the raw
/// timestamp rides along in the hit's tick field for the caller to
/// correct.
pub open spec fn midi_hits(cfg: InputConfigMidi, pressed: Seq<MidiInputDataRaw>) -> Seq<UserHit>
    decreases pressed.len(),
{
    if pressed.len() == 0 {
        Seq::<UserHit>::empty()
    } else {
        midi_hits(cfg, pressed.drop_last()) + hits_for_midi_upto(
            cfg,
            pressed.last(),
            NUM_INSTRUMENTS as int,
        )
    }
}

/// Maps a frame's raw note-on messages to user hits through a module's
/// note tables.
pub fn get_midi_as_user_hits(cfg: &InputConfigMidi, pressed: &Vec<MidiInputDataRaw>) -> (r: Vec<
    UserHit,
>)
    ensures
        r@ == midi_hits(*cfg, pressed@),
{
    let mut out: Vec<UserHit> = Vec::new();
    let mut i: usize = 0;
    while i < pressed.len()
        invariant
            i <= pressed@.len(),
            out@ == midi_hits(*cfg, pressed@.take(i as int)),
        decreases pressed@.len() - i,
    {
        proof {
            assert(pressed@.take(i + 1).drop_last() =~= pressed@.take(i as int));
            assert(pressed@.take(i + 1).last() == pressed@[i as int]);
        }
        let midi = pressed[i];
        let instruments = all_instruments();
        let ghost before = out@;
        let mut j: usize = 0;
        while j < instruments.len()
            invariant
                j <= instruments@.len(),
                instruments@ == all_instruments_seq(),
                out@ == before + hits_for_midi_upto(*cfg, midi, j as int),
            decreases instruments@.len() - j,
        {
            let ins = instruments[j];
            if contains_u8(cfg.get_note_numbers(&ins), midi.note_number) {
                out.push(UserHit::new(ins, midi.timestamp as i64));
            }
            j = j + 1;
        }
        i = i + 1;
    }
    proof {
        assert(pressed@.take(pressed@.len() as int) =~= pressed@);
    }
    out
}

/// Whether `x` occurs in `v`.
fn contains_u8(v: &Vec<u8>, x: u8) -> (r: bool)
    ensures
        r == v@.contains(x),
{
    let mut i: usize = 0;
    while i < v.len()
        invariant
            i <= v@.len(),
            forall|k: int| 0 <= k < i ==> v@[k] != x,
        decreases v@.len() - i,
    {
        if v[i] == x {
            return true;
        }
        i = i + 1;
    }
    false
}

/// Which of the known drum modules a connected device is.
#[derive(Debug, PartialEq, Eq, Structural, Clone, Copy)]
pub enum MidiDevice {
    MpkMiniMkII,
    Td17,
    Td27,
    AlesisNitro,
}

/// The note table of each known drum module.
pub open spec fn device_notes(d: MidiDevice, ins: Instrument) -> Seq<u8> {
    match d {
        MidiDevice::MpkMiniMkII => match ins {
            Instrument::ClosedHihat => seq![44u8, 48u8],
            Instrument::Snare => seq![45u8, 49u8],
            Instrument::Kick => seq![46u8, 50u8],
            Instrument::OpenHihat => seq![47u8, 51u8],
            _ => Seq::<u8>::empty(),
        },
        MidiDevice::Td17 => match ins {
            Instrument::ClosedHihat => seq![42u8, 22u8],
            Instrument::Snare => seq![38u8, 40u8, 37u8],
            Instrument::Kick => seq![36u8],
            Instrument::OpenHihat => seq![46u8, 26u8],
            Instrument::Ride => seq![51u8, 53u8, 59u8],
            Instrument::Crash => seq![49u8, 55u8, 57u8, 52u8],
            Instrument::Tom1 => seq![50u8, 48u8],
            Instrument::Tom2 => seq![47u8, 45u8],
            Instrument::Tom3 => seq![58u8, 43u8],
            Instrument::PedalHiHat => seq![44u8],
        },
        MidiDevice::Td27 => match ins {
            Instrument::ClosedHihat => seq![42u8, 22u8],
            Instrument::Snare => seq![38u8, 40u8, 37u8],
            Instrument::Kick => seq![36u8],
            Instrument::OpenHihat => seq![46u8, 26u8],
            Instrument::Ride => seq![51u8, 53u8, 59u8],
            Instrument::Crash => seq![49u8, 55u8, 57u8, 52u8],
            Instrument::Tom1 => seq![50u8, 48u8],
            Instrument::Tom2 => seq![47u8, 45u8],
            Instrument::Tom3 => seq![58u8, 43u8],
            Instrument::PedalHiHat => seq![44u8],
        },
        MidiDevice::AlesisNitro => match ins {
            Instrument::ClosedHihat => seq![42u8],
            Instrument::Snare => seq![38u8],
            Instrument::Kick => seq![36u8],
            Instrument::OpenHihat => seq![46u8, 23u8],
            _ => Seq::<u8>::empty(),
        },
    }
}

/// Builds the note table of a known drum module.
pub fn device_config(d: MidiDevice) -> (r: InputConfigMidi)
    ensures
        forall|ins: Instrument| #[trigger] r.notes_for(ins) == device_notes(d, ins),
{
    let r = match d {
        MidiDevice::MpkMiniMkII => InputConfigMidi {
            closed_hi_hat: vec_u8_2(44, 48),
            snare: vec_u8_2(45, 49),
            kick: vec_u8_2(46, 50),
            open_hi_hat: vec_u8_2(47, 51),
            ride: Vec::new(),
            crash: Vec::new(),
            tom_1: Vec::new(),
            tom_2: Vec::new(),
            tom_3: Vec::new(),
            pedal_hihat: Vec::new(),
        },
        MidiDevice::Td17 => td_module_config(),
        MidiDevice::Td27 => td_module_config(),
        MidiDevice::AlesisNitro => InputConfigMidi {
            closed_hi_hat: vec_u8_1(42),
            snare: vec_u8_1(38),
            kick: vec_u8_1(36),
            open_hi_hat: vec_u8_2(46, 23),
            ride: Vec::new(),
            crash: Vec::new(),
            tom_1: Vec::new(),
            tom_2: Vec::new(),
            tom_3: Vec::new(),
            pedal_hihat: Vec::new(),
        },
    };
    proof {
        assert forall|ins: Instrument| #[trigger] r.notes_for(ins) == device_notes(d, ins) by {
            match ins {
                Instrument::ClosedHihat => {},
                Instrument::Snare => {},
                Instrument::Kick => {},
                Instrument::OpenHihat => {},
                Instrument::PedalHiHat => {},
                Instrument::Ride => {},
                Instrument::Tom1 => {},
                Instrument::Tom2 => {},
                Instrument::Tom3 => {},
                Instrument::Crash => {},
            }
        }
    }
    r
}

/// The note table the Roland TD-17 and TD-27 modules share.
fn td_module_config() -> (r: InputConfigMidi)
    ensures
        r.closed_hi_hat@ == seq![42u8, 22u8],
        r.snare@ == seq![38u8, 40u8, 37u8],
        r.kick@ == seq![36u8],
        r.open_hi_hat@ == seq![46u8, 26u8],
        r.ride@ == seq![51u8, 53u8, 59u8],
        r.crash@ == seq![49u8, 55u8, 57u8, 52u8],
        r.tom_1@ == seq![50u8, 48u8],
        r.tom_2@ == seq![47u8, 45u8],
        r.tom_3@ == seq![58u8, 43u8],
        r.pedal_hihat@ == seq![44u8],
{
    let mut snare: Vec<u8> = Vec::new();
    snare.push(38);
    snare.push(40);
    snare.push(37);
    let mut ride: Vec<u8> = Vec::new();
    ride.push(51);
    ride.push(53);
    ride.push(59);
    let mut crash: Vec<u8> = Vec::new();
    crash.push(49);
    crash.push(55);
    crash.push(57);
    crash.push(52);
    let r = InputConfigMidi {
        closed_hi_hat: vec_u8_2(42, 22),
        snare,
        kick: vec_u8_1(36),
        open_hi_hat: vec_u8_2(46, 26),
        ride,
        crash,
        tom_1: vec_u8_2(50, 48),
        tom_2: vec_u8_2(47, 45),
        tom_3: vec_u8_2(58, 43),
        pedal_hihat: vec_u8_1(44),
    };
    proof {
        assert(r.snare@ =~= seq![38u8, 40u8, 37u8]);
        assert(r.ride@ =~= seq![51u8, 53u8, 59u8]);
        assert(r.crash@ =~= seq![49u8, 55u8, 57u8, 52u8]);
    }
    r
}

/// A one-element note list.
fn vec_u8_1(a: u8) -> (r: Vec<u8>)
    ensures
        r@ == seq![a],
{
    let mut v: Vec<u8> = Vec::new();
    v.push(a);
    proof {
        assert(v@ =~= seq![a]);
    }
    v
}

/// A two-element note list.
fn vec_u8_2(a: u8, b: u8) -> (r: Vec<u8>)
    ensures
        r@ == seq![a, b],
{
    let mut v: Vec<u8> = Vec::new();
    v.push(a);
    v.push(b);
    proof {
        assert(v@ =~= seq![a, b]);
    }
    v
}

} // verus!
