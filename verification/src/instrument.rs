//! The closed set of drum-kit instruments and their canonical ordering.

use vstd::prelude::*;

verus! {

/// One instrument of the drum kit.  Used as the key of every
/// per-instrument table in the crate.
#[derive(Debug, Clone, Copy, PartialEq, Eq, Hash, Structural)]
pub enum Instrument {
    ClosedHihat,
    Snare,
    Kick,
    OpenHihat,
    PedalHiHat,
    Ride,
    Tom1,
    Tom2,
    Tom3,
    Crash,
}

/// How many instruments there are.
pub const NUM_INSTRUMENTS: usize = 10;

/// The canonical ordering of the instruments: every per-instrument table
/// (pattern voices, loop summaries) stores one entry per instrument in
/// this order.
pub open spec fn all_instruments_seq() -> Seq<Instrument> {
    seq![
        Instrument::Crash,
        Instrument::Ride,
        Instrument::OpenHihat,
        Instrument::ClosedHihat,
        Instrument::Tom1,
        Instrument::Tom2,
        Instrument::Tom3,
        Instrument::Snare,
        Instrument::Kick,
        Instrument::PedalHiHat,
    ]
}

/// Position of an instrument in `all_instruments_seq`.
pub open spec fn instrument_index_spec(ins: Instrument) -> int {
    match ins {
        Instrument::Crash => 0,
        Instrument::Ride => 1,
        Instrument::OpenHihat => 2,
        Instrument::ClosedHihat => 3,
        Instrument::Tom1 => 4,
        Instrument::Tom2 => 5,
        Instrument::Tom3 => 6,
        Instrument::Snare => 7,
        Instrument::Kick => 8,
        Instrument::PedalHiHat => 9,
    }
}

/// The index really is the position of the instrument in the canonical
/// ordering, and distinct instruments get distinct indices.
pub proof fn lemma_instrument_index(ins: Instrument)
    ensures
        0 <= instrument_index_spec(ins) < NUM_INSTRUMENTS,
        all_instruments_seq()[instrument_index_spec(ins)] == ins,
{
}

/// All instruments, in the canonical order.
pub fn all_instruments() -> (r: Vec<Instrument>)
    ensures
        r@ == all_instruments_seq(),
{
    let mut v: Vec<Instrument> = Vec::new();
    v.push(Instrument::Crash);
    v.push(Instrument::Ride);
    v.push(Instrument::OpenHihat);
    v.push(Instrument::ClosedHihat);
    v.push(Instrument::Tom1);
    v.push(Instrument::Tom2);
    v.push(Instrument::Tom3);
    v.push(Instrument::Snare);
    v.push(Instrument::Kick);
    v.push(Instrument::PedalHiHat);
    proof {
        assert(v@ =~= all_instruments_seq());
    }
    v
}

/// Position of an instrument in the canonical order.
pub fn instrument_index(ins: Instrument) -> (r: usize)
    ensures
        r == instrument_index_spec(ins),
{
    match ins {
        Instrument::Crash => 0,
        Instrument::Ride => 1,
        Instrument::OpenHihat => 2,
        Instrument::ClosedHihat => 3,
        Instrument::Tom1 => 4,
        Instrument::Tom2 => 5,
        Instrument::Tom3 => 6,
        Instrument::Snare => 7,
        Instrument::Kick => 8,
        Instrument::PedalHiHat => 9,
    }
}

} // verus!
