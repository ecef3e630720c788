//! Timestamped user hits.
//!
//! A hit records which instrument the player struck and the clock tick at
//! which the strike is deemed to have happened, already corrected for the
//! estimated input latency.  Hits are only ever appended to the session's
//! log; the accuracy engine reads them, it never changes them.

use vstd::prelude::*;

verus! {

use crate::instrument::Instrument;
use crate::ticks::{tmod, tick_rem, loop_ticks, loop_ticks_spec, TICK_LIMIT};

/// One user hit: an instrument and the (scaled, latency-corrected) clock
/// tick of the strike.
#[derive(Debug, Clone, Copy)]
pub struct UserHit {
    pub instrument: Instrument,
    pub clock_tick: i64,
}

impl UserHit {
    /// A hit of `instrument` at `clock_tick`.
    pub fn new(instrument: Instrument, clock_tick: i64) -> (r: UserHit)
        ensures
            r.instrument == instrument,
            r.clock_tick == clock_tick,
    {
        UserHit { instrument, clock_tick }
    }

    /// Position of the hit within its loop, in scaled ticks: the clock tick
    /// reduced modulo the loop length (truncating, so a pre-session tick
    /// stays negative, as a continuous clock reading would).
    pub fn beat(&self, beats_per_loop: usize) -> (r: i64)
        requires
            0 < beats_per_loop <= 0x10_0000,
            self.clock_tick > i64::MIN,
        ensures
            r == tmod(self.clock_tick as int, loop_ticks_spec(beats_per_loop as int)),
    {
        let l = loop_ticks(beats_per_loop);
        tick_rem(self.clock_tick, l)
    }
}

/// Appends to the hit log a hit of `instrument` at the current clock tick
/// `now`, moved back by the estimated processing delay.
pub fn track_user_hit(hits: &mut Vec<UserHit>, instrument: Instrument, now: i64, delay: i64)
    requires
        -TICK_LIMIT <= now <= TICK_LIMIT,
        -TICK_LIMIT <= delay <= TICK_LIMIT,
    ensures
        final(hits)@ == old(hits)@.push(
            UserHit { instrument, clock_tick: (now - delay) as i64 },
        ),
{
    hits.push(UserHit::new(instrument, now - delay));
}

} // verus!
