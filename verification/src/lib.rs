//! Core of a drum-practice trainer.
//!
//! A rhythmic pattern (beat offsets per instrument) loops forever at a
//! configurable tempo.  A look-ahead scheduler turns the advancing logical
//! clock into "play this instrument at that tick" commands, handling loop
//! wraparound; an accuracy engine scores the player's timestamped hits
//! against the pattern with tolerance margins; and a gold-mode progression
//! raises the tempo after repeated perfect loops.
//!
//! Musical time is measured in ticks (two ticks per metronome beat) held in
//! fixed-point integers with four decimal digits, so the tolerance margins
//! and every comparison on them are exact.

pub mod clock;
pub mod game;
pub mod hits;
pub mod instrument;
pub mod midi;
pub mod scheduler;
pub mod score;
pub mod ticks;
pub mod voices;
