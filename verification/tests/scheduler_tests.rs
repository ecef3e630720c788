use drum_break::instrument::Instrument;
use drum_break::scheduler::{
    get_volume, metronome_notes, schedule_voice_window, schedule_window, PlayCommand,
};
use drum_break::ticks::{DEFAULT_BEATS_PER_LOOP, TICK_SCALE, TICK_SCHEDULE_AHEAD};
use drum_break::voices::Voices;

const LOOP_LEN: i64 = (DEFAULT_BEATS_PER_LOOP as i64) * TICK_SCALE;

#[test]
fn wraparound_schedules_the_downbeat_exactly_once() {
    // window 15.5 .. 16.5 of a 16-beat loop: the note at beat 0 fires at
    // absolute tick 16 — not at 0, and only once
    let notes = vec![0];
    let ticks = schedule_voice_window(&notes, 155_000, 165_000, LOOP_LEN);
    assert_eq!(ticks, vec![160_000]);
}

#[test]
fn no_note_fires_twice_across_adjacent_windows() {
    let notes = vec![0];
    let first = schedule_voice_window(&notes, 155_000, 165_000, LOOP_LEN);
    assert_eq!(first, vec![160_000]);
    let second = schedule_voice_window(&notes, 165_000, 175_000, LOOP_LEN);
    assert_eq!(second, Vec::<i64>::new());
}

#[test]
fn session_start_schedules_beat_zero() {
    // the sentinel horizon sits one tick below zero, so the first window
    // catches beat 0 through the ordinary branch
    let notes = vec![0, TICK_SCALE];
    let ticks = schedule_voice_window(&notes, -TICK_SCALE, 2 * TICK_SCALE, LOOP_LEN);
    assert_eq!(ticks, vec![0, TICK_SCALE]);
}

#[test]
fn window_splits_across_the_loop_boundary() {
    let notes = vec![5_000, 150_000];
    let ticks = schedule_voice_window(&notes, 145_000, 165_000, LOOP_LEN);
    // beat 0.5 falls at the start of the next loop, beat 15 at the end of this one
    assert_eq!(ticks, vec![165_000, 150_000]);
}

#[test]
fn later_loops_offset_by_whole_loops() {
    let notes = vec![10_000];
    let ticks = schedule_voice_window(&notes, 320_500, 335_000, LOOP_LEN);
    assert_eq!(ticks, vec![2 * LOOP_LEN + 10_000]);
}

#[test]
fn schedule_window_is_a_no_op_behind_the_horizon() {
    let mut voices = Voices::new();
    voices.toggle_beat(Instrument::Kick, 0);
    let (commands, horizon) = schedule_window(&voices, 10_000, 20_000, TICK_SCHEDULE_AHEAD,
        DEFAULT_BEATS_PER_LOOP);
    assert_eq!(commands, Vec::<PlayCommand>::new());
    assert_eq!(horizon, 20_000);
}

#[test]
fn schedule_window_advances_the_horizon_by_the_look_ahead() {
    let mut voices = Voices::new();
    voices.toggle_beat(Instrument::Kick, TICK_SCALE);
    let (commands, horizon) =
        schedule_window(&voices, 5_000, 0, TICK_SCHEDULE_AHEAD, DEFAULT_BEATS_PER_LOOP);
    assert_eq!(horizon, 5_000 + TICK_SCHEDULE_AHEAD);
    assert_eq!(
        commands,
        vec![PlayCommand { instrument: Instrument::Kick, tick: TICK_SCALE }]
    );
}

#[test]
fn horizon_never_moves_backward() {
    let voices = Voices::new();
    let (_, h1) = schedule_window(&voices, 5_000, -TICK_SCALE, TICK_SCHEDULE_AHEAD,
        DEFAULT_BEATS_PER_LOOP);
    let (_, h2) = schedule_window(&voices, 5_000, h1, TICK_SCHEDULE_AHEAD,
        DEFAULT_BEATS_PER_LOOP);
    let (_, h3) = schedule_window(&voices, 30_000, h2, TICK_SCHEDULE_AHEAD,
        DEFAULT_BEATS_PER_LOOP);
    assert!(h1 <= h2 && h2 <= h3);
    assert_eq!(h1, 25_000);
    assert_eq!(h2, 25_000);
    assert_eq!(h3, 50_000);
}

#[test]
fn commands_carry_their_instruments() {
    let mut voices = Voices::new();
    voices.toggle_beat(Instrument::Kick, TICK_SCALE);
    voices.toggle_beat(Instrument::Snare, 5_000);
    let (commands, _) =
        schedule_window(&voices, 1, 0, TICK_SCHEDULE_AHEAD, DEFAULT_BEATS_PER_LOOP);
    // the snare precedes the kick in the canonical instrument order
    assert_eq!(
        commands,
        vec![
            PlayCommand { instrument: Instrument::Snare, tick: 5_000 },
            PlayCommand { instrument: Instrument::Kick, tick: TICK_SCALE },
        ]
    );
}

#[test]
fn metronome_clicks_on_quarter_notes() {
    let notes = metronome_notes();
    assert_eq!(
        notes,
        vec![0, 20_000, 40_000, 60_000, 80_000, 100_000, 120_000, 140_000]
    );
}

#[test]
fn volumes_follow_the_mix_table() {
    assert_eq!(get_volume(&Instrument::Kick), 1000);
    assert_eq!(get_volume(&Instrument::Snare), 1000);
    assert_eq!(get_volume(&Instrument::ClosedHihat), 1000);
    assert_eq!(get_volume(&Instrument::OpenHihat), 500);
    assert_eq!(get_volume(&Instrument::PedalHiHat), 500);
    assert_eq!(get_volume(&Instrument::Ride), 150);
    assert_eq!(get_volume(&Instrument::Crash), 400);
    assert_eq!(get_volume(&Instrument::Tom1), 250);
    assert_eq!(get_volume(&Instrument::Tom2), 250);
    assert_eq!(get_volume(&Instrument::Tom3), 250);
}
