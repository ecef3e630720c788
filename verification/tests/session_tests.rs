use drum_break::clock::{
    check_new_beat, clamp_bpm, current_beat, current_loop, delay_to_ticks, micros_per_tick,
    track_for_calibration, TxMsg, DEFAULT_BPM, MAX_BPM, MIN_BPM,
};
use drum_break::game::{
    process_starting_loop, update_gold_mode, GoldMode, GOLD_MODE_BPM_STEP,
    GOLD_MODE_CORRECT_TAKES,
};
use drum_break::hits::{track_user_hit, UserHit};
use drum_break::instrument::{all_instruments, instrument_index, Instrument};
use drum_break::midi::{
    device_config, get_midi_as_user_hits, MidiDevice, MidiInputDataRaw,
};
use drum_break::score::Score;
use drum_break::ticks::{DEFAULT_BEATS_PER_LOOP, TICK_SCALE};
use drum_break::voices::{Voices, VoicesFromJSON};

#[test]
fn gold_mode_steps_after_three_perfect_loops() {
    let mut gold = GoldMode { correct_takes: 0, was_gold: false };
    assert!(!update_gold_mode(&mut gold, true));
    assert_eq!(gold.correct_takes, 1);
    assert!(!update_gold_mode(&mut gold, true));
    assert_eq!(gold.correct_takes, 2);
    assert!(update_gold_mode(&mut gold, true));
    assert_eq!(gold.correct_takes, 0);
    assert!(gold.was_gold);
    // the step raises the tempo by exactly the configured amount
    let bpm = DEFAULT_BPM;
    let raised = clamp_bpm(bpm as i64 + GOLD_MODE_BPM_STEP as i64);
    assert_eq!(raised, bpm + GOLD_MODE_BPM_STEP);
}

#[test]
fn gold_mode_resets_on_an_imperfect_loop() {
    let mut gold = GoldMode { correct_takes: 2, was_gold: false };
    assert!(!update_gold_mode(&mut gold, false));
    assert_eq!(gold.correct_takes, 0);
    assert!(!gold.was_gold);
    // the run starts over: two more perfect loops do not step
    assert!(!update_gold_mode(&mut gold, true));
    assert!(!update_gold_mode(&mut gold, true));
    assert_eq!(gold.correct_takes, 2);
}

#[test]
fn processing_a_perfect_loop_drives_the_progression() {
    let mut pattern = Voices::new();
    pattern.toggle_beat(Instrument::Kick, 0);
    let hits = vec![UserHit::new(Instrument::Kick, 0)];
    let mut gold = GoldMode { correct_takes: 0, was_gold: false };
    let mut bpm = DEFAULT_BPM;

    for take in 1..=GOLD_MODE_CORRECT_TAKES {
        let (_, score, new_bpm) =
            process_starting_loop(&mut gold, &hits, &pattern, DEFAULT_BEATS_PER_LOOP, bpm);
        assert_eq!(score, Score { points: 2, max_points: 2 });
        if take == GOLD_MODE_CORRECT_TAKES {
            assert!(gold.was_gold);
            assert_eq!(new_bpm, DEFAULT_BPM + GOLD_MODE_BPM_STEP);
        } else {
            assert!(!gold.was_gold);
            assert_eq!(new_bpm, bpm);
        }
        bpm = new_bpm;
    }
    assert_eq!(gold.correct_takes, 0);
}

#[test]
fn processing_an_empty_pattern_never_goes_gold() {
    let pattern = Voices::new();
    let hits: Vec<UserHit> = vec![];
    let mut gold = GoldMode { correct_takes: 2, was_gold: false };
    let (_, score, new_bpm) =
        process_starting_loop(&mut gold, &hits, &pattern, DEFAULT_BEATS_PER_LOOP, DEFAULT_BPM);
    assert_eq!(score, Score { points: 0, max_points: 0 });
    assert_eq!(gold.correct_takes, 0);
    assert!(!gold.was_gold);
    assert_eq!(new_bpm, DEFAULT_BPM);
}

#[test]
fn bpm_is_clamped_to_the_transport_range() {
    assert_eq!(clamp_bpm(MIN_BPM as i64 - 1), MIN_BPM);
    assert_eq!(clamp_bpm(MAX_BPM as i64 + 1), MAX_BPM);
    assert_eq!(clamp_bpm(100), 100);
    // a gold step at the ceiling stays at the ceiling
    assert_eq!(clamp_bpm(MAX_BPM as i64 + GOLD_MODE_BPM_STEP as i64), MAX_BPM);
}

#[test]
fn tick_rate_follows_the_tempo() {
    // at 60 bpm the clock runs two ticks per second
    assert_eq!(micros_per_tick(60), 500_000);
    assert_eq!(micros_per_tick(120), 250_000);
    // one second of input delay at 60 bpm spans two ticks
    assert_eq!(delay_to_ticks(60, 1_000_000), 2 * TICK_SCALE);
    assert_eq!(delay_to_ticks(120, 250_000), TICK_SCALE);
}

#[test]
fn hits_are_logged_with_the_latency_correction() {
    let mut hits: Vec<UserHit> = vec![];
    track_user_hit(&mut hits, Instrument::Snare, 50_000, 2_000);
    assert_eq!(hits.len(), 1);
    assert_eq!(hits[0].instrument, Instrument::Snare);
    assert_eq!(hits[0].clock_tick, 48_000);
    // a correction may push a hit before the session start
    track_user_hit(&mut hits, Instrument::Kick, 500, 2_000);
    assert_eq!(hits[1].clock_tick, -1_500);
}

#[test]
fn hit_beats_reduce_into_the_loop() {
    let hit = UserHit::new(Instrument::Kick, 165_000);
    assert_eq!(hit.beat(DEFAULT_BEATS_PER_LOOP), 5_000);
    let early = UserHit::new(Instrument::Kick, -500);
    assert_eq!(early.beat(DEFAULT_BEATS_PER_LOOP), -500);
}

#[test]
fn loop_boundaries_emit_starting_loop_messages() {
    // the clock sits on beat 0 of loop 0 and the last seen beat differs
    let (beat, msg) = check_new_beat(-1, 0, DEFAULT_BEATS_PER_LOOP);
    assert_eq!(beat, 0);
    assert_eq!(msg, Some(TxMsg::StartingLoop(0)));
    // crossing into loop 1
    let (beat, msg) = check_new_beat(15, 165_000, DEFAULT_BEATS_PER_LOOP);
    assert_eq!(beat, 0);
    assert_eq!(msg, Some(TxMsg::StartingLoop(1)));
    // still on the same beat: no message
    let (beat, msg) = check_new_beat(0, 5_000, DEFAULT_BEATS_PER_LOOP);
    assert_eq!(beat, 0);
    assert_eq!(msg, None);
    // a beat inside the loop is never a loop start
    let (beat, msg) = check_new_beat(0, 35_000, DEFAULT_BEATS_PER_LOOP);
    assert_eq!(beat, 3);
    assert_eq!(msg, None);
}

#[test]
fn calibration_averages_the_drift_from_whole_ticks() {
    let mut samples: Vec<i64> = vec![];
    // one tap 0.04 ticks after the first whole tick
    let avg = track_for_calibration(&mut samples, 10_400);
    assert_eq!(avg, 400);
    // a second tap 0.04 ticks early: the drifts cancel
    let avg = track_for_calibration(&mut samples, 19_600);
    assert_eq!(avg, 0);
    assert_eq!(samples, vec![10_400, 19_600]);
}

#[test]
fn calibration_window_keeps_five_samples() {
    let mut samples: Vec<i64> = vec![];
    for _ in 0..7 {
        track_for_calibration(&mut samples, 10_100);
    }
    assert_eq!(samples.len(), 5);
    assert_eq!(samples, vec![10_100; 5]);
}

#[test]
fn toggling_adds_and_removes_beats() {
    let mut voices = Voices::new();
    voices.toggle_beat(Instrument::Snare, 20_000);
    voices.toggle_beat(Instrument::Snare, 40_000);
    assert_eq!(
        voices.get_instrument_beats(&Instrument::Snare),
        &vec![20_000, 40_000]
    );
    // toggling an existing beat removes it
    voices.toggle_beat(Instrument::Snare, 20_000);
    assert_eq!(voices.get_instrument_beats(&Instrument::Snare), &vec![40_000]);
    // other instruments stay empty
    assert_eq!(voices.get_instrument_beats(&Instrument::Kick), &Vec::<i64>::new());
}

#[test]
fn loop_files_fill_only_their_own_voices() {
    let model = VoicesFromJSON::new_mock();
    let voices = Voices::new_from_voices_old_model(&model);
    assert_eq!(
        voices.get_instrument_beats(&Instrument::ClosedHihat),
        &vec![TICK_SCALE, 3 * TICK_SCALE]
    );
    assert_eq!(voices.get_instrument_beats(&Instrument::Tom1), &Vec::<i64>::new());
}

#[test]
fn canonical_instrument_order_is_stable() {
    let all = all_instruments();
    assert_eq!(all.len(), 10);
    for (i, ins) in all.iter().enumerate() {
        assert_eq!(instrument_index(*ins), i);
    }
    assert_eq!(all[0], Instrument::Crash);
    assert_eq!(all[8], Instrument::Kick);
}

#[test]
fn note_on_status_bytes_span_the_sixteen_channels() {
    let mut raw = MidiInputDataRaw {
        note_number: 38,
        timestamp: 0,
        non_midi_timestamp_ms: 0,
        status: 144,
        note_velocity: 100,
    };
    assert!(raw.is_note_on());
    raw.status = 159;
    assert!(raw.is_note_on());
    raw.status = 143;
    assert!(!raw.is_note_on());
    raw.status = 160;
    assert!(!raw.is_note_on());
}

#[test]
fn midi_notes_map_to_instruments_per_device() {
    let td17 = device_config(MidiDevice::Td17);
    let pressed = vec![
        MidiInputDataRaw {
            note_number: 38,
            timestamp: 1_000,
            non_midi_timestamp_ms: 0,
            status: 144,
            note_velocity: 90,
        },
        MidiInputDataRaw {
            note_number: 36,
            timestamp: 2_000,
            non_midi_timestamp_ms: 0,
            status: 144,
            note_velocity: 90,
        },
    ];
    let hits = get_midi_as_user_hits(&td17, &pressed);
    assert_eq!(hits.len(), 2);
    assert_eq!(hits[0].instrument, Instrument::Snare);
    assert_eq!(hits[0].clock_tick, 1_000);
    assert_eq!(hits[1].instrument, Instrument::Kick);
    assert_eq!(hits[1].clock_tick, 2_000);

    // note 44 is the closed hi-hat on the MPK pad but the pedal on a TD-17
    let pad = MidiInputDataRaw {
        note_number: 44,
        timestamp: 3_000,
        non_midi_timestamp_ms: 0,
        status: 144,
        note_velocity: 90,
    };
    let mpk = device_config(MidiDevice::MpkMiniMkII);
    let from_mpk = get_midi_as_user_hits(&mpk, &vec![pad]);
    assert_eq!(from_mpk.len(), 1);
    assert_eq!(from_mpk[0].instrument, Instrument::ClosedHihat);
    let from_td = get_midi_as_user_hits(&td17, &vec![pad]);
    assert_eq!(from_td.len(), 1);
    assert_eq!(from_td[0].instrument, Instrument::PedalHiHat);

    // an unmapped note yields nothing
    let stray = MidiInputDataRaw {
        note_number: 99,
        timestamp: 4_000,
        non_midi_timestamp_ms: 0,
        status: 144,
        note_velocity: 90,
    };
    let nitro = device_config(MidiDevice::AlesisNitro);
    assert_eq!(get_midi_as_user_hits(&nitro, &vec![stray]).len(), 0);
}

#[test]
fn sample_paths_follow_the_instrument() {
    assert_eq!(
        Voices::get_audio_file_for_instrument(&Instrument::Kick),
        "assets/sounds/kick.wav"
    );
    assert_eq!(
        Voices::get_audio_file_for_instrument(&Instrument::PedalHiHat),
        "assets/sounds/pedal-hihat.wav"
    );
}

#[test]
fn toggling_a_duplicated_beat_removes_one_occurrence() {
    let mut model = VoicesFromJSON::new_mock();
    model.closed_hihat = vec![TICK_SCALE, TICK_SCALE];
    let mut voices = Voices::new_from_voices_old_model(&model);
    voices.toggle_beat(Instrument::ClosedHihat, TICK_SCALE);
    assert_eq!(
        voices.get_instrument_beats(&Instrument::ClosedHihat),
        &vec![TICK_SCALE]
    );
}

#[test]
fn clock_positions_split_into_loop_and_beat() {
    assert_eq!(current_beat(165_000, DEFAULT_BEATS_PER_LOOP), 5_000);
    assert_eq!(current_loop(165_000, DEFAULT_BEATS_PER_LOOP), 1);
    assert_eq!(current_beat(0, DEFAULT_BEATS_PER_LOOP), 0);
    assert_eq!(current_loop(0, DEFAULT_BEATS_PER_LOOP), 0);
    assert_eq!(current_loop(320_000, DEFAULT_BEATS_PER_LOOP), 2);
}
