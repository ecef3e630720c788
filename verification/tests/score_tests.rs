use drum_break::hits::UserHit;
use drum_break::instrument::Instrument;
use drum_break::score::{
    compute_accuracy_of_single_hit, compute_last_loop_summary, compute_loop_performance_for_voice,
    get_hits_from_nth_loop, get_user_hit_timings_by_instrument, Accuracies, Accuracy, Score,
};
use drum_break::ticks::{CORRECT_MARGIN, DEFAULT_BEATS_PER_LOOP, MISS_MARGIN, TICK_SCALE};
use drum_break::voices::Voices;

#[test]
fn it_computes_accuracy_against_one_note() {
    let compute_accuracy_legacy = |user_beat_with_latency: i64, desired_hits: &Vec<i64>| {
        compute_accuracy_of_single_hit(user_beat_with_latency, desired_hits, DEFAULT_BEATS_PER_LOOP)
            .0
    };

    // exactly correct
    let result = compute_accuracy_legacy(0, &vec![0]);
    assert_eq!(result, Accuracy::Correct);

    // within (at) the correct margin
    let result = compute_accuracy_legacy(CORRECT_MARGIN, &vec![0]);
    assert_eq!(result, Accuracy::Correct);

    let result = compute_accuracy_legacy(-CORRECT_MARGIN, &vec![0]);
    assert_eq!(result, Accuracy::Correct);

    // between the correct margin and the miss margin
    let late = CORRECT_MARGIN + (MISS_MARGIN - CORRECT_MARGIN) / 2;
    let result = compute_accuracy_legacy(late, &vec![0]);
    assert_eq!(result, Accuracy::Late);

    let result = compute_accuracy_legacy(-late, &vec![0]);
    assert_eq!(result, Accuracy::Early);

    // exactly at the miss margin
    let almost_miss = MISS_MARGIN;
    let result = compute_accuracy_legacy(almost_miss, &vec![0]);
    assert_eq!(result, Accuracy::Late);

    let result = compute_accuracy_legacy(-almost_miss, &vec![0]);
    assert_eq!(result, Accuracy::Early);

    // beyond the miss margin
    let miss = MISS_MARGIN + 1;
    let result = compute_accuracy_legacy(miss, &vec![0]);
    assert_eq!(result, Accuracy::Miss);

    let result = compute_accuracy_legacy(-miss, &vec![0]);
    assert_eq!(result, Accuracy::Miss);
}

#[test]
fn it_computes_accuracy_against_correct_target_note_from_many() {
    let compute_accuracy_legacy = |user_beat_with_latency: i64, desired_hits: &Vec<i64>| {
        compute_accuracy_of_single_hit(user_beat_with_latency, desired_hits, DEFAULT_BEATS_PER_LOOP)
            .0
    };

    let beats_per_loop = (DEFAULT_BEATS_PER_LOOP as i64) * TICK_SCALE;
    // should check if it's closer to the nearest note: beat 0, not beat 1
    let result = compute_accuracy_legacy(CORRECT_MARGIN, &vec![0, TICK_SCALE]);
    assert_eq!(result, Accuracy::Correct);

    // handle wrap-around case
    let result = compute_accuracy_legacy(beats_per_loop - CORRECT_MARGIN, &vec![0, TICK_SCALE]);
    assert_eq!(result, Accuracy::Correct);

    let result = compute_accuracy_legacy(beats_per_loop - CORRECT_MARGIN - 5, &vec![0, TICK_SCALE]);
    assert_eq!(result, Accuracy::Early);

    // a hair beyond the miss margin from the wrapped downbeat
    let result = compute_accuracy_legacy(beats_per_loop - MISS_MARGIN - 1, &vec![0, TICK_SCALE]);
    assert_eq!(result, Accuracy::Miss);
}

#[test]
fn it_computes_accuracy_considering_is_next_loop() {
    let beats_per_loop = (DEFAULT_BEATS_PER_LOOP as i64) * TICK_SCALE;
    let result = compute_accuracy_of_single_hit(
        beats_per_loop - CORRECT_MARGIN,
        &vec![0],
        DEFAULT_BEATS_PER_LOOP,
    );
    assert_eq!(result, (Accuracy::Correct, true));

    let result = compute_accuracy_of_single_hit(
        beats_per_loop - CORRECT_MARGIN - 5,
        &vec![0],
        DEFAULT_BEATS_PER_LOOP,
    );
    assert_eq!(result, (Accuracy::Early, true));
}

#[test]
fn it_computes_last_loop_summary_for_correct_user_htis() {
    let user_hits = vec![UserHit::new(Instrument::Kick, 0)];
    let mut desired_hits = Voices::new();
    desired_hits.toggle_beat(Instrument::Kick, 0);

    let result = compute_last_loop_summary(&user_hits, &desired_hits, DEFAULT_BEATS_PER_LOOP);
    assert_eq!(
        result.get_score_tracker(&Instrument::Kick).accuracies,
        vec![Accuracy::Correct],
    );
}

#[test]
fn it_computes_last_loop_summary_for_incorrect_user_hits() {
    let user_hits = vec![UserHit::new(Instrument::Kick, TICK_SCALE / 2)];
    let mut desired_hits = Voices::new();
    desired_hits.toggle_beat(Instrument::Kick, 0);

    let result = compute_last_loop_summary(&user_hits, &desired_hits, DEFAULT_BEATS_PER_LOOP);
    assert_eq!(
        result.get_score_tracker(&Instrument::Kick).accuracies,
        vec![Accuracy::Miss],
    );
}

#[test]
fn it_computes_loop_performance_for_voice() {
    let user_hits = vec![5_000, 6_000, 8_000];
    let desired_hits = vec![0, 5_000, 10_000];
    let loop_current_beat = 4 * TICK_SCALE;
    let result = compute_loop_performance_for_voice(
        &user_hits,
        &desired_hits,
        loop_current_beat,
        DEFAULT_BEATS_PER_LOOP,
    );
    assert_eq!(
        result,
        vec![Accuracy::Miss, Accuracy::Correct, Accuracy::Early]
    );
}

#[test]
fn margin_boundaries_exact() {
    let classify = |user: i64| {
        compute_accuracy_of_single_hit(user, &vec![0], DEFAULT_BEATS_PER_LOOP).0
    };
    assert_eq!(classify(CORRECT_MARGIN), Accuracy::Correct);
    assert_eq!(classify(CORRECT_MARGIN + 1), Accuracy::Late);
    assert_eq!(classify(MISS_MARGIN + 1), Accuracy::Miss);
    assert_eq!(classify(-CORRECT_MARGIN), Accuracy::Correct);
    assert_eq!(classify(-CORRECT_MARGIN - 1), Accuracy::Early);
    assert_eq!(classify(-MISS_MARGIN - 1), Accuracy::Miss);
}

#[test]
fn nearest_neighbor_picks_closer_beat() {
    let result = compute_accuracy_of_single_hit(
        CORRECT_MARGIN,
        &vec![0, TICK_SCALE],
        DEFAULT_BEATS_PER_LOOP,
    );
    assert_eq!(result, (Accuracy::Correct, false));
}

#[test]
fn hit_near_loop_end_wraps_to_next_downbeat() {
    // beat 15.85 of a 16-beat loop is nearer the next loop's downbeat
    let result = compute_accuracy_of_single_hit(158_500, &vec![0], DEFAULT_BEATS_PER_LOOP);
    assert_eq!(result, (Accuracy::Correct, true));
}

#[test]
fn empty_desired_beats_is_a_miss() {
    let result = compute_accuracy_of_single_hit(0, &vec![], DEFAULT_BEATS_PER_LOOP);
    assert_eq!(result, (Accuracy::Miss, false));
}

#[test]
fn score_counts_full_and_half_points() {
    let accuracies = Accuracies {
        accuracies: vec![Accuracy::Correct, Accuracy::Early, Accuracy::Miss],
    };
    let score = accuracies.score();
    assert_eq!(score, Score { points: 3, max_points: 6 });
    assert_eq!(score.points as f64 / score.max_points as f64, 0.5);
    assert!(!score.is_perfect());
}

#[test]
fn score_of_empty_take_is_never_perfect() {
    let accuracies = Accuracies { accuracies: vec![] };
    let score = accuracies.score();
    assert_eq!(score, Score { points: 0, max_points: 0 });
    assert!(!score.is_perfect());
}

#[test]
fn score_of_all_correct_take_is_perfect() {
    let accuracies = Accuracies {
        accuracies: vec![Accuracy::Correct, Accuracy::Correct],
    };
    let score = accuracies.score();
    assert_eq!(score, Score { points: 4, max_points: 4 });
    assert!(score.is_perfect());
}

#[test]
fn unknown_for_beats_not_yet_due() {
    let user_hits: Vec<i64> = vec![];
    let desired_hits = vec![0, 8 * TICK_SCALE];
    // halfway through the loop only the first beat has been due
    let result = compute_loop_performance_for_voice(
        &user_hits,
        &desired_hits,
        4 * TICK_SCALE,
        DEFAULT_BEATS_PER_LOOP,
    );
    assert_eq!(result, vec![Accuracy::Miss, Accuracy::Unknown]);
}

#[test]
fn one_hit_can_satisfy_two_nearby_beats() {
    // the first acceptable hit wins and is not consumed
    let user_hits = vec![1_600];
    let desired_hits = vec![0, 2_000];
    let result = compute_loop_performance_for_voice(
        &user_hits,
        &desired_hits,
        16 * TICK_SCALE,
        DEFAULT_BEATS_PER_LOOP,
    );
    assert_eq!(result, vec![Accuracy::Late, Accuracy::Correct]);
}

#[test]
fn timings_are_filtered_by_instrument_and_reduced_to_the_loop() {
    let hits = vec![
        UserHit::new(Instrument::Kick, 5_000),
        UserHit::new(Instrument::Snare, 7_000),
        UserHit::new(Instrument::Kick, 165_000),
    ];
    let kick = get_user_hit_timings_by_instrument(&hits, Instrument::Kick, DEFAULT_BEATS_PER_LOOP);
    assert_eq!(kick, vec![5_000, 5_000]);
    let snare =
        get_user_hit_timings_by_instrument(&hits, Instrument::Snare, DEFAULT_BEATS_PER_LOOP);
    assert_eq!(snare, vec![7_000]);
}

#[test]
fn hits_are_attributed_to_loops_with_the_miss_margin_grace() {
    let loop_len = (DEFAULT_BEATS_PER_LOOP as i64) * TICK_SCALE;
    let hits = vec![
        UserHit::new(Instrument::Kick, -500),
        UserHit::new(Instrument::Kick, 10_000),
        UserHit::new(Instrument::Kick, loop_len - 1_400),
        UserHit::new(Instrument::Kick, loop_len + 5_000),
    ];
    let loop0 = get_hits_from_nth_loop(&hits, 0, DEFAULT_BEATS_PER_LOOP);
    let ticks0: Vec<i64> = loop0.iter().map(|h| h.clock_tick).collect();
    assert_eq!(ticks0, vec![-500, 10_000]);
    // a hit within the miss margin of the boundary belongs to the next loop
    let loop1 = get_hits_from_nth_loop(&hits, 1, DEFAULT_BEATS_PER_LOOP);
    let ticks1: Vec<i64> = loop1.iter().map(|h| h.clock_tick).collect();
    assert_eq!(ticks1, vec![loop_len - 1_400, loop_len + 5_000]);
}

#[test]
fn end_to_end_loop_summary_and_score() {
    // pattern: kick on beats 0 and 8; the player hits at 0.05 and 8.2
    let mut pattern = Voices::new();
    pattern.toggle_beat(Instrument::Kick, 0);
    pattern.toggle_beat(Instrument::Kick, 8 * TICK_SCALE);
    let hits = vec![
        UserHit::new(Instrument::Kick, 500),
        UserHit::new(Instrument::Kick, 82_000),
    ];
    let summary = compute_last_loop_summary(&hits, &pattern, DEFAULT_BEATS_PER_LOOP);
    assert_eq!(
        summary.get_score_tracker(&Instrument::Kick).accuracies,
        vec![Accuracy::Correct, Accuracy::Late],
    );
    let combined = summary.combined();
    let score = combined.score();
    assert_eq!(score, Score { points: 3, max_points: 4 });
    assert_eq!(score.points as f64 / score.max_points as f64, 0.75);
}
