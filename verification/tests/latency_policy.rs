use jev_game_engine::latency::{answer_is_current, LatencyPolicy};

#[test]
fn warmup_accepts_slow_initial_answer_but_keeps_age_and_generation_bounds() {
    let mut policy = LatencyPolicy::default();
    let initial = policy.timing();
    assert!(answer_is_current(1, 1, 2_000, initial));
    assert!(!answer_is_current(1, 1, 5_001, initial));
    assert!(!answer_is_current(1, 2, 300, initial));
    policy.record(2_000);
    assert_eq!(policy.timing().max_answer_age_ms, 4_000);
    assert_eq!(policy.timing().goal_ms, 8_000);
}

#[test]
fn measured_policy_tightens_after_fast_warmup_without_extending_old_request() {
    let mut policy = LatencyPolicy::default();
    policy.record(300);
    let fast_request = policy.timing();
    assert_eq!(fast_request.max_answer_age_ms, 1_500);
    policy.record(4_000);
    assert!(!answer_is_current(7, 7, 2_000, fast_request));
    assert_eq!(policy.timing().max_answer_age_ms, 5_000);
}

#[test]
fn low_and_high_latency_adapt_without_removing_hard_bounds() {
    let mut low = LatencyPolicy::default();
    let initial = low.timing();
    assert_eq!(initial.p50_ms, None);
    assert_eq!(initial.p95_ms, None);
    for value in [40, 80, 100, 120, 150] {
        low.record(value);
    }
    let fast = low.timing();
    assert_eq!(fast.p50_ms, Some(100));
    assert_eq!(fast.p95_ms, Some(150));
    assert_eq!(fast.goal_ms, 2_000);
    assert_eq!(fast.max_answer_age_ms, 1_500);

    let mut high = LatencyPolicy::default();
    for value in [1_500, 2_000, 2_500, 3_000, 4_000] {
        high.record(value);
    }
    let slow = high.timing();
    assert_eq!(slow.p50_ms, Some(2_500));
    assert_eq!(slow.p95_ms, Some(4_000));
    assert_eq!(slow.goal_ms, 10_000);
    assert_eq!(slow.max_answer_age_ms, 5_000);
    assert!(slow.goal_ms > fast.goal_ms);
}

#[test]
fn rolling_window_forgets_old_slow_requests() {
    let mut policy = LatencyPolicy::default();
    for _ in 0..64 {
        policy.record(4_000);
    }
    for _ in 0..64 {
        policy.record(80);
    }
    let timing = policy.timing();
    assert_eq!(timing.p50_ms, Some(80));
    assert_eq!(timing.p95_ms, Some(80));
    assert_eq!(timing.goal_ms, 2_000);
    assert_eq!(timing.max_answer_age_ms, 1_500);
}

#[test]
fn extreme_latency_saturates_and_never_bypasses_generation_or_age() {
    for sample in [0, u64::MAX] {
        let mut policy = LatencyPolicy::default();
        policy.record(sample);
        let timing = policy.timing();
        assert!((2_000..=10_000).contains(&timing.goal_ms));
        assert!((1_500..=5_000).contains(&timing.max_answer_age_ms));
        assert!(answer_is_current(9, 9, timing.max_answer_age_ms, timing));
        assert!(!answer_is_current(
            9,
            9,
            timing.max_answer_age_ms + 1,
            timing
        ));
        assert!(!answer_is_current(9, 10, 0, timing));
        assert!(!answer_is_current(10, 9, 0, timing));
        assert!(!answer_is_current(9, 9, u64::MAX, timing));
    }
}

#[test]
fn new_samples_do_not_extend_a_previously_issued_request() {
    let mut policy = LatencyPolicy::default();
    policy.record(100);
    let issued = policy.timing();
    policy.record(4_000);
    assert!(!answer_is_current(2, 2, 2_000, issued));
    assert!(answer_is_current(2, 2, 2_000, policy.timing()));
}

#[test]
fn percentiles_use_the_nearest_rank_of_unsorted_samples() {
    let mut policy = LatencyPolicy::new();
    for value in [900, 100, 500, 300, 700, 200, 800, 400, 600, 1_000] {
        policy.record(value);
    }
    let timing = policy.timing();
    // Ten samples: p50 is the 5th smallest, p95 the 10th.
    assert_eq!(timing.p50_ms, Some(500));
    assert_eq!(timing.p95_ms, Some(1_000));
    assert_eq!(timing.goal_ms, 4_000);
    assert_eq!(timing.max_answer_age_ms, 2_000);
}

#[test]
fn the_window_keeps_exactly_the_last_sixty_four_samples() {
    // With 64 samples p95 is the 61st smallest, so four slow samples set it.
    let mut policy = LatencyPolicy::new();
    for _ in 0..4 {
        policy.record(9_999);
    }
    for _ in 0..60 {
        policy.record(10);
    }
    assert_eq!(policy.timing().p95_ms, Some(9_999));
    policy.record(10);
    assert_eq!(
        policy.timing().p95_ms,
        Some(10),
        "the oldest slow sample left the full window"
    );
}
