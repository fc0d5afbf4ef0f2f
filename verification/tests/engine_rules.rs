use jev_game_engine::engine::{
    acknowledge, answer_verdict, classify_failure, classify_observation, connection_settings_valid,
    dispatch_admission, elapsed_ms, event_slot, executor_end, manual_verdict, may_request,
    next_request_at, reflex_may_act, refusal_ends_session, request_admission, same_world,
    session_expired, start_outcome, watchdog, AckFailure, AckOutcome, AckReply, AnswerVerdict,
    DispatchAdmission, EventSlot, ExecutorEnd, ManualVerdict, ObservationOutcome, ProviderReply,
    ReflexGate, RequestAdmission, RequestLedger, RunControl, StartOutcome, WatchdogStop,
    REJECTED_AFTER_HIT,
};
use jev_game_engine::latency::LatencyPolicy;
use jev_game_engine::model::{Observation, Position, Settings};
use jev_game_engine::provider::REJECTED_ANSWER;

fn observation(sequence: u64) -> Observation {
    Observation {
        world_epoch: 1,
        dimension: Some("minecraft:overworld".into()),
        deaths: 0,
        sequence,
        connected: true,
        position: Position {
            x_bits: 0.5f64.to_bits(),
            y_bits: 64.0f64.to_bits(),
            z_bits: 0.5f64.to_bits(),
        },
        health_bits: 20.0f32.to_bits(),
        food_bits: 20.0f32.to_bits(),
        inventory: vec![],
        blocks: vec![],
        entities: vec![],
        note: String::new(),
    }
}

#[test]
fn run_control_starts_invalidates_and_wraps_its_generation() {
    let mut control = RunControl::new();
    assert_eq!(control.generation, 0);
    assert!(!control.in_run());
    control.start(false);
    assert_eq!(control.generation, 1);
    assert!(control.one_step && !control.continuous && control.in_run());
    control.request_issued();
    assert!(!control.in_run(), "a single step asks once");
    control.start(true);
    assert!(control.continuous);
    control.clear_in_flight();
    assert_eq!(control.generation, 3);
    assert!(control.continuous, "clearing the in-flight work keeps the run mode");
    control.invalidate();
    assert_eq!(control.generation, 4);
    assert!(!control.in_run());
    control.generation = u64::MAX;
    control.invalidate();
    assert_eq!(control.generation, 0);
}

#[test]
fn start_needs_a_live_adapter_and_never_touches_a_replay() {
    assert_eq!(start_outcome(true, true), StartOutcome::Ignored);
    assert_eq!(start_outcome(false, false), StartOutcome::NotConnected);
    assert_eq!(start_outcome(false, true), StartOutcome::Started);
}

#[test]
fn a_death_counted_by_the_adapter_ends_even_when_the_respawn_changed_the_world() {
    let before = observation(1);
    let mut after = observation(2);
    after.deaths = 1;
    after.dimension = Some("minecraft:hub".into());
    after.world_epoch = 2;
    assert_eq!(
        classify_observation(&Some(before), &after, false, false, true),
        ObservationOutcome::Died
    );
}

#[test]
fn no_health_left_is_a_death_with_or_without_the_reflex() {
    for safety_reflex in [false, true] {
        assert_eq!(
            classify_observation(&Some(observation(1)), &observation(2), true, true, safety_reflex),
            ObservationOutcome::Died,
            "reflex {safety_reflex}"
        );
    }
}

#[test]
fn a_hit_is_survived_only_under_the_reflex() {
    assert_eq!(
        classify_observation(&Some(observation(1)), &observation(2), true, false, true),
        ObservationOutcome::HurtSurvived
    );
    assert_eq!(
        classify_observation(&Some(observation(1)), &observation(2), true, false, false),
        ObservationOutcome::HealthDecreased
    );
    assert_eq!(
        classify_observation(&None, &observation(2), true, false, false),
        ObservationOutcome::Fresh,
        "the first observation has nothing to compare with"
    );
}

#[test]
fn dimension_and_lifecycle_changes_invalidate_in_that_order() {
    let before = observation(1);
    let mut moved = observation(1);
    moved.dimension = Some("minecraft:the_nether".into());
    assert_eq!(
        classify_observation(&Some(before.clone()), &moved, false, false, false),
        ObservationOutcome::DimensionChanged,
        "a dimension change at an identical sequence still counts"
    );
    let mut respawned = observation(1);
    respawned.world_epoch = 2;
    assert_eq!(
        classify_observation(&Some(before.clone()), &respawned, false, false, false),
        ObservationOutcome::WorldLifecycleChanged
    );
    assert_eq!(
        classify_observation(&Some(before.clone()), &observation(1), false, false, false),
        ObservationOutcome::Unchanged
    );
    let mut broken = observation(2);
    broken.position.y_bits = f64::NAN.to_bits();
    assert_eq!(
        classify_observation(&Some(before.clone()), &broken, false, false, false),
        ObservationOutcome::InvalidValues
    );
    let mut gone = observation(2);
    gone.connected = false;
    assert_eq!(
        classify_observation(&Some(before), &gone, false, false, false),
        ObservationOutcome::Disconnected
    );
}

#[test]
fn same_world_needs_a_connected_observation_of_the_requested_dimension_and_epoch() {
    let requested = observation(1);
    assert!(same_world(&Some(observation(5)), &requested));
    assert!(!same_world(&None, &requested));
    let mut other = observation(5);
    other.world_epoch = 9;
    assert!(!same_world(&Some(other), &requested));
    let mut legacy = observation(5);
    legacy.dimension = None;
    assert!(!same_world(&Some(legacy), &requested));
}

#[test]
fn provider_failures_are_told_apart_by_the_rejected_answer_prefix() {
    let rejected = format!(
        "{REJECTED_ANSWER}TypeSafe probabilities do not sum to one (sum 0.9000 over 2 options)"
    );
    assert_eq!(classify_failure(&rejected), ProviderReply::RejectedAnswer);
    assert_eq!(
        classify_failure("TypeSafe request failed"),
        ProviderReply::Failure
    );
}

#[test]
fn answers_are_dropped_failed_or_acted_on() {
    let timing = LatencyPolicy::default().timing();
    let requested = observation(1);
    let current = Some(observation(1));
    let verdict = |reply, generation, age, unchanged, reflex| {
        answer_verdict(reply, true, 3, generation, age, timing, 10, &current, &requested, unchanged, reflex)
    };
    assert_eq!(
        verdict(ProviderReply::RejectedAnswer, 3, 0, true, false),
        AnswerVerdict::DropRejected,
        "a rejected answer is dropped and the loop keeps running"
    );
    assert_eq!(
        answer_verdict(ProviderReply::RejectedAnswer, false, 3, 3, 0, timing, 10, &current, &requested, true, false),
        AnswerVerdict::Fail
    );
    assert_eq!(verdict(ProviderReply::Failure, 3, 0, true, true), AnswerVerdict::Fail);
    assert_eq!(verdict(ProviderReply::Answer, 3, 100, true, false), AnswerVerdict::Proceed);
    assert_eq!(
        verdict(ProviderReply::Answer, 4, 100, true, false),
        AnswerVerdict::FailStale,
        "an answer to an older generation is never acted on"
    );
    assert_eq!(
        verdict(ProviderReply::Answer, 3, 100, false, true),
        AnswerVerdict::DropOvertaken,
        "with the reflex, an answer overtaken by a hit is dropped"
    );
    assert_eq!(
        verdict(ProviderReply::Answer, 3, 100, false, false),
        AnswerVerdict::FailStale,
        "without the reflex, an overtaken answer is still a local stop"
    );
}

#[test]
fn dispatch_deadline_is_bounded_by_observation_model_and_session() {
    let now = 100_000;
    let cutoff = now + 100;
    // The observation limits the deadline.
    assert_eq!(
        dispatch_admission(now, now - 10, 300, 5, true, cutoff - 1_000, None),
        DispatchAdmission::Go(cutoff)
    );
    // The model's response deadline limits it.
    assert_eq!(
        dispatch_admission(now, now - 10, 300, 5, true, now, Some(cutoff)),
        DispatchAdmission::Go(cutoff)
    );
    // The session's time budget limits it.
    assert_eq!(
        dispatch_admission(now, cutoff - 1_000, 1, 5, true, now, None),
        DispatchAdmission::Go(cutoff)
    );
    // Nothing else limits it: one acceptance window from now.
    assert_eq!(
        dispatch_admission(now, now, 300, 5, true, now, None),
        DispatchAdmission::Go(now + 1_000)
    );
}

#[test]
fn dispatch_refuses_an_expired_session_a_full_log_or_a_passed_deadline() {
    let now = 50_000;
    assert_eq!(
        dispatch_admission(now, now - 1_000, 1, 5, true, now, None),
        DispatchAdmission::TimeBudget
    );
    assert_eq!(
        dispatch_admission(now, now, 300, 4_999, true, now, None),
        DispatchAdmission::EventBudget
    );
    assert_eq!(
        dispatch_admission(now, now, 300, 5, false, now, None),
        DispatchAdmission::NoObservation
    );
    assert_eq!(
        dispatch_admission(now, now, 300, 5, true, now - 1_000, None),
        DispatchAdmission::DeadlinePassed
    );
}

#[test]
fn acknowledgements_start_an_action_only_inside_its_window() {
    assert_eq!(acknowledge(AckReply::Accepted(150), 1_100, 100, 200), AckOutcome::Accepted(150));
    assert_eq!(
        acknowledge(AckReply::Accepted(1_100), 1_100, 100, 1_200),
        AckOutcome::NotStarted(AckFailure::DeadlineExpired),
        "a successful acknowledgement after the absolute deadline is rejected"
    );
    assert_eq!(
        acknowledge(AckReply::Accepted(50), 1_100, 100, 200),
        AckOutcome::NotStarted(AckFailure::InvalidTimestamp)
    );
    assert_eq!(
        acknowledge(AckReply::Accepted(300), 1_100, 100, 200),
        AckOutcome::NotStarted(AckFailure::InvalidTimestamp)
    );
    assert_eq!(
        acknowledge(AckReply::Accepted(400), 1_100, 100, 5_000),
        AckOutcome::Accepted(400),
        "timely acceptance polled after the deadline keeps the adapter's clock"
    );
    assert_eq!(
        acknowledge(AckReply::Rejected("test endpoint rejected".into()), 1_100, 100, 200),
        AckOutcome::NotStarted(AckFailure::Refused("test endpoint rejected".into()))
    );
    assert_eq!(
        acknowledge(AckReply::Closed, 1_100, 100, 200),
        AckOutcome::NotStarted(AckFailure::AdapterEnded)
    );
    assert_eq!(acknowledge(AckReply::Pending, 1_100, 100, 200), AckOutcome::Waiting);
    assert_eq!(
        acknowledge(AckReply::Pending, 1_100, 100, 1_100),
        AckOutcome::NotStarted(AckFailure::TimedOut)
    );
}

#[test]
fn only_a_rejection_after_a_hit_under_the_reflex_keeps_the_session() {
    let after_hit = AckFailure::Refused(REJECTED_AFTER_HIT.into());
    assert!(!refusal_ends_session(&after_hit, true));
    assert!(refusal_ends_session(&after_hit, false));
    assert!(refusal_ends_session(&AckFailure::Refused("other".into()), true));
    assert!(refusal_ends_session(&AckFailure::TimedOut, true));
}

#[test]
fn the_executor_reports_arrival_before_expiry() {
    assert_eq!(executor_end(true, true, 5_000, 2_000), Some(ExecutorEnd::Arrived));
    assert_eq!(
        executor_end(true, false, 2_000, 2_000),
        Some(ExecutorEnd::ExpiredWithoutArrival)
    );
    assert_eq!(executor_end(false, false, 2_001, 2_000), Some(ExecutorEnd::Expired));
    assert_eq!(executor_end(true, false, 1_999, 2_000), None);
}

#[test]
fn manual_actions_need_a_fresh_observation_of_the_same_world() {
    let current = Some(observation(3));
    let dimension = Some("minecraft:overworld".to_string());
    assert_eq!(manual_verdict(true, &current, 0, 1, &dimension, true), ManualVerdict::Ignored);
    assert_eq!(manual_verdict(false, &None, 0, 1, &dimension, true), ManualVerdict::NoObservation);
    assert_eq!(
        manual_verdict(false, &current, 1_001, 1, &dimension, true),
        ManualVerdict::ObservationTooOld
    );
    assert_eq!(
        manual_verdict(false, &current, 0, 1, &Some("fixture:other".into()), true),
        ManualVerdict::DifferentWorld
    );
    assert_eq!(
        manual_verdict(false, &current, 0, 2, &dimension, true),
        ManualVerdict::DifferentWorld
    );
    assert_eq!(
        manual_verdict(false, &current, 0, 1, &dimension, false),
        ManualVerdict::NotAmongCandidates
    );
    assert_eq!(manual_verdict(false, &current, 0, 1, &dimension, true), ManualVerdict::Dispatch);
}

#[test]
fn the_watchdog_stops_in_its_order() {
    assert_eq!(
        watchdog(true, true, 0, true, true, true),
        Some(WatchdogStop::AdapterStopped)
    );
    assert_eq!(
        watchdog(true, false, 10_001, true, true, true),
        Some(WatchdogStop::NoFreshObservations)
    );
    assert_eq!(watchdog(true, false, 0, true, true, true), Some(WatchdogStop::TimeBudget));
    assert_eq!(
        watchdog(false, false, 1_001, false, false, true),
        Some(WatchdogStop::StaleObservations)
    );
    assert_eq!(watchdog(true, false, 1_000, false, true, true), None);
}

#[test]
fn the_event_log_keeps_one_slot_for_its_budget_event() {
    assert_eq!(event_slot(0), EventSlot::Record(1));
    assert_eq!(event_slot(4_998), EventSlot::Record(4_999));
    assert_eq!(event_slot(4_999), EventSlot::Budget { record_budget_event: true });
    assert_eq!(event_slot(5_000), EventSlot::Budget { record_budget_event: false });
}

#[test]
fn continuous_mode_stops_at_its_request_budget_without_an_extra_request() {
    assert_eq!(request_admission(10, 2, 2, true, 0), RequestAdmission::RequestBudget);
    assert_eq!(request_admission(4_999, 0, 2, true, 0), RequestAdmission::EventBudget);
    assert_eq!(request_admission(10, 1, 2, false, 0), RequestAdmission::Wait);
    assert_eq!(request_admission(10, 1, 2, true, 1_001), RequestAdmission::Wait);
    assert_eq!(request_admission(10, 1, 2, true, 1_000), RequestAdmission::Issue);
}

#[test]
fn request_interval_paces_the_continuous_loop() {
    let next = next_request_at(1_000, 60_000);
    assert_eq!(next, 61_000);
    assert!(may_request(true, false, false, false, 1_000, 1_000), "start asks immediately");
    assert!(!may_request(true, false, false, false, 60_999, next));
    assert!(may_request(true, false, false, false, 61_000, next));
    assert!(!may_request(true, true, false, false, 61_000, next));
    assert!(!may_request(false, false, false, false, 61_000, next));
}

fn gate() -> ReflexGate {
    ReflexGate {
        safety_reflex: true,
        in_run: true,
        adapter_present: true,
        pending: false,
        dispatched: false,
        active_has_target: None,
        last_reflex_at: None,
        now: 10_000,
        observation_age_ms: 100,
        observation_connected: true,
    }
}

#[test]
fn the_reflex_acts_only_when_opted_in_idle_and_cooled_down() {
    assert!(reflex_may_act(&gate()));
    assert!(!reflex_may_act(&ReflexGate { safety_reflex: false, ..gate() }));
    assert!(
        !reflex_may_act(&ReflexGate { active_has_target: Some(true), ..gate() }),
        "the reflex never preempts a navigation goal"
    );
    assert!(reflex_may_act(&ReflexGate { active_has_target: Some(false), ..gate() }));
    assert!(!reflex_may_act(&ReflexGate { pending: true, ..gate() }));
    assert!(!reflex_may_act(&ReflexGate { last_reflex_at: Some(9_999), ..gate() }));
    assert!(reflex_may_act(&ReflexGate { last_reflex_at: Some(0), ..gate() }));
    assert!(!reflex_may_act(&ReflexGate { observation_age_ms: 1_001, ..gate() }));
}

#[test]
fn clocks_never_run_backwards_and_budgets_are_inclusive() {
    assert_eq!(elapsed_ms(5, 10), 0);
    assert_eq!(elapsed_ms(10, 5), 5);
    assert!(session_expired(61_000, 1_000, 60));
    assert!(!session_expired(60_999, 1_000, 60));
    assert!(!session_expired(0, 1_000, u64::MAX));
}

#[test]
fn connection_settings_need_a_port_budgets_and_a_usable_bot_name() {
    assert!(connection_settings_valid(&Settings::default()));
    assert!(!connection_settings_valid(&Settings { port: 0, ..Settings::default() }));
    assert!(!connection_settings_valid(&Settings { max_requests: 0, ..Settings::default() }));
    assert!(!connection_settings_valid(&Settings {
        bot_name: "Jev Bot".into(),
        ..Settings::default()
    }));
    assert!(!connection_settings_valid(&Settings {
        bot_name: "x".repeat(17),
        ..Settings::default()
    }));
    assert!(!connection_settings_valid(&Settings {
        objective: "Survive\u{7}".into(),
        ..Settings::default()
    }));
}

#[test]
fn the_ledger_counts_requests_only_while_the_budget_has_room() {
    let mut ledger = RequestLedger::new(2);
    let mut control = RunControl::new();
    control.start(false);
    let (first, stamp) = ledger.issue_if_admitted(&mut control, 3, true, 0);
    assert_eq!((first, stamp), (RequestAdmission::Issue, 1));
    assert!(!control.one_step, "a single goal is no longer owed once requested");
    assert_eq!(ledger.requests, 1);
    let (waiting, _) = ledger.issue_if_admitted(&mut control, 3, false, 0);
    assert_eq!(waiting, RequestAdmission::Wait);
    assert_eq!(ledger.requests, 1);
    assert_eq!(ledger.issue_if_admitted(&mut control, 3, true, 0).0, RequestAdmission::Issue);
    assert_eq!(ledger.issue_if_admitted(&mut control, 3, true, 0).0, RequestAdmission::RequestBudget);
    assert_eq!(ledger.requests, 2);
}
