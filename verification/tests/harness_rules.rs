use jev_game_engine::harness::{
    self, export_verdict, validate_export_path, validate_objective, EndReason, OptionsError,
    SessionOptions,
};
use jev_game_engine::model::{Decision, Event, FixtureWaypoint, Mode, Settings};

fn fixture_options(objective: &str, export: Option<String>) -> SessionOptions {
    SessionOptions {
        settings: Settings {
            mode: Mode::Demo,
            fixture_waypoint: FixtureWaypoint::Reachable,
            objective: objective.into(),
            safety_reflex: true,
            request_interval_ms: 0,
            max_requests: 2,
            max_seconds: 60,
            ..Settings::default()
        },
        connect_timeout_ms: 8_000,
        export,
        keep_connected: false,
        verbose: false,
    }
}

#[test]
fn invalid_options_are_refused_before_anything_connects() {
    let long = "x".repeat(401);
    let missing = "no/such/directory/night.json".to_string();
    let not_json = "night.txt".to_string();
    let cases: Vec<(&str, SessionOptions)> = vec![
        (
            "objective over 400 characters",
            fixture_options(&long, None),
        ),
        (
            "objective with a control character",
            fixture_options("Survive\u{7}", None),
        ),
        ("request interval over one day", {
            let mut options = fixture_options("", None);
            options.settings.request_interval_ms = (86_400 + 1) * 1_000;
            options
        }),
        ("zero request budget", {
            let mut options = fixture_options("", None);
            options.settings.max_requests = 0;
            options
        }),
        ("request budget over 100000", {
            let mut options = fixture_options("", None);
            options.settings.max_requests = 100_001;
            options
        }),
        ("zero time budget", {
            let mut options = fixture_options("", None);
            options.settings.max_seconds = 0;
            options
        }),
        ("time budget over seven days", {
            let mut options = fixture_options("", None);
            options.settings.max_seconds = 604_801;
            options
        }),
        (
            "export into a directory that does not exist",
            fixture_options("", Some(missing)),
        ),
        (
            "export that is not a .json file",
            fixture_options("", Some(not_json)),
        ),
    ];
    for (case, options) in cases {
        let error = options
            .validate()
            .expect_err(&format!("{case} must be refused"));
        let message = error.message();
        assert!(!message.contains('\n'), "{case}: one line, got {message:?}");
    }

    let exactly_400 = "y".repeat(400);
    fixture_options(&exactly_400, None)
        .validate()
        .expect("400 characters is the inclusive limit");
    fixture_options("Line one\nline two", None)
        .validate()
        .expect("a newline is allowed inside an objective");
}

#[test]
fn every_failure_has_its_own_non_zero_exit_code() {
    let reasons = [
        EndReason::Budget,
        EndReason::ConnectionFailed,
        EndReason::ProviderFailed,
        EndReason::Disconnected,
        EndReason::Stalled,
    ];
    let codes: Vec<i32> = reasons.iter().map(|reason| reason.exit_code()).collect();
    assert_eq!(codes[0], 0, "only a budget end is a success");
    assert!(codes[1..].iter().all(|code| *code != 0));
    let unique: std::collections::BTreeSet<i32> = codes.iter().copied().collect();
    assert_eq!(
        unique.len(),
        reasons.len(),
        "codes must be distinct: {codes:?}"
    );
}

fn decision(choice: &str, model: &str) -> Decision {
    Decision {
        choice: choice.into(),
        probabilities: Vec::new(),
        confidence_bits: None,
        model: model.into(),
        input_tokens: None,
        output_tokens: None,
        latency_ms: 0,
    }
}

fn event(sequence: u64, kind: &str, message: &str, decision: Option<Decision>) -> Event {
    Event {
        sequence,
        elapsed_ms: sequence * 100,
        kind: kind.into(),
        message: message.into(),
        observation: None,
        candidates: Vec::new(),
        decision,
        arrival: None,
    }
}

#[test]
fn counts_separate_wait_waypoint_flee_answers_and_reflex_actions() {
    let jev = "jev-1.13.0";
    let events = vec![
        event(1, "request", "TypeSafe request 1 for observation 5", None),
        event(2, "decision", "wait", Some(decision("wait", jev))),
        event(
            3,
            "dispatched",
            "Jev selected goal; queued: wait",
            Some(decision("wait", jev)),
        ),
        event(
            4,
            "action",
            "Jev selected goal; adapter accepted bounded action: wait",
            None,
        ),
        event(5, "request", "TypeSafe request 2 for observation 9", None),
        event(
            6,
            "decision",
            "waypoint_3",
            Some(decision("waypoint_3", jev)),
        ),
        event(
            7,
            "dispatched",
            "Jev selected goal; queued: waypoint_3",
            Some(decision("waypoint_3", jev)),
        ),
        event(
            8,
            "action",
            "Jev selected goal; adapter accepted bounded action: waypoint_3",
            None,
        ),
        event(9, "request", "TypeSafe request 3 for observation 12", None),
        event(10, "decision", "flee_0", Some(decision("flee_0", jev))),
        event(
            11,
            "dispatched",
            "Jev selected goal; queued: flee_0",
            Some(decision("flee_0", jev)),
        ),
        event(
            12,
            "action",
            "Jev selected goal; adapter accepted bounded action: flee_0",
            None,
        ),
        event(
            13,
            "reflex",
            "Engine safety action: Zombie is 3.0 blocks away; no goal in flight and fleeing via flee_0",
            None,
        ),
        event(
            14,
            "dispatched",
            "SAFETY-REFLEX; engine-initiated bounded action; queued for adapter validation: flee_0",
            None,
        ),
        event(
            15,
            "action",
            "SAFETY-REFLEX; engine-initiated bounded action; adapter accepted bounded action: flee_0",
            None,
        ),
    ];
    let counts = harness::counts(&events);
    assert_eq!(counts.events, 15);
    assert_eq!(counts.requests, 3);
    assert_eq!(
        counts.answers, 3,
        "one per decision event, not per dispatch"
    );
    assert_eq!(counts.answers_wait, 1);
    assert_eq!(counts.answers_waypoint, 1);
    assert_eq!(counts.answers_flee, 1);
    assert_eq!(counts.answers_other, 0);
    assert_eq!(
        counts.reflex_actions, 1,
        "the reflex dispatch is counted once and never as an answer"
    );
    assert_eq!(counts.accepted_actions, 4);
    assert_eq!(counts.arrival_verdicts, 0);
}

#[test]
fn unknown_choices_count_as_other_answers() {
    let events = vec![event(1, "decision", "", Some(decision("stop", "jev-1.13.0")))];
    let counts = harness::counts(&events);
    assert_eq!(counts.answers, 1);
    assert_eq!(counts.answers_other, 1);
    assert_eq!(harness::counts(&[]).events, 0);
}

#[test]
fn objective_rule_counts_characters_not_bytes() {
    let accented = "é".repeat(400);
    assert!(validate_objective(&accented).is_ok());
    assert_eq!(
        validate_objective(&"é".repeat(401)),
        Err(OptionsError::ObjectiveTooLong)
    );
    assert_eq!(
        validate_objective("tab\there"),
        Err(OptionsError::ObjectiveControlCharacter)
    );
    assert_eq!(
        validate_objective("next line \u{85}"),
        Err(OptionsError::ObjectiveControlCharacter)
    );
}

#[test]
fn export_rules_decide_from_extension_and_directories() {
    assert_eq!(
        export_verdict(Some("txt".into()), false, ".".into(), true),
        Err(OptionsError::ExportNotJson)
    );
    assert_eq!(
        export_verdict(None, false, ".".into(), true),
        Err(OptionsError::ExportNotJson)
    );
    assert_eq!(
        export_verdict(Some("json".into()), true, ".".into(), true),
        Err(OptionsError::ExportIsDirectory)
    );
    assert_eq!(
        export_verdict(Some("json".into()), false, "runs".into(), false),
        Err(OptionsError::ExportDirectoryMissing("runs".into()))
    );
    assert_eq!(
        export_verdict(Some("json".into()), false, "runs".into(), true),
        Ok(())
    );
    assert_eq!(validate_export_path("tests/summary.json"), Ok(()));
    assert_eq!(validate_export_path("night.json"), Ok(()));
    assert_eq!(
        validate_export_path("no/such/directory/night.json"),
        Err(OptionsError::ExportDirectoryMissing("no/such/directory".into()))
    );
    assert_eq!(
        OptionsError::ExportDirectoryMissing("x".into()).message(),
        "--export directory does not exist: x"
    );
}

use jev_game_engine::engine::{BOT_DIED, DIMENSION_CHANGED, HEALTH_DECREASED, WORLD_LIFECYCLE_CHANGED};
use jev_game_engine::harness::{
    connect_wait, session_end, session_guard_seconds, ConnectWait, SessionProgress,
};
use jev_game_engine::recording::{is_json_path, recording_size_ok};

#[test]
fn the_end_of_a_session_is_read_from_the_error_and_the_connection() {
    let ended = SessionProgress::Ended;
    let budget = Some("Request budget reached: session ended");
    assert_eq!(session_end(budget, true, true, false), ended(EndReason::Budget));
    assert_eq!(session_end(budget, false, true, false), ended(EndReason::Disconnected));
    assert_eq!(
        session_end(Some("Adapter stopped publishing observations"), true, true, false),
        ended(EndReason::Disconnected)
    );
    assert_eq!(
        session_end(Some("TypeSafe request failed"), true, true, false),
        ended(EndReason::ProviderFailed)
    );
    assert_eq!(session_end(None, false, true, false), ended(EndReason::Disconnected));
    assert_eq!(
        session_end(None, false, false, false),
        SessionProgress::Running,
        "the fixture may reconnect"
    );
    assert_eq!(session_end(None, true, true, true), ended(EndReason::Stalled));
    assert_eq!(session_end(None, true, true, false), SessionProgress::Running);
    assert_eq!(session_guard_seconds(300), 330);
}

#[test]
fn a_local_stop_while_connected_is_resumed_not_ended() {
    assert_eq!(session_end(Some(DIMENSION_CHANGED), true, true, false), SessionProgress::Resume);
    assert_eq!(
        session_end(Some(WORLD_LIFECYCLE_CHANGED), true, true, true),
        SessionProgress::Resume
    );
    assert_eq!(
        session_end(Some(DIMENSION_CHANGED), false, true, false),
        SessionProgress::Ended(EndReason::Disconnected)
    );
    assert_eq!(
        session_end(Some(BOT_DIED), true, true, false),
        SessionProgress::Ended(EndReason::ProviderFailed)
    );
    assert_eq!(session_end(Some(HEALTH_DECREASED), true, true, false), SessionProgress::Resume);
    assert_eq!(
        session_end(Some(HEALTH_DECREASED), false, true, false),
        SessionProgress::Ended(EndReason::Disconnected)
    );
}

#[test]
fn waiting_for_the_first_observation_ends_in_order() {
    assert_eq!(connect_wait(true, true, true), ConnectWait::Connected);
    assert_eq!(connect_wait(false, true, true), ConnectWait::Failed);
    assert_eq!(connect_wait(false, false, true), ConnectWait::TimedOut);
    assert_eq!(connect_wait(false, false, false), ConnectWait::Waiting);
}

#[test]
fn recordings_are_json_files_within_the_size_limit() {
    assert!(is_json_path("runs/session-1.json"));
    assert!(!is_json_path("recording.txt"));
    assert!(!is_json_path("json"));
    assert!(recording_size_ok(32 * 1024 * 1024));
    assert!(!recording_size_ok(32 * 1024 * 1024 + 1));
}

#[test]
fn an_export_is_written_into_its_parent_directory_or_the_current_one() {
    use_export_directory();
}

fn use_export_directory() {
    assert_eq!(jev_game_engine::harness::export_directory_of("runs/night.json"), "runs");
    assert_eq!(jev_game_engine::harness::export_directory_of("night.json"), ".");
    assert_eq!(jev_game_engine::harness::export_directory_of("/night.json"), "/");
    assert_eq!(
        jev_game_engine::harness::validate_export_path("runs/night.txt"),
        Err(jev_game_engine::harness::OptionsError::ExportNotJson)
    );
}
