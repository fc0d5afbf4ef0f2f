use jev_game_engine::model::{Decision, Event};
use jev_game_engine::origin::{event_origin, ActionOrigin};

fn decision(model: &str) -> Decision {
    Decision {
        choice: "wait".into(),
        probabilities: Vec::new(),
        confidence_bits: None,
        model: model.into(),
        input_tokens: None,
        output_tokens: None,
        latency_ms: 0,
    }
}

/// A recorded event with only the fields the attribution rule reads.
fn event(kind: &str, message: &str, model: Option<&str>) -> Event {
    Event {
        sequence: 1,
        elapsed_ms: 0,
        kind: kind.into(),
        message: message.into(),
        observation: None,
        candidates: Vec::new(),
        decision: model.map(decision),
        arrival: None,
    }
}

#[test]
fn a_manual_takeover_is_labelled_manual_and_outranks_a_model_decision() {
    let takeover = "Manual action; mixed control";
    assert_eq!(
        event_origin(&event("action", takeover, None)),
        Some(ActionOrigin::Manual)
    );
    assert_eq!(
        event_origin(&event("dispatched", takeover, Some("jev-1.13.0"))),
        Some(ActionOrigin::Manual)
    );
    assert_eq!(
        event_origin(&event("dispatched", takeover, Some("offline-fixture"))),
        Some(ActionOrigin::Manual)
    );
}

#[test]
fn the_offline_fixture_identity_is_labelled_fixture_on_its_goal_rows() {
    for kind in ["decision", "dispatched"] {
        assert_eq!(
            event_origin(&event(
                kind,
                "synthetic fixture decision",
                Some("offline-fixture")
            )),
            Some(ActionOrigin::Fixture),
            "kind {kind} from the fixture must read as a fixture choice"
        );
    }
}

#[test]
fn a_configured_model_goal_is_labelled_jev_selected_on_all_four_goal_rows() {
    for kind in ["decision", "dispatched", "action", "executor"] {
        assert_eq!(
            event_origin(&event(kind, "Jev selected goal", Some("jev-1.13.0"))),
            Some(ActionOrigin::JevSelected),
            "kind {kind} from a configured model must read as a model choice"
        );
    }
}

#[test]
fn engine_bookkeeping_and_decision_less_goal_rows_record_no_origin() {
    for kind in [
        "connect",
        "control",
        "observation",
        "request",
        "error",
        "budget",
    ] {
        assert_eq!(
            event_origin(&event(kind, "engine bookkeeping", None)),
            None,
            "kind {kind} is engine bookkeeping and must stay unlabelled"
        );
    }
    assert_eq!(
        event_origin(&event("request", "asked", Some("jev-1.13.0"))),
        None
    );
    assert_eq!(
        event_origin(&event("action", "adapter accepted bounded action", None)),
        None
    );
    assert_eq!(
        event_origin(&event("executor", "Local executor: target reached", None)),
        None
    );
}

#[test]
fn the_four_labels_are_exact_and_distinct() {
    assert_eq!(ActionOrigin::JevSelected.label(), "JEV-SELECTED");
    assert_eq!(ActionOrigin::Fixture.label(), "FIXTURE");
    assert_eq!(ActionOrigin::Manual.label(), "MANUAL");
    assert_eq!(ActionOrigin::SafetyReflex.label(), "SAFETY-REFLEX");
    let labels = [
        ActionOrigin::JevSelected.label(),
        ActionOrigin::Fixture.label(),
        ActionOrigin::Manual.label(),
        ActionOrigin::SafetyReflex.label(),
    ];
    let unique: std::collections::BTreeSet<&str> = labels.iter().copied().collect();
    assert_eq!(
        unique.len(),
        4,
        "the origins must be distinguishable, not four spellings of one label"
    );
}

#[test]
fn a_safety_reflex_action_is_labelled_as_engine_initiated_not_model_selected() {
    for (kind, message) in [
        (
            "reflex",
            "Engine safety action: Zombie is 3.0 blocks away; no goal in flight and fleeing via flee_0",
        ),
        (
            "dispatched",
            "SAFETY-REFLEX; engine-initiated bounded action; queued for adapter validation: flee_0",
        ),
        (
            "action",
            "SAFETY-REFLEX; engine-initiated bounded action; adapter accepted bounded action: flee_0",
        ),
    ] {
        assert_eq!(
            event_origin(&event(kind, message, None)),
            Some(ActionOrigin::SafetyReflex),
            "{kind} row"
        );
    }
    assert_eq!(
        event_origin(&event(
            "dispatched",
            "Jev selected goal; queued for adapter validation: flee_0",
            Some("jev-1.13.0")
        )),
        Some(ActionOrigin::JevSelected)
    );
}

#[test]
fn the_takeover_text_must_appear_exactly_to_count_as_manual() {
    assert_eq!(
        event_origin(&event("action", "manual action (lower case)", Some("jev-1.13.0"))),
        Some(ActionOrigin::JevSelected)
    );
    assert_eq!(
        event_origin(&event("action", "prefix Manual action suffix", None)),
        Some(ActionOrigin::Manual)
    );
}
