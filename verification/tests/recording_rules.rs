use jev_game_engine::model::{
    ArrivalVerdict, Candidate, Decision, Event, Mode, Observation, Position, Recording, Settings,
};
use jev_game_engine::recording::{self, DecisionError, RecordingError};

fn position(x: f64, y: f64, z: f64) -> Position {
    Position {
        x_bits: x.to_bits(),
        y_bits: y.to_bits(),
        z_bits: z.to_bits(),
    }
}

fn recording() -> Recording {
    Recording {
        schema_version: 1,
        id: "offline-contract-run".into(),
        settings: Settings::default(),
        events: vec![Event {
            sequence: 1,
            elapsed_ms: 10,
            kind: "decision".into(),
            message: "Validated choice".into(),
            observation: Some(Observation {
                world_epoch: 1,
                dimension: Some("fixture:overworld".into()),
                deaths: 0,
                sequence: 1,
                connected: true,
                position: position(1.5, 64.0, 2.5),
                health_bits: 20.0f32.to_bits(),
                food_bits: 20.0f32.to_bits(),
                inventory: vec!["stone x2".into()],
                blocks: vec![],
                entities: vec![],
                note: "Offline test observation".into(),
            }),
            candidates: vec![Candidate {
                id: "wait".into(),
                description: "Wait".into(),
                target: None,
                duration_ms: 2_000,
            }],
            decision: Some(Decision {
                choice: "wait".into(),
                probabilities: vec![("wait".into(), 1.0f64.to_bits())],
                confidence_bits: Some(1.0f64.to_bits()),
                model: "jev-contract-fixture".into(),
                input_tokens: Some(10),
                output_tokens: Some(2),
                latency_ms: 300,
            }),
            arrival: None,
        }],
    }
}

fn set_probability(data: &mut Recording, key: &str, bits: u64) {
    let probabilities = &mut data.events[0].decision.as_mut().unwrap().probabilities;
    match probabilities.iter_mut().find(|(name, _)| name == key) {
        Some(entry) => entry.1 = bits,
        None => {
            probabilities.push((key.into(), bits));
            probabilities.sort_by(|a, b| a.0.cmp(&b.0));
        }
    }
}

#[test]
fn the_contract_recording_is_valid() {
    assert_eq!(recording::validate(&recording()), Ok(()));
}

#[test]
fn rejects_unsupported_schema_and_invalid_session_ids() {
    for version in [0, 2, u32::MAX] {
        let mut data = recording();
        data.schema_version = version;
        assert!(recording::validate(&data).is_err());
    }
    for id in [String::new(), "x".repeat(129)] {
        let mut data = recording();
        data.id = id;
        assert!(recording::validate(&data).is_err());
    }
}

#[test]
fn version_and_identifier_errors_are_named() {
    let mut data = recording();
    data.schema_version = 2;
    assert_eq!(recording::validate(&data), Err(RecordingError::UnsupportedVersion));
    let mut data = recording();
    data.id = "x".repeat(128);
    assert_eq!(recording::validate(&data), Ok(()));
    data.id.push('x');
    assert_eq!(recording::validate(&data), Err(RecordingError::InvalidSessionId));
    let mut data = recording();
    data.id = "é".repeat(65);
    assert_eq!(
        recording::validate(&data),
        Err(RecordingError::InvalidSessionId),
        "the identifier bound counts bytes"
    );
}

#[test]
fn events_require_increasing_sequence_and_nondecreasing_time() {
    for (sequence, elapsed) in [(1, 10), (0, 11), (2, 9)] {
        let mut data = recording();
        let mut next = data.events[0].clone();
        next.sequence = sequence;
        next.elapsed_ms = elapsed;
        data.events.push(next);
        assert!(recording::validate(&data).is_err());
    }
    let mut data = recording();
    let mut simultaneous = data.events[0].clone();
    simultaneous.sequence = 2;
    data.events.push(simultaneous);
    assert!(
        recording::validate(&data).is_ok(),
        "separate events can share a millisecond"
    );
}

#[test]
fn an_out_of_order_event_is_an_order_error() {
    let mut data = recording();
    let mut next = data.events[0].clone();
    next.sequence = 2;
    next.elapsed_ms = 0;
    data.events.push(next);
    assert_eq!(recording::validate(&data), Err(RecordingError::EventOrder));
}

#[test]
fn bounds_event_count_and_display_text() {
    let mut data = recording();
    data.events = (0..5_000)
        .map(|i| {
            let mut event = data.events[0].clone();
            event.sequence = i;
            event.elapsed_ms = i;
            event
        })
        .collect();
    assert!(recording::validate(&data).is_ok());
    let mut extra = data.events[0].clone();
    extra.sequence = 5_000;
    extra.elapsed_ms = 5_000;
    data.events.push(extra);
    assert!(recording::validate(&data).is_err());
    let mut data = recording();
    data.events[0].kind = "k".repeat(128);
    data.events[0].message = "m".repeat(8192);
    assert!(recording::validate(&data).is_ok());
    data.events[0].kind.push('k');
    assert!(recording::validate(&data).is_err());
    data.events[0].kind = "decision".into();
    data.events[0].message.push('m');
    assert!(recording::validate(&data).is_err());
}

#[test]
fn too_many_events_and_long_text_are_named() {
    let mut data = recording();
    let template = data.events[0].clone();
    data.events = (0..5_001)
        .map(|i| {
            let mut event = template.clone();
            event.sequence = i;
            event
        })
        .collect();
    assert_eq!(recording::validate(&data), Err(RecordingError::TooManyEvents));
    let mut data = recording();
    data.events[0].message = "m".repeat(8193);
    assert_eq!(recording::validate(&data), Err(RecordingError::EventTextTooLong));
}

#[test]
fn nonfinite_recorded_positions_are_rejected_before_serialization() {
    for coordinate in [f64::NAN, f64::INFINITY, f64::NEG_INFINITY] {
        for axis in 0..3 {
            let mut data = recording();
            let position = &mut data.events[0].observation.as_mut().unwrap().position;
            match axis {
                0 => position.x_bits = coordinate.to_bits(),
                1 => position.y_bits = coordinate.to_bits(),
                _ => position.z_bits = coordinate.to_bits(),
            }
            assert!(recording::validate(&data).is_err());
            assert_eq!(recording::validate(&data), Err(RecordingError::InvalidPosition));
        }
    }
}

#[test]
fn replay_choice_must_exist_among_recorded_candidates() {
    let mut data = recording();
    data.events[0].decision.as_mut().unwrap().choice = "unrecorded_action".into();
    assert!(recording::validate(&data).is_err());
    assert_eq!(
        recording::validate(&data),
        Err(RecordingError::InvalidDecision(DecisionError::UnavailableChoice))
    );
}

#[test]
fn replay_probability_map_must_match_candidates_and_form_distribution() {
    let cases: Vec<Vec<(String, u64)>> = vec![
        vec![],
        vec![("other".into(), 1.0f64.to_bits())],
        vec![("extra".into(), 0.0f64.to_bits()), ("wait".into(), 1.0f64.to_bits())],
    ];
    for probabilities in cases {
        let mut data = recording();
        data.events[0].decision.as_mut().unwrap().probabilities = probabilities;
        assert_eq!(
            recording::validate(&data),
            Err(RecordingError::InvalidDecision(
                DecisionError::ProbabilityOptionsMismatch
            )),
            "replay must not display an incoherent probability distribution"
        );
    }
}

#[test]
fn replay_rejects_invalid_probability_and_confidence_numbers() {
    for invalid in [f64::NAN, f64::INFINITY, -0.1, 1.1] {
        let mut data = recording();
        set_probability(&mut data, "wait", invalid.to_bits());
        assert!(recording::validate(&data).is_err());
        let mut data = recording();
        data.events[0].decision.as_mut().unwrap().confidence_bits = Some(invalid.to_bits());
        assert!(
            recording::validate(&data).is_err(),
            "recorded confidence must satisfy the live contract"
        );
    }
}

#[test]
fn probability_and_confidence_bounds_are_inclusive() {
    for valid in [0.0f64, -0.0, 0.5, 1.0] {
        let mut data = recording();
        data.events[0].decision.as_mut().unwrap().confidence_bits = Some(valid.to_bits());
        assert_eq!(recording::validate(&data), Ok(()));
    }
    let mut data = recording();
    data.events[0].decision.as_mut().unwrap().confidence_bits = Some(1.1f64.to_bits());
    assert_eq!(
        recording::validate(&data),
        Err(RecordingError::InvalidDecision(DecisionError::InvalidConfidence))
    );
    let mut data = recording();
    set_probability(&mut data, "wait", f64::NAN.to_bits());
    assert_eq!(
        recording::validate(&data),
        Err(RecordingError::InvalidDecision(DecisionError::InvalidProbability))
    );
}

#[test]
fn replay_rejects_duplicate_candidate_identity() {
    let mut data = recording();
    let duplicate = data.events[0].candidates[0].clone();
    data.events[0].candidates.push(duplicate);
    assert!(
        recording::validate(&data).is_err(),
        "an action must have one unambiguous recorded candidate"
    );
    assert_eq!(recording::validate(&data), Err(RecordingError::InvalidCandidateId));
}

#[test]
fn validate_rejects_an_arrived_verdict_without_a_measured_distance() {
    let mut data = recording();
    data.events[0].arrival = Some(ArrivalVerdict {
        target: Some(position(3.0, 64.0, 0.0)),
        measured_distance_bits: None,
        tolerance_bits: 1.0f64.to_bits(),
        duration_ms: 2_000,
        elapsed_ms: 500,
        arrived: true,
    });
    let error = recording::validate(&data).unwrap_err();
    assert_eq!(error, RecordingError::ArrivedWithoutDistance);
    assert!(error.message().contains("without a measured distance"));
    data.events[0].arrival.as_mut().unwrap().measured_distance_bits = Some(0.5f64.to_bits());
    assert_eq!(recording::validate(&data), Ok(()));
    data.events[0].arrival.as_mut().unwrap().measured_distance_bits = None;
    data.events[0].arrival.as_mut().unwrap().arrived = false;
    assert_eq!(
        recording::validate(&data),
        Ok(()),
        "an expired verdict may lack a measurement"
    );
}

fn fixture_decision() -> Decision {
    Decision {
        choice: "wait".into(),
        probabilities: vec![],
        confidence_bits: None,
        model: "offline-fixture".into(),
        input_tokens: None,
        output_tokens: None,
        latency_ms: 0,
    }
}

#[test]
fn fixture_answers_belong_to_demo_recordings_without_metrics() {
    let mut data = recording();
    data.events[0].decision = Some(fixture_decision());
    assert_eq!(recording::validate(&data), Ok(()));

    let mut live = data.clone();
    live.settings.mode = Mode::Live;
    assert_eq!(
        recording::validate(&live),
        Err(RecordingError::FixtureInLiveRecording)
    );

    let mut metered = data.clone();
    metered.events[0].decision.as_mut().unwrap().input_tokens = Some(1);
    assert_eq!(
        recording::validate(&metered),
        Err(RecordingError::FixtureWithModelMetrics)
    );

    let mut elsewhere = data.clone();
    elsewhere.events[0].decision.as_mut().unwrap().choice = "north".into();
    assert_eq!(
        recording::validate(&elsewhere),
        Err(RecordingError::ChoiceNotAmongCandidates)
    );
}

#[test]
fn a_live_answer_needs_a_usable_model_identity() {
    let mut data = recording();
    data.events[0].decision.as_mut().unwrap().model = "model\nsecret".into();
    assert_eq!(
        recording::validate(&data),
        Err(RecordingError::InvalidDecision(DecisionError::InvalidModel))
    );
}

#[test]
fn refusal_messages_are_one_line_and_name_the_rule() {
    assert_eq!(
        RecordingError::InvalidDecision(DecisionError::UnavailableChoice).message(),
        "Invalid recorded model decision: TypeSafe selected an unavailable action"
    );
    assert_eq!(RecordingError::EventOrder.message(), "Invalid recording event order");
    assert_eq!(
        DecisionError::InvalidConfidence.message(),
        "TypeSafe confidence is out of range"
    );
}
