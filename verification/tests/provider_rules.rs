use jev_game_engine::json::{Json, JsonNumber};
use jev_game_engine::model::{Candidate, Position};
use jev_game_engine::provider::{
    declared_length_fits, is_rejected_answer, model_reveals_key, read_answer, read_metadata,
    read_response,
    request_body, request_error, response_fits, Answer, Metadata, ProviderError,
    MAX_RESPONSE_BYTES, REJECTED_ANSWER,
};
use serde_json::Value;

fn value(text: &str) -> Value {
    serde_json::from_str(text).unwrap()
}

fn to_json(v: Value) -> Json {
    match v {
        Value::Null => Json::Null,
        Value::Bool(b) => Json::Bool(b),
        Value::Number(n) => Json::Number(if let Some(u) = n.as_u64() {
            JsonNumber::Unsigned(u)
        } else if let Some(i) = n.as_i64() {
            JsonNumber::Signed(i)
        } else {
            JsonNumber::Float(n.as_f64().unwrap().to_bits())
        }),
        Value::String(s) => Json::Text(s),
        Value::Array(items) => Json::Array(items.into_iter().map(to_json).collect()),
        Value::Object(entries) => {
            Json::Object(entries.into_iter().map(|(k, v)| (k, to_json(v))).collect())
        }
    }
}

fn candidates() -> Vec<Candidate> {
    ["wait", "waypoint_1"]
        .into_iter()
        .map(|id| Candidate {
            id: id.into(),
            description: id.into(),
            target: None,
            duration_ms: 2_000,
        })
        .collect()
}

fn response() -> Value {
    value(
        r#"{
        "model": "jev-1.13.0",
        "answers": {"action": {"type": "choice", "choice": "wait",
            "probabilities": {"wait": 0.75, "waypoint_1": 0.25}, "confidence": 0.42}},
        "usage": {"input_tokens": 321, "output_tokens": 17}
    }"#,
    )
}

/// Everything the library decides about a response: the answer, then the metadata.
fn validate(v: Value, candidates: &[Candidate]) -> Result<(Answer, Metadata), ProviderError> {
    let json = to_json(v);
    let answer = read_answer(&json, candidates)?;
    let metadata = read_metadata(&json)?;
    Ok((answer, metadata))
}

#[test]
fn preserves_actual_model_metrics_and_measured_latency() {
    let (answer, metadata) = validate(response(), &candidates()).unwrap();
    assert_eq!(metadata.model, "jev-1.13.0");
    assert_eq!(answer.choice, "wait");
    assert_eq!(
        answer.probabilities,
        vec![
            ("wait".to_string(), 0.75f64.to_bits()),
            ("waypoint_1".to_string(), 0.25f64.to_bits())
        ]
    );
    assert_eq!(metadata.confidence_bits, Some(0.42f64.to_bits()));
    assert_eq!(metadata.input_tokens, Some(321));
    assert_eq!(metadata.output_tokens, Some(17));
}

#[test]
fn absent_optional_metrics_are_unknown_not_fabricated_zeroes() {
    let mut v = response();
    v["answers"]["action"]
        .as_object_mut()
        .unwrap()
        .remove("confidence");
    v.as_object_mut().unwrap().remove("usage");
    let (_, metadata) = validate(v, &candidates()).unwrap();
    assert_eq!(metadata.confidence_bits, None);
    assert_eq!(metadata.input_tokens, None);
    assert_eq!(metadata.output_tokens, None);
    let mut v = response();
    v["usage"] = value(r#"{"input_tokens": 0}"#);
    let (_, metadata) = validate(v, &candidates()).unwrap();
    assert_eq!(metadata.input_tokens, Some(0));
    assert_eq!(metadata.output_tokens, None);
}

#[test]
fn rejects_wrong_response_shape_or_missing_action_answer() {
    for malformed in [
        "null",
        "[]",
        r#""text""#,
        "{}",
        r#"{"answers": {"other": {"choice": "wait"}}}"#,
        r#"{"answers": {"action": []}}"#,
    ] {
        assert!(validate(value(malformed), &candidates()).is_err());
    }
    for field in ["type", "choice", "probabilities"] {
        let mut v = response();
        v["answers"]["action"].as_object_mut().unwrap().remove(field);
        assert!(validate(v, &candidates()).is_err(), "missing {field}");
    }
    for (field, bad) in [
        ("type", r#""noul""#),
        ("choice", "5"),
        ("choice", r#""not_available""#),
        ("probabilities", "[]"),
    ] {
        let mut v = response();
        v["answers"]["action"][field] = value(bad);
        assert!(validate(v, &candidates()).is_err(), "invalid {field}");
    }
}

#[test]
fn each_shape_error_names_its_rule() {
    let cases = [
        ("{}", ProviderError::MissingAnswer),
        (
            r#"{"answers": {"action": {"type": "noul"}}}"#,
            ProviderError::InvalidAnswerType,
        ),
        (
            r#"{"answers": {"action": {"type": "choice", "choice": 5}}}"#,
            ProviderError::MissingChoice,
        ),
        (
            r#"{"answers": {"action": {"type": "choice", "choice": "north"}}}"#,
            ProviderError::UnavailableChoice,
        ),
        (
            r#"{"answers": {"action": {"type": "choice", "choice": "wait", "probabilities": []}}}"#,
            ProviderError::MissingProbabilities,
        ),
    ];
    for (text, expected) in cases {
        assert_eq!(
            read_answer(&to_json(value(text)), &candidates()).err(),
            Some(expected),
            "{text}"
        );
    }
}

#[test]
fn probabilities_must_cover_exactly_the_offered_choices() {
    for probabilities in [
        r#"{"wait": 1.0}"#,
        r#"{"wait": 0.75, "unknown": 0.25}"#,
        r#"{"wait": 0.75, "waypoint_1": 0.25, "unknown": 0.0}"#,
    ] {
        let mut v = response();
        v["answers"]["action"]["probabilities"] = value(probabilities);
        assert_eq!(
            validate(v, &candidates()).err(),
            Some(ProviderError::ProbabilityOptionsMismatch)
        );
    }
}

#[test]
fn rejects_invalid_probability_numbers() {
    for bad in ["-0.01", "1.01", "null", r#""NaN""#, r#""Infinity""#, "false", "{}"] {
        let mut v = response();
        v["answers"]["action"]["probabilities"]["wait"] = value(bad);
        assert!(validate(v, &candidates()).is_err(), "{bad}");
    }
    let mut v = response();
    v["answers"]["action"]["probabilities"]["wait"] = value("2");
    assert_eq!(
        validate(v, &candidates()).err(),
        Some(ProviderError::ProbabilityOutOfRange)
    );
    let mut v = response();
    v["answers"]["action"]["probabilities"]["wait"] = value("null");
    assert_eq!(
        validate(v, &candidates()).err(),
        Some(ProviderError::InvalidProbability)
    );
}

#[test]
fn integer_probabilities_read_as_their_float_values() {
    let mut v = response();
    v["answers"]["action"]["probabilities"] = value(r#"{"wait": 1, "waypoint_1": 0}"#);
    let (answer, _) = validate(v, &candidates()).unwrap();
    assert_eq!(
        answer.probabilities,
        vec![
            ("wait".to_string(), 1.0f64.to_bits()),
            ("waypoint_1".to_string(), 0.0f64.to_bits())
        ]
    );
}

#[test]
fn the_answer_keeps_the_recorded_numbers_without_renormalizing() {
    let mut v = response();
    v["answers"]["action"]["probabilities"] = value(r#"{"wait": 0.75, "waypoint_1": 0.2495}"#);
    let (answer, _) = validate(v, &candidates()).unwrap();
    assert_eq!(answer.probabilities[1].1, 0.2495f64.to_bits());
}

#[test]
fn rejects_malformed_optional_confidence_and_usage() {
    for bad in ["null", "-0.1", "1.1", r#""0.5""#, "true"] {
        let mut v = response();
        v["answers"]["action"]["confidence"] = value(bad);
        assert!(validate(v, &candidates()).is_err());
    }
    for bad in ["null", "[]", r#""unknown""#] {
        let mut v = response();
        v["usage"] = value(bad);
        assert!(validate(v, &candidates()).is_err());
    }
    for key in ["input_tokens", "output_tokens"] {
        for bad in ["null", "-1", "0.5", r#""3""#, "false"] {
            let mut v = response();
            v["usage"][key] = value(bad);
            assert!(validate(v, &candidates()).is_err(), "invalid {key}");
        }
    }
}

#[test]
fn rejects_missing_or_unusable_model_identity() {
    let mut v = response();
    v.as_object_mut().unwrap().remove("model");
    assert_eq!(
        validate(v, &candidates()).err(),
        Some(ProviderError::MissingModel)
    );
    for bad in [
        "null".to_string(),
        "5".to_string(),
        r#""""#.to_string(),
        r#""model\nsecret""#.to_string(),
        format!("\"{}\"", "x".repeat(129)),
    ] {
        let mut v = response();
        v["model"] = value(&bad);
        assert!(validate(v, &candidates()).is_err());
    }
}

#[test]
fn invalid_candidate_sets_cannot_define_an_action_space() {
    assert!(validate(response(), &[]).is_err());
    let mut duplicate = candidates();
    duplicate[1].id = duplicate[0].id.clone();
    assert!(validate(response(), &duplicate).is_err());
    let mut blank = candidates();
    blank[0].id = " \t".into();
    assert!(validate(response(), &blank).is_err());
    let too_many: Vec<_> = (0..256)
        .map(|i| Candidate {
            id: format!("option_{i}"),
            description: String::new(),
            target: None,
            duration_ms: 1,
        })
        .collect();
    assert!(validate(response(), &too_many).is_err());
}

#[test]
fn rejected_server_content_is_not_reflected_in_errors() {
    const SECRET: &str = "private-marker-that-must-not-be-logged";
    for path in [
        "/answers/action/choice",
        "/answers/action/confidence",
        "/model",
        "/usage/input_tokens",
    ] {
        let mut v = response();
        *v.pointer_mut(path).unwrap() = Value::String(format!("{SECRET}\n"));
        let error = validate(v, &candidates()).err().unwrap();
        assert!(!error.message().contains(SECRET));
        assert!(!format!("{error:?}").contains(SECRET));
    }
}

#[test]
fn answer_errors_carry_the_rejected_answer_prefix_and_request_errors_do_not() {
    let rejected = ProviderError::UnavailableChoice.message();
    assert_eq!(
        rejected,
        format!("{REJECTED_ANSWER}TypeSafe selected an unavailable action")
    );
    assert!(is_rejected_answer(&rejected));
    let refused = ProviderError::MissingApiKey.message();
    assert_eq!(refused, "TypeSafe API key is missing");
    assert!(!is_rejected_answer(&refused));
}

#[test]
fn requests_need_candidates_a_key_a_timeout_and_a_valid_objective() {
    let c = candidates();
    assert_eq!(request_error("key", &c, "Survive", 2_000), None);
    assert_eq!(
        request_error("key", &[], "", 2_000),
        Some(ProviderError::InvalidCandidateCount)
    );
    assert_eq!(
        request_error(" \t", &c, "", 2_000),
        Some(ProviderError::MissingApiKey)
    );
    assert_eq!(request_error("key", &c, "", 0), Some(ProviderError::ZeroTimeout));
    assert_eq!(
        request_error("key", &c, "Survive\u{7}", 2_000),
        Some(ProviderError::InvalidObjective)
    );
    assert_eq!(
        request_error("key", &c, &"x".repeat(401), 2_000),
        Some(ProviderError::InvalidObjective)
    );
}

#[test]
fn a_model_identity_that_repeats_the_key_is_refused() {
    assert!(model_reveals_key("jev-abc123-x", "abc123"));
    assert!(!model_reveals_key("jev-1.13.0", "abc123"));
    assert_eq!(
        ProviderError::ModelRevealsKey.message(),
        format!("{REJECTED_ANSWER}TypeSafe returned invalid model metadata")
    );
}

#[test]
fn the_response_size_limit_is_inclusive() {
    assert!(response_fits(0, MAX_RESPONSE_BYTES));
    assert!(!response_fits(1, MAX_RESPONSE_BYTES));
    assert!(!response_fits(usize::MAX, usize::MAX));
    assert!(declared_length_fits(None));
    assert!(declared_length_fits(Some(262_144)));
    assert!(!declared_length_fits(Some(262_145)));
}

fn observation_json() -> Json {
    Json::Object(vec![("note".into(), Json::Text("test fixture".into()))])
}

fn wait() -> Candidate {
    Candidate {
        id: "wait".into(),
        description: "Wait without moving".into(),
        target: None,
        duration_ms: 2_000,
    }
}

#[test]
fn an_empty_objective_leaves_the_request_body_as_it_was() {
    let body = request_body(observation_json(), &[wait()], "   ");
    assert!(body.get("state").unwrap().get("objective").is_none());
    let instructions = body
        .get("questions")
        .and_then(|q| q.get("action"))
        .and_then(|a| a.get("instructions"))
        .and_then(|i| i.as_text())
        .unwrap();
    assert!(!instructions.contains("session objective"));
    assert_eq!(
        body.get("state")
            .and_then(|s| s.get("observation"))
            .and_then(|o| o.get("note"))
            .and_then(|n| n.as_text()),
        Some("test fixture")
    );
}

#[test]
fn an_objective_travels_as_state_and_is_named_in_the_instructions() {
    let body = request_body(observation_json(), &[wait()], " Survive the night. ");
    assert_eq!(
        body.get("state")
            .and_then(|s| s.get("objective"))
            .and_then(|o| o.as_text()),
        Some("Survive the night.")
    );
    let action = body.get("questions").and_then(|q| q.get("action")).unwrap();
    let instructions = action.get("instructions").and_then(|i| i.as_text()).unwrap();
    assert!(instructions.contains("session objective"));
    assert!(instructions.contains("`objective`"));
    assert_eq!(action.get("type").and_then(|t| t.as_text()), Some("choice"));
    assert_eq!(
        action
            .get("criteria")
            .and_then(|c| c.get("wait"))
            .and_then(|w| w.get("duration_ms")),
        Some(&Json::Number(JsonNumber::Unsigned(2_000)))
    );
    assert_eq!(body.get("model").and_then(|m| m.as_text()), Some("jev-latest"));
}

#[test]
fn criteria_state_targets_and_keep_one_entry_per_identifier() {
    let north = Candidate {
        id: "waypoint_1".into(),
        description: "North".into(),
        target: Some(Position {
            x_bits: 1.5f64.to_bits(),
            y_bits: 64.0f64.to_bits(),
            z_bits: (-3.0f64).to_bits(),
        }),
        duration_ms: 4_000,
    };
    let mut again = wait();
    again.description = "Wait again".into();
    let body = request_body(Json::Null, &[wait(), north, again], "");
    let criteria = body
        .get("questions")
        .and_then(|q| q.get("action"))
        .and_then(|a| a.get("criteria"))
        .unwrap();
    let Json::Object(entries) = criteria else {
        panic!("criteria is an object");
    };
    assert_eq!(entries.len(), 2);
    assert_eq!(
        criteria
            .get("wait")
            .and_then(|w| w.get("description"))
            .and_then(|d| d.as_text()),
        Some("Wait again"),
        "a repeated identifier states its last candidate"
    );
    let target = criteria.get("waypoint_1").and_then(|w| w.get("target")).unwrap();
    assert_eq!(
        target.get("z"),
        Some(&Json::Number(JsonNumber::Float((-3.0f64).to_bits())))
    );
    assert_eq!(
        criteria.get("wait").and_then(|w| w.get("target")),
        Some(&Json::Null)
    );
}

#[test]
fn the_raw_response_body_is_parsed_before_it_is_read() {
    let body = response().to_string();
    let read = read_response(body.as_bytes(), &candidates()).unwrap();
    assert_eq!(read.answer.choice, "wait");
    let metadata = read.metadata.unwrap();
    assert_eq!(metadata.model, "jev-1.13.0");
    assert_eq!(metadata.input_tokens, Some(321));
    assert_eq!(metadata.output_tokens, Some(17));
    assert_eq!(metadata.confidence_bits, Some(0.42f64.to_bits()));
    for broken in ["", "{", "not json", "{\"model\": }"] {
        let error = read_response(broken.as_bytes(), &candidates()).err();
        assert_eq!(error, Some(ProviderError::InvalidJson), "{broken}");
    }
    assert_eq!(
        ProviderError::InvalidJson.message(),
        "TypeSafe answer rejected: TypeSafe returned invalid JSON"
    );
}

#[test]
fn a_bad_answer_is_refused_before_the_metadata_is_read() {
    let mut v = response();
    v["answers"]["action"]["choice"] = value(r#""jump""#);
    v["model"] = value("7");
    let error = read_response(v.to_string().as_bytes(), &candidates()).err();
    assert_eq!(error, Some(ProviderError::UnavailableChoice));
    let mut v = response();
    v["model"] = value("7");
    let read = read_response(v.to_string().as_bytes(), &candidates()).unwrap();
    assert_eq!(read.answer.choice, "wait");
    assert_eq!(read.metadata.err(), Some(ProviderError::MissingModel));
}

#[test]
fn rejected_strings_never_reach_the_error_text() {
    let mut first = response();
    first["model"] = value(r#""private-marker-that-must-not-be-logged\n""#);
    let mut second = response();
    second["model"] = value(r#""other\n""#);
    let e1 = read_response(first.to_string().as_bytes(), &candidates()).unwrap().metadata.err().unwrap();
    let e2 = read_response(second.to_string().as_bytes(), &candidates()).unwrap().metadata.err().unwrap();
    assert_eq!(e1, e2);
    assert_eq!(e1.message(), e2.message());
    assert!(!e1.message().contains("private-marker"));
}
