use jev_game_engine::json::{Json, JsonNumber};
use jev_game_engine::sanitize::{
    check_path, parse_arguments, replace_in_strings, sanitize_text, validated_file_name, SanitizeError, USAGE,
};

fn args(words: &[&str]) -> Vec<String> {
    words.iter().map(|word| word.to_string()).collect()
}

#[test]
fn paths_and_pairs_are_read_in_order() {
    let invocation = parse_arguments(&args(&[
        "in.json",
        "--redact",
        "alice=player",
        "out.json",
        "--redact=10.0.0.7=host",
    ]))
    .unwrap();
    assert_eq!(invocation.input, "in.json");
    assert_eq!(invocation.output, "out.json");
    assert_eq!(
        invocation.replacements,
        vec![
            ("alice".to_string(), "player".to_string()),
            ("10.0.0.7".to_string(), "host".to_string())
        ],
        "a pair splits at its first `=`"
    );
}

#[test]
fn every_refusal_names_its_reason() {
    assert_eq!(
        parse_arguments(&args(&["in.json", "out.json", "--redact"])).err(),
        Some(SanitizeError::MissingRedactValue)
    );
    assert_eq!(
        parse_arguments(&args(&["in.json", "out.json", "--dry-run"])).err(),
        Some(SanitizeError::UnknownOption("--dry-run".into()))
    );
    assert_eq!(
        parse_arguments(&args(&["in.json", "out.json", "--redact", "alice"])).err(),
        Some(SanitizeError::NotAPair("alice".into()))
    );
    assert_eq!(
        parse_arguments(&args(&["in.json", "out.json", "--redact==x"])).err(),
        Some(SanitizeError::EmptyFrom)
    );
    assert_eq!(
        parse_arguments(&args(&["in.json", "--redact", "a=b"])).err(),
        Some(SanitizeError::Usage)
    );
    assert_eq!(
        parse_arguments(&args(&["in.json", "out.json"])).err(),
        Some(SanitizeError::NoRedaction)
    );
    assert_eq!(
        parse_arguments(&args(&["in.json", "out.json", "--redact", "a="]))
            .unwrap()
            .replacements,
        vec![("a".to_string(), String::new())],
        "an empty replacement is allowed"
    );
}

#[test]
fn refusal_messages_end_with_the_usage() {
    assert_eq!(
        SanitizeError::UnknownOption("--x".into()).message(),
        format!("unknown option --x\n{USAGE}")
    );
    assert_eq!(SanitizeError::Usage.message(), USAGE);
    assert!(SanitizeError::NoRedaction
        .message()
        .starts_with("Refusing to run without --redact"));
    assert_eq!(
        SanitizeError::MissingRedactValue.message(),
        "--redact needs a from=to argument after it"
    );
}

fn text(s: &str) -> Json {
    Json::Text(s.into())
}

#[test]
fn only_string_values_are_rewritten_and_every_occurrence_is_counted() {
    let document = Json::Object(vec![
        ("alice".into(), text("alice met alice")),
        (
            "events".into(),
            Json::Array(vec![
                text("by alice"),
                Json::Number(JsonNumber::Unsigned(7)),
                Json::Bool(true),
                Json::Null,
            ]),
        ),
        ("distance".into(), Json::Number(JsonNumber::Float(2.5f64.to_bits()))),
    ]);
    let (result, count) = replace_in_strings(&document, "alice", "player");
    assert_eq!(count, 3);
    assert_eq!(
        result,
        Json::Object(vec![
            ("alice".into(), text("player met player")),
            (
                "events".into(),
                Json::Array(vec![
                    text("by player"),
                    Json::Number(JsonNumber::Unsigned(7)),
                    Json::Bool(true),
                    Json::Null,
                ]),
            ),
            ("distance".into(), Json::Number(JsonNumber::Float(2.5f64.to_bits()))),
        ]),
        "keys and numbers are never touched"
    );
}

#[test]
fn string_replacement_matches_the_standard_library() {
    for (s, from, to) in [
        ("aaa", "aa", "b"),
        ("abcabc", "bc", ""),
        ("abc", "", "X"),
        ("", "", "X"),
        ("é-é", "é", "e"),
        ("nothing here", "zzz", "y"),
    ] {
        let (result, count) = replace_in_strings(&text(s), from, to);
        assert_eq!(result, text(&s.replace(from, to)), "{s:?} {from:?}");
        assert_eq!(count, s.matches(from).count(), "{s:?} {from:?}");
    }
}

#[test]
fn the_result_is_validated_beside_the_output() {
    assert_eq!(check_path("out/run.json"), "out/run.validated.json");
    assert_eq!(check_path("run.json"), "run.validated.json");
    assert_eq!(validated_file_name(None), "sanitized.validated.json");
    assert_eq!(validated_file_name(Some("night".into())), "night.validated.json");
}

fn sample() -> Json {
    Json::Object(vec![
        ("id".into(), text("session-1")),
        (
            "events".into(),
            Json::Array(vec![
                text("JevBot joined"),
                Json::Number(JsonNumber::Float(0.6f64.to_bits())),
                Json::Number(JsonNumber::Signed(-3)),
            ]),
        ),
    ])
}

#[test]
fn a_name_that_occurs_nowhere_leaves_the_document_as_it_was() {
    let (result, count) = replace_in_strings(&sample(), "alice", "player");
    assert_eq!(count, 0);
    assert_eq!(result, sample());
}

#[test]
fn numbers_and_keys_survive_a_replacement_that_touches_strings() {
    let (result, count) = replace_in_strings(&sample(), "JevBot", "Bot");
    assert_eq!(count, 1);
    match result {
        Json::Object(entries) => {
            assert_eq!(entries[0], ("id".into(), text("session-1")));
            assert_eq!(entries[1].0, "events");
            assert_eq!(
                entries[1].1,
                Json::Array(vec![
                    text("Bot joined"),
                    Json::Number(JsonNumber::Float(0.6f64.to_bits())),
                    Json::Number(JsonNumber::Signed(-3)),
                ])
            );
        }
        other => panic!("the document stays an object, got {other:?}"),
    }
}

#[test]
fn recording_text_is_parsed_and_every_pair_is_applied_in_order() {
    let pairs = vec![
        ("JevBot".to_string(), "Bot".to_string()),
        ("Bot".to_string(), "Player".to_string()),
    ];
    let text = r#"{"id":"JevBot session","events":["JevBot met a Bot",0.6,-3]}"#;
    let (document, counts) = sanitize_text(text.as_bytes(), &pairs).unwrap();
    assert_eq!(counts, vec![2, 3]);
    assert_eq!(
        document,
        Json::Object(vec![
            (
                "events".into(),
                Json::Array(vec![
                    text_value("Player met a Player"),
                    Json::Number(JsonNumber::Float(0.6f64.to_bits())),
                    Json::Number(JsonNumber::Signed(-3)),
                ]),
            ),
            ("id".into(), text_value("Player session")),
        ])
    );
    assert!(sanitize_text(b"{not json", &pairs).is_none());
}

fn text_value(s: &str) -> Json {
    Json::Text(s.into())
}
