use jev_game_engine::model::{Candidate, Decision, Event, Observation, Position};
use jev_game_engine::timeline::{
    clamp_page, detail_index, latest_decision, manual_allowed, page_count, page_rows,
};

fn event(sequence: u64, with_decision: bool) -> Event {
    Event {
        sequence,
        elapsed_ms: sequence,
        kind: "observation".into(),
        message: String::new(),
        observation: None,
        candidates: vec![],
        decision: with_decision.then(|| Decision {
            choice: "wait".into(),
            probabilities: vec![],
            confidence_bits: None,
            model: "offline-fixture".into(),
            input_tokens: None,
            output_tokens: None,
            latency_ms: 0,
        }),
        arrival: None,
    }
}

#[test]
fn oldest_event_in_large_recording_is_visible_and_selectable() {
    let len = 501;
    let pages = page_count(len);
    assert_eq!(pages, 6);
    let last = clamp_page(usize::MAX, len);
    assert_eq!(last, 5);
    let rows = page_rows(len, last);
    assert_eq!(rows, vec![0], "oldest event must render on the final page");
    assert_eq!(page_rows(len, 0).len(), 100);
    assert_eq!(page_rows(len, 0)[0], 500, "the first page starts with the newest event");
}

#[test]
fn every_event_is_shown_exactly_once_across_pages() {
    for len in [0usize, 1, 99, 100, 101, 250] {
        let mut seen = vec![0; len];
        for page in 0..page_count(len) {
            for row in page_rows(len, page) {
                seen[row] += 1;
            }
        }
        assert!(seen.iter().all(|count| *count == 1), "{len}");
        assert!(page_rows(len, page_count(len)).is_empty());
    }
    assert_eq!(page_count(0), 1);
}

#[test]
fn the_detail_panel_follows_the_selection_or_the_latest_event() {
    let events = vec![event(1, false), event(2, true), event(3, false)];
    assert_eq!(detail_index(&events, None), Some(2));
    assert_eq!(detail_index(&events, Some(2)), Some(1));
    assert_eq!(detail_index(&events, Some(9)), Some(2));
    assert_eq!(detail_index(&[], Some(1)), None);
    assert_eq!(latest_decision(&events), Some(1));
    assert_eq!(latest_decision(&events[2..]), None);
}

fn goal(id: &str) -> Candidate {
    Candidate {
        id: id.into(),
        description: "Navigate".into(),
        target: Some(Position {
            x_bits: 1.0f64.to_bits(),
            y_bits: 64.0f64.to_bits(),
            z_bits: 0.0f64.to_bits(),
        }),
        duration_ms: 2_000,
    }
}

fn observation(connected: bool) -> Option<Observation> {
    Some(Observation {
        world_epoch: 1,
        dimension: Some("fixture:overworld".into()),
        deaths: 0,
        sequence: 4,
        connected,
        position: Position {
            x_bits: 0.0f64.to_bits(),
            y_bits: 64.0f64.to_bits(),
            z_bits: 0.0f64.to_bits(),
        },
        health_bits: 20.0f32.to_bits(),
        food_bits: 20.0f32.to_bits(),
        inventory: vec![],
        blocks: vec![],
        entities: vec![],
        note: String::new(),
    })
}

#[test]
fn manual_controls_use_the_current_candidates_and_a_connected_observation() {
    let current = vec![goal("waypoint_0"), goal("wait")];
    assert!(manual_allowed(false, &current, &goal("waypoint_0"), &observation(true)));
    assert!(!manual_allowed(true, &current, &goal("waypoint_0"), &observation(true)));
    assert!(!manual_allowed(false, &current, &goal("waypoint_1"), &observation(true)));
    assert!(!manual_allowed(false, &current, &goal("waypoint_0"), &observation(false)));
    assert!(!manual_allowed(false, &current, &goal("waypoint_0"), &None));
    let mut stale = goal("waypoint_0");
    stale.duration_ms = 8_000;
    assert!(
        !manual_allowed(false, &current, &stale, &observation(true)),
        "a stale snapshot with other limits must not execute"
    );
}
