use jev_game_engine::capture::{
    capture_gate, capture_ready, latest_verdict, requests_capture, steps_for_verdict,
};
use jev_game_engine::model::{ArrivalVerdict, Event};

fn event(sequence: u64, with_arrival: bool) -> Event {
    Event {
        sequence,
        elapsed_ms: sequence,
        kind: "executor".into(),
        message: String::new(),
        observation: None,
        candidates: vec![],
        decision: None,
        arrival: with_arrival.then(|| ArrivalVerdict {
            target: None,
            measured_distance_bits: None,
            tolerance_bits: 0.6f64.to_bits(),
            duration_ms: 2_000,
            elapsed_ms: 2_000,
            arrived: false,
        }),
    }
}

#[test]
fn the_capture_after_a_goal_selects_the_latest_verdict() {
    assert_eq!(latest_verdict(&[]), None);
    let events = vec![event(1, true), event(2, false), event(3, true), event(4, false)];
    assert_eq!(latest_verdict(&events), Some(2));
    assert_eq!(latest_verdict(&events[..2]), Some(0));
    assert_eq!(latest_verdict(&[event(1, false)]), None);
}

#[test]
fn only_an_offline_capture_after_a_goal_steps_the_fixture_once() {
    assert!(steps_for_verdict(true, false, true, true));
    assert!(!steps_for_verdict(true, true, true, true));
    assert!(!steps_for_verdict(true, false, false, true));
    assert!(!steps_for_verdict(true, false, true, false));
    assert!(!steps_for_verdict(false, false, true, true));
}

#[test]
fn a_capture_after_a_goal_waits_for_eight_drawn_frames_or_thirty_seconds() {
    assert!(!capture_ready(true, true, 7, 29_999, true, true, false));
    assert!(capture_ready(true, true, 8, 0, true, true, false));
    assert!(!capture_ready(true, false, 100, 29_999, false, true, true));
    assert!(capture_ready(true, false, 0, 30_000, true, false, false));
}

#[test]
fn a_first_observation_capture_waits_for_live_data_or_twenty_seconds() {
    assert!(capture_ready(false, false, 0, 0, false, false, false));
    assert!(!capture_ready(false, false, 0, 19_999, true, false, false));
    assert!(capture_ready(false, false, 0, 0, true, true, false));
    assert!(capture_ready(false, false, 0, 0, true, false, true));
    assert!(capture_ready(false, false, 0, 20_000, true, false, false));
}

#[test]
fn the_screenshot_is_requested_once_after_five_frames_and_half_a_second() {
    assert!(requests_capture(false, 5, 500, true));
    assert!(!requests_capture(true, 5, 500, true));
    assert!(!requests_capture(false, 4, 500, true));
    assert!(!requests_capture(false, 5, 499, true));
    assert!(!requests_capture(false, 5, 500, false));
}

#[test]
fn the_saved_message_names_the_moment_of_capture() {
    assert_eq!(capture_gate(true, true), "after an arrival verdict");
    assert_eq!(capture_gate(true, false), "at the 30 s bound without an arrival verdict");
    assert_eq!(capture_gate(false, false), "at the first observation");
    assert_eq!(capture_gate(false, true), "at the first observation");
}

#[test]
fn readiness_after_a_goal_is_never_withdrawn_by_later_frames() {
    assert!(capture_ready(true, true, 8, 100, true, false, false));
    assert!(capture_ready(true, true, 9, 200, true, false, false));
    assert!(capture_ready(true, false, 0, 30_000, true, false, false));
    assert!(capture_ready(true, false, 3, 40_000, true, false, false));
}
