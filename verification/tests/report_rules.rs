use jev_game_engine::model::{ArrivalVerdict, Decision, Event, Position};
use jev_game_engine::report::{
    arrived_events, choice_tally, correlated_chain, executor_verdict, first_of_kind,
    verdict_breakdown, VerdictBreakdown,
};

fn decision(choice: &str) -> Decision {
    Decision {
        choice: choice.into(),
        probabilities: vec![],
        confidence_bits: None,
        model: "jev-1.13.0".into(),
        input_tokens: None,
        output_tokens: None,
        latency_ms: 100,
    }
}

fn event(sequence: u64, kind: &str, choice: Option<&str>) -> Event {
    Event {
        sequence,
        elapsed_ms: sequence * 10,
        kind: kind.into(),
        message: String::new(),
        observation: None,
        candidates: vec![],
        decision: choice.map(decision),
        arrival: None,
    }
}

fn verdict(arrived: bool, target: bool) -> ArrivalVerdict {
    ArrivalVerdict {
        target: target.then(|| Position {
            x_bits: 1.0f64.to_bits(),
            y_bits: 64.0f64.to_bits(),
            z_bits: 0.0f64.to_bits(),
        }),
        measured_distance_bits: Some(0.5f64.to_bits()),
        tolerance_bits: 1.0f64.to_bits(),
        duration_ms: 2_000,
        elapsed_ms: 700,
        arrived,
    }
}

fn session() -> Vec<Event> {
    let mut executor_arrived = event(5, "executor", None);
    executor_arrived.arrival = Some(verdict(true, true));
    let mut executor_expired = event(10, "executor", None);
    executor_expired.arrival = Some(verdict(false, true));
    let mut executor_wait = event(15, "executor", None);
    executor_wait.arrival = Some(verdict(false, false));
    vec![
        event(1, "request", None),
        event(2, "decision", Some("waypoint_1")),
        event(3, "dispatched", Some("waypoint_1")),
        event(4, "action", None),
        executor_arrived,
        event(6, "request", None),
        event(7, "decision", Some("waypoint_2")),
        event(8, "dispatched", Some("waypoint_2")),
        event(9, "action", None),
        executor_expired,
        event(11, "request", None),
        event(12, "decision", Some("wait")),
        event(13, "dispatched", Some("wait")),
        event(14, "action", None),
        executor_wait,
        event(16, "reflex", None),
    ]
}

#[test]
fn answers_are_tallied_once_and_decisions_on_every_row() {
    let events = session();
    assert_eq!(
        choice_tally(&events, true),
        vec![
            ("waypoint_1".to_string(), 1),
            ("waypoint_2".to_string(), 1),
            ("wait".to_string(), 1)
        ]
    );
    assert_eq!(
        choice_tally(&events, false),
        vec![
            ("waypoint_1".to_string(), 2),
            ("waypoint_2".to_string(), 2),
            ("wait".to_string(), 2)
        ]
    );
}

#[test]
fn verdicts_divide_into_arrived_expired_and_target_less() {
    let events = session();
    assert_eq!(
        verdict_breakdown(&events),
        VerdictBreakdown {
            reflex_events: 1,
            decision_bearing: 6,
            expired_with_target: 1,
            target_less: 1,
        }
    );
    assert_eq!(arrived_events(&events), vec![4]);
    assert_eq!(executor_verdict(&events), Some(4));
    assert_eq!(executor_verdict(&events[5..]), Some(4));
    assert_eq!(executor_verdict(&events[..4]), None);
}

#[test]
fn the_chain_is_the_four_goal_rows_before_the_verdict() {
    let events = session();
    assert_eq!(correlated_chain(&events, 5), vec![0, 1, 2, 3]);
    assert_eq!(correlated_chain(&events, 10), vec![5, 6, 7, 8]);
    assert_eq!(correlated_chain(&events, 99), Vec::<usize>::new());
    assert_eq!(
        correlated_chain(&events[2..], 5),
        vec![0, 1],
        "a chain cut short by the start of the recording keeps what there is"
    );
}

#[test]
fn the_navigation_report_quotes_the_first_request_and_the_first_decision() {
    let events = vec![
        event(1, "observation", None),
        event(2, "request", None),
        event(3, "decision", Some("waypoint_0")),
        event(4, "request", None),
        event(5, "decision", Some("wait")),
    ];
    assert_eq!(first_of_kind(&events, "request"), Some(1));
    assert_eq!(first_of_kind(&events, "decision"), Some(2));
    assert_eq!(first_of_kind(&events, "executor"), None);
    assert_eq!(first_of_kind(&[], "request"), None);
}
