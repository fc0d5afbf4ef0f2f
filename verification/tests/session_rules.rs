use jev_game_engine::engine::{AnswerVerdict, RunControl};
use jev_game_engine::session::{session_step, EngineAction, SessionState, TickEvent};

fn idle() -> SessionState {
    SessionState {
        control: RunControl::new(),
        pending: None,
        dispatched: false,
        active: false,
    }
}

fn run(mut state: SessionState, events: &[TickEvent]) -> (SessionState, Vec<EngineAction>) {
    let mut actions = Vec::new();
    for event in events {
        let (next, (first, second)) = session_step(&state, *event);
        state = next;
        actions.push(first);
        actions.push(second);
    }
    (state, actions)
}

#[test]
fn a_current_answer_is_acted_on() {
    let (state, _) = run(idle(), &[TickEvent::Start { continuous: true }]);
    assert_eq!(state.control.generation, 1);
    let (state, _) = run(state, &[TickEvent::RequestIssued { stamp: 1 }]);
    assert_eq!(state.pending, Some(1));
    let (next, (action, _)) = session_step(
        &state,
        TickEvent::AnswerArrived { stamp: 1, verdict: AnswerVerdict::Proceed },
    );
    assert_eq!(action, EngineAction::ActOnAnswer);
    assert_eq!(next.pending, None);
}

#[test]
fn after_a_pause_the_earlier_answer_is_dropped_and_the_request_aborted() {
    let (state, _) = run(
        idle(),
        &[TickEvent::Start { continuous: true }, TickEvent::RequestIssued { stamp: 1 }],
    );
    let (state, actions) = run(state, &[TickEvent::Invalidate]);
    assert_eq!(actions, vec![EngineAction::AbortRequest, EngineAction::StopAdapter]);
    assert!(!state.control.continuous);
    let (_, (action, _)) = session_step(
        &state,
        TickEvent::AnswerArrived { stamp: 1, verdict: AnswerVerdict::Proceed },
    );
    assert_eq!(action, EngineAction::DropAnswer);
}

#[test]
fn the_reflex_stop_keeps_the_run_mode_and_drops_the_earlier_answer() {
    let (state, _) = run(
        idle(),
        &[
            TickEvent::Start { continuous: true },
            TickEvent::RequestIssued { stamp: 1 },
            TickEvent::ClearInFlight,
        ],
    );
    assert!(state.control.continuous);
    assert_eq!(state.control.generation, 2);
    let (_, (action, _)) = session_step(
        &state,
        TickEvent::AnswerArrived { stamp: 1, verdict: AnswerVerdict::Proceed },
    );
    assert_eq!(action, EngineAction::DropAnswer);
}

#[test]
fn dispatch_acceptance_and_goal_end_are_tracked() {
    let (state, _) = run(idle(), &[TickEvent::Dispatched]);
    assert!(state.dispatched);
    let (state, _) = run(state, &[TickEvent::Acknowledged { accepted: true }]);
    assert!(!state.dispatched && state.active);
    let (state, actions) = run(state, &[TickEvent::GoalEnded]);
    assert!(!state.active);
    assert_eq!(actions, vec![EngineAction::StopAdapter, EngineAction::Nothing]);
    let (state, _) = run(state, &[TickEvent::Dispatched, TickEvent::Acknowledged { accepted: false }]);
    assert!(!state.dispatched && !state.active);
}

#[test]
fn a_rejected_or_stale_verdict_never_acts() {
    let (state, _) = run(
        idle(),
        &[TickEvent::Start { continuous: false }, TickEvent::RequestIssued { stamp: 1 }],
    );
    for verdict in [AnswerVerdict::DropRejected, AnswerVerdict::DropOvertaken] {
        let (_, (action, _)) = session_step(&state, TickEvent::AnswerArrived { stamp: 1, verdict });
        assert_eq!(action, EngineAction::DropAnswer);
    }
    let (_, (action, _)) = session_step(
        &state,
        TickEvent::AnswerArrived { stamp: 0, verdict: AnswerVerdict::Proceed },
    );
    assert_eq!(action, EngineAction::DropAnswer);
}
