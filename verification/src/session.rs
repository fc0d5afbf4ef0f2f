//! The session loop's bookkeeping as one step function: what each tick event does to the
//! run mode, the model request in flight, the action awaiting acceptance and the running
//! goal, and what the loop must do in consequence. The loop carries out the actions (abort
//! the request task, send `Stop` to the adapter, act on or drop an answer).
use crate::engine::{AnswerVerdict, RunControl, next_generation};
use vstd::prelude::*;

verus! {

/// What the session holds between ticks.
#[derive(Clone, Copy, Debug, PartialEq, Eq, Structural)]
pub struct SessionState {
    pub control: RunControl,
    /// The generation stamped on the model request in flight, if one is.
    pub pending: Option<u64>,
    /// An action was dispatched and awaits the adapter's acceptance.
    pub dispatched: bool,
    /// An accepted goal is running.
    pub active: bool,
}

/// One event of the loop.
#[derive(Clone, Copy, Debug, PartialEq, Eq, Structural)]
pub enum TickEvent {
    /// Pause, stop, reset, a failure, a world change or a health drop.
    Invalidate,
    /// `Start` (continuous) or `Step` (one goal).
    Start { continuous: bool },
    /// The safety reflex's narrower stop: in-flight work ends, the run mode stays.
    ClearInFlight,
    /// A request was issued, stamped with this generation.
    RequestIssued { stamp: u64 },
    /// The answer to the request stamped `stamp` arrived, judged as `verdict`.
    AnswerArrived { stamp: u64, verdict: AnswerVerdict },
    /// An action was sent to the adapter.
    Dispatched,
    /// The adapter's acknowledgement settled: accepted or not.
    Acknowledged { accepted: bool },
    /// The running goal arrived or expired.
    GoalEnded,
}

/// What the loop does after a step.
#[derive(Clone, Copy, Debug, PartialEq, Eq, Structural)]
pub enum EngineAction {
    /// Abort the request task in flight.
    AbortRequest,
    /// Send `Stop` to the adapter.
    StopAdapter,
    /// Act on the answer that arrived.
    ActOnAnswer,
    /// Drop the answer that arrived.
    DropAnswer,
    /// Nothing to do.
    Nothing,
}

/// Ending in-flight work: the request is aborted when one is in flight, and the adapter
/// is told to stop.
pub open spec fn stop_actions(s: SessionState) -> (EngineAction, EngineAction) {
    (
        if s.pending is Some {
            EngineAction::AbortRequest
        } else {
            EngineAction::Nothing
        },
        EngineAction::StopAdapter,
    )
}

/// An answer is acted on only when it answers the request in flight, in the current
/// generation, and its verdict lets it proceed.
pub open spec fn acts_on(s: SessionState, stamp: u64, verdict: AnswerVerdict) -> bool {
    s.pending == Some(stamp) && stamp == s.control.generation && verdict == AnswerVerdict::Proceed
}

pub open spec fn spec_session_step(s: SessionState, e: TickEvent) -> (
    SessionState,
    (EngineAction, EngineAction),
) {
    let nothing = (EngineAction::Nothing, EngineAction::Nothing);
    match e {
        TickEvent::Invalidate => (
            SessionState {
                control: RunControl {
                    generation: next_generation(s.control.generation),
                    continuous: false,
                    one_step: false,
                },
                pending: None,
                dispatched: false,
                active: false,
            },
            stop_actions(s),
        ),
        TickEvent::Start { continuous } => (
            SessionState {
                control: RunControl {
                    generation: next_generation(s.control.generation),
                    continuous: continuous,
                    one_step: !continuous,
                },
                pending: None,
                dispatched: false,
                active: false,
            },
            stop_actions(s),
        ),
        TickEvent::ClearInFlight => (
            SessionState {
                control: RunControl {
                    generation: next_generation(s.control.generation),
                    ..s.control
                },
                pending: None,
                active: false,
                ..s
            },
            stop_actions(s),
        ),
        TickEvent::RequestIssued { stamp } => (SessionState { pending: Some(stamp), ..s }, nothing),
        TickEvent::AnswerArrived { stamp, verdict } => (
            SessionState { pending: None, ..s },
            (
                if acts_on(s, stamp, verdict) {
                    EngineAction::ActOnAnswer
                } else {
                    EngineAction::DropAnswer
                },
                EngineAction::Nothing,
            ),
        ),
        TickEvent::Dispatched => (SessionState { dispatched: true, ..s }, nothing),
        TickEvent::Acknowledged { accepted } => (
            SessionState { dispatched: false, active: accepted, ..s },
            nothing,
        ),
        TickEvent::GoalEnded => (
            SessionState { active: false, ..s },
            (EngineAction::StopAdapter, EngineAction::Nothing),
        ),
    }
}

/// One step of the loop: the next state and the two actions it calls for, in order.
pub fn session_step(s: &SessionState, e: TickEvent) -> (r: (
    SessionState,
    (EngineAction, EngineAction),
))
    ensures
        r == spec_session_step(*s, e),
{
    let stop = (
        if s.pending.is_some() {
            EngineAction::AbortRequest
        } else {
            EngineAction::Nothing
        },
        EngineAction::StopAdapter,
    );
    let nothing = (EngineAction::Nothing, EngineAction::Nothing);
    match e {
        TickEvent::Invalidate => {
            let mut control = s.control;
            control.invalidate();
            (SessionState { control, pending: None, dispatched: false, active: false }, stop)
        },
        TickEvent::Start { continuous } => {
            let mut control = s.control;
            control.start(continuous);
            (SessionState { control, pending: None, dispatched: false, active: false }, stop)
        },
        TickEvent::ClearInFlight => {
            let mut control = s.control;
            control.clear_in_flight();
            (SessionState { control, pending: None, dispatched: s.dispatched, active: false }, stop)
        },
        TickEvent::RequestIssued { stamp } => (
            SessionState {
                control: s.control,
                pending: Some(stamp),
                dispatched: s.dispatched,
                active: s.active,
            },
            nothing,
        ),
        TickEvent::AnswerArrived { stamp, verdict } => {
            let act = match s.pending {
                Some(p) => p == stamp && stamp == s.control.generation && verdict
                    == AnswerVerdict::Proceed,
                None => false,
            };
            (
                SessionState {
                    control: s.control,
                    pending: None,
                    dispatched: s.dispatched,
                    active: s.active,
                },
                (
                    if act {
                        EngineAction::ActOnAnswer
                    } else {
                        EngineAction::DropAnswer
                    },
                    EngineAction::Nothing,
                ),
            )
        },
        TickEvent::Dispatched => (
            SessionState {
                control: s.control,
                pending: s.pending,
                dispatched: true,
                active: s.active,
            },
            nothing,
        ),
        TickEvent::Acknowledged { accepted } => (
            SessionState {
                control: s.control,
                pending: s.pending,
                dispatched: false,
                active: accepted,
            },
            nothing,
        ),
        TickEvent::GoalEnded => (
            SessionState {
                control: s.control,
                pending: s.pending,
                dispatched: s.dispatched,
                active: false,
            },
            (EngineAction::StopAdapter, EngineAction::Nothing),
        ),
    }
}

/// The state after the first `n` events.
pub open spec fn state_after(s: SessionState, events: Seq<TickEvent>, n: int) -> SessionState
    decreases n,
{
    if n <= 0 || n > events.len() {
        s
    } else {
        spec_session_step(state_after(s, events, n - 1), events[n - 1]).0
    }
}

pub open spec fn ends_in_flight_work(e: TickEvent) -> bool {
    e is Invalidate || e is Start || e is ClearInFlight
}

proof fn lemma_nothing_pending_after(s: SessionState, events: Seq<TickEvent>, i: int, j: int)
    requires
        0 <= i < j <= events.len(),
        ends_in_flight_work(events[i]),
        forall|k: int| i < k < j ==> !(#[trigger] events[k] is RequestIssued),
    ensures
        state_after(s, events, j).pending is None,
    decreases j - i,
{
    if j > i + 1 {
        lemma_nothing_pending_after(s, events, i, j - 1);
    }
}

/// After a pause, a stop, a failure, a world change, a health drop, a new `Start` or the
/// reflex's stop, no answer is acted on until a new request has been issued: an answer
/// requested before arrives to nothing in flight and is dropped, whatever its verdict.
pub proof fn law_no_answer_outlives_its_invalidation(
    s: SessionState,
    events: Seq<TickEvent>,
    i: int,
    j: int,
)
    requires
        0 <= i < j < events.len(),
        ends_in_flight_work(events[i]),
        forall|k: int| i < k < j ==> !(#[trigger] events[k] is RequestIssued),
        events[j] is AnswerArrived,
    ensures
        spec_session_step(state_after(s, events, j), events[j]).1.0 == EngineAction::DropAnswer,
{
    lemma_nothing_pending_after(s, events, i, j);
}

/// An answer is acted on only when it answers the request in flight in the current
/// generation with a verdict that lets it proceed; every step that ends in-flight work
/// aborts the request in flight and stops the adapter.
pub proof fn law_step_acts_only_on_current_answers(s: SessionState, e: TickEvent)
    ensures
        spec_session_step(s, e).1.0 == EngineAction::ActOnAnswer ==> (e matches TickEvent::AnswerArrived {
            stamp,
            verdict,
        } && s.pending == Some(stamp) && stamp == s.control.generation && verdict
            == AnswerVerdict::Proceed),
        ends_in_flight_work(e) ==> spec_session_step(s, e).0.pending is None
            && spec_session_step(s, e).1.1 == EngineAction::StopAdapter && (s.pending is Some
            ==> spec_session_step(s, e).1.0 == EngineAction::AbortRequest),
{
}

/// Whatever its verdict and stamp, an arriving answer finishes the request in flight: the
/// loop may ask again afterwards; the run mode, dispatch and the running goal stay.
pub proof fn law_an_answer_finishes_its_request(s: SessionState, stamp: u64, verdict: AnswerVerdict)
    ensures
        spec_session_step(s, TickEvent::AnswerArrived { stamp, verdict }).0.pending is None,
        spec_session_step(s, TickEvent::AnswerArrived { stamp, verdict }).0.control == s.control,
        spec_session_step(s, TickEvent::AnswerArrived { stamp, verdict }).0.dispatched
            == s.dispatched,
        spec_session_step(s, TickEvent::AnswerArrived { stamp, verdict }).0.active == s.active,
{
}

/// What each event does, stated event by event: every stop advances the generation and
/// leaves nothing pending; a full stop also ends the run mode, dispatch and the goal, and
/// `Start` sets the requested mode; the reflex's stop keeps the mode and the dispatch; a
/// request is recorded as in flight with its stamp; dispatch and acknowledgement settle
/// the action; a goal's end stops the adapter.
pub proof fn law_step_effects(s: SessionState, e: TickEvent)
    ensures
        ({
            let t = spec_session_step(s, e).0;
            &&& (e is Invalidate || e is Start || e is ClearInFlight) ==> t.control.generation
                == next_generation(s.control.generation) && t.pending is None && !t.active
            &&& e is Invalidate ==> !t.control.continuous && !t.control.one_step && !t.dispatched
            &&& e is Start ==> t.control.continuous == e->Start_continuous
                && t.control.one_step == !e->Start_continuous && !t.dispatched
            &&& e is ClearInFlight ==> t.control.continuous == s.control.continuous
                && t.control.one_step == s.control.one_step && t.dispatched == s.dispatched
            &&& e is RequestIssued ==> t.pending == Some(e->RequestIssued_stamp)
                && t.dispatched == s.dispatched && t.active == s.active
            &&& e is Dispatched ==> t.dispatched && t.pending == s.pending && t.active == s.active
            &&& e is Acknowledged ==> !t.dispatched && t.active == e->Acknowledged_accepted
                && t.pending == s.pending
            &&& e is GoalEnded ==> !t.active && t.pending == s.pending && t.dispatched
                == s.dispatched && spec_session_step(s, e).1.0 == EngineAction::StopAdapter
            &&& !(e is Invalidate || e is Start || e is ClearInFlight) ==> t.control == s.control
        }),
{
}

} // verus!
