//! When the desktop window takes its one screenshot: at the first observation, or after
//! the first recorded arrival verdict, each with a time bound so a run never waits forever.
use crate::model::Event;
use vstd::prelude::*;

verus! {

/// Frames the verdict panel must have been drawn before it is captured.
pub const VERDICT_FRAMES: u32 = 8;

/// The bound on waiting for an arrival verdict, in milliseconds.
pub const VERDICT_BOUND_MS: u64 = 30_000;

/// The bound on waiting for the first observation, in milliseconds.
pub const OBSERVATION_BOUND_MS: u64 = 20_000;

/// Frames drawn before any capture is requested.
pub const SETTLE_FRAMES: u64 = 5;

/// Milliseconds the window is open before any capture is requested.
pub const SETTLE_MS: u64 = 500;

/// The last of the first `n` events that carries an arrival verdict.
pub open spec fn latest_verdict_upto(events: Seq<Event>, n: int) -> Option<int>
    decreases n,
{
    if n <= 0 || n > events.len() {
        None
    } else if events[n - 1].arrival is Some {
        Some(n - 1)
    } else {
        latest_verdict_upto(events, n - 1)
    }
}

/// The latest event that carries an arrival verdict, the one the capture after a goal
/// selects and opens, so the image shows the measured numbers.
pub fn latest_verdict(events: &[Event]) -> (r: Option<usize>)
    ensures
        match latest_verdict_upto(events@, events@.len() as int) {
            Some(i) => r == Some(i as usize),
            None => r is None,
        },
{
    let mut i: usize = events.len();
    while i > 0
        invariant
            i <= events@.len(),
            latest_verdict_upto(events@, events@.len() as int) == latest_verdict_upto(
                events@,
                i as int,
            ),
        decreases i,
    {
        if events[i - 1].arrival.is_some() {
            return Some(i - 1);
        }
        i -= 1;
    }
    None
}

/// Whether the offline fixture is stepped once so that a verdict can be recorded: only for
/// a capture after a goal, only once, only in demo mode and only once there is an
/// observation. A live run is never stepped from the window.
pub open spec fn spec_steps_for_verdict(
    after_goal: bool,
    step_sent: bool,
    demo: bool,
    observed: bool,
) -> bool {
    after_goal && !step_sent && demo && observed
}

pub fn steps_for_verdict(after_goal: bool, step_sent: bool, demo: bool, observed: bool) -> (r:
    bool)
    ensures
        r == spec_steps_for_verdict(after_goal, step_sent, demo, observed),
{
    after_goal && !step_sent && demo && observed
}

/// Whether the window is ready to be captured. After a goal: the verdict has been drawn
/// for [`VERDICT_FRAMES`] frames, or [`VERDICT_BOUND_MS`] have passed. Otherwise: the run
/// is not live, or an observation or an error is shown, or [`OBSERVATION_BOUND_MS`] have
/// passed.
pub open spec fn spec_capture_ready(
    after_goal: bool,
    verdict_seen: bool,
    verdict_frames: u32,
    elapsed_ms: u64,
    live: bool,
    observed: bool,
    errored: bool,
) -> bool {
    if after_goal {
        (verdict_seen && verdict_frames >= VERDICT_FRAMES) || elapsed_ms >= VERDICT_BOUND_MS
    } else {
        !live || observed || errored || elapsed_ms >= OBSERVATION_BOUND_MS
    }
}

pub fn capture_ready(
    after_goal: bool,
    verdict_seen: bool,
    verdict_frames: u32,
    elapsed_ms: u64,
    live: bool,
    observed: bool,
    errored: bool,
) -> (r: bool)
    ensures
        r == spec_capture_ready(
            after_goal,
            verdict_seen,
            verdict_frames,
            elapsed_ms,
            live,
            observed,
            errored,
        ),
{
    if after_goal {
        (verdict_seen && verdict_frames >= VERDICT_FRAMES) || elapsed_ms >= VERDICT_BOUND_MS
    } else {
        !live || observed || errored || elapsed_ms >= OBSERVATION_BOUND_MS
    }
}

/// Whether the screenshot is requested now: not yet requested, at least
/// [`SETTLE_FRAMES`] frames drawn and [`SETTLE_MS`] passed, and ready.
pub open spec fn spec_requests_capture(
    requested: bool,
    frame_count: u64,
    elapsed_ms: u64,
    ready: bool,
) -> bool {
    !requested && frame_count >= SETTLE_FRAMES && elapsed_ms >= SETTLE_MS && ready
}

pub fn requests_capture(requested: bool, frame_count: u64, elapsed_ms: u64, ready: bool) -> (r:
    bool)
    ensures
        r == spec_requests_capture(requested, frame_count, elapsed_ms, ready),
{
    !requested && frame_count >= SETTLE_FRAMES && elapsed_ms >= SETTLE_MS && ready
}

/// The words the saved-screenshot message uses for the moment of capture.
pub open spec fn spec_capture_gate(after_goal: bool, verdict_seen: bool) -> Seq<char> {
    if after_goal {
        if verdict_seen {
            "after an arrival verdict"@
        } else {
            "at the 30 s bound without an arrival verdict"@
        }
    } else {
        "at the first observation"@
    }
}

pub fn capture_gate(after_goal: bool, verdict_seen: bool) -> (r: &'static str)
    ensures
        r@ == spec_capture_gate(after_goal, verdict_seen),
{
    if after_goal {
        if verdict_seen {
            "after an arrival verdict"
        } else {
            "at the 30 s bound without an arrival verdict"
        }
    } else {
        "at the first observation"
    }
}

/// Once the capture after a goal is ready with the verdict drawn, it stays ready: more
/// frames and more time never withdraw it.
pub proof fn law_capture_readiness_is_monotone(
    after_goal: bool,
    verdict_seen: bool,
    frames: u32,
    later_frames: u32,
    elapsed_ms: u64,
    later_ms: u64,
    live: bool,
    observed: bool,
    errored: bool,
)
    requires
        frames <= later_frames,
        elapsed_ms <= later_ms,
        spec_capture_ready(after_goal, verdict_seen, frames, elapsed_ms, live, observed, errored),
    ensures
        spec_capture_ready(
            after_goal,
            verdict_seen,
            later_frames,
            later_ms,
            live,
            observed,
            errored,
        ),
{
}

} // verus!
