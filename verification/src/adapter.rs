//! The adapter side of bounded-action acceptance, shared by the live adapter and the
//! offline fixture: when a requested action may start, and what is answered when it
//! cannot. Times are milliseconds on one monotonic clock.
use crate::model::{Candidate, Position, finite_f64_bits, is_finite_f64_bits};
use crate::text::str_eq;
use vstd::prelude::*;

verus! {

/// Answered when the deadline passed or the requester stopped waiting before execution.
pub const EXPIRED_OR_CANCELLED: &'static str = "Action acceptance expired or was cancelled";

/// Answered when the deadline passed while the action was being queued; the queued
/// action is rolled back.
pub const EXPIRED_DURING_VALIDATION: &'static str = "Action acceptance expired during validation";

/// Answered by the fixture's local guard.
pub const FIXTURE_GUARD_REJECTED: &'static str = "Local fixture guard rejected invalid or stale action";

/// An action may be queued only before its deadline and while its requester still waits.
pub fn may_execute(now: u64, accepted_before: u64, reply_closed: bool) -> (r: bool)
    ensures
        r == (now < accepted_before && !reply_closed),
{
    now < accepted_before && !reply_closed
}

/// What follows an attempt to queue an action.
#[derive(Clone, Copy, Debug, PartialEq, Eq)]
pub enum Completion {
    /// Queueing failed: answer this reason; nothing was queued.
    Refuse(&'static str),
    /// The deadline passed while queueing: roll the action back and answer
    /// [`EXPIRED_DURING_VALIDATION`].
    RollBack,
    /// Acknowledge acceptance at this time; roll back if the requester is gone.
    Acknowledge(u64),
}

pub open spec fn spec_completion(
    queued: Result<(), &'static str>,
    accepted_at: u64,
    accepted_before: u64,
) -> Completion {
    match queued {
        Err(reason) => Completion::Refuse(reason),
        Ok(()) => if accepted_at >= accepted_before {
            Completion::RollBack
        } else {
            Completion::Acknowledge(accepted_at)
        },
    }
}

pub fn completion(queued: Result<(), &'static str>, accepted_at: u64, accepted_before: u64) -> (r:
    Completion)
    ensures
        r == spec_completion(queued, accepted_at, accepted_before),
{
    match queued {
        Err(reason) => Completion::Refuse(reason),
        Ok(()) => if accepted_at >= accepted_before {
            Completion::RollBack
        } else {
            Completion::Acknowledge(accepted_at)
        },
    }
}

/// How a queueing attempt settles once the acknowledgement has or has not reached the
/// requester.
#[derive(Clone, Copy, Debug, PartialEq, Eq, Structural)]
pub enum Settlement {
    /// Nothing was queued.
    NotQueued,
    /// The queued action is cancelled.
    RolledBack,
    /// The requester was told of the acceptance and the action runs.
    Kept,
}

pub open spec fn spec_settlement(c: Completion, delivered: bool) -> Settlement {
    match c {
        Completion::Refuse(_) => Settlement::NotQueued,
        Completion::RollBack => Settlement::RolledBack,
        Completion::Acknowledge(_) => if delivered {
            Settlement::Kept
        } else {
            Settlement::RolledBack
        },
    }
}

/// `delivered` says whether the acknowledgement reached the requester; one that cancelled
/// while the action was being queued no longer receives it, and the action is rolled back.
pub fn settlement(c: Completion, delivered: bool) -> (r: Settlement)
    ensures
        r == spec_settlement(c, delivered),
{
    match c {
        Completion::Refuse(_) => Settlement::NotQueued,
        Completion::RollBack => Settlement::RolledBack,
        Completion::Acknowledge(_) => if delivered {
            Settlement::Kept
        } else {
            Settlement::RolledBack
        },
    }
}

/// The bit pattern of `30_000_000.0`: coordinates must stay strictly inside it.
pub const WORLD_LIMIT_BITS: u64 = 0x417c_9c38_0000_0000;

/// A coordinate is finite and its magnitude is below thirty million blocks. For finite
/// values the order of magnitudes is the order of their bit patterns without the sign.
pub open spec fn coordinate_in_world(bits: u64) -> bool {
    finite_f64_bits(bits) && (bits & 0x7fff_ffff_ffff_ffffu64) < WORLD_LIMIT_BITS
}

pub open spec fn spec_target_in_world(p: Position) -> bool {
    coordinate_in_world(p.x_bits) && coordinate_in_world(p.y_bits) && coordinate_in_world(
        p.z_bits,
    )
}

fn coordinate_ok(bits: u64) -> (r: bool)
    ensures
        r == coordinate_in_world(bits),
{
    is_finite_f64_bits(bits) && (bits & 0x7fff_ffff_ffff_ffffu64) < WORLD_LIMIT_BITS
}

/// Every coordinate of the target is finite and inside the world limit.
pub fn target_in_world(p: &Position) -> (r: bool)
    ensures
        r == spec_target_in_world(*p),
{
    coordinate_ok(p.x_bits) && coordinate_ok(p.y_bits) && coordinate_ok(p.z_bits)
}

/// The fixture's local guard: the requester still waits, the action is bound to the
/// current world, its duration is 1 to 10 000 ms, and it either waits or stops without
/// a target, or has a target inside the world limit that `target_within_reach` (within
/// twelve blocks, measured by the caller) accepts. A new command cancels prior movement
/// whether or not it passes.
pub open spec fn spec_fixture_accepts(
    candidate: Candidate,
    reply_closed: bool,
    world_matches: bool,
    target_within_reach: bool,
) -> bool {
    !reply_closed && world_matches && 1 <= candidate.duration_ms <= 10_000 && match candidate.target {
        None => candidate.id@ == "wait"@ || candidate.id@ == "stop"@,
        Some(p) => spec_target_in_world(p) && target_within_reach,
    }
}

pub fn fixture_accepts(
    candidate: &Candidate,
    reply_closed: bool,
    world_matches: bool,
    target_within_reach: bool,
) -> (r: bool)
    ensures
        r == spec_fixture_accepts(*candidate, reply_closed, world_matches, target_within_reach),
{
    if reply_closed || !world_matches {
        return false;
    }
    if !(1 <= candidate.duration_ms && candidate.duration_ms <= 10_000) {
        return false;
    }
    match &candidate.target {
        None => str_eq(candidate.id.as_str(), "wait") || str_eq(candidate.id.as_str(), "stop"),
        Some(p) => target_in_world(p) && target_within_reach,
    }
}

/// An action that was queued is rolled back whenever it is not acknowledged, so no
/// action runs without its requester having been told it was accepted before the
/// deadline.
pub proof fn law_unacknowledged_actions_are_rolled_back(
    queued: Result<(), &'static str>,
    accepted_at: u64,
    accepted_before: u64,
)
    ensures
        spec_completion(queued, accepted_at, accepted_before) matches Completion::Acknowledge(at)
            ==> at < accepted_before && queued is Ok,
        queued is Ok && accepted_at >= accepted_before ==> spec_completion(
            queued,
            accepted_at,
            accepted_before,
        ) == Completion::RollBack,
        forall|delivered: bool|
            #![trigger spec_settlement(spec_completion(queued, accepted_at, accepted_before), delivered)]
            (spec_settlement(spec_completion(queued, accepted_at, accepted_before), delivered)
                == Settlement::Kept) <==> (queued is Ok && accepted_at < accepted_before && delivered),
{
}

} // verus!
