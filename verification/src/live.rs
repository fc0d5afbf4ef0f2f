//! The live Minecraft adapter's local guards: when game ticks count as stale, when the
//! spawn is overdue, when running movement must stop, what a hit does to a running goal,
//! when a deferred action may start, and which goals the executor accepts.
//!
//! Times are milliseconds on the adapter's monotonic clock. Health comparisons,
//! distances and whether an endpoint can be stood on are measured by the adapter and
//! arrive here as their verdicts.
use crate::adapter::spec_target_in_world;
use crate::adapter::target_in_world;
use crate::engine::{same_dimension, same_dimension_spec};
use crate::model::Candidate;
use crate::text::{spec_starts_with, starts_with, str_eq};
use vstd::prelude::*;

verus! {

/// Game ticks older than this are stale: movement stops and nothing new starts.
pub const STALE_TICKS_MS: u64 = 500;

/// How long the bot may take to spawn after connecting.
pub const SPAWN_BUDGET_MS: u64 = 20_000;

/// How often an observation is taken.
pub const SNAPSHOT_INTERVAL_MS: u64 = 250;

/// Milliseconds from `from` to `now`, zero when the clock reads earlier.
pub open spec fn waited(now: u64, from: u64) -> int {
    if now >= from {
        now - from
    } else {
        0
    }
}

/// The last game tick is more than [`STALE_TICKS_MS`] old.
pub fn ticks_stale(now: u64, last_tick: u64) -> (r: bool)
    ensures
        r == (waited(now, last_tick) > STALE_TICKS_MS),
{
    now >= last_tick && now - last_tick > STALE_TICKS_MS
}

/// The bot has not spawned within [`SPAWN_BUDGET_MS`] of connecting.
pub fn spawn_overdue(ready: bool, now: u64, connected_at: u64) -> (r: bool)
    ensures
        r == (!ready && waited(now, connected_at) > SPAWN_BUDGET_MS),
{
    !ready && now >= connected_at && now - connected_at > SPAWN_BUDGET_MS
}

/// An observation is due: the bot has spawned and the last one is at least
/// [`SNAPSHOT_INTERVAL_MS`] old.
pub fn snapshot_due(ready: bool, now: u64, last_snapshot: u64) -> (r: bool)
    ensures
        r == (ready && waited(now, last_snapshot) >= SNAPSHOT_INTERVAL_MS),
{
    ready && now >= last_snapshot && now - last_snapshot >= SNAPSHOT_INTERVAL_MS
}

/// Running movement stops when its deadline has passed or game ticks became stale;
/// without running movement there is nothing to stop.
pub open spec fn spec_movement_expired(deadline: Option<u64>, now: u64, stale: bool) -> bool {
    match deadline {
        Some(d) => now >= d || stale,
        None => false,
    }
}

pub fn movement_expired(deadline: Option<u64>, now: u64, stale: bool) -> (r: bool)
    ensures
        r == spec_movement_expired(deadline, now, stale),
{
    match deadline {
        Some(d) => now >= d || stale,
        None => false,
    }
}

/// What an observation's health does to the running goal.
#[derive(Clone, Copy, Debug, PartialEq, Eq, Structural)]
pub enum HealthGuard {
    /// No hit and health left: nothing changes.
    Unharmed,
    /// Hit while a flight goal runs and still alive: movement continues, because stopping
    /// under fire is what lets every shot land.
    HitDuringFlight,
    /// Hit outside a flight, or no health left: the pending action is refused and
    /// movement stops.
    Stop,
}

pub open spec fn spec_health_guard(alive: bool, hurt: bool, fleeing: bool, goal_running: bool) -> HealthGuard {
    if alive && hurt && fleeing && goal_running {
        HealthGuard::HitDuringFlight
    } else if !alive || hurt {
        HealthGuard::Stop
    } else {
        HealthGuard::Unharmed
    }
}

/// `alive` is whether health is above zero, `hurt` whether it is below the last
/// observation's; `fleeing` whether the running goal is a flight goal.
pub fn health_guard(alive: bool, hurt: bool, fleeing: bool, goal_running: bool) -> (r: HealthGuard)
    ensures
        r == spec_health_guard(alive, hurt, fleeing, goal_running),
{
    if alive && hurt && fleeing && goal_running {
        HealthGuard::HitDuringFlight
    } else if !alive || hurt {
        HealthGuard::Stop
    } else {
        HealthGuard::Unharmed
    }
}

/// A flight goal keeps running under fire while the bot is alive; any other hit, and
/// running out of health, stop movement locally.
pub proof fn law_flight_keeps_running_under_fire(
    alive: bool,
    hurt: bool,
    fleeing: bool,
    goal_running: bool,
)
    ensures
        alive && fleeing && goal_running ==> spec_health_guard(alive, hurt, fleeing, goal_running)
            != HealthGuard::Stop,
        !alive ==> spec_health_guard(alive, hurt, fleeing, goal_running) == HealthGuard::Stop,
        hurt && !(fleeing && goal_running) ==> spec_health_guard(alive, hurt, fleeing, goal_running)
            == HealthGuard::Stop,
        !hurt && alive ==> spec_health_guard(alive, hurt, fleeing, goal_running)
            == HealthGuard::Unharmed,
{
}

/// A deferred action starts only once the bot has spawned, while its requester still
/// waits, in the world lifecycle and dimension it was chosen for.
pub open spec fn spec_deferred_may_start(
    ready: bool,
    reply_closed: bool,
    request_epoch: u64,
    world_epoch: u64,
    request_dimension: Option<String>,
    world_dimension: Option<String>,
) -> bool {
    ready && !reply_closed && request_epoch == world_epoch && same_dimension_spec(
        world_dimension,
        request_dimension,
    )
}

pub fn deferred_may_start(
    ready: bool,
    reply_closed: bool,
    request_epoch: u64,
    world_epoch: u64,
    request_dimension: &Option<String>,
    world_dimension: &Option<String>,
) -> (r: bool)
    ensures
        r == spec_deferred_may_start(
            ready,
            reply_closed,
            request_epoch,
            world_epoch,
            *request_dimension,
            *world_dimension,
        ),
{
    ready && !reply_closed && request_epoch == world_epoch && same_dimension(
        world_dimension,
        request_dimension,
    )
}

/// The live executor's guard: acceptance has not expired, the duration is 1 to 10 000
/// ms, the bot is alive, and the goal either waits or stops without a target, or has a
/// target inside the world limit that is within twelve blocks (`within_reach`) and can be
/// stood on (`standable`, a loaded air cell with head room above a full solid block), both
/// measured by the adapter.
pub open spec fn spec_live_goal_accepted(
    now: u64,
    accepted_before: u64,
    candidate: Candidate,
    alive: bool,
    within_reach: bool,
    standable: bool,
) -> bool {
    now < accepted_before && 1 <= candidate.duration_ms <= 10_000 && alive && match candidate.target {
        None => candidate.id@ == "wait"@ || candidate.id@ == "stop"@,
        Some(p) => spec_target_in_world(p) && within_reach && standable,
    }
}

pub fn live_goal_accepted(
    now: u64,
    accepted_before: u64,
    candidate: &Candidate,
    alive: bool,
    within_reach: bool,
    standable: bool,
) -> (r: bool)
    ensures
        r == spec_live_goal_accepted(
            now,
            accepted_before,
            *candidate,
            alive,
            within_reach,
            standable,
        ),
{
    if now >= accepted_before || !(1 <= candidate.duration_ms && candidate.duration_ms <= 10_000)
        || !alive {
        return false;
    }
    match &candidate.target {
        None => str_eq(candidate.id.as_str(), "wait") || str_eq(candidate.id.as_str(), "stop"),
        Some(p) => target_in_world(p) && within_reach && standable,
    }
}

/// A goal whose identifier starts with `flee_` is a flight goal: hits do not stop it.
pub fn is_flight(candidate: &Candidate) -> (r: bool)
    ensures
        r == spec_starts_with(candidate.id@, "flee_"@),
{
    starts_with(candidate.id.as_str(), "flee_")
}

} // verus!
