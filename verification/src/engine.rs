//! The engine's session decisions, separated from the channels, tasks and clocks that
//! carry them out.
//!
//! Times are milliseconds on the engine's one monotonic clock. Each function here decides
//! one step of the session loop from plain values: whether settings may connect, what a
//! command does to the run mode, what an observation means, whether a model answer may be
//! acted on, when the reflex may act, when the next request may be issued, how long an
//! action may wait for acceptance and what an acknowledgement means. Distances and health
//! comparisons are measured by the caller and arrive here as their verdicts.
use crate::latency::{Timing, answer_is_current, spec_answer_is_current};
use crate::model::{
    Candidate, Landmark, Mode, Observation, Settings, finite_f32_bits, is_finite_f32_bits,
    position_is_finite,
};
use crate::provider::REJECTED_ANSWER;
use crate::text::{
    chars_of, decimal, decimal_text, is_ascii_alphanumeric, spec_is_ascii_alphanumeric,
    spec_starts_with, starts_with, str_eq,
};
use crate::harness::{opt_view, spec_validate_objective, validate_objective};
use vstd::prelude::*;

verus! {

/// An observation older than this may not start or steer an action.
pub const OBSERVATION_FRESH_MS: u64 = 1_000;
/// Longest silence from the adapter before the session fails.
pub const ADAPTER_SILENCE_MS: u64 = 10_000;
/// Longest time a dispatched action may wait for the adapter's acknowledgement, and the
/// longest acceptance window an action is given.
pub const ACCEPTANCE_WINDOW_MS: u64 = 1_000;
/// Events recorded before the event budget stops the session.
pub const EVENT_BUDGET: usize = 4_999;
/// Longest bot name, in characters.
pub const MAX_BOT_NAME_CHARS: usize = 16;

/// Pause reasons and failures the engine records, as text.
pub const DIMENSION_CHANGED: &'static str = "Dimension changed: local stop and pending answers invalidated";
pub const WORLD_LIFECYCLE_CHANGED: &'static str = "World lifecycle changed: local stop and pending answers invalidated";
pub const HEALTH_DECREASED: &'static str = "Health decreased: local stop without waiting for the model";
pub const BOT_DIED: &'static str = "Bot died: local stop; the session ends";
/// The adapter's reason for refusing an action that was awaiting acceptance when a hit
/// arrived. With the safety reflex on, it is recorded and the session keeps going.
pub const REJECTED_AFTER_HIT: &'static str = "Health decreased before action acceptance";

/// The bot name is 1 to 16 ASCII letters, digits or underscores.
pub open spec fn bot_name_usable(name: Seq<char>) -> bool {
    0 < name.len() <= MAX_BOT_NAME_CHARS && forall|i: int|
        0 <= i < name.len() ==> spec_is_ascii_alphanumeric(#[trigger] name[i]) || name[i] == '_'
}

/// Settings the engine accepts at `Connect`: a port, non-zero budgets, a valid objective
/// and a usable bot name.
pub open spec fn spec_connection_settings_valid(settings: Settings) -> bool {
    settings.port != 0 && settings.max_requests != 0 && settings.max_seconds != 0
        && spec_validate_objective(settings.objective@) is Ok && bot_name_usable(
        settings.bot_name@,
    )
}

pub fn bot_name_is_usable(name: &str) -> (r: bool)
    ensures
        r == bot_name_usable(name@),
{
    let chars = chars_of(name);
    if chars.len() == 0 || chars.len() > MAX_BOT_NAME_CHARS {
        return false;
    }
    let mut i: usize = 0;
    while i < chars.len()
        invariant
            chars@ == name@,
            0 < chars@.len() <= MAX_BOT_NAME_CHARS,
            i <= chars@.len(),
            forall|k: int|
                0 <= k < i ==> spec_is_ascii_alphanumeric(#[trigger] chars@[k]) || chars@[k]
                    == '_',
        decreases chars@.len() - i,
    {
        if !(is_ascii_alphanumeric(chars[i]) || chars[i] == '_') {
            return false;
        }
        i += 1;
    }
    true
}

/// Whether the engine accepts these settings at `Connect`.
pub fn connection_settings_valid(settings: &Settings) -> (r: bool)
    ensures
        r == spec_connection_settings_valid(*settings),
{
    settings.port != 0 && settings.max_requests != 0 && settings.max_seconds != 0
        && validate_objective(settings.objective.as_str()).is_ok() && bot_name_is_usable(
        settings.bot_name.as_str(),
    )
}

/// The session's run mode and the generation that stamps every model request.
#[derive(Clone, Copy, Debug, PartialEq, Eq, Structural)]
pub struct RunControl {
    pub generation: u64,
    /// The paced loop keeps requesting goals.
    pub continuous: bool,
    /// One goal was asked for and has not been requested yet.
    pub one_step: bool,
}

pub open spec fn next_generation(generation: u64) -> u64 {
    if generation == u64::MAX {
        0
    } else {
        (generation + 1) as u64
    }
}

impl RunControl {
    pub fn new() -> (c: Self)
        ensures
            c.generation == 0,
            !c.continuous,
            !c.one_step,
    {
        RunControl { generation: 0, continuous: false, one_step: false }
    }

    /// A goal loop or a single goal is running.
    pub open spec fn spec_in_run(self) -> bool {
        self.continuous || self.one_step
    }

    pub fn in_run(&self) -> (r: bool)
        ensures
            r == self.spec_in_run(),
    {
        self.continuous || self.one_step
    }

    /// Pause, stop, reset, a failure and a controller change: the run mode ends and every
    /// answer requested before is no longer current.
    pub fn invalidate(&mut self)
        ensures
            final(self).generation == next_generation(old(self).generation),
            !final(self).continuous,
            !final(self).one_step,
    {
        self.generation = self.generation.wrapping_add(1);
        self.continuous = false;
        self.one_step = false;
    }

    /// The reflex's narrower stop: in-flight answers are invalidated, the run mode stays.
    pub fn clear_in_flight(&mut self)
        ensures
            final(self).generation == next_generation(old(self).generation),
            final(self).continuous == old(self).continuous,
            final(self).one_step == old(self).one_step,
    {
        self.generation = self.generation.wrapping_add(1);
    }

    /// `Start` (continuous) or `Step` (one goal): invalidates what was in flight, then sets
    /// the new run mode.
    pub fn start(&mut self, continuous: bool)
        ensures
            final(self).generation == next_generation(old(self).generation),
            final(self).continuous == continuous,
            final(self).one_step == !continuous,
    {
        self.invalidate();
        self.continuous = continuous;
        self.one_step = !continuous;
    }

    /// A request was issued: a single goal is no longer owed.
    pub fn request_issued(&mut self)
        ensures
            final(self).generation == old(self).generation,
            final(self).continuous == old(self).continuous,
            !final(self).one_step,
    {
        self.one_step = false;
    }
}

/// The operator opted into the reflex and a goal loop runs: hits are survived and
/// recorded instead of being a local stop.
pub open spec fn spec_reflex_session(safety_reflex: bool, control: RunControl) -> bool {
    safety_reflex && control.spec_in_run()
}

pub fn reflex_session(safety_reflex: bool, control: &RunControl) -> (r: bool)
    ensures
        r == spec_reflex_session(safety_reflex, *control),
{
    safety_reflex && control.in_run()
}

/// What `Start` or `Step` does.
#[derive(Clone, Copy, Debug, PartialEq, Eq, Structural)]
pub enum StartOutcome {
    /// A replay is immutable: the command is ignored.
    Ignored,
    /// No adapter is connected: the session fails.
    NotConnected,
    /// The run mode starts.
    Started,
}

pub open spec fn spec_start_outcome(replay: bool, adapter_present: bool) -> StartOutcome {
    if replay {
        StartOutcome::Ignored
    } else if !adapter_present {
        StartOutcome::NotConnected
    } else {
        StartOutcome::Started
    }
}

pub fn start_outcome(replay: bool, adapter_present: bool) -> (r: StartOutcome)
    ensures
        r == spec_start_outcome(replay, adapter_present),
{
    if replay {
        StartOutcome::Ignored
    } else if !adapter_present {
        StartOutcome::NotConnected
    } else {
        StartOutcome::Started
    }
}

/// Milliseconds since `from`, zero if `from` lies ahead.
pub open spec fn since(now: u64, from: u64) -> int {
    if now >= from {
        now - from
    } else {
        0
    }
}

pub fn elapsed_ms(now: u64, from: u64) -> (r: u64)
    ensures
        r == since(now, from),
{
    if now >= from {
        now - from
    } else {
        0
    }
}

/// The session's time budget, counted from `Connect`, is used up.
pub open spec fn spec_session_expired(now: u64, started: u64, max_seconds: u64) -> bool {
    since(now, started) >= max_seconds * 1000
}

pub fn session_expired(now: u64, started: u64, max_seconds: u64) -> (r: bool)
    ensures
        r == spec_session_expired(now, started, max_seconds),
{
    let elapsed = elapsed_ms(now, started) as u128;
    elapsed >= (max_seconds as u128) * 1000
}

/// Why the session loop must stop before anything else happens in this tick.
#[derive(Clone, Copy, Debug, PartialEq, Eq, Structural)]
pub enum WatchdogStop {
    /// The adapter task ended.
    AdapterStopped,
    /// No observation arrived for [`ADAPTER_SILENCE_MS`].
    NoFreshObservations,
    /// Work is in flight and the session's time budget is used up.
    TimeBudget,
    /// A goal is executing on an observation older than [`OBSERVATION_FRESH_MS`].
    StaleObservations,
}

pub open spec fn spec_watchdog(
    adapter_present: bool,
    adapter_finished: bool,
    observation_age_ms: u64,
    busy: bool,
    expired: bool,
    active: bool,
) -> Option<WatchdogStop> {
    if adapter_present && adapter_finished {
        Some(WatchdogStop::AdapterStopped)
    } else if adapter_present && observation_age_ms > ADAPTER_SILENCE_MS {
        Some(WatchdogStop::NoFreshObservations)
    } else if busy && expired {
        Some(WatchdogStop::TimeBudget)
    } else if active && observation_age_ms > OBSERVATION_FRESH_MS {
        Some(WatchdogStop::StaleObservations)
    } else {
        None
    }
}

/// The checks the loop makes before acting on acknowledgements, goals and answers.
/// `busy` means a goal loop runs or a request, dispatch or goal is in flight.
pub fn watchdog(
    adapter_present: bool,
    adapter_finished: bool,
    observation_age_ms: u64,
    busy: bool,
    expired: bool,
    active: bool,
) -> (r: Option<WatchdogStop>)
    ensures
        r == spec_watchdog(
            adapter_present,
            adapter_finished,
            observation_age_ms,
            busy,
            expired,
            active,
        ),
{
    if adapter_present && adapter_finished {
        Some(WatchdogStop::AdapterStopped)
    } else if adapter_present && observation_age_ms > ADAPTER_SILENCE_MS {
        Some(WatchdogStop::NoFreshObservations)
    } else if busy && expired {
        Some(WatchdogStop::TimeBudget)
    } else if active && observation_age_ms > OBSERVATION_FRESH_MS {
        Some(WatchdogStop::StaleObservations)
    } else {
        None
    }
}

/// Where the next recorded event goes.
#[derive(Clone, Copy, Debug, PartialEq, Eq, Structural)]
pub enum EventSlot {
    /// Record the event with this sequence number.
    Record(u64),
    /// The event budget is reached: the session stops and disconnects; the budget event
    /// itself is recorded (as event 5000) only the first time.
    Budget { record_budget_event: bool },
}

pub fn event_slot(recorded: usize) -> (r: EventSlot)
    ensures
        r == if recorded >= EVENT_BUDGET {
            EventSlot::Budget { record_budget_event: recorded == EVENT_BUDGET }
        } else {
            EventSlot::Record((recorded + 1) as u64)
        },
{
    if recorded >= EVENT_BUDGET {
        EventSlot::Budget { record_budget_event: recorded == EVENT_BUDGET }
    } else {
        EventSlot::Record((recorded + 1) as u64)
    }
}

/// What a new observation means for the session.
#[derive(Clone, Copy, Debug, PartialEq, Eq, Structural)]
pub enum ObservationOutcome {
    /// Same sequence, connection, dimension and lifecycle as the last one: nothing new.
    Unchanged,
    /// A coordinate or the health is not finite: the session fails.
    InvalidValues,
    /// The bot died (no health left, or the adapter counted a death): the session ends.
    Died,
    /// The dimension changed: local stop, pending answers invalidated.
    DimensionChanged,
    /// Same dimension, new world lifecycle (a respawn): local stop.
    WorldLifecycleChanged,
    /// The adapter reports the bot disconnected.
    Disconnected,
    /// Health dropped during a reflex session: recorded, the session continues.
    HurtSurvived,
    /// Health dropped without the reflex: local stop without waiting for the model.
    HealthDecreased,
    /// A new observation with nothing to act on.
    Fresh,
}

/// The observation differs from the last one in sequence, connection, dimension or world
/// lifecycle.
pub open spec fn observation_changed(old: Option<Observation>, new: Observation) -> bool {
    match old {
        None => true,
        Some(o) => o.sequence != new.sequence || o.connected != new.connected
            || !same_dimension_spec(o.dimension, new.dimension) || o.world_epoch != new.world_epoch,
    }
}

/// The classification, in priority order: invalid values, then death (so a death followed
/// by a respawn elsewhere is a death, not a transfer), then a world change, then a lost
/// connection, then a hit.
pub open spec fn spec_classify_observation(
    old: Option<Observation>,
    new: Observation,
    health_dropped: bool,
    no_health_left: bool,
    reflex_session: bool,
) -> ObservationOutcome {
    if !observation_changed(old, new) {
        ObservationOutcome::Unchanged
    } else if !position_is_finite(new.position) || !finite_f32_bits(new.health_bits) {
        ObservationOutcome::InvalidValues
    } else if no_health_left || (old matches Some(o) && new.deaths > o.deaths) {
        ObservationOutcome::Died
    } else if old matches Some(o) && !same_dimension_spec(o.dimension, new.dimension) {
        ObservationOutcome::DimensionChanged
    } else if old matches Some(o) && o.world_epoch != new.world_epoch {
        ObservationOutcome::WorldLifecycleChanged
    } else if !new.connected {
        ObservationOutcome::Disconnected
    } else if old is Some && health_dropped && reflex_session {
        ObservationOutcome::HurtSurvived
    } else if old is Some && health_dropped {
        ObservationOutcome::HealthDecreased
    } else {
        ObservationOutcome::Fresh
    }
}

/// Dimensions are compared by their text.
pub open spec fn same_dimension_spec(a: Option<String>, b: Option<String>) -> bool {
    opt_view(a) == opt_view(b)
}

pub fn same_dimension(a: &Option<String>, b: &Option<String>) -> (r: bool)
    ensures
        r == same_dimension_spec(*a, *b),
{
    match (a, b) {
        (None, None) => true,
        (Some(x), Some(y)) => str_eq(x.as_str(), y.as_str()),
        _ => false,
    }
}

/// Classifies a new observation against the last one. `health_dropped` is whether its
/// health is below the last observation's and `no_health_left` whether its health is at or
/// below zero; both are measured by the caller.
pub fn classify_observation(
    old: &Option<Observation>,
    new: &Observation,
    health_dropped: bool,
    no_health_left: bool,
    reflex_session: bool,
) -> (r: ObservationOutcome)
    ensures
        r == spec_classify_observation(*old, *new, health_dropped, no_health_left, reflex_session),
{
    let changed = match old {
        None => true,
        Some(o) => o.sequence != new.sequence || o.connected != new.connected || !same_dimension(
            &o.dimension,
            &new.dimension,
        ) || o.world_epoch != new.world_epoch,
    };
    if !changed {
        return ObservationOutcome::Unchanged;
    }
    if !new.position.is_finite() || !is_finite_f32_bits(new.health_bits) {
        return ObservationOutcome::InvalidValues;
    }
    let death_counted = match old {
        Some(o) => new.deaths > o.deaths,
        None => false,
    };
    if no_health_left || death_counted {
        return ObservationOutcome::Died;
    }
    if let Some(o) = old {
        if !same_dimension(&o.dimension, &new.dimension) {
            return ObservationOutcome::DimensionChanged;
        }
        if o.world_epoch != new.world_epoch {
            return ObservationOutcome::WorldLifecycleChanged;
        }
    }
    if !new.connected {
        return ObservationOutcome::Disconnected;
    }
    if old.is_some() && health_dropped {
        if reflex_session {
            return ObservationOutcome::HurtSurvived;
        }
        return ObservationOutcome::HealthDecreased;
    }
    ObservationOutcome::Fresh
}

/// The observation the answer was requested for still describes the current world: the
/// current observation is connected, in the same dimension and the same world lifecycle.
pub open spec fn spec_same_world(current: Option<Observation>, requested: Observation) -> bool {
    current matches Some(now) && now.connected && same_dimension_spec(
        now.dimension,
        requested.dimension,
    ) && now.world_epoch == requested.world_epoch
}

pub fn same_world(current: &Option<Observation>, requested: &Observation) -> (r: bool)
    ensures
        r == spec_same_world(*current, *requested),
{
    match current {
        Some(now) => now.connected && same_dimension(&now.dimension, &requested.dimension)
            && now.world_epoch == requested.world_epoch,
        None => false,
    }
}

/// What the provider task handed back.
#[derive(Clone, Copy, Debug, PartialEq, Eq, Structural)]
pub enum ProviderReply {
    /// A validated answer.
    Answer,
    /// An answer arrived but failed validation (its error starts with
    /// [`REJECTED_ANSWER`]).
    RejectedAnswer,
    /// The request failed: transport, status, timeout or a missing key.
    Failure,
}

/// What the session does with a provider reply.
#[derive(Clone, Copy, Debug, PartialEq, Eq, Structural)]
pub enum AnswerVerdict {
    /// A malformed answer during a goal loop: recorded and dropped; the loop asks again.
    DropRejected,
    /// The provider failed: the session fails with the provider's error.
    Fail,
    /// A hit or its knockback overtook the answer during a reflex session: recorded and
    /// dropped; the loop asks again from the new state.
    DropOvertaken,
    /// The answer is stale or the world changed: the session fails.
    FailStale,
    /// The answer may be acted on, if it names an offered candidate whose target is still
    /// observed.
    Proceed,
}

/// The answer verdict. `current` is whether the answer belongs to the session generation
/// and arrived within the age limit captured with the request; `observation_fresh` whether
/// the current observation is at most [`OBSERVATION_FRESH_MS`] old; `unchanged` whether the
/// bot kept its health and moved at most 1.5 blocks since the requested observation.
pub open spec fn spec_answer_verdict(
    reply: ProviderReply,
    in_run: bool,
    current: bool,
    observation_fresh: bool,
    same_world: bool,
    unchanged: bool,
    reflex_session: bool,
) -> AnswerVerdict {
    match reply {
        ProviderReply::RejectedAnswer => if in_run {
            AnswerVerdict::DropRejected
        } else {
            AnswerVerdict::Fail
        },
        ProviderReply::Failure => AnswerVerdict::Fail,
        ProviderReply::Answer => {
            let world = current && observation_fresh && same_world;
            if world && !unchanged && reflex_session {
                AnswerVerdict::DropOvertaken
            } else if !(world && unchanged) {
                AnswerVerdict::FailStale
            } else {
                AnswerVerdict::Proceed
            }
        },
    }
}

/// Decides what to do with a provider reply; see [`spec_answer_verdict`].
pub fn answer_verdict(
    reply: ProviderReply,
    in_run: bool,
    request_generation: u64,
    session_generation: u64,
    age_ms: u64,
    timing: Timing,
    observation_age_ms: u64,
    current_observation: &Option<Observation>,
    requested: &Observation,
    unchanged: bool,
    reflex_session: bool,
) -> (r: AnswerVerdict)
    ensures
        r == spec_answer_verdict(
            reply,
            in_run,
            spec_answer_is_current(request_generation, session_generation, age_ms, timing),
            observation_age_ms <= OBSERVATION_FRESH_MS,
            spec_same_world(*current_observation, *requested),
            unchanged,
            reflex_session,
        ),
{
    match reply {
        ProviderReply::RejectedAnswer => if in_run {
            AnswerVerdict::DropRejected
        } else {
            AnswerVerdict::Fail
        },
        ProviderReply::Failure => AnswerVerdict::Fail,
        ProviderReply::Answer => {
            let world = answer_is_current(request_generation, session_generation, age_ms, timing)
                && observation_age_ms <= OBSERVATION_FRESH_MS && same_world(
                current_observation,
                requested,
            );
            if world && !unchanged && reflex_session {
                AnswerVerdict::DropOvertaken
            } else if !(world && unchanged) {
                AnswerVerdict::FailStale
            } else {
                AnswerVerdict::Proceed
            }
        },
    }
}

/// Whether a provider error is a rejected answer.
pub fn classify_failure(message: &str) -> (r: ProviderReply)
    ensures
        r == if crate::text::spec_starts_with(message@, REJECTED_ANSWER@) {
            ProviderReply::RejectedAnswer
        } else {
            ProviderReply::Failure
        },
{
    if crate::provider::is_rejected_answer(message) {
        ProviderReply::RejectedAnswer
    } else {
        ProviderReply::Failure
    }
}

/// The state the reflex gate reads.
#[derive(Clone, Copy, Debug, PartialEq, Eq, Structural)]
pub struct ReflexGate {
    pub safety_reflex: bool,
    pub in_run: bool,
    pub adapter_present: bool,
    pub pending: bool,
    pub dispatched: bool,
    /// The goal in flight, if any, and whether it navigates to a target.
    pub active_has_target: Option<bool>,
    pub last_reflex_at: Option<u64>,
    pub now: u64,
    pub observation_age_ms: u64,
    pub observation_connected: bool,
}

/// The reflex may act: it is opted in, a goal loop runs with an adapter, no request or
/// dispatch is in flight, the cooldown has passed, no navigation goal is in flight, and
/// the current observation is connected and fresh. Whether a threat is near and a flight
/// cell exists is measured by the caller after this gate.
pub open spec fn spec_reflex_may_act(g: ReflexGate) -> bool {
    g.safety_reflex && g.in_run && g.adapter_present && !g.pending && !g.dispatched && !(
    g.last_reflex_at matches Some(last) && since(g.now, last)
        < crate::survival::REFLEX_COOLDOWN_MS) && g.active_has_target != Some(true)
        && g.observation_age_ms <= OBSERVATION_FRESH_MS && g.observation_connected
}

pub fn reflex_may_act(g: &ReflexGate) -> (r: bool)
    ensures
        r == spec_reflex_may_act(*g),
{
    if !g.safety_reflex || !g.in_run || !g.adapter_present || g.pending || g.dispatched {
        return false;
    }
    if let Some(last) = g.last_reflex_at {
        if elapsed_ms(g.now, last) < crate::survival::REFLEX_COOLDOWN_MS {
            return false;
        }
    }
    if g.active_has_target == Some(true) {
        return false;
    }
    g.observation_age_ms <= OBSERVATION_FRESH_MS && g.observation_connected
}

/// The paced goal loop may issue its next request: a loop runs, nothing is in flight and
/// the pacing interval has passed.
pub open spec fn spec_may_request(
    in_run: bool,
    pending: bool,
    active: bool,
    dispatched: bool,
    now: u64,
    next_request_at: u64,
) -> bool {
    in_run && !pending && !active && !dispatched && now >= next_request_at
}

pub fn may_request(
    in_run: bool,
    pending: bool,
    active: bool,
    dispatched: bool,
    now: u64,
    next_request_at: u64,
) -> (r: bool)
    ensures
        r == spec_may_request(in_run, pending, active, dispatched, now, next_request_at),
{
    in_run && !pending && !active && !dispatched && now >= next_request_at
}

/// Whether a request may be issued now.
#[derive(Clone, Copy, Debug, PartialEq, Eq, Structural)]
pub enum RequestAdmission {
    /// The event budget is reached.
    EventBudget,
    /// The request budget is used up: the session fails.
    RequestBudget,
    /// No connected fresh observation yet: try again on a later tick.
    Wait,
    /// Issue the request.
    Issue,
}

pub open spec fn spec_request_admission(
    recorded_events: usize,
    requests: u32,
    max_requests: u32,
    observation_connected: bool,
    observation_age_ms: u64,
) -> RequestAdmission {
    if recorded_events >= EVENT_BUDGET {
        RequestAdmission::EventBudget
    } else if requests >= max_requests {
        RequestAdmission::RequestBudget
    } else if !observation_connected || observation_age_ms > OBSERVATION_FRESH_MS {
        RequestAdmission::Wait
    } else {
        RequestAdmission::Issue
    }
}

pub fn request_admission(
    recorded_events: usize,
    requests: u32,
    max_requests: u32,
    observation_connected: bool,
    observation_age_ms: u64,
) -> (r: RequestAdmission)
    ensures
        r == spec_request_admission(
            recorded_events,
            requests,
            max_requests,
            observation_connected,
            observation_age_ms,
        ),
{
    if recorded_events >= EVENT_BUDGET {
        RequestAdmission::EventBudget
    } else if requests >= max_requests {
        RequestAdmission::RequestBudget
    } else if !observation_connected || observation_age_ms > OBSERVATION_FRESH_MS {
        RequestAdmission::Wait
    } else {
        RequestAdmission::Issue
    }
}

/// The session's model requests: how many were issued against its budget. A new session
/// starts at zero; `issue_if_admitted` is the only way the count grows.
pub struct RequestLedger {
    pub requests: u32,
    pub max_requests: u32,
}

impl RequestLedger {
    /// The count never passes the budget.
    pub open spec fn wf(self) -> bool {
        self.requests <= self.max_requests
    }

    pub fn new(max_requests: u32) -> (l: Self)
        ensures
            l.wf(),
            l.requests == 0,
            l.max_requests == max_requests,
    {
        RequestLedger { requests: 0, max_requests }
    }

    /// Decides whether a request may be issued now (see [`spec_request_admission`]); on
    /// `Issue` it counts the request and marks it issued on `control`, and the answer will be
    /// judged against the generation returned, the session's current one.
    pub fn issue_if_admitted(
        &mut self,
        control: &mut RunControl,
        recorded_events: usize,
        observation_connected: bool,
        observation_age_ms: u64,
    ) -> (r: (RequestAdmission, u64))
        requires
            old(self).wf(),
        ensures
            final(self).wf(),
            final(self).max_requests == old(self).max_requests,
            r.0 == spec_request_admission(
                recorded_events,
                old(self).requests,
                old(self).max_requests,
                observation_connected,
                observation_age_ms,
            ),
            r.1 == old(control).generation,
            r.0 == RequestAdmission::Issue ==> final(self).requests == old(self).requests + 1
                && final(control).generation == old(control).generation && final(control).continuous
                == old(control).continuous && !final(control).one_step,
            r.0 != RequestAdmission::Issue ==> final(self).requests == old(self).requests,
            r.0 != RequestAdmission::Issue ==> *final(control) == *old(control),
    {
        let admission = request_admission(
            recorded_events,
            self.requests,
            self.max_requests,
            observation_connected,
            observation_age_ms,
        );
        let generation = control.generation;
        if admission == RequestAdmission::Issue {
            self.requests = self.requests + 1;
            control.request_issued();
        }
        (admission, generation)
    }
}

/// The earliest time the paced loop may ask again after a request issued at `now`.
pub fn next_request_at(now: u64, request_interval_ms: u64) -> (r: u64)
    requires
        now + request_interval_ms <= u64::MAX,
    ensures
        r == now + request_interval_ms,
{
    now + request_interval_ms
}

/// Whether a chosen action may be dispatched.
#[derive(Clone, Copy, Debug, PartialEq, Eq, Structural)]
pub enum DispatchAdmission {
    /// The session's time budget is used up: the session fails.
    TimeBudget,
    /// The event budget is reached.
    EventBudget,
    /// There is no connected observation to bind the action to: the session fails.
    NoObservation,
    /// Dispatch, with the given acceptance deadline.
    Go(u64),
    /// The acceptance deadline has already passed: the session fails.
    DeadlinePassed,
}

/// The session's end, or `now` when the end does not fit the clock.
pub open spec fn session_end(now: u64, started: u64, max_seconds: u64) -> int {
    if started + max_seconds * 1000 <= u64::MAX {
        started + max_seconds * 1000
    } else {
        now as int
    }
}

pub open spec fn min(a: int, b: int) -> int {
    if a <= b {
        a
    } else {
        b
    }
}

/// An action must be accepted within a second of dispatch, within a second of the
/// observation it is bound to, before the session ends, and before the model answer's own
/// age limit when it came from the model.
pub open spec fn spec_acceptance_deadline(
    now: u64,
    observed_at: u64,
    started: u64,
    max_seconds: u64,
    response_deadline: Option<u64>,
) -> int {
    let within_window = now + ACCEPTANCE_WINDOW_MS;
    min(
        min(
            min(within_window, observed_at + ACCEPTANCE_WINDOW_MS),
            session_end(now, started, max_seconds),
        ),
        match response_deadline {
            Some(d) => d as int,
            None => within_window,
        },
    )
}

pub open spec fn spec_dispatch_admission(
    now: u64,
    started: u64,
    max_seconds: u64,
    recorded_events: usize,
    observation_connected: bool,
    observed_at: u64,
    response_deadline: Option<u64>,
) -> DispatchAdmission {
    if spec_session_expired(now, started, max_seconds) {
        DispatchAdmission::TimeBudget
    } else if recorded_events >= EVENT_BUDGET {
        DispatchAdmission::EventBudget
    } else if !observation_connected {
        DispatchAdmission::NoObservation
    } else if now >= spec_acceptance_deadline(
        now,
        observed_at,
        started,
        max_seconds,
        response_deadline,
    ) {
        DispatchAdmission::DeadlinePassed
    } else {
        DispatchAdmission::Go(
            spec_acceptance_deadline(now, observed_at, started, max_seconds, response_deadline)
                as u64,
        )
    }
}

/// Decides whether an action may be dispatched now and computes its acceptance deadline.
pub fn dispatch_admission(
    now: u64,
    started: u64,
    max_seconds: u64,
    recorded_events: usize,
    observation_connected: bool,
    observed_at: u64,
    response_deadline: Option<u64>,
) -> (r: DispatchAdmission)
    requires
        now + ACCEPTANCE_WINDOW_MS <= u64::MAX,
        observed_at + ACCEPTANCE_WINDOW_MS <= u64::MAX,
    ensures
        r == spec_dispatch_admission(
            now,
            started,
            max_seconds,
            recorded_events,
            observation_connected,
            observed_at,
            response_deadline,
        ),
{
    if session_expired(now, started, max_seconds) {
        return DispatchAdmission::TimeBudget;
    }
    if recorded_events >= EVENT_BUDGET {
        return DispatchAdmission::EventBudget;
    }
    if !observation_connected {
        return DispatchAdmission::NoObservation;
    }
    let within_window = now + ACCEPTANCE_WINDOW_MS;
    let mut deadline = within_window;
    let bound = observed_at + ACCEPTANCE_WINDOW_MS;
    if bound < deadline {
        deadline = bound;
    }
    let wide_end = started as u128 + (max_seconds as u128) * 1000;
    let end: u64 = if wide_end <= u64::MAX as u128 {
        wide_end as u64
    } else {
        now
    };
    if end < deadline {
        deadline = end;
    }
    let answer = match response_deadline {
        Some(d) => d,
        None => within_window,
    };
    if answer < deadline {
        deadline = answer;
    }
    if now >= deadline {
        return DispatchAdmission::DeadlinePassed;
    }
    DispatchAdmission::Go(deadline)
}

/// What the adapter's acknowledgement channel held at this tick.
#[derive(Clone, Debug, PartialEq, Eq)]
pub enum AckReply {
    /// The adapter accepted the action at this time.
    Accepted(u64),
    /// The adapter refused it, with its reason.
    Rejected(String),
    /// The adapter dropped the channel without answering.
    Closed,
    /// Nothing yet.
    Pending,
}

/// Why a dispatched action did not start.
#[derive(Clone, Debug, PartialEq, Eq)]
pub enum AckFailure {
    /// The acceptance time is at or after the deadline.
    DeadlineExpired,
    /// The acceptance time lies before the dispatch or in the future.
    InvalidTimestamp,
    /// The adapter ended before accepting the action.
    AdapterEnded,
    /// No acknowledgement within the deadline or a second of dispatch.
    TimedOut,
    /// The adapter refused the action.
    Refused(String),
}

/// What an acknowledgement means.
#[derive(Clone, Debug, PartialEq, Eq)]
pub enum AckOutcome {
    /// The action starts; its duration runs from this acceptance time.
    Accepted(u64),
    /// The action does not start.
    NotStarted(AckFailure),
    /// Keep waiting.
    Waiting,
}

pub open spec fn spec_acknowledge_kind(
    reply: AckReply,
    accepted_before: u64,
    sent_at: u64,
    now: u64,
) -> AckOutcome {
    match reply {
        AckReply::Accepted(at) => if at >= accepted_before {
            AckOutcome::NotStarted(AckFailure::DeadlineExpired)
        } else if at < sent_at || at > now {
            AckOutcome::NotStarted(AckFailure::InvalidTimestamp)
        } else {
            AckOutcome::Accepted(at)
        },
        AckReply::Rejected(reason) => AckOutcome::NotStarted(AckFailure::Refused(reason)),
        AckReply::Closed => AckOutcome::NotStarted(AckFailure::AdapterEnded),
        AckReply::Pending => if now >= accepted_before || since(now, sent_at)
            > ACCEPTANCE_WINDOW_MS {
            AckOutcome::NotStarted(AckFailure::TimedOut)
        } else {
            AckOutcome::Waiting
        },
    }
}

/// Interprets the adapter's acknowledgement of a dispatched action.
pub fn acknowledge(reply: AckReply, accepted_before: u64, sent_at: u64, now: u64) -> (r:
    AckOutcome)
    ensures
        r == spec_acknowledge_kind(reply, accepted_before, sent_at, now),
{
    match reply {
        AckReply::Accepted(at) => if at >= accepted_before {
            AckOutcome::NotStarted(AckFailure::DeadlineExpired)
        } else if at < sent_at || at > now {
            AckOutcome::NotStarted(AckFailure::InvalidTimestamp)
        } else {
            AckOutcome::Accepted(at)
        },
        AckReply::Rejected(reason) => AckOutcome::NotStarted(AckFailure::Refused(reason)),
        AckReply::Closed => AckOutcome::NotStarted(AckFailure::AdapterEnded),
        AckReply::Pending => if now >= accepted_before || elapsed_ms(now, sent_at)
            > ACCEPTANCE_WINDOW_MS {
            AckOutcome::NotStarted(AckFailure::TimedOut)
        } else {
            AckOutcome::Waiting
        },
    }
}

/// A refusal ends the session, except the adapter's refusal after a hit during a reflex
/// session, which is recorded and followed by a new request.
pub open spec fn spec_refusal_ends_session(failure: AckFailure, reflex_session: bool) -> bool {
    !(failure matches AckFailure::Refused(reason) && reason@ == REJECTED_AFTER_HIT@
        && reflex_session)
}

pub fn refusal_ends_session(failure: &AckFailure, reflex_session: bool) -> (r: bool)
    ensures
        r == spec_refusal_ends_session(*failure, reflex_session),
{
    match failure {
        AckFailure::Refused(reason) => !(str_eq(reason.as_str(), REJECTED_AFTER_HIT)
            && reflex_session),
        _ => true,
    }
}

/// How a bounded goal ended.
#[derive(Clone, Copy, Debug, PartialEq, Eq, Structural)]
pub enum ExecutorEnd {
    /// The bot was measured inside the arrival tolerance of the target.
    Arrived,
    /// The duration ran out with the bot outside the tolerance.
    ExpiredWithoutArrival,
    /// The duration of a target-less goal (waiting) ran out.
    Expired,
}

pub open spec fn spec_executor_end(has_target: bool, arrived: bool, elapsed_ms: u64, duration_ms: u64) -> Option<ExecutorEnd> {
    if arrived {
        Some(ExecutorEnd::Arrived)
    } else if elapsed_ms >= duration_ms {
        if has_target {
            Some(ExecutorEnd::ExpiredWithoutArrival)
        } else {
            Some(ExecutorEnd::Expired)
        }
    } else {
        None
    }
}

/// Whether the goal in flight ends now. `arrived` is the engine's own measurement: a
/// connected observation inside the arrival tolerance of the bound target.
pub fn executor_end(has_target: bool, arrived: bool, elapsed_ms: u64, duration_ms: u64) -> (r:
    Option<ExecutorEnd>)
    ensures
        r == spec_executor_end(has_target, arrived, elapsed_ms, duration_ms),
{
    if arrived {
        Some(ExecutorEnd::Arrived)
    } else if elapsed_ms >= duration_ms {
        if has_target {
            Some(ExecutorEnd::ExpiredWithoutArrival)
        } else {
            Some(ExecutorEnd::Expired)
        }
    } else {
        None
    }
}

/// What a manual takeover does.
#[derive(Clone, Copy, Debug, PartialEq, Eq, Structural)]
pub enum ManualVerdict {
    /// A replay is immutable: the command is ignored.
    Ignored,
    /// No connected observation to bind the action to.
    NoObservation,
    /// The observation is older than [`OBSERVATION_FRESH_MS`].
    ObservationTooOld,
    /// The candidate was offered for another dimension or world lifecycle.
    DifferentWorld,
    /// The candidate is not among the candidates offered for the current observation.
    NotAmongCandidates,
    /// Dispatch it, recorded as a manual action.
    Dispatch,
}

pub open spec fn spec_manual_verdict(
    replay: bool,
    current: Option<Observation>,
    observation_age_ms: u64,
    world_epoch: u64,
    dimension: Option<String>,
    among_current: bool,
) -> ManualVerdict {
    if replay {
        ManualVerdict::Ignored
    } else if !(current matches Some(o) && o.connected) {
        ManualVerdict::NoObservation
    } else if observation_age_ms > OBSERVATION_FRESH_MS {
        ManualVerdict::ObservationTooOld
    } else if current->0.world_epoch != world_epoch || !same_dimension_spec(
        current->0.dimension,
        dimension,
    ) {
        ManualVerdict::DifferentWorld
    } else if !among_current {
        ManualVerdict::NotAmongCandidates
    } else {
        ManualVerdict::Dispatch
    }
}

/// Decides a manual takeover. `among_current` is whether the candidate equals one of the
/// candidates built from the current observation.
pub fn manual_verdict(
    replay: bool,
    current: &Option<Observation>,
    observation_age_ms: u64,
    world_epoch: u64,
    dimension: &Option<String>,
    among_current: bool,
) -> (r: ManualVerdict)
    ensures
        r == spec_manual_verdict(
            replay,
            *current,
            observation_age_ms,
            world_epoch,
            *dimension,
            among_current,
        ),
{
    if replay {
        return ManualVerdict::Ignored;
    }
    let observation = match current {
        Some(o) => if o.connected {
            o
        } else {
            return ManualVerdict::NoObservation;
        },
        None => {
            return ManualVerdict::NoObservation;
        },
    };
    if observation_age_ms > OBSERVATION_FRESH_MS {
        return ManualVerdict::ObservationTooOld;
    }
    if observation.world_epoch != world_epoch || !same_dimension(&observation.dimension, dimension) {
        return ManualVerdict::DifferentWorld;
    }
    if !among_current {
        return ManualVerdict::NotAmongCandidates;
    }
    ManualVerdict::Dispatch
}

/// Pause, stop, reset, a failure or a controller change invalidates every answer requested
/// before it, whatever its age; so does the reflex's narrower stop.
pub proof fn law_invalidation_drops_pending_answers(
    c: RunControl,
    elapsed_ms: u64,
    timing: Timing,
)
    ensures
        !spec_answer_is_current(c.generation, next_generation(c.generation), elapsed_ms, timing),
{
}

/// A death ends the session even when the respawn also changed the dimension or the world
/// lifecycle, and with or without the reflex.
pub proof fn law_death_outranks_world_change(
    old: Option<Observation>,
    new: Observation,
    health_dropped: bool,
    reflex_session: bool,
)
    requires
        observation_changed(old, new),
        position_is_finite(new.position),
        finite_f32_bits(new.health_bits),
        old matches Some(o) && new.deaths > o.deaths,
    ensures
        spec_classify_observation(old, new, health_dropped, false, reflex_session)
            == ObservationOutcome::Died,
        spec_classify_observation(old, new, health_dropped, true, reflex_session)
            == ObservationOutcome::Died,
{
}

/// No health left is a death with or without the reflex.
pub proof fn law_no_health_left_is_a_death(
    old: Option<Observation>,
    new: Observation,
    health_dropped: bool,
    reflex_session: bool,
)
    requires
        observation_changed(old, new),
        position_is_finite(new.position),
        finite_f32_bits(new.health_bits),
    ensures
        spec_classify_observation(old, new, health_dropped, true, reflex_session)
            == ObservationOutcome::Died,
{
}

/// In the same connected world, a hit is survived and recorded during a reflex session and
/// is a local stop otherwise.
pub proof fn law_hit_is_survived_only_under_the_reflex(
    old: Observation,
    new: Observation,
    reflex_session: bool,
)
    requires
        observation_changed(Some(old), new),
        position_is_finite(new.position),
        finite_f32_bits(new.health_bits),
        new.deaths <= old.deaths,
        same_dimension_spec(old.dimension, new.dimension),
        old.world_epoch == new.world_epoch,
        new.connected,
    ensures
        spec_classify_observation(Some(old), new, true, false, reflex_session) == if reflex_session {
            ObservationOutcome::HurtSurvived
        } else {
            ObservationOutcome::HealthDecreased
        },
{
}

/// The reflex acts only when opted in, never while a request or dispatch is in flight,
/// never preempts a navigation goal, and acts at most once per cooldown.
pub proof fn law_reflex_gate(g: ReflexGate)
    requires
        spec_reflex_may_act(g),
    ensures
        g.safety_reflex,
        g.in_run,
        !g.pending && !g.dispatched,
        g.active_has_target != Some(true),
        g.last_reflex_at matches Some(last) ==> since(g.now, last)
            >= crate::survival::REFLEX_COOLDOWN_MS,
{
}

/// A dispatched action must be accepted after now and no later than a second after
/// dispatch, a second after its observation, the session's end and the model answer's own
/// age limit; nothing is dispatched once the time budget is used up.
pub proof fn law_dispatch_deadline_is_bounded(
    now: u64,
    started: u64,
    max_seconds: u64,
    recorded_events: usize,
    observation_connected: bool,
    observed_at: u64,
    response_deadline: Option<u64>,
)
    ensures
        spec_dispatch_admission(
            now,
            started,
            max_seconds,
            recorded_events,
            observation_connected,
            observed_at,
            response_deadline,
        ) matches DispatchAdmission::Go(d) ==> {
            &&& now < d
            &&& d <= now + ACCEPTANCE_WINDOW_MS
            &&& d <= observed_at + ACCEPTANCE_WINDOW_MS
            &&& d <= session_end(now, started, max_seconds)
            &&& response_deadline matches Some(x) ==> d <= x
            &&& !spec_session_expired(now, started, max_seconds)
            &&& observation_connected
        },
{
}

/// An action starts only on an acknowledgement that arrived between its dispatch and now
/// and before its deadline; a silent adapter past the deadline never starts it.
pub proof fn law_acceptance_is_timely(reply: AckReply, accepted_before: u64, sent_at: u64, now: u64)
    ensures
        spec_acknowledge_kind(reply, accepted_before, sent_at, now) matches AckOutcome::Accepted(
            at,
        ) ==> reply == AckReply::Accepted(at) && sent_at <= at <= now && at < accepted_before,
        reply == AckReply::Pending && now >= accepted_before ==> spec_acknowledge_kind(
            reply,
            accepted_before,
            sent_at,
            now,
        ) == AckOutcome::NotStarted(AckFailure::TimedOut),
{
}

/// A request is issued only under the request budget and the event budget, and only for
/// a connected observation at most a second old.
pub proof fn law_request_budget_is_never_exceeded(
    recorded_events: usize,
    requests: u32,
    max_requests: u32,
    observation_connected: bool,
    observation_age_ms: u64,
)
    ensures
        spec_request_admission(
            recorded_events,
            requests,
            max_requests,
            observation_connected,
            observation_age_ms,
        ) == RequestAdmission::Issue ==> requests < max_requests && recorded_events
            < EVENT_BUDGET && observation_connected && observation_age_ms <= OBSERVATION_FRESH_MS,
{
}

/// An answer is acted on only when it is a validated answer of the current generation,
/// within its age limit, for a fresh observation of the same world the bot has not been
/// hit or knocked away in. During a goal loop a rejected answer never ends the session,
/// and during a reflex session neither does an answer overtaken by a hit.
pub proof fn law_answers_acted_on_are_current(
    reply: ProviderReply,
    in_run: bool,
    current: bool,
    observation_fresh: bool,
    same_world: bool,
    unchanged: bool,
    reflex_session: bool,
)
    ensures
        spec_answer_verdict(
            reply,
            in_run,
            current,
            observation_fresh,
            same_world,
            unchanged,
            reflex_session,
        ) == AnswerVerdict::Proceed ==> reply == ProviderReply::Answer && current
            && observation_fresh && same_world && unchanged,
        reply == ProviderReply::RejectedAnswer && in_run ==> spec_answer_verdict(
            reply,
            in_run,
            current,
            observation_fresh,
            same_world,
            unchanged,
            reflex_session,
        ) == AnswerVerdict::DropRejected,
        reply == ProviderReply::Answer && current && observation_fresh && same_world && !unchanged
            && reflex_session ==> spec_answer_verdict(
            reply,
            in_run,
            current,
            observation_fresh,
            same_world,
            unchanged,
            reflex_session,
        ) == AnswerVerdict::DropOvertaken,
{
}

/// A replay is immutable: starting, stepping and manual goals are ignored while one is
/// shown, whatever else holds.
pub proof fn law_replay_is_immutable(
    adapter_present: bool,
    current: Option<Observation>,
    observation_age_ms: u64,
    world_epoch: u64,
    dimension: Option<String>,
    among_current: bool,
)
    ensures
        spec_start_outcome(true, adapter_present) == StartOutcome::Ignored,
        spec_manual_verdict(
            true,
            current,
            observation_age_ms,
            world_epoch,
            dimension,
            among_current,
        ) == ManualVerdict::Ignored,
{
}

/// A goal reports arrival exactly when the engine measured the bot inside the tolerance,
/// and otherwise runs until its duration expires.
pub proof fn law_arrival_is_measured(
    has_target: bool,
    arrived: bool,
    elapsed_ms: u64,
    duration_ms: u64,
)
    ensures
        (spec_executor_end(has_target, arrived, elapsed_ms, duration_ms) == Some(
            ExecutorEnd::Arrived,
        )) == arrived,
        !arrived && elapsed_ms < duration_ms ==> spec_executor_end(
            has_target,
            arrived,
            elapsed_ms,
            duration_ms,
        ) is None,
        !arrived && elapsed_ms >= duration_ms ==> spec_executor_end(
            has_target,
            arrived,
            elapsed_ms,
            duration_ms,
        ) is Some,
{
}

/// Most navigation candidates one observation offers.
pub const MAX_WAYPOINT_CANDIDATES: usize = 8;
/// Shortest and longest bounded goal, in milliseconds.
pub const MIN_GOAL_MS: u64 = 1;
pub const MAX_GOAL_MS: u64 = 10_000;

/// A goal's duration, clamped to the engine's bounds.
pub open spec fn spec_goal_duration(duration_ms: u64) -> u64 {
    if duration_ms < MIN_GOAL_MS {
        MIN_GOAL_MS
    } else if duration_ms > MAX_GOAL_MS {
        MAX_GOAL_MS
    } else {
        duration_ms
    }
}

pub fn goal_duration(duration_ms: u64) -> (r: u64)
    ensures
        r == spec_goal_duration(duration_ms),
{
    if duration_ms < MIN_GOAL_MS {
        MIN_GOAL_MS
    } else if duration_ms > MAX_GOAL_MS {
        MAX_GOAL_MS
    } else {
        duration_ms
    }
}

/// A landmark may become a navigation goal: any landmark of the offline fixture, or a
/// `waypoint:` landmark of a live world, with finite coordinates. How far away it is, the
/// caller measures.
pub open spec fn spec_landmark_offered(mode: Mode, landmark: Landmark) -> bool {
    (mode == Mode::Demo || spec_starts_with(landmark.name@, "waypoint:"@)) && position_is_finite(
        landmark.position,
    )
}

pub fn landmark_offered(mode: Mode, landmark: &Landmark) -> (r: bool)
    ensures
        r == spec_landmark_offered(mode, *landmark),
{
    (mode == Mode::Demo || starts_with(landmark.name.as_str(), "waypoint:"))
        && landmark.position.is_finite()
}

/// The indices among the first `n` landmarks that become navigation goals: the eligible
/// ones, in order, at most [`MAX_WAYPOINT_CANDIDATES`].
pub open spec fn selected_upto(eligible: Seq<bool>, n: int) -> Seq<int>
    decreases n,
{
    if n <= 0 || n > eligible.len() {
        Seq::empty()
    } else {
        let previous = selected_upto(eligible, n - 1);
        if eligible[n - 1] && previous.len() < MAX_WAYPOINT_CANDIDATES {
            previous.push(n - 1)
        } else {
            previous
        }
    }
}

/// See [`selected_upto`]; `eligible[i]` says whether landmark `i` is offered and within
/// reach.
pub fn waypoint_indices(eligible: &[bool]) -> (r: Vec<usize>)
    ensures
        r@.len() == selected_upto(eligible@, eligible@.len() as int).len(),
        forall|k: int|
            0 <= k < r@.len() ==> r@[k] as int == #[trigger] selected_upto(
                eligible@,
                eligible@.len() as int,
            )[k],
{
    let mut r: Vec<usize> = Vec::new();
    let n = eligible.len();
    let mut i: usize = 0;
    while i < n
        invariant
            n == eligible@.len(),
            i <= n,
            r@.len() == selected_upto(eligible@, i as int).len(),
            r@.len() <= MAX_WAYPOINT_CANDIDATES,
            forall|k: int|
                0 <= k < r@.len() ==> r@[k] as int == #[trigger] selected_upto(
                    eligible@,
                    i as int,
                )[k],
        decreases n - i,
    {
        if eligible[i] && r.len() < MAX_WAYPOINT_CANDIDATES {
            r.push(i);
        }
        i += 1;
    }
    r
}

/// The identifier of the navigation goal built from landmark `index`.
pub fn waypoint_id(index: usize) -> (r: String)
    ensures
        r@ == "waypoint_"@ + decimal(index as nat),
{
    String::from_str("waypoint_").concat(decimal_text(index as u64).as_str())
}

/// The goal every observation offers: wait without moving.
pub fn wait_candidate(duration_ms: u64) -> (c: Candidate)
    ensures
        c.id@ == "wait"@,
        c.description@ == "Wait without moving"@,
        c.target is None,
        c.duration_ms == spec_goal_duration(duration_ms),
{
    Candidate {
        id: String::from_str("wait"),
        description: String::from_str("Wait without moving"),
        target: None,
        duration_ms: goal_duration(duration_ms),
    }
}

/// A landmark the session counts as an observed waypoint: any landmark of the offline
/// fixture, or one the live adapter named `waypoint:`.
pub open spec fn names_waypoint(mode: Mode, landmark: Landmark) -> bool {
    mode == Mode::Demo || spec_starts_with(landmark.name@, "waypoint:"@)
}

/// How many of the first `n` landmarks are observed waypoints.
pub open spec fn waypoints_upto(mode: Mode, landmarks: Seq<Landmark>, n: int) -> nat
    decreases n,
{
    if n <= 0 || n > landmarks.len() {
        0
    } else {
        waypoints_upto(mode, landmarks, n - 1) + if names_waypoint(mode, landmarks[n - 1]) {
            1nat
        } else {
            0nat
        }
    }
}

/// How many landmarks of an observation are waypoints.
pub fn waypoint_count(mode: Mode, landmarks: &[Landmark]) -> (r: usize)
    ensures
        r == waypoints_upto(mode, landmarks@, landmarks@.len() as int),
{
    let n = landmarks.len();
    let mut count: usize = 0;
    let mut i: usize = 0;
    while i < n
        invariant
            n == landmarks@.len(),
            i <= n,
            count == waypoints_upto(mode, landmarks@, i as int),
            count <= i,
        decreases n - i,
    {
        if mode == Mode::Demo || starts_with(landmarks[i].name.as_str(), "waypoint:") {
            count += 1;
        }
        i += 1;
    }
    count
}

/// How many of the first `n` candidates navigate to a target.
pub open spec fn targeted_upto(candidates: Seq<Candidate>, n: int) -> nat
    decreases n,
{
    if n <= 0 || n > candidates.len() {
        0
    } else {
        targeted_upto(candidates, n - 1) + if candidates[n - 1].target is Some {
            1nat
        } else {
            0nat
        }
    }
}

/// How many candidates navigate to a target.
pub fn navigable_count(candidates: &[Candidate]) -> (r: usize)
    ensures
        r == targeted_upto(candidates@, candidates@.len() as int),
{
    let n = candidates.len();
    let mut count: usize = 0;
    let mut i: usize = 0;
    while i < n
        invariant
            n == candidates@.len(),
            i <= n,
            count == targeted_upto(candidates@, i as int),
            count <= i,
        decreases n - i,
    {
        if candidates[i].target.is_some() {
            count += 1;
        }
        i += 1;
    }
    count
}

/// What a request event adds when it offers no navigation: how many waypoints were
/// observed, none of which lay between the arrival tolerance and twelve blocks away.
pub open spec fn spec_navigation_note(observed_waypoints: nat, navigable: nat) -> Seq<char> {
    if navigable == 0 {
        "; no navigate candidate: "@ + decimal(observed_waypoints)
            + " observed waypoints, none between 0.6 and 12 blocks away"@
    } else {
        Seq::empty()
    }
}

pub fn navigation_note(observed_waypoints: usize, navigable: usize) -> (r: String)
    ensures
        r@ == spec_navigation_note(observed_waypoints as nat, navigable as nat),
{
    if navigable == 0 {
        String::from_str("; no navigate candidate: ").concat(
            decimal_text(observed_waypoints as u64).as_str(),
        ).concat(" observed waypoints, none between 0.6 and 12 blocks away")
    } else {
        String::new()
    }
}

/// The first candidate from `i` on that is a flight goal.
pub open spec fn first_flight_from(candidates: Seq<Candidate>, i: int) -> Option<int>
    decreases candidates.len() - i,
{
    if i < 0 || i >= candidates.len() {
        None
    } else if spec_starts_with(candidates[i].id@, "flee_"@) {
        Some(i)
    } else {
        first_flight_from(candidates, i + 1)
    }
}

proof fn lemma_first_flight_bounds(candidates: Seq<Candidate>, i: int)
    requires
        0 <= i,
    ensures
        first_flight_from(candidates, i) matches Some(k) ==> i <= k < candidates.len(),
    decreases candidates.len() - i,
{
    if i < candidates.len() && !spec_starts_with(candidates[i].id@, "flee_"@) {
        lemma_first_flight_bounds(candidates, i + 1);
    }
}

/// The flight goal the safety reflex dispatches: the first candidate whose identifier
/// starts with `flee_`, the best-ranked one.
pub fn first_flight(candidates: &[Candidate]) -> (r: Option<usize>)
    ensures
        match r {
            Some(k) => first_flight_from(candidates@, 0) == Some(k as int),
            None => first_flight_from(candidates@, 0) is None,
        },
{
    proof {
        lemma_first_flight_bounds(candidates@, 0);
    }
    let n = candidates.len();
    let mut i: usize = 0;
    while i < n
        invariant
            n == candidates@.len(),
            i <= n,
            first_flight_from(candidates@, 0) == first_flight_from(candidates@, i as int),
        decreases n - i,
    {
        if starts_with(candidates[i].id.as_str(), "flee_") {
            return Some(i);
        }
        i += 1;
    }
    None
}

/// The paced loop asks the model only in a run, with nothing in flight (no request
/// pending, no goal executing, no action awaiting acceptance), once the pacing time has
/// come; and it does ask then.
pub proof fn law_requests_wait_for_idle_and_pacing(
    in_run: bool,
    pending: bool,
    active: bool,
    dispatched: bool,
    now: u64,
    next_request_at: u64,
)
    ensures
        spec_may_request(in_run, pending, active, dispatched, now, next_request_at) ==> in_run
            && !pending && !active && !dispatched && next_request_at <= now,
        active ==> !spec_may_request(in_run, pending, active, dispatched, now, next_request_at),
        pending ==> !spec_may_request(in_run, pending, active, dispatched, now, next_request_at),
        dispatched ==> !spec_may_request(in_run, pending, active, dispatched, now, next_request_at),
        now < next_request_at ==> !spec_may_request(
            in_run,
            pending,
            active,
            dispatched,
            now,
            next_request_at,
        ),
        in_run && !pending && !active && !dispatched && next_request_at <= now
            ==> spec_may_request(in_run, pending, active, dispatched, now, next_request_at),
{
}

} // verus!
