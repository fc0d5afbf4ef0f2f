//! Rules of the headless multi-goal session harness: which options it accepts, how each
//! way a session can end maps to an exit code, and the counts a summary reports, read from
//! the recorded events rather than from status text.
use crate::engine::{DIMENSION_CHANGED, HEALTH_DECREASED, WORLD_LIFECYCLE_CHANGED};
use crate::model::{Event, Settings};
use crate::origin::{ActionOrigin, event_origin, spec_event_origin};
use crate::text::{
    chars_of, contains, is_control, spec_contains, spec_is_control, spec_starts_with, starts_with,
    str_eq,
};
use vstd::prelude::*;

verus! {

/// Longest an objective may be, in characters, matching the engine's own validation.
pub const MAX_OBJECTIVE_CHARS: usize = 400;
/// Upper bound on the pacing interval, in seconds (one day).
pub const MAX_REQUEST_INTERVAL_S: u64 = 86_400;
/// Upper bound on the request budget.
pub const MAX_REQUESTS: u64 = 100_000;
/// Upper bound on the session time budget, in seconds (seven days).
pub const MAX_SESSION_SECONDS: u64 = 604_800;

/// Everything a session run needs; checked by [`SessionOptions::validate`].
#[derive(Clone, Debug)]
pub struct SessionOptions {
    pub settings: Settings,
    /// Budget for the first connected observation, in milliseconds.
    pub connect_timeout_ms: u64,
    /// Where to move the exported recording; `None` leaves it under `runs/`.
    pub export: Option<String>,
    /// Leave the bot connected at the end instead of stopping and resetting.
    pub keep_connected: bool,
    /// Echo each recorded event as it appears.
    pub verbose: bool,
}

/// Why session options were refused. Each reason reads as one line.
#[derive(Clone, Debug, PartialEq, Eq)]
pub enum OptionsError {
    ObjectiveTooLong,
    ObjectiveControlCharacter,
    RequestIntervalOutOfRange,
    MaxRequestsOutOfRange,
    MaxSecondsOutOfRange,
    ZeroConnectBudget,
    ExportNotJson,
    ExportIsDirectory,
    /// The directory the export would be written into, which does not exist.
    ExportDirectoryMissing(String),
}

/// The one-line message for a refused option.
pub open spec fn spec_options_message(e: OptionsError) -> Seq<char> {
    match e {
        OptionsError::ObjectiveTooLong => "--objective must be at most 400 characters"@,
        OptionsError::ObjectiveControlCharacter =>
            "--objective must not contain control characters"@,
        OptionsError::RequestIntervalOutOfRange =>
            "--request-interval-seconds must be from 0 to 86400"@,
        OptionsError::MaxRequestsOutOfRange => "--max-requests must be from 1 to 100000"@,
        OptionsError::MaxSecondsOutOfRange => "--max-seconds must be from 1 to 604800"@,
        OptionsError::ZeroConnectBudget => "the connect budget must be positive"@,
        OptionsError::ExportNotJson => "--export must name a .json file"@,
        OptionsError::ExportIsDirectory => "--export must name a file, not a directory"@,
        OptionsError::ExportDirectoryMissing(parent) =>
            "--export directory does not exist: "@ + parent@,
    }
}

impl OptionsError {
    /// The one-line message for the command line.
    pub fn message(&self) -> (r: String)
        ensures
            r@ == spec_options_message(*self),
    {
        match self {
            OptionsError::ObjectiveTooLong => String::from_str(
                "--objective must be at most 400 characters",
            ),
            OptionsError::ObjectiveControlCharacter => String::from_str(
                "--objective must not contain control characters",
            ),
            OptionsError::RequestIntervalOutOfRange => String::from_str(
                "--request-interval-seconds must be from 0 to 86400",
            ),
            OptionsError::MaxRequestsOutOfRange => String::from_str(
                "--max-requests must be from 1 to 100000",
            ),
            OptionsError::MaxSecondsOutOfRange => String::from_str(
                "--max-seconds must be from 1 to 604800",
            ),
            OptionsError::ZeroConnectBudget => String::from_str(
                "the connect budget must be positive",
            ),
            OptionsError::ExportNotJson => String::from_str("--export must name a .json file"),
            OptionsError::ExportIsDirectory => String::from_str(
                "--export must name a file, not a directory",
            ),
            OptionsError::ExportDirectoryMissing(parent) => String::from_str(
                "--export directory does not exist: ",
            ).concat(parent.as_str()),
        }
    }
}

/// The objective contains a control character other than a newline.
pub open spec fn has_forbidden_control(objective: Seq<char>) -> bool {
    exists|i: int|
        0 <= i < objective.len() && spec_is_control(#[trigger] objective[i]) && objective[i]
            != '\n'
}

pub open spec fn spec_validate_objective(objective: Seq<char>) -> Result<(), OptionsError> {
    if objective.len() > MAX_OBJECTIVE_CHARS {
        Err(OptionsError::ObjectiveTooLong)
    } else if has_forbidden_control(objective) {
        Err(OptionsError::ObjectiveControlCharacter)
    } else {
        Ok(())
    }
}

/// The engine's objective rule: at most 400 characters and no control character except a
/// newline. Exposed so a command line can fail before connecting.
pub fn validate_objective(objective: &str) -> (r: Result<(), OptionsError>)
    ensures
        r == spec_validate_objective(objective@),
{
    let chars = chars_of(objective);
    if chars.len() > MAX_OBJECTIVE_CHARS {
        return Err(OptionsError::ObjectiveTooLong);
    }
    let mut i: usize = 0;
    while i < chars.len()
        invariant
            chars@ == objective@,
            chars@.len() <= MAX_OBJECTIVE_CHARS,
            i <= chars@.len(),
            forall|k: int| 0 <= k < i ==> !(spec_is_control(#[trigger] chars@[k]) && chars@[k] != '\n'),
        decreases chars@.len() - i,
    {
        if is_control(chars[i]) && chars[i] != '\n' {
            assert(spec_is_control(objective@[i as int]) && objective@[i as int] != '\n');
            return Err(OptionsError::ObjectiveControlCharacter);
        }
        i += 1;
    }
    Ok(())
}

/// The part of `Path::extension` this library relies on: the extension of the final path
/// component, as std computes it.
pub uninterp spec fn path_extension(path: Seq<char>) -> Option<Seq<char>>;

/// The parent directory `Path::parent` computes.
pub uninterp spec fn path_parent(path: Seq<char>) -> Option<Seq<char>>;

/// `Path::extension` of the path, as text. The result is named by [`path_extension`].
#[verifier::external_body]
pub(crate) fn extension_of(path: &str) -> (r: Option<String>)
    ensures
        match r {
            Some(e) => path_extension(path@) == Some(e@),
            None => path_extension(path@) is None,
        },
{
    match std::path::Path::new(path).extension() {
        Some(e) => Some(e.to_string_lossy().into_owned()),
        None => None,
    }
}

/// `Path::parent` of the path, as text. The result is named by [`path_parent`].
#[verifier::external_body]
fn parent_of(path: &str) -> (r: Option<String>)
    ensures
        match r {
            Some(p) => path_parent(path@) == Some(p@),
            None => path_parent(path@) is None,
        },
{
    match std::path::Path::new(path).parent() {
        Some(p) => Some(p.to_string_lossy().into_owned()),
        None => None,
    }
}

/// `Path::is_dir`: whether a directory exists at the path now. The answer depends on the
/// file system at the moment of the call, so nothing is stated of it.
#[verifier::external_body]
fn is_existing_directory(path: &str) -> (r: bool) {
    std::path::Path::new(path).is_dir()
}

/// The directory an export path is written into: its parent, or `.` when the path has
/// no parent or an empty one.
pub open spec fn export_directory(path: Seq<char>) -> Seq<char> {
    match path_parent(path) {
        Some(parent) => if parent.len() > 0 {
            parent
        } else {
            "."@
        },
        None => "."@,
    }
}

/// Whether the extension is exactly `json`.
pub open spec fn is_json_extension(extension: Option<Seq<char>>) -> bool {
    match extension {
        Some(e) => e == "json"@,
        None => false,
    }
}

pub open spec fn opt_view(o: Option<String>) -> Option<Seq<char>> {
    match o {
        Some(s) => Some(s@),
        None => None,
    }
}

/// The export verdict, given what the file system said: a `.json` file that is not a
/// directory, in a directory that exists.
pub open spec fn is_export_verdict(
    r: Result<(), OptionsError>,
    extension: Option<Seq<char>>,
    path_is_dir: bool,
    directory: Seq<char>,
    directory_exists: bool,
) -> bool {
    if !is_json_extension(extension) {
        r == Err::<(), OptionsError>(OptionsError::ExportNotJson)
    } else if path_is_dir {
        r == Err::<(), OptionsError>(OptionsError::ExportIsDirectory)
    } else if !directory_exists {
        r matches Err(OptionsError::ExportDirectoryMissing(d)) && d@ == directory
    } else {
        r == Ok::<(), OptionsError>(())
    }
}

/// Decides an export path from its extension and what the file system reported about the
/// path and its directory.
pub fn export_verdict(
    extension: Option<String>,
    path_is_dir: bool,
    directory: String,
    directory_exists: bool,
) -> (r: Result<(), OptionsError>)
    ensures
        is_export_verdict(r, opt_view(extension), path_is_dir, directory@, directory_exists),
{
    let json = match &extension {
        Some(e) => str_eq(e.as_str(), "json"),
        None => false,
    };
    if !json {
        return Err(OptionsError::ExportNotJson);
    }
    if path_is_dir {
        return Err(OptionsError::ExportIsDirectory);
    }
    if !directory_exists {
        return Err(OptionsError::ExportDirectoryMissing(directory));
    }
    Ok(())
}

/// The directory an export path is written into; see [`export_directory`].
pub fn export_directory_of(path: &str) -> (r: String)
    ensures
        r@ == export_directory(path@),
{
    match parent_of(path) {
        Some(parent) => if parent.as_str().is_empty() {
            String::from_str(".")
        } else {
            parent
        },
        None => String::from_str("."),
    }
}

/// What the export check owes whatever the file system reports: `ExportNotJson` exactly
/// when the extension is not `json`; success only for a `json` path; no error but the
/// three export errors; and a missing directory named as the one the path is written into.
pub open spec fn export_check(path: Seq<char>, r: Result<(), OptionsError>) -> bool {
    &&& (r == Err::<(), OptionsError>(OptionsError::ExportNotJson)) <==> !is_json_extension(
        path_extension(path),
    )
    &&& r is Ok ==> is_json_extension(path_extension(path))
    &&& r matches Err(e) ==> (e == OptionsError::ExportNotJson || e
        == OptionsError::ExportIsDirectory || e is ExportDirectoryMissing)
    &&& r matches Err(OptionsError::ExportDirectoryMissing(d)) ==> d@ == export_directory(path)
}

/// An export path must be a `.json` file in an existing directory, so the failure is
/// reported before the session and not after the bot has spent its budget. Whether the
/// path or its directory exists is read from the file system during the call.
pub fn validate_export_path(path: &str) -> (r: Result<(), OptionsError>)
    ensures
        export_check(path@, r),
{
    let extension = extension_of(path);
    let path_is_dir = is_existing_directory(path);
    let directory = export_directory_of(path);
    let directory_exists = is_existing_directory(directory.as_str());
    export_verdict(extension, path_is_dir, directory, directory_exists)
}

/// The first of the option checks that do not read the file system, in the order they are
/// made.
pub open spec fn options_first_error(settings: Settings, connect_timeout_ms: u64) -> Option<
    OptionsError,
> {
    match spec_validate_objective(settings.objective@) {
        Err(e) => Some(e),
        Ok(_) => if settings.request_interval_ms / 1_000 > MAX_REQUEST_INTERVAL_S {
            Some(OptionsError::RequestIntervalOutOfRange)
        } else if !(1 <= settings.max_requests <= MAX_REQUESTS) {
            Some(OptionsError::MaxRequestsOutOfRange)
        } else if !(1 <= settings.max_seconds <= MAX_SESSION_SECONDS) {
            Some(OptionsError::MaxSecondsOutOfRange)
        } else if connect_timeout_ms == 0 {
            Some(OptionsError::ZeroConnectBudget)
        } else {
            None
        },
    }
}

impl SessionOptions {
    /// Rejects what the engine would reject at `Connect` and what the harness itself
    /// cannot honour, one line each, so a run fails before it starts.
    pub fn validate(&self) -> (r: Result<(), OptionsError>)
        ensures
            options_first_error(self.settings, self.connect_timeout_ms) matches Some(e) ==> r
                == Err::<(), OptionsError>(e),
            options_first_error(self.settings, self.connect_timeout_ms) is None
                && self.export is None ==> r == Ok::<(), OptionsError>(()),
            options_first_error(self.settings, self.connect_timeout_ms) is None ==> (
            self.export matches Some(path) ==> export_check(path@, r)),
    {
        validate_objective(self.settings.objective.as_str())?;
        if self.settings.request_interval_ms / 1_000 > MAX_REQUEST_INTERVAL_S {
            return Err(OptionsError::RequestIntervalOutOfRange);
        }
        if !(1 <= self.settings.max_requests as u64 && self.settings.max_requests as u64
            <= MAX_REQUESTS) {
            return Err(OptionsError::MaxRequestsOutOfRange);
        }
        if !(1 <= self.settings.max_seconds && self.settings.max_seconds <= MAX_SESSION_SECONDS) {
            return Err(OptionsError::MaxSecondsOutOfRange);
        }
        if self.connect_timeout_ms == 0 {
            return Err(OptionsError::ZeroConnectBudget);
        }
        match &self.export {
            Some(path) => validate_export_path(path.as_str()),
            None => Ok(()),
        }
    }
}

/// How a session ended. Only `Budget` with the bot still connected is a success.
#[derive(Clone, Copy, Debug, PartialEq, Eq, Structural)]
pub enum EndReason {
    /// The engine ended the session on its own request or time budget.
    Budget,
    /// No connected observation arrived inside the connect budget, or the adapter failed
    /// before the loop started.
    ConnectionFailed,
    /// The provider failed or a key was missing.
    ProviderFailed,
    /// The bot lost its connection while the session was running.
    Disconnected,
    /// The session neither ended nor failed inside the wall-clock guard.
    Stalled,
}

pub open spec fn spec_exit_code(reason: EndReason) -> i32 {
    match reason {
        EndReason::Budget => 0,
        EndReason::ConnectionFailed => 1,
        EndReason::ProviderFailed => 6,
        EndReason::Disconnected => 7,
        EndReason::Stalled => 8,
    }
}

impl EndReason {
    /// Process exit code for a command line wrapper; distinct per failure.
    pub fn exit_code(self) -> (r: i32)
        ensures
            r == spec_exit_code(self),
    {
        match self {
            EndReason::Budget => 0,
            EndReason::ConnectionFailed => 1,
            EndReason::ProviderFailed => 6,
            EndReason::Disconnected => 7,
            EndReason::Stalled => 8,
        }
    }
}

/// Only a budget end is a success, and every way to fail has its own non-zero code.
pub proof fn law_exit_codes_are_distinct(a: EndReason, b: EndReason)
    ensures
        spec_exit_code(a) == 0 <==> a == EndReason::Budget,
        a != b ==> spec_exit_code(a) != spec_exit_code(b),
{
}

/// Counts read from a session's recorded events, not from the engine's status text.
#[derive(Clone, Debug, PartialEq, Eq, Structural)]
pub struct Counts {
    pub events: usize,
    pub requests: u32,
    /// Model answers, counted once each on their `decision` event.
    pub answers: u32,
    pub answers_wait: u32,
    pub answers_waypoint: u32,
    pub answers_flee: u32,
    pub answers_other: u32,
    /// Engine safety-reflex actions: `dispatched` rows attributed to the reflex. They carry
    /// no model decision and are not answers.
    pub reflex_actions: u32,
    pub accepted_actions: u32,
    pub arrival_verdicts: u32,
    pub arrived: u32,
}

/// How many events satisfy `f`.
pub open spec fn count_of(events: Seq<Event>, f: spec_fn(Event) -> bool) -> nat
    decreases events.len(),
{
    if events.len() == 0 {
        0
    } else {
        count_of(events.drop_last(), f) + if f(events.last()) {
            1nat
        } else {
            0nat
        }
    }
}

pub open spec fn is_request_event(e: Event) -> bool {
    e.kind@ == "request"@
}

pub open spec fn is_accepted_action_event(e: Event) -> bool {
    e.kind@ == "action"@
}

/// A model answer: a `decision` event carrying a decision.
pub open spec fn is_answer_event(e: Event) -> bool {
    e.kind@ == "decision"@ && e.decision is Some
}

pub open spec fn answer_choice(e: Event) -> Seq<char> {
    e.decision->0.choice@
}

pub open spec fn is_wait_answer(e: Event) -> bool {
    is_answer_event(e) && answer_choice(e) == "wait"@
}

pub open spec fn is_waypoint_answer(e: Event) -> bool {
    is_answer_event(e) && answer_choice(e) != "wait"@ && spec_starts_with(
        answer_choice(e),
        "waypoint_"@,
    )
}

pub open spec fn is_flee_answer(e: Event) -> bool {
    is_answer_event(e) && answer_choice(e) != "wait"@ && !spec_starts_with(
        answer_choice(e),
        "waypoint_"@,
    ) && spec_starts_with(answer_choice(e), "flee_"@)
}

pub open spec fn is_other_answer(e: Event) -> bool {
    is_answer_event(e) && answer_choice(e) != "wait"@ && !spec_starts_with(
        answer_choice(e),
        "waypoint_"@,
    ) && !spec_starts_with(answer_choice(e), "flee_"@)
}

/// A reflex action: a `dispatched` row the attribution rule gives to the safety reflex.
pub open spec fn is_reflex_action_event(e: Event) -> bool {
    e.kind@ == "dispatched"@ && spec_event_origin(e) == Some(ActionOrigin::SafetyReflex)
}

pub open spec fn has_verdict(e: Event) -> bool {
    e.arrival is Some
}

pub open spec fn has_arrived_verdict(e: Event) -> bool {
    e.arrival matches Some(v) && v.arrived
}

/// The counts of a recorded event sequence.
pub open spec fn spec_counts(events: Seq<Event>) -> Counts {
    Counts {
        events: events.len() as usize,
        requests: count_of(events, |e: Event| is_request_event(e)) as u32,
        answers: count_of(events, |e: Event| is_answer_event(e)) as u32,
        answers_wait: count_of(events, |e: Event| is_wait_answer(e)) as u32,
        answers_waypoint: count_of(events, |e: Event| is_waypoint_answer(e)) as u32,
        answers_flee: count_of(events, |e: Event| is_flee_answer(e)) as u32,
        answers_other: count_of(events, |e: Event| is_other_answer(e)) as u32,
        reflex_actions: count_of(events, |e: Event| is_reflex_action_event(e)) as u32,
        accepted_actions: count_of(events, |e: Event| is_accepted_action_event(e)) as u32,
        arrival_verdicts: count_of(events, |e: Event| has_verdict(e)) as u32,
        arrived: count_of(events, |e: Event| has_arrived_verdict(e)) as u32,
    }
}

/// Counting over two stretches of events adds up.
pub proof fn lemma_count_of_concat(a: Seq<Event>, b: Seq<Event>, f: spec_fn(Event) -> bool)
    ensures
        count_of(a + b, f) == count_of(a, f) + count_of(b, f),
    decreases b.len(),
{
    if b.len() == 0 {
        assert(a + b =~= a);
    } else {
        assert((a + b).drop_last() =~= a + b.drop_last());
        assert((a + b).last() == b.last());
        lemma_count_of_concat(a, b.drop_last(), f);
    }
}

/// The counts of a recording are the sums of the counts of its parts, field by field, and
/// no more goals arrive than have verdicts.
pub proof fn law_counts_add_up_over_concatenation(a: Seq<Event>, b: Seq<Event>)
    requires
        (a + b).len() < u32::MAX,
    ensures
        spec_counts(a + b).events == spec_counts(a).events + spec_counts(b).events,
        spec_counts(a + b).requests == spec_counts(a).requests + spec_counts(b).requests,
        spec_counts(a + b).answers == spec_counts(a).answers + spec_counts(b).answers,
        spec_counts(a + b).answers_wait == spec_counts(a).answers_wait + spec_counts(b).answers_wait,
        spec_counts(a + b).answers_waypoint == spec_counts(a).answers_waypoint + spec_counts(
            b,
        ).answers_waypoint,
        spec_counts(a + b).answers_flee == spec_counts(a).answers_flee + spec_counts(b).answers_flee,
        spec_counts(a + b).answers_other == spec_counts(a).answers_other + spec_counts(
            b,
        ).answers_other,
        spec_counts(a + b).reflex_actions == spec_counts(a).reflex_actions + spec_counts(
            b,
        ).reflex_actions,
        spec_counts(a + b).accepted_actions == spec_counts(a).accepted_actions + spec_counts(
            b,
        ).accepted_actions,
        spec_counts(a + b).arrival_verdicts == spec_counts(a).arrival_verdicts + spec_counts(
            b,
        ).arrival_verdicts,
        spec_counts(a + b).arrived == spec_counts(a).arrived + spec_counts(b).arrived,
        spec_counts(a + b).arrived <= spec_counts(a + b).arrival_verdicts,
{
    let fs: Seq<spec_fn(Event) -> bool> = seq![
        |e: Event| is_request_event(e),
        |e: Event| is_answer_event(e),
        |e: Event| is_wait_answer(e),
        |e: Event| is_waypoint_answer(e),
        |e: Event| is_flee_answer(e),
        |e: Event| is_other_answer(e),
        |e: Event| is_reflex_action_event(e),
        |e: Event| is_accepted_action_event(e),
        |e: Event| has_verdict(e),
        |e: Event| has_arrived_verdict(e),
    ];
    assert forall|k: int| 0 <= k < fs.len() implies count_of(a + b, #[trigger] fs[k]) == count_of(
        a,
        fs[k],
    ) + count_of(b, fs[k]) && count_of(a, fs[k]) <= a.len() && count_of(b, fs[k]) <= b.len() by {
        lemma_count_of_concat(a, b, fs[k]);
        lemma_count_at_most_len(a, fs[k]);
        lemma_count_at_most_len(b, fs[k]);
    }
    assert(count_of(a + b, fs[0]) == count_of(a, fs[0]) + count_of(b, fs[0]));
    assert(count_of(a + b, fs[1]) == count_of(a, fs[1]) + count_of(b, fs[1]));
    assert(count_of(a + b, fs[2]) == count_of(a, fs[2]) + count_of(b, fs[2]));
    assert(count_of(a + b, fs[3]) == count_of(a, fs[3]) + count_of(b, fs[3]));
    assert(count_of(a + b, fs[4]) == count_of(a, fs[4]) + count_of(b, fs[4]));
    assert(count_of(a + b, fs[5]) == count_of(a, fs[5]) + count_of(b, fs[5]));
    assert(count_of(a + b, fs[6]) == count_of(a, fs[6]) + count_of(b, fs[6]));
    assert(count_of(a + b, fs[7]) == count_of(a, fs[7]) + count_of(b, fs[7]));
    assert(count_of(a + b, fs[8]) == count_of(a, fs[8]) + count_of(b, fs[8]));
    assert(count_of(a + b, fs[9]) == count_of(a, fs[9]) + count_of(b, fs[9]));
    law_reflex_actions_are_not_answers(a + b);
}

proof fn lemma_count_at_most_len(events: Seq<Event>, f: spec_fn(Event) -> bool)
    ensures
        count_of(events, f) <= events.len(),
    decreases events.len(),
{
    if events.len() > 0 {
        lemma_count_at_most_len(events.drop_last(), f);
    }
}

proof fn lemma_count_step(events: Seq<Event>, i: int, f: spec_fn(Event) -> bool)
    requires
        0 <= i < events.len(),
    ensures
        count_of(events.take(i + 1), f) == count_of(events.take(i), f) + if f(events[i]) {
            1nat
        } else {
            0nat
        },
{
    assert(events.take(i + 1).drop_last() =~= events.take(i));
}

/// One-step increment of a `u32` counter that stays below `u32::MAX`.
fn bump(counter: u32, yes: bool) -> (r: u32)
    requires
        counter < u32::MAX,
    ensures
        r == counter + if yes {
            1int
        } else {
            0int
        },
{
    if yes {
        counter + 1
    } else {
        counter
    }
}

/// Derives the counts from recorded events. Shared by the live summary and the offline
/// report so the two cannot disagree about what a recording says.
pub fn counts(events: &[Event]) -> (c: Counts)
    requires
        events@.len() < u32::MAX,
    ensures
        c == spec_counts(events@),
{
    let n = events.len();
    let mut c = Counts {
        events: n,
        requests: 0,
        answers: 0,
        answers_wait: 0,
        answers_waypoint: 0,
        answers_flee: 0,
        answers_other: 0,
        reflex_actions: 0,
        accepted_actions: 0,
        arrival_verdicts: 0,
        arrived: 0,
    };
    let ghost s = events@;
    proof {
        assert(s.take(0) =~= Seq::<Event>::empty());
    }
    let mut i: usize = 0;
    while i < n
        invariant
            s == events@,
            n == s.len(),
            n < u32::MAX,
            i <= n,
            c.events == n,
            c.requests == count_of(s.take(i as int), |e: Event| is_request_event(e)),
            c.answers == count_of(s.take(i as int), |e: Event| is_answer_event(e)),
            c.answers_wait == count_of(s.take(i as int), |e: Event| is_wait_answer(e)),
            c.answers_waypoint == count_of(s.take(i as int), |e: Event| is_waypoint_answer(e)),
            c.answers_flee == count_of(s.take(i as int), |e: Event| is_flee_answer(e)),
            c.answers_other == count_of(s.take(i as int), |e: Event| is_other_answer(e)),
            c.reflex_actions == count_of(s.take(i as int), |e: Event| is_reflex_action_event(e)),
            c.accepted_actions == count_of(
                s.take(i as int),
                |e: Event| is_accepted_action_event(e),
            ),
            c.arrival_verdicts == count_of(s.take(i as int), |e: Event| has_verdict(e)),
            c.arrived == count_of(s.take(i as int), |e: Event| has_arrived_verdict(e)),
        decreases n - i,
    {
        let event = &events[i];
        let kind = event.kind.as_str();
        let is_request = str_eq(kind, "request");
        let is_action = str_eq(kind, "action");
        let is_decision = str_eq(kind, "decision");
        let is_dispatched = str_eq(kind, "dispatched");
        let mut answer = false;
        let mut wait = false;
        let mut waypoint = false;
        let mut flee = false;
        if is_decision {
            if let Some(decision) = &event.decision {
                answer = true;
                let choice = decision.choice.as_str();
                if str_eq(choice, "wait") {
                    wait = true;
                } else if starts_with(choice, "waypoint_") {
                    waypoint = true;
                } else if starts_with(choice, "flee_") {
                    flee = true;
                }
            }
        }
        let other = answer && !wait && !waypoint && !flee;
        let reflex = is_dispatched && match event_origin(event) {
            Some(ActionOrigin::SafetyReflex) => true,
            _ => false,
        };
        let verdict = event.arrival.is_some();
        let arrived = match &event.arrival {
            Some(v) => v.arrived,
            None => false,
        };
        proof {
            let t = s.take(i as int);
            let e = s[i as int];
            lemma_count_step(s, i as int, |e: Event| is_request_event(e));
            lemma_count_step(s, i as int, |e: Event| is_answer_event(e));
            lemma_count_step(s, i as int, |e: Event| is_wait_answer(e));
            lemma_count_step(s, i as int, |e: Event| is_waypoint_answer(e));
            lemma_count_step(s, i as int, |e: Event| is_flee_answer(e));
            lemma_count_step(s, i as int, |e: Event| is_other_answer(e));
            lemma_count_step(s, i as int, |e: Event| is_reflex_action_event(e));
            lemma_count_step(s, i as int, |e: Event| is_accepted_action_event(e));
            lemma_count_step(s, i as int, |e: Event| has_verdict(e));
            lemma_count_step(s, i as int, |e: Event| has_arrived_verdict(e));
            lemma_count_at_most_len(t, |e: Event| is_request_event(e));
            lemma_count_at_most_len(t, |e: Event| is_answer_event(e));
            lemma_count_at_most_len(t, |e: Event| is_wait_answer(e));
            lemma_count_at_most_len(t, |e: Event| is_waypoint_answer(e));
            lemma_count_at_most_len(t, |e: Event| is_flee_answer(e));
            lemma_count_at_most_len(t, |e: Event| is_other_answer(e));
            lemma_count_at_most_len(t, |e: Event| is_reflex_action_event(e));
            lemma_count_at_most_len(t, |e: Event| is_accepted_action_event(e));
            lemma_count_at_most_len(t, |e: Event| has_verdict(e));
            lemma_count_at_most_len(t, |e: Event| has_arrived_verdict(e));
            assert(e == *event);
        }
        c.requests = bump(c.requests, is_request);
        c.answers = bump(c.answers, answer);
        c.answers_wait = bump(c.answers_wait, wait);
        c.answers_waypoint = bump(c.answers_waypoint, waypoint);
        c.answers_flee = bump(c.answers_flee, flee);
        c.answers_other = bump(c.answers_other, other);
        c.reflex_actions = bump(c.reflex_actions, reflex);
        c.accepted_actions = bump(c.accepted_actions, is_action);
        c.arrival_verdicts = bump(c.arrival_verdicts, verdict);
        c.arrived = bump(c.arrived, arrived);
        i += 1;
    }
    proof {
        assert(s.take(n as int) =~= s);
    }
    c
}

/// Every answer is exactly one of wait, waypoint, flight or other, so the four answer
/// counts add up to the answers.
pub proof fn law_answer_counts_partition_answers(events: Seq<Event>)
    ensures
        count_of(events, |e: Event| is_answer_event(e)) == count_of(
            events,
            |e: Event| is_wait_answer(e),
        ) + count_of(events, |e: Event| is_waypoint_answer(e)) + count_of(
            events,
            |e: Event| is_flee_answer(e),
        ) + count_of(events, |e: Event| is_other_answer(e)),
    decreases events.len(),
{
    if events.len() > 0 {
        law_answer_counts_partition_answers(events.drop_last());
    }
}

/// A reflex action is counted from its dispatch row and is never a model answer, and no
/// more goals arrive than have verdicts.
pub proof fn law_reflex_actions_are_not_answers(events: Seq<Event>)
    ensures
        forall|i: int|
            0 <= i < events.len() ==> !(is_reflex_action_event(#[trigger] events[i])
                && is_answer_event(events[i])),
        count_of(events, |e: Event| has_arrived_verdict(e)) <= count_of(
            events,
            |e: Event| has_verdict(e),
        ),
    decreases events.len(),
{
    reveal_strlit("dispatched");
    reveal_strlit("decision");
    assert("dispatched"@[1] != "decision"@[1]);
    if events.len() > 0 {
        law_reflex_actions_are_not_answers(events.drop_last());
    }
}

/// How a running session has ended, if it has, read from the engine's last error, the
/// connection state and the wall-clock guard. The engine records its own end as an error
/// whose text names the reached budget; any other error is told apart by its text, and a
/// lost connection is read from the observation, not from the text.
pub open spec fn spec_session_end(
    last_error: Option<Seq<char>>,
    connected: bool,
    live: bool,
    guard_passed: bool,
) -> Option<EndReason> {
    match last_error {
        Some(e) => Some(
            if spec_contains(e, "budget reached"@) {
                if connected {
                    EndReason::Budget
                } else {
                    EndReason::Disconnected
                }
            } else if !connected || spec_contains(e, "disconnect"@) || spec_contains(e, "Adapter"@)
                || spec_contains(e, "adapter"@) {
                EndReason::Disconnected
            } else {
                EndReason::ProviderFailed
            },
        ),
        None => if !connected && live {
            Some(EndReason::Disconnected)
        } else if guard_passed {
            Some(EndReason::Stalled)
        } else {
            None
        },
    }
}

/// The engine stopped locally because the observed world changed under the running
/// session, or because the bot's health dropped: a pause, not a failure, which the harness
/// resumes while the bot is connected.
pub open spec fn names_local_stop(last_error: Option<Seq<char>>) -> bool {
    match last_error {
        Some(e) => e == DIMENSION_CHANGED@ || e == WORLD_LIFECYCLE_CHANGED@ || e
            == HEALTH_DECREASED@,
        None => false,
    }
}

/// What the harness does next while it waits for a running session.
#[derive(Clone, Copy, Debug, PartialEq, Eq, Structural)]
pub enum SessionProgress {
    /// Keep waiting.
    Running,
    /// A local stop (the world changed, or health dropped) while the bot stays connected:
    /// send `Start` again, now that the new state is observed, and keep waiting.
    Resume,
    /// The session ended for this reason.
    Ended(EndReason),
}

pub open spec fn spec_session_progress(
    last_error: Option<Seq<char>>,
    connected: bool,
    live: bool,
    guard_passed: bool,
) -> SessionProgress {
    if connected && names_local_stop(last_error) {
        SessionProgress::Resume
    } else {
        match spec_session_end(last_error, connected, live, guard_passed) {
            Some(reason) => SessionProgress::Ended(reason),
            None => SessionProgress::Running,
        }
    }
}

pub fn session_end(last_error: Option<&str>, connected: bool, live: bool, guard_passed: bool) -> (r:
    SessionProgress)
    ensures
        r == spec_session_progress(
            match last_error {
                Some(e) => Some(e@),
                None => None,
            },
            connected,
            live,
            guard_passed,
        ),
{
    if connected {
        if let Some(e) = last_error {
            if str_eq(e, DIMENSION_CHANGED) || str_eq(e, WORLD_LIFECYCLE_CHANGED) || str_eq(
                e,
                HEALTH_DECREASED,
            ) {
                return SessionProgress::Resume;
            }
        }
    }
    match last_error {
        Some(e) => SessionProgress::Ended(
            if contains(e, "budget reached") {
                if connected {
                    EndReason::Budget
                } else {
                    EndReason::Disconnected
                }
            } else if !connected || contains(e, "disconnect") || contains(e, "Adapter") || contains(
                e,
                "adapter",
            ) {
                EndReason::Disconnected
            } else {
                EndReason::ProviderFailed
            },
        ),
        None => if !connected && live {
            SessionProgress::Ended(EndReason::Disconnected)
        } else if guard_passed {
            SessionProgress::Ended(EndReason::Stalled)
        } else {
            SessionProgress::Running
        },
    }
}

/// A session counts as a success only when the engine ended it on its own budget while
/// the bot was still connected.
pub proof fn law_success_is_a_budget_end_while_connected(
    last_error: Option<Seq<char>>,
    connected: bool,
    live: bool,
    guard_passed: bool,
)
    ensures
        spec_session_progress(last_error, connected, live, guard_passed) matches SessionProgress::Ended(
            reason,
        ) ==> (spec_exit_code(reason) == 0 <==> (connected && names_budget_end(last_error))),
{
}

/// A dimension change, a world-lifecycle change or a health drop under a running session is
/// a local stop, not a failure: while the bot is connected the harness resumes it instead
/// of ending the run.
pub proof fn law_local_stops_resume_the_session(
    last_error: Option<Seq<char>>,
    live: bool,
    guard_passed: bool,
)
    requires
        names_local_stop(last_error),
    ensures
        spec_session_progress(last_error, true, live, guard_passed) == SessionProgress::Resume,
{
}

/// The engine's last error says a budget was reached.
pub open spec fn names_budget_end(last_error: Option<Seq<char>>) -> bool {
    match last_error {
        Some(e) => spec_contains(e, "budget reached"@),
        None => false,
    }
}

/// What waiting for the first connected observation comes to.
#[derive(Clone, Copy, Debug, PartialEq, Eq, Structural)]
pub enum ConnectWait {
    Connected,
    /// The engine reported an error.
    Failed,
    /// The connect budget passed without a connected observation.
    TimedOut,
    /// Keep waiting.
    Waiting,
}

pub fn connect_wait(connected: bool, has_error: bool, deadline_passed: bool) -> (r: ConnectWait)
    ensures
        r == if connected {
            ConnectWait::Connected
        } else if has_error {
            ConnectWait::Failed
        } else if deadline_passed {
            ConnectWait::TimedOut
        } else {
            ConnectWait::Waiting
        },
{
    if connected {
        ConnectWait::Connected
    } else if has_error {
        ConnectWait::Failed
    } else if deadline_passed {
        ConnectWait::TimedOut
    } else {
        ConnectWait::Waiting
    }
}

/// The wall-clock guard of a running session, in seconds: its budget plus a margin for
/// the engine to notice its own deadline.
pub fn session_guard_seconds(max_seconds: u64) -> (r: u64)
    requires
        max_seconds <= u64::MAX - 30,
    ensures
        r == max_seconds + 30,
{
    max_seconds + 30
}

} // verus!
