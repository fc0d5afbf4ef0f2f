//! Validation of versioned session recordings. Replay data has no executable instructions;
//! a recording is accepted only when every event keeps the order, bounds and decision
//! contract the engine itself writes.
//!
//! Two rules of a recorded model answer are arithmetic on its probabilities (they sum to
//! one within 0.001, and the chosen option is the most probable within 1e-9). They are
//! floating-point sums and are checked by the caller after [`validate`] accepts the
//! recording; every other rule is decided here.
use crate::model::{
    Candidate, Decision, Event, Mode, Recording, finite_f64_bits, is_unit_interval_f64_bits,
    position_is_finite, unit_interval_f64_bits,
};
use crate::provider::{
    CandidateSetError, candidate_ids_usable, candidate_set_error, ids_usable, model_identity_usable,
    spec_candidate_set_error, spec_model_identity_usable,
};
use crate::text::str_eq;
use vstd::prelude::*;

verus! {

/// The only recording schema version this engine reads and writes.
pub const SCHEMA_VERSION: u32 = 1;
/// Most events a recording may hold.
pub const MAX_EVENTS: usize = 5_000;
/// Longest session identifier, in bytes.
pub const MAX_ID_BYTES: usize = 128;
/// Longest event kind, in bytes.
pub const MAX_KIND_BYTES: usize = 128;
/// Longest event message, in bytes.
pub const MAX_MESSAGE_BYTES: usize = 8_192;
/// Most candidates one event may record.
pub const MAX_RECORDED_CANDIDATES: usize = 255;

/// Why a recorded model answer breaks the live answer contract.
#[derive(Clone, Copy, Debug, PartialEq, Eq, Structural)]
pub enum DecisionError {
    InvalidCandidateCount,
    InvalidCandidateId,
    UnavailableChoice,
    ProbabilityOptionsMismatch,
    InvalidProbability,
    InvalidConfidence,
    InvalidModel,
}

/// Why a recording was refused.
#[derive(Clone, Copy, Debug, PartialEq, Eq, Structural)]
pub enum RecordingError {
    UnsupportedVersion,
    TooManyEvents,
    InvalidSessionId,
    EventOrder,
    EventTextTooLong,
    TooManyCandidates,
    InvalidCandidateId,
    InvalidPosition,
    FixtureInLiveRecording,
    FixtureWithModelMetrics,
    ChoiceNotAmongCandidates,
    InvalidDecision(DecisionError),
    ArrivedWithoutDistance,
}

pub open spec fn spec_decision_message(e: DecisionError) -> Seq<char> {
    match e {
        DecisionError::InvalidCandidateCount => "Invalid action candidate count"@,
        DecisionError::InvalidCandidateId => "Invalid or duplicate action candidate ID"@,
        DecisionError::UnavailableChoice => "TypeSafe selected an unavailable action"@,
        DecisionError::ProbabilityOptionsMismatch =>
            "TypeSafe probability options do not match candidates"@,
        DecisionError::InvalidProbability => "TypeSafe probability is out of range"@,
        DecisionError::InvalidConfidence => "TypeSafe confidence is out of range"@,
        DecisionError::InvalidModel => "TypeSafe response model is invalid"@,
    }
}

impl DecisionError {
    pub fn message(self) -> (r: &'static str)
        ensures
            r@ == spec_decision_message(self),
    {
        match self {
            DecisionError::InvalidCandidateCount => "Invalid action candidate count",
            DecisionError::InvalidCandidateId => "Invalid or duplicate action candidate ID",
            DecisionError::UnavailableChoice => "TypeSafe selected an unavailable action",
            DecisionError::ProbabilityOptionsMismatch =>
                "TypeSafe probability options do not match candidates",
            DecisionError::InvalidProbability => "TypeSafe probability is out of range",
            DecisionError::InvalidConfidence => "TypeSafe confidence is out of range",
            DecisionError::InvalidModel => "TypeSafe response model is invalid",
        }
    }
}

pub open spec fn spec_recording_message(e: RecordingError) -> Seq<char> {
    match e {
        RecordingError::UnsupportedVersion => "Recording version is not supported"@,
        RecordingError::TooManyEvents => "Recording contains too many events"@,
        RecordingError::InvalidSessionId => "Invalid session ID"@,
        RecordingError::EventOrder => "Invalid recording event order"@,
        RecordingError::EventTextTooLong => "Event text is too long"@,
        RecordingError::TooManyCandidates => "Too many recorded candidates"@,
        RecordingError::InvalidCandidateId => "Invalid or duplicate recorded candidate ID"@,
        RecordingError::InvalidPosition => "Invalid position"@,
        RecordingError::FixtureInLiveRecording => "Offline fixture decision in a live recording"@,
        RecordingError::FixtureWithModelMetrics =>
            "Offline fixture must not contain model probabilities, confidence or usage"@,
        RecordingError::ChoiceNotAmongCandidates => "Selected choice is missing from candidates"@,
        RecordingError::InvalidDecision(d) => "Invalid recorded model decision: "@
            + spec_decision_message(d),
        RecordingError::ArrivedWithoutDistance =>
            "Arrived verdict without a measured distance"@,
    }
}

impl RecordingError {
    /// The one-line message shown for the refusal.
    pub fn message(self) -> (r: String)
        ensures
            r@ == spec_recording_message(self),
    {
        let text = match self {
            RecordingError::UnsupportedVersion => "Recording version is not supported",
            RecordingError::TooManyEvents => "Recording contains too many events",
            RecordingError::InvalidSessionId => "Invalid session ID",
            RecordingError::EventOrder => "Invalid recording event order",
            RecordingError::EventTextTooLong => "Event text is too long",
            RecordingError::TooManyCandidates => "Too many recorded candidates",
            RecordingError::InvalidCandidateId => "Invalid or duplicate recorded candidate ID",
            RecordingError::InvalidPosition => "Invalid position",
            RecordingError::FixtureInLiveRecording => "Offline fixture decision in a live recording",
            RecordingError::FixtureWithModelMetrics =>
                "Offline fixture must not contain model probabilities, confidence or usage",
            RecordingError::ChoiceNotAmongCandidates => "Selected choice is missing from candidates",
            RecordingError::InvalidDecision(d) => {
                return String::from_str("Invalid recorded model decision: ").concat(d.message());
            },
            RecordingError::ArrivedWithoutDistance => "Arrived verdict without a measured distance",
        };
        String::from_str(text)
    }
}

/// The UTF-8 length of the text, as `str::len` reports it.
pub open spec fn byte_len(s: Seq<char>) -> usize {
    vstd::utf8::encode_utf8(s).len() as usize
}

/// Some candidate has the identifier `id`.
pub open spec fn choice_among(candidates: Seq<Candidate>, id: Seq<char>) -> bool {
    exists|i: int| 0 <= i < candidates.len() && #[trigger] candidates[i].id@ == id
}

/// The probability entry at `j` names an offered option not named before it.
pub open spec fn probability_key_ok(
    probabilities: Seq<(String, u64)>,
    candidates: Seq<Candidate>,
    j: int,
) -> bool {
    choice_among(candidates, probabilities[j].0@) && forall|k: int|
        0 <= k < j ==> probabilities[k].0@ != probabilities[j].0@
}

pub open spec fn probability_entry_error(
    probabilities: Seq<(String, u64)>,
    candidates: Seq<Candidate>,
    j: int,
) -> Option<DecisionError> {
    if !probability_key_ok(probabilities, candidates, j) {
        Some(DecisionError::ProbabilityOptionsMismatch)
    } else if !unit_interval_f64_bits(probabilities[j].1) {
        Some(DecisionError::InvalidProbability)
    } else {
        None
    }
}

/// The first failing probability entry from `j` on.
pub open spec fn probabilities_error_from(
    probabilities: Seq<(String, u64)>,
    candidates: Seq<Candidate>,
    j: int,
) -> Option<DecisionError>
    decreases probabilities.len() - j,
{
    if j < 0 || j >= probabilities.len() {
        None
    } else {
        match probability_entry_error(probabilities, candidates, j) {
            Some(e) => Some(e),
            None => probabilities_error_from(probabilities, candidates, j + 1),
        }
    }
}

/// The live answer contract, in the order it is checked, except the two sums.
pub open spec fn live_decision_error(decision: Decision, candidates: Seq<Candidate>) -> Option<
    DecisionError,
> {
    match spec_candidate_set_error(candidates) {
        Some(CandidateSetError::InvalidCount) => Some(DecisionError::InvalidCandidateCount),
        Some(CandidateSetError::InvalidOrDuplicateId) => Some(DecisionError::InvalidCandidateId),
        None => if !choice_among(candidates, decision.choice@) {
            Some(DecisionError::UnavailableChoice)
        } else if decision.probabilities@.len() != candidates.len() {
            Some(DecisionError::ProbabilityOptionsMismatch)
        } else {
            match probabilities_error_from(decision.probabilities@, candidates, 0) {
                Some(e) => Some(e),
                None => if decision.confidence_bits matches Some(c) && !unit_interval_f64_bits(c) {
                    Some(DecisionError::InvalidConfidence)
                } else if !spec_model_identity_usable(decision.model@) {
                    Some(DecisionError::InvalidModel)
                } else {
                    None
                },
            }
        },
    }
}

/// An offline-fixture answer belongs to a demo recording, carries no model metrics and
/// chose a recorded candidate; any other answer obeys the live answer contract.
pub open spec fn decision_error(decision: Decision, candidates: Seq<Candidate>, mode: Mode) -> Option<
    RecordingError,
> {
    if decision.model@ == "offline-fixture"@ {
        if mode != Mode::Demo {
            Some(RecordingError::FixtureInLiveRecording)
        } else if !(decision.probabilities@.len() == 0 && decision.confidence_bits is None
            && decision.input_tokens is None && decision.output_tokens is None) {
            Some(RecordingError::FixtureWithModelMetrics)
        } else if !choice_among(candidates, decision.choice@) {
            Some(RecordingError::ChoiceNotAmongCandidates)
        } else {
            None
        }
    } else {
        match live_decision_error(decision, candidates) {
            Some(e) => Some(RecordingError::InvalidDecision(e)),
            None => None,
        }
    }
}

/// The rules one event obeys, in the order they are checked.
pub open spec fn event_error(events: Seq<Event>, mode: Mode, i: int) -> Option<RecordingError> {
    let e = events[i];
    if i > 0 && !(e.sequence > events[i - 1].sequence && e.elapsed_ms >= events[i - 1].elapsed_ms) {
        Some(RecordingError::EventOrder)
    } else if byte_len(e.kind@) > MAX_KIND_BYTES || byte_len(e.message@) > MAX_MESSAGE_BYTES {
        Some(RecordingError::EventTextTooLong)
    } else if e.candidates@.len() > MAX_RECORDED_CANDIDATES {
        Some(RecordingError::TooManyCandidates)
    } else if !ids_usable(e.candidates@) {
        Some(RecordingError::InvalidCandidateId)
    } else if e.observation matches Some(o) && !position_is_finite(o.position) {
        Some(RecordingError::InvalidPosition)
    } else if e.decision is Some && decision_error(e.decision->0, e.candidates@, mode) is Some {
        decision_error(e.decision->0, e.candidates@, mode)
    } else if e.arrival matches Some(v) && v.arrived && v.measured_distance_bits is None {
        Some(RecordingError::ArrivedWithoutDistance)
    } else {
        None
    }
}

/// The first failing event from `i` on.
pub open spec fn events_error_from(events: Seq<Event>, mode: Mode, i: int) -> Option<
    RecordingError,
>
    decreases events.len() - i,
{
    if i < 0 || i >= events.len() {
        None
    } else {
        match event_error(events, mode, i) {
            Some(e) => Some(e),
            None => events_error_from(events, mode, i + 1),
        }
    }
}

/// The recording rules, in the order they are checked.
pub open spec fn spec_recording_error(recording: Recording) -> Option<RecordingError> {
    if recording.schema_version != SCHEMA_VERSION {
        Some(RecordingError::UnsupportedVersion)
    } else if recording.events@.len() > MAX_EVENTS {
        Some(RecordingError::TooManyEvents)
    } else if recording.id@.len() == 0 || byte_len(recording.id@) > MAX_ID_BYTES {
        Some(RecordingError::InvalidSessionId)
    } else {
        events_error_from(recording.events@, recording.settings.mode, 0)
    }
}

fn probabilities_error(probabilities: &Vec<(String, u64)>, candidates: &Vec<Candidate>) -> (r:
    Option<DecisionError>)
    ensures
        r == probabilities_error_from(probabilities@, candidates@, 0),
{
    let n = probabilities.len();
    let mut j: usize = 0;
    while j < n
        invariant
            n == probabilities@.len(),
            j <= n,
            probabilities_error_from(probabilities@, candidates@, 0) == probabilities_error_from(
                probabilities@,
                candidates@,
                j as int,
            ),
        decreases n - j,
    {
        let key = probabilities[j].0.as_str();
        let mut offered = false;
        let mut c: usize = 0;
        while c < candidates.len()
            invariant
                c <= candidates@.len(),
                offered <==> exists|i: int| 0 <= i < c && #[trigger] candidates@[i].id@ == key@,
            decreases candidates@.len() - c,
        {
            if str_eq(candidates[c].id.as_str(), key) {
                offered = true;
            }
            c += 1;
        }
        let mut repeated = false;
        let mut k: usize = 0;
        while k < j
            invariant
                j < n,
                n == probabilities@.len(),
                key@ == probabilities@[j as int].0@,
                k <= j,
                repeated <==> exists|b: int|
                    0 <= b < k && #[trigger] probabilities@[b].0@ == probabilities@[j as int].0@,
            decreases j - k,
        {
            if str_eq(probabilities[k].0.as_str(), key) {
                repeated = true;
            }
            k += 1;
        }
        if !offered || repeated {
            return Some(DecisionError::ProbabilityOptionsMismatch);
        }
        if !is_unit_interval_f64_bits(probabilities[j].1) {
            return Some(DecisionError::InvalidProbability);
        }
        j += 1;
    }
    None
}

fn choice_is_among(candidates: &Vec<Candidate>, id: &str) -> (r: bool)
    ensures
        r == choice_among(candidates@, id@),
{
    let mut i: usize = 0;
    while i < candidates.len()
        invariant
            i <= candidates@.len(),
            forall|k: int| 0 <= k < i ==> #[trigger] candidates@[k].id@ != id@,
        decreases candidates@.len() - i,
    {
        if str_eq(candidates[i].id.as_str(), id) {
            return true;
        }
        i += 1;
    }
    false
}

/// Checks a recorded answer against the contract its origin obeys.
pub fn validate_decision(decision: &Decision, candidates: &Vec<Candidate>, mode: Mode) -> (r:
    Option<RecordingError>)
    ensures
        r == decision_error(*decision, candidates@, mode),
{
    if str_eq(decision.model.as_str(), "offline-fixture") {
        if mode != Mode::Demo {
            return Some(RecordingError::FixtureInLiveRecording);
        }
        if !(decision.probabilities.len() == 0 && decision.confidence_bits.is_none()
            && decision.input_tokens.is_none() && decision.output_tokens.is_none()) {
            return Some(RecordingError::FixtureWithModelMetrics);
        }
        if !choice_is_among(candidates, decision.choice.as_str()) {
            return Some(RecordingError::ChoiceNotAmongCandidates);
        }
        return None;
    }
    let error = match candidate_set_error(candidates.as_slice()) {
        Some(CandidateSetError::InvalidCount) => Some(DecisionError::InvalidCandidateCount),
        Some(CandidateSetError::InvalidOrDuplicateId) => Some(DecisionError::InvalidCandidateId),
        None => if !choice_is_among(candidates, decision.choice.as_str()) {
            Some(DecisionError::UnavailableChoice)
        } else if decision.probabilities.len() != candidates.len() {
            Some(DecisionError::ProbabilityOptionsMismatch)
        } else {
            match probabilities_error(&decision.probabilities, candidates) {
                Some(e) => Some(e),
                None => {
                    let confidence_ok = match decision.confidence_bits {
                        Some(c) => is_unit_interval_f64_bits(c),
                        None => true,
                    };
                    if !confidence_ok {
                        Some(DecisionError::InvalidConfidence)
                    } else if !model_identity_usable(decision.model.as_str()) {
                        Some(DecisionError::InvalidModel)
                    } else {
                        None
                    }
                },
            }
        },
    };
    match error {
        Some(e) => Some(RecordingError::InvalidDecision(e)),
        None => None,
    }
}

fn check_event(events: &Vec<Event>, mode: Mode, i: usize) -> (r: Option<RecordingError>)
    requires
        i < events@.len(),
    ensures
        r == event_error(events@, mode, i as int),
{
    let e = &events[i];
    if i > 0 {
        let previous = &events[i - 1];
        if !(e.sequence > previous.sequence && e.elapsed_ms >= previous.elapsed_ms) {
            return Some(RecordingError::EventOrder);
        }
    }
    if e.kind.as_str().len() > MAX_KIND_BYTES || e.message.as_str().len() > MAX_MESSAGE_BYTES {
        return Some(RecordingError::EventTextTooLong);
    }
    if e.candidates.len() > MAX_RECORDED_CANDIDATES {
        return Some(RecordingError::TooManyCandidates);
    }
    if !candidate_ids_usable(e.candidates.as_slice()) {
        return Some(RecordingError::InvalidCandidateId);
    }
    if let Some(observation) = &e.observation {
        if !observation.position.is_finite() {
            return Some(RecordingError::InvalidPosition);
        }
    }
    if let Some(decision) = &e.decision {
        let error = validate_decision(decision, &e.candidates, mode);
        if error.is_some() {
            return error;
        }
    }
    if let Some(verdict) = &e.arrival {
        if verdict.arrived && verdict.measured_distance_bits.is_none() {
            return Some(RecordingError::ArrivedWithoutDistance);
        }
    }
    None
}

/// Checks the schema version, the event budget, the session identifier and every event
/// against the rules the engine writes them with.
pub fn validate(recording: &Recording) -> (r: Result<(), RecordingError>)
    ensures
        r == match spec_recording_error(*recording) {
            Some(e) => Err::<(), RecordingError>(e),
            None => Ok(()),
        },
{
    if recording.schema_version != SCHEMA_VERSION {
        return Err(RecordingError::UnsupportedVersion);
    }
    if recording.events.len() > MAX_EVENTS {
        return Err(RecordingError::TooManyEvents);
    }
    if recording.id.as_str().is_empty() || recording.id.as_str().len() > MAX_ID_BYTES {
        return Err(RecordingError::InvalidSessionId);
    }
    let events = &recording.events;
    let mode = recording.settings.mode;
    let n = events.len();
    let mut i: usize = 0;
    while i < n
        invariant
            n == events@.len(),
            i <= n,
            spec_recording_error(*recording) == events_error_from(events@, mode, i as int),
        decreases n - i,
    {
        match check_event(events, mode, i) {
            Some(e) => {
                return Err(e);
            },
            None => {},
        }
        i += 1;
    }
    Ok(())
}

proof fn lemma_no_event_error_from(events: Seq<Event>, mode: Mode, i: int)
    requires
        0 <= i,
        events_error_from(events, mode, i) is None,
    ensures
        forall|k: int| i <= k < events.len() ==> #[trigger] event_error(events, mode, k) is None,
    decreases events.len() - i,
{
    if i < events.len() {
        lemma_no_event_error_from(events, mode, i + 1);
        assert forall|k: int| i <= k < events.len() implies #[trigger] event_error(
            events,
            mode,
            k,
        ) is None by {
            if k > i {
            }
        }
    }
}

proof fn lemma_ordered_pairs(events: Seq<Event>, mode: Mode, i: int, j: int)
    requires
        0 <= i < j < events.len(),
        forall|k: int| 0 <= k < events.len() ==> #[trigger] event_error(events, mode, k) is None,
    ensures
        events[i].sequence < events[j].sequence,
        events[i].elapsed_ms <= events[j].elapsed_ms,
    decreases j - i,
{
    assert(event_error(events, mode, j) is None);
    if j - 1 > i {
        lemma_ordered_pairs(events, mode, i, j - 1);
    }
}

/// An accepted recording is in order: sequence numbers strictly increase and elapsed
/// times never decrease; every recorded answer chose one of the candidates recorded with
/// it; and every arrived verdict carries a measured distance.
proof fn lemma_no_probability_error(
    probabilities: Seq<(String, u64)>,
    candidates: Seq<Candidate>,
    j: int,
)
    requires
        0 <= j,
        probabilities_error_from(probabilities, candidates, j) is None,
    ensures
        forall|k: int|
            j <= k < probabilities.len() ==> #[trigger] probability_key_ok(
                probabilities,
                candidates,
                k,
            ),
    decreases probabilities.len() - j,
{
    if j < probabilities.len() {
        lemma_no_probability_error(probabilities, candidates, j + 1);
    }
}

/// The probabilities of a recorded answer name recorded candidates, each at most once: the
/// list holds what a map from option to probability holds.
pub open spec fn probabilities_form_a_map(
    probabilities: Seq<(String, u64)>,
    candidates: Seq<Candidate>,
) -> bool {
    &&& forall|i: int, j: int|
        0 <= i < j < probabilities.len() ==> (#[trigger] probabilities[i]).0@ != (
        #[trigger] probabilities[j]).0@
    &&& forall|i: int|
        0 <= i < probabilities.len() ==> choice_among(candidates, (#[trigger] probabilities[i]).0@)
}

pub proof fn law_accepted_recording_is_ordered_and_grounded(recording: Recording)
    requires
        spec_recording_error(recording) is None,
    ensures
        forall|i: int, j: int|
            0 <= i < j < recording.events@.len() ==> (#[trigger] recording.events@[i]).sequence
                < (#[trigger] recording.events@[j]).sequence && recording.events@[i].elapsed_ms
                <= recording.events@[j].elapsed_ms,
        forall|i: int|
            0 <= i < recording.events@.len() && (#[trigger] recording.events@[i]).decision is Some
                ==> choice_among(
                recording.events@[i].candidates@,
                recording.events@[i].decision->0.choice@,
            ),
        forall|i: int|
            0 <= i < recording.events@.len() && (#[trigger] recording.events@[i]).arrival is Some
                && recording.events@[i].arrival->0.arrived
                ==> recording.events@[i].arrival->0.measured_distance_bits is Some,
        forall|i: int|
            0 <= i < recording.events@.len() && (#[trigger] recording.events@[i]).decision is Some
                ==> probabilities_form_a_map(
                recording.events@[i].decision->0.probabilities@,
                recording.events@[i].candidates@,
            ),
{
    let events = recording.events@;
    let mode = recording.settings.mode;
    lemma_no_event_error_from(events, mode, 0);
    assert forall|i: int, j: int|
        0 <= i < j < events.len() implies (#[trigger] events[i]).sequence
        < (#[trigger] events[j]).sequence && events[i].elapsed_ms <= events[j].elapsed_ms by {
        lemma_ordered_pairs(events, mode, i, j);
    }
    assert forall|i: int|
        0 <= i < events.len() && (#[trigger] events[i]).decision is Some implies choice_among(
        events[i].candidates@,
        events[i].decision->0.choice@,
    ) by {
        assert(event_error(events, mode, i) is None);
    }
    assert forall|i: int|
        0 <= i < events.len() && (#[trigger] events[i]).arrival is Some
            && events[i].arrival->0.arrived implies events[i].arrival->0.measured_distance_bits is Some by {
        assert(event_error(events, mode, i) is None);
    }
    assert forall|i: int|
        0 <= i < events.len() && (#[trigger] events[i]).decision is Some implies probabilities_form_a_map(
        events[i].decision->0.probabilities@,
        events[i].candidates@,
    ) by {
        assert(event_error(events, mode, i) is None);
        let d = events[i].decision->0;
        let ps = d.probabilities@;
        let c = events[i].candidates@;
        if d.model@ != "offline-fixture"@ {
            assert(live_decision_error(d, c) is None);
            lemma_no_probability_error(ps, c, 0);
            assert forall|a: int, b: int| 0 <= a < b < ps.len() implies (#[trigger] ps[a]).0@ != (
            #[trigger] ps[b]).0@ by {
                assert(probability_key_ok(ps, c, b));
            }
            assert forall|a: int| 0 <= a < ps.len() implies choice_among(c, (#[trigger] ps[a]).0@) by {
                assert(probability_key_ok(ps, c, a));
            }
        }
    }
}

/// Largest recording file the engine reads or writes, in bytes.
pub const MAX_RECORDING_BYTES: u64 = 33_554_432;

/// A recording is read only from a path whose extension is exactly `json`.
pub fn is_json_path(path: &str) -> (r: bool)
    ensures
        r == crate::harness::is_json_extension(crate::harness::path_extension(path@)),
{
    match crate::harness::extension_of(path) {
        Some(e) => str_eq(e.as_str(), "json"),
        None => false,
    }
}

/// Whether a recording of `len` bytes is within the limit.
pub fn recording_size_ok(len: u64) -> (r: bool)
    ensures
        r == (len <= MAX_RECORDING_BYTES),
{
    len <= MAX_RECORDING_BYTES
}

} // verus!
