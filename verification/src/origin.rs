//! Who chose the action a recorded event describes.
//!
//! The origin is derived only from fields the event already carries: an operator takeover
//! announces itself in the recorded message, a `SAFETY-REFLEX` message or a `reflex` event
//! means the engine's opt-in safety reflex, an `offline-fixture` model identity means the
//! offline fixture answered, and any other model decision on a decision, dispatch, action or
//! executor event means the configured model selected the goal. Events that carry none of
//! these record no origin. The timeline and the offline report share this rule.
use crate::model::Event;
use crate::text::{contains, spec_contains, str_eq};
use vstd::prelude::*;

verus! {

/// Who chose the action a recorded event describes.
#[derive(Clone, Copy, Debug, PartialEq, Eq, Structural)]
pub enum ActionOrigin {
    /// A goal the configured model selected.
    JevSelected,
    /// A goal the offline fixture's synthetic decision path selected.
    Fixture,
    /// An action the operator took over manually.
    Manual,
    /// A bounded flight goal the engine's opt-in safety reflex dispatched itself.
    SafetyReflex,
}

/// The label the timeline and the offline report show for an origin.
pub open spec fn spec_label(origin: ActionOrigin) -> Seq<char> {
    match origin {
        ActionOrigin::JevSelected => "JEV-SELECTED"@,
        ActionOrigin::Fixture => "FIXTURE"@,
        ActionOrigin::Manual => "MANUAL"@,
        ActionOrigin::SafetyReflex => "SAFETY-REFLEX"@,
    }
}

impl ActionOrigin {
    /// The label the timeline and the offline report show for this origin.
    pub fn label(self) -> (r: &'static str)
        ensures
            r@ == spec_label(self),
    {
        match self {
            ActionOrigin::JevSelected => "JEV-SELECTED",
            ActionOrigin::Fixture => "FIXTURE",
            ActionOrigin::Manual => "MANUAL",
            ActionOrigin::SafetyReflex => "SAFETY-REFLEX",
        }
    }
}

/// Event kinds that make up a goal chain.
pub open spec fn is_goal_row(kind: Seq<char>) -> bool {
    kind == "decision"@ || kind == "dispatched"@ || kind == "action"@ || kind == "executor"@
}

/// The attribution rule, in priority order: a takeover message, then the reflex, then the
/// fixture identity of an attached decision, then a model decision on a goal row.
pub open spec fn spec_event_origin(event: Event) -> Option<ActionOrigin> {
    if spec_contains(event.message@, "Manual action"@) {
        Some(ActionOrigin::Manual)
    } else if event.kind@ == "reflex"@ || spec_contains(event.message@, "SAFETY-REFLEX"@) {
        Some(ActionOrigin::SafetyReflex)
    } else {
        match event.decision {
            None => None,
            Some(decision) => if decision.model@ == "offline-fixture"@ {
                Some(ActionOrigin::Fixture)
            } else if is_goal_row(event.kind@) {
                Some(ActionOrigin::JevSelected)
            } else {
                None
            },
        }
    }
}

/// Origin of the recorded action, derived only from fields the event carries.
pub fn event_origin(event: &Event) -> (r: Option<ActionOrigin>)
    ensures
        r == spec_event_origin(*event),
{
    if contains(event.message.as_str(), "Manual action") {
        return Some(ActionOrigin::Manual);
    }
    if str_eq(event.kind.as_str(), "reflex") || contains(event.message.as_str(), "SAFETY-REFLEX") {
        return Some(ActionOrigin::SafetyReflex);
    }
    let decision = match &event.decision {
        None => {
            return None;
        },
        Some(decision) => decision,
    };
    if str_eq(decision.model.as_str(), "offline-fixture") {
        return Some(ActionOrigin::Fixture);
    }
    let kind = event.kind.as_str();
    if str_eq(kind, "decision") || str_eq(kind, "dispatched") || str_eq(kind, "action") || str_eq(
        kind,
        "executor",
    ) {
        Some(ActionOrigin::JevSelected)
    } else {
        None
    }
}

/// A takeover message outranks any decision attached to the same row: an event whose
/// message announces a manual action is labelled manual, whatever else it carries.
pub proof fn law_manual_takeover_outranks_any_decision(event: Event)
    requires
        spec_contains(event.message@, "Manual action"@),
    ensures
        spec_event_origin(event) == Some(ActionOrigin::Manual),
{
}

/// Nothing without an attached model decision reads as a model or fixture choice, and the
/// reflex is never read as a model choice.
pub proof fn law_model_origins_need_a_decision(event: Event)
    ensures
        event.decision is None ==> spec_event_origin(event) != Some(ActionOrigin::JevSelected)
            && spec_event_origin(event) != Some(ActionOrigin::Fixture),
        event.kind@ == "reflex"@ && !spec_contains(event.message@, "Manual action"@)
            ==> spec_event_origin(event) == Some(ActionOrigin::SafetyReflex),
{
}

/// The four origins carry four different labels, so no two can be confused on screen.
pub proof fn law_labels_are_distinct(a: ActionOrigin, b: ActionOrigin)
    requires
        a != b,
    ensures
        spec_label(a) != spec_label(b),
{
    reveal_strlit("JEV-SELECTED");
    reveal_strlit("FIXTURE");
    reveal_strlit("MANUAL");
    reveal_strlit("SAFETY-REFLEX");
    assert("JEV-SELECTED"@[0] != "FIXTURE"@[0]);
    assert("JEV-SELECTED"@[0] != "MANUAL"@[0]);
    assert("JEV-SELECTED"@[0] != "SAFETY-REFLEX"@[0]);
    assert("FIXTURE"@[0] != "MANUAL"@[0]);
    assert("FIXTURE"@[0] != "SAFETY-REFLEX"@[0]);
    assert("MANUAL"@[0] != "SAFETY-REFLEX"@[0]);
}

/// Any row the offline fixture decided, whatever its kind, is labelled fixture unless a
/// takeover or the reflex claims it; a model-selected label needs a decision from a model
/// other than the fixture, on a decision, dispatch, action or executor row.
pub proof fn law_fixture_decisions_are_labelled_fixture(event: Event)
    ensures
        !spec_contains(event.message@, "Manual action"@) && event.kind@ != "reflex"@
            && !spec_contains(event.message@, "SAFETY-REFLEX"@) && (event.decision matches Some(
            d,
        ) && d.model@ == "offline-fixture"@) ==> spec_event_origin(event) == Some(
            ActionOrigin::Fixture,
        ),
        spec_event_origin(event) == Some(ActionOrigin::JevSelected) ==> (event.decision matches Some(
            d,
        ) && d.model@ != "offline-fixture"@ && (event.kind@ == "decision"@ || event.kind@
            == "dispatched"@ || event.kind@ == "action"@ || event.kind@ == "executor"@)),
{
}

/// The attribution in full: a takeover message wins; then a `reflex` row or a
/// `SAFETY-REFLEX` message is the reflex; then a fixture decision is the fixture on any row;
/// then another model's decision is model-selected on a decision, dispatch, action or
/// executor row and unattributed elsewhere; a row without a decision has no origin.
pub proof fn law_origin_priority(event: Event)
    ensures
        !spec_contains(event.message@, "Manual action"@) && (event.kind@ == "reflex"@
            || spec_contains(event.message@, "SAFETY-REFLEX"@)) ==> spec_event_origin(event)
            == Some(ActionOrigin::SafetyReflex),
        !spec_contains(event.message@, "Manual action"@) && event.kind@ != "reflex"@
            && !spec_contains(event.message@, "SAFETY-REFLEX"@) && event.decision is None
            ==> spec_event_origin(event) is None,
        !spec_contains(event.message@, "Manual action"@) && event.kind@ != "reflex"@
            && !spec_contains(event.message@, "SAFETY-REFLEX"@) && event.decision is Some
            && event.decision->0.model@ != "offline-fixture"@ ==> spec_event_origin(event) == if (
        event.kind@ == "decision"@ || event.kind@ == "dispatched"@ || event.kind@ == "action"@
            || event.kind@ == "executor"@) {
            Some(ActionOrigin::JevSelected)
        } else {
            None
        },
{
}

} // verus!
