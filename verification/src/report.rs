//! What the offline report reads from a validated recording: per-choice tallies, how the
//! arrival verdicts divide, and the events that led to a verdict, correlated by order.
use crate::harness::count_of;
use crate::model::Event;
use crate::text::str_eq;
use vstd::prelude::*;

verus! {

/// The event carries a decision that the tally counts: every decision, or, for answers,
/// only the ones on `decision` events (each answer is also recorded on its dispatch).
pub open spec fn counts_toward(e: Event, answers_only: bool) -> bool {
    e.decision is Some && (!answers_only || e.kind@ == "decision"@)
}

/// The index of the tally entry for `choice`, from `i` on.
pub open spec fn tally_index(tally: Seq<(Seq<char>, nat)>, choice: Seq<char>, i: int) -> Option<int>
    decreases tally.len() - i,
{
    if i < 0 || i >= tally.len() {
        None
    } else if tally[i].0 == choice {
        Some(i)
    } else {
        tally_index(tally, choice, i + 1)
    }
}

/// The tally of the first `n` events: one entry per choice, in the order choices first
/// appear, each with the number of counted events that chose it.
pub open spec fn tally_upto(events: Seq<Event>, answers_only: bool, n: int) -> Seq<(Seq<char>, nat)>
    decreases n,
{
    if n <= 0 || n > events.len() {
        Seq::empty()
    } else {
        let previous = tally_upto(events, answers_only, n - 1);
        let e = events[n - 1];
        if counts_toward(e, answers_only) {
            let choice = e.decision->0.choice@;
            match tally_index(previous, choice, 0) {
                Some(k) => previous.update(k, (choice, previous[k].1 + 1)),
                None => previous.push((choice, 1nat)),
            }
        } else {
            previous
        }
    }
}

/// The sum of the tally's counts.
pub open spec fn tally_total(tally: Seq<(Seq<char>, nat)>) -> nat
    decreases tally.len(),
{
    if tally.len() == 0 {
        0
    } else {
        tally_total(tally.drop_last()) + tally.last().1
    }
}

pub open spec fn tally_view(t: Seq<(String, u32)>) -> Seq<(Seq<char>, nat)> {
    t.map_values(|e: (String, u32)| (e.0@, e.1 as nat))
}

proof fn lemma_tally_index_bounds(tally: Seq<(Seq<char>, nat)>, choice: Seq<char>, i: int)
    requires
        0 <= i,
    ensures
        tally_index(tally, choice, i) matches Some(k) ==> i <= k < tally.len() && tally[k].0
            == choice,
    decreases tally.len() - i,
{
    if i < tally.len() && tally[i].0 != choice {
        lemma_tally_index_bounds(tally, choice, i + 1);
    }
}

proof fn lemma_tally_total_push(tally: Seq<(Seq<char>, nat)>, x: (Seq<char>, nat))
    ensures
        tally_total(tally.push(x)) == tally_total(tally) + x.1,
{
    assert(tally.push(x).drop_last() =~= tally);
}

proof fn lemma_tally_total_update(tally: Seq<(Seq<char>, nat)>, k: int, x: (Seq<char>, nat))
    requires
        0 <= k < tally.len(),
    ensures
        tally_total(tally.update(k, x)) + tally[k].1 == tally_total(tally) + x.1,
    decreases tally.len(),
{
    if k == tally.len() - 1 {
        assert(tally.update(k, x).drop_last() =~= tally.drop_last());
    } else {
        lemma_tally_total_update(tally.drop_last(), k, x);
        assert(tally.update(k, x).drop_last() =~= tally.drop_last().update(k, x));
    }
}

proof fn lemma_tally_bounded(events: Seq<Event>, answers_only: bool, n: int)
    requires
        0 <= n <= events.len(),
    ensures
        forall|k: int|
            0 <= k < tally_upto(events, answers_only, n).len() ==> #[trigger] tally_upto(
                events,
                answers_only,
                n,
            )[k].1 <= n,
    decreases n,
{
    if n > 0 {
        lemma_tally_bounded(events, answers_only, n - 1);
        let previous = tally_upto(events, answers_only, n - 1);
        let e = events[n - 1];
        if counts_toward(e, answers_only) {
            lemma_tally_index_bounds(previous, e.decision->0.choice@, 0);
        }
    }
}

/// The tally's counts add up to the number of counted events.
pub proof fn law_tally_adds_up(events: Seq<Event>, answers_only: bool, n: int)
    requires
        0 <= n <= events.len(),
    ensures
        tally_total(tally_upto(events, answers_only, n)) == count_of(
            events.take(n),
            |e: Event| counts_toward(e, answers_only),
        ),
    decreases n,
{
    if n > 0 {
        law_tally_adds_up(events, answers_only, n - 1);
        assert(events.take(n).drop_last() =~= events.take(n - 1));
        let previous = tally_upto(events, answers_only, n - 1);
        let e = events[n - 1];
        if counts_toward(e, answers_only) {
            let choice = e.decision->0.choice@;
            lemma_tally_index_bounds(previous, choice, 0);
            match tally_index(previous, choice, 0) {
                Some(k) => lemma_tally_total_update(previous, k, (choice, previous[k].1 + 1)),
                None => lemma_tally_total_push(previous, (choice, 1nat)),
            }
        }
    } else {
        assert(events.take(0) =~= Seq::<Event>::empty());
    }
}

fn find_choice(tally: &Vec<(String, u32)>, choice: &str) -> (r: Option<usize>)
    ensures
        match r {
            Some(k) => tally_index(tally_view(tally@), choice@, 0) == Some(k as int) && k
                < tally@.len() && tally@[k as int].0@ == choice@,
            None => tally_index(tally_view(tally@), choice@, 0) is None,
        },
{
    proof {
        lemma_tally_index_bounds(tally_view(tally@), choice@, 0);
    }
    let n = tally.len();
    let mut i: usize = 0;
    while i < n
        invariant
            n == tally@.len(),
            i <= n,
            tally_index(tally_view(tally@), choice@, 0) == tally_index(
                tally_view(tally@),
                choice@,
                i as int,
            ),
        decreases n - i,
    {
        if str_eq(tally[i].0.as_str(), choice) {
            return Some(i);
        }
        i += 1;
    }
    None
}

/// How many events chose each option; see [`tally_upto`].
pub fn choice_tally(events: &[Event], answers_only: bool) -> (r: Vec<(String, u32)>)
    requires
        events@.len() < u32::MAX,
    ensures
        tally_view(r@) == tally_upto(events@, answers_only, events@.len() as int),
{
    let mut tally: Vec<(String, u32)> = Vec::new();
    let n = events.len();
    let mut i: usize = 0;
    assert(tally_view(tally@) =~= Seq::<(Seq<char>, nat)>::empty());
    while i < n
        invariant
            n == events@.len(),
            n < u32::MAX,
            i <= n,
            tally_view(tally@) == tally_upto(events@, answers_only, i as int),
        decreases n - i,
    {
        let event = &events[i];
        let counted = match &event.decision {
            Some(_) => !answers_only || str_eq(event.kind.as_str(), "decision"),
            None => false,
        };
        if counted {
            proof {
                lemma_tally_bounded(events@, answers_only, i as int);
            }
            let decision = event.decision.as_ref().unwrap();
            let choice = decision.choice.as_str();
            let ghost before = tally@;
            match find_choice(&tally, choice) {
                Some(k) => {
                    assert(tally_view(before)[k as int] == (before[k as int].0@, before[k as int].1 as nat));
                    let name = tally[k].0.clone();
                    let count = tally[k].1 + 1;
                    tally.set(k, (name, count));
                    assert(tally_view(tally@) =~= tally_view(before).update(
                        k as int,
                        (choice@, tally_view(before)[k as int].1 + 1),
                    ));
                },
                None => {
                    tally.push((String::from_str(choice), 1));
                    assert(tally_view(tally@) =~= tally_view(before).push((choice@, 1nat)));
                },
            }
        }
        i += 1;
    }
    tally
}

/// The kinds of the events that lead to a bounded goal's verdict.
pub open spec fn is_chain_kind(kind: Seq<char>) -> bool {
    kind == "request"@ || kind == "decision"@ || kind == "dispatched"@ || kind == "action"@
}

/// The index of the first event with the given sequence number, from `i` on.
pub open spec fn sequence_index(events: Seq<Event>, sequence: u64, i: int) -> Option<int>
    decreases events.len() - i,
{
    if i < 0 || i >= events.len() {
        None
    } else if events[i].sequence == sequence {
        Some(i)
    } else {
        sequence_index(events, sequence, i + 1)
    }
}

/// The indices of the last `budget` chain events before index `j`, in recording order.
pub open spec fn chain_before(events: Seq<Event>, j: int, budget: nat) -> Seq<int>
    decreases j,
{
    if j <= 0 || j > events.len() || budget == 0 {
        Seq::empty()
    } else if is_chain_kind(events[j - 1].kind@) {
        chain_before(events, j - 1, (budget - 1) as nat).push(j - 1)
    } else {
        chain_before(events, j - 1, budget)
    }
}

/// The request, decision, dispatch and accepted action immediately before the verdict
/// event with the given sequence number, correlated by order rather than by message text.
pub open spec fn spec_correlated_chain(events: Seq<Event>, verdict_sequence: u64) -> Seq<int> {
    match sequence_index(events, verdict_sequence, 0) {
        None => Seq::empty(),
        Some(index) => chain_before(events, index, 4),
    }
}

proof fn lemma_sequence_index_bounds(events: Seq<Event>, sequence: u64, i: int)
    requires
        0 <= i,
    ensures
        sequence_index(events, sequence, i) matches Some(k) ==> i <= k < events.len(),
    decreases events.len() - i,
{
    if i < events.len() && events[i].sequence != sequence {
        lemma_sequence_index_bounds(events, sequence, i + 1);
    }
}

fn is_chain_event(e: &Event) -> (r: bool)
    ensures
        r == is_chain_kind(e.kind@),
{
    let kind = e.kind.as_str();
    str_eq(kind, "request") || str_eq(kind, "decision") || str_eq(kind, "dispatched") || str_eq(
        kind,
        "action",
    )
}

/// The indices of the events that led to a verdict; see [`spec_correlated_chain`].
pub fn correlated_chain(events: &[Event], verdict_sequence: u64) -> (r: Vec<usize>)
    ensures
        r@.len() == spec_correlated_chain(events@, verdict_sequence).len(),
        forall|k: int|
            0 <= k < r@.len() ==> r@[k] as int == #[trigger] spec_correlated_chain(
                events@,
                verdict_sequence,
            )[k],
{
    let n = events.len();
    proof {
        lemma_sequence_index_bounds(events@, verdict_sequence, 0);
    }
    let mut index: usize = 0;
    while index < n
        invariant
            n == events@.len(),
            index <= n,
            sequence_index(events@, verdict_sequence, 0) == sequence_index(
                events@,
                verdict_sequence,
                index as int,
            ),
        ensures
            index < n ==> events@[index as int].sequence == verdict_sequence,
            index <= n,
            sequence_index(events@, verdict_sequence, 0) == sequence_index(
                events@,
                verdict_sequence,
                index as int,
            ),
        decreases n - index,
    {
        if events[index].sequence == verdict_sequence {
            break;
        }
        index += 1;
    }
    if index == n {
        return Vec::new();
    }
    let ghost whole = chain_before(events@, index as int, 4);
    assert(whole == spec_correlated_chain(events@, verdict_sequence));
    let mut found: Vec<usize> = Vec::new();
    let mut j: usize = index;
    while j > 0 && found.len() < 4
        invariant
            n == events@.len(),
            j <= index < n,
            found@.len() <= 4,
            forall|k: int| 0 <= k < found@.len() ==> found@[k] < n,
            whole == chain_before(events@, j as int, (4 - found@.len()) as nat) + found@.map_values(
                |x: usize| x as int,
            ).reverse(),
        decreases j,
    {
        let ghost before = found@;
        if is_chain_event(&events[j - 1]) {
            found.push(j - 1);
            proof {
                assert(found@.map_values(|x: usize| x as int).reverse() =~= seq![(j - 1) as int]
                    + before.map_values(|x: usize| x as int).reverse());
            }
        }
        j -= 1;
    }
    proof {
        assert(chain_before(events@, j as int, (4 - found@.len()) as nat) =~= Seq::<int>::empty());
    }
    let mut chain: Vec<usize> = Vec::new();
    let m = found.len();
    let mut k: usize = 0;
    while k < m
        invariant
            m == found@.len(),
            k <= m,
            whole =~= found@.map_values(|x: usize| x as int).reverse(),
            chain@.len() == k,
            forall|t: int| 0 <= t < k ==> chain@[t] as int == whole[t],
        decreases m - k,
    {
        chain.push(found[m - 1 - k]);
        k += 1;
    }
    chain
}

/// How a recording's arrival verdicts divide, and the two event counts the report adds to
/// [`crate::harness::Counts`].
#[derive(Clone, Copy, Debug, PartialEq, Eq, Structural)]
pub struct VerdictBreakdown {
    /// `reflex` events.
    pub reflex_events: u32,
    /// Events carrying a decision, on any row.
    pub decision_bearing: u32,
    /// Verdicts that did not arrive although a target was bound.
    pub expired_with_target: u32,
    /// Verdicts of goals without a target (waiting).
    pub target_less: u32,
}

pub open spec fn is_reflex_event(e: Event) -> bool {
    e.kind@ == "reflex"@
}

pub open spec fn is_decision_bearing(e: Event) -> bool {
    e.decision is Some
}

pub open spec fn expired_with_target(e: Event) -> bool {
    e.arrival matches Some(v) && !v.arrived && v.target is Some
}

pub open spec fn target_less(e: Event) -> bool {
    e.arrival matches Some(v) && !v.arrived && v.target is None
}

pub open spec fn spec_verdict_breakdown(events: Seq<Event>) -> VerdictBreakdown {
    VerdictBreakdown {
        reflex_events: count_of(events, |e: Event| is_reflex_event(e)) as u32,
        decision_bearing: count_of(events, |e: Event| is_decision_bearing(e)) as u32,
        expired_with_target: count_of(events, |e: Event| expired_with_target(e)) as u32,
        target_less: count_of(events, |e: Event| target_less(e)) as u32,
    }
}

proof fn lemma_count_step(events: Seq<Event>, i: int, f: spec_fn(Event) -> bool)
    requires
        0 <= i < events.len(),
    ensures
        count_of(events.take(i + 1), f) == count_of(events.take(i), f) + if f(events[i]) {
            1nat
        } else {
            0nat
        },
        count_of(events.take(i), f) <= i,
    decreases i,
{
    assert(events.take(i + 1).drop_last() =~= events.take(i));
    if i > 0 {
        lemma_count_step(events, i - 1, f);
    } else {
        assert(events.take(0) =~= Seq::<Event>::empty());
    }
}

/// Reads the breakdown; see [`spec_verdict_breakdown`].
pub fn verdict_breakdown(events: &[Event]) -> (r: VerdictBreakdown)
    requires
        events@.len() < u32::MAX,
    ensures
        r == spec_verdict_breakdown(events@),
{
    let ghost s = events@;
    let mut r = VerdictBreakdown {
        reflex_events: 0,
        decision_bearing: 0,
        expired_with_target: 0,
        target_less: 0,
    };
    let n = events.len();
    let mut i: usize = 0;
    assert(s.take(0) =~= Seq::<Event>::empty());
    while i < n
        invariant
            s == events@,
            n == s.len(),
            n < u32::MAX,
            i <= n,
            r.reflex_events == count_of(s.take(i as int), |e: Event| is_reflex_event(e)),
            r.decision_bearing == count_of(s.take(i as int), |e: Event| is_decision_bearing(e)),
            r.expired_with_target == count_of(
                s.take(i as int),
                |e: Event| expired_with_target(e),
            ),
            r.target_less == count_of(s.take(i as int), |e: Event| target_less(e)),
        decreases n - i,
    {
        let event = &events[i];
        proof {
            lemma_count_step(s, i as int, |e: Event| is_reflex_event(e));
            lemma_count_step(s, i as int, |e: Event| is_decision_bearing(e));
            lemma_count_step(s, i as int, |e: Event| expired_with_target(e));
            lemma_count_step(s, i as int, |e: Event| target_less(e));
            assert(s[i as int] == *event);
        }
        if str_eq(event.kind.as_str(), "reflex") {
            r.reflex_events = r.reflex_events + 1;
        }
        if event.decision.is_some() {
            r.decision_bearing = r.decision_bearing + 1;
        }
        if let Some(verdict) = &event.arrival {
            if !verdict.arrived {
                if verdict.target.is_some() {
                    r.expired_with_target = r.expired_with_target + 1;
                } else {
                    r.target_less = r.target_less + 1;
                }
            }
        }
        i += 1;
    }
    assert(s.take(n as int) =~= s);
    r
}

/// The indices of the first `n` events that carry an arrived verdict, in order.
pub open spec fn arrived_upto(events: Seq<Event>, n: int) -> Seq<int>
    decreases n,
{
    if n <= 0 || n > events.len() {
        Seq::empty()
    } else if events[n - 1].arrival matches Some(v) && v.arrived {
        arrived_upto(events, n - 1).push(n - 1)
    } else {
        arrived_upto(events, n - 1)
    }
}

/// The indices of the events that carry an arrived verdict, in order.
pub fn arrived_events(events: &[Event]) -> (r: Vec<usize>)
    ensures
        r@.len() == arrived_upto(events@, events@.len() as int).len(),
        forall|k: int|
            0 <= k < r@.len() ==> r@[k] as int == #[trigger] arrived_upto(
                events@,
                events@.len() as int,
            )[k],
{
    let mut r: Vec<usize> = Vec::new();
    let n = events.len();
    let mut i: usize = 0;
    while i < n
        invariant
            n == events@.len(),
            i <= n,
            r@.len() == arrived_upto(events@, i as int).len(),
            forall|k: int|
                0 <= k < r@.len() ==> r@[k] as int == #[trigger] arrived_upto(events@, i as int)[k],
        decreases n - i,
    {
        let arrived = match &events[i].arrival {
            Some(v) => v.arrived,
            None => false,
        };
        if arrived {
            r.push(i);
        }
        i += 1;
    }
    r
}

/// The first `executor` event that carries a verdict, from `i` on.
pub open spec fn executor_verdict_from(events: Seq<Event>, i: int) -> Option<int>
    decreases events.len() - i,
{
    if i < 0 || i >= events.len() {
        None
    } else if events[i].kind@ == "executor"@ && events[i].arrival is Some {
        Some(i)
    } else {
        executor_verdict_from(events, i + 1)
    }
}

proof fn lemma_executor_verdict_bounds(events: Seq<Event>, i: int)
    requires
        0 <= i,
    ensures
        executor_verdict_from(events, i) matches Some(k) ==> i <= k < events.len(),
    decreases events.len() - i,
{
    if i < events.len() && !(events[i].kind@ == "executor"@ && events[i].arrival is Some) {
        lemma_executor_verdict_bounds(events, i + 1);
    }
}

/// The index of the engine's verdict on a bounded goal: the first `executor` event that
/// carries one.
pub fn executor_verdict(events: &[Event]) -> (r: Option<usize>)
    ensures
        match r {
            Some(k) => executor_verdict_from(events@, 0) == Some(k as int),
            None => executor_verdict_from(events@, 0) is None,
        },
{
    proof {
        lemma_executor_verdict_bounds(events@, 0);
    }
    let n = events.len();
    let mut i: usize = 0;
    while i < n
        invariant
            n == events@.len(),
            i <= n,
            executor_verdict_from(events@, 0) == executor_verdict_from(events@, i as int),
        decreases n - i,
    {
        if str_eq(events[i].kind.as_str(), "executor") && events[i].arrival.is_some() {
            return Some(i);
        }
        i += 1;
    }
    None
}

/// The first event of kind `kind`, from `i` on.
pub open spec fn first_of_kind_from(events: Seq<Event>, kind: Seq<char>, i: int) -> Option<int>
    decreases events.len() - i,
{
    if i < 0 || i >= events.len() {
        None
    } else if events[i].kind@ == kind {
        Some(i)
    } else {
        first_of_kind_from(events, kind, i + 1)
    }
}

proof fn lemma_first_of_kind_bounds(events: Seq<Event>, kind: Seq<char>, i: int)
    requires
        0 <= i,
    ensures
        first_of_kind_from(events, kind, i) matches Some(k) ==> i <= k < events.len(),
    decreases events.len() - i,
{
    if i < events.len() && events[i].kind@ != kind {
        lemma_first_of_kind_bounds(events, kind, i + 1);
    }
}

/// The index of the first event of kind `kind`: the navigation report reads the offered
/// candidates from the first `request` and the model's choice from the first `decision`.
pub fn first_of_kind(events: &[Event], kind: &str) -> (r: Option<usize>)
    ensures
        match r {
            Some(k) => first_of_kind_from(events@, kind@, 0) == Some(k as int),
            None => first_of_kind_from(events@, kind@, 0) is None,
        },
{
    proof {
        lemma_first_of_kind_bounds(events@, kind@, 0);
    }
    let n = events.len();
    let mut i: usize = 0;
    while i < n
        invariant
            n == events@.len(),
            i <= n,
            first_of_kind_from(events@, kind@, 0) == first_of_kind_from(events@, kind@, i as int),
        decreases n - i,
    {
        if str_eq(events[i].kind.as_str(), kind) {
            return Some(i);
        }
        i += 1;
    }
    None
}

/// The answer tally counts every recorded answer once, on its `decision` row, whether or
/// not it was dispatched afterwards; the full tally counts every row that carries a
/// decision.
pub proof fn law_answer_tally_counts_decision_rows(events: Seq<Event>, n: int)
    requires
        0 <= n <= events.len(),
    ensures
        tally_total(tally_upto(events, true, n)) == count_of(
            events.take(n),
            |e: Event| e.decision is Some && e.kind@ == "decision"@,
        ),
        tally_total(tally_upto(events, false, n)) == count_of(
            events.take(n),
            |e: Event| e.decision is Some,
        ),
{
    law_tally_adds_up(events, true, n);
    law_tally_adds_up(events, false, n);
    assert((|e: Event| counts_toward(e, true)) =~= (|e: Event|
        e.decision is Some && e.kind@ == "decision"@));
    assert((|e: Event| counts_toward(e, false)) =~= (|e: Event| e.decision is Some));
}

proof fn lemma_tally_index_same_keys(
    a: Seq<(Seq<char>, nat)>,
    b: Seq<(Seq<char>, nat)>,
    choice: Seq<char>,
    i: int,
)
    requires
        0 <= i,
        a.len() == b.len(),
        forall|j: int| 0 <= j < a.len() ==> (#[trigger] a[j]).0 == b[j].0,
    ensures
        tally_index(a, choice, i) == tally_index(b, choice, i),
    decreases a.len() - i,
{
    if i < a.len() {
        assert(a[i].0 == b[i].0);
        lemma_tally_index_same_keys(a, b, choice, i + 1);
    }
}

proof fn lemma_tally_index_push(
    t: Seq<(Seq<char>, nat)>,
    x: (Seq<char>, nat),
    choice: Seq<char>,
    i: int,
)
    requires
        0 <= i <= t.len(),
    ensures
        tally_index(t.push(x), choice, i) == match tally_index(t, choice, i) {
            Some(k) => Some(k),
            None => if x.0 == choice {
                Some(t.len() as int)
            } else {
                None::<int>
            },
        },
    decreases t.len() - i,
{
    if i < t.len() {
        assert(t.push(x)[i] == t[i]);
        lemma_tally_index_push(t, x, choice, i + 1);
    } else {
        assert(i == t.len());
        assert(t.push(x)[i] == x);
        assert(tally_index(t, choice, i) is None);
        assert(tally_index(t.push(x), choice, i + 1) is None);
    }
}

/// The events the tally counts for `choice`.
pub open spec fn chose(e: Event, answers_only: bool, choice: Seq<char>) -> bool {
    counts_toward(e, answers_only) && e.decision->0.choice@ == choice
}

/// Each choice's entry counts exactly the counted events that chose it; a choice no
/// counted event made has no entry.
pub proof fn law_tally_counts_each_choice(
    events: Seq<Event>,
    answers_only: bool,
    n: int,
    choice: Seq<char>,
)
    requires
        0 <= n <= events.len(),
    ensures
        match tally_index(tally_upto(events, answers_only, n), choice, 0) {
            Some(k) => tally_upto(events, answers_only, n)[k].1 == count_of(
                events.take(n),
                |e: Event| chose(e, answers_only, choice),
            ) && count_of(events.take(n), |e: Event| chose(e, answers_only, choice)) > 0,
            None => count_of(events.take(n), |e: Event| chose(e, answers_only, choice)) == 0,
        },
    decreases n,
{
    let f = |e: Event| chose(e, answers_only, choice);
    if n == 0 {
        assert(events.take(0) =~= Seq::<Event>::empty());
    } else {
        law_tally_counts_each_choice(events, answers_only, n - 1, choice);
        lemma_count_step(events, n - 1, f);
        let previous = tally_upto(events, answers_only, n - 1);
        let e = events[n - 1];
        lemma_tally_index_bounds(previous, choice, 0);
        if counts_toward(e, answers_only) {
            let c = e.decision->0.choice@;
            lemma_tally_index_bounds(previous, c, 0);
            match tally_index(previous, c, 0) {
                Some(k) => {
                    let next = previous.update(k, (c, previous[k].1 + 1));
                    assert(forall|j: int| 0 <= j < next.len() ==> (#[trigger] next[j]).0
                        == previous[j].0);
                    lemma_tally_index_same_keys(next, previous, choice, 0);
                },
                None => {
                    lemma_tally_index_push(previous, (c, 1nat), choice, 0);
                },
            }
        }
    }
}

/// With `answers_only`, each choice's entry counts the `decision` rows that chose it,
/// whether or not the answer was dispatched afterwards.
pub proof fn law_answer_tally_counts_each_answer(events: Seq<Event>, n: int, choice: Seq<char>)
    requires
        0 <= n <= events.len(),
    ensures
        match tally_index(tally_upto(events, true, n), choice, 0) {
            Some(k) => tally_upto(events, true, n)[k].1 == count_of(
                events.take(n),
                |e: Event|
                    e.kind@ == "decision"@ && e.decision is Some && e.decision->0.choice@ == choice,
            ),
            None => count_of(
                events.take(n),
                |e: Event|
                    e.kind@ == "decision"@ && e.decision is Some && e.decision->0.choice@ == choice,
            ) == 0,
        },
{
    law_tally_counts_each_choice(events, true, n, choice);
    assert((|e: Event| chose(e, true, choice)) =~= (|e: Event|
        e.kind@ == "decision"@ && e.decision is Some && e.decision->0.choice@ == choice));
}

} // verus!
