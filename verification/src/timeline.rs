//! What the desktop timeline shows: the recorded events in pages of one hundred, newest
//! first; which event the detail panel describes; the latest model choice; and when an
//! operator's manual choice may be sent.
use crate::model::{Candidate, Event, Observation};
use crate::report::sequence_index;
use crate::text::str_eq;
use vstd::prelude::*;

verus! {

/// Events per timeline page.
pub const PAGE_SIZE: usize = 100;

/// `len.div_ceil(100).max(1)`: an empty timeline still has one page.
pub open spec fn spec_page_count(len: nat) -> nat {
    if len == 0 {
        1
    } else {
        ((len + 99) / 100) as nat
    }
}

pub fn page_count(len: usize) -> (r: usize)
    ensures
        r == spec_page_count(len as nat),
        r >= 1,
{
    if len == 0 {
        1
    } else {
        len / 100 + if len % 100 == 0 {
            0
        } else {
            1
        }
    }
}

/// The page shown: the requested one, or the last page when fewer remain.
pub fn clamp_page(page: usize, len: usize) -> (r: usize)
    ensures
        r == if page < spec_page_count(len as nat) {
            page as nat
        } else {
            (spec_page_count(len as nat) - 1) as nat
        },
{
    let count = page_count(len);
    if page < count {
        page
    } else {
        count - 1
    }
}

/// How many rows page `page` holds.
pub open spec fn rows_on_page(len: int, page: int) -> int {
    if page < 0 || page * 100 >= len {
        0
    } else if len - page * 100 < 100 {
        len - page * 100
    } else {
        100
    }
}

/// The events on page `page`, newest first: row `k` shows event `len - 1 - (page * 100 + k)`.
pub open spec fn spec_page_rows(len: int, page: int) -> Seq<int> {
    Seq::new(rows_on_page(len, page) as nat, |k: int| len - 1 - page * 100 - k)
}

pub fn page_rows(len: usize, page: usize) -> (r: Vec<usize>)
    ensures
        r@.len() == spec_page_rows(len as int, page as int).len(),
        forall|k: int|
            0 <= k < r@.len() ==> r@[k] as int == #[trigger] spec_page_rows(
                len as int,
                page as int,
            )[k],
{
    let mut r: Vec<usize> = Vec::new();
    if len == 0 {
        return r;
    }
    if page >= page_count(len) {
        proof {
            assert(page * 100 >= len) by (nonlinear_arith)
                requires
                    page >= spec_page_count(len as nat),
                    len > 0 ==> spec_page_count(len as nat) == (len + 99) / 100,
            ;
        }
        return r;
    }
    assert(page * 100 < len) by (nonlinear_arith)
        requires
            page < spec_page_count(len as nat),
            len > 0,
            spec_page_count(len as nat) == (len + 99) / 100,
    ;
    let first = page * 100;
    let remaining = len - first;
    let count = if remaining < 100 {
        remaining
    } else {
        100
    };
    let mut k: usize = 0;
    while k < count
        invariant
            first == page * 100,
            first < len,
            remaining == len - first,
            count == rows_on_page(len as int, page as int),
            k <= count,
            r@.len() == k,
            forall|t: int| 0 <= t < k ==> r@[t] as int == len - 1 - first - t,
        decreases count - k,
    {
        r.push(len - 1 - first - k);
        k += 1;
    }
    r
}

/// Every recorded event is shown on exactly one page: page `(len - 1 - i) / 100`, which
/// exists; the oldest event is on the last page.
pub proof fn law_every_event_is_on_exactly_one_page(len: int, i: int, page: int)
    requires
        0 <= i < len,
        0 <= page,
    ensures
        ((len - 1 - i) / 100) < spec_page_count(len as nat),
        spec_page_rows(len, (len - 1 - i) / 100).contains(i),
        spec_page_rows(len, page).contains(i) ==> page == (len - 1 - i) / 100,
        i == 0 ==> (len - 1) / 100 == spec_page_count(len as nat) - 1,
{
    let p = (len - 1 - i) / 100;
    let k = (len - 1 - i) % 100;
    assert(p * 100 + k == len - 1 - i && 0 <= k < 100) by (nonlinear_arith)
        requires
            p == (len - 1 - i) / 100,
            k == (len - 1 - i) % 100,
            len - 1 - i >= 0,
    ;
    assert(p < spec_page_count(len as nat)) by (nonlinear_arith)
        requires
            p * 100 + k == len - 1 - i,
            0 <= k,
            0 <= i < len,
            spec_page_count(len as nat) == (len + 99) / 100,
    ;
    assert(0 <= k < rows_on_page(len, p));
    assert(spec_page_rows(len, p)[k] == i);
    if spec_page_rows(len, page).contains(i) {
        let j = choose|j: int| 0 <= j < spec_page_rows(len, page).len() && spec_page_rows(len, page)[j] == i;
        assert(len - 1 - page * 100 - j == i);
        assert(0 <= j < 100);
        assert(page == p) by (nonlinear_arith)
            requires
                page * 100 + j == len - 1 - i,
                p * 100 + k == len - 1 - i,
                0 <= j < 100,
                0 <= k < 100,
        ;
    }
    if i == 0 {
        assert((len - 1) / 100 == spec_page_count(len as nat) - 1) by (nonlinear_arith)
            requires
                len >= 1,
                spec_page_count(len as nat) == (len + 99) / 100,
        ;
    }
}

/// The event the detail panel describes: the selected one while it is recorded,
/// otherwise the latest.
pub open spec fn spec_detail_index(events: Seq<Event>, selected: Option<u64>) -> Option<int> {
    let latest = if events.len() > 0 {
        Some(events.len() - 1)
    } else {
        None
    };
    match selected {
        Some(sequence) => match sequence_index(events, sequence, 0) {
            Some(i) => Some(i),
            None => latest,
        },
        None => latest,
    }
}

pub fn detail_index(events: &[Event], selected: Option<u64>) -> (r: Option<usize>)
    ensures
        match spec_detail_index(events@, selected) {
            Some(i) => r == Some(i as usize),
            None => r is None,
        },
{
    if let Some(sequence) = selected {
        let n = events.len();
        let mut i: usize = 0;
        while i < n
            invariant
                n == events@.len(),
                i <= n,
                selected == Some(sequence),
                sequence_index(events@, sequence, 0) == sequence_index(events@, sequence, i as int),
            decreases n - i,
        {
            if events[i].sequence == sequence {
                return Some(i);
            }
            i += 1;
        }
    }
    if events.len() > 0 {
        Some(events.len() - 1)
    } else {
        None
    }
}

/// The last of the first `n` events that carries a decision.
pub open spec fn latest_decision_upto(events: Seq<Event>, n: int) -> Option<int>
    decreases n,
{
    if n <= 0 || n > events.len() {
        None
    } else if events[n - 1].decision is Some {
        Some(n - 1)
    } else {
        latest_decision_upto(events, n - 1)
    }
}

/// The latest event that carries a model or fixture decision.
pub fn latest_decision(events: &[Event]) -> (r: Option<usize>)
    ensures
        match latest_decision_upto(events@, events@.len() as int) {
            Some(i) => r == Some(i as usize),
            None => r is None,
        },
{
    let mut i: usize = events.len();
    while i > 0
        invariant
            i <= events@.len(),
            latest_decision_upto(events@, events@.len() as int) == latest_decision_upto(
                events@,
                i as int,
            ),
        decreases i,
    {
        if events[i - 1].decision.is_some() {
            return Some(i - 1);
        }
        i -= 1;
    }
    None
}

/// Two candidates are the same goal: identifier, description, target and duration.
pub open spec fn same_candidate(a: Candidate, b: Candidate) -> bool {
    a.id@ == b.id@ && a.description@ == b.description@ && a.target == b.target && a.duration_ms
        == b.duration_ms
}

fn is_same_candidate(a: &Candidate, b: &Candidate) -> (r: bool)
    ensures
        r == same_candidate(*a, *b),
{
    str_eq(a.id.as_str(), b.id.as_str()) && str_eq(a.description.as_str(), b.description.as_str())
        && a.target == b.target && a.duration_ms == b.duration_ms
}

/// A manual choice is sent only outside replay, only for a goal among the current manual
/// candidates, and only while a connected observation binds it to a world.
pub open spec fn spec_manual_allowed(
    replay: bool,
    manual_candidates: Seq<Candidate>,
    candidate: Candidate,
    observation: Option<Observation>,
) -> bool {
    &&& !replay
    &&& exists|k: int|
        0 <= k < manual_candidates.len() && same_candidate(#[trigger] manual_candidates[k], candidate)
    &&& (observation matches Some(o) && o.connected)
}

pub fn manual_allowed(
    replay: bool,
    manual_candidates: &[Candidate],
    candidate: &Candidate,
    observation: &Option<Observation>,
) -> (r: bool)
    ensures
        r == spec_manual_allowed(replay, manual_candidates@, *candidate, *observation),
{
    if replay {
        return false;
    }
    let mut found = false;
    let mut k: usize = 0;
    while k < manual_candidates.len()
        invariant
            k <= manual_candidates@.len(),
            found <==> exists|j: int|
                0 <= j < k && same_candidate(#[trigger] manual_candidates@[j], *candidate),
        decreases manual_candidates@.len() - k,
    {
        if is_same_candidate(&manual_candidates[k], candidate) {
            found = true;
        }
        k += 1;
    }
    found && match observation {
        Some(o) => o.connected,
        None => false,
    }
}

} // verus!
