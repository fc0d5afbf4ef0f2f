//! Rolling request-latency policy. It measures model request latency, not network ping,
//! and every limit it derives stays inside fixed bounds whatever the samples are.
use std::collections::VecDeque;
use vstd::prelude::*;
use vstd::relations::{sorted_by, total_ordering};
use vstd::seq_lib::lemma_sorted_unique;

verus! {

broadcast use {
    vstd::std_specs::vecdeque::group_vec_dequeue_axioms,
    vstd::seq_lib::group_to_multiset_ensures,
};

/// The number of latency samples the policy keeps.
pub const WINDOW: usize = 64;

/// The goal bound when no sample has been measured, before it is multiplied and clamped.
pub const WARMUP_ESTIMATE_MS: u64 = 500;

/// Rolling request latency over the last [`WINDOW`] requests.
pub struct LatencyPolicy {
    samples: VecDeque<u64>,
}

/// Limits derived from the policy when a request is issued. A copy is kept with the
/// request, so later samples never change the limits of a request already in flight.
#[derive(Clone, Copy, Debug, PartialEq, Eq)]
pub struct Timing {
    pub p50_ms: Option<u64>,
    pub p95_ms: Option<u64>,
    pub goal_ms: u64,
    pub max_answer_age_ms: u64,
}

pub open spec fn u64_leq() -> spec_fn(u64, u64) -> bool {
    |a: u64, b: u64| a <= b
}

/// The samples in ascending order.
pub open spec fn sorted_samples(samples: Seq<u64>) -> Seq<u64> {
    samples.sort_by(u64_leq())
}

/// `ceil(n * percent / 100)`, the rank (counted from one) of the percentile sample.
pub open spec fn percentile_rank(n: nat, percent: nat) -> int {
    ((n * percent + 99) / 100) as int
}

/// The nearest-rank percentile: the sample at rank `ceil(n * percent / 100)` of the
/// ascending order; none without samples.
pub open spec fn percentile(samples: Seq<u64>, percent: nat) -> Option<u64> {
    if samples.len() == 0 {
        None
    } else {
        Some(sorted_samples(samples)[percentile_rank(samples.len(), percent) - 1])
    }
}

pub open spec fn clamp(value: int, low: int, high: int) -> int {
    if value < low {
        low
    } else if value > high {
        high
    } else {
        value
    }
}

/// `value.saturating_mul(factor)` on `u64`.
pub open spec fn saturating_mul(value: u64, factor: u64) -> int {
    if value * factor > u64::MAX {
        u64::MAX as int
    } else {
        value * factor
    }
}

/// Goal duration: four times the p95 latency (500 ms before any sample), clamped to
/// 2 to 10 seconds.
pub open spec fn goal_ms_for(p95: Option<u64>) -> int {
    let estimate = match p95 {
        Some(v) => v,
        None => WARMUP_ESTIMATE_MS,
    };
    clamp(saturating_mul(estimate, 4), 2_000, 10_000)
}

/// Maximum answer age: twice the p95 latency clamped to 1.5 to 5 seconds, and a five
/// second warmup allowance before any sample.
pub open spec fn max_answer_age_for(p95: Option<u64>) -> int {
    match p95 {
        Some(v) => clamp(saturating_mul(v, 2), 1_500, 5_000),
        None => 5_000,
    }
}

/// The timing the policy derives from its samples.
pub open spec fn spec_timing(samples: Seq<u64>) -> Timing {
    Timing {
        p50_ms: percentile(samples, 50),
        p95_ms: percentile(samples, 95),
        goal_ms: goal_ms_for(percentile(samples, 95)) as u64,
        max_answer_age_ms: max_answer_age_for(percentile(samples, 95)) as u64,
    }
}

/// The window after recording one sample: the oldest sample leaves a full window.
pub open spec fn spec_record(samples: Seq<u64>, elapsed_ms: u64) -> Seq<u64> {
    if samples.len() == WINDOW {
        samples.drop_first().push(elapsed_ms)
    } else {
        samples.push(elapsed_ms)
    }
}

/// Whether an answer may still be used: it belongs to the session generation it was
/// requested in and arrived within the age limit captured with the request.
pub open spec fn spec_answer_is_current(
    request_generation: u64,
    session_generation: u64,
    elapsed_ms: u64,
    timing: Timing,
) -> bool {
    request_generation == session_generation && elapsed_ms <= timing.max_answer_age_ms
}

impl View for LatencyPolicy {
    type V = Seq<u64>;

    closed spec fn view(&self) -> Seq<u64> {
        self.samples@
    }
}

impl LatencyPolicy {
    #[verifier::type_invariant]
    spec fn window_bounded(self) -> bool {
        self.samples@.len() <= WINDOW
    }

    /// A policy without samples.
    pub fn new() -> (policy: Self)
        ensures
            policy@ == Seq::<u64>::empty(),
    {
        LatencyPolicy { samples: VecDeque::new() }
    }

    pub fn record(&mut self, elapsed_ms: u64)
        ensures
            final(self)@ == spec_record(old(self)@, elapsed_ms),
            final(self)@.len() <= WINDOW,
    {
        proof {
            use_type_invariant(&*self);
        }
        let mut samples = VecDeque::new();
        std::mem::swap(&mut samples, &mut self.samples);
        if samples.len() == WINDOW {
            let _ = samples.pop_front();
        }
        samples.push_back(elapsed_ms);
        self.samples = samples;
    }

    /// The samples, oldest first.
    fn samples_in_order(&self) -> (v: Vec<u64>)
        ensures
            v@ == self@,
            v@.len() <= WINDOW,
    {
        proof {
            use_type_invariant(self);
        }
        let mut v: Vec<u64> = Vec::new();
        let n = self.samples.len();
        let mut i: usize = 0;
        while i < n
            invariant
                n == self.samples@.len(),
                n <= WINDOW,
                i <= n,
                v@ == self.samples@.take(i as int),
            decreases n - i,
        {
            v.push(self.samples[i]);
            proof {
                assert(self.samples@.take(i + 1) =~= self.samples@.take(i as int).push(
                    self.samples@[i as int],
                ));
            }
            i += 1;
        }
        proof {
            assert(self.samples@.take(n as int) =~= self.samples@);
        }
        v
    }

    pub fn timing(&self) -> (t: Timing)
        ensures
            t == spec_timing(self@),
    {
        let samples = self.samples_in_order();
        let sorted = sort_ascending(&samples);
        let p95 = nearest_rank(&sorted, 95, Ghost(samples@));
        let p50 = nearest_rank(&sorted, 50, Ghost(samples@));
        let estimate = match p95 {
            Some(v) => v,
            None => WARMUP_ESTIMATE_MS,
        };
        let goal_ms = clamp_u64(saturating_mul_u64(estimate, 4), 2_000, 10_000);
        let max_answer_age_ms = match p95 {
            Some(v) => clamp_u64(saturating_mul_u64(v, 2), 1_500, 5_000),
            None => 5_000,
        };
        Timing { p50_ms: p50, p95_ms: p95, goal_ms, max_answer_age_ms }
    }
}

fn saturating_mul_u64(value: u64, factor: u64) -> (r: u64)
    requires
        factor == 2 || factor == 4,
    ensures
        r == saturating_mul(value, factor),
{
    if value > u64::MAX / factor {
        proof {
            assert(value * factor > u64::MAX) by (nonlinear_arith)
                requires
                    value > u64::MAX / factor,
                    factor > 0,
            ;
        }
        u64::MAX
    } else {
        proof {
            assert(value * factor <= u64::MAX) by (nonlinear_arith)
                requires
                    value <= u64::MAX / factor,
                    factor > 0,
            ;
        }
        value * factor
    }
}

fn clamp_u64(value: u64, low: u64, high: u64) -> (r: u64)
    requires
        low <= high,
    ensures
        r == clamp(value as int, low as int, high as int),
{
    if value < low {
        low
    } else if value > high {
        high
    } else {
        value
    }
}

proof fn lemma_u64_leq_total()
    ensures
        total_ordering(u64_leq()),
{
}

/// Ascending order of `samples`, by insertion.
fn sort_ascending(samples: &Vec<u64>) -> (sorted: Vec<u64>)
    requires
        samples@.len() <= WINDOW,
    ensures
        sorted@ == sorted_samples(samples@),
{
    let mut sorted: Vec<u64> = Vec::new();
    let mut i: usize = 0;
    proof {
        assert(samples@.take(0) =~= Seq::<u64>::empty());
        assert(sorted@ =~= Seq::<u64>::empty());
    }
    while i < samples.len()
        invariant
            samples@.len() <= WINDOW,
            i <= samples@.len(),
            sorted@.len() == i,
            sorted_by(sorted@, u64_leq()),
            sorted@.to_multiset() == samples@.take(i as int).to_multiset(),
        decreases samples@.len() - i,
    {
        let x = samples[i];
        let mut pos: usize = 0;
        while pos < sorted.len() && sorted[pos] <= x
            invariant
                pos <= sorted@.len(),
                forall|k: int| 0 <= k < pos ==> sorted@[k] <= x,
            decreases sorted@.len() - pos,
        {
            pos += 1;
        }
        let ghost before = sorted@;
        sorted.insert(pos, x);
        proof {
            vstd::seq_lib::to_multiset_insert(before, pos as int, x);
            assert(samples@.take(i + 1) =~= samples@.take(i as int).push(x));
            vstd::seq_lib::to_multiset_build(samples@.take(i as int), x);
            assert forall|a: int, b: int| 0 <= a < b < sorted@.len() implies #[trigger] (u64_leq())(
                sorted@[a],
                sorted@[b],
            ) by {
                if b < pos {
                    assert(sorted@[a] == before[a] && sorted@[b] == before[b]);
                    assert((u64_leq())(before[a], before[b]));
                } else if b == pos {
                    assert(sorted@[a] == before[a]);
                } else if a < pos {
                    assert(sorted@[a] == before[a] && sorted@[b] == before[b - 1]);
                    assert(before[a] <= x);
                    assert(x < before[pos as int] || pos == before.len());
                    if a < b - 1 {
                        assert((u64_leq())(before[a], before[b - 1]));
                    }
                } else if a == pos {
                    assert(sorted@[b] == before[b - 1]);
                    assert(x < before[pos as int]);
                    if pos < b - 1 {
                        assert((u64_leq())(before[pos as int], before[b - 1]));
                    }
                } else {
                    assert(sorted@[a] == before[a - 1] && sorted@[b] == before[b - 1]);
                    assert((u64_leq())(before[a - 1], before[b - 1]));
                }
            }
        }
        i += 1;
    }
    proof {
        assert(samples@.take(samples@.len() as int) =~= samples@);
        lemma_u64_leq_total();
        samples@.lemma_sort_by_ensures(u64_leq());
        lemma_sorted_unique(sorted@, sorted_samples(samples@), u64_leq());
    }
    sorted
}

/// The nearest-rank percentile of already sorted samples.
fn nearest_rank(sorted: &Vec<u64>, percent: usize, Ghost(samples): Ghost<Seq<u64>>) -> (r: Option<
    u64,
>)
    requires
        1 <= percent <= 100,
        sorted@ == sorted_samples(samples),
        samples.len() <= WINDOW,
    ensures
        r == percentile(samples, percent as nat),
{
    proof {
        lemma_u64_leq_total();
        samples.lemma_sort_by_ensures(u64_leq());
        vstd::seq_lib::to_multiset_len(samples);
        vstd::seq_lib::to_multiset_len(sorted@);
    }
    if sorted.len() == 0 {
        None
    } else {
        let n = sorted.len();
        proof {
            assert(sorted@.len() == samples.len());
            assert(n * percent <= 6400) by (nonlinear_arith)
                requires
                    n <= 64,
                    percent <= 100,
            ;
        }
        let rank = (n * percent + 99) / 100;
        proof {
            assert(rank >= 1 && rank <= n) by (nonlinear_arith)
                requires
                    rank == (n * percent + 99) / 100,
                    1 <= n,
                    1 <= percent <= 100,
            ;
        }
        Some(sorted[rank - 1])
    }
}

impl Default for LatencyPolicy {
    fn default() -> (policy: Self)
        ensures
            policy@ == Seq::<u64>::empty(),
    {
        LatencyPolicy::new()
    }
}

/// The last [`WINDOW`] elements of `s` (all of them when there are fewer).
pub open spec fn last_window(s: Seq<u64>) -> Seq<u64> {
    if s.len() <= WINDOW {
        s
    } else {
        s.subrange(s.len() - WINDOW, s.len() as int)
    }
}

/// The window after recording `xs` in order.
pub open spec fn record_all(samples: Seq<u64>, xs: Seq<u64>) -> Seq<u64>
    decreases xs.len(),
{
    if xs.len() == 0 {
        samples
    } else {
        record_all(spec_record(samples, xs[0]), xs.drop_first())
    }
}

proof fn lemma_last_window_absorbs(t: Seq<u64>, u: Seq<u64>)
    ensures
        last_window(last_window(t) + u) == last_window(t + u),
{
    assert(last_window(last_window(t) + u) =~= last_window(t + u));
}

/// Recording keeps exactly the most recent [`WINDOW`] samples: the window is always the
/// tail of everything recorded so far.
pub proof fn law_window_is_most_recent_samples(samples: Seq<u64>, xs: Seq<u64>)
    requires
        samples.len() <= WINDOW,
    ensures
        record_all(samples, xs) == last_window(samples + xs),
    decreases xs.len(),
{
    if xs.len() == 0 {
        assert(samples + xs =~= samples);
    } else {
        let next = spec_record(samples, xs[0]);
        assert(next =~= last_window(samples.push(xs[0])));
        law_window_is_most_recent_samples(next, xs.drop_first());
        lemma_last_window_absorbs(samples.push(xs[0]), xs.drop_first());
        assert(samples.push(xs[0]) + xs.drop_first() =~= samples + xs);
    }
}

/// A full window of new samples forgets every older sample, however slow.
pub proof fn law_full_window_forgets_older_samples(samples: Seq<u64>, recent: Seq<u64>)
    requires
        samples.len() <= WINDOW,
        recent.len() == WINDOW,
    ensures
        record_all(samples, recent) == recent,
        spec_timing(record_all(samples, recent)) == spec_timing(recent),
{
    law_window_is_most_recent_samples(samples, recent);
    assert(last_window(samples + recent) =~= recent);
}

/// Whatever the samples, the goal duration stays within 2 to 10 seconds and the answer
/// age limit within 1.5 to 5 seconds.
pub proof fn law_timing_is_bounded(samples: Seq<u64>)
    ensures
        2_000 <= spec_timing(samples).goal_ms <= 10_000,
        1_500 <= spec_timing(samples).max_answer_age_ms <= 5_000,
{
}

/// Before any sample: no percentiles, the shortest goal and a five-second warmup
/// allowance for the first answer.
pub proof fn law_warmup_timing()
    ensures
        spec_timing(Seq::<u64>::empty()) == (Timing {
            p50_ms: None,
            p95_ms: None,
            goal_ms: 2_000,
            max_answer_age_ms: 5_000,
        }),
{
}

/// A reported percentile is one of the recorded samples.
pub proof fn law_percentile_is_a_sample(samples: Seq<u64>, percent: nat)
    requires
        1 <= percent <= 100,
        percentile(samples, percent) is Some,
    ensures
        samples.contains(percentile(samples, percent)->0),
{
    lemma_u64_leq_total();
    samples.lemma_sort_by_ensures(u64_leq());
    let sorted = sorted_samples(samples);
    vstd::seq_lib::to_multiset_len(samples);
    vstd::seq_lib::to_multiset_len(sorted);
    let n = samples.len();
    let rank = percentile_rank(n, percent);
    assert(1 <= rank <= n) by (nonlinear_arith)
        requires
            rank == (n * percent + 99) / 100,
            1 <= n,
            1 <= percent <= 100,
    ;
    let v = sorted[rank - 1];
    assert(sorted.contains(v));
    vstd::seq_lib::to_multiset_contains(sorted, v);
    vstd::seq_lib::to_multiset_contains(samples, v);
}

/// An answer is current exactly when it belongs to the session generation it was
/// requested in and arrived within the limit captured with the request; no sample
/// recorded later enters this decision.
pub proof fn law_generation_change_invalidates_any_answer(
    request_generation: u64,
    session_generation: u64,
    elapsed_ms: u64,
    timing: Timing,
)
    requires
        request_generation != session_generation,
    ensures
        !spec_answer_is_current(request_generation, session_generation, elapsed_ms, timing),
{
}

/// Whether an answer may still be used: same session generation and within the age
/// limit captured when the request was issued.
pub fn answer_is_current(
    request_generation: u64,
    session_generation: u64,
    elapsed_ms: u64,
    timing: Timing,
) -> (r: bool)
    ensures
        r == spec_answer_is_current(request_generation, session_generation, elapsed_ms, timing),
{
    request_generation == session_generation && elapsed_ms <= timing.max_answer_age_ms
}

} // verus!
