//! Spans of time, and points in time measured from the start of a run.
use vstd::prelude::*;

verus! {

/// The longest span that can be represented, in nanoseconds: `u64::MAX`
/// seconds and 999 999 999 nanoseconds.
pub const MAX_NANOS: u128 = 18_446_744_073_709_551_615_999_999_999;

/// A span of time. A point in time is the span since the run started.
#[derive(Debug, Clone, Copy, PartialEq, Eq, Structural)]
pub struct Duration {
    pub nanos: u128,
}

impl Duration {
    /// The empty span.
    pub fn zero() -> (d: Duration)
        ensures
            d.nanos == 0,
    {
        Duration { nanos: 0 }
    }

    pub fn from_millis(millis: u64) -> (d: Duration)
        ensures
            d.nanos == millis * 1_000_000,
            d.nanos <= MAX_NANOS,
    {
        Duration { nanos: (millis as u128) * 1_000_000 }
    }

    pub fn from_micros(micros: u64) -> (d: Duration)
        ensures
            d.nanos == micros * 1_000,
            d.nanos <= MAX_NANOS,
    {
        Duration { nanos: (micros as u128) * 1_000 }
    }

    /// The whole milliseconds of this span.
    pub fn as_millis(self) -> (millis: u128)
        ensures
            millis == self.nanos / 1_000_000,
    {
        self.nanos / 1_000_000
    }

    /// The span from `earlier` to this point in time, or the empty span if
    /// `earlier` is the later of the two.
    pub fn since(self, earlier: Duration) -> (d: Duration)
        ensures
            d.nanos == elapsed_nanos(self, earlier),
            earlier.nanos <= self.nanos ==> earlier.nanos + d.nanos == self.nanos,
            earlier.nanos > self.nanos ==> d.nanos == 0,
    {
        if self.nanos >= earlier.nanos {
            Duration { nanos: self.nanos - earlier.nanos }
        } else {
            Duration { nanos: 0 }
        }
    }

    /// This span followed by `other`.
    pub fn plus(self, other: Duration) -> (d: Duration)
        requires
            self.nanos + other.nanos <= MAX_NANOS,
        ensures
            d.nanos == self.nanos + other.nanos,
    {
        Duration { nanos: self.nanos + other.nanos }
    }
}

/// Nanoseconds from `earlier` to `later`, never below zero.
pub open spec fn elapsed_nanos(later: Duration, earlier: Duration) -> nat {
    if later.nanos >= earlier.nanos {
        (later.nanos - earlier.nanos) as nat
    } else {
        0
    }
}

/// The nanoseconds of all spans in `spans` together.
pub open spec fn total_nanos(spans: Seq<Duration>) -> nat
    decreases spans.len(),
{
    if spans.len() == 0 {
        0
    } else {
        total_nanos(spans.drop_last()) + spans.last().nanos as nat
    }
}

/// The total over a prefix is at most the total over the whole.
pub proof fn lemma_total_nanos_prefix(spans: Seq<Duration>, n: int)
    requires
        0 <= n <= spans.len(),
    ensures
        total_nanos(spans.take(n)) <= total_nanos(spans),
    decreases spans.len(),
{
    if n == spans.len() {
        assert(spans.take(n) =~= spans);
    } else {
        lemma_total_nanos_prefix(spans.drop_last(), n);
        assert(spans.drop_last().take(n) =~= spans.take(n));
    }
}

/// The total of `spans`, or `None` if it exceeds the longest span.
pub fn checked_sum(spans: &[Duration]) -> (total: Option<Duration>)
    ensures
        total is Some <==> total_nanos(spans@) <= MAX_NANOS,
        total matches Some(d) ==> d.nanos == total_nanos(spans@),
{
    let mut nanos: u128 = 0;
    for i in 0..spans.len()
        invariant
            nanos == total_nanos(spans@.take(i as int)),
            nanos <= MAX_NANOS,
    {
        proof {
            assert(spans@.take(i + 1).drop_last() =~= spans@.take(i as int));
            lemma_total_nanos_prefix(spans@, i + 1);
        }
        let next: u128 = spans[i].nanos;
        if next > MAX_NANOS - nanos {
            return None;
        }
        nanos = nanos + next;
    }
    assert(spans@.take(spans@.len() as int) =~= spans@);
    Some(Duration { nanos })
}

/// The total of `spans`.
pub fn sum(spans: &[Duration]) -> (total: Duration)
    requires
        total_nanos(spans@) <= MAX_NANOS,
    ensures
        total.nanos == total_nanos(spans@),
{
    match checked_sum(spans) {
        Some(total) => total,
        None => Duration { nanos: 0 },
    }
}

/// The time elapsed is what takes the earlier point in time to the later one;
/// nothing has elapsed towards a point that lies behind.
pub proof fn law_elapsed_time_spans_the_gap(later: Duration, earlier: Duration)
    ensures
        earlier.nanos <= later.nanos ==> earlier.nanos + elapsed_nanos(later, earlier)
            == later.nanos,
        earlier.nanos >= later.nanos ==> elapsed_nanos(later, earlier) == 0,
{
}

/// Totals add up: over a single span the total is that span, and over two lists
/// together it is the sum of theirs.
pub proof fn law_totals_add_up(span: Duration, a: Seq<Duration>, b: Seq<Duration>)
    ensures
        total_nanos(Seq::<Duration>::empty()) == 0,
        total_nanos(seq![span]) == span.nanos,
        total_nanos(a + b) == total_nanos(a) + total_nanos(b),
    decreases b.len(),
{
    assert(seq![span].drop_last() =~= Seq::<Duration>::empty());
    assert(total_nanos(seq![span].drop_last()) == 0);
    if b.len() == 0 {
        assert(a + b =~= a);
    } else {
        law_totals_add_up(span, a, b.drop_last());
        assert((a + b).drop_last() =~= a + b.drop_last());
    }
}

/// A total can be represented exactly if it takes at most `u64::MAX` seconds and
/// 999 999 999 nanoseconds.
pub proof fn law_longest_span()
    ensures
        MAX_NANOS == u64::MAX * 1_000_000_000 + 999_999_999,
{
}

} // verus!
