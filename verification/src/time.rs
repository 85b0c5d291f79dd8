//! Monotonic instants and the span search used to place a timestamp among
//! timezone transition records.

use vstd::prelude::*;

use core::cmp::Ordering;

verus! {

/// The rank of an ordering outcome: Less below Equal below Greater.
pub open spec fn spec_ord_rank(o: Ordering) -> int {
    match o {
        Ordering::Less => 0,
        Ordering::Equal => 1,
        Ordering::Greater => 2,
    }
}

/// Whether a comparer is monotone on `[start, end)`: any two outcomes it
/// can give at positions `i <= j` are ranked `i`'s at or below `j`'s. At
/// `i == j` this also makes the outcome's rank unique.
pub open spec fn spec_monotone_on<F: Fn(usize) -> Ordering>(
    cmp: F,
    start: int,
    end: int,
) -> bool {
    forall|i: usize, j: usize, oi: Ordering, oj: Ordering|
        start <= i <= j < end && #[trigger] call_ensures(cmp, (i,), oi) && #[trigger] call_ensures(
            cmp,
            (j,),
            oj,
        ) ==> spec_ord_rank(oi) <= spec_ord_rank(oj)
}

/// Searches `[start, end)` for a position the comparer calls equal,
/// halving the range each step. A found position lies in the range and was
/// reported equal by the comparer; the comparer is consulted nowhere
/// outside the range. Under a monotone comparer the search is also
/// complete: nothing found means no position in the range can compare
/// equal, so it finds an equal position exactly when one exists.
pub fn binary_search<F: Fn(usize) -> Ordering>(start: usize, end: usize, cmp: F) -> (r: Option<
    usize,
>)
    requires
        forall|i: usize| start <= i < end ==> call_requires(cmp, (i,)),
    ensures
        r matches Some(i) ==> start <= i < end && call_ensures(cmp, (i,), Ordering::Equal),
        (spec_monotone_on(cmp, start as int, end as int) && r is None) ==> forall|
            i: usize,
            o: Ordering,
        |
            start <= i < end && #[trigger] call_ensures(cmp, (i,), o) ==> o != Ordering::Equal,
    decreases end - start,
{
    if start >= end {
        return None;
    }
    let half = (end - start) / 2;
    let mid = start + half;
    match cmp(mid) {
        Ordering::Greater => {
            let r = binary_search(start, mid, cmp);
            proof {
                if spec_monotone_on(cmp, start as int, end as int) && r is None {
                    assert(call_ensures(cmp, (mid,), Ordering::Greater));
                    assert forall|i: usize, o: Ordering|
                        start <= i < end && #[trigger] call_ensures(cmp, (i,), o) implies o
                        != Ordering::Equal by {
                        if i >= mid {
                            assert(spec_ord_rank(Ordering::Greater) <= spec_ord_rank(o));
                        }
                    }
                }
            }
            r
        },
        Ordering::Equal => Some(mid),
        Ordering::Less => {
            let r = binary_search(mid + 1, end, cmp);
            proof {
                if spec_monotone_on(cmp, start as int, end as int) && r is None {
                    assert(call_ensures(cmp, (mid,), Ordering::Less));
                    assert forall|i: usize, o: Ordering|
                        start <= i < end && #[trigger] call_ensures(cmp, (i,), o) implies o
                        != Ordering::Equal by {
                        if i <= mid {
                            assert(spec_ord_rank(o) <= spec_ord_rank(Ordering::Less));
                        }
                    }
                }
            }
            r
        },
    }
}

/// A half-open span of timestamps, either bound possibly missing.
pub struct Span {
    start: Option<i64>,
    end: Option<i64>,
}

/// Where a timestamp stands relative to a span: inside is equal, past the
/// end is less, before the start is greater; a missing bound never
/// excludes.
pub open spec fn spec_span_cmp(start: Option<i64>, end: Option<i64>, x: i64) -> Ordering {
    match (start, end) {
        (Some(a), Some(b)) => if a <= x && x < b {
            Ordering::Equal
        } else if a <= x && b <= x {
            Ordering::Less
        } else {
            Ordering::Greater
        },
        (Some(a), None) => if a <= x {
            Ordering::Equal
        } else {
            Ordering::Greater
        },
        (None, Some(b)) => if b <= x {
            Ordering::Less
        } else {
            Ordering::Equal
        },
        (None, None) => Ordering::Equal,
    }
}

impl Span {
    /// The lower bound, if any.
    pub closed spec fn start_view(&self) -> Option<i64> {
        self.start
    }

    /// The upper bound, if any.
    pub closed spec fn end_view(&self) -> Option<i64> {
        self.end
    }

    /// A span between two optional bounds.
    pub fn new(start: Option<i64>, end: Option<i64>) -> (r: Span)
        ensures
            r.start_view() == start,
            r.end_view() == end,
    {
        Span { start, end }
    }

    /// Compares a timestamp against this span, exactly as
    /// `spec_span_cmp` says.
    pub fn cmp(&self, x: i64) -> (r: Ordering)
        ensures
            r == spec_span_cmp(self.start_view(), self.end_view(), x),
    {
        match (self.start, self.end) {
            (Some(a), Some(b)) => if a <= x && x < b {
                Ordering::Equal
            } else if a <= x && b <= x {
                Ordering::Less
            } else {
                Ordering::Greater
            },
            (Some(a), None) => if a <= x {
                Ordering::Equal
            } else {
                Ordering::Greater
            },
            (None, Some(b)) => if b <= x {
                Ordering::Less
            } else {
                Ordering::Equal
            },
            (None, None) => Ordering::Equal,
        }
    }
}

/// The monotonic clock of the operating system; a value of it is opaque.
#[verifier::external_type_specification]
#[verifier::external_body]
pub struct ExStdInstant(std::time::Instant);

/// A reading of the monotonic clock.
pub struct Instant(std::time::Instant);

impl Instant {
    /// Relies on std's `Instant::now`: a fresh reading of the monotonic
    /// clock, about which nothing can be promised.
    #[verifier::external_body]
    pub fn now() -> Instant {
        Instant(std::time::Instant::now())
    }

    /// Relies on std's `Instant::elapsed`: the time since this reading,
    /// which depends on when the call happens.
    #[verifier::external_body]
    pub fn elapsed(&self) -> core::time::Duration {
        self.0.elapsed()
    }
}

} // verus!
