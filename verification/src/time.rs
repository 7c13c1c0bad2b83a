//! Spans of time.

use core::cmp::Ordering;
use vstd::prelude::*;

verus! {

/// The longest span, in nanoseconds: `u64::MAX` seconds and 999 999 999 nanoseconds.
pub const MAX_NANOS: u128 = 18_446_744_073_709_551_615_999_999_999;

/// A span of time with nanosecond resolution, with the range of `core::time::Duration`.
#[derive(Debug, Clone, Copy, PartialEq, Eq, Structural)]
pub struct Duration {
    nanos: u128,
}

impl View for Duration {
    type V = int;

    /// The number of nanoseconds.
    closed spec fn view(&self) -> int {
        self.nanos as int
    }
}

impl Duration {
    #[verifier::type_invariant]
    spec fn in_range(self) -> bool {
        self.nanos <= MAX_NANOS
    }

    /// The span of `nanos` nanoseconds.
    pub closed spec fn of_nanos(nanos: int) -> Duration {
        Duration { nanos: nanos as u128 }
    }

    /// The span of `millis` milliseconds.
    pub open spec fn of_millis(millis: int) -> Duration {
        Duration::of_nanos(millis * 1_000_000)
    }

    /// A span is given by its number of nanoseconds.
    pub broadcast proof fn lemma_view_of_nanos(nanos: int)
        requires
            0 <= nanos <= MAX_NANOS,
        ensures
            (#[trigger] Duration::of_nanos(nanos))@ == nanos,
    {
    }

    /// A span is not negative.
    pub proof fn lemma_not_negative(self)
        ensures
            self@ >= 0,
    {
    }

    /// A span of `secs` whole seconds and `nanos` further nanoseconds.
    pub fn new(secs: u64, nanos: u32) -> (r: Duration)
        requires
            nanos < 1_000_000_000,
        ensures
            r@ == secs * 1_000_000_000 + nanos,
            r == Duration::of_nanos(secs * 1_000_000_000 + nanos),
    {
        Duration { nanos: secs as u128 * 1_000_000_000 + nanos as u128 }
    }

    /// A span of `micros` microseconds.
    pub fn from_micros(micros: u64) -> (r: Duration)
        ensures
            r@ == micros * 1_000,
            r == Duration::of_nanos(micros * 1_000),
    {
        Duration { nanos: micros as u128 * 1_000 }
    }

    /// A span of `millis` milliseconds.
    pub fn from_millis(millis: u64) -> (r: Duration)
        ensures
            r@ == millis * 1_000_000,
            r == Duration::of_millis(millis as int),
    {
        Duration { nanos: millis as u128 * 1_000_000 }
    }

    /// The number of nanoseconds.
    pub fn as_nanos(&self) -> (r: u128)
        ensures
            r == self@,
            r <= MAX_NANOS,
    {
        proof {
            use_type_invariant(self);
        }
        self.nanos
    }

    /// `self - other`, or `None` where `other` is longer.
    pub fn checked_sub(self, other: Duration) -> (r: Option<Duration>)
        ensures
            r == (if self@ >= other@ {
                Some(Duration::of_nanos(self@ - other@))
            } else {
                None
            }),
            r matches Some(d) ==> d@ == self@ - other@,
    {
        proof {
            use_type_invariant(&self);
        }
        if self.nanos >= other.nanos {
            Some(Duration { nanos: self.nanos - other.nanos })
        } else {
            None
        }
    }

    /// The shorter of two spans.
    pub fn min(self, other: Duration) -> (r: Duration)
        ensures
            r == (if self@ <= other@ { self } else { other }),
    {
        if self.nanos <= other.nanos {
            self
        } else {
            other
        }
    }
}

impl PartialOrd for Duration {
    fn partial_cmp(&self, other: &Duration) -> (r: Option<Ordering>) {
        if self.nanos < other.nanos {
            Some(Ordering::Less)
        } else if self.nanos == other.nanos {
            Some(Ordering::Equal)
        } else {
            Some(Ordering::Greater)
        }
    }
}

impl vstd::std_specs::cmp::PartialOrdSpecImpl for Duration {
    open spec fn obeys_partial_cmp_spec() -> bool {
        true
    }

    open spec fn partial_cmp_spec(&self, other: &Duration) -> Option<Ordering> {
        if self@ < other@ {
            Some(Ordering::Less)
        } else if self@ == other@ {
            Some(Ordering::Equal)
        } else {
            Some(Ordering::Greater)
        }
    }
}

} // verus!
