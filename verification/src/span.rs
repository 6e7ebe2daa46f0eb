//! Lengths of time.

use vstd::prelude::*;

verus! {

/// Nanoseconds in one second.
pub const NANOS_PER_SEC: u32 = 1_000_000_000;

/// Nanoseconds in one millisecond.
pub const NANOS_PER_MILLI: u32 = 1_000_000;

/// A length of time, to the nanosecond.
///
/// Points in time are spans too: the time that has passed since an origin
/// which the caller picks once and keeps, such as the start of the process.
/// The view is the number of nanoseconds.
#[derive(Clone, Copy, Debug)]
pub struct Span {
    secs: u64,
    nanos: u32,
}

impl View for Span {
    type V = nat;

    closed spec fn view(&self) -> nat {
        (self.secs * NANOS_PER_SEC + self.nanos) as nat
    }
}

impl Span {
    #[verifier::type_invariant]
    spec fn nanos_below_one_second(self) -> bool {
        self.nanos < NANOS_PER_SEC
    }

    /// A span of whole seconds plus a fraction given in nanoseconds.
    pub fn new(secs: u64, subsec_nanos: u32) -> (span: Span)
        requires
            subsec_nanos < NANOS_PER_SEC,
        ensures
            span@ == secs * NANOS_PER_SEC + subsec_nanos,
    {
        Span { secs, nanos: subsec_nanos }
    }

    /// A span of whole seconds.
    pub fn from_secs(secs: u64) -> (span: Span)
        ensures
            span@ == secs * NANOS_PER_SEC,
    {
        Span { secs, nanos: 0 }
    }

    /// A span of whole milliseconds.
    pub fn from_millis(millis: u64) -> (span: Span)
        ensures
            span@ == millis * NANOS_PER_MILLI,
    {
        Span { secs: millis / 1000, nanos: ((millis % 1000) as u32) * NANOS_PER_MILLI }
    }

    /// The whole seconds in the span.
    pub fn as_secs(&self) -> (secs: u64)
        ensures
            secs == self@ / NANOS_PER_SEC as nat,
    {
        proof {
            use_type_invariant(self);
        }
        self.secs
    }

    /// The span in nanoseconds.
    pub fn as_nanos(&self) -> (nanos: u128)
        ensures
            nanos == self@,
    {
        let whole: u128 = self.secs as u128 * 1_000_000_000u128;
        whole + self.nanos as u128
    }

    /// The time `other` after `self`.
    pub fn plus(&self, other: Span) -> (sum: Span)
        requires
            self@ + other@ <= max_span(),
        ensures
            sum@ == self@ + other@,
    {
        proof {
            use_type_invariant(self);
            use_type_invariant(&other);
        }
        let nanos: u32 = self.nanos + other.nanos;
        if nanos >= NANOS_PER_SEC {
            Span { secs: self.secs + other.secs + 1, nanos: nanos - NANOS_PER_SEC }
        } else {
            Span { secs: self.secs + other.secs, nanos }
        }
    }

    /// The time from `earlier` to `self`, or none if `earlier` is later.
    pub fn since(&self, earlier: Span) -> (elapsed: Span)
        ensures
            elapsed@ == if self@ > earlier@ {
                (self@ - earlier@) as nat
            } else {
                0
            },
    {
        proof {
            use_type_invariant(self);
            use_type_invariant(&earlier);
        }
        if self.secs < earlier.secs || (self.secs == earlier.secs && self.nanos <= earlier.nanos) {
            Span { secs: 0, nanos: 0 }
        } else if self.nanos >= earlier.nanos {
            Span { secs: self.secs - earlier.secs, nanos: self.nanos - earlier.nanos }
        } else {
            Span {
                secs: self.secs - earlier.secs - 1,
                nanos: self.nanos + NANOS_PER_SEC - earlier.nanos,
            }
        }
    }

    /// Whether there is nothing of it.
    pub fn is_zero(&self) -> (zero: bool)
        ensures
            zero == (self@ == 0),
    {
        self.secs == 0 && self.nanos == 0
    }

    /// Whether less than `limit` has passed at time `now` since the time
    /// `self`. A `now` before `self` counts as no time passed.
    pub fn is_younger_than(&self, limit: Span, now: Span) -> (younger: bool)
        ensures
            younger == younger_than(self@, limit@, now@),
    {
        let start: u128 = self.as_nanos();
        let end: u128 = now.as_nanos();
        let elapsed: u128 = if end > start {
            end - start
        } else {
            0
        };
        elapsed < limit.as_nanos()
    }
}

/// The longest span that there is, in nanoseconds.
pub open spec fn max_span() -> nat {
    (u64::MAX * NANOS_PER_SEC + NANOS_PER_SEC - 1) as nat
}

/// Whether less than `limit` has passed between `since` and `now`.
pub open spec fn younger_than(since: nat, limit: nat, now: nat) -> bool {
    if now > since {
        now - since < limit
    } else {
        0 < limit
    }
}

} // verus!
