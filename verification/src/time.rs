//! Points in time, and the time that a validity window has left.

use vstd::prelude::*;

verus! {

/// The number of nanoseconds in a second.
pub const NANOS_PER_SEC: u32 = 1_000_000_000;

/// A point in time: whole seconds since the Unix epoch, and the nanoseconds
/// since that whole second, which are fewer than a second.
#[derive(Debug, Clone, Copy, PartialEq, Eq)]
pub struct Timestamp {
    secs: i64,
    nanos: u32,
}

/// A span of time that is not negative: whole seconds, and the nanoseconds
/// beyond them, which are fewer than a second.
#[derive(Debug, Clone, Copy, PartialEq, Eq)]
pub struct Duration {
    secs: u64,
    nanos: u32,
}

impl View for Timestamp {
    type V = int;

    /// The nanoseconds since the Unix epoch.
    closed spec fn view(&self) -> int {
        self.secs * NANOS_PER_SEC + self.nanos
    }
}

impl View for Duration {
    type V = nat;

    /// The span in nanoseconds.
    closed spec fn view(&self) -> nat {
        (self.secs * NANOS_PER_SEC + self.nanos) as nat
    }
}

impl Timestamp {
    #[verifier::type_invariant]
    spec fn well_formed(self) -> bool {
        self.nanos < NANOS_PER_SEC
    }

    /// The point in time `nanos` nanoseconds after the whole second `secs`,
    /// or `None` if `nanos` is a second or more.
    pub fn new(secs: i64, nanos: u32) -> (res: Option<Timestamp>)
        ensures
            res is Some <==> nanos < NANOS_PER_SEC,
            res matches Some(t) ==> t@ == secs * NANOS_PER_SEC + nanos,
    {
        if nanos < NANOS_PER_SEC {
            Some(Timestamp { secs, nanos })
        } else {
            None
        }
    }

    /// The whole seconds since the Unix epoch: the point in time, rounded down.
    pub fn timestamp(&self) -> (secs: i64)
        ensures
            secs == self@ / (NANOS_PER_SEC as int),
    {
        proof {
            use_type_invariant(self);
        }
        self.secs
    }

    /// The nanoseconds since the last whole second.
    pub fn timestamp_subsec_nanos(&self) -> (nanos: u32)
        ensures
            nanos == self@ % (NANOS_PER_SEC as int),
            nanos < NANOS_PER_SEC,
    {
        proof {
            use_type_invariant(self);
        }
        self.nanos
    }

    /// Whether this point in time lies before `other`.
    pub fn is_before(&self, other: &Timestamp) -> (before: bool)
        ensures
            before == (self@ < other@),
    {
        proof {
            use_type_invariant(self);
            use_type_invariant(other);
        }
        self.secs < other.secs || (self.secs == other.secs && self.nanos < other.nanos)
    }
}

impl Duration {
    #[verifier::type_invariant]
    spec fn well_formed(self) -> bool {
        self.nanos < NANOS_PER_SEC
    }

    /// The span of `secs` seconds and `nanos` nanoseconds, or `None` if
    /// `nanos` is a second or more.
    pub fn new(secs: u64, nanos: u32) -> (res: Option<Duration>)
        ensures
            res is Some <==> nanos < NANOS_PER_SEC,
            res matches Some(d) ==> d@ == secs * NANOS_PER_SEC + nanos,
    {
        if nanos < NANOS_PER_SEC {
            Some(Duration { secs, nanos })
        } else {
            None
        }
    }

    /// The whole seconds of the span.
    pub fn as_secs(&self) -> (secs: u64)
        ensures
            secs == self@ / (NANOS_PER_SEC as nat),
    {
        proof {
            use_type_invariant(self);
        }
        self.secs
    }

    /// The nanoseconds beyond the whole seconds.
    pub fn subsec_nanos(&self) -> (nanos: u32)
        ensures
            nanos == self@ % (NANOS_PER_SEC as nat),
            nanos < NANOS_PER_SEC,
    {
        proof {
            use_type_invariant(self);
        }
        self.nanos
    }
}

/// The window of time in which a certificate is valid.
///
/// The window may be empty or inverted (`not_after` before `not_before`):
/// such a certificate is never valid.
#[derive(Debug, Clone, Copy, PartialEq, Eq)]
pub struct Validity {
    pub not_before: Timestamp,
    pub not_after: Timestamp,
}

/// The time that is left at `now` of the window from `not_before` to
/// `not_after`, all three in nanoseconds since the epoch.
///
/// Nothing is left before the window opens. Nothing is left once the whole
/// second of `now` has reached the whole second of `not_after`: the last
/// second of the window counts as expired. Else what is left is the span from
/// `now` to `not_after`.
pub open spec fn remaining_at(not_before: int, not_after: int, now: int) -> Option<nat> {
    if now < not_before {
        None
    } else if now / (NANOS_PER_SEC as int) >= not_after / (NANOS_PER_SEC as int) {
        None
    } else {
        Some((not_after - now) as nat)
    }
}

impl Validity {
    /// The time left before the certificate expires, where `now` is the
    /// present time as the caller has read it from a clock.
    ///
    /// `None` is returned if the certificate is not valid at `now`: before
    /// `not_before`, or once the whole second of `now` has reached that of
    /// `not_after`. A window that is empty or inverted leaves nothing at any
    /// time. Nothing is kept from one call to the next.
    pub fn time_to_expiration(&self, now: &Timestamp) -> (left: Option<Duration>)
        ensures
            left is Some <==> remaining_at(self.not_before@, self.not_after@, now@) is Some,
            left matches Some(d) ==> remaining_at(self.not_before@, self.not_after@, now@) == Some(
                d@,
            ),
            self.not_after@ <= self.not_before@ ==> left is None,
            now@ < self.not_before@ ==> left is None,
            now@ / (NANOS_PER_SEC as int) >= self.not_after@ / (NANOS_PER_SEC as int) ==> left
                is None,
            (self.not_before@ <= now@ && now@ / (NANOS_PER_SEC as int) < self.not_after@ / (
            NANOS_PER_SEC as int)) ==> (left matches Some(d) && d@ == self.not_after@ - now@ && d@
                > 0),
    {
        if now.is_before(&self.not_before) {
            return None;
        }
        let now_secs = now.timestamp();
        let end_secs = self.not_after.timestamp();
        if now_secs >= end_secs {
            return None;
        }
        let now_nanos = now.timestamp_subsec_nanos();
        let end_nanos = self.not_after.timestamp_subsec_nanos();
        let whole: i128 = end_secs as i128 - now_secs as i128;
        let (secs, nanos): (u64, u32) = if end_nanos >= now_nanos {
            (whole as u64, end_nanos - now_nanos)
        } else {
            ((whole - 1) as u64, NANOS_PER_SEC - now_nanos + end_nanos)
        };
        Duration::new(secs, nanos)
    }
}

} // verus!
