//! Spans of time, to the nanosecond.
use vstd::prelude::*;

verus! {

/// A span of time, or a point in time as the span since the clock's start.
#[derive(Clone, Copy, Debug, PartialEq, Eq)]
pub struct Duration {
    nanos: u128,
}

/// Nanoseconds in a second.
pub const NANOS_PER_SEC: u128 = 1_000_000_000;

impl Duration {
    /// The length in nanoseconds.
    pub closed spec fn nanoseconds(&self) -> nat {
        self.nanos as nat
    }

    /// The whole seconds.
    pub open spec fn seconds(&self) -> nat {
        self.nanoseconds() / 1_000_000_000
    }

    /// The whole seconds fit a `u64`.
    #[verifier::type_invariant]
    closed spec fn fits(self) -> bool {
        self.nanos < 18_446_744_073_709_551_616_000_000_000
    }

    pub fn from_secs(secs: u64) -> (d: Self)
        ensures
            d.nanoseconds() == secs * 1_000_000_000,
            d.seconds() == secs,
    {
        Duration { nanos: secs as u128 * NANOS_PER_SEC }
    }

    pub fn from_millis(millis: u64) -> (d: Self)
        ensures
            d.nanoseconds() == millis * 1_000_000,
    {
        Duration { nanos: millis as u128 * 1_000_000 }
    }

    /// A span of `secs` seconds and `nanos` nanoseconds.
    pub fn new(secs: u64, nanos: u32) -> (d: Self)
        requires
            nanos < 1_000_000_000,
        ensures
            d.nanoseconds() == secs * 1_000_000_000 + nanos,
            d.seconds() == secs,
    {
        Duration { nanos: secs as u128 * NANOS_PER_SEC + nanos as u128 }
    }

    /// The whole seconds.
    pub fn as_secs(&self) -> (secs: u64)
        ensures
            secs == self.seconds(),
    {
        proof {
            use_type_invariant(*self);
        }
        (self.nanos / NANOS_PER_SEC) as u64
    }

    /// Whether this span is shorter than `other`.
    pub fn is_shorter_than(&self, other: &Duration) -> (b: bool)
        ensures
            b == (self.nanoseconds() < other.nanoseconds()),
    {
        self.nanos < other.nanos
    }

    /// The span from the earlier point `since` to this one; nothing where `since` is later.
    pub fn elapsed_since(&self, since: &Duration) -> (d: Self)
        ensures
            d.nanoseconds() == elapsed(since.nanoseconds(), self.nanoseconds()),
    {
        proof {
            use_type_invariant(*self);
        }
        if self.nanos < since.nanos {
            Duration { nanos: 0 }
        } else {
            Duration { nanos: self.nanos - since.nanos }
        }
    }
}

/// The time from `since` to `now`; nothing where `since` is later.
pub open spec fn elapsed(since: nat, now: nat) -> nat {
    if now < since {
        0
    } else {
        (now - since) as nat
    }
}

/// The time that has passed since an earlier point, added to that point, gives the present one;
/// since a later point nothing has passed.
pub proof fn law_elapsed_time_leads_to_now(since: nat, passed: nat)
    ensures
        elapsed(since, since + passed) == passed,
        elapsed(since + passed, since) == 0,
{
}

/// A second is a thousand milliseconds, and the whole seconds of a span are as many as fit into it.
pub proof fn law_a_second_is_a_thousand_milliseconds(
    secs: u64,
    millis: u64,
    a: Duration,
    b: Duration,
    shown: u64,
    shorter: bool,
)
    requires
        call_ensures(Duration::from_secs, (secs,), a),
        call_ensures(Duration::from_millis, (millis,), b),
        call_ensures(Duration::as_secs, (&b,), shown),
        call_ensures(Duration::is_shorter_than, (&a, &b), shorter),
    ensures
        millis == secs * 1000 ==> a.nanoseconds() == b.nanoseconds(),
        shown * 1000 <= millis < (shown + 1) * 1000,
        shorter <==> secs * 1000 < millis,
{
}

} // verus!
