//! Spans of time and moments in time.

use vstd::prelude::*;

verus! {

/// The nanoseconds of a second.
pub const NANOS_PER_SEC: u32 = 1_000_000_000;

/// A span of time, in seconds and nanoseconds.
///
/// Its view is the number of nanoseconds.
#[derive(Clone, Copy, Debug, PartialEq, Eq, PartialOrd, Ord, Structural)]
pub struct Duration {
    secs: u64,
    nanos: u32,
}

impl View for Duration {
    type V = nat;

    closed spec fn view(&self) -> nat {
        (self.secs * NANOS_PER_SEC + self.nanos) as nat
    }
}

/// The number of nanoseconds of the longest [`Duration`].
pub open spec fn longest() -> nat {
    ((u64::MAX + 1) * NANOS_PER_SEC - 1) as nat
}

impl Duration {
    /// The nanoseconds do not make up a second.
    #[verifier::type_invariant]
    spec fn well_formed(self) -> bool {
        self.nanos < NANOS_PER_SEC
    }

    /// The span of `secs` seconds and `nanos` nanoseconds. Nanoseconds that make up seconds are
    /// carried over.
    pub fn new(secs: u64, nanos: u32) -> (r: Self)
        requires
            secs + nanos / NANOS_PER_SEC <= u64::MAX,
        ensures
            r@ == secs * NANOS_PER_SEC + nanos,
    {
        Duration { secs: secs + (nanos / NANOS_PER_SEC) as u64, nanos: nanos % NANOS_PER_SEC }
    }

    /// The span of `secs` seconds.
    pub fn from_secs(secs: u64) -> (r: Self)
        ensures
            r@ == secs * NANOS_PER_SEC,
    {
        Duration { secs, nanos: 0 }
    }

    /// No time at all.
    pub fn zero() -> (r: Self)
        ensures
            r@ == 0,
    {
        Duration { secs: 0, nanos: 0 }
    }

    /// The whole seconds.
    pub fn as_secs(&self) -> (r: u64)
        ensures
            r == self@ / NANOS_PER_SEC as nat,
    {
        proof {
            use_type_invariant(self);
        }
        self.secs
    }

    /// The nanoseconds beyond the whole seconds.
    pub fn subsec_nanos(&self) -> (r: u32)
        ensures
            r == self@ % NANOS_PER_SEC as nat,
    {
        proof {
            use_type_invariant(self);
        }
        self.nanos
    }

    /// Whether this is no time at all.
    pub fn is_zero(&self) -> (r: bool)
        ensures
            r == (self@ == 0),
    {
        self.secs == 0 && self.nanos == 0
    }

    /// Half of the span, rounded down to a nanosecond.
    pub fn half(self) -> (r: Self)
        ensures
            r@ == self@ / 2,
    {
        proof {
            use_type_invariant(&self);
        }
        let carried: u32 = if self.secs % 2 == 0 {
            0
        } else {
            NANOS_PER_SEC / 2
        };
        Duration { secs: self.secs / 2, nanos: carried + self.nanos / 2 }
    }

    /// The longer of the two spans.
    pub fn max(self, other: Self) -> (r: Self)
        ensures
            r@ == if self@ < other@ {
                other@
            } else {
                self@
            },
    {
        proof {
            use_type_invariant(&self);
            use_type_invariant(&other);
        }
        if self.secs < other.secs || (self.secs == other.secs && self.nanos < other.nanos) {
            other
        } else {
            self
        }
    }

    /// The two spans together, or the longest span where that is longer.
    pub fn saturating_add(self, other: Self) -> (r: Self)
        ensures
            r@ == if self@ + other@ <= longest() {
                self@ + other@
            } else {
                longest()
            },
    {
        proof {
            use_type_invariant(&self);
            use_type_invariant(&other);
        }
        let nanos: u32 = self.nanos + other.nanos;
        let carry: u64 = (nanos / NANOS_PER_SEC) as u64;
        let room: u64 = u64::MAX - self.secs;
        if other.secs > room || carry > room - other.secs {
            Duration { secs: u64::MAX, nanos: NANOS_PER_SEC - 1 }
        } else {
            Duration { secs: self.secs + other.secs + carry, nanos: nanos % NANOS_PER_SEC }
        }
    }

    /// This span less the other one, or no time at all where the other one is longer.
    pub fn saturating_sub(self, other: Self) -> (r: Self)
        ensures
            r@ == if self@ >= other@ {
                self@ - other@
            } else {
                0
            },
    {
        proof {
            use_type_invariant(&self);
            use_type_invariant(&other);
        }
        if self.secs < other.secs || (self.secs == other.secs && self.nanos < other.nanos) {
            Duration::zero()
        } else if self.nanos >= other.nanos {
            Duration { secs: self.secs - other.secs, nanos: self.nanos - other.nanos }
        } else {
            Duration {
                secs: self.secs - other.secs - 1,
                nanos: self.nanos + (NANOS_PER_SEC - other.nanos),
            }
        }
    }
}

/// A moment in time, told by how far it lies from the start of 1970 (UTC).
///
/// Its view is the number of nanoseconds since then, negative for what was earlier.
#[derive(Clone, Copy, Debug, PartialEq, Eq)]
pub enum SystemTime {
    /// That long after the start of 1970.
    SinceEpoch(Duration),
    /// That long before the start of 1970.
    BeforeEpoch(Duration),
}

impl View for SystemTime {
    type V = int;

    open spec fn view(&self) -> int {
        match *self {
            SystemTime::SinceEpoch(d) => d@ as int,
            SystemTime::BeforeEpoch(d) => -(d@ as int),
        }
    }
}

/// How long after `now` the moment lies that is `secs` seconds after the start of 1970. It is no
/// time at all where that moment has passed.
pub open spec fn nanos_until(secs: nat, now: int) -> nat {
    let ahead = secs * NANOS_PER_SEC - now;
    if ahead <= 0 {
        0
    } else if ahead <= longest() {
        ahead as nat
    } else {
        longest()
    }
}

/// How long after `now` the moment lies that is `secs` seconds after the start of 1970.
pub fn duration_until(secs: u64, now: SystemTime) -> (r: Duration)
    ensures
        r@ == nanos_until(secs as nat, now@),
{
    let when = Duration::from_secs(secs);
    match now {
        SystemTime::SinceEpoch(d) => when.saturating_sub(d),
        SystemTime::BeforeEpoch(d) => when.saturating_add(d),
    }
}

/// Whether `now` is a moment that the system clock can read, in nanoseconds since the start of 1970.
///
/// Which moments these are is known to this module alone. Elsewhere a moment is known to be one only
/// where it comes from the clock, so that a time that is counted from such a moment is counted from
/// what the clock reads.
pub closed spec fn is_clock_reading(now: int) -> bool {
    -longest() <= now <= longest()
}

/// `SystemTime::now` of the standard library: what the system clock says. Which moment that is
/// stays open.
#[verifier::external_body]
pub(crate) fn now() -> (r: SystemTime)
    ensures
        is_clock_reading(r@),
{
    match std::time::SystemTime::now().duration_since(std::time::UNIX_EPOCH) {
        Ok(d) => SystemTime::SinceEpoch(Duration { secs: d.as_secs(), nanos: d.subsec_nanos() }),
        Err(e) => SystemTime::BeforeEpoch(
            Duration { secs: e.duration().as_secs(), nanos: e.duration().subsec_nanos() },
        ),
    }
}

/// What lies ahead is what is between the two moments; what has passed lies no time ahead; and what
/// is further ahead than the longest span lies that far.
pub proof fn law_until(secs: nat, now: int)
    ensures
        secs * 1_000_000_000 <= now ==> nanos_until(secs, now) == 0,
        0 < secs * 1_000_000_000 - now < 18_446_744_073_709_551_616_000_000_000int ==> nanos_until(
            secs,
            now,
        ) == secs * 1_000_000_000 - now,
        secs * 1_000_000_000 - now >= 18_446_744_073_709_551_616_000_000_000int ==> nanos_until(
            secs,
            now,
        ) == 18_446_744_073_709_551_615_999_999_999int,
{
}

/// Moments after the start of 1970 count up from it, and those before it count down.
pub proof fn law_moments(d: Duration)
    ensures
        SystemTime::SinceEpoch(d)@ == d@,
        SystemTime::BeforeEpoch(d)@ + d@ == 0,
{
}

} // verus!
