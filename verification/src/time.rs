//! Spans of time.
use vstd::prelude::*;

verus! {

/// Nanoseconds of a second.
pub const NANOS_PER_SEC: u128 = 1_000_000_000;

/// The longest span: all seconds that fit in 64 bits, and a second less one nanosecond.
pub const MAX_NANOS: u128 = 18_446_744_073_709_551_615_999_999_999;

/// A span of time with nanosecond resolution.
#[derive(Clone, Copy, Debug, PartialEq, Eq, Structural)]
pub struct Duration {
    /// Length in nanoseconds.
    pub nanos: u128,
}

/// How a span of whole seconds and nanoseconds prints itself for debugging.
pub uninterp spec fn duration_text(secs: int, subsec_nanos: int) -> Seq<char>;

/// The `Debug` form of `std::time::Duration`: it is a function of the span.
#[verifier::external_body]
fn debug_duration(secs: u64, subsec_nanos: u32) -> (r: String)
    requires
        subsec_nanos < 1_000_000_000,
    ensures
        r@ == duration_text(secs as int, subsec_nanos as int),
{
    format!("{:?}", std::time::Duration::new(secs, subsec_nanos))
}

impl Duration {
    /// How the span reads.
    pub open spec fn text(&self) -> Seq<char> {
        duration_text(
            (self.nanos / NANOS_PER_SEC) as int,
            (self.nanos % NANOS_PER_SEC) as int,
        )
    }

    /// Returns how the span reads, for example `12s` or `1.5s`.
    pub fn to_text(&self) -> (r: String)
        requires
            self.nanos <= MAX_NANOS,
        ensures
            r@ == self.text(),
    {
        let subsec: u32 = (self.nanos % NANOS_PER_SEC) as u32;
        debug_duration(self.as_secs(), subsec)
    }

    /// Returns a span of whole seconds.
    pub fn from_secs(secs: u64) -> (r: Self)
        ensures
            r.nanos == secs * NANOS_PER_SEC,
    {
        Duration { nanos: (secs as u128) * NANOS_PER_SEC }
    }

    /// Returns a span of whole milliseconds.
    pub fn from_millis(millis: u64) -> (r: Self)
        ensures
            r.nanos == millis * 1_000_000,
    {
        Duration { nanos: (millis as u128) * 1_000_000 }
    }

    /// Returns the whole seconds of the span.
    pub fn as_secs(&self) -> (r: u64)
        requires
            self.nanos <= MAX_NANOS,
        ensures
            r == self.nanos / NANOS_PER_SEC,
    {
        (self.nanos / NANOS_PER_SEC) as u64
    }

    /// Returns the whole milliseconds of the span.
    pub fn as_millis(&self) -> (r: u128)
        ensures
            r == self.nanos / 1_000_000,
    {
        self.nanos / 1_000_000
    }

    /// Returns the sum of two spans.
    pub fn plus(&self, other: &Self) -> (r: Self)
        requires
            self.nanos + other.nanos <= MAX_NANOS,
        ensures
            r.nanos == self.nanos + other.nanos,
    {
        Duration { nanos: self.nanos + other.nanos }
    }

    /// Returns what is left of the span after `other`, or nothing.
    pub fn saturating_sub(&self, other: &Self) -> (r: Self)
        ensures
            r.nanos == if self.nanos >= other.nanos {
                self.nanos - other.nanos
            } else {
                0
            },
    {
        if self.nanos >= other.nanos {
            Duration { nanos: self.nanos - other.nanos }
        } else {
            Duration { nanos: 0 }
        }
    }

    /// Returns the shorter of two spans.
    pub fn shorter(&self, other: &Self) -> (r: Self)
        ensures
            r.nanos == if self.nanos <= other.nanos {
                self.nanos
            } else {
                other.nanos
            },
    {
        if self.nanos <= other.nanos {
            *self
        } else {
            *other
        }
    }

    /// Returns the span doubled, but no longer than `limit`.
    pub fn doubled_up_to(&self, limit: &Self) -> (r: Self)
        ensures
            r.nanos == if 2 * self.nanos <= limit.nanos {
                2 * self.nanos
            } else {
                limit.nanos as int
            },
    {
        if self.nanos <= limit.nanos / 2 {
            Duration { nanos: 2 * self.nanos }
        } else {
            *limit
        }
    }
}

/// Spans are built from and read as seconds and milliseconds without loss of whole ones.
pub proof fn law_spans_are_counted_in_nanoseconds(
    secs: u64,
    millis: u64,
    a: Duration,
    b: Duration,
    whole: u64,
    parts: u128,
)
    requires
        call_ensures(Duration::from_secs, (secs,), a),
        call_ensures(Duration::from_millis, (millis,), b),
        call_ensures(Duration::as_secs, (&a,), whole),
        call_ensures(Duration::as_millis, (&b,), parts),
    ensures
        a.nanos == 1_000_000_000 * secs,
        b.nanos == 1_000_000 * millis,
        whole == secs,
        parts == millis,
{
}

/// A span doubles until it reaches its limit, and never goes beyond it; the shorter of two spans is one
/// of them; what is left of a span is never below nothing.
pub proof fn law_spans_stay_within_bounds(
    a: Duration,
    b: Duration,
    doubled: Duration,
    shorter: Duration,
    rest: Duration,
)
    requires
        call_ensures(Duration::doubled_up_to, (&a, &b), doubled),
        call_ensures(Duration::shorter, (&a, &b), shorter),
        call_ensures(Duration::saturating_sub, (&a, &b), rest),
    ensures
        doubled.nanos <= b.nanos,
        doubled.nanos == 2 * a.nanos || doubled.nanos == b.nanos,
        2 * a.nanos <= b.nanos ==> doubled.nanos == 2 * a.nanos,
        shorter.nanos <= a.nanos && shorter.nanos <= b.nanos,
        shorter.nanos == a.nanos || shorter.nanos == b.nanos,
        b.nanos <= a.nanos ==> rest.nanos + b.nanos == a.nanos,
        b.nanos > a.nanos ==> rest.nanos == 0,
{
}

/// Spans are added by their nanoseconds, in either order.
pub proof fn law_spans_are_added(a: &Duration, b: &Duration, x: Duration, y: Duration)
    requires
        call_ensures(Duration::plus, (a, b), x),
        call_ensures(Duration::plus, (b, a), y),
    ensures
        x.nanos == a.nanos + b.nanos,
        x.nanos == y.nanos,
{
}

} // verus!
