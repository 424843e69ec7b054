//! Points in time and spans of time as plain integers.
//!
//! A [`Timestamp`] is the pair that `chrono::DateTime<Utc>` reports through
//! `timestamp()` and `timestamp_subsec_nanos()`; a [`TimeSpan`] is the pair
//! of a `std::time::Duration`; a [`Delta`] is the pair of a
//! `chrono::TimeDelta`.  Calendar arithmetic and text formats are left to
//! chrono, behind the trusted items at the end of this file.

use vstd::prelude::*;

verus! {

/// One second in nanoseconds.
pub const NANOS_PER_SEC: u32 = 1_000_000_000;

/// The largest magnitude of a `chrono::TimeDelta`: `i64::MAX` milliseconds, in nanoseconds.
pub open spec fn delta_limit() -> int {
    i64::MAX as int * 1_000_000
}

/// A point in time in UTC: non-leap seconds since the Unix epoch and the
/// nanoseconds within that second (at least one second's worth during a leap
/// second, as chrono represents it).
#[derive(Clone, Copy, Debug, PartialEq, Eq, Structural)]
pub struct Timestamp {
    pub secs: i64,
    pub nanos: u32,
}

impl Timestamp {
    /// Strict order of two points in time; the order of `chrono::DateTime`.
    pub open spec fn spec_is_after(self, other: Timestamp) -> bool {
        self.secs > other.secs || (self.secs == other.secs && self.nanos > other.nanos)
    }

    /// Nanoseconds since the epoch, for a point outside a leap second.
    pub open spec fn total_nanos(self) -> int {
        self.secs * NANOS_PER_SEC + self.nanos
    }

    /// Outside a leap second.
    pub open spec fn is_regular(self) -> bool {
        self.nanos < NANOS_PER_SEC
    }

    /// Outside leap seconds, the order of points in time is the order of
    /// their nanoseconds since the epoch.
    pub proof fn lemma_order_is_numeric(self, other: Timestamp)
        requires
            self.is_regular(),
            other.is_regular(),
        ensures
            self.spec_is_after(other) <==> self.total_nanos() > other.total_nanos(),
    {
        let (a, b, c, d) = (self.secs as int, self.nanos as int, other.secs as int, other.nanos as int);
        assert(a > c ==> a * 1_000_000_000 + b > c * 1_000_000_000 + d) by (nonlinear_arith)
            requires 0 <= b < 1_000_000_000, 0 <= d < 1_000_000_000;
        assert(a < c ==> a * 1_000_000_000 + b < c * 1_000_000_000 + d) by (nonlinear_arith)
            requires 0 <= b < 1_000_000_000, 0 <= d < 1_000_000_000;
    }

    /// Nanoseconds since the epoch with a leap second counted as the last
    /// nanosecond of the second before it: the order of
    /// [`Timestamp::spec_is_after`] against points outside leap seconds.
    pub open spec fn clamped_nanos(self) -> int {
        self.secs * NANOS_PER_SEC + if self.nanos < NANOS_PER_SEC {
            self.nanos as int
        } else {
            NANOS_PER_SEC - 1
        }
    }

    /// A point outside a leap second lies after `other` exactly when its
    /// nanosecond count exceeds `other`'s clamped count.
    pub proof fn lemma_after_clamped(self, other: Timestamp)
        requires
            self.is_regular(),
        ensures
            self.spec_is_after(other) <==> self.total_nanos() > other.clamped_nanos(),
    {
        let (a, b, c) = (self.secs as int, self.nanos as int, other.secs as int);
        let d = if other.nanos < NANOS_PER_SEC { other.nanos as int } else { 999_999_999int };
        assert(a > c ==> a * 1_000_000_000 + b > c * 1_000_000_000 + d) by (nonlinear_arith)
            requires 0 <= b < 1_000_000_000, 0 <= d < 1_000_000_000;
        assert(a < c ==> a * 1_000_000_000 + b < c * 1_000_000_000 + d) by (nonlinear_arith)
            requires 0 <= b < 1_000_000_000, 0 <= d < 1_000_000_000;
    }

    /// The clamped count follows the order of points in time.
    pub proof fn lemma_clamped_monotone(self, other: Timestamp)
        requires
            !self.spec_is_after(other),
        ensures
            self.clamped_nanos() <= other.clamped_nanos(),
    {
        let (a, c) = (self.secs as int, other.secs as int);
        let b = if self.nanos < NANOS_PER_SEC { self.nanos as int } else { 999_999_999int };
        let d = if other.nanos < NANOS_PER_SEC { other.nanos as int } else { 999_999_999int };
        assert(a < c ==> a * 1_000_000_000 + b < c * 1_000_000_000 + d) by (nonlinear_arith)
            requires 0 <= b < 1_000_000_000, 0 <= d < 1_000_000_000;
    }

    /// The Unix epoch, 1970-01-01T00:00:00Z: the value of `DateTime::<Utc>::default()`.
    pub open spec fn spec_epoch() -> Timestamp {
        Timestamp { secs: 0, nanos: 0 }
    }

    /// Whether `self` lies strictly after `other`.
    pub fn is_after(&self, other: &Timestamp) -> (r: bool)
        ensures
            r == self.spec_is_after(*other),
    {
        self.secs > other.secs || (self.secs == other.secs && self.nanos > other.nanos)
    }

    /// Whether `self` is the Unix epoch.
    pub fn is_epoch(&self) -> (r: bool)
        ensures
            r == (*self == Self::spec_epoch()),
    {
        self.secs == 0 && self.nanos == 0
    }

    /// `self + delta`, or `None` where chrono reports an overflow of its date range.
    pub fn checked_add(&self, delta: Delta) -> (r: Option<Timestamp>)
        ensures
            r == spec_checked_add(*self, delta),
            r matches Some(t) ==> (self.is_regular() ==> t.is_regular() && t.total_nanos()
                == self.total_nanos() + delta.total_nanos()),
    {
        checked_add_signed(*self, delta)
    }
}

/// A span of time as a `std::time::Duration` holds it: whole seconds and the
/// nanoseconds below one second.
#[derive(Clone, Copy, Debug, PartialEq, Eq)]
pub struct TimeSpan {
    secs: u64,
    nanos: u32,
}

impl TimeSpan {
    #[verifier::type_invariant]
    spec fn well_formed(self) -> bool {
        self.nanos < NANOS_PER_SEC
    }

    /// Whole seconds.
    pub closed spec fn spec_secs(self) -> u64 {
        self.secs
    }

    /// Nanoseconds below one second.
    pub closed spec fn spec_subsec_nanos(self) -> u32 {
        self.nanos
    }

    /// The length of the span in nanoseconds.
    pub open spec fn total_nanos(self) -> int {
        self.spec_secs() * NANOS_PER_SEC + self.spec_subsec_nanos()
    }

    /// The empty span.
    pub fn zero() -> (r: TimeSpan)
        ensures
            r.spec_secs() == 0,
            r.spec_subsec_nanos() == 0,
    {
        TimeSpan { secs: 0, nanos: 0 }
    }

    /// A span of whole seconds.
    pub fn from_secs(secs: u64) -> (r: TimeSpan)
        ensures
            r.spec_secs() == secs,
            r.spec_subsec_nanos() == 0,
    {
        TimeSpan { secs, nanos: 0 }
    }

    /// A span from seconds and nanoseconds below one second; `None` when
    /// `nanos` is one second or more.
    pub fn new(secs: u64, nanos: u32) -> (r: Option<TimeSpan>)
        ensures
            r is Some <==> nanos < NANOS_PER_SEC,
            r matches Some(s) ==> s.spec_secs() == secs && s.spec_subsec_nanos() == nanos,
    {
        if nanos < NANOS_PER_SEC {
            Some(TimeSpan { secs, nanos })
        } else {
            None
        }
    }

    /// Whole seconds.
    pub fn as_secs(&self) -> (r: u64)
        ensures
            r == self.spec_secs(),
    {
        self.secs
    }

    /// Nanoseconds below one second.
    pub fn subsec_nanos(&self) -> (r: u32)
        ensures
            r == self.spec_subsec_nanos(),
            r < NANOS_PER_SEC,
    {
        proof {
            use_type_invariant(self);
        }
        self.nanos
    }
}

/// A signed span of time as a `chrono::TimeDelta` holds it: seconds and
/// nanoseconds in `0..1_000_000_000`, between `-i64::MAX` and `i64::MAX`
/// milliseconds.
#[derive(Clone, Copy, Debug, PartialEq, Eq, Structural)]
pub struct Delta {
    pub secs: i64,
    pub nanos: u32,
}

impl Delta {
    /// Length in nanoseconds.
    pub open spec fn total_nanos(self) -> int {
        self.secs * NANOS_PER_SEC + self.nanos
    }

    /// The representation invariant of `chrono::TimeDelta`.
    pub open spec fn is_valid(self) -> bool {
        &&& self.nanos < NANOS_PER_SEC
        &&& -delta_limit() <= self.total_nanos() <= delta_limit()
    }

    /// The empty delta.
    pub fn zero() -> (r: Delta)
        ensures
            r.is_valid(),
            r.total_nanos() == 0,
            r == (Delta { secs: 0, nanos: 0 }),
    {
        Delta { secs: 0, nanos: 0 }
    }

    /// `TimeDelta::try_seconds`: `None` beyond `i64::MAX / 1000` seconds either way.
    pub fn try_seconds(secs: i64) -> (r: Option<Delta>)
        ensures
            r is Some <==> -delta_limit() <= secs * NANOS_PER_SEC <= delta_limit(),
            r matches Some(d) ==> d.is_valid() && d.total_nanos() == secs * NANOS_PER_SEC,
    {
        let max_secs: i64 = i64::MAX / 1000;
        if secs > max_secs || secs < -max_secs {
            None
        } else {
            assert(secs * NANOS_PER_SEC <= delta_limit()) by (nonlinear_arith)
                requires
                    secs <= max_secs,
                    max_secs == i64::MAX / 1000,
            ;
            assert(-delta_limit() <= secs * NANOS_PER_SEC) by (nonlinear_arith)
                requires
                    secs >= -max_secs,
                    max_secs == i64::MAX / 1000,
            ;
            Some(Delta { secs, nanos: 0 })
        }
    }

    /// `TimeDelta::from_std`: the same length, or `None` beyond `i64::MAX` milliseconds.
    pub fn from_span(span: TimeSpan) -> (r: Option<Delta>)
        ensures
            r is Some <==> span.total_nanos() <= delta_limit(),
            r matches Some(d) ==> d.is_valid() && d.total_nanos() == span.total_nanos() && d
                == (Delta { secs: span.spec_secs() as i64, nanos: span.spec_subsec_nanos() }),
    {
        let secs = span.as_secs();
        let nanos = span.subsec_nanos();
        let max_secs: u64 = 9_223_372_036_854_775;
        let max_nanos: u32 = 807_000_000;
        if secs > max_secs || (secs == max_secs && nanos > max_nanos) {
            assert(span.total_nanos() > delta_limit()) by (nonlinear_arith)
                requires
                    secs > max_secs || (secs == max_secs && nanos > max_nanos),
                    span.total_nanos() == secs * 1_000_000_000 + nanos,
                    max_secs == 9_223_372_036_854_775,
                    max_nanos == 807_000_000,
                    delta_limit() == 9_223_372_036_854_775_807 * 1_000_000,
            ;
            None
        } else {
            assert(span.total_nanos() <= delta_limit()) by (nonlinear_arith)
                requires
                    secs < max_secs || (secs == max_secs && nanos <= max_nanos),
                    nanos < 1_000_000_000,
                    span.total_nanos() == secs * 1_000_000_000 + nanos,
                    max_secs == 9_223_372_036_854_775,
                    max_nanos == 807_000_000,
                    delta_limit() == 9_223_372_036_854_775_807 * 1_000_000,
            ;
            Some(Delta { secs: secs as i64, nanos })
        }
    }
}

/// What `DateTime::<Utc>::checked_add_signed` returns, in plain values.
pub uninterp spec fn spec_datetime_add(secs: i64, nanos: u32, delta_secs: i64, delta_nanos: u32) -> Option<(i64, u32)>;

/// `t + delta` as chrono computes it, or `None`.
pub open spec fn spec_checked_add(t: Timestamp, delta: Delta) -> Option<Timestamp> {
    match spec_datetime_add(t.secs, t.nanos, delta.secs, delta.nanos) {
        Some(p) => Some(Timestamp { secs: p.0, nanos: p.1 }),
        None => None,
    }
}

/// `chrono::DateTime::<Utc>::checked_add_signed`, on `t` and `delta` rebuilt
/// with `DateTime::from_timestamp` and `TimeDelta::new`.  Trusted to be
/// `None` when either cannot be built or the sum leaves chrono's date range,
/// and, for a `t` outside a leap second, to move it by exactly `delta`.
/// Where the sum lies in chrono's range is not stated.
#[verifier::external_body]
fn checked_add_signed(t: Timestamp, delta: Delta) -> (r: Option<Timestamp>)
    ensures
        r is None <==> spec_datetime_add(t.secs, t.nanos, delta.secs, delta.nanos) is None,
        r matches Some(s) ==> spec_datetime_add(t.secs, t.nanos, delta.secs, delta.nanos) == Some(
            (s.secs, s.nanos),
        ),
        r matches Some(s) ==> (t.is_regular() ==> s.is_regular() && s.total_nanos()
            == t.total_nanos() + delta.total_nanos()),
{
    let start = chrono::DateTime::from_timestamp(t.secs, t.nanos)?;
    let step = chrono::TimeDelta::new(delta.secs, delta.nanos)?;
    let end = start.checked_add_signed(step)?;
    Some(Timestamp { secs: end.timestamp(), nanos: end.timestamp_subsec_nanos() })
}

} // verus!
