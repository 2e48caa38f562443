//! Instants and time spans as plain numbers: what the cache reads of a
//! point in time, and the arithmetic that decides whether a record is fresh.

use vstd::prelude::*;

verus! {

/// The largest number of whole seconds that a `TimeDelta` holds, in either
/// direction: `i64::MAX / 1000`, so that the span in milliseconds fits an `i64`.
pub const MAX_SECONDS: i64 = 9_223_372_036_854_775;

pub const SECONDS_PER_MINUTE: i64 = 60;

pub const SECONDS_PER_HOUR: i64 = 3_600;

pub const SECONDS_PER_DAY: i64 = 86_400;

pub const NANOS_PER_SECOND: i64 = 1_000_000_000;

/// A number of seconds as a span of time, where it is within the bounds.
pub open spec fn span_of(seconds: int) -> Option<i64> {
    if -MAX_SECONDS <= seconds <= MAX_SECONDS {
        Some(seconds as i64)
    } else {
        None
    }
}

/// `chrono::TimeDelta::try_seconds`, read back with `num_seconds`: the same
/// number where it lies within `MAX_SECONDS` of zero, and nothing otherwise.
#[verifier::external_body]
fn chrono_try_seconds(seconds: i64) -> (r: Option<i64>)
    ensures
        r == span_of(seconds as int),
{
    chrono::TimeDelta::try_seconds(seconds).map(|d| d.num_seconds())
}

/// `chrono::TimeDelta::try_minutes`, read back with `num_seconds`: sixty
/// times the argument where that lies within the bounds, nothing otherwise.
#[verifier::external_body]
fn chrono_try_minutes(minutes: i64) -> (r: Option<i64>)
    ensures
        r == span_of(minutes * SECONDS_PER_MINUTE),
{
    chrono::TimeDelta::try_minutes(minutes).map(|d| d.num_seconds())
}

/// `chrono::TimeDelta::try_hours`, read back with `num_seconds`: 3600 times
/// the argument where that lies within the bounds, nothing otherwise.
#[verifier::external_body]
fn chrono_try_hours(hours: i64) -> (r: Option<i64>)
    ensures
        r == span_of(hours * SECONDS_PER_HOUR),
{
    chrono::TimeDelta::try_hours(hours).map(|d| d.num_seconds())
}

/// `chrono::TimeDelta::try_days`, read back with `num_seconds`: 86400 times
/// the argument where that lies within the bounds, nothing otherwise.
#[verifier::external_body]
fn chrono_try_days(days: i64) -> (r: Option<i64>)
    ensures
        r == span_of(days * SECONDS_PER_DAY),
{
    chrono::TimeDelta::try_days(days).map(|d| d.num_seconds())
}

/// `chrono::TimeDelta::checked_add` on two spans of whole seconds, read back
/// with `num_seconds`: the sum where it lies within the bounds, nothing
/// otherwise. Both arguments are within the bounds, so that building them
/// with `chrono::TimeDelta::seconds` does not fail.
#[verifier::external_body]
fn chrono_checked_add(a: i64, b: i64) -> (r: Option<i64>)
    requires
        span_of(a as int) is Some,
        span_of(b as int) is Some,
    ensures
        r == span_of(a + b),
{
    chrono::TimeDelta::seconds(a).checked_add(&chrono::TimeDelta::seconds(b)).map(
        |d| d.num_seconds(),
    )
}

/// A span of whole seconds, positive or negative, of at most `MAX_SECONDS`.
#[derive(Clone, Copy, Debug, PartialEq, Eq)]
pub struct TimeDelta {
    secs: i64,
}

impl View for TimeDelta {
    type V = int;

    /// The span in seconds.
    closed spec fn view(&self) -> int {
        self.secs as int
    }
}

impl TimeDelta {
    #[verifier::type_invariant]
    spec fn within_bounds(self) -> bool {
        -MAX_SECONDS <= self.secs <= MAX_SECONDS
    }

    /// Whether `r` is the span of so many seconds as `span` holds, or
    /// nothing where `span` holds nothing.
    pub open spec fn from_span(span: Option<i64>, r: Option<TimeDelta>) -> bool {
        match span {
            Some(s) => r is Some && r->0@ == s,
            None => r is None,
        }
    }

    fn lift(span: Option<i64>) -> (r: Option<TimeDelta>)
        requires
            span matches Some(s) ==> span_of(s as int) is Some,
        ensures
            Self::from_span(span, r),
    {
        match span {
            Some(secs) => Some(TimeDelta { secs }),
            None => None,
        }
    }

    /// The empty span.
    pub fn zero() -> (r: TimeDelta)
        ensures
            r@ == 0,
    {
        TimeDelta { secs: 0 }
    }

    /// A span of `seconds` seconds, unless that is out of bounds.
    pub fn try_seconds(seconds: i64) -> (r: Option<TimeDelta>)
        ensures
            Self::from_span(span_of(seconds as int), r),
    {
        Self::lift(chrono_try_seconds(seconds))
    }

    /// A span of `minutes` minutes, unless that is out of bounds.
    pub fn try_minutes(minutes: i64) -> (r: Option<TimeDelta>)
        ensures
            Self::from_span(span_of(minutes * SECONDS_PER_MINUTE), r),
    {
        Self::lift(chrono_try_minutes(minutes))
    }

    /// A span of `hours` hours, unless that is out of bounds.
    pub fn try_hours(hours: i64) -> (r: Option<TimeDelta>)
        ensures
            Self::from_span(span_of(hours * SECONDS_PER_HOUR), r),
    {
        Self::lift(chrono_try_hours(hours))
    }

    /// A span of `days` days, unless that is out of bounds.
    pub fn try_days(days: i64) -> (r: Option<TimeDelta>)
        ensures
            Self::from_span(span_of(days * SECONDS_PER_DAY), r),
    {
        Self::lift(chrono_try_days(days))
    }

    /// The sum of two spans, unless it is out of bounds.
    pub fn checked_add(&self, rhs: &TimeDelta) -> (r: Option<TimeDelta>)
        ensures
            Self::from_span(span_of(self@ + rhs@), r),
    {
        proof {
            use_type_invariant(self);
            use_type_invariant(rhs);
        }
        Self::lift(chrono_checked_add(self.secs, rhs.secs))
    }

    /// The span in whole seconds.
    pub fn num_seconds(&self) -> (r: i64)
        ensures
            r == self@,
            -MAX_SECONDS <= r <= MAX_SECONDS,
    {
        proof {
            use_type_invariant(self);
        }
        self.secs
    }
}

/// A point in time: whole seconds since the Unix epoch and the nanoseconds
/// that follow them.
#[derive(Clone, Copy, Debug, PartialEq, Eq, Structural)]
pub struct Timestamp {
    pub secs: i64,
    pub nanos: u32,
}

impl Timestamp {
    /// The instant in nanoseconds since the Unix epoch.
    pub open spec fn as_nanos(self) -> int {
        self.secs * NANOS_PER_SECOND + self.nanos
    }

    /// The instant in nanoseconds since the Unix epoch.
    pub fn total_nanos(&self) -> (r: i128)
        ensures
            r == self.as_nanos(),
    {
        self.secs as i128 * 1_000_000_000i128 + self.nanos as i128
    }
}

/// Whether a record of `updated_at` is still valid at `now`, where records
/// live for `ttl`: it is as long as `updated_at + ttl` lies after `now`.
pub open spec fn fresh_at(updated_at: Timestamp, ttl: int, now: Timestamp) -> bool {
    updated_at.as_nanos() + ttl * NANOS_PER_SECOND > now.as_nanos()
}

/// Decides whether a record of `updated_at` is fresh at `now`.
pub fn is_fresh(updated_at: Timestamp, ttl: TimeDelta, now: Timestamp) -> (r: bool)
    ensures
        r == fresh_at(updated_at, ttl@, now),
{
    let span: i128 = ttl.num_seconds() as i128 * 1_000_000_000i128;
    updated_at.total_nanos() + span > now.total_nanos()
}

} // verus!
