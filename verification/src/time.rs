//! Instants and spans of time.
//!
//! A [`Time`] is a UTC instant as `chrono` holds one: whole seconds since the
//! Unix epoch and nanoseconds within the second, where a nanosecond part of a
//! billion or more marks a leap second. A [`Span`] is a length of time that is
//! never negative.

use chrono::{DateTime, DurationRound, TimeDelta, TimeZone, Utc};
use vstd::prelude::*;

verus! {

/// Nanoseconds in a second.
pub const NANOS: u32 = 1_000_000_000;

/// First second of the calendar, 1 January of the year -262143.
pub const FIRST_SECOND: i64 = -8_334_601_228_800;

/// Last second of the calendar, 31 December of the year 262142.
pub const LAST_SECOND: i64 = 8_210_266_876_799;

/// Longest span that can be added to an instant: `i64::MAX` milliseconds.
pub open spec fn longest_shift() -> nat {
    i64::MAX as nat * 1_000_000
}

/// A length of time.
#[derive(Debug, Clone, Copy, PartialEq, Eq, Structural)]
pub struct Span {
    pub secs: u64,
    pub nanos: u32,
}

impl Span {
    /// The nanosecond part is less than a second.
    pub open spec fn wf(self) -> bool {
        self.nanos < NANOS
    }

    /// The length in nanoseconds.
    pub open spec fn ns(self) -> nat {
        self.secs as nat * 1_000_000_000 + self.nanos as nat
    }

    /// The longest span there is, in nanoseconds.
    pub open spec fn longest() -> nat {
        u64::MAX as nat * 1_000_000_000 + 999_999_999
    }

    /// The span of `n` nanoseconds.
    pub open spec fn of_ns(n: nat) -> Span {
        Span { secs: (n / 1_000_000_000) as u64, nanos: (n % 1_000_000_000) as u32 }
    }

    /// A span of whole seconds.
    pub fn from_secs(secs: u64) -> (r: Span)
        ensures
            r.wf(),
            r == (Span { secs, nanos: 0 }),
            r.ns() == secs as nat * 1_000_000_000,
    {
        Span { secs, nanos: 0 }
    }

    /// No time at all.
    pub fn zero() -> (r: Span)
        ensures
            r.wf(),
            r == (Span { secs: 0, nanos: 0 }),
            r.ns() == 0,
    {
        Span { secs: 0, nanos: 0 }
    }

    /// Whether `self` is no longer than `other`.
    pub fn at_most(self, other: Span) -> (r: bool)
        requires
            self.wf(),
            other.wf(),
        ensures
            r == (self.ns() <= other.ns()),
    {
        self.secs < other.secs || (self.secs == other.secs && self.nanos <= other.nanos)
    }

    /// The longer of two spans.
    pub fn longer(self, other: Span) -> (r: Span)
        requires
            self.wf(),
            other.wf(),
        ensures
            r == if self.ns() <= other.ns() {
                other
            } else {
                self
            },
    {
        if self.at_most(other) {
            other
        } else {
            self
        }
    }

    /// The shorter of two spans.
    pub fn shorter(self, other: Span) -> (r: Span)
        requires
            self.wf(),
            other.wf(),
        ensures
            r == if self.ns() <= other.ns() {
                self
            } else {
                other
            },
    {
        if self.at_most(other) {
            self
        } else {
            other
        }
    }

    /// The sum of two spans.
    pub fn plus(self, other: Span) -> (r: Span)
        requires
            self.wf(),
            other.wf(),
            self.ns() + other.ns() <= Span::longest(),
        ensures
            r.wf(),
            r.ns() == self.ns() + other.ns(),
    {
        let nanos: u32 = self.nanos + other.nanos;
        if nanos >= NANOS {
            Span { secs: self.secs + other.secs + 1, nanos: nanos - NANOS }
        } else {
            Span { secs: self.secs + other.secs, nanos }
        }
    }

    /// What is left of `self` after `other`, or nothing if `other` is longer.
    pub fn less(self, other: Span) -> (r: Span)
        requires
            self.wf(),
            other.wf(),
        ensures
            r.wf(),
            r.ns() == if self.ns() >= other.ns() {
                self.ns() - other.ns()
            } else {
                0
            },
    {
        if self.at_most(other) {
            Span::zero()
        } else if self.nanos >= other.nanos {
            Span { secs: self.secs - other.secs, nanos: self.nanos - other.nanos }
        } else {
            Span {
                secs: self.secs - other.secs - 1,
                nanos: self.nanos + (NANOS - other.nanos),
            }
        }
    }

    /// `k` times the span.
    pub fn times(self, k: u32) -> (r: Span)
        requires
            self.wf(),
            self.ns() * k <= Span::longest(),
        ensures
            r.wf(),
            r.ns() == self.ns() * k,
    {
        let ghost whole = self.ns() * k;
        proof {
            assert(whole == self.secs as nat * k * 1_000_000_000 + self.nanos as nat * k)
                by (nonlinear_arith)
                requires
                    whole == (self.secs as nat * 1_000_000_000 + self.nanos as nat) * k,
            ;
            assert(0 <= self.nanos as nat * k <= 999_999_999 * k) by (nonlinear_arith)
                requires
                    self.nanos <= 999_999_999,
            ;
            assert(self.secs as nat * k <= u64::MAX);
        }
        let scaled: u64 = self.nanos as u64 * k as u64;
        let carry: u64 = scaled / 1_000_000_000;
        let rest: u64 = scaled % 1_000_000_000;
        assert(scaled == self.nanos as nat * k);
        assert(carry * 1_000_000_000 + rest == scaled);
        let secs: u64 = self.secs * k as u64;
        assert(secs + carry <= u64::MAX);
        Span { secs: secs + carry, nanos: rest as u32 }
    }
}

/// A well-formed span is determined by its length.
pub proof fn lemma_span_of_ns(d: Span)
    requires
        d.wf(),
    ensures
        d == Span::of_ns(d.ns()),
{
}

/// `a` modulo `m`, from zero up to `m`.
pub(crate) fn remainder(a: i64, m: i64) -> (r: i64)
    requires
        m > 0,
    ensures
        r == a as int % m as int,
        0 <= r < m,
{
    match a.checked_rem_euclid(m) {
        Some(r) => r,
        None => 0,
    }
}

/// A UTC instant.
#[derive(Debug, Clone, Copy, PartialEq, Eq, Structural)]
pub struct Time {
    pub secs: i64,
    pub nanos: u32,
}

impl Time {
    /// The instant lies in the calendar; only the last second of a minute has
    /// a leap second behind it.
    pub open spec fn wf(self) -> bool {
        &&& FIRST_SECOND <= self.secs <= LAST_SECOND
        &&& self.nanos < NANOS || (self.nanos < 2 * NANOS && self.secs % 60 == 59)
    }

    /// The instant lies in a leap second.
    pub open spec fn in_leap_second(self) -> bool {
        self.nanos >= NANOS
    }

    /// Nanoseconds since the epoch; a leap second counts as time past the
    /// second that it follows.
    pub open spec fn ns(self) -> int {
        self.secs * 1_000_000_000 + self.nanos
    }

    /// The instant `n` nanoseconds after the epoch, outside any leap second.
    pub open spec fn of_ns(n: int) -> Time {
        Time { secs: (n / 1_000_000_000) as i64, nanos: (n % 1_000_000_000) as u32 }
    }

    /// The instant `n` nanoseconds after the epoch lies in the calendar.
    pub open spec fn ns_in_calendar(n: int) -> bool {
        FIRST_SECOND <= n / 1_000_000_000 <= LAST_SECOND
    }

    /// `self` comes before `other`.
    pub open spec fn precedes(self, other: Time) -> bool {
        self.secs < other.secs || (self.secs == other.secs && self.nanos < other.nanos)
    }

    /// The later of two instants.
    pub open spec fn max_of(self, other: Time) -> Time {
        if other.precedes(self) {
            self
        } else {
            other
        }
    }

    /// Seconds since midnight.
    pub open spec fn second_of_day(self) -> int {
        self.secs as int % 86_400
    }

    /// Whether `self` comes before `other`.
    pub fn is_before(self, other: Time) -> (r: bool)
        ensures
            r == self.precedes(other),
    {
        self.secs < other.secs || (self.secs == other.secs && self.nanos < other.nanos)
    }

    /// The later of two instants.
    pub fn latest(self, other: Time) -> (r: Time)
        ensures
            r == self.max_of(other),
    {
        if other.is_before(self) {
            self
        } else {
            other
        }
    }

    /// Whether the instant can be used, that is, lies in the calendar.
    pub fn is_valid(self) -> (r: bool)
        ensures
            r == self.wf(),
    {
        FIRST_SECOND <= self.secs && self.secs <= LAST_SECOND && (self.nanos < NANOS || (
        self.nanos < 2 * NANOS && remainder(self.secs, 60) == 59))
    }
}

/// The instant `d` after `t`, by the rule of `chrono` for leap seconds: a leap
/// second is left behind by any span that does not fit into it, and no other
/// leap second is counted.
pub open spec fn later(t: Time, d: Span) -> Time {
    if t.in_leap_second() && d.secs == 0 && t.nanos + d.nanos < 2_000_000_000 {
        Time { secs: t.secs, nanos: (t.nanos + d.nanos) as u32 }
    } else {
        Time::of_ns(later_ns(t, d))
    }
}

/// The place of `later(t, d)` on the line of nanoseconds when it lies outside
/// the leap second of `t`.
pub open spec fn later_ns(t: Time, d: Span) -> int {
    if t.in_leap_second() {
        t.ns() - 1_000_000_000 + d.ns()
    } else {
        t.ns() + d.ns()
    }
}

/// The instant `d` before `t`, by the same rule.
pub open spec fn earlier(t: Time, d: Span) -> Time {
    if t.in_leap_second() && d.secs == 0 {
        Time { secs: t.secs, nanos: (t.nanos - d.nanos) as u32 }
    } else {
        Time::of_ns(t.ns() - d.ns())
    }
}

/// `t` can be moved later by `d` without leaving the calendar.
pub open spec fn later_fits(t: Time, d: Span) -> bool {
    d.ns() <= longest_shift() && Time::ns_in_calendar(later_ns(t, d))
}

/// `t` can be moved earlier by `d` without leaving the calendar.
pub open spec fn earlier_fits(t: Time, d: Span) -> bool {
    d.ns() <= longest_shift() && ((t.in_leap_second() && d.secs == 0) || Time::ns_in_calendar(
        t.ns() - d.ns(),
    ))
}

/// Whether `t` can be moved later by `d`.
pub fn can_move_later(t: Time, d: Span) -> (r: bool)
    requires
        t.wf(),
        d.wf(),
    ensures
        r == later_fits(t, d),
{
    let ns: i128 = d.secs as i128 * 1_000_000_000 + d.nanos as i128;
    if ns > i64::MAX as i128 * 1_000_000 {
        return false;
    }
    let base: i128 = t.secs as i128 * 1_000_000_000 + t.nanos as i128 - if t.nanos >= NANOS {
        1_000_000_000i128
    } else {
        0i128
    };
    let sum: i128 = base + ns;
    (FIRST_SECOND as i128) * 1_000_000_000 <= sum && sum < (LAST_SECOND as i128 + 1)
        * 1_000_000_000
}

/// Whether `t` can be moved earlier by `d`.
pub fn can_move_earlier(t: Time, d: Span) -> (r: bool)
    requires
        t.wf(),
        d.wf(),
    ensures
        r == earlier_fits(t, d),
{
    let ns: i128 = d.secs as i128 * 1_000_000_000 + d.nanos as i128;
    if ns > i64::MAX as i128 * 1_000_000 {
        return false;
    }
    if t.nanos >= NANOS && d.secs == 0 {
        return true;
    }
    let rest: i128 = t.secs as i128 * 1_000_000_000 + t.nanos as i128 - ns;
    (FIRST_SECOND as i128) * 1_000_000_000 <= rest && rest < (LAST_SECOND as i128 + 1)
        * 1_000_000_000
}

/// Nanoseconds from `b` to `a`, negative when `a` comes first. `chrono` counts
/// the leap second of the instant that has the earlier time of day.
pub open spec fn elapsed_ns(a: Time, b: Time) -> int {
    let leap: int = if a.second_of_day() > b.second_of_day() && b.in_leap_second() {
        1
    } else if a.second_of_day() < b.second_of_day() && a.in_leap_second() {
        -1
    } else {
        0
    };
    a.ns() - b.ns() + leap * 1_000_000_000
}

/// The whole seconds in `ns` nanoseconds, towards zero.
pub open spec fn whole_seconds(ns: int) -> int {
    if ns >= 0 {
        ns / 1_000_000_000
    } else {
        -((-ns) / 1_000_000_000)
    }
}

/// A signed length of time: whole seconds and the rest, both towards zero.
#[derive(Debug, Clone, Copy, PartialEq, Eq, Structural)]
pub struct Gap {
    pub secs: i64,
    pub nanos: i32,
}

/// `TimeZone::timestamp_opt` of `chrono::Utc`: the instant with the given
/// parts, if the calendar has it. The calendar runs from `NaiveDate::MIN` to
/// `NaiveDate::MAX`.
#[verifier::external_body]
pub(crate) fn timestamp(secs: i64, nanos: u32) -> (r: Option<Time>)
    ensures
        r == if (Time { secs, nanos }).wf() {
            Some(Time { secs, nanos })
        } else {
            None
        },
{
    let found = Utc.timestamp_opt(secs, nanos).single();
    found.map(|t| Time { secs: t.timestamp(), nanos: t.timestamp_subsec_nanos() })
}

/// `TimeDelta::from_std`: the span as `chrono` holds one, unless it is longer
/// than `i64::MAX` milliseconds.
#[verifier::external_body]
pub(crate) fn as_shift(d: Span) -> (r: Option<Span>)
    requires
        d.wf(),
    ensures
        r == if d.ns() <= longest_shift() {
            Some(d)
        } else {
            None
        },
{
    let held = TimeDelta::from_std(std::time::Duration::new(d.secs, d.nanos)).ok();
    held.map(|d| Span { secs: d.num_seconds() as u64, nanos: d.subsec_nanos() as u32 })
}

/// `DateTime + TimeDelta`, which panics when the sum leaves the calendar.
#[verifier::external_body]
pub(crate) fn shift_later(t: Time, d: Span) -> (r: Time)
    requires
        t.wf(),
        d.wf(),
        later_fits(t, d),
    ensures
        r == later(t, d),
        r.wf(),
{
    let t = Utc.timestamp_opt(t.secs, t.nanos).unwrap();
    let moved = t + TimeDelta::new(d.secs as i64, d.nanos).unwrap();
    Time { secs: moved.timestamp(), nanos: moved.timestamp_subsec_nanos() }
}

/// `DateTime - TimeDelta`, which panics when the difference leaves the calendar.
#[verifier::external_body]
pub(crate) fn shift_earlier(t: Time, d: Span) -> (r: Time)
    requires
        t.wf(),
        d.wf(),
        earlier_fits(t, d),
    ensures
        r == earlier(t, d),
        r.wf(),
{
    let t = Utc.timestamp_opt(t.secs, t.nanos).unwrap();
    let moved = t - TimeDelta::new(d.secs as i64, d.nanos).unwrap();
    Time { secs: moved.timestamp(), nanos: moved.timestamp_subsec_nanos() }
}

/// `DateTime - DateTime`, read with `TimeDelta::num_seconds` and
/// `TimeDelta::subsec_nanos`.
#[verifier::external_body]
pub(crate) fn gap(a: Time, b: Time) -> (r: Gap)
    requires
        a.wf(),
        b.wf(),
    ensures
        r.secs == whole_seconds(elapsed_ns(a, b)),
        r.nanos == elapsed_ns(a, b) - whole_seconds(elapsed_ns(a, b)) * 1_000_000_000,
{
    let a = Utc.timestamp_opt(a.secs, a.nanos).unwrap();
    let b = Utc.timestamp_opt(b.secs, b.nanos).unwrap();
    let d = a - b;
    Gap { secs: d.num_seconds(), nanos: d.subsec_nanos() }
}

/// What `DateTime::parse_from_rfc3339` reads from a text, in UTC: the seconds
/// and nanoseconds of the instant, or nothing where the text is no RFC 3339
/// date and time.
pub uninterp spec fn rfc3339(text: Seq<char>) -> Option<(i64, u32)>;

/// `DateTime::parse_from_rfc3339`, taken to UTC. A date that it accepts has a
/// year of four digits, so the instant lies in the calendar.
#[verifier::external_body]
pub(crate) fn parse_rfc3339(text: &str) -> (r: Option<Time>)
    ensures
        match r {
            Some(t) => t.wf() && rfc3339(text@) == Some((t.secs, t.nanos)),
            None => rfc3339(text@) is None,
        },
{
    let read = DateTime::parse_from_rfc3339(text).ok().map(|d| d.with_timezone(&Utc));
    read.map(|t| Time { secs: t.timestamp(), nanos: t.timestamp_subsec_nanos() })
}

/// The start of the minute that `t` lies in.
pub open spec fn minute_start(t: Time) -> Time {
    earlier(t, Span::of_ns((t.ns() % 60_000_000_000) as nat))
}

/// `DurationRound::duration_trunc` to the minute, with the text of the error.
/// It fails for an instant whose nanoseconds since the epoch do not fit into
/// an `i64`.
#[verifier::external_body]
pub(crate) fn truncate_to_minute(t: Time) -> (r: Result<Time, String>)
    requires
        t.wf(),
    ensures
        match r {
            Ok(m) => i64::MIN <= t.ns() <= i64::MAX && m == minute_start(t) && m.wf(),
            Err(why) => !(i64::MIN <= t.ns() <= i64::MAX) && why@
                == "timestamp exceeds num_nanoseconds limit"@,
        },
{
    let t = Utc.timestamp_opt(t.secs, t.nanos).unwrap();
    let cut = t.duration_trunc(TimeDelta::minutes(1)).map_err(|e| e.to_string());
    cut.map(|t| Time { secs: t.timestamp(), nanos: t.timestamp_subsec_nanos() })
}

/// What `DateTime::format` writes of the instant with these seconds and
/// nanoseconds, in UTC and in this format.
pub uninterp spec fn utc_text(secs: i64, nanos: u32, format: Seq<char>) -> Seq<char>;

/// `DateTime::format`, in UTC. Not every format can be written; date and time
/// to the second can.
#[verifier::external_body]
pub(crate) fn format_utc(t: Time, format: &str) -> (r: String)
    requires
        t.wf(),
        format@ == "%Y-%m-%dT%H:%M:%SZ"@,
    ensures
        r@ == utc_text(t.secs, t.nanos, format@),
{
    Utc.timestamp_opt(t.secs, t.nanos).unwrap().format(format).to_string()
}

} // verus!
