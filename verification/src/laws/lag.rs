//! What the lags seen so far come to, and how instants and waits are counted.

use vstd::prelude::*;

use crate::order::in_order;
use crate::schedule::{
    greatest, least, lemma_extremes, moved_earlier, moved_later, Cadence, LagModel,
};
use crate::text::{decimal, digit};
use crate::time::{elapsed_ns, whole_seconds, Span, Time};

verus! {

/// A lag of at most a day becomes the newest of at most sixty-four, and of the
/// others only the oldest gives way; any other number leaves the record alone.
pub proof fn law_the_newest_lag_is_kept(samples: Seq<i64>, secs: i64)
    requires
        samples.len() <= 64,
    ensures
        ({
            let r = LagModel::observed(samples, secs);
            if 0 <= secs <= 86_400 {
                &&& r.len() == if samples.len() < 64 {
                    samples.len() + 1
                } else {
                    64
                }
                &&& r[r.len() - 1] == secs
                &&& forall|i: int|
                    0 <= i < r.len() - 1 ==> #[trigger] r[i] == samples[i + samples.len() + 1
                        - r.len()]
            } else {
                r == samples
            }
        }),
{
}

/// Polling starts the margin before the shortest lag held, or at the expected
/// time where that is no time at all or no lag is held.
pub proof fn law_polling_starts_by_the_shortest_lag(samples: Seq<i64>, margin: Span, i: int)
    requires
        0 <= i < samples.len(),
        forall|k: int| 0 <= k < samples.len() ==> samples[i] <= #[trigger] samples[k],
    ensures
        LagModel::start_ns(samples, margin) == if samples[i] * 1_000_000_000 > margin.secs
            * 1_000_000_000 + margin.nanos {
            samples[i] * 1_000_000_000 - margin.secs * 1_000_000_000 - margin.nanos
        } else {
            0
        },
        LagModel::start_ns(Seq::empty(), margin) == 0,
{
    lemma_extremes(samples);
}

/// Polling stays fast for as long as the floor says, or until the margin behind
/// the longest lag held where that is longer.
pub proof fn law_fast_polling_goes_by_the_longest_lag(
    samples: Seq<i64>,
    margin: Span,
    floor: Span,
    i: int,
)
    requires
        0 <= i < samples.len(),
        samples[i] >= 0,
        forall|k: int| 0 <= k < samples.len() ==> #[trigger] samples[k] <= samples[i],
    ensures
        ({
            let past = samples[i] * 1_000_000_000 + margin.secs * 1_000_000_000 + margin.nanos;
            let least = floor.secs * 1_000_000_000 + floor.nanos;
            LagModel::fast_ns(samples, margin, floor) == if past > least {
                past
            } else {
                least
            }
        }),
        LagModel::fast_ns(Seq::empty(), margin, floor) == floor.secs * 1_000_000_000 + floor.nanos,
{
    lemma_extremes(samples);
}

/// The shortest and the longest lag are lags held, and no lag is shorter or
/// longer.
pub proof fn law_the_extremes_bound_the_lags(samples: Seq<i64>, i: int)
    requires
        0 <= i < samples.len(),
    ensures
        least(samples) matches Some(m) && m <= samples[i] && samples.contains(m),
        greatest(samples) matches Some(m) && samples[i] <= m && samples.contains(m),
        least(Seq::empty()) is None,
        greatest(Seq::empty()) is None,
{
    lemma_extremes(samples);
}

/// The median is the lag in the middle of all, in whatever order they are put
/// in rank; the upper one of two.
pub proof fn law_the_median_is_in_the_middle(samples: Seq<i64>, ranked: Seq<i64>)
    requires
        samples.len() > 0,
        ranked.to_multiset() == samples.to_multiset(),
        forall|i: int, j: int|
            0 <= i < j < ranked.len() ==> #[trigger] ranked[i] <= #[trigger] ranked[j],
    ensures
        LagModel::middle(samples) == Some(ranked[ranked.len() as int / 2]),
        LagModel::middle(Seq::empty()) is None,
{
    broadcast use vstd::seq_lib::group_to_multiset_ensures;

    let v = in_order(samples);
    crate::order::law_sorting_keeps_the_values(samples);
    crate::order::law_sorting_ranks(samples);
    let leq = |a: i64, b: i64| a <= b;
    assert(vstd::relations::sorted_by(v, leq)) by {
        assert forall|i: int, j: int| 0 <= i < j < v.len() implies #[trigger] leq(v[i], v[j]) by {
            lemma_ranked(v, i, j);
        }
    }
    assert(vstd::relations::sorted_by(ranked, leq)) by {
        assert forall|i: int, j: int| 0 <= i < j < ranked.len() implies #[trigger] leq(
            ranked[i],
            ranked[j],
        ) by {
            assert(ranked[i] <= ranked[j]);
        }
    }
    assert(v.len() == v.to_multiset().len());
    assert(ranked.len() == ranked.to_multiset().len());
    vstd::seq_lib::lemma_sorted_unique(v, ranked, leq);
}

proof fn lemma_ranked(v: Seq<i64>, i: int, j: int)
    requires
        crate::order::ranked(v),
        0 <= i <= j < v.len(),
    ensures
        v[i] <= v[j],
    decreases j - i,
{
    if i < j {
        lemma_ranked(v, i, j - 1);
        assert(!crate::order::Ranked::ranks_before(v[j], v[j - 1]));
    }
}

/// Adding a span counts its nanoseconds on, and taking one off counts them
/// back, outside leap seconds and for any span that a shift can hold.
pub proof fn law_shifts_count_nanoseconds(t: Time, d: Span)
    requires
        t.wf(),
        d.wf(),
        t.nanos < 1_000_000_000,
        d.secs * 1_000_000_000 + d.nanos <= i64::MAX * 1_000_000,
        crate::schedule::can_be_later(t, d),
        crate::schedule::can_be_earlier(t, d),
    ensures
        ({
            let r = moved_later(t, d);
            &&& r.nanos < 1_000_000_000
            &&& r.secs * 1_000_000_000 + r.nanos == t.secs * 1_000_000_000 + t.nanos + d.secs
                * 1_000_000_000 + d.nanos
        }),
        ({
            let r = moved_earlier(t, d);
            &&& r.nanos < 1_000_000_000
            &&& r.secs * 1_000_000_000 + r.nanos == t.secs * 1_000_000_000 + t.nanos - d.secs
                * 1_000_000_000 - d.nanos
        }),
{
}

/// What elapses between two instants outside leap seconds is the difference of
/// their nanoseconds, and whole seconds are counted towards nothing.
pub proof fn law_elapsed_time_is_a_difference(a: Time, b: Time)
    requires
        a.wf(),
        b.wf(),
        a.nanos < 1_000_000_000,
        b.nanos < 1_000_000_000,
    ensures
        elapsed_ns(a, b) == (a.secs - b.secs) * 1_000_000_000 + a.nanos - b.nanos,
        elapsed_ns(a, b) >= 0 ==> whole_seconds(elapsed_ns(a, b)) * 1_000_000_000 <= elapsed_ns(
            a,
            b,
        ) < (whole_seconds(elapsed_ns(a, b)) + 1) * 1_000_000_000,
        elapsed_ns(a, b) < 0 ==> (whole_seconds(elapsed_ns(a, b)) - 1) * 1_000_000_000 < elapsed_ns(
            a,
            b,
        ) <= whole_seconds(elapsed_ns(a, b)) * 1_000_000_000,
{
}

/// The value of a decimal digit.
pub open spec fn worth(c: char) -> int {
    c as int - '0' as int
}

/// The number that digits spell, from the left.
pub open spec fn spelled(s: Seq<char>) -> int
    decreases s.len(),
{
    if s.len() == 0 {
        0
    } else {
        10 * spelled(s.drop_last()) + worth(s[s.len() - 1])
    }
}

/// A number is written in digits that spell it, without a zero in front.
pub proof fn law_numbers_are_spelled(n: nat)
    ensures
        spelled(decimal(n)) == n,
        forall|i: int| 0 <= i < decimal(n).len() ==> '0' <= #[trigger] decimal(n)[i] <= '9',
        decimal(n).len() > 0,
        n > 0 ==> decimal(n)[0] != '0',
        n < 10 ==> decimal(n).len() == 1,
    decreases n,
{
    assert('0' <= digit(n % 10) <= '9' && worth(digit(n % 10)) == n % 10);
    if n < 10 {
        assert(decimal(n).drop_last() =~= Seq::empty());
        assert(digit(n) == digit(n % 10));
        reveal_with_fuel(spelled, 2);
    } else {
        law_numbers_are_spelled(n / 10);
        assert(decimal(n).drop_last() =~= decimal(n / 10));
        assert(decimal(n)[0] == decimal(n / 10)[0]);
    }
}

/// A cadence is described by its period in minutes and the minute of the hour
/// at which reports are made, in two digits.
pub proof fn law_a_cadence_is_told_in_minutes(c: Cadence, minutes: nat, hour: nat, minute: nat)
    requires
        c.period.secs == minutes * 60,
        c.phase.secs == hour * 3600 + minute * 60,
        minute < 60,
    ensures
        minute < 10 ==> c.description() == "every "@ + decimal(minutes) + " min, aligned to :0"@
            + decimal(minute),
        minute >= 10 ==> c.description() == "every "@ + decimal(minutes) + " min, aligned to :"@
            + decimal(minute),
{
    assert((hour * 3600 + minute * 60) / 60 % 60 == minute);
    if minute < 10 {
        reveal_strlit(" min, aligned to :");
        reveal_strlit(" min, aligned to :0");
        assert(c.description() =~= "every "@ + decimal(minutes) + " min, aligned to :0"@ + decimal(
            minute,
        ));
    }
}

} // verus!
