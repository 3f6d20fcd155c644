//! What a cadence says of the times that it was inferred from, and where its
//! slots lie.

use vstd::prelude::*;

use crate::order::in_order;
use crate::schedule::{
    cadence_of, distinct_seconds, increasing, intervals, is_mode, lemma_increasing_is_determined,
    lemma_occurrences_bounds, lemma_phase, lemma_without_repeats, mode_of, nearest_minute,
    occurrences, phases, seconds, without_repeats, Cadence,
};
use crate::time::{Time, FIRST_SECOND, LAST_SECOND};

verus! {

/// `secs` holds the seconds of the times, each one once, in increasing order.
pub open spec fn are_the_seconds_of(secs: Seq<i64>, times: Seq<Time>) -> bool {
    &&& forall|i: int, j: int| 0 <= i < j < secs.len() ==> #[trigger] secs[i] < #[trigger] secs[j]
    &&& forall|i: int|
        0 <= i < secs.len() ==> exists|k: int|
            0 <= k < times.len() && (#[trigger] times[k]).secs == #[trigger] secs[i]
    &&& forall|k: int| 0 <= k < times.len() ==> secs.contains((#[trigger] times[k]).secs)
}

/// The gaps between neighbours, to the nearest minute.
pub open spec fn gaps(secs: Seq<i64>) -> Seq<int> {
    Seq::new((secs.len() - 1) as nat, |i: int| (secs[i + 1] - secs[i] + 30) / 60 * 60)
}

/// Where each second falls within a period of `p` seconds, to the nearest
/// minute.
pub open spec fn offsets(secs: Seq<i64>, p: int) -> Seq<int> {
    Seq::new(secs.len(), |i: int| (secs[i] as int % p + 30) / 60 * 60 % p)
}

/// A list of some length has a mode.
proof fn lemma_mode_exists(values: Seq<i64>)
    requires
        values.len() > 0,
    ensures
        mode_of(values) matches Some((v, n)) && is_mode(values, v, n),
{
    let best = lemma_best(values, values.len() as int);
    let n = occurrences(values, best);
    lemma_occurrences_bounds(values, best);
    assert forall|w: i64| #[trigger]
        occurrences(values, w) <= n && (occurrences(values, w) == n ==> best <= w) by {
        lemma_occurrences_bounds(values, w);
        if values.contains(w) {
            let i = choose|i: int| 0 <= i < values.len() && values[i] == w;
            assert(occurrences(values, values[i]) <= n);
        }
    }
    assert(is_mode(values, (best, n).0, (best, n).1));
}

proof fn lemma_best(values: Seq<i64>, k: int) -> (best: i64)
    requires
        0 < k <= values.len(),
    ensures
        values.contains(best),
        forall|i: int|
            0 <= i < k ==> occurrences(values, #[trigger] values[i]) <= occurrences(values, best)
                && (occurrences(values, values[i]) == occurrences(values, best) ==> best
                <= values[i]),
    decreases k,
{
    assert(values.contains(values[k - 1]));
    if k == 1 {
        values[0]
    } else {
        let b = lemma_best(values, k - 1);
        let v = values[k - 1];
        if occurrences(values, v) > occurrences(values, b) || (occurrences(values, v)
            == occurrences(values, b) && v < b) {
            v
        } else {
            b
        }
    }
}

/// Counting is counting.
proof fn lemma_count(s: Seq<i64>, t: Seq<int>, v: i64)
    requires
        s.len() == t.len(),
        forall|i: int| 0 <= i < s.len() ==> #[trigger] t[i] == s[i],
    ensures
        t.to_multiset().count(v as int) == occurrences(s, v),
    decreases s.len(),
{
    broadcast use vstd::seq_lib::group_to_multiset_ensures;

    if s.len() > 0 {
        lemma_count(s.drop_last(), t.drop_last(), v);
        assert(t =~= t.drop_last().push(t.last()));
    } else {
        assert(t =~= Seq::empty());
    }
}

proof fn lemma_gaps(secs: Seq<i64>, q: int)
    requires
        secs.len() > 0,
        forall|i: int, j: int| 0 <= i < j < secs.len() ==> #[trigger] secs[i] < #[trigger] secs[j],
        forall|i: int| 0 <= i < secs.len() ==> FIRST_SECOND <= #[trigger] secs[i] <= LAST_SECOND,
        0 < q <= i64::MAX,
    ensures
        gaps(secs).to_multiset().count(q) == occurrences(intervals(secs), q as i64),
        intervals(secs).len() + gaps(secs).to_multiset().count(0) == gaps(secs).len(),
        forall|r: int| r < 0 || r > i64::MAX ==> gaps(secs).to_multiset().count(r) == 0,
    decreases secs.len(),
{
    broadcast use vstd::seq_lib::group_to_multiset_ensures;

    if secs.len() == 1 {
        assert(gaps(secs) =~= Seq::empty());
    } else {
        let head = secs.drop_last();
        lemma_gaps(head, q);
        let d = nearest_minute(secs.last() - secs[secs.len() - 2]);
        assert(secs[secs.len() - 2] < secs[secs.len() - 1]);
        assert(gaps(secs) =~= gaps(head).push(d));
        assert(0 <= d <= i64::MAX);
        if d > 0 {
            assert(intervals(secs).drop_last() =~= intervals(head));
        }
    }
}

proof fn lemma_secs(times: Seq<Time>, secs: Seq<i64>)
    requires
        forall|k: int| 0 <= k < times.len() ==> (#[trigger] times[k]).wf(),
        are_the_seconds_of(secs, times),
    ensures
        secs == distinct_seconds(times),
        forall|i: int| 0 <= i < secs.len() ==> FIRST_SECOND <= #[trigger] secs[i] <= LAST_SECOND,
{
    let all = seconds(times);
    let u = in_order(all);
    crate::order::law_sorting_ranks(all);
    lemma_without_repeats(u);
    assert forall|x: i64| secs.contains(x) <==> without_repeats(u).contains(x) by {
        crate::order::lemma_same_members(all, x);
        if secs.contains(x) {
            let i = choose|i: int| 0 <= i < secs.len() && secs[i] == x;
            assert(secs[i] == x);
            let k = choose|k: int| 0 <= k < times.len() && (#[trigger] times[k]).secs == secs[i];
            assert(all[k] == x);
        }
        if all.contains(x) {
            let k = choose|k: int| 0 <= k < all.len() && all[k] == x;
            assert(times[k].secs == x);
        }
    }
    assert(increasing(secs));
    lemma_increasing_is_determined(secs, without_repeats(u));
    assert forall|i: int| 0 <= i < secs.len() implies FIRST_SECOND <= #[trigger] secs[i]
        <= LAST_SECOND by {
        let k = choose|k: int| 0 <= k < times.len() && (#[trigger] times[k]).secs == secs[i];
        assert(times[k].wf());
    }
}

/// The period of a cadence is the gap, to the minute, that occurs most often
/// between the times, the shorter one in a tie; at least two gaps and at least
/// half of those that are not nothing agree on it, and it says how many. Its
/// phase is where in the period the times fall most often, the earlier one in a
/// tie.
pub proof fn law_a_cadence_is_the_most_common_one(times: Seq<Time>, secs: Seq<i64>, c: Cadence)
    requires
        times.len() <= usize::MAX,
        forall|k: int| 0 <= k < times.len() ==> (#[trigger] times[k]).wf(),
        are_the_seconds_of(secs, times),
        cadence_of(times) == Some(c),
    ensures
        ({
            let p = c.period.secs as int;
            let between = gaps(secs).to_multiset();
            let within = offsets(secs, p).to_multiset();
            &&& secs.len() >= 3
            &&& p > 0
            &&& c.period.nanos == 0
            &&& c.phase.nanos == 0
            &&& c.phase.secs < p
            &&& forall|q: int| q > 0 ==> #[trigger] between.count(q) <= between.count(p)
            &&& forall|q: int|
                q > 0 && #[trigger] between.count(q) == between.count(p) ==> p <= q
            &&& c.matching == between.count(p)
            &&& c.samples == gaps(secs).len() - between.count(0)
            &&& c.matching >= 2
            &&& 2 * c.matching >= c.samples
            &&& forall|q: int| #[trigger] within.count(q) <= within.count(c.phase.secs as int)
            &&& forall|q: int| #[trigger]
                within.count(q) == within.count(c.phase.secs as int) ==> c.phase.secs <= q
        }),
{
    broadcast use vstd::seq_lib::group_to_multiset_ensures;

    lemma_secs(times, secs);
    lemma_few(times, secs);
    let deltas = intervals(secs);
    assert(deltas.len() > 0);
    lemma_mode_exists(deltas);
    let (p, n) = mode_of(deltas)->0;
    lemma_occurrences_bounds(deltas, p);
    crate::schedule::lemma_intervals_positive(secs);
    let k = choose|k: int| 0 <= k < deltas.len() && deltas[k] == p;
    assert(p > 0 && p % 60 == 0);
    lemma_gaps(secs, p as int);
    let between = gaps(secs).to_multiset();
    assert(c.period.secs == p);
    assert forall|q: int| q > 0 implies #[trigger] between.count(q) <= between.count(p as int) && (
    between.count(q) == between.count(p as int) ==> p <= q) by {
        if q <= i64::MAX {
            lemma_gaps(secs, q);
            assert(occurrences(deltas, q as i64) <= n);
        }
    }
    let at = phases(secs, p);
    lemma_mode_exists(at);
    let (phase, m) = mode_of(at)->0;
    lemma_occurrences_bounds(at, phase);
    let j = choose|j: int| 0 <= j < at.len() && at[j] == phase;
    lemma_phase(secs[j] as int, p as int);
    let off = offsets(secs, p as int);
    assert forall|i: int| 0 <= i < at.len() implies #[trigger] off[i] == at[i] by {
        lemma_phase(secs[i] as int, p as int);
    }
    let within = off.to_multiset();
    lemma_count(at, off, phase);
    assert forall|q: int| #[trigger]
        within.count(q) <= within.count(phase as int) && (within.count(q) == within.count(
            phase as int,
        ) ==> phase <= q) by {
        if i64::MIN <= q <= i64::MAX {
            lemma_count(at, off, q as i64);
            assert(occurrences(at, q as i64) <= m);
        } else if within.count(q) > 0 {
            assert(off.contains(q));
            let i = choose|i: int| 0 <= i < off.len() && off[i] == q;
            assert(off[i] == at[i]);
        }
    }
}

/// There are no more distinct seconds than times.
proof fn lemma_few(times: Seq<Time>, secs: Seq<i64>)
    requires
        secs == distinct_seconds(times),
    ensures
        secs.len() <= times.len(),
        intervals(secs).len() <= secs.len(),
{
    crate::order::law_sorting_keeps_the_values(seconds(times));
    lemma_no_longer(in_order(seconds(times)));
    lemma_fewer_intervals(secs);
}

proof fn lemma_no_longer(s: Seq<i64>)
    ensures
        without_repeats(s).len() <= s.len(),
    decreases s.len(),
{
    if s.len() >= 2 {
        lemma_no_longer(s.drop_last());
    }
}

proof fn lemma_fewer_intervals(s: Seq<i64>)
    ensures
        intervals(s).len() <= s.len(),
    decreases s.len(),
{
    if s.len() >= 2 {
        lemma_fewer_intervals(s.drop_last());
    }
}

/// Where no cadence is found, there are fewer than three distinct seconds, or
/// no gap occurs twice and makes up half of those that are not nothing.
pub proof fn law_without_a_cadence_no_gap_dominates(times: Seq<Time>, secs: Seq<i64>, q: int)
    requires
        times.len() <= usize::MAX,
        forall|k: int| 0 <= k < times.len() ==> (#[trigger] times[k]).wf(),
        are_the_seconds_of(secs, times),
        cadence_of(times) is None,
        secs.len() >= 3,
        q > 0,
    ensures
        ({
            let between = gaps(secs).to_multiset();
            between.count(q) < 2 || 2 * between.count(q) < gaps(secs).len() - between.count(0)
        }),
{
    lemma_secs(times, secs);
    let deltas = intervals(secs);
    if q <= i64::MAX {
        lemma_gaps(secs, q);
        lemma_occurrences_bounds(deltas, q as i64);
        if occurrences(deltas, q as i64) >= 2 {
            assert(deltas.len() > 0);
            lemma_mode_exists(deltas);
            let (p, n) = mode_of(deltas)->0;
            assert(occurrences(deltas, q as i64) <= n);
            assert(phases(secs, p).len() > 0);
        }
    } else {
        lemma_gaps(secs, 60);
    }
}

/// The next slot lies a whole number of periods from the phase, on a whole
/// second, after `t` and no more than a period after it. Where the calendar
/// ends before it, `t` stays.
pub proof fn law_the_next_slot_is_within_a_period(c: Cadence, t: Time)
    requires
        t.wf(),
        0 < c.period.secs,
        c.phase.secs < c.period.secs,
    ensures
        ({
            let r = c.next(t);
            r == t || {
                &&& r.nanos == 0
                &&& t.secs < r.secs <= t.secs + c.period.secs
                &&& (r.secs - c.phase.secs) % (c.period.secs as int) == 0
            }
        }),
        t.secs + c.period.secs <= LAST_SECOND ==> c.next(t) != t,
{
    crate::schedule::law_next_slot_is_the_first_after(c, t.secs as int);
}

} // verus!
