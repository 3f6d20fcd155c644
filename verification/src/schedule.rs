//! Cadence inference and publish-lag tracking.
//!
//! A station's *cadence* is the period between its scheduled reports plus a
//! phase (where in that period the report lands, e.g. hourly at :54). The
//! *lag* is how long after the observation time a report becomes visible
//! upstream; polling starts a little before the shortest lag seen so far.

use std::collections::VecDeque;

use vstd::prelude::*;

use crate::order::{in_order, sort, Ranked};
use crate::text::{decimal, decimal_of};
use crate::time::{
    as_shift, can_move_earlier, can_move_later, earlier, earlier_fits, elapsed_ns, gap, later,
    later_fits, longest_shift, remainder, shift_earlier, shift_later, timestamp, Span, Time,
};

verus! {

/// `secs` to the nearest minute, halves away from zero.
pub open spec fn nearest_minute(secs: int) -> int {
    if secs >= 0 {
        (secs + 30) / 60 * 60
    } else {
        -((-secs + 30) / 60 * 60)
    }
}

/// Largest number of seconds that counting in a double-precision float would
/// keep exact.
pub const EXACT_SECONDS: i64 = 9_007_199_254_740_992;

/// Rounds to the nearest minute, halves away from zero.
pub fn round_to_minute(secs: i64) -> (r: i64)
    requires
        -EXACT_SECONDS <= secs <= EXACT_SECONDS,
    ensures
        r == nearest_minute(secs as int),
{
    if secs >= 0 {
        (secs + 30) / 60 * 60
    } else {
        let away: i64 = (-secs + 30) / 60 * 60;
        -away
    }
}

/// How often `v` occurs.
pub open spec fn occurrences(values: Seq<i64>, v: i64) -> nat
    decreases values.len(),
{
    if values.len() == 0 {
        0
    } else {
        occurrences(values.drop_last(), v) + if values.last() == v {
            1nat
        } else {
            0nat
        }
    }
}

/// `v` occurs `count` times, no value occurs more often, and no smaller one
/// as often.
pub open spec fn is_mode(values: Seq<i64>, v: i64, count: nat) -> bool {
    &&& count == occurrences(values, v)
    &&& count > 0
    &&& forall|w: i64| #[trigger]
        occurrences(values, w) <= count && (occurrences(values, w) == count ==> v <= w)
}

/// The most frequent value and its count; the smaller one in a tie.
pub open spec fn mode_of(values: Seq<i64>) -> Option<(i64, nat)> {
    if values.len() == 0 {
        None
    } else {
        Some(choose|p: (i64, nat)| is_mode(values, p.0, p.1))
    }
}

/// There is only one mode.
pub proof fn lemma_mode_is_unique(values: Seq<i64>, v: i64, n: nat)
    requires
        is_mode(values, v, n),
    ensures
        mode_of(values) == Some((v, n)),
{
    assert(values.len() > 0);
    let p = choose|p: (i64, nat)| is_mode(values, p.0, p.1);
    assert(is_mode(values, (v, n).0, (v, n).1));
    assert(occurrences(values, v) <= p.1);
    assert(occurrences(values, p.0) <= n);
}

pub(crate) proof fn lemma_occurrences_bounds(values: Seq<i64>, v: i64)
    ensures
        occurrences(values, v) <= values.len(),
        occurrences(values, v) > 0 <==> values.contains(v),
    decreases values.len(),
{
    if values.len() > 0 {
        lemma_occurrences_bounds(values.drop_last(), v);
        if values.last() == v {
            assert(values[values.len() - 1] == v);
        }
        if values.contains(v) && values.last() != v {
            let i = choose|i: int| 0 <= i < values.len() && values[i] == v;
            assert(values.drop_last()[i] == v);
        }
        if values.drop_last().contains(v) {
            let i = choose|i: int| 0 <= i < values.drop_last().len() && values.drop_last()[i] == v;
            assert(values[i] == v);
        }
    }
}

fn count(values: &[i64], v: i64) -> (r: usize)
    ensures
        r == occurrences(values@, v),
{
    let mut n: usize = 0;
    let mut i: usize = 0;
    while i < values.len()
        invariant
            i <= values@.len(),
            n <= i,
            n == occurrences(values@.take(i as int), v),
        decreases values@.len() - i,
    {
        assert(values@.take(i + 1).drop_last() == values@.take(i as int));
        if values[i] == v {
            n += 1;
        }
        i += 1;
    }
    assert(values@.take(i as int) == values@);
    n
}

/// Most frequent value and its count. Ties go to the smaller value, so an
/// ambiguous cadence errs toward polling more often rather than less.
pub fn mode(values: &[i64]) -> (r: Option<(i64, usize)>)
    ensures
        match r {
            Some((v, n)) => is_mode(values@, v, n as nat) && mode_of(values@) == Some((v, n as nat)),
            None => values@.len() == 0 && mode_of(values@) is None,
        },
{
    if values.len() == 0 {
        return None;
    }
    let mut best: i64 = values[0];
    let mut best_count: usize = count(values, best);
    let mut i: usize = 1;
    proof {
        lemma_occurrences_bounds(values@, best);
        assert(values@.contains(values@[0]));
    }
    while i < values.len()
        invariant
            1 <= i <= values@.len(),
            best_count > 0,
            best_count == occurrences(values@, best),
            forall|j: int|
                0 <= j < i ==> occurrences(values@, #[trigger] values@[j]) <= best_count && (
                occurrences(values@, values@[j]) == best_count ==> best <= values@[j]),
        decreases values@.len() - i,
    {
        let v: i64 = values[i];
        let n: usize = count(values, v);
        if n > best_count || (n == best_count && v < best) {
            best = v;
            best_count = n;
        }
        i += 1;
    }
    proof {
        assert forall|w: i64| #[trigger]
            occurrences(values@, w) <= best_count && (occurrences(values@, w) == best_count
                ==> best <= w) by {
            lemma_occurrences_bounds(values@, w);
            if values@.contains(w) {
                let j = choose|j: int| 0 <= j < values@.len() && values@[j] == w;
                assert(occurrences(values@, values@[j]) <= best_count);
            }
        }
        lemma_mode_is_unique(values@, best, best_count as nat);
    }
    Some((best, best_count))
}

/// The seconds of a list of instants.
pub open spec fn seconds(times: Seq<Time>) -> Seq<i64> {
    times.map_values(|t: Time| t.secs)
}

/// `s` without the values that repeat the one ahead of them.
pub open spec fn without_repeats(s: Seq<i64>) -> Seq<i64>
    decreases s.len(),
{
    if s.len() < 2 {
        s
    } else if s.last() == s[s.len() - 2] {
        without_repeats(s.drop_last())
    } else {
        without_repeats(s.drop_last()).push(s.last())
    }
}

/// The distinct seconds of `times`, in increasing order.
pub open spec fn distinct_seconds(times: Seq<Time>) -> Seq<i64> {
    without_repeats(in_order(seconds(times)))
}

/// The intervals between neighbours, rounded to the minute, without those that
/// round to nothing.
pub open spec fn intervals(secs: Seq<i64>) -> Seq<i64>
    decreases secs.len(),
{
    if secs.len() < 2 {
        Seq::empty()
    } else {
        let d = nearest_minute(secs.last() - secs[secs.len() - 2]);
        if d > 0 {
            intervals(secs.drop_last()).push(d as i64)
        } else {
            intervals(secs.drop_last())
        }
    }
}

/// Where in a period of `period` seconds each of `secs` falls, to the minute.
pub open spec fn phases(secs: Seq<i64>, period: i64) -> Seq<i64> {
    secs.map_values(|s: i64| (nearest_minute(s as int % period as int) % (period as int)) as i64)
}

/// The schedule of a station.
#[derive(Debug, Clone, Copy, PartialEq, Eq, Structural)]
pub struct Cadence {
    pub period: Span,
    pub phase: Span,
    /// How many of the observed intervals matched `period`.
    pub matching: usize,
    /// How many intervals were observed.
    pub samples: usize,
}

/// The cadence that a list of observation times shows: the most common
/// interval and the most common phase in it, if at least two intervals and at
/// least half of them agree.
pub open spec fn cadence_of(times: Seq<Time>) -> Option<Cadence> {
    let secs = distinct_seconds(times);
    let deltas = intervals(secs);
    if secs.len() < 3 {
        None
    } else {
        match mode_of(deltas) {
            None => None,
            Some((period, count)) => if count < 2 || 100 * count < Cadence::MIN_AGREEMENT_PERCENT
                * deltas.len() {
                None
            } else {
                match mode_of(phases(secs, period)) {
                    None => None,
                    Some((phase, _)) => Some(
                        Cadence {
                            period: Span { secs: period as u64, nanos: 0 },
                            phase: Span { secs: phase as u64, nanos: 0 },
                            matching: count as usize,
                            samples: deltas.len() as usize,
                        },
                    ),
                }
            },
        }
    }
}

/// Every second lies in the calendar.
pub open spec fn dated(s: Seq<i64>) -> bool {
    forall|i: int|
        0 <= i < s.len() ==> crate::time::FIRST_SECOND <= #[trigger] s[i]
            <= crate::time::LAST_SECOND
}

proof fn lemma_placed_dated(s: Seq<i64>, x: i64)
    requires
        dated(s),
        crate::time::FIRST_SECOND <= x <= crate::time::LAST_SECOND,
    ensures
        dated(crate::order::placed(s, x)),
    decreases s.len(),
{
    if s.len() == 0 || !(x < s.last()) {
    } else {
        assert(dated(s.drop_last()));
        lemma_placed_dated(s.drop_last(), x);
    }
}

proof fn lemma_in_order_dated(s: Seq<i64>)
    requires
        dated(s),
    ensures
        dated(in_order(s)),
    decreases s.len(),
{
    if s.len() > 0 {
        assert(dated(s.drop_last()));
        lemma_in_order_dated(s.drop_last());
        lemma_placed_dated(in_order(s.drop_last()), s.last());
    }
}

fn drop_repeats(s: &Vec<i64>) -> (r: Vec<i64>)
    requires
        dated(s@),
    ensures
        r@ == without_repeats(s@),
        dated(r@),
{
    let mut r: Vec<i64> = Vec::new();
    let mut i: usize = 0;
    while i < s.len()
        invariant
            i <= s@.len(),
            dated(s@),
            dated(r@),
            r@ == without_repeats(s@.take(i as int)),
        decreases s@.len() - i,
    {
        assert(s@.take(i + 1).drop_last() == s@.take(i as int));
        if i == 0 || s[i] != s[i - 1] {
            r.push(s[i]);
        }
        i += 1;
    }
    assert(s@.take(i as int) == s@);
    r
}

pub(crate) proof fn lemma_nearest_minute(secs: int)
    ensures
        nearest_minute(secs) % 60 == 0,
        secs - 30 <= nearest_minute(secs) <= secs + 30,
        secs >= 0 ==> nearest_minute(secs) >= 0,
{
}

fn rounded_intervals(secs: &Vec<i64>) -> (r: Vec<i64>)
    requires
        dated(secs@),
    ensures
        r@ == intervals(secs@),
{
    let mut r: Vec<i64> = Vec::new();
    let mut i: usize = 1;
    if secs.len() < 2 {
        return r;
    }
    while i < secs.len()
        invariant
            1 <= i <= secs@.len(),
            dated(secs@),
            r@ == intervals(secs@.take(i as int)),
        decreases secs@.len() - i,
    {
        assert(secs@.take(i + 1).drop_last() == secs@.take(i as int));
        let d: i64 = round_to_minute(secs[i] - secs[i - 1]);
        if d > 0 {
            r.push(d);
        }
        i += 1;
    }
    assert(secs@.take(i as int) == secs@);
    r
}

fn rounded_phases(secs: &Vec<i64>, period: i64) -> (r: Vec<i64>)
    requires
        0 < period <= EXACT_SECONDS,
    ensures
        r@ == phases(secs@, period),
{
    let mut r: Vec<i64> = Vec::new();
    let mut i: usize = 0;
    while i < secs.len()
        invariant
            0 < period <= EXACT_SECONDS,
            i <= secs@.len(),
            r@ == phases(secs@.take(i as int), period),
        decreases secs@.len() - i,
    {
        assert(secs@.take(i + 1) == secs@.take(i as int).push(secs@[i as int]));
        let at: i64 = round_to_minute(remainder(secs[i], period));
        r.push(remainder(at, period));
        assert(r@ == phases(secs@.take(i + 1), period));
        i += 1;
    }
    assert(secs@.take(i as int) == secs@);
    r
}

pub(crate) proof fn lemma_intervals_positive(secs: Seq<i64>)
    requires
        dated(secs),
    ensures
        intervals(secs).len() <= secs.len(),
        forall|i: int|
            0 <= i < intervals(secs).len() ==> 60 <= #[trigger] intervals(secs)[i]
                <= EXACT_SECONDS && intervals(secs)[i] % 60 == 0,
    decreases secs.len(),
{
    if secs.len() >= 2 {
        assert(dated(secs.drop_last()));
        lemma_intervals_positive(secs.drop_last());
        lemma_nearest_minute(secs.last() - secs[secs.len() - 2]);
    }
}

impl Cadence {
    /// Fewest of every hundred intervals that must agree on a period.
    pub const MIN_AGREEMENT_PERCENT: usize = 50;

    /// Whole minutes throughout, the phase within the period, and enough
    /// agreement to call it a schedule.
    pub open spec fn wf(self) -> bool {
        &&& self.period.nanos == 0
        &&& self.phase.nanos == 0
        &&& 60 <= self.period.secs <= EXACT_SECONDS
        &&& self.period.secs % 60 == 0
        &&& self.phase.secs < self.period.secs
        &&& self.phase.secs % 60 == 0
        &&& 2 <= self.matching <= self.samples
        &&& 100 * self.matching >= Self::MIN_AGREEMENT_PERCENT * self.samples
    }

    /// Infers the cadence from observation times. Returns `None` when there
    /// are too few rows or no interval clearly dominates.
    pub fn infer(times: &[Time]) -> (r: Option<Cadence>)
        requires
            forall|i: int| 0 <= i < times@.len() ==> (#[trigger] times@[i]).wf(),
        ensures
            r == cadence_of(times@),
            r matches Some(c) ==> c.wf(),
    {
        let mut unsorted: Vec<i64> = Vec::new();
        let mut i: usize = 0;
        while i < times.len()
            invariant
                i <= times@.len(),
                forall|k: int| 0 <= k < times@.len() ==> (#[trigger] times@[k]).wf(),
                dated(unsorted@),
                unsorted@ == seconds(times@.take(i as int)),
            decreases times@.len() - i,
        {
            assert(times@.take(i + 1) == times@.take(i as int).push(times@[i as int]));
            unsorted.push(times[i].secs);
            i += 1;
        }
        assert(times@.take(i as int) == times@);
        proof {
            lemma_in_order_dated(unsorted@);
        }
        let sorted = sort(unsorted);
        let secs = drop_repeats(&sorted);
        if secs.len() < 3 {
            return None;
        }
        let deltas = rounded_intervals(&secs);
        proof {
            lemma_intervals_positive(secs@);
        }
        let (period, count): (i64, usize) = match mode(deltas.as_slice()) {
            Some(found) => found,
            None => {
                return None;
            },
        };
        proof {
            lemma_occurrences_bounds(deltas@, period);
            assert(deltas@.contains(period));
        }
        if count < 2 || 100 * (count as u128) < Self::MIN_AGREEMENT_PERCENT as u128 * (
        deltas.len() as u128) {
            return None;
        }
        let at = rounded_phases(&secs, period);
        let phase: i64 = match mode(at.as_slice()) {
            Some((phase, _)) => phase,
            None => {
                return None;
            },
        };
        proof {
            lemma_occurrences_bounds(at@, phase);
            assert(at@.contains(phase));
            let k = choose|k: int| 0 <= k < at@.len() && at@[k] == phase;
            lemma_phase(secs@[k] as int, period as int);
        }
        Some(
            Cadence {
                period: Span::from_secs(period as u64),
                phase: Span::from_secs(phase as u64),
                matching: count,
                samples: deltas.len(),
            },
        )
    }
    /// The first second after `s` that lies on the schedule.
    pub open spec fn slot_after(self, s: int) -> int {
        let period = self.period.secs as int;
        let slot = s - s % period + self.phase.secs;
        if slot <= s {
            slot + period
        } else {
            slot
        }
    }

    /// `n` lies on the schedule.
    pub open spec fn has_slot_at(self, n: int) -> bool {
        (n - self.phase.secs) % (self.period.secs as int) == 0
    }

    /// The instant that [`Cadence::next_after`] gives.
    pub open spec fn next(self, t: Time) -> Time {
        let n = self.slot_after(t.secs as int);
        if crate::time::FIRST_SECOND <= n <= crate::time::LAST_SECOND {
            Time { secs: n as i64, nanos: 0 }
        } else {
            t
        }
    }

    /// First scheduled observation time strictly after `t`, or `t` itself
    /// where the calendar ends before it.
    pub fn next_after(&self, t: Time) -> (r: Time)
        requires
            t.wf(),
            0 < self.period.secs <= i64::MAX,
            self.phase.secs <= i64::MAX,
            self.slot_after(t.secs as int) <= i64::MAX,
        ensures
            r == self.next(t),
            r.wf(),
    {
        let period: i64 = self.period.secs as i64;
        let phase: i64 = self.phase.secs as i64;
        let s: i64 = t.secs;
        proof {
            lemma_slot_base(s as int, period as int);
        }
        let slot: i64 = s - remainder(s, period) + phase;
        let next: i64 = if slot <= s {
            slot + period
        } else {
            slot
        };
        match timestamp(next, 0) {
            Some(found) => found,
            None => t,
        }
    }

    /// The text of [`Cadence::describe`].
    pub open spec fn description(self) -> Seq<char> {
        "every "@ + decimal((self.period.secs / 60) as nat) + " min, aligned to :"@ + two_digits(
            ((self.phase.secs / 60) % 60) as nat,
        )
    }

    /// The schedule in words, as in `every 60 min, aligned to :54`.
    pub fn describe(&self) -> (r: String)
        ensures
            r@ == self.description(),
    {
        let minute: u64 = (self.phase.secs / 60) % 60;
        let mut r = String::new();
        r.append("every ");
        r.append(decimal_of(self.period.secs / 60).as_str());
        r.append(" min, aligned to :");
        if minute < 10 {
            r.push('0');
        }
        r.append(decimal_of(minute).as_str());
        assert(r@ =~= self.description());
        r
    }
}

/// `n` with a leading zero when it has one digit only.
pub open spec fn two_digits(n: nat) -> Seq<char> {
    if n < 10 {
        seq!['0'] + decimal(n)
    } else {
        decimal(n)
    }
}

/// The start of a period is no earlier than a period before the second.
proof fn lemma_slot_base(s: int, period: int)
    requires
        period > 0,
    ensures
        s - period < s - s % period <= s,
        s < 0 ==> s - s % period >= -period || s - s % period >= 2 * s,
        s >= 0 ==> s - s % period >= 0,
{
    assert(0 <= s % period < period);
    if s >= 0 {
        vstd::arithmetic::div_mod::lemma_mod_decreases(s as nat, period as nat);
    } else if -s < period {
        vstd::arithmetic::div_mod::lemma_mod_add_multiples_vanish(s, period);
        vstd::arithmetic::div_mod::lemma_small_mod((s + period) as nat, period as nat);
    }
}

/// A phase to the minute lies within the period and on a minute.
pub(crate) proof fn lemma_phase(s: int, period: int)
    requires
        60 <= period,
        period % 60 == 0,
    ensures
        0 <= nearest_minute(s % period) % period < period,
        nearest_minute(s % period) % period % 60 == 0,
{
    let m = s % period;
    let r = nearest_minute(m);
    lemma_nearest_minute(m);
    assert(0 <= m < period);
    assert(r <= period) by {
        assert(r % 60 == 0);
        assert(r < period + 60);
    }
    if r == period {
        assert(r % period == 0);
    } else {
        vstd::arithmetic::div_mod::lemma_small_mod(r as nat, period as nat);
    }
}

/// The smallest of some values.
pub open spec fn least(s: Seq<i64>) -> Option<i64>
    decreases s.len(),
{
    if s.len() == 0 {
        None
    } else {
        match least(s.drop_last()) {
            Some(m) if m <= s.last() => Some(m),
            _ => Some(s.last()),
        }
    }
}

/// The largest of some values.
pub open spec fn greatest(s: Seq<i64>) -> Option<i64>
    decreases s.len(),
{
    if s.len() == 0 {
        None
    } else {
        match greatest(s.drop_last()) {
            Some(m) if m >= s.last() => Some(m),
            _ => Some(s.last()),
        }
    }
}

/// Rolling record of how many seconds after its observation time a report
/// appeared.
#[derive(Debug, Clone)]
pub struct LagModel {
    samples: VecDeque<i64>,
}

impl View for LagModel {
    type V = Seq<i64>;

    /// The samples, oldest first.
    closed spec fn view(&self) -> Seq<i64> {
        self.samples@
    }
}

impl Default for LagModel {
    fn default() -> (r: LagModel)
        ensures
            r@ == Seq::<i64>::empty(),
            r.wf(),
    {
        LagModel { samples: VecDeque::new() }
    }
}

impl LagModel {
    /// How many samples are kept.
    pub const CAPACITY: usize = 64;

    /// Longest lag that is believed: a day.
    pub const LONGEST: i64 = 86_400;

    /// No more samples than there is room for, each one a lag of at most a day.
    pub open spec fn wf(&self) -> bool {
        &&& self@.len() <= Self::CAPACITY
        &&& forall|i: int| 0 <= i < self@.len() ==> 0 <= #[trigger] self@[i] <= Self::LONGEST
    }

    /// The samples after one more: one that is no lag of at most a day is
    /// passed over, and the oldest makes room when the record is full.
    pub open spec fn observed(samples: Seq<i64>, secs: i64) -> Seq<i64> {
        if secs < 0 || secs > Self::LONGEST {
            samples
        } else if samples.len() == Self::CAPACITY {
            samples.drop_first().push(secs)
        } else {
            samples.push(secs)
        }
    }

    /// Records a lag.
    pub fn observe(&mut self, secs: i64)
        requires
            old(self).wf(),
        ensures
            final(self).wf(),
            final(self)@ == Self::observed(old(self)@, secs),
    {
        if secs < 0 || secs > Self::LONGEST {
            return;
        }
        if self.samples.len() == Self::CAPACITY {
            self.samples.pop_front();
        }
        self.samples.push_back(secs);
        assert(self@ =~= Self::observed(old(self)@, secs));
    }

    /// Number of samples held.
    pub fn len(&self) -> (r: usize)
        ensures
            r == self@.len(),
    {
        self.samples.len()
    }

    /// The shortest lag held.
    pub fn min(&self) -> (r: Option<i64>)
        ensures
            r == least(self@),
    {
        let mut best: Option<i64> = None;
        let mut i: usize = 0;
        while i < self.samples.len()
            invariant
                i <= self@.len(),
                best == least(self@.take(i as int)),
            decreases self@.len() - i,
        {
            let v: i64 = self.samples[i];
            assert(self@.take(i + 1).drop_last() == self@.take(i as int));
            best = match best {
                Some(m) => if m <= v {
                    Some(m)
                } else {
                    Some(v)
                },
                None => Some(v),
            };
            i += 1;
        }
        assert(self@.take(i as int) == self@);
        best
    }

    /// The longest lag held.
    pub fn max(&self) -> (r: Option<i64>)
        ensures
            r == greatest(self@),
    {
        let mut best: Option<i64> = None;
        let mut i: usize = 0;
        while i < self.samples.len()
            invariant
                i <= self@.len(),
                best == greatest(self@.take(i as int)),
            decreases self@.len() - i,
        {
            let v: i64 = self.samples[i];
            assert(self@.take(i + 1).drop_last() == self@.take(i as int));
            best = match best {
                Some(m) => if m >= v {
                    Some(m)
                } else {
                    Some(v)
                },
                None => Some(v),
            };
            i += 1;
        }
        assert(self@.take(i as int) == self@);
        best
    }

    /// The middle one of some lags, the upper middle one of an even number.
    pub open spec fn middle(samples: Seq<i64>) -> Option<i64> {
        if samples.len() == 0 {
            None
        } else {
            Some(in_order(samples)[samples.len() as int / 2])
        }
    }

    /// The median lag held.
    pub fn median(&self) -> (r: Option<i64>)
        ensures
            r == Self::middle(self@),
    {
        let mut v: Vec<i64> = Vec::new();
        let mut i: usize = 0;
        while i < self.samples.len()
            invariant
                i <= self@.len(),
                v@ == self@.take(i as int),
            decreases self@.len() - i,
        {
            v.push(self.samples[i]);
            i += 1;
        }
        assert(v@ == self@);
        if v.len() == 0 {
            return None;
        }
        proof {
            crate::order::law_sorting_keeps_the_values(v@);
        }
        let sorted = sort(v);
        Some(sorted[sorted.len() / 2])
    }

    /// Nanoseconds after the expected time at which polling starts.
    pub open spec fn start_ns(samples: Seq<i64>, margin: Span) -> nat {
        match least(samples) {
            Some(m) if m as int * 1_000_000_000 > margin.ns() => (m as int * 1_000_000_000
                - margin.ns()) as nat,
            _ => 0,
        }
    }

    /// How long after the expected observation time to start polling:
    /// the shortest lag seen so far minus a safety margin, never negative.
    /// With no samples yet, poll from the observation time itself.
    pub fn start_offset(&self, margin: Span) -> (r: Span)
        requires
            self.wf(),
            margin.wf(),
        ensures
            r.wf(),
            r.ns() == Self::start_ns(self@, margin),
            r.ns() <= Self::LONGEST * 1_000_000_000,
    {
        proof {
            lemma_extremes(self@);
        }
        match self.min() {
            Some(m) => Span::from_secs(m as u64).less(margin),
            None => Span::zero(),
        }
    }

    /// Nanoseconds after the expected time for which polling stays fast.
    pub open spec fn fast_ns(samples: Seq<i64>, margin: Span, floor: Span) -> nat {
        match greatest(samples) {
            Some(m) if m as int * 1_000_000_000 + margin.ns() > floor.ns() => (m as int
                * 1_000_000_000 + margin.ns()) as nat,
            _ => floor.ns(),
        }
    }

    /// How long after the expected time to keep polling at the fast rate:
    /// at least `floor`, and at least the longest lag seen plus the margin.
    pub fn fast_window(&self, margin: Span, floor: Span) -> (r: Span)
        requires
            self.wf(),
            margin.wf(),
            floor.wf(),
            greatest(self@) matches Some(m) ==> m * 1_000_000_000 + margin.ns() <= Span::longest(),
        ensures
            r.wf(),
            r.ns() == Self::fast_ns(self@, margin, floor),
    {
        proof {
            lemma_extremes(self@);
        }
        match self.max() {
            Some(m) => floor.longer(Span::from_secs(m as u64).plus(margin)),
            None => floor,
        }
    }
}

/// The extremes are among the values, and bound them.
pub proof fn lemma_extremes(s: Seq<i64>)
    ensures
        s.len() == 0 <==> least(s) is None,
        s.len() == 0 <==> greatest(s) is None,
        least(s) matches Some(m) ==> s.contains(m) && forall|i: int|
            0 <= i < s.len() ==> m <= #[trigger] s[i],
        greatest(s) matches Some(m) ==> s.contains(m) && forall|i: int|
            0 <= i < s.len() ==> #[trigger] s[i] <= m,
    decreases s.len(),
{
    if s.len() > 0 {
        let head = s.drop_last();
        lemma_extremes(head);
        assert(forall|i: int| 0 <= i < head.len() ==> head[i] == s[i]);
        assert(s[s.len() - 1] == s.last());
        assert forall|m: i64| head.contains(m) implies s.contains(m) by {
            let i = choose|i: int| 0 <= i < head.len() && head[i] == m;
            assert(s[i] == m);
        }
        assert forall|i: int| 0 <= i < s.len() implies least(s)->0 <= #[trigger] s[i] && s[i]
            <= greatest(s)->0 by {
            if i < head.len() {
                assert(head[i] == s[i]);
            }
        }
    }
}

/// `t` moved later by `d`; a span that no shift can hold moves nothing.
pub open spec fn moved_later(t: Time, d: Span) -> Time {
    if d.ns() <= longest_shift() {
        later(t, d)
    } else {
        t
    }
}

/// Moving `t` later by `d` stays in the calendar.
pub open spec fn can_be_later(t: Time, d: Span) -> bool {
    d.ns() <= longest_shift() ==> later_fits(t, d)
}

/// `t` moved earlier by `d`; a span that no shift can hold moves nothing.
pub open spec fn moved_earlier(t: Time, d: Span) -> Time {
    if d.ns() <= longest_shift() {
        earlier(t, d)
    } else {
        t
    }
}

/// Moving `t` earlier by `d` stays in the calendar.
pub open spec fn can_be_earlier(t: Time, d: Span) -> bool {
    d.ns() <= longest_shift() ==> earlier_fits(t, d)
}

/// `t` moved later by `d`; a span that no shift can hold moves nothing.
pub fn add(t: Time, d: Span) -> (r: Time)
    requires
        t.wf(),
        d.wf(),
        can_be_later(t, d),
    ensures
        r.wf(),
        r == moved_later(t, d),
{
    match as_shift(d) {
        Some(d) => shift_later(t, d),
        None => t,
    }
}

/// Whether [`add`] stays in the calendar.
pub fn can_add(t: Time, d: Span) -> (r: bool)
    requires
        t.wf(),
        d.wf(),
    ensures
        r == can_be_later(t, d),
{
    match as_shift(d) {
        Some(d) => can_move_later(t, d),
        None => true,
    }
}

/// `t` moved earlier by `d`; a span that no shift can hold moves nothing.
pub fn sub(t: Time, d: Span) -> (r: Time)
    requires
        t.wf(),
        d.wf(),
        can_be_earlier(t, d),
    ensures
        r.wf(),
        r == moved_earlier(t, d),
{
    match as_shift(d) {
        Some(d) => shift_earlier(t, d),
        None => t,
    }
}

/// Whether [`sub`] stays in the calendar.
pub fn can_sub(t: Time, d: Span) -> (r: bool)
    requires
        t.wf(),
        d.wf(),
    ensures
        r == can_be_earlier(t, d),
{
    match as_shift(d) {
        Some(d) => can_move_earlier(t, d),
        None => true,
    }
}

/// Time from `now` until `t`, or zero if `t` has passed.
pub fn until(t: Time, now: Time) -> (r: Span)
    requires
        t.wf(),
        now.wf(),
    ensures
        r.wf(),
        r.ns() == if elapsed_ns(t, now) > 0 {
            elapsed_ns(t, now)
        } else {
            0
        },
{
    let left = gap(t, now);
    if left.secs < 0 || left.nanos < 0 {
        Span::zero()
    } else {
        Span { secs: left.secs as u64, nanos: left.nanos as u32 }
    }
}

/// No multiple of `p` lies strictly between two neighbouring ones.
proof fn lemma_between_multiples(p: int, k: int, x: int)
    requires
        p > 0,
        p * k < x < p * k + p,
    ensures
        x % p != 0,
{
    vstd::arithmetic::div_mod::lemma_mod_multiples_vanish(k, x - p * k, p);
    vstd::arithmetic::div_mod::lemma_small_mod((x - p * k) as nat, p as nat);
}

/// `slot_after` gives a second on the schedule, strictly after `s`, with no
/// other one between.
pub proof fn law_next_slot_is_the_first_after(c: Cadence, s: int)
    requires
        0 < c.period.secs,
        c.phase.secs < c.period.secs,
    ensures
        s < c.slot_after(s) <= s + c.period.secs,
        c.has_slot_at(c.slot_after(s)),
        forall|m: int| s < m < c.slot_after(s) ==> !#[trigger] c.has_slot_at(m),
{
    let p = c.period.secs as int;
    let phase = c.phase.secs as int;
    let k = s / p;
    vstd::arithmetic::div_mod::lemma_fundamental_div_mod(s, p);
    let n = c.slot_after(s);
    assert(s - s % p == p * k);
    vstd::arithmetic::div_mod::lemma_mod_multiples_basic(k, p);
    vstd::arithmetic::mul::lemma_mul_is_commutative(p, k);
    if p * k + phase > s {
        assert(n - phase == k * p);
        assert forall|m: int| s < m < n implies !#[trigger] c.has_slot_at(m) by {
            assert(p * (k - 1) == p * k - p) by (nonlinear_arith);
            lemma_between_multiples(p, k - 1, m - phase);
        }
    } else {
        assert(n - phase == (k + 1) * p) by (nonlinear_arith)
            requires
                n == p * k + phase + p,
        ;
        vstd::arithmetic::div_mod::lemma_mod_multiples_basic(k + 1, p);
        assert forall|m: int| s < m < n implies !#[trigger] c.has_slot_at(m) by {
            lemma_between_multiples(p, k, m - phase);
        }
    }
}

/// Two instants on a schedule are a whole number of periods apart.
proof fn lemma_slots_apart(c: Cadence, a: int, b: int)
    requires
        0 < c.period.secs,
        c.has_slot_at(a),
        c.has_slot_at(b),
        a < b,
    ensures
        b - a >= c.period.secs,
{
    let p = c.period.secs as int;
    let x = a - c.phase.secs;
    let y = b - c.phase.secs;
    vstd::arithmetic::div_mod::lemma_fundamental_div_mod(x, p);
    vstd::arithmetic::div_mod::lemma_fundamental_div_mod(y, p);
    let i = x / p;
    let j = y / p;
    assert(p * i < p * j);
    assert(i < j) by (nonlinear_arith)
        requires
            p > 0,
            p * i < p * j,
    ;
    assert(p * j - p * i >= p) by (nonlinear_arith)
        requires
            p > 0,
            i < j,
    ;
}

/// From one slot to the next is exactly one period.
pub proof fn law_slots_are_one_period_apart(c: Cadence, s: int)
    requires
        0 < c.period.secs,
        c.phase.secs < c.period.secs,
    ensures
        c.slot_after(c.slot_after(s)) == c.slot_after(s) + c.period.secs,
{
    let a = c.slot_after(s);
    law_next_slot_is_the_first_after(c, s);
    law_next_slot_is_the_first_after(c, a);
    lemma_slots_apart(c, a, c.slot_after(a));
}

/// Each second is larger than the one ahead of it.
pub open spec fn increasing(s: Seq<i64>) -> bool {
    forall|i: int, j: int| 0 <= i < j < s.len() ==> #[trigger] s[i] < #[trigger] s[j]
}

pub(crate) proof fn lemma_without_repeats(s: Seq<i64>)
    requires
        crate::order::ranked(s),
    ensures
        increasing(without_repeats(s)),
        forall|x: i64| without_repeats(s).contains(x) <==> s.contains(x),
        s.len() > 0 ==> without_repeats(s).len() > 0 && without_repeats(s).last() == s.last(),
    decreases s.len(),
{
    if s.len() >= 2 {
        let head = s.drop_last();
        let r = without_repeats(head);
        assert(crate::order::ranked(head));
        lemma_without_repeats(head);
        let last = s.last();
        assert(head.last() == s[s.len() - 2]);
        assert(!s[s.len() - 1].ranks_before(s[s.len() - 2]));
        if last != s[s.len() - 2] {
            let w = r.push(last);
            assert forall|i: int, j: int| 0 <= i < j < w.len() implies #[trigger] w[i]
                < #[trigger] w[j] by {
                if j == r.len() && i < r.len() - 1 {
                    assert(r[i] < r[r.len() - 1]);
                }
            }
        }
        assert forall|x: i64| without_repeats(s).contains(x) <==> s.contains(x) by {
            let w = without_repeats(s);
            if w.contains(x) {
                let i = choose|i: int| 0 <= i < w.len() && w[i] == x;
                if i < r.len() {
                    assert(r[i] == x);
                    assert(r.contains(x));
                    assert(head.contains(x));
                    let k = choose|k: int| 0 <= k < head.len() && head[k] == x;
                    assert(s[k] == x);
                } else {
                    assert(s[s.len() - 1] == x);
                }
            }
            if s.contains(x) {
                let k = choose|k: int| 0 <= k < s.len() && s[k] == x;
                if k < head.len() {
                    assert(head[k] == x);
                    assert(head.contains(x));
                    assert(r.contains(x));
                    let i = choose|i: int| 0 <= i < r.len() && r[i] == x;
                    assert(w[i] == x);
                } else {
                    assert(w[w.len() - 1] == x);
                }
            }
        }
    }
}

/// An increasing list is determined by what it holds.
pub(crate) proof fn lemma_increasing_is_determined(a: Seq<i64>, b: Seq<i64>)
    requires
        increasing(a),
        increasing(b),
        forall|x: i64| a.contains(x) <==> b.contains(x),
    ensures
        a == b,
    decreases a.len(),
{
    if a.len() == 0 {
        if b.len() > 0 {
            assert(b.contains(b[0]));
        }
        assert(a =~= b);
    } else {
        assert(a.contains(a[a.len() - 1]));
        let j = choose|j: int| 0 <= j < b.len() && b[j] == a.last();
        assert(b.contains(b[b.len() - 1]));
        let i = choose|i: int| 0 <= i < a.len() && a[i] == b.last();
        assert(a.last() == b.last());
        let c = a.drop_last();
        let d = b.drop_last();
        assert forall|x: i64| c.contains(x) <==> d.contains(x) by {
            if c.contains(x) {
                let k = choose|k: int| 0 <= k < c.len() && c[k] == x;
                assert(a[k] == x && a[k] < a[a.len() - 1]);
                assert(a.contains(x));
                let m = choose|m: int| 0 <= m < b.len() && b[m] == x;
                assert(d[m] == x);
            }
            if d.contains(x) {
                let k = choose|k: int| 0 <= k < d.len() && d[k] == x;
                assert(b[k] == x && b[k] < b[b.len() - 1]);
                assert(b.contains(x));
                let m = choose|m: int| 0 <= m < a.len() && a[m] == x;
                assert(c[m] == x);
            }
        }
        lemma_increasing_is_determined(c, d);
        assert(a == c.push(a.last()));
        assert(b == d.push(b.last()));
    }
}

/// The cadence depends only on which seconds occur: neither the order of the
/// rows nor a row that comes twice makes a difference.
pub proof fn law_inference_ignores_order_and_repeats(a: Seq<Time>, b: Seq<Time>)
    requires
        forall|x: i64| seconds(a).contains(x) <==> seconds(b).contains(x),
    ensures
        distinct_seconds(a) == distinct_seconds(b),
        cadence_of(a) == cadence_of(b),
{
    let u = in_order(seconds(a));
    let v = in_order(seconds(b));
    crate::order::law_sorting_ranks(seconds(a));
    crate::order::law_sorting_ranks(seconds(b));
    lemma_without_repeats(u);
    lemma_without_repeats(v);
    assert forall|x: i64| without_repeats(u).contains(x) <==> without_repeats(v).contains(x) by {
        crate::order::lemma_same_members(seconds(a), x);
        crate::order::lemma_same_members(seconds(b), x);
    }
    lemma_increasing_is_determined(without_repeats(u), without_repeats(v));
}

proof fn lemma_increasing_is_kept(s: Seq<i64>)
    requires
        increasing(s),
    ensures
        in_order(s) == s,
        without_repeats(s) == s,
{
    assert(crate::order::ranked(s));
    crate::order::law_sorting_is_idempotent(s);
    lemma_without_repeats(s);
    lemma_increasing_is_determined(without_repeats(s), s);
}

proof fn lemma_constant_mode(s: Seq<i64>, v: i64)
    requires
        s.len() > 0,
        forall|i: int| 0 <= i < s.len() ==> #[trigger] s[i] == v,
    ensures
        mode_of(s) == Some((v, s.len())),
{
    lemma_constant_occurrences(s, v);
    assert forall|w: i64| #[trigger]
        occurrences(s, w) <= s.len() && (occurrences(s, w) == s.len() ==> v <= w) by {
        lemma_occurrences_bounds(s, w);
        if w != v {
            assert(!s.contains(w));
        }
    }
    lemma_mode_is_unique(s, v, s.len());
}

proof fn lemma_constant_occurrences(s: Seq<i64>, v: i64)
    requires
        forall|i: int| 0 <= i < s.len() ==> #[trigger] s[i] == v,
    ensures
        occurrences(s, v) == s.len(),
    decreases s.len(),
{
    if s.len() > 0 {
        lemma_constant_occurrences(s.drop_last(), v);
    }
}

/// The instants come every `p` seconds, the first one at `first`.
pub open spec fn comes_every(times: Seq<Time>, first: int, p: int) -> bool {
    forall|i: int| 0 <= i < times.len() ==> (#[trigger] times[i]).secs == first + i * p
}

proof fn lemma_regular_intervals(s: Seq<i64>, first: int, p: int)
    requires
        p > 0,
        p % 60 == 0,
        forall|i: int| 0 <= i < s.len() ==> #[trigger] s[i] == first + i * p,
        p <= i64::MAX,
    ensures
        s.len() > 0 ==> intervals(s).len() == s.len() - 1,
        forall|i: int| 0 <= i < intervals(s).len() ==> #[trigger] intervals(s)[i] == p,
    decreases s.len(),
{
    if s.len() >= 2 {
        lemma_regular_intervals(s.drop_last(), first, p);
        let n = s.len() as int;
        assert((n - 1) * p - (n - 2) * p == p) by (nonlinear_arith);
        assert(s.last() - s[n - 2] == p);
        assert(nearest_minute(p) == p);
    }
}

/// Reports that come every `p` seconds, a whole number of minutes, show the
/// period `p`, with every interval in agreement and the phase of the first.
pub proof fn law_regular_reports_show_their_period(times: Seq<Time>, first: int, p: int)
    requires
        times.len() >= 3,
        times.len() <= usize::MAX,
        0 < p <= i64::MAX,
        p % 60 == 0,
        comes_every(times, first, p),
    ensures
        cadence_of(times) == Some(
            Cadence {
                period: Span { secs: p as u64, nanos: 0 },
                phase: Span { secs: (nearest_minute(first % p) % p) as u64, nanos: 0 },
                matching: (times.len() - 1) as usize,
                samples: (times.len() - 1) as usize,
            },
        ),
{
    let s = seconds(times);
    assert(forall|i: int| 0 <= i < s.len() ==> #[trigger] s[i] == times[i].secs);
    assert(increasing(s)) by {
        assert forall|i: int, j: int| 0 <= i < j < s.len() implies #[trigger] s[i]
            < #[trigger] s[j] by {
            assert(times[i].secs == first + i * p && times[j].secs == first + j * p);
            assert(i * p < j * p) by (nonlinear_arith)
                requires
                    i < j,
                    p > 0,
            ;
        }
    }
    lemma_increasing_is_kept(s);
    lemma_regular_intervals(s, first, p);
    let d = intervals(s);
    lemma_constant_mode(d, p as i64);
    let at = phases(s, p as i64);
    let phase = nearest_minute(first % p) % p;
    lemma_phase(first, p);
    assert forall|i: int| 0 <= i < at.len() implies #[trigger] at[i] == phase as i64 by {
        assert(s[i] == times[i].secs);
        vstd::arithmetic::div_mod::lemma_mod_multiples_vanish(i, first, p);
        vstd::arithmetic::mul::lemma_mul_is_commutative(i, p);
    }
    lemma_constant_mode(at, phase as i64);
}

/// On a regular series that keeps to whole minutes, the slot after each report
/// is the time of the one that follows it.
pub proof fn law_next_slot_is_the_next_report(times: Seq<Time>, first: int, p: int, i: int)
    requires
        times.len() >= 3,
        times.len() <= usize::MAX,
        0 < p <= i64::MAX,
        p % 60 == 0,
        first % 60 == 0,
        comes_every(times, first, p),
        0 <= i < times.len(),
    ensures
        cadence_of(times) matches Some(c) && c.slot_after(times[i].secs as int) == times[i].secs
            + p,
{
    law_regular_reports_show_their_period(times, first, p);
    let c = cadence_of(times)->0;
    let m = first % p;
    lemma_phase(first, p);
    assert(m % 60 == 0) by {
        vstd::arithmetic::div_mod::lemma_fundamental_div_mod(first, p);
        vstd::arithmetic::div_mod::lemma_fundamental_div_mod(p, 60);
        let q = p / 60;
        let k = first / p;
        assert(m == first - 60 * (q * k)) by (nonlinear_arith)
            requires
                first == p * k + m,
                p == 60 * q,
        ;
    }
    assert(nearest_minute(m) == m);
    vstd::arithmetic::div_mod::lemma_small_mod(m as nat, p as nat);
    assert(c.phase.secs == m);
    let s = times[i].secs as int;
    vstd::arithmetic::div_mod::lemma_mod_multiples_vanish(i, first, p);
    vstd::arithmetic::mul::lemma_mul_is_commutative(i, p);
    assert(s % p == m);
}

/// Polling never starts later than the margin before the shortest lag held,
/// and at the earliest at the observation time.
pub proof fn law_polling_starts_before_every_lag(samples: Seq<i64>, margin: Span, i: int)
    requires
        0 <= i < samples.len(),
    ensures
        LagModel::start_ns(samples, margin) == 0 || LagModel::start_ns(samples, margin)
            + margin.ns() <= samples[i] * 1_000_000_000,
{
    lemma_extremes(samples);
}

/// Fast polling lasts for the floor at least, and past every lag held by the
/// margin.
pub proof fn law_fast_polling_outlasts_every_lag(
    samples: Seq<i64>,
    margin: Span,
    floor: Span,
    i: int,
)
    requires
        0 <= i < samples.len(),
    ensures
        LagModel::fast_ns(samples, margin, floor) >= floor.ns(),
        LagModel::fast_ns(samples, margin, floor) >= samples[i] * 1_000_000_000 + margin.ns(),
{
    lemma_extremes(samples);
}

/// Outside leap seconds, moving an instant earlier undoes moving it later.
pub proof fn law_sub_undoes_add(t: Time, d: Span)
    requires
        t.wf(),
        d.wf(),
        !t.in_leap_second(),
        later_fits(t, d),
    ensures
        earlier(later(t, d), d) == t,
        elapsed_ns(later(t, d), t) == d.ns(),
{
}

} // verus!
