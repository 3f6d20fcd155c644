//! What a feed learns from each row, and what it says of it.

use vstd::arithmetic::power2::pow2;
use vstd::prelude::*;

use crate::feed::{
    after_history, after_rows, all_reported, backoff_ns, history_events, latest_time, most_recent,
    reported, routine_times, seconds_between, station_events, tells_cadence, window_for, Event,
    Feed, Memory, Row,
};
use crate::model::StationInfo;
use crate::order::in_order;
use crate::schedule::{cadence_of, seconds, Cadence, LagModel};
use crate::text::decimal;
use crate::time::{Span, Time};

verus! {

/// Whole seconds from `a` to `b`, counted towards nothing.
pub open spec fn seconds_from(a: Time, b: Time) -> int {
    let ns = (b.secs - a.secs) * 1_000_000_000 + b.nanos - a.nanos;
    if ns >= 0 {
        ns / 1_000_000_000
    } else {
        -(-ns / 1_000_000_000)
    }
}

/// `a` is no earlier than `b`.
pub open spec fn no_earlier(a: Time, b: Time) -> bool {
    a.secs > b.secs || (a.secs == b.secs && a.nanos >= b.nanos)
}

/// An instant outside any leap second.
pub open spec fn plain_time(t: Time) -> bool {
    t.wf() && t.nanos < 1_000_000_000
}

/// `after` is `before` with `secs` as the newest lag, where that is a lag of at
/// most a day; otherwise it is `before`.
pub open spec fn learns_lag(before: Seq<i64>, after: Seq<i64>, secs: int) -> bool {
    if 0 <= secs <= 86_400 {
        &&& after.len() > 0
        &&& after[after.len() - 1] == secs
        &&& after.drop_last() == if before.len() < 64 {
            before
        } else {
            before.drop_first()
        }
    } else {
        after == before
    }
}

proof fn lemma_learns(before: Seq<i64>, secs: i64)
    requires
        before.len() <= 64,
    ensures
        learns_lag(before, LagModel::observed(before, secs), secs as int),
{
    let after = LagModel::observed(before, secs);
    if 0 <= secs <= 86_400 {
        assert(after.drop_last() =~= if before.len() < 64 {
            before
        } else {
            before.drop_first()
        });
    }
}

proof fn lemma_seconds(a: Time, b: Time)
    requires
        plain_time(a),
        plain_time(b),
    ensures
        seconds_between(b, a) == seconds_from(a, b),
{
}

/// The row has been seen neither before nor among the rows ahead of it.
pub open spec fn first_sight(m: Memory, rows: Seq<Row>) -> bool {
    &&& rows.len() > 0
    &&& !m.seen.contains_key(rows.last().obs.time)
    &&& forall|j: int|
        0 <= j < rows.len() - 1 ==> (#[trigger] rows[j]).obs.time != rows.last().obs.time
}

/// A new report that is no special one shows how long reports take: to its
/// receipt time where it has one, or else to the moment at which it is seen. A
/// special report shows nothing. What is told of it is what it shows.
pub proof fn law_a_new_row_shows_its_lag(
    station: String,
    m: Memory,
    rows: Seq<Row>,
    expected: Option<Time>,
    now: Time,
)
    requires
        first_sight(m, rows),
        after_rows(m, rows.drop_last(), now).lag.len() <= 64,
        plain_time(rows.last().obs.time),
        plain_time(now),
        rows.last().obs.received matches Some(t) ==> plain_time(t),
    ensures
        ({
            let o = rows.last().obs;
            let before = after_rows(m, rows.drop_last(), now).lag;
            let after = after_rows(m, rows, now).lag;
            let events = all_reported(station, m, rows, expected, now);
            &&& o.kind is Special ==> after == before
            &&& !(o.kind is Special) && o.received is None ==> learns_lag(
                before,
                after,
                seconds_from(o.time, now),
            )
            &&& !(o.kind is Special) ==> (o.received matches Some(t) ==> learns_lag(
                before,
                after,
                seconds_from(o.time, t),
            ))
            &&& events.len() > 0
            &&& events[events.len() - 1] == (Event::New {
                station,
                obs: o,
                first_seen: now,
                latency_s: seconds_from(o.time, now) as i64,
                expected,
                on_schedule: expected matches Some(e) && no_earlier(o.time, e),
            })
        }),
{
    let head = rows.drop_last();
    super::lemma_seen_times(m, head, now, rows.last().obs.time);
    assert forall|j: int| 0 <= j < head.len() implies (#[trigger] head[j]).obs.time
        != rows.last().obs.time by {
        assert(rows[j].obs.time != rows.last().obs.time);
    }
    let between = after_rows(m, head, now);
    let b = reported(station, between, rows.last(), expected, now);
    assert(b.len() == 1);
    assert(all_reported(station, m, rows, expected, now).last() == b[0]);
    let o = rows.last().obs;
    lemma_seconds(o.time, now);
    lemma_learns(between.lag, seconds_between(now, o.time));
    if let Some(t) = o.received {
        lemma_seconds(o.time, t);
        lemma_learns(between.lag, seconds_between(t, o.time));
    }
}

/// A new row is remembered with its content, and the latest time is the later
/// one of that before and of the row's.
pub proof fn law_a_new_row_is_remembered(m: Memory, rows: Seq<Row>, now: Time)
    requires
        first_sight(m, rows),
    ensures
        ({
            let row = rows.last();
            let before = after_rows(m, rows.drop_last(), now);
            let after = after_rows(m, rows, now);
            &&& after.seen == before.seen.insert(row.obs.time, row.identity())
            &&& after.last_time matches Some(t) && no_earlier(t, row.obs.time) && (
            before.last_time matches Some(u) ==> no_earlier(t, u) && (t == u || t == row.obs.time))
                && (before.last_time is None ==> t == row.obs.time)
        }),
{
    let head = rows.drop_last();
    super::lemma_seen_times(m, head, now, rows.last().obs.time);
    assert forall|j: int| 0 <= j < head.len() implies (#[trigger] head[j]).obs.time
        != rows.last().obs.time by {
        assert(rows[j].obs.time != rows.last().obs.time);
    }
}

/// A row at a time seen before teaches no lag and moves no time on. With the
/// same content it is passed over; with another it is told as a correction, and
/// the new content is what is remembered.
pub proof fn law_a_row_seen_before_teaches_nothing(
    station: String,
    m: Memory,
    rows: Seq<Row>,
    expected: Option<Time>,
    now: Time,
)
    requires
        rows.len() > 0,
        after_rows(m, rows.drop_last(), now).seen.contains_key(rows.last().obs.time),
    ensures
        ({
            let row = rows.last();
            let before = after_rows(m, rows.drop_last(), now);
            let after = after_rows(m, rows, now);
            let told = all_reported(station, m, rows, expected, now);
            let ahead = all_reported(station, m, rows.drop_last(), expected, now);
            &&& after.lag == before.lag
            &&& after.last_time == before.last_time
            &&& if before.seen[row.obs.time] == row.identity() {
                after.seen == before.seen && told == ahead
            } else {
                &&& after.seen == before.seen.insert(row.obs.time, row.identity())
                &&& told == ahead.push(
                    Event::Corrected { station, obs: row.obs, first_seen: now },
                )
            }
        }),
{
    let ahead = all_reported(station, m, rows.drop_last(), expected, now);
    assert(ahead + Seq::<Event>::empty() =~= ahead);
    let row = rows.last();
    let e = Event::Corrected { station, obs: row.obs, first_seen: now };
    assert(ahead + seq![e] =~= ahead.push(e));
}

/// Rows are known by their raw reports; two rows with the same one are the same
/// content, and two with others are not.
pub proof fn law_raw_reports_are_what_counts(a: Row, b: Row)
    requires
        a.obs.raw is Some,
        b.obs.raw is Some,
    ensures
        a.identity() == b.identity() <==> a.obs.raw->0@ == b.obs.raw->0@,
{
}

/// Of the history, a report that is no special one shows its lag by its receipt
/// time alone; every row is remembered with its content.
pub proof fn law_the_history_shows_lags_by_receipt(m: Memory, rows: Seq<Row>)
    requires
        rows.len() > 0,
        after_history(m, rows.drop_last()).lag.len() <= 64,
        plain_time(rows.last().obs.time),
        rows.last().obs.received matches Some(t) ==> plain_time(t),
    ensures
        ({
            let row = rows.last();
            let before = after_history(m, rows.drop_last());
            let after = after_history(m, rows);
            &&& after.seen == before.seen.insert(row.obs.time, row.identity())
            &&& row.obs.kind is Special || row.obs.received is None ==> after.lag == before.lag
            &&& !(row.obs.kind is Special) ==> (row.obs.received matches Some(t) ==> learns_lag(
                before.lag,
                after.lag,
                seconds_from(row.obs.time, t),
            ))
        }),
{
    let o = rows.last().obs;
    if let Some(t) = o.received {
        lemma_seconds(o.time, t);
        lemma_learns(after_history(m, rows.drop_last()).lag, seconds_between(t, o.time));
    }
}

/// The latest time of the history is the time of one of its rows, and no row is
/// later.
pub proof fn law_the_history_ends_with_its_latest_row(rows: Seq<Row>, i: int)
    requires
        0 <= i < rows.len(),
    ensures
        latest_time(in_order(rows)) matches Some(t) && no_earlier(t, rows[i].obs.time) && exists|
            k: int,
        |
            0 <= k < rows.len() && (#[trigger] rows[k]).obs.time == t,
        latest_time(in_order(Seq::<Row>::empty())) is None,
{
    let s = in_order(rows);
    crate::order::law_sorting_keeps_the_values(rows);
    crate::order::law_sorting_ranks(rows);
    crate::order::lemma_same_members(rows, s[s.len() - 1]);
    assert(s.contains(s[s.len() - 1]));
    let k = choose|k: int| 0 <= k < rows.len() && rows[k] == s[s.len() - 1];
    assert(rows[k].obs.time == s.last().obs.time);
    crate::order::lemma_same_members(rows, rows[i]);
    assert(rows.contains(rows[i]));
    let j = choose|j: int| 0 <= j < s.len() && s[j] == rows[i];
    lemma_later_rows(s, j, s.len() - 1);
}

proof fn lemma_later_rows(s: Seq<Row>, i: int, j: int)
    requires
        crate::order::ranked(s),
        0 <= i <= j < s.len(),
    ensures
        no_earlier(s[j].obs.time, s[i].obs.time),
    decreases j - i,
{
    if i < j {
        lemma_later_rows(s, i, j - 1);
        assert(!crate::order::Ranked::ranks_before(s[j], s[j - 1]));
    }
}

/// The cadence is inferred from the times of all reports but the special ones.
pub proof fn law_routine_times_are_those_of_the_others(rows: Seq<Row>, t: Time)
    ensures
        routine_times(rows).contains(t) <==> exists|i: int|
            0 <= i < rows.len() && (#[trigger] rows[i]).obs.time == t && !(
            rows[i].obs.kind is Special),
    decreases rows.len(),
{
    if rows.len() > 0 {
        let head = rows.drop_last();
        law_routine_times_are_those_of_the_others(head, t);
        let r = routine_times(rows);
        let q = routine_times(head);
        if r.contains(t) && !q.contains(t) {
            assert(rows[rows.len() - 1].obs.time == t);
        }
        if q.contains(t) {
            let i = choose|i: int|
                0 <= i < head.len() && (#[trigger] head[i]).obs.time == t && !(
                head[i].obs.kind is Special);
            assert(rows[i].obs.time == t);
            let k = choose|k: int| 0 <= k < q.len() && q[k] == t;
            assert(r[k] == t);
        }
        if exists|i: int|
            0 <= i < rows.len() && (#[trigger] rows[i]).obs.time == t && !(
            rows[i].obs.kind is Special) {
            let i = choose|i: int|
                0 <= i < rows.len() && (#[trigger] rows[i]).obs.time == t && !(
                rows[i].obs.kind is Special);
            if i < head.len() {
                assert(head[i].obs.time == t);
            } else {
                assert(r[r.len() - 1] == t);
            }
        }
    }
}

/// As many rows are replayed as are wanted and there are: the last ones, in
/// order, each with all that it says. What is known of the station comes first.
pub proof fn law_the_last_rows_are_replayed(
    station: String,
    source: &'static str,
    info: Option<StationInfo>,
    rows: Seq<Row>,
    n: nat,
)
    ensures
        ({
            let first = station_events(station, source, info);
            let shown = history_events(station, most_recent(rows, n));
            &&& info is None ==> first.len() == 0
            &&& info matches Some(info) ==> first.len() == 1 && first[0] == (Event::Station {
                station,
                source,
                info,
            })
            &&& shown.len() == if n < rows.len() {
                n
            } else {
                rows.len()
            }
            &&& forall|k: int|
                0 <= k < shown.len() ==> #[trigger] shown[k] == (Event::History {
                    station,
                    obs: rows[rows.len() - shown.len() + k].obs,
                })
        }),
{
}

/// What is told of a cadence is its period and phase in seconds, the gaps that
/// agree on it, and the shortest, the middle and the longest lag; without one,
/// how many rows there were.
pub proof fn law_what_was_learned_is_told(
    event: Event,
    about: String,
    cadence: Option<Cadence>,
    lags: Seq<i64>,
    count: nat,
    i: int,
)
    requires
        tells_cadence(event, about, cadence, lags, count),
        0 <= i < lags.len(),
    ensures
        cadence is None ==> (event matches Event::NoCadence { station, rows } && station == about
            && rows == count),
        cadence matches Some(c) ==> (event matches Event::CadenceLearned {
            station,
            period_s,
            phase_s,
            matching,
            samples,
            lag_min_s,
            lag_median_s,
            lag_max_s,
            ..
        } && station == about && period_s == c.period.secs && phase_s == c.phase.secs && matching
            == c.matching && samples == c.samples && (lag_min_s matches Some(m) && m <= lags[i]
            && lags.contains(m)) && (lag_max_s matches Some(m) && lags[i] <= m && lags.contains(m))
            && (lag_median_s matches Some(m) && lags.contains(m))),
{
    crate::schedule::lemma_extremes(lags);
    crate::order::law_sorting_keeps_the_values(lags);
    let s = in_order(lags);
    let m = s[lags.len() as int / 2];
    assert(s.contains(m));
    crate::order::lemma_same_members(lags, m);
}

/// The poll window is three periods, or what it was where that is longer.
pub proof fn law_the_poll_window_is_the_longer_one(window: Span, c: Cadence)
    requires
        window.wf(),
        c.wf(),
    ensures
        ({
            let r = window_for(window, Some(c));
            let three = 3 * c.period.secs * 1_000_000_000;
            let had = window.secs * 1_000_000_000 + window.nanos;
            r.secs * 1_000_000_000 + r.nanos == if three > had {
                three
            } else {
                had
            }
        }),
        window_for(window, None) == window,
{
}

/// A wait is left alone without an error. After errors it is at least a second,
/// doubled once for each, and never more than five minutes.
pub proof fn law_a_wait_is_doubled_for_each_error(base: Span, errors: u32)
    ensures
        ({
            let had = (base.secs * 1_000_000_000 + base.nanos) as nat;
            let least = if had < 1_000_000_000 {
                1_000_000_000
            } else {
                had
            };
            let grown = least * pow2(errors as nat);
            backoff_ns(base, errors) == if errors == 0 {
                had
            } else if grown < 300_000_000_000 {
                grown
            } else {
                300_000_000_000
            }
        }),
{
    super::law_doubling_multiplies_by_a_power_of_two(base.ns(), errors as nat);
    super::law_doubling_multiplies_by_a_power_of_two(1_000_000_000, errors as nat);
}

/// A failure is told with how many there were in a row and with why.
pub proof fn law_failures_are_counted(errors: u32, error: Seq<char>)
    ensures
        Feed::poll_failure_text(errors, error) == "poll failed ("@ + decimal(errors as nat)
            + " in a row): "@ + error,
        Feed::history_failure_text(errors, error) == "history fetch failed (attempt "@ + decimal(
            errors as nat,
        ) + "): "@ + error,
{
}

/// From its history a feed learns the cadence of all rows but the special ones,
/// in whatever order they came, and the time of the latest row; it widens its
/// window for the cadence and keeps its station and settings.
pub proof fn law_the_history_is_learned_from(
    before: Feed,
    after: Feed,
    info: Option<StationInfo>,
    rows: Seq<Row>,
    source: &'static str,
    events: Seq<Event>,
    i: int,
)
    requires
        after.primed_from(before, info, rows, source, events),
        0 <= i < rows.len(),
    ensures
        after.station == before.station,
        after.cfg == before.cfg,
        after.cadence == cadence_of(routine_times(rows)),
        after.poll_window == window_for(before.poll_window, after.cadence),
        after.last_time matches Some(t) && no_earlier(t, rows[i].obs.time),
        after.seen@.contains_key(rows[i].obs.time),
{
    let sorted = in_order(rows);
    law_the_history_ends_with_its_latest_row(rows, i);
    assert forall|x: i64| #[trigger] seconds(routine_times(sorted)).contains(x) <==> seconds(
        routine_times(rows),
    ).contains(x) by {
        if seconds(routine_times(rows)).contains(x) {
            lemma_routine_seconds(rows, sorted, x);
        }
        if seconds(routine_times(sorted)).contains(x) {
            lemma_routine_seconds(sorted, rows, x);
        }
    }
    crate::schedule::law_inference_ignores_order_and_repeats(
        routine_times(sorted),
        routine_times(rows),
    );
    assert(rows.contains(rows[i]));
    crate::order::lemma_same_members(rows, rows[i]);
    let k = choose|k: int| 0 <= k < sorted.len() && sorted[k] == rows[i];
    lemma_history_is_seen(before.memory(), sorted, k);
    assert(after.memory().seen.contains_key(rows[i].obs.time));
}

proof fn lemma_routine_seconds(a: Seq<Row>, b: Seq<Row>, x: i64)
    requires
        a == in_order(b) || b == in_order(a),
        seconds(routine_times(a)).contains(x),
    ensures
        seconds(routine_times(b)).contains(x),
{
    let s = seconds(routine_times(a));
    let k = choose|k: int| 0 <= k < s.len() && s[k] == x;
    let t = routine_times(a)[k];
    assert(routine_times(a).contains(t));
    law_routine_times_are_those_of_the_others(a, t);
    law_routine_times_are_those_of_the_others(b, t);
    let i = choose|i: int|
        0 <= i < a.len() && (#[trigger] a[i]).obs.time == t && !(a[i].obs.kind is Special);
    assert(a.contains(a[i]));
    if b == in_order(a) {
        crate::order::lemma_same_members(a, a[i]);
    } else {
        crate::order::lemma_same_members(b, a[i]);
    }
    let j = choose|j: int| 0 <= j < b.len() && b[j] == a[i];
    assert(b[j].obs.time == t);
    let m = choose|m: int| 0 <= m < routine_times(b).len() && routine_times(b)[m] == t;
    assert(seconds(routine_times(b))[m] == x);
}

proof fn lemma_history_is_seen(m: Memory, rows: Seq<Row>, k: int)
    requires
        0 <= k < rows.len(),
    ensures
        after_history(m, rows).seen.contains_key(rows[k].obs.time),
    decreases rows.len(),
{
    if k < rows.len() - 1 {
        lemma_history_is_seen(m, rows.drop_last(), k);
        assert(rows.drop_last()[k] == rows[k]);
    }
}

/// What a history comes to is told once each: the station if it is described,
/// as many of the last rows as are wanted, and last what was learned.
pub proof fn law_the_history_is_told(
    before: Feed,
    after: Feed,
    info: Option<StationInfo>,
    rows: Seq<Row>,
    source: &'static str,
    events: Seq<Event>,
)
    requires
        after.primed_from(before, info, rows, source, events),
    ensures
        ({
            let first: int = if info is Some {
                1
            } else {
                0
            };
            let shown: int = if before.cfg.replay < rows.len() {
                before.cfg.replay as int
            } else {
                rows.len() as int
            };
            let sorted = in_order(rows);
            &&& events.len() == first + shown + 1
            &&& info matches Some(info) ==> events[0] == (Event::Station {
                station: before.station,
                source,
                info,
            })
            &&& forall|k: int|
                first <= k < first + shown ==> #[trigger] events[k] == (Event::History {
                    station: before.station,
                    obs: sorted[rows.len() - shown + k - first].obs,
                })
            &&& after.cadence is Some <==> events[events.len() - 1] is CadenceLearned
            &&& after.cadence is None <==> events[events.len() - 1] is NoCadence
            &&& tells_cadence(
                events[events.len() - 1],
                before.station,
                after.cadence,
                after.lag@,
                rows.len(),
            )
        }),
{
    let sorted = in_order(rows);
    crate::order::law_sorting_keeps_the_values(rows);
    let n = before.cfg.replay as nat;
    law_the_last_rows_are_replayed(before.station, source, info, sorted, n);
    let a = station_events(before.station, source, info);
    let b = history_events(before.station, most_recent(sorted, n));
    let told = events.drop_last();
    assert(told == a + b);
    assert forall|k: int| a.len() <= k < a.len() + b.len() implies #[trigger] events[k] == b[k
        - a.len()] by {
        assert(told[k] == events[k]);
    }
    if info is Some {
        assert(told[0] == events[0]);
    }
}

} // verus!
