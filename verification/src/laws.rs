//! What holds of a feed from batch to batch, and of the polling around it.

pub mod awc;
pub mod batches;
pub mod cadence;
pub mod columns;
pub mod lag;
pub mod lines;
pub mod nws;
pub mod reports;
pub mod requests;
pub mod synoptic;
pub mod texts;
pub mod waits;

use vstd::arithmetic::power2::{lemma2_to64, lemma_pow2_unfold, pow2};
use vstd::prelude::*;

use crate::feed::{
    after_rows, all_reported, backoff_ns, doubled, fills_slot, lemma_doubled_grows, on_schedule,
    reported, routine_times, seconds_between, slot_filled, status_of, times_of, window_for,
    Event, Feed, Memory, Row, LONGEST_BACKOFF,
};
use crate::order::in_order;
use crate::schedule::{cadence_of, moved_earlier, Cadence};
use crate::time::{earlier, earlier_fits, elapsed_ns, Span, Time};
use crate::watch::{Phase, Slot};

verus! {

/// A time is remembered after some rows if it was before, or is the time of
/// one of them.
pub(crate) proof fn lemma_seen_times(m: Memory, rows: Seq<Row>, now: Time, t: Time)
    ensures
        after_rows(m, rows, now).seen.contains_key(t) <==> m.seen.contains_key(t) || exists|i: int|
            0 <= i < rows.len() && (#[trigger] rows[i]).obs.time == t,
    decreases rows.len(),
{
    if rows.len() > 0 {
        let head = rows.drop_last();
        lemma_seen_times(m, head, now, t);
        if exists|i: int| 0 <= i < head.len() && (#[trigger] head[i]).obs.time == t {
            let i = choose|i: int| 0 <= i < head.len() && (#[trigger] head[i]).obs.time == t;
            assert(rows[i].obs.time == t);
        }
        if rows.last().obs.time == t {
            assert(rows[rows.len() - 1].obs.time == t);
        }
        if exists|i: int| 0 <= i < rows.len() && (#[trigger] rows[i]).obs.time == t {
            let i = choose|i: int| 0 <= i < rows.len() && (#[trigger] rows[i]).obs.time == t;
            if i < head.len() {
                assert(head[i].obs.time == t);
            }
        }
    }
}

/// What is remembered of a time that no row has stays as it was.
proof fn lemma_other_times_stay(m: Memory, rows: Seq<Row>, now: Time, t: Time)
    requires
        forall|i: int| 0 <= i < rows.len() ==> (#[trigger] rows[i]).obs.time != t,
        m.seen.contains_key(t),
    ensures
        after_rows(m, rows, now).seen.contains_key(t),
        after_rows(m, rows, now).seen[t] == m.seen[t],
    decreases rows.len(),
{
    if rows.len() > 0 {
        let head = rows.drop_last();
        assert forall|i: int| 0 <= i < head.len() implies (#[trigger] head[i]).obs.time != t by {
            assert(rows[i].obs.time != t);
        }
        lemma_other_times_stay(m, head, now, t);
        assert(rows[rows.len() - 1].obs.time != t);
    }
}

/// What is reported of one row is among what is reported of all.
proof fn lemma_row_is_reported(
    station: String,
    m: Memory,
    rows: Seq<Row>,
    expected: Option<Time>,
    now: Time,
    i: int,
    e: Event,
)
    requires
        0 <= i < rows.len(),
        reported(station, after_rows(m, rows.take(i), now), rows[i], expected, now).contains(e),
    ensures
        all_reported(station, m, rows, expected, now).contains(e),
    decreases rows.len(),
{
    let head = rows.drop_last();
    let a = all_reported(station, m, head, expected, now);
    let b = reported(station, after_rows(m, head, now), rows.last(), expected, now);
    if i == rows.len() - 1 {
        assert(rows.take(i) == head);
        let k = choose|k: int| 0 <= k < b.len() && b[k] == e;
        assert((a + b)[a.len() + k] == e);
    } else {
        assert(head.take(i) == rows.take(i));
        lemma_row_is_reported(station, m, head, expected, now, i, e);
        let k = choose|k: int| 0 <= k < a.len() && a[k] == e;
        assert((a + b)[k] == e);
    }
}

/// Every row at a time not seen before is reported as new.
pub proof fn law_unseen_rows_are_reported(
    station: String,
    m: Memory,
    rows: Seq<Row>,
    expected: Option<Time>,
    now: Time,
    i: int,
)
    requires
        0 <= i < rows.len(),
        !m.seen.contains_key(rows[i].obs.time),
        forall|j: int| 0 <= j < i ==> (#[trigger] rows[j]).obs.time != rows[i].obs.time,
    ensures
        all_reported(station, m, rows, expected, now).contains(
            Event::New {
                station,
                obs: rows[i].obs,
                first_seen: now,
                latency_s: seconds_between(now, rows[i].obs.time),
                expected,
                on_schedule: on_schedule(rows[i].obs, expected),
            },
        ),
{
    let before = rows.take(i);
    lemma_seen_times(m, before, now, rows[i].obs.time);
    let found = reported(station, after_rows(m, before, now), rows[i], expected, now);
    assert(found.contains(found[0]));
    lemma_row_is_reported(station, m, rows, expected, now, i, found[0]);
}

/// A row re-issued with other content for a time already seen is reported as a
/// correction.
pub proof fn law_reissued_rows_are_corrections(
    station: String,
    m: Memory,
    rows: Seq<Row>,
    expected: Option<Time>,
    now: Time,
    i: int,
)
    requires
        0 <= i < rows.len(),
        m.seen.contains_key(rows[i].obs.time),
        m.seen[rows[i].obs.time] != rows[i].identity(),
        forall|j: int| 0 <= j < i ==> (#[trigger] rows[j]).obs.time != rows[i].obs.time,
    ensures
        all_reported(station, m, rows, expected, now).contains(
            Event::Corrected { station, obs: rows[i].obs, first_seen: now },
        ),
{
    let before = rows.take(i);
    lemma_other_times_stay(m, before, now, rows[i].obs.time);
    let found = reported(station, after_rows(m, before, now), rows[i], expected, now);
    assert(found.contains(found[0]));
    lemma_row_is_reported(station, m, rows, expected, now, i, found[0]);
}

/// The observation time of a report of a new row.
pub open spec fn new_time(e: Event) -> Option<Time> {
    match e {
        Event::New { obs, .. } => Some(obs.time),
        _ => None,
    }
}

/// No time is reported as new that was seen before, and none twice.
pub proof fn law_no_time_is_new_twice(
    station: String,
    m: Memory,
    rows: Seq<Row>,
    expected: Option<Time>,
    now: Time,
)
    ensures
        ({
            let events = all_reported(station, m, rows, expected, now);
            &&& forall|k: int|
                0 <= k < events.len() ==> (new_time(#[trigger] events[k]) matches Some(t)
                    ==> !m.seen.contains_key(t) && after_rows(m, rows, now).seen.contains_key(t))
            &&& forall|j: int, k: int|
                0 <= j < k < events.len() && new_time(#[trigger] events[j]) is Some && new_time(
                    #[trigger] events[k],
                ) is Some ==> new_time(events[j]) != new_time(events[k])
        }),
    decreases rows.len(),
{
    if rows.len() > 0 {
        let head = rows.drop_last();
        law_no_time_is_new_twice(station, m, head, expected, now);
        let between = after_rows(m, head, now);
        let a = all_reported(station, m, head, expected, now);
        let b = reported(station, between, rows.last(), expected, now);
        let events = a + b;
        assert forall|k: int| 0 <= k < events.len() implies (new_time(#[trigger] events[k]) matches Some(
            t,
        ) ==> !m.seen.contains_key(t) && after_rows(m, rows, now).seen.contains_key(t)) by {
            if let Some(t) = new_time(events[k]) {
                if k < a.len() {
                    assert(events[k] == a[k]);
                } else {
                    assert(events[k] == b[k - a.len()]);
                    lemma_seen_times(m, head, now, t);
                }
            }
        }
        assert forall|j: int, k: int|
            0 <= j < k < events.len() && new_time(#[trigger] events[j]) is Some && new_time(
                #[trigger] events[k],
            ) is Some implies new_time(events[j]) != new_time(events[k]) by {
            if k < a.len() {
                assert(events[j] == a[j] && events[k] == a[k]);
            } else {
                assert(j < a.len());
                assert(events[j] == a[j]);
                assert(between.seen.contains_key(new_time(a[j])->0));
                assert(events[k] == b[k - a.len()]);
            }
        }
    }
}

/// Rows whose content was seen before are passed over in silence.
pub proof fn law_seen_content_is_silent(
    station: String,
    m: Memory,
    rows: Seq<Row>,
    expected: Option<Time>,
    now: Time,
)
    requires
        forall|i: int| 0 <= i < rows.len() ==> status_of(m, #[trigger] rows[i]) is Same,
    ensures
        after_rows(m, rows, now) == m,
        all_reported(station, m, rows, expected, now).len() == 0,
        !slot_filled(m, rows, expected, now),
    decreases rows.len(),
{
    if rows.len() > 0 {
        let head = rows.drop_last();
        assert forall|i: int| 0 <= i < head.len() implies status_of(m, #[trigger] head[i]) is Same by {
            assert(head[i] == rows[i]);
        }
        law_seen_content_is_silent(station, m, head, expected, now);
        assert(status_of(m, rows[rows.len() - 1]) is Same);
    }
}

/// Rows at the same time have the same content.
pub open spec fn consistent(rows: Seq<Row>) -> bool {
    forall|i: int, j: int|
        0 <= i < rows.len() && 0 <= j < rows.len() && (#[trigger] rows[i]).obs.time == (
        #[trigger] rows[j]).obs.time ==> rows[i].identity() == rows[j].identity()
}

/// The content of every row is remembered.
proof fn lemma_content_is_remembered(m: Memory, rows: Seq<Row>, now: Time, i: int)
    requires
        consistent(rows),
        0 <= i < rows.len(),
    ensures
        status_of(after_rows(m, rows, now), rows[i]) is Same,
    decreases rows.len(),
{
    let head = rows.drop_last();
    assert(consistent(head)) by {
        assert forall|a: int, b: int|
            0 <= a < head.len() && 0 <= b < head.len() && (#[trigger] head[a]).obs.time == (
            #[trigger] head[b]).obs.time implies head[a].identity() == head[b].identity() by {
            assert(rows[a].obs.time == rows[b].obs.time);
        }
    }
    if i < rows.len() - 1 {
        lemma_content_is_remembered(m, head, now, i);
        assert(head[i] == rows[i]);
        assert(rows[i].obs.time == rows[rows.len() - 1].obs.time ==> rows[i].identity()
            == rows[rows.len() - 1].identity());
    }
}

/// A batch that comes again, with no two contents for one time, reports nothing
/// and changes nothing, however old its rows are.
pub proof fn law_a_repeated_batch_is_silent(
    feed: Feed,
    rows: Seq<Row>,
    now: Time,
    expected: Option<Time>,
    later: Time,
)
    requires
        consistent(rows),
    ensures
        ({
            let m = feed.memory_after(rows, now);
            &&& all_reported(feed.station, m, in_order(rows), expected, later).len() == 0
            &&& after_rows(m, in_order(rows), later) == m
            &&& !slot_filled(m, in_order(rows), expected, later)
        }),
{
    let sorted = in_order(rows);
    let m = after_rows(feed.memory(), sorted, now);
    let kept = feed.memory_after(rows, now);
    assert forall|i: int| 0 <= i < sorted.len() implies exists|k: int|
        0 <= k < rows.len() && rows[k] == #[trigger] sorted[i] by {
        assert(sorted.contains(sorted[i]));
        crate::order::lemma_same_members(rows, sorted[i]);
    }
    assert(consistent(sorted)) by {
        assert forall|a: int, b: int|
            0 <= a < sorted.len() && 0 <= b < sorted.len() && (#[trigger] sorted[a]).obs.time == (
            #[trigger] sorted[b]).obs.time implies sorted[a].identity() == sorted[b].identity() by {
            let i = choose|k: int| 0 <= k < rows.len() && rows[k] == sorted[a];
            let j = choose|k: int| 0 <= k < rows.len() && rows[k] == sorted[b];
            assert(rows[i].obs.time == rows[j].obs.time);
        }
    }
    assert forall|i: int| 0 <= i < sorted.len() implies status_of(
        kept,
        #[trigger] sorted[i],
    ) is Same by {
        lemma_content_is_remembered(feed.memory(), sorted, now, i);
        assert(times_of(sorted)[i] == sorted[i].obs.time);
        assert(times_of(sorted).contains(sorted[i].obs.time));
        assert(kept.seen.contains_key(sorted[i].obs.time));
    }
    law_seen_content_is_silent(feed.station, kept, sorted, expected, later);
}

/// The report of a new row that fills the slot.
pub open spec fn tells_filling(e: Event) -> bool {
    e matches Event::New { on_schedule, .. } && on_schedule
}

/// The slot counts as filled exactly when a new row on schedule is reported.
pub proof fn law_a_slot_is_filled_by_a_reported_row(
    station: String,
    m: Memory,
    rows: Seq<Row>,
    expected: Option<Time>,
    now: Time,
)
    ensures
        slot_filled(m, rows, expected, now) <==> exists|k: int|
            0 <= k < all_reported(station, m, rows, expected, now).len() && #[trigger] tells_filling(
                all_reported(station, m, rows, expected, now)[k],
            ),
    decreases rows.len(),
{
    if rows.len() > 0 {
        let head = rows.drop_last();
        law_a_slot_is_filled_by_a_reported_row(station, m, head, expected, now);
        let between = after_rows(m, head, now);
        let a = all_reported(station, m, head, expected, now);
        let b = reported(station, between, rows.last(), expected, now);
        let events = a + b;
        if slot_filled(m, head, expected, now) {
            let k = choose|k: int| 0 <= k < a.len() && #[trigger] tells_filling(a[k]);
            assert(tells_filling(events[k]));
        }
        if fills_slot(between, rows.last(), expected) {
            assert(events[a.len() as int] == b[0]);
            assert(tells_filling(events[a.len() as int]));
        }
        if exists|k: int| 0 <= k < events.len() && #[trigger] tells_filling(events[k]) {
            let k = choose|k: int| 0 <= k < events.len() && #[trigger] tells_filling(events[k]);
            if k < a.len() {
                assert(tells_filling(a[k]));
            } else {
                assert(events[k] == b[k - a.len()]);
                assert(fills_slot(between, rows.last(), expected));
            }
        }
        assert(all_reported(station, m, rows, expected, now) == events);
    }
}

/// The latest time never goes back, and covers every row that filled a slot.
pub proof fn law_the_latest_time_moves_on(
    m: Memory,
    rows: Seq<Row>,
    expected: Option<Time>,
    now: Time,
)
    ensures
        m.last_time matches Some(t) ==> (after_rows(m, rows, now).last_time matches Some(u)
            && !u.precedes(t)),
        slot_filled(m, rows, expected, now) ==> (expected matches Some(e) && after_rows(
            m,
            rows,
            now,
        ).last_time matches Some(u) && !u.precedes(e)),
    decreases rows.len(),
{
    if rows.len() > 0 {
        law_the_latest_time_moves_on(m, rows.drop_last(), expected, now);
    }
}

/// A time is forgotten exactly when it lies before two history windows ago and
/// before the poll window, and no row of the batch just given has it. What is
/// not forgotten keeps its content.
pub proof fn law_only_what_cannot_come_again_is_forgotten(
    feed: Feed,
    rows: Seq<Row>,
    now: Time,
    t: Time,
)
    requires
        after_rows(feed.memory(), in_order(rows), now).seen.contains_key(t),
    ensures
        ({
            let before = after_rows(feed.memory(), in_order(rows), now).seen;
            let after = feed.memory_after(rows, now).seen;
            &&& !after.contains_key(t) <==> {
                &&& t.precedes(moved_earlier(now, Span::of_ns(feed.cfg.history.ns() * 2)))
                &&& earlier_fits(now, feed.poll_window)
                &&& t.precedes(earlier(now, feed.poll_window))
                &&& forall|i: int| 0 <= i < rows.len() ==> (#[trigger] rows[i]).obs.time != t
            }
            &&& after.contains_key(t) ==> after[t] == before[t]
        }),
{
    let sorted = in_order(rows);
    if times_of(sorted).contains(t) {
        let i = choose|i: int| 0 <= i < sorted.len() && times_of(sorted)[i] == t;
        assert(sorted.contains(sorted[i]));
        crate::order::lemma_same_members(rows, sorted[i]);
        let k = choose|k: int| 0 <= k < rows.len() && rows[k] == sorted[i];
        assert(rows[k].obs.time == t);
    }
    if exists|i: int| 0 <= i < rows.len() && (#[trigger] rows[i]).obs.time == t {
        let i = choose|i: int| 0 <= i < rows.len() && (#[trigger] rows[i]).obs.time == t;
        assert(rows.contains(rows[i]));
        crate::order::lemma_same_members(rows, rows[i]);
        let k = choose|k: int| 0 <= k < sorted.len() && sorted[k] == rows[i];
        assert(times_of(sorted)[k] == t);
    }
}

/// The observation time of a report of a row.
pub open spec fn row_time(e: Event) -> Option<Time> {
    match e {
        Event::New { obs, .. } => Some(obs.time),
        Event::Corrected { obs, .. } => Some(obs.time),
        _ => None,
    }
}

proof fn lemma_reports_keep_order(
    station: String,
    m: Memory,
    rows: Seq<Row>,
    expected: Option<Time>,
    now: Time,
)
    requires
        crate::order::ranked(rows),
    ensures
        ({
            let events = all_reported(station, m, rows, expected, now);
            &&& forall|k: int|
                0 <= k < events.len() ==> (row_time(#[trigger] events[k]) matches Some(t)
                    && rows.len() > 0 && !rows.last().obs.time.precedes(t))
            &&& forall|j: int, k: int|
                0 <= j < k < events.len() ==> !row_time(#[trigger] events[k])->0.precedes(
                    row_time(#[trigger] events[j])->0,
                )
        }),
    decreases rows.len(),
{
    if rows.len() > 0 {
        let head = rows.drop_last();
        assert(crate::order::ranked(head));
        lemma_reports_keep_order(station, m, head, expected, now);
        let a = all_reported(station, m, head, expected, now);
        let b = reported(station, after_rows(m, head, now), rows.last(), expected, now);
        let events = a + b;
        if head.len() > 0 {
            assert(!rows[rows.len() - 1].obs.time.precedes(rows[rows.len() - 2].obs.time));
        }
        assert forall|k: int| 0 <= k < events.len() implies (row_time(#[trigger] events[k]) matches Some(
            t,
        ) && !rows.last().obs.time.precedes(t)) by {
            if k < a.len() {
                assert(events[k] == a[k]);
            } else {
                assert(events[k] == b[k - a.len()]);
            }
        }
        assert forall|j: int, k: int| 0 <= j < k < events.len() implies !row_time(
            #[trigger] events[k],
        )->0.precedes(row_time(#[trigger] events[j])->0) by {
            assert(j < a.len());
            assert(events[j] == a[j]);
            if k < a.len() {
                assert(events[k] == a[k]);
            } else {
                assert(events[k] == b[k - a.len()]);
            }
        }
    }
}

/// The rows of a batch are reported in order of time.
pub proof fn law_rows_are_reported_in_order(
    station: String,
    m: Memory,
    rows: Seq<Row>,
    expected: Option<Time>,
    now: Time,
)
    ensures
        ({
            let events = all_reported(station, m, in_order(rows), expected, now);
            &&& forall|k: int| 0 <= k < events.len() ==> row_time(#[trigger] events[k]) is Some
            &&& forall|j: int, k: int|
                0 <= j < k < events.len() ==> !row_time(#[trigger] events[k])->0.precedes(
                    row_time(#[trigger] events[j])->0,
                )
        }),
{
    crate::order::law_sorting_ranks(rows);
    lemma_reports_keep_order(station, m, in_order(rows), expected, now);
}

/// After an error a wait is never longer than five minutes, and never shorter
/// after more errors.
pub proof fn law_backoff_grows_to_a_cap(base: Span, fewer: u32, more: u32)
    requires
        0 < fewer <= more,
    ensures
        backoff_ns(base, fewer) <= backoff_ns(base, more) <= LONGEST_BACKOFF * 1_000_000_000,
{
    lemma_doubled_grows(1_000_000_000, fewer as nat, more as nat);
    lemma_doubled_grows(base.ns(), fewer as nat, more as nat);
}

/// Each further error in a row doubles the wait, short of the cap.
pub proof fn law_backoff_doubles(base: Span, errors: u32)
    requires
        0 < errors < u32::MAX,
    ensures
        backoff_ns(base, (errors + 1) as u32) == if 2 * backoff_ns(base, errors) < LONGEST_BACKOFF
            * 1_000_000_000 {
            2 * backoff_ns(base, errors)
        } else {
            (LONGEST_BACKOFF * 1_000_000_000) as nat
        },
{
    let more = (errors + 1) as nat;
    assert(doubled(1_000_000_000, more) == 2 * doubled(1_000_000_000, errors as nat));
    assert(doubled(base.ns(), more) == 2 * doubled(base.ns(), errors as nat));
}

/// Doubling `n` times is multiplying by two to the power of `n`.
pub proof fn law_doubling_multiplies_by_a_power_of_two(ns: nat, n: nat)
    ensures
        doubled(ns, n) == ns * pow2(n),
    decreases n,
{
    if n == 0 {
        lemma2_to64();
    } else {
        let before = (n - 1) as nat;
        law_doubling_multiplies_by_a_power_of_two(ns, before);
        lemma_pow2_unfold(n);
        assert(2 * (ns * pow2(before)) == ns * (2 * pow2(before))) by (nonlinear_arith);
    }
}

/// No wait for a slot goes past its deadline.
pub proof fn law_no_wait_passes_the_deadline(
    feed: Feed,
    slot: Slot,
    phase: Phase,
    errors: u32,
    shortest: Span,
    now: Time,
)
    ensures
        feed.wait_ns(slot, phase, errors, shortest, now) <= Feed::left_ns(slot.deadline, now),
{
}

/// The calendar holds the two slots that follow the anchor.
pub open spec fn calendar_goes_on(feed: Feed, c: Cadence, now: Time) -> bool {
    c.slot_after(c.slot_after(feed.anchor(c, now).secs as int)) <= crate::time::LAST_SECOND
}

/// The slot is the first second on the schedule after both the last row and
/// one period plus the usual publish lag before now. Polling starts, and is
/// fast, for as long after it as the lags say, and the report counts as missed
/// one period after polling starts.
pub proof fn law_a_slot_follows_the_last_row(feed: Feed, c: Cadence, now: Time)
    requires
        feed.wf(),
        c.wf(),
        now.wf(),
        feed.slot_fits(c, now),
        calendar_goes_on(feed, c, now),
        feed.fast().ns() <= crate::time::longest_shift(),
    ensures
        ({
            let slot = feed.slot_for(c, now);
            let floor = moved_earlier(now, feed.reach(c));
            &&& slot.expected.nanos == 0
            &&& c.has_slot_at(slot.expected.secs as int)
            &&& feed.last_time matches Some(t) ==> t.secs < slot.expected.secs
            &&& floor.secs < slot.expected.secs
            &&& forall|m: int|
                floor.secs < m < slot.expected.secs && (feed.last_time matches Some(t) ==> t.secs
                    < m) ==> !#[trigger] c.has_slot_at(m)
            &&& slot.poll_from.ns() == slot.expected.ns() + feed.start().ns()
            &&& slot.fast_until.ns() == slot.expected.ns() + feed.fast().ns()
            &&& slot.deadline.ns() == slot.poll_from.ns() + c.period.ns()
        }),
{
    let slot = feed.slot_for(c, now);
    let anchor = feed.anchor(c, now);
    let s = anchor.secs as int;
    lemma_reach(feed, c);
    crate::schedule::law_next_slot_is_the_first_after(c, s);
    crate::schedule::law_next_slot_is_the_first_after(c, c.slot_after(s));
    crate::schedule::law_slots_are_one_period_apart(c, s);
    assert(anchor.wf());
}

/// The reach of a feed is one period and the start of polling.
proof fn lemma_reach(feed: Feed, c: Cadence)
    requires
        feed.wf(),
        c.wf(),
    ensures
        feed.start().ns() == crate::schedule::LagModel::start_ns(feed.lag@, feed.cfg.lag_margin),
        feed.start().ns() <= crate::schedule::LagModel::LONGEST * 1_000_000_000,
        feed.reach(c).ns() == c.period.ns() + feed.start().ns(),
{
    crate::schedule::lemma_extremes(feed.lag@);
}

/// Between two slots without a background poll, the wait lasts until polling
/// starts.
pub proof fn law_idle_time_is_slept_through(
    feed: Feed,
    c: Cadence,
    planned: Time,
    shortest: Span,
    now: Time,
)
    requires
        feed.wf(),
        c.wf(),
        planned.wf(),
        feed.slot_fits(c, planned),
        calendar_goes_on(feed, c, planned),
        feed.fast().ns() <= crate::time::longest_shift(),
        now.wf(),
        !now.in_leap_second(),
        feed.slot_for(c, planned).phase_at(now) is Idle,
        feed.cfg.idle_poll is None,
    ensures
        ({
            let slot = feed.slot_for(c, planned);
            feed.wait_ns(slot, Phase::Idle, 0, shortest, now) == slot.poll_from.ns() - now.ns()
        }),
{
    let slot = feed.slot_for(c, planned);
    law_a_slot_follows_the_last_row(feed, c, planned);
    lemma_reach(feed, c);
    assert(elapsed_ns(slot.poll_from, now) == slot.poll_from.ns() - now.ns());
    assert(elapsed_ns(slot.deadline, now) == slot.deadline.ns() - now.ns());
}

/// Once a new row has filled a slot, only later slots are polled for.
pub proof fn law_filled_slots_are_left_behind(
    feed: Feed,
    rows: Seq<Row>,
    expected: Time,
    now: Time,
    after: Feed,
    c: Cadence,
    later: Time,
)
    requires
        slot_filled(feed.memory(), in_order(rows), Some(expected), now),
        after.memory() == feed.memory_after(rows, now),
        c.wf(),
        calendar_goes_on(after, c, later),
        after.anchor(c, later).wf(),
    ensures
        after.slot_for(c, later).expected.secs > expected.secs,
{
    law_the_latest_time_moves_on(feed.memory(), in_order(rows), Some(expected), now);
    let s = after.anchor(c, later).secs as int;
    crate::schedule::law_next_slot_is_the_first_after(c, s);
    crate::schedule::law_next_slot_is_the_first_after(c, c.slot_after(s));
}

/// Once a slot is missed, only later slots are polled for, unless the usual
/// publish lag has grown meanwhile.
pub proof fn law_missed_slots_are_left_behind(
    feed: Feed,
    c: Cadence,
    planned: Time,
    now: Time,
    after: Feed,
)
    requires
        feed.wf(),
        after.wf(),
        c.wf(),
        planned.wf(),
        now.wf(),
        feed.slot_fits(c, planned),
        feed.fast().ns() <= crate::time::longest_shift(),
        after.slot_fits(c, now),
        calendar_goes_on(feed, c, planned),
        calendar_goes_on(after, c, now),
        !now.precedes(feed.slot_for(c, planned).deadline),
        after.start().ns() <= feed.start().ns(),
        after.reach(c).ns() <= crate::time::longest_shift(),
    ensures
        after.slot_for(c, now).expected.secs > feed.slot_for(c, planned).expected.secs,
{
    let slot = feed.slot_for(c, planned);
    law_a_slot_follows_the_last_row(feed, c, planned);
    lemma_reach(feed, c);
    lemma_reach(after, c);
    let floor = moved_earlier(now, after.reach(c));
    assert(now.ns() >= slot.deadline.ns());
    assert(floor.ns() == now.ns() - after.reach(c).ns());
    assert(floor.ns() >= slot.expected.ns());
    let s = after.anchor(c, now).secs as int;
    crate::schedule::law_next_slot_is_the_first_after(c, s);
    crate::schedule::law_next_slot_is_the_first_after(c, c.slot_after(s));
}

proof fn lemma_routine_times_of_parts(a: Seq<Row>, b: Seq<Row>)
    ensures
        routine_times(a + b) == routine_times(a) + routine_times(b),
    decreases b.len(),
{
    if b.len() == 0 {
        assert(a + b =~= a);
        assert(routine_times(a) + routine_times(b) =~= routine_times(a));
    } else {
        lemma_routine_times_of_parts(a, b.drop_last());
        assert((a + b).drop_last() =~= a + b.drop_last());
        assert((a + b).last() == b.last());
        assert(routine_times(a + b) =~= routine_times(a) + routine_times(b));
    }
}

/// Special reports teach nothing about the cadence: the routine times, and so
/// the cadence, are the same without one.
pub proof fn law_special_reports_teach_no_cadence(a: Seq<Row>, row: Row, b: Seq<Row>)
    requires
        row.obs.kind is Special,
    ensures
        routine_times(a + seq![row] + b) == routine_times(a + b),
        cadence_of(routine_times(a + seq![row] + b)) == cadence_of(routine_times(a + b)),
{
    lemma_routine_times_of_parts(a + seq![row], b);
    lemma_routine_times_of_parts(a, seq![row]);
    lemma_routine_times_of_parts(a, b);
    let one = seq![row];
    reveal_with_fuel(routine_times, 2);
    assert(one.drop_last() =~= Seq::<Row>::empty());
    assert(routine_times(one) =~= Seq::<Time>::empty());
    assert(routine_times(a) + routine_times(one) =~= routine_times(a));
}

/// The poll window never shrinks, and covers three periods of the cadence.
pub proof fn law_the_poll_window_covers_three_periods(window: Span, c: Cadence)
    requires
        window.wf(),
        c.wf(),
    ensures
        window_for(window, Some(c)).ns() >= window.ns(),
        window_for(window, Some(c)).ns() >= 3 * c.period.ns(),
        window_for(window, None) == window,
{
}

} // verus!
