//! What a station's feed knows, and what it reports of what it is given.
//!
//! 1. Prime: from the history, learn the cadence (period + phase) and how long
//!    after the observation time reports usually appear.
//! 2. From every later batch, report the rows that were not seen before and
//!    the corrections of those that were.

use vstd::prelude::*;

use crate::content::Numbers;
use crate::model::{ObsKind, Observation, StationInfo};
use crate::order::{in_order, sort, Ranked};
use crate::schedule::{
    cadence_of, can_be_earlier, can_sub, greatest, least, moved_earlier, Cadence, LagModel,
};
use crate::seen::Seen;
use crate::text::{decimal, decimal_of};
use crate::time::{
    can_move_earlier, earlier, earlier_fits, elapsed_ns, gap, whole_seconds, Span, Time,
};

verus! {

/// How a feed polls.
#[derive(Debug, Clone, Copy, PartialEq, Eq, Structural)]
pub struct FeedConfig {
    /// History window loaded at startup.
    pub history: Span,
    /// Historical rows to replay at startup.
    pub replay: usize,
    /// Poll interval while a report is expected any moment.
    pub poll_interval: Span,
    /// Poll interval once a report is overdue.
    pub slow_interval: Span,
    /// Minimum length of the fast-polling window after the expected time.
    pub fast_window: Span,
    /// Start polling this much before the shortest publish lag seen so far.
    pub lag_margin: Span,
    /// Optional background poll interval while idle between expected times.
    pub idle_poll: Option<Span>,
}

impl FeedConfig {
    /// Every span is well formed.
    pub open spec fn wf(self) -> bool {
        &&& self.history.wf()
        &&& self.poll_interval.wf()
        &&& self.slow_interval.wf()
        &&& self.fast_window.wf()
        &&& self.lag_margin.wf()
        &&& self.idle_poll matches Some(d) ==> d.wf()
    }
}

/// What a feed reports.
#[derive(Debug)]
pub enum Event {
    Station { station: String, source: &'static str, info: StationInfo },
    History { station: String, obs: Observation },
    CadenceLearned {
        station: String,
        description: String,
        period_s: u64,
        phase_s: u64,
        /// Intervals that agree with the period.
        matching: usize,
        samples: usize,
        lag_min_s: Option<i64>,
        lag_median_s: Option<i64>,
        lag_max_s: Option<i64>,
    },
    NoCadence { station: String, rows: usize },
    Waiting {
        station: String,
        expected: Time,
        poll_from: Time,
        /// Poll interval used once `poll_from` is reached.
        poll_every_s: u64,
    },
    New {
        station: String,
        obs: Observation,
        first_seen: Time,
        /// Seconds between the observation time and when this feed first saw it.
        latency_s: i64,
        expected: Option<Time>,
        on_schedule: bool,
    },
    Corrected { station: String, obs: Observation, first_seen: Time },
    Missed { station: String, expected: Time },
    Error { station: String, message: String },
}

impl Event {
    /// The station that the event is about.
    pub open spec fn subject(self) -> Seq<char> {
        match self {
            Event::Station { station, .. } => station@,
            Event::History { station, .. } => station@,
            Event::CadenceLearned { station, .. } => station@,
            Event::NoCadence { station, .. } => station@,
            Event::Waiting { station, .. } => station@,
            Event::New { station, .. } => station@,
            Event::Corrected { station, .. } => station@,
            Event::Missed { station, .. } => station@,
            Event::Error { station, .. } => station@,
        }
    }

    /// The station that the event is about.
    pub fn station(&self) -> (r: &str)
        ensures
            r@ == self.subject(),
    {
        match self {
            Event::Station { station, .. } => station.as_str(),
            Event::History { station, .. } => station.as_str(),
            Event::CadenceLearned { station, .. } => station.as_str(),
            Event::NoCadence { station, .. } => station.as_str(),
            Event::Waiting { station, .. } => station.as_str(),
            Event::New { station, .. } => station.as_str(),
            Event::Corrected { station, .. } => station.as_str(),
            Event::Missed { station, .. } => station.as_str(),
            Event::Error { station, .. } => station.as_str(),
        }
    }
}

/// `ns` doubled `n` times.
pub open spec fn doubled(ns: nat, n: nat) -> nat
    decreases n,
{
    if n == 0 {
        ns
    } else {
        2 * doubled(ns, (n - 1) as nat)
    }
}

/// A wait of at least a second, doubled for each of `errors` failures in a row.
pub open spec fn grown_ns(base: Span, errors: u32) -> nat {
    if base.ns() < 1_000_000_000 {
        doubled(1_000_000_000, errors as nat)
    } else {
        doubled(base.ns(), errors as nat)
    }
}

/// Longest wait after an error, in seconds.
pub const LONGEST_BACKOFF: u64 = 300;

/// The wait that [`backoff`] gives, in nanoseconds.
pub open spec fn backoff_ns(base: Span, errors: u32) -> nat {
    if errors == 0 {
        base.ns()
    } else if grown_ns(base, errors) < LONGEST_BACKOFF * 1_000_000_000 {
        grown_ns(base, errors)
    } else {
        (LONGEST_BACKOFF * 1_000_000_000) as nat
    }
}

/// Doubling more often never makes less.
pub proof fn lemma_doubled_grows(ns: nat, fewer: nat, more: nat)
    requires
        fewer <= more,
    ensures
        doubled(ns, fewer) <= doubled(ns, more),
    decreases more,
{
    if fewer < more {
        lemma_doubled_grows(ns, fewer, (more - 1) as nat);
    }
}

/// Doubles `base` per consecutive error, capped at five minutes.
pub fn backoff(base: Span, errors: u32) -> (r: Span)
    requires
        base.wf(),
    ensures
        r.wf(),
        r.ns() == backoff_ns(base, errors),
{
    if errors == 0 {
        return base;
    }
    let cap = Span::from_secs(LONGEST_BACKOFF);
    let mut wait = base.longer(Span::from_secs(1));
    let ghost least = wait.ns();
    let mut n: u32 = 0;
    while n < errors && !cap.at_most(wait)
        invariant
            n <= errors,
            wait.wf(),
            cap.wf(),
            cap.ns() == 300_000_000_000,
            wait.ns() == doubled(least, n as nat),
        decreases errors - n,
    {
        wait = wait.times(2);
        n += 1;
        assert(doubled(least, n as nat) == 2 * doubled(least, (n - 1) as nat));
    }
    proof {
        lemma_doubled_grows(least, n as nat, errors as nat);
    }
    wait.shorter(cap)
}

/// A row of a batch: an observation, and its numbers written out.
#[derive(Debug)]
pub struct Row {
    pub obs: Observation,
    pub numbers: Numbers,
}

impl Row {
    /// The identity of the row's content.
    pub open spec fn identity(self) -> Seq<char> {
        self.obs.identity(self.numbers)
    }
}

impl Ranked for Row {
    open spec fn ranks_before(self, other: Self) -> bool {
        self.obs.time.precedes(other.obs.time)
    }

    fn is_ranked_before(&self, other: &Self) -> (r: bool) {
        self.obs.time.is_before(other.obs.time)
    }

    proof fn ranking_is_asymmetric(a: Self, b: Self) {
    }

    proof fn ranking_is_transitive(a: Self, b: Self, c: Self) {
    }
}

/// The times of every row lie in the calendar.
pub open spec fn rows_wf(rows: Seq<Row>) -> bool {
    forall|i: int| 0 <= i < rows.len() ==> (#[trigger] rows[i]).obs.wf()
}

/// Whole seconds from `b` to `a`.
pub open spec fn seconds_between(a: Time, b: Time) -> i64 {
    whole_seconds(elapsed_ns(a, b)) as i64
}

/// What a feed remembers of the rows that it was given: the fingerprint of the
/// row at each time, the publish lags, and the latest time.
pub struct Memory {
    pub seen: Map<Time, Seq<char>>,
    pub lag: Seq<i64>,
    pub last_time: Option<Time>,
}

/// How a row relates to those seen before.
#[derive(Debug, Clone, Copy, PartialEq, Eq, Structural)]
pub enum Status {
    New,
    Same,
    Changed,
}

/// Whether a row is new, seen before, or a correction of one seen before.
pub open spec fn status_of(m: Memory, row: Row) -> Status {
    if !m.seen.contains_key(row.obs.time) {
        Status::New
    } else if m.seen[row.obs.time] == row.identity() {
        Status::Same
    } else {
        Status::Changed
    }
}

/// The lag that a row newly seen at `now` shows: from its receipt time, or
/// else from the time at which it was seen.
pub open spec fn lag_shown(obs: Observation, now: Time) -> i64 {
    match obs.received {
        Some(received) => seconds_between(received, obs.time),
        None => seconds_between(now, obs.time),
    }
}

/// The memory after a row seen at `now`.
pub open spec fn after_row(m: Memory, row: Row, now: Time) -> Memory {
    match status_of(m, row) {
        Status::Same => m,
        Status::Changed => Memory { seen: m.seen.insert(row.obs.time, row.identity()), ..m },
        Status::New => Memory {
            seen: m.seen.insert(row.obs.time, row.identity()),
            lag: if row.obs.kind is Special {
                m.lag
            } else {
                LagModel::observed(m.lag, lag_shown(row.obs, now))
            },
            last_time: Some(
                match m.last_time {
                    Some(t) => t.max_of(row.obs.time),
                    None => row.obs.time,
                },
            ),
        },
    }
}

/// The memory after all of `rows`, one by one.
pub open spec fn after_rows(m: Memory, rows: Seq<Row>, now: Time) -> Memory
    decreases rows.len(),
{
    if rows.len() == 0 {
        m
    } else {
        after_row(after_rows(m, rows.drop_last(), now), rows.last(), now)
    }
}

/// A new row at or after the expected time.
pub open spec fn fills_slot(m: Memory, row: Row, expected: Option<Time>) -> bool {
    status_of(m, row) is New && on_schedule(row.obs, expected)
}

/// The row comes no earlier than expected.
pub open spec fn on_schedule(obs: Observation, expected: Option<Time>) -> bool {
    expected matches Some(e) && !obs.time.precedes(e)
}

/// What is reported of a row.
pub open spec fn reported(
    station: String,
    m: Memory,
    row: Row,
    expected: Option<Time>,
    now: Time,
) -> Seq<Event> {
    match status_of(m, row) {
        Status::Same => Seq::empty(),
        Status::Changed => seq![Event::Corrected { station, obs: row.obs, first_seen: now }],
        Status::New => seq![
            Event::New {
                station,
                obs: row.obs,
                first_seen: now,
                latency_s: seconds_between(now, row.obs.time),
                expected,
                on_schedule: on_schedule(row.obs, expected),
            },
        ],
    }
}

/// What is reported of `rows`, one by one.
pub open spec fn all_reported(
    station: String,
    m: Memory,
    rows: Seq<Row>,
    expected: Option<Time>,
    now: Time,
) -> Seq<Event>
    decreases rows.len(),
{
    if rows.len() == 0 {
        Seq::empty()
    } else {
        all_reported(station, m, rows.drop_last(), expected, now) + reported(
            station,
            after_rows(m, rows.drop_last(), now),
            rows.last(),
            expected,
            now,
        )
    }
}

/// Some row of `rows` fills the slot.
pub open spec fn slot_filled(
    m: Memory,
    rows: Seq<Row>,
    expected: Option<Time>,
    now: Time,
) -> bool
    decreases rows.len(),
{
    rows.len() > 0 && (slot_filled(m, rows.drop_last(), expected, now) || fills_slot(
        after_rows(m, rows.drop_last(), now),
        rows.last(),
        expected,
    ))
}

/// The time before which rows are forgotten: two history windows before `now`,
/// or the start of the poll window where that is earlier. There is none where
/// the poll window begins before the calendar does.
pub open spec fn horizon(history: Span, window: Span, now: Time) -> Option<Time> {
    let h = moved_earlier(now, Span::of_ns(history.ns() * 2));
    if !earlier_fits(now, window) {
        None
    } else if h.precedes(earlier(now, window)) {
        Some(h)
    } else {
        Some(earlier(now, window))
    }
}

/// The observation times of the rows.
pub open spec fn times_of(rows: Seq<Row>) -> Seq<Time> {
    rows.map_values(|row: Row| row.obs.time)
}

/// Two history windows before `now` is a time in the calendar.
pub open spec fn horizon_fits(history: Span, now: Time) -> bool {
    &&& history.ns() * 2 <= Span::longest()
    &&& can_be_earlier(now, Span::of_ns(history.ns() * 2))
}

/// Whether there is a time two history windows before `now`.
pub fn has_horizon(history: Span, now: Time) -> (r: bool)
    requires
        history.wf(),
        now.wf(),
    ensures
        r == horizon_fits(history, now),
{
    if history.secs > 0x7fff_ffff_ffff_ffff {
        return false;
    }
    let d = history.times(2);
    proof {
        crate::time::lemma_span_of_ns(d);
    }
    can_sub(now, d)
}

/// The memory after a row of the history. Only a receipt time shows its lag.
pub open spec fn after_history_row(m: Memory, row: Row) -> Memory {
    Memory {
        seen: m.seen.insert(row.obs.time, row.identity()),
        lag: match row.obs.received {
            Some(received) if !(row.obs.kind is Special) => LagModel::observed(
                m.lag,
                seconds_between(received, row.obs.time),
            ),
            _ => m.lag,
        },
        last_time: m.last_time,
    }
}

/// The memory after the rows of the history, one by one.
pub open spec fn after_history(m: Memory, rows: Seq<Row>) -> Memory
    decreases rows.len(),
{
    if rows.len() == 0 {
        m
    } else {
        after_history_row(after_history(m, rows.drop_last()), rows.last())
    }
}

/// The time of the last row.
pub open spec fn latest_time(rows: Seq<Row>) -> Option<Time> {
    if rows.len() == 0 {
        None
    } else {
        Some(rows.last().obs.time)
    }
}

/// The times of the rows that are no special reports.
pub open spec fn routine_times(rows: Seq<Row>) -> Seq<Time>
    decreases rows.len(),
{
    if rows.len() == 0 {
        Seq::empty()
    } else if rows.last().obs.kind is Special {
        routine_times(rows.drop_last())
    } else {
        routine_times(rows.drop_last()).push(rows.last().obs.time)
    }
}

/// The last `n` rows, or all where there are fewer.
pub open spec fn most_recent(rows: Seq<Row>, n: nat) -> Seq<Row> {
    if rows.len() > n {
        rows.skip(rows.len() - n)
    } else {
        rows
    }
}

/// The report of what is known of a station.
pub open spec fn station_events(
    station: String,
    source: &'static str,
    info: Option<StationInfo>,
) -> Seq<Event> {
    match info {
        Some(info) => seq![Event::Station { station, source, info }],
        None => Seq::empty(),
    }
}

/// The replay of historical rows.
pub open spec fn history_events(station: String, rows: Seq<Row>) -> Seq<Event> {
    rows.map_values(|row: Row| Event::History { station, obs: row.obs })
}

/// The poll window once a cadence is known: three periods at least.
pub open spec fn window_for(window: Span, cadence: Option<Cadence>) -> Span {
    match cadence {
        Some(c) if c.period.ns() * 3 >= window.ns() => Span::of_ns(c.period.ns() * 3),
        _ => window,
    }
}

/// The event tells the cadence with the lags, or that there is none in `rows`
/// rows.
pub open spec fn tells_cadence(
    event: Event,
    about: String,
    cadence: Option<Cadence>,
    lags: Seq<i64>,
    count: nat,
) -> bool {
    match (event, cadence) {
        (
            Event::CadenceLearned {
                station,
                description,
                period_s,
                phase_s,
                matching,
                samples,
                lag_min_s,
                lag_median_s,
                lag_max_s,
            },
            Some(c),
        ) => {
            &&& station == about
            &&& description@ == c.description()
            &&& period_s == c.period.secs
            &&& phase_s == c.phase.secs
            &&& matching == c.matching
            &&& samples == c.samples
            &&& lag_min_s == least(lags)
            &&& lag_median_s == LagModel::middle(lags)
            &&& lag_max_s == greatest(lags)
        },
        (Event::NoCadence { station, rows }, None) => station == about && rows == count,
        _ => false,
    }
}

/// The feed of one station.
pub struct Feed {
    pub station: String,
    pub cfg: FeedConfig,
    /// Observation time and content fingerprint of every row already reported.
    pub seen: Seen,
    pub lag: LagModel,
    pub cadence: Option<Cadence>,
    pub last_time: Option<Time>,
    /// Window requested on each poll; must comfortably cover one period.
    pub poll_window: Span,
}

impl Feed {
    /// Every part of the feed is well formed.
    pub open spec fn wf(self) -> bool {
        &&& self.cfg.wf()
        &&& self.seen.wf()
        &&& self.lag.wf()
        &&& self.cadence matches Some(c) ==> c.wf()
        &&& self.last_time matches Some(t) ==> t.wf()
        &&& self.poll_window.wf()
    }

    /// What the feed remembers of the rows that it was given.
    pub open spec fn memory(self) -> Memory {
        Memory { seen: self.seen@, lag: self.lag@, last_time: self.last_time }
    }

    /// What the feed remembers after a batch seen at `now`: of what came before
    /// the horizon, only the times of the batch itself.
    pub open spec fn memory_after(self, rows: Seq<Row>, now: Time) -> Memory {
        let m = after_rows(self.memory(), in_order(rows), now);
        match horizon(self.cfg.history, self.poll_window, now) {
            Some(h) => Memory {
                seen: Seen::kept_from(m.seen, h, times_of(in_order(rows))),
                ..m
            },
            None => m,
        }
    }

    /// Station, settings, cadence and poll window are the same.
    pub open spec fn same_setting(self, other: Feed) -> bool {
        &&& self.station == other.station
        &&& self.cfg == other.cfg
        &&& self.cadence == other.cadence
        &&& self.poll_window == other.poll_window
    }

    /// A feed that has seen nothing yet.
    pub fn new(station: String, cfg: FeedConfig) -> (r: Feed)
        requires
            cfg.wf(),
        ensures
            r.wf(),
            r.station == station,
            r.cfg == cfg,
            r.seen@ == Map::<Time, Seq<char>>::empty(),
            r.lag@ == Seq::<i64>::empty(),
            r.cadence is None,
            r.last_time is None,
            r.poll_window == (Span { secs: 10_800, nanos: 0 }),
    {
        Feed {
            station,
            cfg,
            seen: Seen::new(),
            lag: LagModel::default(),
            cadence: None,
            last_time: None,
            poll_window: Span::from_secs(3 * 3600),
        }
    }

    /// The feed is `before` with what the rows of a history teach it, and
    /// `events` tell of it.
    pub open spec fn primed_from(
        self,
        before: Feed,
        info: Option<StationInfo>,
        rows: Seq<Row>,
        source: &'static str,
        events: Seq<Event>,
    ) -> bool {
        let sorted = in_order(rows);
        &&& self.station == before.station
        &&& self.cfg == before.cfg
        &&& self.memory() == Memory {
            last_time: latest_time(sorted),
            ..after_history(before.memory(), sorted)
        }
        &&& self.cadence == cadence_of(routine_times(sorted))
        &&& self.poll_window == window_for(
            before.poll_window,
            cadence_of(routine_times(sorted)),
        )
        &&& events.len() > 0
        &&& events.drop_last() == station_events(before.station, source, info) + history_events(
            before.station,
            most_recent(sorted, before.cfg.replay as nat),
        )
        &&& tells_cadence(
            events.last(),
            before.station,
            cadence_of(routine_times(sorted)),
            self.lag@,
            rows.len(),
        )
    }

    /// Learns cadence and lag from the history, and reports the station, the
    /// most recent rows and what was learned.
    pub fn prime(
        &mut self,
        info: Option<StationInfo>,
        rows: Vec<Row>,
        source: &'static str,
    ) -> (events: Vec<Event>)
        requires
            old(self).wf(),
            rows_wf(rows@),
        ensures
            final(self).wf(),
            final(self).primed_from(*old(self), info, rows@, source, events@),
    {
        let ghost start = *self;
        let ghost whole = in_order(rows@);
        proof {
            lemma_rows_stay_wf(rows@);
            crate::order::law_sorting_keeps_the_values(rows@);
        }
        let sorted = sort(rows);
        let count: usize = sorted.len();
        let mut routine: Vec<Time> = Vec::new();
        let mut i: usize = 0;
        while i < sorted.len()
            invariant
                i <= sorted@.len(),
                sorted@ == whole,
                rows_wf(whole),
                self.wf(),
                self.same_setting(start),
                self.last_time == start.last_time,
                self.memory() == after_history(start.memory(), whole.take(i as int)),
                routine@ == routine_times(whole.take(i as int)),
                forall|k: int| 0 <= k < routine@.len() ==> (#[trigger] routine@[k]).wf(),
            decreases sorted@.len() - i,
        {
            assert(whole.take(i + 1).drop_last() == whole.take(i as int));
            assert(whole.take(i + 1).last() == whole[i as int]);
            assert(whole[i as int].obs.wf());
            let ghost m = self.memory();
            let row = &sorted[i];
            self.seen.insert(row.obs.time, row.obs.fingerprint(&row.numbers));
            let special = match row.obs.kind {
                ObsKind::Special => true,
                _ => false,
            };
            if !special {
                if let Some(received) = row.obs.received {
                    self.lag.observe(gap(received, row.obs.time).secs);
                }
                routine.push(row.obs.time);
            }
            assert(self.memory() == after_history_row(m, *row));
            i += 1;
        }
        assert(whole.take(i as int) == whole);
        self.last_time =
        if count > 0 {
            Some(sorted[count - 1].obs.time)
        } else {
            None
        };
        assert(count > 0 ==> whole[count - 1].obs.wf());
        let learned = Cadence::infer(routine.as_slice());
        self.cadence = learned;

        let mut events: Vec<Event> = Vec::new();
        if let Some(info) = info {
            events.push(Event::Station { station: self.station.clone(), source, info });
        }
        let ghost opening = events@;
        let skip: usize = if count > self.cfg.replay {
            count - self.cfg.replay
        } else {
            0
        };
        let mut sorted = sorted;
        let recent = sorted.split_off(skip);
        let ghost last_rows = recent@;
        assert(last_rows == most_recent(whole, start.cfg.replay as nat));
        for row in it: recent
            invariant
                it.seq() == last_rows,
                self.station == start.station,
                events@ == opening + history_events(
                    start.station,
                    last_rows.take(it.index() as int),
                ),
        {
            let ghost n = it.index() as int;
            assert(last_rows.take(n + 1) == last_rows.take(n).push(row));
            let ghost before = events@;
            events.push(Event::History { station: self.station.clone(), obs: row.obs });
            assert(events@ =~= opening + history_events(start.station, last_rows.take(n + 1)));
        }
        assert(last_rows.take(last_rows.len() as int) == last_rows);
        let ghost reported = events@;
        match learned {
            Some(c) => {
                self.poll_window = self.poll_window.longer(c.period.times(3));
                proof {
                    crate::time::lemma_span_of_ns(c.period);
                }
                events.push(
                    Event::CadenceLearned {
                        station: self.station.clone(),
                        description: c.describe(),
                        period_s: c.period.secs,
                        phase_s: c.phase.secs,
                        matching: c.matching,
                        samples: c.samples,
                        lag_min_s: self.lag.min(),
                        lag_median_s: self.lag.median(),
                        lag_max_s: self.lag.max(),
                    },
                );
            },
            None => {
                events.push(Event::NoCadence { station: self.station.clone(), rows: count });
            },
        }
        assert(events@.drop_last() == reported);
        assert(opening == station_events(start.station, source, info));
        events
    }

    /// The message about a history fetch that failed.
    pub open spec fn history_failure_text(attempt: u32, error: Seq<char>) -> Seq<char> {
        "history fetch failed (attempt "@ + decimal(attempt as nat) + "): "@ + error
    }

    /// The report of a history fetch that failed, the `attempt`th in a row,
    /// and how long to wait before the next.
    pub fn history_failed(&self, attempt: u32, error: &str) -> (r: (Event, Span))
        ensures
            r.0 matches Event::Error { station, message } && station == self.station && message@
                == Self::history_failure_text(attempt, error@),
            r.1.wf(),
            r.1.ns() == backoff_ns(Span { secs: 5, nanos: 0 }, attempt),
    {
        let mut message = String::new();
        message.append("history fetch failed (attempt ");
        message.append(decimal_of(attempt as u64).as_str());
        message.append("): ");
        message.append(error);
        assert(message@ =~= Self::history_failure_text(attempt, error@));
        (
            Event::Error { station: self.station.clone(), message },
            backoff(Span::from_secs(5), attempt),
        )
    }

    /// The message about a poll that failed.
    pub open spec fn poll_failure_text(errors: u32, error: Seq<char>) -> Seq<char> {
        "poll failed ("@ + decimal(errors as nat) + " in a row): "@ + error
    }

    /// The event reports the failure of a poll, the `errors`th in a row.
    pub open spec fn tells_failure(self, event: Event, errors: u32, error: Seq<char>) -> bool {
        event matches Event::Error { station, message } && station == self.station && message@
            == Self::poll_failure_text(errors, error)
    }

    /// The report of a poll that failed, the `errors`th in a row.
    pub fn poll_failed(&self, errors: u32, error: &str) -> (r: Event)
        ensures
            self.tells_failure(r, errors, error@),
    {
        let mut message = String::new();
        message.append("poll failed (");
        message.append(decimal_of(errors as u64).as_str());
        message.append(" in a row): ");
        message.append(error);
        assert(message@ =~= Self::poll_failure_text(errors, error@));
        Event::Error { station: self.station.clone(), message }
    }

    fn status(&self, obs: &Observation, fingerprint: &String) -> (r: Status)
        requires
            self.wf(),
        ensures
            r == if !self.seen@.contains_key(obs.time) {
                Status::New
            } else if self.seen@[obs.time] == fingerprint@ {
                Status::Same
            } else {
                Status::Changed
            },
    {
        match self.seen.get(obs.time) {
            None => Status::New,
            Some(prev) => if *prev == *fingerprint {
                Status::Same
            } else {
                Status::Changed
            },
        }
    }

    /// Reports every row not seen before (and corrections of seen rows), in
    /// order of time, and says whether a row at or after `expected` has
    /// appeared. Rows from before two history windows ago are forgotten, but
    /// for those that the poll window still covers and those just given: they
    /// may come again, and are not to be reported again.
    pub fn ingest(&mut self, rows: Vec<Row>, expected: Option<Time>, now: Time) -> (r: (
        bool,
        Vec<Event>,
    ))
        requires
            old(self).wf(),
            rows_wf(rows@),
            now.wf(),
            horizon_fits(old(self).cfg.history, now),
        ensures
            final(self).wf(),
            final(self).same_setting(*old(self)),
            final(self).memory() == old(self).memory_after(rows@, now),
            r.0 == slot_filled(old(self).memory(), in_order(rows@), expected, now),
            r.1@ == all_reported(
                old(self).station,
                old(self).memory(),
                in_order(rows@),
                expected,
                now,
            ),
    {
        let ghost start = *self;
        let ghost whole = in_order(rows@);
        proof {
            lemma_rows_stay_wf(rows@);
        }
        let sorted = sort(rows);
        let mut found: bool = false;
        let mut events: Vec<Event> = Vec::new();
        let mut times: Vec<Time> = Vec::new();
        for row in it: sorted
            invariant
                it.seq() == whole,
                rows_wf(whole),
                now.wf(),
                self.wf(),
                times@ == times_of(whole.take(it.index() as int)),
                self.same_setting(start),
                self.memory() == after_rows(start.memory(), whole.take(it.index() as int), now),
                found == slot_filled(
                    start.memory(),
                    whole.take(it.index() as int),
                    expected,
                    now,
                ),
                events@ == all_reported(
                    start.station,
                    start.memory(),
                    whole.take(it.index() as int),
                    expected,
                    now,
                ),
        {
            let ghost n = it.index() as int;
            let ghost m = self.memory();
            assert(whole.take(n + 1).drop_last() == whole.take(n));
            assert(whole.take(n + 1).last() == row);
            assert(row.obs.wf());
            times.push(row.obs.time);
            assert(times@ == times_of(whole.take(n + 1)));
            let fingerprint = row.obs.fingerprint(&row.numbers);
            match self.status(&row.obs, &fingerprint) {
                Status::Same => {},
                Status::Changed => {
                    self.seen.insert(row.obs.time, fingerprint);
                    events.push(
                        Event::Corrected {
                            station: self.station.clone(),
                            obs: row.obs,
                            first_seen: now,
                        },
                    );
                },
                Status::New => {
                    self.seen.insert(row.obs.time, fingerprint);
                    let latency_s: i64 = gap(now, row.obs.time).secs;
                    let special = match row.obs.kind {
                        ObsKind::Special => true,
                        _ => false,
                    };
                    if !special {
                        let sample: i64 = match row.obs.received {
                            Some(received) => gap(received, row.obs.time).secs,
                            None => latency_s,
                        };
                        self.lag.observe(sample);
                    }
                    let on_schedule = match expected {
                        Some(e) => !row.obs.time.is_before(e),
                        None => false,
                    };
                    found = found || on_schedule;
                    self.last_time =
                    Some(
                        match self.last_time {
                            Some(t) => t.latest(row.obs.time),
                            None => row.obs.time,
                        },
                    );
                    events.push(
                        Event::New {
                            station: self.station.clone(),
                            obs: row.obs,
                            first_seen: now,
                            latency_s,
                            expected,
                            on_schedule,
                        },
                    );
                },
            }
            assert(self.memory() == after_row(m, row, now));
        }
        assert(whole.take(whole.len() as int) == whole);
        let window = self.cfg.history.times(2);
        proof {
            crate::time::lemma_span_of_ns(window);
        }
        let mut horizon = crate::schedule::sub(now, window);
        if can_move_earlier(now, self.poll_window) {
            let start_of_poll = crate::schedule::sub(now, self.poll_window);
            if !horizon.is_before(start_of_poll) {
                horizon = start_of_poll;
            }
            self.seen.keep_from(horizon, &times);
        }
        (found, events)
    }
}

/// Sorting keeps the times of the rows in the calendar.
proof fn lemma_rows_stay_wf(rows: Seq<Row>)
    requires
        rows_wf(rows),
    ensures
        rows_wf(in_order(rows)),
{
    assert forall|i: int| 0 <= i < in_order(rows).len() implies (#[trigger] in_order(
        rows,
    )[i]).obs.wf() by {
        crate::order::lemma_same_members(rows, in_order(rows)[i]);
        let k = choose|k: int| 0 <= k < rows.len() && rows[k] == in_order(rows)[i];
        assert(rows[k].obs.wf());
    }
}

} // verus!
