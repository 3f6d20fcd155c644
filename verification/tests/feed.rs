use prawn::content::Numbers;
use prawn::feed::{backoff, has_horizon, Event, Feed, FeedConfig, Row};
use prawn::model::{Measure, ObsKind, Observation, Reading, StationInfo};
use prawn::schedule::Cadence;
use prawn::time::{Span, Time};
use prawn::watch::{Action, Input, Phase, Primer, Slot, Stage, Watch};

/// 2026-09-12 00:00 UTC.
const DAY: i64 = 1_789_171_200;

fn at(h: i64, m: i64) -> Time {
    Time { secs: DAY + h * 3600 + m * 60, nanos: 0 }
}

fn config() -> FeedConfig {
    FeedConfig {
        history: Span::from_secs(24 * 3600),
        replay: 3,
        poll_interval: Span::from_secs(20),
        slow_interval: Span::from_secs(60),
        fast_window: Span::from_secs(600),
        lag_margin: Span::from_secs(60),
        idle_poll: None,
    }
}

fn row(time: Time, raw: &str) -> Row {
    let mut obs = Observation::new("RJTT".to_owned(), time);
    obs.kind = ObsKind::Routine;
    obs.raw = Some(raw.to_owned());
    Row { obs, numbers: Numbers::default() }
}

fn received(time: Time, lag: i64, raw: &str) -> Row {
    let mut r = row(time, raw);
    r.obs.received = Some(Time { secs: time.secs + lag, nanos: 0 });
    r
}

fn history() -> Vec<Row> {
    (0..6).map(|i| received(at(9, 30 * i), 300 + i, "h")).collect()
}

fn primed() -> Feed {
    let mut feed = Feed::new("RJTT".to_owned(), config());
    feed.prime(None, history(), "test");
    feed
}

fn new_times(events: &[Event]) -> Vec<i64> {
    events
        .iter()
        .filter_map(|e| match e {
            Event::New { obs, .. } => Some(obs.time.secs),
            _ => None,
        })
        .collect()
}

#[test]
fn backoff_grows_and_caps() {
    let base = Span::from_secs(20);
    assert_eq!(backoff(base, 0), base);
    assert_eq!(backoff(base, 1), Span::from_secs(40));
    assert_eq!(backoff(base, 3), Span::from_secs(160));
    assert_eq!(backoff(base, 10), Span::from_secs(300));
    assert_eq!(backoff(Span::zero(), 1), Span::from_secs(2));
}

#[test]
fn backoff_doubles_up_to_the_cap() {
    let second = Span::from_secs(1);
    let waits: Vec<u64> = (1..=10).map(|n| backoff(second, n).secs).collect();
    assert_eq!(waits, vec![2, 4, 8, 16, 32, 64, 128, 256, 300, 300]);
    assert_eq!(backoff(Span { secs: 1, nanos: 500_000_000 }, 3), Span::from_secs(12));
    assert_eq!(backoff(second, u32::MAX), Span::from_secs(300));
    let long = Span { secs: u64::MAX, nanos: 999_999_999 };
    assert_eq!(backoff(long, 0), long);
    assert_eq!(backoff(long, 1), Span::from_secs(300));
}

#[test]
fn priming_learns_the_cadence_and_the_lag() {
    let mut feed = Feed::new("RJTT".to_owned(), config());
    let info = StationInfo {
        id: "RJTT".to_owned(),
        name: Some("Haneda".to_owned()),
        lat: None,
        lon: None,
        elevation_m: None,
    };
    let mut rows = history();
    rows.reverse();
    let events = feed.prime(Some(info), rows, "aviationweather.gov");
    assert_eq!(events.len(), 5);
    match &events[0] {
        Event::Station { station, source, info } => {
            assert_eq!(station, "RJTT");
            assert_eq!(*source, "aviationweather.gov");
            assert_eq!(info.name.as_deref(), Some("Haneda"));
        }
        other => panic!("{other:?}"),
    }
    let replayed: Vec<i64> = events
        .iter()
        .filter_map(|e| match e {
            Event::History { obs, .. } => Some(obs.time.secs),
            _ => None,
        })
        .collect();
    assert_eq!(replayed, vec![at(10, 30).secs, at(11, 0).secs, at(11, 30).secs]);
    match &events[4] {
        Event::CadenceLearned {
            description,
            period_s,
            phase_s,
            matching,
            samples,
            lag_min_s,
            lag_median_s,
            lag_max_s,
            ..
        } => {
            assert_eq!(description, "every 30 min, aligned to :00");
            assert_eq!((*period_s, *phase_s), (1800, 0));
            assert_eq!((*matching, *samples), (5, 5));
            assert_eq!((*lag_min_s, *lag_median_s, *lag_max_s), (Some(300), Some(303), Some(305)));
        }
        other => panic!("{other:?}"),
    }
    assert_eq!(feed.last_time, Some(at(11, 30)));
    assert_eq!(feed.poll_window, Span::from_secs(3 * 3600));
    assert!(events.iter().all(|e| e.station() == "RJTT"));
}

#[test]
fn priming_without_a_cadence() {
    let mut feed = Feed::new("RJTT".to_owned(), config());
    let events = feed.prime(None, vec![row(at(1, 0), "a"), row(at(2, 0), "b")], "test");
    assert_eq!(events.len(), 3);
    assert!(matches!(&events[2], Event::NoCadence { rows: 2, .. }));
    assert_eq!(feed.cadence, None);
    let (watch, action) = feed.run(Span::zero());
    assert_eq!(watch.stage, Stage::Browse { errors: 0 });
    assert_eq!(action, Action::Fetch(Span::from_secs(3 * 3600)));
}

#[test]
fn special_reports_teach_no_cadence_and_no_lag() {
    let mut feed = Feed::new("RJTT".to_owned(), config());
    let mut rows = history();
    let mut special = received(at(9, 17), 5, "s");
    special.obs.kind = ObsKind::Special;
    rows.push(special);
    feed.prime(None, rows, "test");
    assert_eq!(feed.lag.min(), Some(300));
    assert_eq!(feed.cadence.map(|c| c.matching), Some(5));
    let mut other = received(at(11, 44), 5, "s");
    other.obs.kind = ObsKind::Special;
    let (found, events) = feed.ingest(vec![other], Some(at(12, 0)), at(11, 50));
    assert!(!found);
    assert_eq!(events.len(), 1);
    assert_eq!(feed.lag.min(), Some(300));
}

#[test]
fn a_long_period_widens_the_poll_window() {
    let mut feed = Feed::new("RJTT".to_owned(), config());
    let rows = (0..4).map(|i| row(at(3 * i, 0), "h")).collect();
    feed.prime(None, rows, "test");
    assert_eq!(feed.poll_window, Span::from_secs(9 * 3600));
}

#[test]
fn new_rows_same_rows_and_corrections() {
    let mut feed = primed();
    let now = at(12, 8);
    let (found, events) =
        feed.ingest(vec![received(at(12, 0), 400, "x"), row(at(11, 30), "h")], Some(at(12, 0)), now);
    assert!(found);
    assert_eq!(events.len(), 1);
    match &events[0] {
        Event::New { obs, first_seen, latency_s, expected, on_schedule, .. } => {
            assert_eq!(obs.time, at(12, 0));
            assert_eq!(*first_seen, now);
            assert_eq!(*latency_s, 480);
            assert_eq!(*expected, Some(at(12, 0)));
            assert!(*on_schedule);
        }
        other => panic!("{other:?}"),
    }
    assert_eq!(feed.last_time, Some(at(12, 0)));
    assert_eq!(feed.lag.max(), Some(400));
    let (found, events) = feed.ingest(vec![received(at(12, 0), 400, "x")], Some(at(12, 0)), now);
    assert!(!found && events.is_empty());
    let (found, events) = feed.ingest(vec![row(at(12, 0), "x COR")], Some(at(12, 0)), now);
    assert!(!found);
    assert!(matches!(&events[0], Event::Corrected { obs, .. } if obs.time == at(12, 0)));
}

#[test]
fn rows_come_out_in_order_and_each_time_once() {
    let mut feed = primed();
    let rows = vec![
        row(at(12, 30), "b"),
        row(at(12, 0), "a"),
        row(at(12, 30), "b"),
        row(at(12, 15), "s"),
    ];
    let (_, events) = feed.ingest(rows, None, at(12, 40));
    assert_eq!(new_times(&events), vec![at(12, 0).secs, at(12, 15).secs, at(12, 30).secs]);
    assert_eq!(events.len(), 3);
}

#[test]
fn a_repeated_batch_is_silent() {
    let mut feed = primed();
    let batch = || vec![row(at(12, 0), "a"), row(at(12, 15), "s")];
    assert_eq!(feed.ingest(batch(), None, at(12, 20)).1.len(), 2);
    assert_eq!(feed.ingest(batch(), None, at(12, 21)).1.len(), 0);
}

#[test]
fn late_rows_are_reported_and_do_not_fill_the_slot() {
    let mut feed = primed();
    feed.ingest(vec![row(at(12, 30), "b")], Some(at(12, 30)), at(12, 36));
    let (found, events) = feed.ingest(vec![row(at(12, 0), "a")], Some(at(13, 0)), at(12, 37));
    assert!(!found);
    assert!(matches!(&events[0], Event::New { on_schedule: false, .. }));
    assert_eq!(feed.last_time, Some(at(12, 30)));
}

#[test]
fn rows_without_a_raw_report_go_by_their_content() {
    let mut feed = primed();
    let bare = |number: &str| {
        let mut obs = Observation::new("RJTT".to_owned(), at(12, 0));
        obs.visibility_km = Some(Measure::raw(Reading::Number(0)));
        Row { obs, numbers: Numbers { visibility_km: number.to_owned(), ..Numbers::default() } }
    };
    assert_eq!(feed.ingest(vec![bare("7.0")], None, at(12, 1)).1.len(), 1);
    assert_eq!(feed.ingest(vec![bare("7.0")], None, at(12, 2)).1.len(), 0);
    let (_, events) = feed.ingest(vec![bare("7.1")], None, at(12, 3));
    assert!(matches!(&events[0], Event::Corrected { .. }));
}

#[test]
fn what_lies_before_the_horizon_is_forgotten() {
    let mut feed = primed();
    let later = Time { secs: at(11, 30).secs + 48 * 3600 + 1, nanos: 0 };
    feed.ingest(vec![], None, later);
    let (_, events) = feed.ingest(vec![row(at(11, 30), "h")], None, later);
    assert_eq!(events.len(), 1);
    let (_, events) = feed.ingest(vec![row(at(11, 30), "h")], None, later);
    assert_eq!(events.len(), 0);
    assert!(has_horizon(Span::from_secs(1), later));
    assert!(!has_horizon(Span { secs: u64::MAX, nanos: 0 }, later));
}

#[test]
fn what_the_poll_window_covers_is_not_forgotten() {
    let cfg = FeedConfig { history: Span::from_secs(1800), ..config() };
    let mut feed = Feed::new("RJTT".to_owned(), cfg);
    let batch = || vec![row(at(9, 30), "a"), row(at(10, 30), "b")];
    assert_eq!(feed.ingest(batch(), None, at(12, 0)).1.len(), 2);
    assert_eq!(feed.ingest(batch(), None, at(12, 1)).1.len(), 0);
    assert_eq!(feed.ingest(vec![], None, at(12, 2)).1.len(), 0);
    assert_eq!(feed.ingest(batch(), None, at(12, 3)).1.len(), 0);
    assert_eq!(feed.ingest(vec![], None, at(12, 31)).1.len(), 0);
    assert_eq!(feed.ingest(batch(), None, at(12, 32)).1.len(), 1);
}

#[test]
fn a_failed_history_is_tried_again() {
    let (mut primer, action) = Primer::new(Feed::new("RJTT".to_owned(), config()));
    assert_eq!(action, Action::Fetch(Span::from_secs(24 * 3600)));
    let (event, action) = primer.fail("boom");
    match event {
        Event::Error { station, message } => {
            assert_eq!(station, "RJTT");
            assert_eq!(message, "history fetch failed (attempt 1): boom");
        }
        other => panic!("{other:?}"),
    }
    assert_eq!(action, Action::Sleep(Span::from_secs(10)));
    assert_eq!(primer.fail("boom").1, Action::Sleep(Span::from_secs(20)));
    assert_eq!(primer.attempts, 2);
    assert_eq!(primer.rested(), Action::Fetch(Span::from_secs(24 * 3600)));
}

fn planned() -> (Watch, Slot) {
    let (mut watch, action) = primed().run(Span::zero());
    assert_eq!(action, Action::ReadClock);
    assert!(watch.can_take_time(at(11, 40)));
    let (events, action) = watch.step(Input::Clock(at(11, 40)));
    assert_eq!(action, Action::ReadClock);
    match &events[0] {
        Event::Waiting { expected, poll_from, poll_every_s, .. } => {
            assert_eq!(*expected, at(12, 0));
            assert_eq!(*poll_from, at(12, 4));
            assert_eq!(*poll_every_s, 20);
        }
        other => panic!("{other:?}"),
    }
    match watch.stage {
        Stage::Look { slot, errors: 0 } => (watch, slot),
        other => panic!("{other:?}"),
    }
}

#[test]
fn the_slot_follows_the_last_row() {
    let (_, slot) = planned();
    assert_eq!(slot.expected, at(12, 0));
    assert_eq!(slot.poll_from, at(12, 4));
    assert_eq!(slot.fast_until, at(12, 10));
    assert_eq!(slot.deadline, at(12, 34));
    assert_eq!(slot.phase(at(12, 3)), Phase::Idle);
    assert_eq!(slot.phase(at(12, 4)), Phase::Fast);
    assert_eq!(slot.phase(at(12, 10)), Phase::Slow);
}

#[test]
fn polling_waits_then_polls_fast_then_slow() {
    let (mut watch, slot) = planned();
    // Idle: no poll, sleep until polling starts.
    assert_eq!(watch.step(Input::Clock(at(11, 40))).1, Action::ReadClock);
    assert_eq!(watch.stage, Stage::Settle { slot, phase: Phase::Idle, errors: 0 });
    assert_eq!(watch.step(Input::Clock(at(11, 40))).1, Action::Sleep(Span::from_secs(24 * 60)));
    // Fast: poll, nothing new, a short sleep.
    assert_eq!(watch.step(Input::Clock(at(12, 5))).1, Action::Fetch(Span::from_secs(10_800)));
    assert!(watch.can_take_rows(&vec![row(at(11, 30), "h")], at(12, 5)));
    let (events, action) = watch.step(Input::Rows(vec![row(at(11, 30), "h")], at(12, 5)));
    assert!(events.is_empty());
    assert_eq!(action, Action::ReadClock);
    assert_eq!(watch.step(Input::Clock(at(12, 5))).1, Action::Sleep(Span::from_secs(20)));
    // Slow: poll, the row comes, the next slot is planned.
    assert_eq!(watch.step(Input::Clock(at(12, 11))).1, Action::Fetch(Span::from_secs(10_800)));
    let (events, action) = watch.step(Input::Rows(vec![row(at(12, 0), "x")], at(12, 11)));
    assert_eq!(new_times(&events), vec![at(12, 0).secs]);
    assert_eq!(action, Action::ReadClock);
    assert_eq!(watch.stage, Stage::Plan);
    let (events, _) = watch.step(Input::Clock(at(12, 11)));
    assert!(matches!(&events[0], Event::Waiting { expected, .. } if *expected == at(12, 30)));
}

#[test]
fn failures_are_told_and_lengthen_the_wait() {
    let (mut watch, _) = planned();
    watch.step(Input::Clock(at(12, 11)));
    assert!(watch.can_take_failure());
    let (events, action) = watch.step(Input::Failure("no route".to_owned()));
    match &events[0] {
        Event::Error { message, .. } => {
            assert_eq!(message, "poll failed (1 in a row): no route");
        }
        other => panic!("{other:?}"),
    }
    assert_eq!(action, Action::ReadClock);
    assert_eq!(watch.step(Input::Clock(at(12, 11))).1, Action::Sleep(Span::from_secs(120)));
    watch.step(Input::Clock(at(12, 13)));
    watch.step(Input::Failure("no route".to_owned()));
    assert_eq!(watch.step(Input::Clock(at(12, 13))).1, Action::Sleep(Span::from_secs(240)));
    watch.step(Input::Clock(at(12, 17)));
    watch.step(Input::Rows(vec![], at(12, 17)));
    assert_eq!(watch.step(Input::Clock(at(12, 17))).1, Action::Sleep(Span::from_secs(60)));
}

#[test]
fn a_slot_is_missed_at_its_deadline() {
    let (mut watch, _) = planned();
    watch.step(Input::Clock(at(12, 33)));
    watch.step(Input::Rows(vec![], at(12, 33)));
    // One minute is left, and no more than that is slept.
    assert_eq!(watch.step(Input::Clock(at(12, 33))).1, Action::Sleep(Span::from_secs(60)));
    watch.step(Input::Clock(at(12, 34)));
    watch.step(Input::Rows(vec![], at(12, 34)));
    let (events, action) = watch.step(Input::Clock(at(12, 34)));
    assert!(matches!(&events[0], Event::Missed { expected, .. } if *expected == at(12, 0)));
    assert_eq!(action, Action::ReadClock);
    assert_eq!(watch.stage, Stage::Plan);
    let (events, _) = watch.step(Input::Clock(at(12, 34)));
    assert!(matches!(&events[0], Event::Waiting { expected, .. } if *expected == at(12, 30)));
}

#[test]
fn an_idle_poll_looks_in_between_slots() {
    let mut feed = primed();
    feed.cfg.idle_poll = Some(Span::from_secs(300));
    let (mut watch, _) = feed.run(Span::from_secs(60));
    let (events, _) = watch.step(Input::Clock(at(11, 40)));
    assert!(matches!(&events[0], Event::Waiting { poll_every_s: 60, .. }));
    assert_eq!(watch.step(Input::Clock(at(11, 40))).1, Action::Fetch(Span::from_secs(10_800)));
    watch.step(Input::Rows(vec![], at(11, 40)));
    assert_eq!(watch.step(Input::Clock(at(11, 40))).1, Action::Sleep(Span::from_secs(300)));
}

#[test]
fn polling_without_a_schedule() {
    let mut feed = Feed::new("RJTT".to_owned(), config());
    feed.prime(None, vec![], "test");
    let (mut watch, _) = feed.run(Span::zero());
    let (events, action) = watch.step(Input::Rows(vec![row(at(12, 0), "x")], at(12, 1)));
    assert!(matches!(&events[0], Event::New { on_schedule: false, expected: None, .. }));
    assert_eq!(action, Action::Sleep(Span::from_secs(60)));
    assert_eq!(watch.step(Input::Clock(at(12, 2))).1, Action::Fetch(Span::from_secs(10_800)));
    let (_, action) = watch.step(Input::Failure("down".to_owned()));
    assert_eq!(action, Action::Sleep(Span::from_secs(120)));
    assert!(!watch.can_take_failure());
}

#[test]
fn old_slots_are_not_chased() {
    let feed = primed();
    let c: Cadence = feed.cadence.unwrap();
    // A day later only the slots of the last period and the lag are left.
    let now = Time { secs: at(12, 10).secs + 86_400, nanos: 0 };
    assert!(feed.can_plan(c, now));
    let slot = feed.plan(c, now);
    assert_eq!(slot.expected.secs, at(12, 0).secs + 86_400);
}

#[test]
fn times_beyond_the_calendar_are_refused() {
    let (watch, _) = planned();
    assert!(!watch.can_take_time(Time { secs: i64::MAX, nanos: 0 }));
    assert!(!watch.can_take_rows(&vec![], at(12, 0)));
    assert!(!watch.can_take_failure());
}
