use chrono::{DateTime, TimeDelta, TimeZone, Utc};
use prawn::schedule::{add, can_add, can_sub, mode, round_to_minute, sub, until, Cadence, LagModel};
use prawn::time::{Span, Time, FIRST_SECOND, LAST_SECOND};

fn time(t: DateTime<Utc>) -> Time {
    Time { secs: t.timestamp(), nanos: t.timestamp_subsec_nanos() }
}

fn clock(h: u32, m: u32) -> DateTime<Utc> {
    Utc.with_ymd_and_hms(2026, 9, 12, h, m, 0).unwrap()
}

fn at(h: u32, m: u32) -> Time {
    time(clock(h, m))
}

fn agreement(c: &Cadence) -> f64 {
    c.matching as f64 / c.samples as f64
}

#[test]
fn half_hourly_metar() {
    let times: Vec<Time> = (0..48)
        .map(|i| time(clock(0, 0) + TimeDelta::minutes(30 * i)))
        .collect();
    let c = Cadence::infer(&times).unwrap();
    assert_eq!(c.period, Span::from_secs(1800));
    assert_eq!(c.phase, Span::zero());
    assert_eq!(agreement(&c), 1.0);
    assert_eq!(c.next_after(at(15, 7)), at(15, 30));
    assert_eq!(c.next_after(at(15, 30)), at(16, 0));
    assert_eq!(c.describe(), "every 30 min, aligned to :00");
}

#[test]
fn hourly_at_fifty_four() {
    let times: Vec<Time> = (0..24).map(|i| time(clock(0, 54) + TimeDelta::hours(i))).collect();
    let c = Cadence::infer(&times).unwrap();
    assert_eq!(c.period, Span::from_secs(3600));
    assert_eq!(c.phase, Span::from_secs(54 * 60));
    assert_eq!(c.next_after(at(15, 10)), at(15, 54));
    assert_eq!(c.next_after(at(15, 56)), at(16, 54));
    assert_eq!(c.describe(), "every 60 min, aligned to :54");
}

#[test]
fn five_minute_mesonet() {
    let times: Vec<Time> = (0..100)
        .map(|i| time(clock(0, 0) + TimeDelta::minutes(5 * i)))
        .collect();
    let c = Cadence::infer(&times).unwrap();
    assert_eq!(c.period, Span::from_secs(300));
    assert_eq!(c.next_after(at(8, 12)), at(8, 15));
}

#[test]
fn specials_do_not_hide_the_hourly_schedule() {
    let mut times: Vec<Time> = (0..24).map(|i| time(clock(0, 54) + TimeDelta::hours(i))).collect();
    times.extend([at(3, 17), at(9, 33), at(9, 41)]);
    let c = Cadence::infer(&times).unwrap();
    assert_eq!(c.period, Span::from_secs(3600));
    assert_eq!(c.phase, Span::from_secs(54 * 60));
    assert!(agreement(&c) < 1.0);
}

#[test]
fn too_little_history() {
    assert!(Cadence::infer(&[at(1, 0), at(2, 0)]).is_none());
    assert!(Cadence::infer(&[]).is_none());
}

#[test]
fn irregular_times_have_no_cadence() {
    let times = [at(0, 0), at(0, 7), at(0, 31), at(1, 2), at(1, 50), at(2, 3)];
    assert!(Cadence::infer(&times).is_none());
}

#[test]
fn lag_model_offsets() {
    let margin = Span::from_secs(60);
    let mut lag = LagModel::default();
    assert_eq!(lag.start_offset(margin), Span::zero());
    assert_eq!(lag.fast_window(margin, Span::from_secs(600)), Span::from_secs(600));
    for s in [329, 483, 635] {
        lag.observe(s);
    }
    assert_eq!(lag.min(), Some(329));
    assert_eq!(lag.median(), Some(483));
    assert_eq!(lag.start_offset(margin), Span::from_secs(269));
    assert_eq!(lag.fast_window(margin, Span::from_secs(600)), Span::from_secs(695));
    lag.observe(-5);
    assert_eq!(lag.len(), 3);
    let mut tiny = LagModel::default();
    tiny.observe(10);
    assert_eq!(tiny.start_offset(margin), Span::zero());
}

#[test]
fn until_never_goes_negative() {
    assert_eq!(until(at(1, 0), at(2, 0)), Span::zero());
    assert_eq!(until(at(2, 0), at(1, 0)), Span::from_secs(3600));
}

#[test]
fn the_record_of_lags_is_bounded() {
    let mut lag = LagModel::default();
    lag.observe(7);
    lag.observe(86_401);
    assert_eq!(lag.len(), 1);
    for s in 100..164 {
        lag.observe(s);
    }
    assert_eq!(lag.len(), 64);
    assert_eq!(lag.min(), Some(100));
    assert_eq!(lag.max(), Some(163));
    assert_eq!(lag.median(), Some(132));
    lag.observe(86_400);
    assert_eq!(lag.len(), 64);
    assert_eq!(lag.min(), Some(101));
    assert_eq!(lag.max(), Some(86_400));
}

#[test]
fn minutes_round_half_away_from_zero() {
    assert_eq!(round_to_minute(0), 0);
    assert_eq!(round_to_minute(29), 0);
    assert_eq!(round_to_minute(30), 60);
    assert_eq!(round_to_minute(-29), 0);
    assert_eq!(round_to_minute(-30), -60);
    assert_eq!(round_to_minute(3_589), 3_600);
}

#[test]
fn ties_go_to_the_smaller_value() {
    assert_eq!(mode(&[]), None);
    assert_eq!(mode(&[3, 1, 3, 1, 2]), Some((1, 2)));
    assert_eq!(mode(&[5, 5, 1]), Some((5, 2)));
}

#[test]
fn half_of_the_intervals_must_agree() {
    // Two intervals of 60 minutes out of four: just enough.
    let enough = [at(0, 0), at(1, 0), at(2, 0), at(2, 10), at(2, 30)];
    let c = Cadence::infer(&enough).unwrap();
    assert_eq!((c.matching, c.samples), (2, 4));
    assert_eq!(c.period, Span::from_secs(3600));
    // Two out of five: too few.
    let short = [at(0, 0), at(1, 0), at(2, 0), at(2, 10), at(2, 30), at(3, 13)];
    assert!(Cadence::infer(&short).is_none());
}

#[test]
fn inference_ignores_order_and_repeats() {
    let times: Vec<Time> = (0..6).map(|i| at(i, 20)).collect();
    let mut shuffled = vec![times[3], times[0], times[5], times[1], times[4], times[2]];
    shuffled.push(times[1]);
    shuffled.push(times[5]);
    assert_eq!(Cadence::infer(&times), Cadence::infer(&shuffled));
    assert!(Cadence::infer(&times).is_some());
}

#[test]
fn slots_are_one_period_apart() {
    let times: Vec<Time> = (0..4).map(|i| at(i, 54)).collect();
    let c = Cadence::infer(&times).unwrap();
    let first = c.next_after(at(15, 54));
    assert_eq!(first, at(16, 54));
    assert_eq!(c.next_after(first).secs - first.secs, 3600);
}

#[test]
fn the_calendar_ends_the_schedule() {
    let times: Vec<Time> = (0..4).map(|i| at(i, 0)).collect();
    let c = Cadence::infer(&times).unwrap();
    let last = Time { secs: LAST_SECOND, nanos: 0 };
    assert_eq!(c.next_after(last), last);
}

#[test]
fn moving_and_moving_back() {
    let t = at(12, 0);
    let d = Span { secs: 3_725, nanos: 250_000_000 };
    let later = add(t, d);
    assert_eq!(later, Time { secs: t.secs + 3_725, nanos: 250_000_000 });
    assert_eq!(sub(later, d), t);
    assert_eq!(until(later, t), d);
}

#[test]
fn spans_beyond_every_shift_move_nothing() {
    let t = at(12, 0);
    let d = Span { secs: u64::MAX, nanos: 0 };
    assert!(can_add(t, d) && can_sub(t, d));
    assert_eq!(add(t, d), t);
    assert_eq!(sub(t, d), t);
}

#[test]
fn moves_end_with_the_calendar() {
    let first = Time { secs: FIRST_SECOND, nanos: 0 };
    let last = Time { secs: LAST_SECOND, nanos: 999_999_999 };
    let step = Span { secs: 0, nanos: 1 };
    assert!(!can_add(last, step));
    assert!(!can_sub(first, step));
    assert_eq!(sub(last, step), Time { secs: LAST_SECOND, nanos: 999_999_998 });
    assert_eq!(add(first, step), Time { secs: FIRST_SECOND, nanos: 1 });
    assert_eq!(Utc.timestamp_opt(LAST_SECOND + 1, 0).single(), None);
    assert_eq!(Utc.timestamp_opt(FIRST_SECOND - 1, 0).single(), None);
}

#[test]
fn a_leap_second_is_left_behind() {
    let end = Utc.with_ymd_and_hms(2016, 12, 31, 23, 59, 59).unwrap().timestamp();
    let leap = Time { secs: end, nanos: 1_500_000_000 };
    assert!(leap.is_valid());
    assert!(!Time { secs: end - 1, nanos: 1_500_000_000 }.is_valid());
    assert_eq!(
        add(leap, Span { secs: 0, nanos: 400_000_000 }),
        Time { secs: end, nanos: 1_900_000_000 }
    );
    assert_eq!(
        add(leap, Span { secs: 1, nanos: 0 }),
        Time { secs: end + 1, nanos: 500_000_000 }
    );
    assert_eq!(
        sub(leap, Span { secs: 1, nanos: 0 }),
        Time { secs: end, nanos: 500_000_000 }
    );
    assert_eq!(
        sub(leap, Span { secs: 0, nanos: 700_000_000 }),
        Time { secs: end, nanos: 800_000_000 }
    );
}

fn instants() -> Vec<DateTime<Utc>> {
    let end = Utc.with_ymd_and_hms(2016, 12, 31, 23, 59, 59).unwrap().timestamp();
    let mut all = Vec::new();
    for (secs, nanos) in [
        (end, 0),
        (end, 999_999_999),
        (end, 1_000_000_000),
        (end, 1_999_999_999),
        (end + 1, 0),
        (end - 86_400, 1_250_000_000),
        (end + 43_260, 1_750_000_000),
        (0, 1),
        (-1, 1_500_000_000),
        (-61, 5),
        (1_789_225_657, 896_000_000),
    ] {
        all.push(Utc.timestamp_opt(secs, nanos).unwrap());
    }
    all
}

#[test]
fn waits_are_those_of_the_calendar() {
    for a in instants() {
        for b in instants() {
            let left = (a - b).to_std().unwrap_or_default();
            let expected = Span { secs: left.as_secs(), nanos: left.subsec_nanos() };
            assert_eq!(until(time(a), time(b)), expected, "{a} {b}");
        }
    }
}

#[test]
fn moves_are_those_of_the_calendar() {
    let spans = [(0, 0), (0, 1), (0, 600_000_000), (1, 0), (1, 999_999_999), (60, 0), (86_400, 7)];
    for t in instants() {
        for (secs, nanos) in spans {
            let d = TimeDelta::new(secs, nanos).unwrap();
            let s = Span { secs: secs as u64, nanos };
            assert!(can_add(time(t), s) && can_sub(time(t), s));
            assert_eq!(add(time(t), s), time(t + d), "{t} + {d}");
            assert_eq!(sub(time(t), s), time(t - d), "{t} - {d}");
        }
    }
}
