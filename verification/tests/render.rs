use prawn::feed::Event;
use prawn::model::{
    bearing, CloudLayer, Humidity, Measure, ObsKind, Observation, Reading, StationInfo,
};
use prawn::render::{
    fmt_lag, fmt_location, fmt_obs, fmt_time, is_dated, event_line, parse_tz, Figures, Style,
};
use prawn::time::Time;

/// 2026-09-12 15:30:05 UTC.
const T: Time = Time { secs: 1_789_227_005, nanos: 0 };

fn figures() -> Figures {
    Figures {
        lat: "35.553".into(),
        lon: "139.781".into(),
        elevation: "5".into(),
        agreement: "100".into(),
        air_temp_c: "20.0".into(),
        air_temp_f: "68.0".into(),
        dew_point_c: "20.0".into(),
        dew_point_f: "68.0".into(),
        humidity: "100".into(),
        wind_direction: 30,
        wind_speed: "3.1".into(),
        wind_gust: "7.7".into(),
        visibility: "7.0".into(),
        altimeter: "1023.0".into(),
        sea_level_pressure: "1023.4".into(),
        bases: vec!["122".into(), "0".into()],
        precip_1h: "0.5".into(),
    }
}

fn some() -> Option<Measure> {
    Some(Measure::raw(Reading::Written("1".to_owned())))
}

fn observation() -> Observation {
    let mut o = Observation::new("RJTT".to_owned(), T);
    o.set_air_temp_c(some());
    o.set_dew_point_c(some());
    o.relative_humidity_pct = some().map(Humidity::Reported);
    o.wind_direction_deg = bearing(Some(Reading::Written("1".to_owned())));
    o.wind_speed_ms = some();
    o.wind_gust_ms = some();
    o.visibility_km = some();
    o.altimeter_hpa = some();
    o.sea_level_pressure_hpa = some();
    o.precip_1h_mm = some();
    o.weather = Some("-RA".to_owned());
    o.clouds = vec![
        CloudLayer { cover: "FEW".to_owned(), base_m: some() },
        CloudLayer { cover: "BKN".to_owned(), base_m: None },
    ];
    o
}

#[test]
fn times_are_shown_in_a_zone() {
    let utc = parse_tz("UTC").unwrap();
    let tokyo = parse_tz(" Asia/Tokyo ").unwrap();
    let york = parse_tz("America/New_York").unwrap();
    assert_eq!(fmt_time(T, &utc, Style::Clock), "15:30:05 UTC");
    assert_eq!(fmt_time(T, &tokyo, Style::Date), "09-13 00:30 JST");
    assert_eq!(fmt_time(T, &york, Style::Minute), "11:30 EDT");
    assert_eq!(
        parse_tz("Mars").unwrap_err(),
        "unknown time zone 'Mars'; use an IANA name such as UTC or America/New_York"
    );
}

#[test]
fn rows_are_shown_part_by_part() {
    let utc = parse_tz("UTC").unwrap();
    let o = observation();
    assert_eq!(
        fmt_obs(&o, &figures(), &utc),
        "09-12 15:30 UTC  T 20.0°C/68.0°F  Td 20.0°C/68.0°F  RH 100%  wind 030° 3.1 m/s  gust 7.7 m/s  vis 7.0 km  QNH 1023.0 hPa  SLP 1023.4 hPa  -RA  FEW122m BKN  precip1h 0.5 mm"
    );
    let mut o = Observation::new("RJTT".to_owned(), T);
    o.kind = ObsKind::Special;
    let mut f = figures();
    assert_eq!(fmt_obs(&o, &f, &utc), "09-12 15:30 UTC  SPECI");
    o.wind_speed_ms = some();
    assert_eq!(fmt_obs(&o, &f, &utc), "09-12 15:30 UTC  SPECI  wind 3.1 m/s");
    o.wind_variable = true;
    assert_eq!(fmt_obs(&o, &f, &utc), "09-12 15:30 UTC  SPECI  wind VRB 3.1 m/s");
    o.wind_direction_deg = bearing(Some(Reading::Written("1".to_owned())));
    f.wind_direction = 5;
    assert_eq!(fmt_obs(&o, &f, &utc), "09-12 15:30 UTC  SPECI  wind 005° 3.1 m/s");
    f.wind_direction = 350;
    assert_eq!(fmt_obs(&o, &f, &utc), "09-12 15:30 UTC  SPECI  wind 350° 3.1 m/s");
    o.wind_speed_ms = None;
    o.visibility_km = some();
    assert_eq!(fmt_obs(&o, &f, &utc), "09-12 15:30 UTC  SPECI  vis 7.0 km");
}

#[test]
fn lags_and_places_in_words() {
    assert_eq!(fmt_lag(Some(329), "no earlier than "), "no earlier than 329s");
    assert_eq!(fmt_lag(None, "no earlier than "), "unknown");
    let mut info = StationInfo {
        id: "RJTT".to_owned(),
        name: None,
        lat: None,
        lon: None,
        elevation_m: None,
    };
    assert_eq!(fmt_location(&info, &figures()), "");
    info.elevation_m = some();
    assert_eq!(fmt_location(&info, &figures()), ", 5 m");
    info.lat = some();
    assert_eq!(fmt_location(&info, &figures()), ", 5 m");
    info.lon = some();
    assert_eq!(fmt_location(&info, &figures()), " at 35.553, 139.781, 5 m");
}

#[test]
fn every_event_has_its_line() {
    let utc = parse_tz("UTC").unwrap();
    let st = || "RJTT".to_owned();
    let none = figures();
    let show = |event: Event, f: &Figures| {
        assert!(is_dated(&event));
        event_line(T, &event, f, &utc)
    };
    let info = |name: Option<&str>| StationInfo {
        id: st(),
        name: name.map(str::to_owned),
        lat: None,
        lon: None,
        elevation_m: None,
    };
    assert_eq!(
        show(Event::Station { station: st(), source: "x.org", info: info(Some("Haneda")) }, &none),
        "15:30:05 UTC RJTT   Haneda via x.org"
    );
    assert_eq!(
        show(Event::Station { station: st(), source: "x.org", info: info(None) }, &none),
        "15:30:05 UTC RJTT   (unnamed) via x.org"
    );
    let bare = || Observation::new(st(), T);
    assert_eq!(
        show(Event::History { station: st(), obs: bare() }, &none),
        "15:30:05 UTC RJTT   hist  09-12 15:30 UTC"
    );
    let learned = Event::CadenceLearned {
        station: st(),
        description: "every 30 min, aligned to :00".to_owned(),
        period_s: 1800,
        phase_s: 0,
        matching: 46,
        samples: 46,
        lag_min_s: Some(329),
        lag_median_s: Some(477),
        lag_max_s: Some(635),
    };
    let f = figures();
    assert_eq!(
        show(learned, &f),
        "15:30:05 UTC RJTT   cadence every 30 min, aligned to :00 (46 intervals, 100% agree); reports appear no earlier than 329s after the obs time (median 477s)"
    );
    assert_eq!(
        show(Event::NoCadence { station: st(), rows: 2 }, &none),
        "15:30:05 UTC RJTT   no regular cadence in 2 rows; polling at the slow interval"
    );
    assert_eq!(
        show(Event::Waiting { station: st(), expected: T, poll_from: T, poll_every_s: 20 }, &none),
        "15:30:05 UTC RJTT   next row expected 15:30 UTC, polling from 15:30:05 UTC"
    );
    let new = |on_schedule: bool| Event::New {
        station: st(),
        obs: bare(),
        first_seen: T,
        latency_s: 537,
        expected: None,
        on_schedule,
    };
    assert_eq!(
        show(new(true), &none),
        "15:30:05 UTC RJTT   NEW   09-12 15:30 UTC  [seen 537s after obs time]"
    );
    assert_eq!(
        show(new(false), &none),
        "15:30:05 UTC RJTT   NEW   09-12 15:30 UTC  [seen 537s after obs time, unscheduled]"
    );
    assert_eq!(
        show(Event::Corrected { station: st(), obs: bare(), first_seen: T }, &none),
        "15:30:05 UTC RJTT   CORR  09-12 15:30 UTC"
    );
    assert_eq!(
        show(Event::Missed { station: st(), expected: T }, &none),
        "15:30:05 UTC RJTT   no row for 15:30 UTC yet, moving on (it will still be reported if it turns up)"
    );
    assert_eq!(
        show(Event::Error { station: "LONGNAME".to_owned(), message: "oops".to_owned() }, &none),
        "15:30:05 UTC LONGNAME error oops"
    );
    let lost = Event::Missed { station: st(), expected: Time { secs: i64::MAX, nanos: 0 } };
    assert!(!is_dated(&lost));
}
