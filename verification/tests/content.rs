use prawn::content::Numbers;
use prawn::model::{
    bearing, CloudLayer, Humidity, Measure, ObsKind, Observation, Reading,
};
use prawn::time::Time;

/// 2026-09-12 15:30:00 UTC.
const T: Time = Time { secs: 1_789_227_000, nanos: 0 };

fn some() -> Option<Measure> {
    Some(Measure::raw(Reading::Number(0)))
}

#[test]
fn a_raw_report_is_the_identity() {
    let mut o = Observation::new("RJTT".to_owned(), T);
    o.raw = Some("METAR RJTT".to_owned());
    assert_eq!(o.fingerprint(&Numbers::default()), "METAR RJTT");
    o.kind = ObsKind::Special;
    o.wind_speed_ms = some();
    assert_eq!(o.fingerprint(&Numbers::default()), "METAR RJTT");
}

#[test]
fn without_a_raw_report_the_row_is_the_identity() {
    let o = Observation::new("RJTT".to_owned(), T);
    assert_eq!(
        o.fingerprint(&Numbers::default()),
        concat(&[
            r#"{"station":"RJTT","time":"2026-09-12T15:30:00Z","kind":"unknown","#,
            r#""air_temp_c":null,"air_temp_f":null,"dew_point_c":null,"dew_point_f":null,"#,
            r#""relative_humidity_pct":null,"wind_direction_deg":null,"wind_variable":false,"#,
            r#""wind_speed_ms":null,"wind_gust_ms":null,"visibility_km":null,"#,
            r#""altimeter_hpa":null,"sea_level_pressure_hpa":null,"weather":null,"clouds":[],"#,
            r#""precip_1h_mm":null,"precip_3h_mm":null,"precip_6h_mm":null,"#,
            r#""precip_24h_mm":null,"snow_depth_cm":null,"raw":null}"#,
        ])
    );
}

fn concat(parts: &[&str]) -> String {
    parts.concat()
}

fn full() -> (Observation, Numbers) {
    let mut o = Observation::new("a\"b\\c\n\u{1}é".to_owned(), Time { secs: T.secs, nanos: 5_000_000 });
    o.received = Some(Time { secs: T.secs + 60, nanos: 1 });
    o.kind = ObsKind::Routine;
    o.set_air_temp_c(some());
    o.set_dew_point_c(some());
    o.relative_humidity_pct = some().map(Humidity::Reported);
    o.wind_direction_deg = bearing(Some(Reading::Number(0)));
    o.wind_variable = true;
    o.wind_speed_ms = some();
    o.wind_gust_ms = some();
    o.visibility_km = some();
    o.altimeter_hpa = some();
    o.sea_level_pressure_hpa = some();
    o.weather = Some("-RA".to_owned());
    o.clouds = vec![
        CloudLayer { cover: "FEW".to_owned(), base_m: some() },
        CloudLayer { cover: "BKN".to_owned(), base_m: None },
    ];
    o.precip_1h_mm = some();
    o.precip_3h_mm = some();
    o.precip_6h_mm = some();
    o.precip_24h_mm = some();
    o.snow_depth_cm = some();
    let n = Numbers {
        air_temp_c: "20.0".into(),
        air_temp_f: "68.0".into(),
        dew_point_c: "-0.5".into(),
        dew_point_f: "31.1".into(),
        relative_humidity_pct: "100.0".into(),
        wind_direction_deg: "30".into(),
        wind_speed_ms: "3.1".into(),
        wind_gust_ms: "7.7".into(),
        visibility_km: "7.0".into(),
        altimeter_hpa: "1023.0".into(),
        sea_level_pressure_hpa: "1e300".into(),
        bases: vec!["122.0".into(), "".into()],
        precip_1h_mm: "0.1".into(),
        precip_3h_mm: "0.3".into(),
        precip_6h_mm: "0.6".into(),
        precip_24h_mm: "2.4".into(),
        snow_depth_cm: "5.1".into(),
    };
    (o, n)
}

#[test]
fn every_field_is_written() {
    let (o, n) = full();
    let text = o.fingerprint(&n);
    assert_eq!(
        text,
        concat(&[
            r#"{"station":"a\"b\\c\n\u0001é","time":"2026-09-12T15:30:00.005Z","#,
            r#""received":"2026-09-12T15:31:00.000000001Z","kind":"routine","#,
            r#""air_temp_c":20.0,"air_temp_f":68.0,"dew_point_c":-0.5,"dew_point_f":31.1,"#,
            r#""relative_humidity_pct":100.0,"wind_direction_deg":30,"wind_variable":true,"#,
            r#""wind_speed_ms":3.1,"wind_gust_ms":7.7,"visibility_km":7.0,"#,
            r#""altimeter_hpa":1023.0,"sea_level_pressure_hpa":1e300,"weather":"-RA","#,
            r#""clouds":[{"cover":"FEW","base_m":122.0},{"cover":"BKN"}],"#,
            r#""precip_1h_mm":0.1,"precip_3h_mm":0.3,"precip_6h_mm":0.6,"#,
            r#""precip_24h_mm":2.4,"snow_depth_cm":5.1,"raw":null}"#,
        ])
    );
    let read: serde_json::Value = serde_json::from_str(&text).unwrap();
    assert_eq!(read["station"], "a\"b\\c\n\u{1}é");
    assert_eq!(read["clouds"][0]["base_m"], 122.0);
}

#[test]
fn rows_that_differ_are_told_apart() {
    let text = || {
        let (o, n) = full();
        o.fingerprint(&n)
    };
    let changed = |change: fn(&mut Observation, &mut Numbers)| {
        let (mut o, mut n) = full();
        change(&mut o, &mut n);
        o.fingerprint(&n)
    };
    assert_eq!(text(), changed(|_, n| n.bases[1] = "9".to_owned()));
    assert_ne!(text(), changed(|o, _| o.received = None));
    assert_ne!(text(), changed(|o, _| o.kind = ObsKind::Unknown));
    assert_ne!(text(), changed(|o, _| o.weather = None));
    assert_ne!(text(), changed(|o, _| o.weather = Some("null".to_owned())));
    assert_ne!(text(), changed(|o, _| o.clouds.truncate(1)));
    assert_ne!(text(), changed(|o, _| o.snow_depth_cm = None));
    assert_ne!(text(), changed(|_, n| n.snow_depth_cm = "5.2".to_owned()));
}
