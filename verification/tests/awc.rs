use chrono::{TimeZone, Utc};
use prawn::json::Cell;
use prawn::model::{compass, Bearing, Humidity, Measure, ObsKind, Reading, Scale};
use prawn::source::awc::{
    gather, number_or_plus_string, parse_body, parse_timestamp, AwcSource, Metar,
};
use prawn::time::{Span, Time};

fn number(reading: &Reading) -> f64 {
    match reading {
        Reading::Number(bits) => f64::from_bits(*bits),
        Reading::Written(text) => text.parse().unwrap(),
    }
}

fn scaled(x: f64, scale: Scale) -> f64 {
    match scale {
        Scale::AsIs => x,
        Scale::FahrenheitToCelsius => (x - 32.0) * 5.0 / 9.0,
        Scale::KelvinToCelsius => x - 273.15,
        Scale::KnotsToMs => x * 0.514_444,
        Scale::MilesPerHourToMs => x * 0.447_04,
        Scale::KilometresPerHourToMs => x / 3.6,
        Scale::PascalsToHpa => x / 100.0,
        Scale::InchesOfMercuryToHpa => x * 33.863_9,
        Scale::FeetToM => x * 0.3048,
        Scale::KilometresToM => x * 1000.0,
        Scale::MetresToKm => x / 1000.0,
        Scale::StatuteMilesToKm => x * 1.609_344,
        Scale::MetresToMm => x * 1000.0,
        Scale::CentimetresToMm => x * 10.0,
        Scale::InchesToMm => x * 25.4,
        Scale::MillimetresToCm => x / 10.0,
        Scale::InchesToCm => x * 2.54,
    }
}

fn rounded(x: f64, places: i32) -> f64 {
    let f = 10f64.powi(places);
    (x * f).round() / f
}

fn value(m: &Option<Measure>) -> Option<f64> {
    m.as_ref().map(|m| {
        let x = scaled(number(&m.reading), m.scale);
        match m.places {
            Some(places) => rounded(x, i32::from(places)),
            None => x,
        }
    })
}

fn humidity(h: &Option<Humidity>) -> Option<f64> {
    h.as_ref().map(|h| match h {
        Humidity::Reported(m) => value(&Some(m.clone())).unwrap(),
        Humidity::FromDewPoint { air, dew } => {
            let t = value(&Some(air.clone())).unwrap();
            let td = value(&Some(dew.clone())).unwrap();
            let e = |t: f64| (17.625 * t / (243.04 + t)).exp();
            rounded((100.0 * e(td) / e(t)).clamp(0.0, 100.0), 0)
        }
    })
}

fn direction(b: &Option<Bearing>) -> Option<u16> {
    b.as_ref().map(|b| compass(number(&b.reading).round() as i64))
}

fn utc(y: i32, mo: u32, d: u32, h: u32, m: u32) -> Time {
    let t = Utc.with_ymd_and_hms(y, mo, d, h, m, 0).unwrap();
    Time { secs: t.timestamp(), nanos: 0 }
}

const RJTT: &str = r#"[{"icaoId":"RJTT","receiptTime":"2026-09-12T15:07:37.896Z","obsTime":1789225200,"reportTime":"2026-09-12T15:00:00.000Z","temp":20,"dewp":20,"wdir":30,"wspd":5,"visib":3.11,"altim":1023,"qcField":0,"wxString":"-RA BR","metarType":"METAR","rawOb":"METAR RJTT 121500Z 03005KT 5000 -RA BR FEW003 BKN010 BKN020 20/20 Q1023","lat":35.553,"lon":139.781,"elev":5,"name":"Tokyo/Haneda Intl, 13, JP","cover":"BKN","clouds":[{"cover":"FEW","base":300},{"cover":"BKN","base":1000},{"cover":"BKN","base":2000}],"fltCat":"MVFR"}]"#;

#[test]
fn parses_and_converts_to_metric() {
    let batch = parse_body("rjtt", RJTT).unwrap();
    assert_eq!(batch.rows.len(), 1);
    let o = &batch.rows[0];
    assert_eq!(o.station, "RJTT");
    assert_eq!(o.time, utc(2026, 9, 12, 15, 0));
    assert_eq!(o.received.unwrap().secs, 1_789_225_657);
    assert_eq!(o.kind, ObsKind::Routine);
    assert_eq!(value(&o.air_temp_c), Some(20.0));
    assert_eq!(value(&o.dew_point_c), Some(20.0));
    assert_eq!(humidity(&o.relative_humidity_pct), Some(100.0));
    assert_eq!(direction(&o.wind_direction_deg), Some(30));
    assert!(!o.wind_variable);
    assert_eq!(value(&o.wind_speed_ms), Some(2.6));
    assert_eq!(value(&o.visibility_km), Some(5.0));
    assert_eq!(value(&o.altimeter_hpa), Some(1023.0));
    assert_eq!(o.weather.as_deref(), Some("-RA BR"));
    assert_eq!(o.clouds.len(), 3);
    assert_eq!(o.clouds[0].cover, "FEW");
    assert_eq!(value(&o.clouds[0].base_m), Some(91.0));
    assert!(o.raw.as_deref().unwrap().starts_with("METAR RJTT"));
    let info = batch.info.unwrap();
    assert_eq!(info.name.as_deref(), Some("Tokyo/Haneda Intl, 13, JP"));
    assert_eq!(value(&info.elevation_m), Some(5.0));
}

#[test]
fn variable_wind_unbounded_visibility_and_speci() {
    let body = r#"[{"icaoId":"KSLC","obsTime":1789225200,"wdir":"VRB","wspd":3,"wgst":15,"visib":"10+","metarType":"SPECI","precip":0.1,"snow":2}]"#;
    let o = &parse_body("KSLC", body).unwrap().rows[0];
    assert!(o.wind_variable);
    assert_eq!(direction(&o.wind_direction_deg), None);
    assert_eq!(value(&o.wind_speed_ms), Some(1.5));
    assert_eq!(value(&o.wind_gust_ms), Some(7.7));
    assert_eq!(value(&o.visibility_km), Some(16.1));
    assert_eq!(o.kind, ObsKind::Special);
    assert_eq!(value(&o.precip_1h_mm), Some(2.54));
    assert_eq!(value(&o.snow_depth_cm), Some(5.1));
    assert_eq!(humidity(&o.relative_humidity_pct), None);
}

#[test]
fn falls_back_to_report_time_and_filters_other_stations() {
    let body = r#"[{"icaoId":"KJFK","reportTime":"2026-09-12 15:51:00.000Z"},{"icaoId":"KSLC","reportTime":"2026-09-12T15:54:00.000Z"}]"#;
    let batch = parse_body("kslc", body).unwrap();
    assert_eq!(batch.rows.len(), 1);
    assert_eq!(batch.rows[0].time, utc(2026, 9, 12, 15, 54));
    assert_eq!(parse_body("kjfk", body).unwrap().rows[0].time.secs % 3600, 51 * 60);
}

#[test]
fn error_object_is_reported() {
    let err = parse_body(
        "x",
        r#"{"status":"error","error":"Unexpected query parameter provided"}"#,
    )
    .unwrap_err();
    assert!(err.message().contains("Unexpected query parameter"), "{err:?}");
}

#[test]
fn empty_array_is_an_empty_batch() {
    let batch = parse_body("ZZZZ", "[]").unwrap();
    assert!(batch.rows.is_empty());
    assert!(batch.info.is_none());
}

#[test]
fn awc_temperatures_are_given_in_fahrenheit_too() {
    let batch = parse_body("rjtt", RJTT).unwrap();
    let o = &batch.rows[0];
    assert_eq!(o.air_temp_f.as_ref().map(|f| &f.celsius), o.air_temp_c.as_ref());
    assert_eq!(o.dew_point_f.as_ref().map(|f| &f.celsius), o.dew_point_c.as_ref());
    assert!(o.air_temp_f.is_some());
}

#[test]
fn awc_errors_tell_what_is_wrong() {
    let text = |body: &str| parse_body("KSLC", body).unwrap_err().message();
    assert_eq!(text("nope"), "AWC response is not JSON: expected ident at line 1 column 2");
    assert_eq!(text(r#"{"error":"bad"}"#), r#"AWC error: "bad""#);
    assert_eq!(text(r#"{"b":1,"a":[true,null]}"#), r#"unexpected AWC response: {"a":[true,null],"b":1}"#);
    assert_eq!(text("17"), "unexpected AWC response: 17");
    assert_eq!(text("[{}]"), "decoding AWC METAR records: missing field `icaoId`");
    assert_eq!(
        text(r#"[{"icaoId":"KSLC","temp":"warm"}]"#),
        "decoding AWC METAR records: invalid type: string \"warm\", expected f64"
    );
    assert_eq!(
        text(r#"[{"icaoId":"KSLC","clouds":[3]}]"#),
        "decoding AWC METAR records: invalid type: integer `3`, expected struct AwcCloud"
    );
    assert_eq!(
        text(r#"[{"icaoId":"KSLC","obsTime":1.5}]"#),
        "decoding AWC METAR records: invalid type: floating point `1.5`, expected i64"
    );
    let long = format!("\"{}\"", "x".repeat(300));
    assert_eq!(text(&long).chars().count(), "unexpected AWC response: ".len() + 200);
}

#[test]
fn awc_nulls_count_as_missing() {
    let body = r#"[{"icaoId":"kslc","obsTime":1789225200,"temp":null,"wdir":null,"visib":null,"clouds":null,"wxString":"  "}]"#;
    let batch = parse_body("KSLC", body).unwrap();
    let o = &batch.rows[0];
    assert_eq!(o.station, "KSLC");
    assert_eq!(o.air_temp_c, None);
    assert_eq!(o.air_temp_f, None);
    assert_eq!(o.visibility_km, None);
    assert_eq!(o.wind_direction_deg, None);
    assert!(!o.wind_variable);
    assert_eq!(o.weather, None);
    assert!(o.clouds.is_empty());
    assert_eq!(o.kind, ObsKind::Unknown);
}

#[test]
fn awc_rows_are_in_order_and_need_a_time() {
    let body = r#"[{"icaoId":"KSLC","obsTime":1789225200},{"icaoId":"KSLC"},{"icaoId":"KSLC","obsTime":1789221600},{"icaoId":"KSLC","obsTime":99999999999999}]"#;
    let batch = parse_body("KSLC", body).unwrap();
    let times: Vec<i64> = batch.rows.iter().map(|o| o.time.secs).collect();
    assert_eq!(times, vec![1_789_221_600, 1_789_225_200]);
    assert_eq!(batch.info.unwrap().id, "KSLC");
}

#[test]
fn awc_records_may_be_arrays() {
    let body = r#"[["RJTT",null,60,null,21.5,null,"VRB",10,null,"10+",null,null,null,null,null,null,
null,null,"SPECI",null,null,null,null,"Haneda",[["FEW",1000]]]]"#;
    let batch = parse_body("RJTT", body).unwrap();
    assert_eq!(batch.rows.len(), 1);
    assert_eq!(batch.rows[0].time, Time { secs: 60, nanos: 0 });
    assert_eq!(value(&batch.rows[0].air_temp_c), Some(21.5));
    assert!(batch.rows[0].wind_variable);
    assert_eq!(batch.rows[0].kind, ObsKind::Special);
    assert_eq!(batch.rows[0].clouds[0].cover, "FEW");
    assert_eq!(batch.info.unwrap().name.as_deref(), Some("Haneda"));
    assert!(parse_body("RJTT", r#"[["RJTT",null,60]]"#).is_err());
}

#[test]
fn layers_without_a_cover_are_left_out() {
    let body = r#"[{"icaoId":"KSLC","obsTime":1789225200,"clouds":[{"base":100},{"cover":"CLR"},{"cover":"OVC","base":3500}]}]"#;
    let batch = parse_body("KSLC", body).unwrap();
    let clouds = &batch.rows[0].clouds;
    assert_eq!(clouds.len(), 2);
    assert_eq!((clouds[0].cover.as_str(), value(&clouds[0].base_m)), ("CLR", None));
    assert_eq!((clouds[1].cover.as_str(), value(&clouds[1].base_m)), ("OVC", Some(1067.0)));
}

#[test]
fn directions_go_round_the_compass() {
    assert_eq!(compass(0), 0);
    assert_eq!(compass(360), 0);
    assert_eq!(compass(-90), 270);
    assert_eq!(compass(725), 5);
}

#[test]
fn numbers_may_end_in_a_plus() {
    let read = |text: &str| number_or_plus_string(&Cell::Text(text.to_owned()));
    assert_eq!(read(" 10+ "), Some(Reading::Written("10".to_owned())));
    assert_eq!(read("6++"), Some(Reading::Written("6".to_owned())));
    assert_eq!(read("2.5"), Some(Reading::Written("2.5".to_owned())));
    assert_eq!(read("+"), None);
    assert_eq!(read("far"), None);
    assert_eq!(number_or_plus_string(&Cell::Number(7)), Some(Reading::Number(7)));
    assert_eq!(number_or_plus_string(&Cell::Other), None);
}

#[test]
fn timestamps_come_with_a_letter_or_a_blank() {
    let t = Time { secs: 1_789_225_657, nanos: 896_000_000 };
    assert_eq!(parse_timestamp("2026-09-12T15:07:37.896Z"), Some(t));
    assert_eq!(parse_timestamp(" 2026-09-12 15:07:37.896Z\n"), Some(t));
    assert_eq!(parse_timestamp("2026-09-12T17:07:37.896+02:00"), Some(t));
    assert_eq!(parse_timestamp("2026-09-12"), None);
    assert_eq!(parse_timestamp(""), None);
}

#[test]
fn reports_are_gathered_by_station() {
    let metar = |id: &str, secs: i64| Metar {
        icao_id: id.to_owned(),
        receipt_time: None,
        obs_time: Some(secs),
        report_time: None,
        temp: None,
        dewp: None,
        wdir: Some(Cell::Text("vrb".to_owned())),
        wspd: Some(Reading::Number(10f64.to_bits())),
        wgst: None,
        visib: None,
        altim: None,
        slp: None,
        wx_string: None,
        precip: None,
        pcp3hr: None,
        pcp6hr: None,
        pcp24hr: None,
        snow: None,
        metar_type: None,
        raw_ob: None,
        lat: None,
        lon: None,
        elev: None,
        name: None,
        clouds: None,
    };
    let batch = gather("kslc", vec![metar("KSLC", 500), metar("KJFK", 5), metar("kslc", 60)]);
    let times: Vec<i64> = batch.rows.iter().map(|o| o.time.secs).collect();
    assert_eq!(times, vec![60, 500]);
    assert!(batch.rows[0].wind_variable);
    assert_eq!(value(&batch.rows[0].wind_speed_ms), Some(5.1));
}

#[test]
fn awc_is_asked_by_hours() {
    assert_eq!(
        AwcSource::url("rjtt", Span::from_secs(24 * 3600)),
        "https://aviationweather.gov/api/data/metar?ids=RJTT&format=json&hours=24.00"
    );
    assert_eq!(AwcSource::hours(Span::from_secs(10_800)), "3.00");
    assert_eq!(AwcSource::hours(Span::from_secs(10_801)), "3.01");
    assert_eq!(AwcSource::hours(Span { secs: 10_836, nanos: 0 }), "3.01");
    assert_eq!(AwcSource::hours(Span { secs: 10_836, nanos: 1 }), "3.02");
    assert_eq!(AwcSource::hours(Span::from_secs(60)), "0.25");
    assert_eq!(AwcSource::hours(Span::from_secs(1_234)), "0.35");
}
