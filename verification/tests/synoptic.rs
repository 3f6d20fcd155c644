use chrono::{TimeZone, Utc};
use prawn::json::{Cell, Entry};
use prawn::model::{compass, Bearing, Fahrenheit, Humidity, Measure, ObsKind, Reading, Scale};
use prawn::source::synoptic::{
    cell_num, cell_str, digest, num, parse_body, pick_column, Column, Response, Summary,
    SynopticSource,
};
use prawn::time::{Span, Time};

fn number(reading: &Reading) -> f64 {
    match reading {
        Reading::Number(bits) => f64::from_bits(*bits),
        Reading::Written(text) => text.parse().unwrap(),
    }
}

fn scaled(x: f64, scale: Scale) -> f64 {
    match scale {
        Scale::AsIs => x,
        Scale::FahrenheitToCelsius => (x - 32.0) * 5.0 / 9.0,
        Scale::KelvinToCelsius => x - 273.15,
        Scale::KnotsToMs => x * 0.514_444,
        Scale::MilesPerHourToMs => x * 0.447_04,
        Scale::KilometresPerHourToMs => x / 3.6,
        Scale::PascalsToHpa => x / 100.0,
        Scale::InchesOfMercuryToHpa => x * 33.863_9,
        Scale::FeetToM => x * 0.3048,
        Scale::KilometresToM => x * 1000.0,
        Scale::MetresToKm => x / 1000.0,
        Scale::StatuteMilesToKm => x * 1.609_344,
        Scale::MetresToMm => x * 1000.0,
        Scale::CentimetresToMm => x * 10.0,
        Scale::InchesToMm => x * 25.4,
        Scale::MillimetresToCm => x / 10.0,
        Scale::InchesToCm => x * 2.54,
    }
}

fn rounded(x: f64, places: i32) -> f64 {
    let f = 10f64.powi(places);
    (x * f).round() / f
}

fn value(m: &Option<Measure>) -> Option<f64> {
    m.as_ref().map(|m| {
        let x = scaled(number(&m.reading), m.scale);
        match m.places {
            Some(places) => rounded(x, i32::from(places)),
            None => x,
        }
    })
}

fn fahrenheit(f: &Option<Fahrenheit>) -> Option<f64> {
    f.as_ref().map(|f| {
        let c = value(&Some(f.celsius.clone())).unwrap();
        rounded(c * 9.0 / 5.0 + 32.0, 1)
    })
}

fn humidity(h: &Option<Humidity>) -> Option<f64> {
    h.as_ref().map(|h| match h {
        Humidity::Reported(m) => value(&Some(m.clone())).unwrap(),
        Humidity::FromDewPoint { air, dew } => {
            let t = value(&Some(air.clone())).unwrap();
            let td = value(&Some(dew.clone())).unwrap();
            let e = |t: f64| (17.625 * t / (243.04 + t)).exp();
            rounded((100.0 * e(td) / e(t)).clamp(0.0, 100.0), 0)
        }
    })
}

fn direction(b: &Option<Bearing>) -> Option<u16> {
    b.as_ref().map(|b| compass(number(&b.reading).round() as i64))
}

const FIXTURE: &str = r#"{"SUMMARY":{"RESPONSE_CODE":1,"RESPONSE_MESSAGE":"OK"},
"UNITS":{"position":"m","elevation":"ft","air_temp":"Celsius","dew_point_temperature":"Celsius","relative_humidity":"%","wind_speed":"m/s","wind_direction":"Degrees","altimeter":"Pascals","sea_level_pressure":"Millibars","visibility":"Statute miles","precip_accum_one_hour":"Millimeters"},
"STATION":[{"STID":"RJTT","NAME":"Tokyo Haneda","LATITUDE":"35.553","LONGITUDE":"139.781","ELEVATION":"16",
"OBSERVATIONS":{"date_time":["2026-09-12T15:00:00Z","2026-09-12T14:30:00Z"],
"air_temp_set_1":[20.0,20.0],"dew_point_temperature_set_1d":[19.5,20.0],"relative_humidity_set_1":[97.0,100.0],
"wind_speed_set_1":[null,2.57],"wind_direction_set_1":[40.0,30.0],"altimeter_set_1":[102310.0,102300.0],
"sea_level_pressure_set_1d":[null,1023.4],"visibility_set_1":[6.21,3.11],"precip_accum_one_hour_set_1":[null,0.5],
"metar_set_1":["SPECI RJTT 121500Z 04000KT 9999 20/19 Q1023","METAR RJTT 121430Z 03005KT 5000 -RA BR 20/20 Q1023"]}}]}"#;

#[test]
fn parses_documented_shape_and_normalizes_units() {
    let batch = parse_body("rjtt", FIXTURE).unwrap();
    let info = batch.info.unwrap();
    assert_eq!(info.id, "RJTT");
    assert_eq!(value(&info.lat), Some(35.553));
    assert_eq!(value(&info.elevation_m), Some(4.9));
    assert_eq!(batch.rows.len(), 2);
    let first = &batch.rows[0];
    let t = Utc.with_ymd_and_hms(2026, 9, 12, 14, 30, 0).unwrap();
    assert_eq!(first.time, Time { secs: t.timestamp(), nanos: 0 });
    assert_eq!(first.kind, ObsKind::Routine);
    assert_eq!(value(&first.air_temp_c), Some(20.0));
    assert_eq!(fahrenheit(&first.air_temp_f), Some(68.0));
    assert_eq!(humidity(&first.relative_humidity_pct), Some(100.0));
    assert_eq!(value(&first.wind_speed_ms), Some(2.6));
    assert_eq!(direction(&first.wind_direction_deg), Some(30));
    assert_eq!(value(&first.altimeter_hpa), Some(1023.0));
    assert_eq!(value(&first.sea_level_pressure_hpa), Some(1023.4));
    assert_eq!(value(&first.visibility_km), Some(5.0));
    assert_eq!(value(&first.precip_1h_mm), Some(0.5));
    let second = &batch.rows[1];
    assert_eq!(second.kind, ObsKind::Special);
    assert_eq!(value(&second.wind_speed_ms), None);
    assert_eq!(value(&second.sea_level_pressure_hpa), None);
    assert_eq!(value(&second.visibility_km), Some(10.0));
}

#[test]
fn token_errors_are_reported() {
    let body = r#"{"SUMMARY":{"RESPONSE_CODE":2,"RESPONSE_MESSAGE":"Invalid request per token rules","VERSION":null,"HTTP_STATUS_CODE":403}}"#;
    let err = parse_body("RJTT", body).unwrap_err();
    assert!(err.message().contains("token rules"), "{err:?}");
}

#[test]
fn no_station_block_is_an_empty_batch() {
    let body = r#"{"SUMMARY":{"RESPONSE_CODE":1,"RESPONSE_MESSAGE":"OK"},"STATION":[]}"#;
    assert!(parse_body("RJTT", body).unwrap().rows.is_empty());
}

fn column(name: &str, x: f64) -> Entry<Column> {
    Entry { name: name.to_owned(), value: Column { cells: vec![Cell::Number(x.to_bits())] } }
}

#[test]
fn column_picking_prefers_primary_sensor() {
    let obs = vec![
        column("air_temp_set_2", 1.0),
        column("air_temp_set_1d", 2.0),
        column("air_temp_set_1", 3.0),
        column("air_temp_high_6_hour_set_1", 4.0),
    ];
    assert_eq!(
        cell_num(pick_column(&obs, "air_temp"), 0).as_ref().map(number),
        Some(3.0)
    );
    assert!(pick_column(&obs, "dew_point_temperature").is_none());
}

#[test]
fn columns_are_ranked_by_number() {
    let pick = |obs: &Vec<Entry<Column>>| cell_num(pick_column(obs, "t"), 0).as_ref().map(number);
    assert_eq!(pick(&vec![column("t_set_10", 1.0), column("t_set_2", 2.0)]), Some(2.0));
    assert_eq!(pick(&vec![column("t_set_2", 1.0), column("t_set_1d", 2.0)]), Some(2.0));
    assert_eq!(pick(&vec![column("t_set_007", 1.0), column("t_set_8", 2.0)]), Some(1.0));
    assert_eq!(pick(&vec![column("t_set_3d", 1.0), column("t_set_03", 2.0)]), Some(2.0));
    assert_eq!(pick(&vec![column("t_set_", 1.0), column("t_set_d", 2.0)]), None);
    assert_eq!(pick(&vec![column("t_set_1x", 1.0), column("tt_set_1", 2.0)]), None);
    let long = "t_set_100000000000000000000000000000000000000000";
    assert_eq!(pick(&vec![column(long, 1.0), column("t_set_99", 2.0)]), Some(2.0));
}

#[test]
fn cells_hold_numbers_or_texts() {
    let text = |s: &str| Cell::Text(s.to_owned());
    assert_eq!(num(&text(" 35.5 ")), Some(Reading::Written("35.5".to_owned())));
    assert_eq!(num(&text("n/a")), None);
    assert_eq!(num(&Cell::Number(4)), Some(Reading::Number(4)));
    assert_eq!(num(&Cell::Other), None);
    let c = Column { cells: vec![text("METAR"), Cell::Number(4)] };
    assert_eq!(cell_str(Some(&c), 0).as_deref(), Some("METAR"));
    assert_eq!(cell_str(Some(&c), 1), None);
    assert_eq!(cell_str(Some(&c), 2), None);
    assert_eq!(cell_num(Some(&c), 9), None);
    assert_eq!(cell_num(None, 0), None);
}

#[test]
fn synoptic_errors_tell_what_is_wrong() {
    let text = |body: &str| parse_body("RJTT", body).unwrap_err().message();
    assert_eq!(
        text(r#"{"SUMMARY":{"RESPONSE_CODE":-2,"RESPONSE_MESSAGE":"no"}}"#),
        "Synoptic error (code -2): no"
    );
    assert_eq!(text(r#"{"SUMMARY":{"RESPONSE_CODE":2}}"#), "Synoptic error (code 2): ");
    assert_eq!(text("{}"), "decoding Synoptic response: missing field `SUMMARY` at line 1 column 2");
    assert_eq!(text(""), "decoding Synoptic response: EOF while parsing a value at line 1 column 0");
    assert_eq!(
        text(r#"{"SUMMARY":{"RESPONSE_CODE":"1"}}"#),
        "decoding Synoptic response: invalid type: string \"1\", expected i64 at line 1 column 31"
    );
    assert_eq!(
        text(r#"{"SUMMARY":{"RESPONSE_CODE":1},"UNITS":{"a":1,"a":"b"}}"#),
        "decoding Synoptic response: invalid type: integer `1`, expected a string at line 1 column 45"
    );
    assert_eq!(
        text(r#"{"SUMMARY":{"RESPONSE_CODE":1},"STATION":[{"STID":"A","OBSERVATIONS":{"x":1}}]}"#),
        "decoding Synoptic response: invalid type: integer `1`, expected a sequence at line 1 column 75"
    );
    assert_eq!(
        text(r#"{"SUMMARY":{"RESPONSE_CODE":1},"UNITS":7}"#),
        "decoding Synoptic response: invalid type: integer `7`, expected a map at line 1 column 40"
    );
    let refused = Response {
        summary: Summary { code: 3, message: "late".to_owned() },
        units: None,
        stations: None,
    };
    assert_eq!(digest("RJTT", refused).unwrap_err().message(), "Synoptic error (code 3): late");
}

#[test]
fn only_the_station_asked_for_is_taken() {
    let body = r#"{"SUMMARY":{"RESPONSE_CODE":1},"STATION":[
{"STID":"AAA","ELEVATION":100,"OBSERVATIONS":{"date_time":["2026-09-12T15:00:00Z"]}},
{"STID":"bbb","NAME":"B","ELEVATION":null}]}"#;
    let batch = |station: &str| parse_body(station, body).unwrap();
    let b = batch("BBB").info.unwrap();
    assert_eq!(b.id, "BBB");
    assert_eq!(b.name.as_deref(), Some("B"));
    assert_eq!(b.elevation_m, None);
    let a = batch("aaa");
    assert_eq!(a.rows.len(), 1);
    assert_eq!(a.rows[0].station, "AAA");
    assert_eq!(value(&a.info.unwrap().elevation_m), Some(30.5));
    let none = batch("ccc");
    assert!(none.info.is_none());
    assert!(none.rows.is_empty());
}

#[test]
fn synoptic_records_may_be_arrays() {
    let body = r#"[[1],null,[["A","Alpha","35.5",null,100,{"date_time":["2026-09-12T15:00:00Z"],
"air_temp_set_1":[20.5]}]]]"#;
    let batch = parse_body("a", body).unwrap();
    assert_eq!(value(&batch.rows[0].air_temp_c), Some(20.5));
    let info = batch.info.unwrap();
    assert_eq!(info.name.as_deref(), Some("Alpha"));
    assert_eq!(value(&info.lat), Some(35.5));
    assert_eq!(value(&info.elevation_m), Some(30.5));
    assert_eq!(
        parse_body("A", r#"[[2,"no"],null,null]"#).unwrap_err().message(),
        "Synoptic error (code 2): no"
    );
    assert!(parse_body("A", r#"[[1],null]"#).is_err());
    assert!(parse_body("A", r#"[[1],[],null]"#).is_err());
}

#[test]
fn of_columns_of_one_name_the_last_counts() {
    let body = r#"{"SUMMARY":{"RESPONSE_CODE":1},"STATION":[{"STID":"A","OBSERVATIONS":{
"date_time":["2026-09-12T15:00:00Z"],"air_temp_set_1":[1.0],"air_temp_set_1":[2.0]}}]}"#;
    let row = parse_body("A", body).unwrap().rows.remove(0);
    assert_eq!(value(&row.air_temp_c), Some(2.0));
    let twice = r#"{"SUMMARY":{"RESPONSE_CODE":1},"SUMMARY":{"RESPONSE_CODE":1}}"#;
    assert_eq!(
        parse_body("A", twice).unwrap_err().message(),
        "decoding Synoptic response: duplicate field `SUMMARY` at line 1 column 40"
    );
}

#[test]
fn each_precipitation_has_its_own_unit() {
    let body = r#"{"SUMMARY":{"RESPONSE_CODE":1},"UNITS":{"precip_accum_24_hour":"Inches",
"precip_accum_one_hour":"Millimeters","precip_accum_six_hour":"Centimeters"},"STATION":[{"STID":"A",
"OBSERVATIONS":{"date_time":["2026-09-12T15:00:00Z"],"precip_accum_24_hour_set_1":[1.0],
"precip_accum_one_hour_set_1":[1.0],"precip_accum_three_hour_set_1":[1.0],
"precip_accum_six_hour_set_1":[1.0]}}]}"#;
    let row = parse_body("A", body).unwrap().rows.remove(0);
    assert_eq!(value(&row.precip_24h_mm), Some(25.4));
    assert_eq!(value(&row.precip_1h_mm), Some(1.0));
    assert_eq!(value(&row.precip_3h_mm), Some(1.0));
    assert_eq!(value(&row.precip_6h_mm), Some(10.0));
}

#[test]
fn synoptic_units_become_metric() {
    let body = |group: &str, unit: &str, x: &str| {
        format!(
            r#"{{"SUMMARY":{{"RESPONSE_CODE":1}},"UNITS":{{"{group}":"{unit}"}},"STATION":[{{"STID":"A","OBSERVATIONS":{{"date_time":["2026-09-12T15:00:00Z","later"],"{group}_set_1":[{x}]}}}}]}}"#
        )
    };
    let rows = |group: &str, unit: &str, x: &str| {
        let mut batch = parse_body("A", &body(group, unit, x)).unwrap();
        assert_eq!(batch.rows.len(), 1);
        batch.rows.remove(0)
    };
    assert_eq!(value(&rows("air_temp", "Fahrenheit", "212").air_temp_c), Some(100.0));
    assert_eq!(value(&rows("air_temp", "K", "300").air_temp_c), Some(26.9));
    assert_eq!(value(&rows("wind_speed", "Knots", "10").wind_speed_ms), Some(5.1));
    assert_eq!(value(&rows("wind_speed", "MPH", "10").wind_speed_ms), Some(4.5));
    assert_eq!(value(&rows("wind_gust", "km/h", "36").wind_gust_ms), Some(10.0));
    assert_eq!(value(&rows("altimeter", "INHG", "29.92").altimeter_hpa), Some(1013.2));
    assert_eq!(value(&rows("visibility", "meters", "2500").visibility_km), Some(2.5));
    assert_eq!(value(&rows("precip_accum_one_hour", "in", "0.1").precip_1h_mm), Some(2.54));
    assert_eq!(value(&rows("precip_accum_one_hour", "cm", "1").precip_1h_mm), Some(10.0));
    assert_eq!(value(&rows("snow_depth", "inches", "2").snow_depth_cm), Some(5.1));
    assert_eq!(value(&rows("snow_depth", "mm", "25").snow_depth_cm), Some(2.5));
    assert_eq!(value(&rows("air_temp", "Celsius", "\" 7.25 \"").air_temp_c), Some(7.3));
    assert_eq!(rows("weather_condition", "code", "\"rain\"").weather.as_deref(), Some("rain"));
    assert_eq!(rows("weather_condition", "code", "\" \"").weather, None);
    assert_eq!(rows("metar", "text", "\"  SPECI X\"").kind, ObsKind::Special);
    assert_eq!(direction(&rows("wind_direction", "deg", "-90").wind_direction_deg), Some(270));
}

#[test]
fn synoptic_is_asked_by_minutes() {
    let s = SynopticSource::new("secret".to_owned());
    assert_eq!(
        s.url("rjtt", Span::from_secs(3 * 3600)),
        "https://api.synopticdata.com/v2/stations/timeseries?stid=RJTT&recent=180&units=metric,temp|C,speed|mps,pres|mb,height|m,precip|mm&obtimezone=UTC&token=secret"
    );
    assert!(s.url("rjtt", Span::from_secs(59)).contains("&recent=1&"));
    assert!(s.url("rjtt", Span::from_secs(61)).contains("&recent=2&"));
    assert!(s.url("rjtt", Span::zero()).contains("&recent=1&"));
    assert!(s.url("rjtt", Span { secs: 120, nanos: 1 }).contains("&recent=3&"));
}
