use chrono::{TimeZone, Utc};
use prawn::model::{compass, Bearing, Fahrenheit, Humidity, Measure, ObsKind, Reading, Scale};
use prawn::source::nws::{
    collect, parse_observations, parse_station, Collection, NwsSource, Quantity, StationNotFound,
};
use prawn::source::Fault;
use prawn::time::{Span, Time};

fn number(reading: &Reading) -> f64 {
    match reading {
        Reading::Number(bits) => f64::from_bits(*bits),
        Reading::Written(text) => text.parse().unwrap(),
    }
}

fn scaled(x: f64, scale: Scale) -> f64 {
    match scale {
        Scale::AsIs => x,
        Scale::FahrenheitToCelsius => (x - 32.0) * 5.0 / 9.0,
        Scale::KelvinToCelsius => x - 273.15,
        Scale::KnotsToMs => x * 0.514_444,
        Scale::MilesPerHourToMs => x * 0.447_04,
        Scale::KilometresPerHourToMs => x / 3.6,
        Scale::PascalsToHpa => x / 100.0,
        Scale::InchesOfMercuryToHpa => x * 33.863_9,
        Scale::FeetToM => x * 0.3048,
        Scale::KilometresToM => x * 1000.0,
        Scale::MetresToKm => x / 1000.0,
        Scale::StatuteMilesToKm => x * 1.609_344,
        Scale::MetresToMm => x * 1000.0,
        Scale::CentimetresToMm => x * 10.0,
        Scale::InchesToMm => x * 25.4,
        Scale::MillimetresToCm => x / 10.0,
        Scale::InchesToCm => x * 2.54,
    }
}

fn rounded(x: f64, places: i32) -> f64 {
    let f = 10f64.powi(places);
    (x * f).round() / f
}

fn value(m: &Option<Measure>) -> Option<f64> {
    m.as_ref().map(|m| {
        let x = scaled(number(&m.reading), m.scale);
        match m.places {
            Some(places) => rounded(x, i32::from(places)),
            None => x,
        }
    })
}

fn fahrenheit(f: &Option<Fahrenheit>) -> Option<f64> {
    f.as_ref().map(|f| {
        let c = value(&Some(f.celsius.clone())).unwrap();
        rounded(c * 9.0 / 5.0 + 32.0, 1)
    })
}

fn humidity(h: &Option<Humidity>) -> Option<f64> {
    h.as_ref().map(|h| match h {
        Humidity::Reported(m) => value(&Some(m.clone())).unwrap(),
        Humidity::FromDewPoint { air, dew } => {
            let t = value(&Some(air.clone())).unwrap();
            let td = value(&Some(dew.clone())).unwrap();
            let e = |t: f64| (17.625 * t / (243.04 + t)).exp();
            rounded((100.0 * e(td) / e(t)).clamp(0.0, 100.0), 0)
        }
    })
}

fn direction(b: &Option<Bearing>) -> Option<u16> {
    b.as_ref().map(|b| compass(number(&b.reading).round() as i64))
}

const ROWS: &str = r#"{"type":"FeatureCollection","features":[
{"properties":{"timestamp":"2026-09-12T17:45:00+00:00","rawMessage":"","textDescription":"Mostly Cloudy",
"temperature":{"unitCode":"wmoUnit:degC","value":33,"qualityControl":"V"},
"dewpoint":{"unitCode":"wmoUnit:degC","value":24,"qualityControl":"V"},
"windDirection":{"unitCode":"wmoUnit:degree_(angle)","value":90,"qualityControl":"V"},
"windSpeed":{"unitCode":"wmoUnit:km_h-1","value":18.504,"qualityControl":"V"},
"windGust":{"unitCode":"wmoUnit:km_h-1","value":null,"qualityControl":"Z"},
"barometricPressure":{"unitCode":"wmoUnit:Pa","value":101659.39,"qualityControl":"V"},
"seaLevelPressure":{"unitCode":"wmoUnit:Pa","value":null,"qualityControl":"Z"},
"visibility":{"unitCode":"wmoUnit:m","value":16093.44,"qualityControl":"C"},
"relativeHumidity":{"unitCode":"wmoUnit:percent","value":59.274011248809,"qualityControl":"V"},
"precipitationLastHour":null,
"cloudLayers":[{"base":{"unitCode":"wmoUnit:m","value":762},"amount":"FEW"},{"base":{"unitCode":"wmoUnit:m","value":1158.24},"amount":"BKN"}]}},
{"properties":{"timestamp":"2026-09-12T17:37:00+00:00","rawMessage":"KMIA 121737Z COR 10008KT 10SM TS FEW025CB BKN038 BKN250 33/25 A3002",
"temperature":{"unitCode":"wmoUnit:degC","value":33.3,"qualityControl":"X"},
"presentWeather":[{"rawString":"TS"}],
"precipitationLastHour":{"unitCode":"wmoUnit:mm","value":0.25,"qualityControl":"V"}}}
]}"#;

#[test]
fn five_minute_row_is_decoded_to_metric() {
    let batch = parse_observations("KMIA", ROWS).unwrap();
    assert_eq!(batch.rows.len(), 2);
    let o = &batch.rows[1];
    let t = Utc.with_ymd_and_hms(2026, 9, 12, 17, 45, 0).unwrap();
    assert_eq!(o.time, Time { secs: t.timestamp(), nanos: 0 });
    assert_eq!(o.kind, ObsKind::Unknown);
    assert_eq!(value(&o.air_temp_c), Some(33.0));
    assert_eq!(fahrenheit(&o.air_temp_f), Some(91.4));
    assert_eq!(value(&o.dew_point_c), Some(24.0));
    assert_eq!(humidity(&o.relative_humidity_pct), Some(59.0));
    assert_eq!(direction(&o.wind_direction_deg), Some(90));
    assert_eq!(value(&o.wind_speed_ms), Some(5.1));
    assert_eq!(value(&o.wind_gust_ms), None);
    assert_eq!(value(&o.altimeter_hpa), Some(1016.6));
    assert_eq!(value(&o.sea_level_pressure_hpa), None);
    assert_eq!(value(&o.visibility_km), Some(16.1));
    assert_eq!(o.clouds.len(), 2);
    assert_eq!(value(&o.clouds[1].base_m), Some(1158.0));
    assert_eq!(o.raw, None);
    assert_eq!(o.weather, None);
}

#[test]
fn rejected_values_are_dropped_and_weather_kept() {
    let batch = parse_observations("KMIA", ROWS).unwrap();
    let o = &batch.rows[0];
    assert_eq!(o.time.secs % 3600, 37 * 60);
    assert_eq!(value(&o.air_temp_c), None, "quality flag X must drop the value");
    assert_eq!(o.weather.as_deref(), Some("TS"));
    assert_eq!(value(&o.precip_1h_mm), Some(0.25));
    assert!(o.raw.as_deref().unwrap().starts_with("KMIA 121737Z"));
}

#[test]
fn station_metadata() {
    let body = r#"{"geometry":{"type":"Point","coordinates":[-80.31639,25.79056]},"properties":{"stationIdentifier":"KMIA","name":"Miami, Miami International Airport","elevation":{"unitCode":"wmoUnit:m","value":3.048}}}"#;
    let info = parse_station("kmia", body).unwrap();
    assert_eq!(info.id, "KMIA");
    assert_eq!(value(&info.lat), Some(25.79056));
    assert_eq!(value(&info.lon), Some(-80.31639));
    assert_eq!(value(&info.elevation_m), Some(3.0));
    assert_eq!(info.name.as_deref(), Some("Miami, Miami International Airport"));
}

#[test]
fn not_found_error_is_identifiable() {
    let err = Fault::NotFound(StationNotFound("RJTT".into()));
    assert!(matches!(err, Fault::NotFound(StationNotFound(_))));
    assert!(err.message().contains("RJTT"));
}

#[test]
fn not_found_is_told_in_words() {
    assert_eq!(StationNotFound("RJTT".into()).message(), "the NWS API has no station RJTT");
}

#[test]
fn a_station_without_details_is_the_one_asked_for() {
    let info = parse_station("KXYZ", r#"{"properties":{}}"#).unwrap();
    assert_eq!(info.id, "KXYZ");
    assert_eq!(info.name, None);
    assert_eq!(info.lat, None);
    assert_eq!(info.lon, None);
    assert_eq!(info.elevation_m, None);
    let half = r#"{"properties":{"elevation":{"unitCode":"wmoUnit:ft","value":100}},"geometry":{"coordinates":[4.5]}}"#;
    let info = parse_station("KXYZ", half).unwrap();
    assert_eq!(value(&info.lon), Some(4.5));
    assert_eq!(info.lat, None);
    assert_eq!(value(&info.elevation_m), Some(30.5));
}

#[test]
fn nws_errors_tell_what_is_wrong() {
    let rows = |body: &str| parse_observations("KMIA", body).unwrap_err().message();
    assert_eq!(rows("["), "decoding NWS observations: EOF while parsing a list at line 1 column 1");
    let says = |body: &str, text: &str| {
        assert_eq!(rows(body), format!("decoding NWS observations: {text}"));
    };
    says("[[],[]]", "trailing characters at line 1 column 5");
    says("7", "invalid type: integer `7`, expected struct Collection at line 1 column 1");
    says(
        r#"{"features":null}"#,
        "invalid type: null, expected a sequence at line 1 column 16",
    );
    says(r#"{"features":[{}]}"#, "missing field `properties` at line 1 column 15");
    says(
        r#"{"features":[{"properties":{"temperature":{"value":"hot"}}}]}"#,
        "invalid type: string \"hot\", expected f64 at line 1 column 56",
    );
    says(
        "{\"features\":[{\"properties\":\n {\"temperature\":\"a map\"}}]}",
        "invalid type: string \"a map\", expected struct Quantity at line 2 column 23",
    );
    says(
        r#"{"features":[],"features":[]}"#,
        "duplicate field `features` at line 1 column 25",
    );
    says(
        r#"{"features":[{"properties":[1]}]}"#,
        "invalid type: integer `1`, expected a string at line 1 column 29",
    );
    says(
        r#"{"features":[{"properties":[null]}]}"#,
        "invalid length 1, expected struct Props with 16 elements at line 1 column 33",
    );
    says(r#"{"features":[]} x"#, "trailing characters at line 1 column 17");
    let station = |body: &str| parse_station("KMIA", body).unwrap_err().message();
    assert_eq!(
        station("{}"),
        "decoding NWS station: missing field `properties` at line 1 column 2"
    );
    assert_eq!(station("?"), "decoding NWS station: expected value at line 1 column 1");
    assert!(parse_observations("KMIA", "{}").unwrap().rows.is_empty());
}

#[test]
fn nws_records_may_be_arrays() {
    let empty = parse_observations("KMIA", "[]").unwrap();
    assert!(empty.rows.is_empty() && empty.info.is_none());
    let body = r#"[[[["2026-09-12T17:45:00Z",null,["wmoUnit:degF",212,null],null,null,null,null,
null,null,null,null,null,null,null,[[["wmoUnit:m",300,null],"BKN"]],[["-RA"]]]]]]"#;
    let batch = parse_observations("KMIA", body).unwrap();
    assert_eq!(batch.rows.len(), 1);
    assert_eq!(value(&batch.rows[0].air_temp_c), Some(100.0));
    assert_eq!(batch.rows[0].clouds[0].cover, "BKN");
    assert_eq!(batch.rows[0].weather.as_deref(), Some("-RA"));
    assert!(parse_observations("KMIA", r#"{"features":[[["2026-09-12T17:45:00Z"]]]}"#).is_err());
    let info = parse_station("KMIA", r#"[["KMIA","Miami",null],[[-80.3,25.8]]]"#).unwrap();
    assert_eq!(info.name.as_deref(), Some("Miami"));
    assert_eq!(value(&info.lat), Some(25.8));
    assert!(parse_station("KMIA", r#"[["KMIA","Miami",null]]"#).is_err());
}

#[test]
fn what_is_not_asked_for_is_not_looked_into() {
    let deep = "[".repeat(200) + &"]".repeat(200);
    let body = format!(
        r#"{{"type":1e999,"id":"\ud800","more":{deep},"features":[{{"id":1,"id":2,"properties":{{
"timestamp":"2026-09-12T17:45:00Z","other":-1e999}}}}]}}"#
    );
    assert_eq!(parse_observations("KMIA", &body).unwrap().rows.len(), 1);
    assert!(parse_observations("KMIA", r#"{"\ud800":1}"#).is_err());
    let again = r#"{"features":[{"properties":{"timestamp":null,"timestamp":null}}]}"#;
    assert!(parse_observations("KMIA", again).is_err());
}

#[test]
fn nws_units_become_metric() {
    let row = |field: &str, unit: &str, x: &str| {
        format!(
            r#"{{"features":[{{"properties":{{"timestamp":"2026-09-12T17:45:00Z","{field}":{{"unitCode":"{unit}","value":{x}}}}}}}]}}"#
        )
    };
    let temp = |unit: &str, x: &str| {
        let batch = parse_observations("K", &row("temperature", unit, x)).unwrap();
        value(&batch.rows[0].air_temp_c).unwrap()
    };
    assert_eq!(temp("wmoUnit:degF", "212"), 100.0);
    assert_eq!(temp("wmoUnit:K", "300"), 26.9);
    assert_eq!(temp("wmoUnit:degC", "12.34"), 12.3);
    let speed = |unit: &str, x: &str| {
        let batch = parse_observations("K", &row("windSpeed", unit, x)).unwrap();
        value(&batch.rows[0].wind_speed_ms).unwrap()
    };
    assert_eq!(speed("wmoUnit:kn", "10"), 5.1);
    assert_eq!(speed("wmoUnit:kt", "10"), 5.1);
    assert_eq!(speed("wmoUnit:mi_h-1", "10"), 4.5);
    assert_eq!(speed("wmoUnit:m_s-1", "10"), 10.0);
    let vis = |unit: &str, x: &str| {
        let batch = parse_observations("K", &row("visibility", unit, x)).unwrap();
        value(&batch.rows[0].visibility_km).unwrap()
    };
    assert_eq!(vis("wmoUnit:mi", "10"), 16.1);
    assert_eq!(vis("wmoUnit:km", "10"), 10.0);
    let rain = |unit: &str, x: &str| {
        let batch = parse_observations("K", &row("precipitationLast6Hours", unit, x)).unwrap();
        value(&batch.rows[0].precip_6h_mm).unwrap()
    };
    assert_eq!(rain("wmoUnit:m", "0.0254"), 25.4);
    assert_eq!(rain("wmoUnit:in", "0.5"), 12.7);
    let hpa = parse_observations("K", &row("seaLevelPressure", "wmoUnit:hPa", "1013.25")).unwrap();
    assert_eq!(value(&hpa.rows[0].sea_level_pressure_hpa), Some(1013.3));
}

#[test]
fn weather_is_joined_and_rows_need_a_time() {
    let body = r#"{"features":[
{"properties":{"timestamp":"2026-09-12T18:00:00Z","presentWeather":[{"rawString":"RA"},{"rawString":" "},{},{"rawString":"BR"}]}},
{"properties":{"timestamp":"soon"}},
{"properties":{}},
{"properties":{"timestamp":" 2026-09-12T17:00:00Z "}}]}"#;
    let batch = parse_observations("KMIA", body).unwrap();
    assert_eq!(batch.rows.len(), 2);
    assert!(batch.rows[0].time.secs < batch.rows[1].time.secs);
    assert_eq!(batch.rows[1].weather.as_deref(), Some("RA BR"));
    assert!(batch.info.is_none());
}

#[test]
fn humidity_comes_from_the_dew_point_where_it_is_not_reported() {
    let body = r#"{"features":[{"properties":{"timestamp":"2026-09-12T18:00:00Z","temperature":{"value":20},"dewpoint":{"value":20}}}]}"#;
    let batch = parse_observations("KMIA", body).unwrap();
    assert_eq!(humidity(&batch.rows[0].relative_humidity_pct), Some(100.0));
}

#[test]
fn quantities_may_be_rejected() {
    let q = |flag: Option<&str>| Quantity {
        unit_code: None,
        value: Some(Reading::Number(1)),
        quality_control: flag.map(str::to_owned),
    };
    assert_eq!(q(None).value(), Some((Reading::Number(1), "")));
    assert_eq!(q(Some("V")).value(), Some((Reading::Number(1), "")));
    assert_eq!(q(Some("X")).value(), None);
    assert!(collect("KMIA", Collection { features: vec![] }).rows.is_empty());
}

#[test]
fn nws_is_asked_from_a_whole_minute() {
    let now = Time { secs: 1_789_225_657, nanos: 896_000_000 };
    assert_eq!(
        NwsSource::rows_url("KMIA", Span::from_secs(3 * 3600), now).unwrap(),
        "https://api.weather.gov/stations/KMIA/observations?start=2026-09-12T12:07:00Z&limit=500"
    );
    assert_eq!(NwsSource::station_url("KMIA"), "https://api.weather.gov/stations/KMIA");
    let far = Time { secs: 8_000_000_000_000, nanos: 0 };
    let err = NwsSource::rows_url("KMIA", Span::zero(), far).unwrap_err();
    assert_eq!(
        err.message(),
        "truncating start time: timestamp exceeds num_nanoseconds limit"
    );
    let old = Time { secs: -90, nanos: 5 };
    assert!(NwsSource::rows_url("KMIA", Span::zero(), old).unwrap().contains("1969-12-31T23:58:00Z"));
}

#[test]
fn requests_within_a_minute_share_an_address() {
    let url = |secs: i64, nanos: u32| {
        NwsSource::rows_url("KMIA", Span::from_secs(3 * 3600), Time { secs, nanos }).unwrap()
    };
    let minute = 1_789_225_620;
    assert_eq!(url(minute, 0), url(minute + 59, 999_999_999));
    assert_ne!(url(minute, 0), url(minute - 1, 999_999_999));
    assert_ne!(url(minute, 0), url(minute + 60, 0));
}
