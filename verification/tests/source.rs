use prawn::source::awc::AwcSource;
use prawn::source::fetch::{ask_rows, take_nws, Errand, Leg, Progress, Reply, Request};
use prawn::source::nws::NwsSource;
use prawn::source::synoptic::SynopticSource;
use prawn::source::{parse_time, snippet, user_agent, AnySource, Fault, Pick};
use prawn::time::{Span, Time};

const NOW: Time = Time { secs: 1_789_225_657, nanos: 0 };

fn begin(source: &AnySource, station: &str) -> Progress {
    source.fetch(station.to_owned(), Span::from_secs(3600))
}

fn asked(p: Progress) -> (Errand, Request) {
    match p {
        Progress::Ask { errand, request } => (errand, request),
        Progress::Known { errand } => asked(ask_rows(errand, NOW)),
        Progress::Done(r) => panic!("{r:?}"),
    }
}

fn failed(p: Progress) -> String {
    match p {
        Progress::Done(Err(f)) => f.message(),
        _ => panic!("another outcome"),
    }
}

fn ok(body: &str) -> Reply {
    Reply::Answer { code: 200, status: "200 OK".to_owned(), body: body.to_owned() }
}

fn status(code: u16, status: &str, body: &str) -> Reply {
    Reply::Answer { code, status: status.to_owned(), body: body.to_owned() }
}

const STATION: &str = r#"{"properties":{"stationIdentifier":"KMIA","name":"Miami"}}"#;
const ROWS: &str = r#"{"features":[{"properties":{"timestamp":"2026-09-12T17:45:00Z"}}]}"#;
const METARS: &str = r#"[{"icaoId":"RJTT","obsTime":1789225200}]"#;

#[test]
fn an_undecided_station_is_tried_at_nws_first() {
    let mut source = AnySource::auto();
    assert_eq!(source.name_for("kmia"), "auto (undecided)");
    assert_eq!(source.min_poll_interval("kmia"), Span::zero());
    let (errand, request) = asked(begin(&source, "kmia"));
    assert!(errand.settling && matches!(errand.leg, Leg::Station));
    assert_eq!(request.url, "https://api.weather.gov/stations/KMIA");
    assert_eq!(request.accept, Some("application/geo+json"));
    assert_eq!(request.shown, request.url);
    let (errand, request) = asked(source.resume(errand, ok(STATION)));
    assert_eq!(
        request.url,
        "https://api.weather.gov/stations/KMIA/observations?start=2026-09-12T14:07:00Z&limit=500"
    );
    assert_eq!(source.pick_for("KMIA"), None);
    match source.resume(errand, ok(ROWS)) {
        Progress::Done(Ok(batch)) => {
            assert_eq!(batch.rows.len(), 1);
            assert_eq!(batch.rows[0].station, "KMIA");
            assert_eq!(batch.info.unwrap().name.as_deref(), Some("Miami"));
        }
        _ => panic!("another outcome"),
    }
    assert_eq!(source.pick_for("kMia"), Some(Pick::Nws));
    assert_eq!(source.name_for("KMIA"), "api.weather.gov");
    assert_eq!(source.min_poll_interval("KMIA"), Span::from_secs(60));
    // The station is known now, and the choice is made.
    let (errand, request) = asked(begin(&source, "KMIA"));
    assert!(!errand.settling && matches!(errand.leg, Leg::Rows(_)));
    assert!(request.url.contains("/observations?start="));
}

#[test]
fn a_station_that_nws_lacks_goes_to_awc() {
    let mut source = AnySource::auto();
    let (errand, _) = asked(begin(&source, "rjtt"));
    let (errand, request) = asked(source.resume(errand, status(404, "404 Not Found", "{}")));
    assert!(matches!(errand.leg, Leg::Awc) && errand.settling);
    assert_eq!(
        request.url,
        "https://aviationweather.gov/api/data/metar?ids=RJTT&format=json&hours=1.00"
    );
    assert_eq!(request.accept, None);
    assert_eq!(source.pick_for("RJTT"), None);
    match source.resume(errand, ok(METARS)) {
        Progress::Done(Ok(batch)) => assert_eq!(batch.rows.len(), 1),
        _ => panic!("another outcome"),
    }
    assert_eq!(source.pick_for("RJTT"), Some(Pick::Awc));
    assert_eq!(source.name_for("rjTT"), "aviationweather.gov");
    let (errand, _) = asked(begin(&source, "rjtt"));
    assert!(matches!(errand.leg, Leg::Awc) && !errand.settling);
    failed(source.resume(errand, status(500, "500 Internal Server Error", "")));
    assert_eq!(source.name_for("rjtt"), "aviationweather.gov");
}

#[test]
fn a_failure_of_awc_leaves_the_choice_open() {
    let mut source = AnySource::auto();
    let (errand, _) = asked(begin(&source, "rjtt"));
    let (errand, _) = asked(source.resume(errand, status(404, "404 Not Found", "{}")));
    failed(source.resume(errand, Reply::Unsent("no route".to_owned())));
    assert_eq!(source.pick_for("RJTT"), None);
    assert_eq!(source.name_for("RJTT"), "auto (undecided)");
    let (errand, request) = asked(begin(&source, "rjtt"));
    assert!(errand.settling && matches!(errand.leg, Leg::Station));
    assert_eq!(request.url, "https://api.weather.gov/stations/RJTT");
}

#[test]
fn the_first_success_settles_the_choice() {
    let mut source = AnySource::auto();
    let (one, _) = asked(begin(&source, "kmia"));
    let (two, _) = asked(begin(&source, "KMIA"));
    let (one, _) = asked(source.resume(one, status(404, "404 Not Found", "{}")));
    let (two, _) = asked(source.resume(two, ok(STATION)));
    assert!(matches!(source.resume(two, ok(ROWS)), Progress::Done(Ok(_))));
    assert!(matches!(source.resume(one, ok("[]")), Progress::Done(Ok(_))));
    assert_eq!(source.name_for("kmia"), "api.weather.gov");
}

#[test]
fn other_faults_leave_the_choice_open() {
    let mut source = AnySource::auto();
    let (errand, _) = asked(begin(&source, "kmia"));
    let text = failed(source.resume(errand, status(503, "503 Service Unavailable", "busy")));
    assert_eq!(text, "NWS API returned HTTP 503 Service Unavailable: busy");
    assert_eq!(source.pick_for("kmia"), None);
    let (errand, _) = asked(begin(&source, "kmia"));
    let text = failed(source.resume(errand, ok("{}")));
    assert_eq!(text, "decoding NWS station: missing field `properties` at line 1 column 2");
    assert_eq!(source.pick_for("kmia"), None);
}

#[test]
fn a_missing_station_is_a_fault_of_nws_alone() {
    let mut source = AnySource::Nws(NwsSource::new());
    let (errand, _) = asked(begin(&source, "zzzz"));
    match source.resume(errand, status(404, "404 Not Found", "")) {
        Progress::Done(Err(Fault::NotFound(e))) => assert_eq!(e.0, "ZZZZ"),
        _ => panic!("another outcome"),
    }
    assert_eq!(source.name_for("zzzz"), "api.weather.gov");
}

#[test]
fn awc_replies() {
    let mut source = AnySource::Awc(AwcSource::new());
    assert_eq!(source.name_for("RJTT"), "aviationweather.gov");
    let mut take = |reply: Reply| {
        let (errand, _) = asked(begin(&source, "rjtt"));
        source.resume(errand, reply)
    };
    assert_eq!(failed(take(Reply::Unsent("no route".into()))), "requesting AWC METAR data: no route");
    assert_eq!(failed(take(Reply::Unread("cut".into()))), "reading AWC response body: cut");
    assert_eq!(
        failed(take(status(500, "500 Internal Server Error", &"e".repeat(300)))),
        format!("AWC returned HTTP 500 Internal Server Error: {}", "e".repeat(200))
    );
    assert!(matches!(take(ok(METARS)), Progress::Done(Ok(_))));
    assert!(matches!(take(status(204, "204 No Content", METARS)), Progress::Done(Ok(_))));
    assert!(matches!(take(status(300, "300 Multiple Choices", METARS)), Progress::Done(Err(_))));
}

#[test]
fn synoptic_replies() {
    let mut source = AnySource::Synoptic(SynopticSource::new("secret".to_owned()));
    assert_eq!(source.name_for("RJTT"), "synopticdata.com");
    assert_eq!(source.pick_for("RJTT"), None);
    let mut take = |reply: Reply| {
        let (errand, request) = asked(begin(&source, "rjtt"));
        assert!(request.url.contains("&recent=60&"));
        assert!(request.url.ends_with("&token=secret"));
        assert!(request.shown.ends_with("&token=<token>"));
        assert!(!request.shown.contains("secret"));
        source.resume(errand, reply)
    };
    assert_eq!(
        failed(take(Reply::Unsent("no route".into()))),
        "requesting Synoptic timeseries: no route"
    );
    assert_eq!(failed(take(Reply::Unread("cut".into()))), "reading Synoptic response body: cut");
    let body = r#"{"SUMMARY":{"RESPONSE_CODE":2,"RESPONSE_MESSAGE":"bad token"}}"#;
    assert_eq!(
        failed(take(status(403, "403 Forbidden", body))),
        format!("Synoptic returned HTTP 403 Forbidden: {body}: Synoptic error (code 2): bad token")
    );
    assert_eq!(failed(take(ok(body))), "Synoptic error (code 2): bad token");
    let fine = r#"{"SUMMARY":{"RESPONSE_CODE":1},"STATION":[{"STID":"RJTT"}]}"#;
    assert!(matches!(take(status(500, "500 Oops", fine)), Progress::Done(Ok(_))));
}

#[test]
fn nws_replies() {
    let take = |reply: Reply| take_nws("KMIA", reply);
    assert_eq!(
        take(Reply::Unsent("no route".into())).unwrap_err().message(),
        "requesting NWS API: no route"
    );
    assert_eq!(
        take(Reply::Unread("cut".into())).unwrap_err().message(),
        "reading NWS response body: cut"
    );
    assert_eq!(
        take(status(404, "404 Not Found", "")).unwrap_err().message(),
        "the NWS API has no station KMIA"
    );
    assert_eq!(take(ok("body")).unwrap(), "body");
}

#[test]
fn payloads_are_quoted_in_part() {
    assert_eq!(snippet("short"), "short");
    assert_eq!(snippet(&"ä".repeat(250)), "ä".repeat(200));
}

#[test]
fn the_client_names_itself() {
    assert_eq!(user_agent(Some("me"), "1.2.3"), "me");
    assert_eq!(user_agent(None, "1.2.3"), "prawn/1.2.3 (weather station feed prototype)");
}

#[test]
fn instants_are_read_by_rfc_3339() {
    assert_eq!(parse_time(" 2026-09-12T15:07:37Z "), Some(NOW));
    assert_eq!(parse_time("2026-09-12T15:07:37+00:00"), Some(NOW));
    assert_eq!(parse_time("2026-09-12T15:07:37"), None);
    let leap = Time { secs: 1_483_228_799, nanos: 1_500_000_000 };
    assert_eq!(parse_time("2016-12-31T23:59:60.5Z"), Some(leap));
    assert!(leap.is_valid());
    let first = parse_time("0000-01-01T00:00:00+23:59").unwrap();
    let last = parse_time("9999-12-31T23:59:60-23:59").unwrap();
    assert!(first.is_valid() && last.is_valid());
}
