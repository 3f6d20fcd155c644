use prawn::cli::{station_id, synoptic_token, Options};
use prawn::time::Span;

fn options() -> Options {
    Options {
        history: Span::from_secs(86_400),
        replay: None,
        poll_interval: Span::from_secs(20),
        slow_interval: Span::from_secs(60),
        fast_window: Span::from_secs(600),
        lag_margin: Span::from_secs(60),
        idle_poll: None,
        once: false,
    }
}

#[test]
fn intervals_are_at_least_a_second() {
    let brief = Span { secs: 0, nanos: 999_999_999 };
    let mut o = options();
    o.poll_interval = brief;
    assert_eq!(o.config().unwrap_err(), "--poll-interval must be at least 1s");
    let mut o = options();
    o.slow_interval = brief;
    assert_eq!(o.config().unwrap_err(), "--slow-interval must be at least 1s");
    let mut o = options();
    o.idle_poll = Some(brief);
    assert_eq!(o.config().unwrap_err(), "--idle-poll must be at least 1s");
    o.idle_poll = Some(Span::from_secs(1));
    assert_eq!(o.config().unwrap().idle_poll, Some(Span::from_secs(1)));
}

#[test]
fn a_few_rows_are_replayed_or_all() {
    let mut o = options();
    assert_eq!(o.config().unwrap().replay, 3);
    o.once = true;
    assert_eq!(o.config().unwrap().replay, usize::MAX);
    o.replay = Some(7);
    assert_eq!(o.config().unwrap().replay, 7);
}

#[test]
fn stations_are_asked_for_in_upper_case() {
    assert_eq!(station_id(" rjtt\n"), "RJTT");
}

#[test]
fn synoptic_needs_a_token() {
    assert_eq!(synoptic_token(Some("t".to_owned())), Ok("t".to_owned()));
    assert_eq!(
        synoptic_token(None).unwrap_err(),
        "--source synoptic needs --token or SYNOPTIC_TOKEN"
    );
}
