//! Where things are asked for, what the replies are taken for, and by which
//! names the services go.

use vstd::prelude::*;

use crate::model::Batch;
use crate::source::awc::AwcSource;
use crate::source::fetch::{
    awc_takes, nws_takes, synoptic_takes, Errand, Leg, Progress, Reply,
};
use crate::source::nws::NwsSource;
use crate::source::synoptic::SynopticSource;
use crate::source::{says, AnySource, Fault, Pick};
use crate::text::{decimal, upper};
use crate::time::{utc_text, Span, Time};

verus! {

/// The Aviation Weather Center is asked for the station in upper case, and for
/// the window in hours with two decimals.
pub proof fn law_awc_is_asked_for_the_station(station: Seq<char>, window: Span)
    ensures
        AwcSource::address(station, window)
            == "https://aviationweather.gov/api/data/metar?ids="@ + upper(station)
            + "&format=json&hours="@ + AwcSource::hours_text(window),
        AwcSource::hundredths(window) % 100 < 10 ==> AwcSource::hours_text(window) == decimal(
            AwcSource::hundredths(window) / 100,
        ) + ".0"@ + decimal(AwcSource::hundredths(window) % 100),
        AwcSource::hundredths(window) % 100 >= 10 ==> AwcSource::hours_text(window) == decimal(
            AwcSource::hundredths(window) / 100,
        ) + "."@ + decimal(AwcSource::hundredths(window) % 100),
{
    reveal_strlit(".");
    reveal_strlit(".0");
    if AwcSource::hundredths(window) % 100 < 10 {
        assert(AwcSource::hours_text(window) =~= decimal(AwcSource::hundredths(window) / 100)
            + ".0"@ + decimal(AwcSource::hundredths(window) % 100));
    }
}

/// The NWS API is asked about a station by its identifier, and for its rows from
/// an instant on.
pub proof fn law_nws_is_asked_for_the_station(id: Seq<char>, start: Time)
    ensures
        NwsSource::station_address(id) == "https://api.weather.gov/stations/"@ + id,
        NwsSource::rows_address(id, start) == "https://api.weather.gov/stations/"@ + id
            + "/observations?start="@ + utc_text(
            start.secs,
            start.nanos,
            "%Y-%m-%dT%H:%M:%SZ"@,
        ) + "&limit=500"@,
{
}

/// Synoptic Data is asked for the station in upper case, for the window in
/// minutes, for metric units, and with the token.
pub proof fn law_synoptic_is_asked_for_the_station(
    s: SynopticSource,
    key: Seq<char>,
    station: Seq<char>,
    window: Span,
)
    ensures
        s.address(station, window) == SynopticSource::address_with(s.key(), station, window),
        SynopticSource::address_with(key, station, window)
            == "https://api.synopticdata.com/v2/stations/timeseries?stid="@ + upper(station)
            + "&recent="@ + decimal(SynopticSource::minutes(window))
            + "&units=metric,temp|C,speed|mps,pres|mb,height|m,precip|mm&obtimezone=UTC&token="@
            + key,
{
}

/// A request that was not sent, a body that was not read and a status that is
/// no success are faults, and say so; no other reply of the NWS API is.
pub proof fn law_nws_replies_are_told_apart(
    station: Seq<char>,
    reply: Reply,
    r: Result<String, Fault>,
)
    requires
        nws_takes(station, reply, r),
    ensures
        r matches Ok(text) ==> (reply matches Reply::Answer { code, body, .. } && 200 <= code < 300
            && body == text),
        reply matches Reply::Answer { code, .. } ==> (200 <= code < 300 ==> r is Ok),
        r matches Err(Fault::NotFound(e)) ==> e.0@ == station,
        r matches Err(Fault::NotFound(_)) <==> (reply matches Reply::Answer { code, .. } && code
            == 404),
        reply matches Reply::Unsent(why) ==> (r matches Err(f) && says(
            f,
            "requesting NWS API: "@ + why@,
        )),
        reply matches Reply::Unread(why) ==> (r matches Err(f) && says(
            f,
            "reading NWS response body: "@ + why@,
        )),
{
}

/// The same holds of the Aviation Weather Center, of which a success may still
/// hold a fault, and of Synoptic Data, where any status may come with rows.
pub proof fn law_other_replies_are_told_apart(
    station: Seq<char>,
    reply: Reply,
    a: Result<Batch, Fault>,
    s: Result<Batch, Fault>,
)
    requires
        awc_takes(station, reply, a),
        synoptic_takes(station, reply, s),
    ensures
        a is Ok ==> (reply matches Reply::Answer { code, body, .. } && 200 <= code < 300
            && crate::source::awc::parses(station, body@, a)),
        s is Ok ==> (reply matches Reply::Answer { body, .. } && crate::source::synoptic::parses(
            station,
            body@,
            s,
        )),
        reply matches Reply::Unsent(why) ==> (a matches Err(f) && says(
            f,
            "requesting AWC METAR data: "@ + why@,
        )) && (s matches Err(f) && says(f, "requesting Synoptic timeseries: "@ + why@)),
        reply matches Reply::Unread(why) ==> (a matches Err(f) && says(
            f,
            "reading AWC response body: "@ + why@,
        )) && (s matches Err(f) && says(f, "reading Synoptic response body: "@ + why@)),
{
}

/// Every backend goes by its own name, whatever the station; where there is a
/// choice, by the name of the one chosen, and by neither until then.
pub proof fn law_backends_go_by_their_names(source: AnySource, station: Seq<char>)
    ensures
        source is Awc ==> source.name(station) == "aviationweather.gov"@,
        source is Nws ==> source.name(station) == "api.weather.gov"@,
        source is Synoptic ==> source.name(station) == "synopticdata.com"@,
        source is Auto && source.picked(station) == Some(Pick::Awc) ==> source.name(station)
            == "aviationweather.gov"@,
        source is Auto && source.picked(station) == Some(Pick::Nws) ==> source.name(station)
            == "api.weather.gov"@,
        source is Auto && source.picked(station) is None ==> source.name(station)
            == "auto (undecided)"@,
{
}

/// A choice is that of the station in any case: two ways to write it have the
/// same one.
pub proof fn law_choices_are_found_in_any_case(source: AnySource, a: Seq<char>, b: Seq<char>)
    requires
        upper(a) == upper(b),
    ensures
        source.picked(a) == source.picked(b),
        source.name(a) == source.name(b),
{
}

/// A fetch begins at the backend of the source, with the station and the window
/// that were asked for: at the Aviation Weather Center and at Synoptic Data with
/// a request for the rows, at the NWS API with a question about the station
/// unless it is known.
pub proof fn law_a_fetch_begins_at_its_backend(source: AnySource, e: Errand, p: Progress)
    requires
        source.sets_out(e, p),
        !e.settling,
    ensures
        !(p is Done),
        p matches Progress::Ask { errand, .. } ==> errand.station == e.station && errand.window
            == e.window,
        p matches Progress::Known { errand } ==> errand.station == e.station && errand.window
            == e.window,
        source is Awc ==> (p matches Progress::Ask { errand, request } && errand.leg is Awc
            && request.url@ == AwcSource::address(e.station@, e.window) && request.accept is None
            && !errand.settling),
        source matches AnySource::Synoptic(s) ==> (p matches Progress::Ask { errand, request }
            && errand.leg is Synoptic && request.url@ == s.address(e.station@, e.window)
            && request.accept is None && !errand.settling),
        source is Nws && !source.known().contains_key(upper(e.station@)) ==> (
        p matches Progress::Ask { errand, request } && errand.leg is Station && request.url@
            == NwsSource::station_address(upper(e.station@)) && (request.accept matches Some(kind)
            && kind@ == "application/geo+json"@) && !errand.settling),
        source is Nws && source.known().contains_key(upper(e.station@)) ==> (
        p matches Progress::Known { errand } && errand.leg == Leg::Rows(
            source.known()[upper(e.station@)],
        ) && !errand.settling),
        source is Auto && source.picked(e.station@) is None ==> (p matches Progress::Ask {
            errand,
            ..
        } ==> errand.leg is Station && errand.settling) && (p matches Progress::Known { errand }
            ==> errand.leg is Rows && errand.settling),
{
}

/// What the NWS API says of a station is remembered for the station in any
/// case, and is what its rows come with.
pub proof fn law_a_described_station_is_remembered(
    source: AnySource,
    e: Errand,
    reply: Reply,
    after: AnySource,
    p: Progress,
)
    requires
        source.runs(e),
        source.resumes(e, reply, after, p),
    ensures
        p matches Progress::Known { errand } ==> (errand.leg matches Leg::Rows(info)
            && after.known() == source.known().insert(upper(e.station@), info) && errand.station
            == e.station && errand.window == e.window),
        !(p is Known) ==> after.known() == source.known(),
        e.leg matches Leg::Rows(info) ==> (p matches Progress::Done(Ok(batch)) ==> batch.info
            == Some(info)),
{
}

/// What the shown address of a request holds in place of the token.
pub proof fn law_the_token_is_not_shown(source: AnySource, e: Errand, p: Progress)
    requires
        source.sets_out(e, p),
    ensures
        p matches Progress::Ask { request, .. } ==> (source is Synoptic ==> request.shown@
            == SynopticSource::address_with("<token>"@, e.station@, e.window)) && (!(
        source is Synoptic) ==> request.shown@ == request.url@),
{
}

/// Rows are asked for from a whole minute on that lies no later than the start
/// of the window, and less than a minute before it.
pub proof fn law_the_start_covers_the_window(window: Span, now: Time)
    requires
        window.wf(),
        now.wf(),
        now.nanos < 1_000_000_000,
        window.secs * 1_000_000_000 + window.nanos <= i64::MAX * 1_000_000,
        crate::schedule::can_be_earlier(now, window),
    ensures
        ({
            let start = NwsSource::start(window, now);
            let begin = (now.secs - window.secs) * 1_000_000_000 + now.nanos - window.nanos;
            let from = start.secs * 1_000_000_000 + start.nanos;
            &&& from <= begin < from + 60_000_000_000
            &&& start.nanos == 0
            &&& start.secs as int % 60 == 0
        }),
{
    let begin = crate::schedule::moved_earlier(now, window);
    let ns = (now.secs - window.secs) * 1_000_000_000 + now.nanos - window.nanos;
    assert(begin.ns() == ns && begin.nanos < 1_000_000_000);
    let past = ns % 60_000_000_000;
    assert(Span::of_ns(past as nat).ns() == past);
    let from = ns - past;
    assert(from % 60_000_000_000 == 0);
    assert(NwsSource::start(window, now) == Time::of_ns(from));
    assert(from == from / 60_000_000_000 * 60 * 1_000_000_000);
    assert(from / 1_000_000_000 == from / 60_000_000_000 * 60);
    lemma_in_calendar(ns, from);
}

proof fn lemma_in_calendar(ns: int, from: int)
    requires
        Time::ns_in_calendar(ns),
        from == ns - ns % 60_000_000_000,
    ensures
        Time::ns_in_calendar(from),
{
}

} // verus!
