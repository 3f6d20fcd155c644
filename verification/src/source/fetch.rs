//! One fetch, as a machine: it says what to request, is told what came back,
//! and ends with a batch or a fault.

use vstd::prelude::*;

use crate::model::{Batch, StationInfo};
use crate::schedule::can_be_earlier;
use crate::source::awc::AwcSource;
use crate::source::nws::{parse_observations, parse_station, NwsSource, StationNotFound};
use crate::source::synoptic::SynopticSource;
use crate::source::{awc, beginning, nws, says, snippet, synoptic, AnySource, Fault, Pick};
use crate::text::{law_case_is_all_that_changes, lower, to_upper, upper};
use crate::time::{Span, Time};

verus! {

/// What came of a request.
#[derive(Debug)]
pub enum Reply {
    /// It could not be sent, and why.
    Unsent(String),
    /// The body of the response could not be read, and why.
    Unread(String),
    /// A response: the status code, the status in words, and the body.
    Answer { code: u16, status: String, body: String },
}

/// A status code of success.
pub open spec fn succeeded(code: u16) -> bool {
    200 <= code < 300
}

/// The status that no such thing was found.
pub const NOT_FOUND: u16 = 404;

/// The fault of a response that is no success.
pub open spec fn refused(what: Seq<char>, status: Seq<char>, body: Seq<char>) -> Seq<char> {
    what + " returned HTTP "@ + status + ": "@ + beginning(body)
}

fn refusal(what: &str, status: &str, body: &str) -> (r: String)
    ensures
        r@ == refused(what@, status@, body@),
{
    let mut r = String::new();
    r.append(what);
    r.append(" returned HTTP ");
    r.append(status);
    r.append(": ");
    r.append(snippet(body).as_str());
    assert(r@ =~= refused(what@, status@, body@));
    r
}

/// What [`take_awc`] makes of a reply.
pub open spec fn awc_takes(station: Seq<char>, reply: Reply, r: Result<Batch, Fault>) -> bool {
    match reply {
        Reply::Unsent(why) => r matches Err(f) && says(f, "requesting AWC METAR data: "@ + why@),
        Reply::Unread(why) => r matches Err(f) && says(f, "reading AWC response body: "@ + why@),
        Reply::Answer { code, status, body } => if succeeded(code) {
            awc::parses(station, body@, r)
        } else {
            r matches Err(f) && says(f, refused("AWC"@, status@, body@))
        },
    }
}

/// Takes the reply of the Aviation Weather Center.
pub fn take_awc(station: &str, reply: Reply) -> (r: Result<Batch, Fault>)
    ensures
        awc_takes(station@, reply, r),
{
    match reply {
        Reply::Unsent(why) => Err(super::fault("requesting AWC METAR data: ", why.as_str())),
        Reply::Unread(why) => Err(super::fault("reading AWC response body: ", why.as_str())),
        Reply::Answer { code, status, body } => if 200 <= code && code < 300 {
            awc::parse_body(station, body.as_str())
        } else {
            Err(Fault::Message(refusal("AWC", status.as_str(), body.as_str())))
        },
    }
}

/// What [`take_synoptic`] makes of a reply.
pub open spec fn synoptic_takes(station: Seq<char>, reply: Reply, r: Result<Batch, Fault>) -> bool {
    match reply {
        Reply::Unsent(why) => r matches Err(f) && says(
            f,
            "requesting Synoptic timeseries: "@ + why@,
        ),
        Reply::Unread(why) => r matches Err(f) && says(
            f,
            "reading Synoptic response body: "@ + why@,
        ),
        Reply::Answer { code, status, body } => if succeeded(code) {
            synoptic::parses(station, body@, r)
        } else {
            match r {
                Ok(_) => synoptic::parses(station, body@, r),
                Err(f) => exists|inner: Fault| #[trigger]
                    synoptic::parses(station, body@, Err::<Batch, Fault>(inner)) && says(
                        f,
                        refused("Synoptic"@, status@, body@) + ": "@ + inner.text(),
                    ),
            }
        },
    }
}

/// Takes the reply of Synoptic Data, which explains token and argument
/// problems in the body.
pub fn take_synoptic(station: &str, reply: Reply) -> (r: Result<Batch, Fault>)
    ensures
        synoptic_takes(station@, reply, r),
{
    match reply {
        Reply::Unsent(why) => Err(super::fault("requesting Synoptic timeseries: ", why.as_str())),
        Reply::Unread(why) => Err(super::fault("reading Synoptic response body: ", why.as_str())),
        Reply::Answer { code, status, body } => {
            let parsed = synoptic::parse_body(station, body.as_str());
            if 200 <= code && code < 300 {
                return parsed;
            }
            match parsed {
                Ok(batch) => Ok(batch),
                Err(inner) => {
                    let mut text = refusal("Synoptic", status.as_str(), body.as_str());
                    text.append(": ");
                    text.append(inner.message().as_str());
                    assert(text@ =~= refused("Synoptic"@, status@, body@) + ": "@ + inner.text());
                    Err(Fault::Message(text))
                },
            }
        },
    }
}

/// What [`take_nws`] makes of a reply.
pub open spec fn nws_takes(station: Seq<char>, reply: Reply, r: Result<String, Fault>) -> bool {
    match reply {
        Reply::Unsent(why) => r matches Err(f) && says(f, "requesting NWS API: "@ + why@),
        Reply::Unread(why) => r matches Err(f) && says(f, "reading NWS response body: "@ + why@),
        Reply::Answer { code, status, body } => if code == NOT_FOUND {
            r matches Err(Fault::NotFound(e)) && e.0@ == station
        } else if succeeded(code) {
            r == Ok::<String, Fault>(body)
        } else {
            r matches Err(f) && says(f, refused("NWS API"@, status@, body@))
        },
    }
}

/// Takes a reply of the NWS API about a station.
pub fn take_nws(station: &str, reply: Reply) -> (r: Result<String, Fault>)
    ensures
        nws_takes(station@, reply, r),
{
    match reply {
        Reply::Unsent(why) => Err(super::fault("requesting NWS API: ", why.as_str())),
        Reply::Unread(why) => Err(super::fault("reading NWS response body: ", why.as_str())),
        Reply::Answer { code, status, body } => if code == NOT_FOUND {
            Err(Fault::NotFound(StationNotFound(station.to_owned())))
        } else if 200 <= code && code < 300 {
            Ok(body)
        } else {
            Err(Fault::Message(refusal("NWS API", status.as_str(), body.as_str())))
        },
    }
}

/// What a request is for.
#[derive(Debug)]
pub enum Leg {
    /// The reports of the Aviation Weather Center.
    Awc,
    /// The rows of Synoptic Data.
    Synoptic,
    /// What the NWS API says of the station.
    Station,
    /// The rows of the NWS API, for a station of which this is known.
    Rows(StationInfo),
}

/// A fetch under way.
#[derive(Debug)]
pub struct Errand {
    pub station: String,
    /// The trailing window.
    pub window: Span,
    pub leg: Leg,
    /// Success settles which backend serves the station.
    pub settling: bool,
}

/// A request to send.
pub struct Request {
    pub url: String,
    /// The address as it may be shown: without the token that it may hold.
    pub shown: String,
    /// The kind of content to accept.
    pub accept: Option<&'static str>,
}

/// How far a fetch has come.
pub enum Progress {
    /// A request is to be sent.
    Ask { errand: Errand, request: Request },
    /// What the NWS API says of the station is known, and its rows can be
    /// asked for by [`ask_rows`].
    Known { errand: Errand },
    /// It is over.
    Done(Result<Batch, Fault>),
}

/// The reports of the Aviation Weather Center are asked for.
pub open spec fn asks_awc(p: Progress, e: Errand) -> bool {
    p matches Progress::Ask { errand, request } && errand == (Errand {
        leg: Leg::Awc,
        ..e
    }) && request.url@ == AwcSource::address(e.station@, e.window) && request.shown@ == request.url@
        && request.accept is None
}

/// The content that the NWS API is asked for, at an address that may be shown.
pub open spec fn accepts_geo(request: Request) -> bool {
    &&& request.shown@ == request.url@
    &&& request.accept matches Some(kind) && kind@ == "application/geo+json"@
}

/// The NWS API is asked about the station.
pub open spec fn asks_station(p: Progress, e: Errand) -> bool {
    p matches Progress::Ask { errand, request } && errand == (Errand { leg: Leg::Station, ..e })
        && request.url@ == NwsSource::station_address(upper(e.station@)) && accepts_geo(request)
}

/// The rows of the station are to be asked for next.
pub open spec fn knows(p: Progress, e: Errand, info: StationInfo) -> bool {
    p == (Progress::Known { errand: Errand { leg: Leg::Rows(info), ..e } })
}

/// The NWS API is asked for the rows of the station, if the start of the
/// window can be told.
pub open spec fn asks_rows(p: Progress, e: Errand, now: Time) -> bool {
    match p {
        Progress::Ask { errand, request } => {
            &&& errand == e
            &&& NwsSource::tells_rows_url(
                upper(e.station@),
                e.window,
                now,
                Ok::<String, Fault>(request.url),
            )
            &&& accepts_geo(request)
        },
        Progress::Done(Err(f)) => NwsSource::tells_rows_url(
            upper(e.station@),
            e.window,
            now,
            Err::<String, Fault>(f),
        ),
        _ => false,
    }
}

fn ask_awc(e: Errand) -> (p: Progress)
    requires
        e.window.wf(),
    ensures
        asks_awc(p, e),
{
    let url = AwcSource::url(e.station.as_str(), e.window);
    Progress::Ask {
        errand: Errand { leg: Leg::Awc, ..e },
        request: Request { shown: url.clone(), url, accept: None },
    }
}

fn ask_station(e: Errand) -> (p: Progress)
    ensures
        asks_station(p, e),
{
    let url = NwsSource::station_url(to_upper(e.station.as_str()).as_str());
    Progress::Ask {
        errand: Errand { leg: Leg::Station, ..e },
        request: Request { shown: url.clone(), url, accept: Some("application/geo+json") },
    }
}

/// Asks the NWS API for the rows of a known station within the window that
/// ends at `now`.
pub fn ask_rows(e: Errand, now: Time) -> (p: Progress)
    requires
        e.window.wf(),
        now.wf(),
        can_be_earlier(now, e.window),
    ensures
        asks_rows(p, e, now),
{
    let id = to_upper(e.station.as_str());
    match NwsSource::rows_url(id.as_str(), e.window, now) {
        Ok(url) => Progress::Ask {
            errand: e,
            request: Request { shown: url.clone(), url, accept: Some("application/geo+json") },
        },
        Err(f) => Progress::Done(Err(f)),
    }
}

impl AnySource {
    /// What the NWS API is known to say of each station, where it is in use.
    pub open spec fn known(self) -> Map<Seq<char>, StationInfo> {
        match self {
            AnySource::Nws(nws) => nws@,
            AnySource::Auto { nws, .. } => nws@,
            _ => Map::empty(),
        }
    }

    /// What is settled, where there is a choice.
    pub open spec fn choices(self) -> Map<Seq<char>, Pick> {
        match self {
            AnySource::Auto { picks, .. } => picks@,
            _ => Map::empty(),
        }
    }

    /// `self` is `before` but for what is known and settled.
    pub open spec fn turned_from(
        self,
        before: AnySource,
        known: Map<Seq<char>, StationInfo>,
        choices: Map<Seq<char>, Pick>,
    ) -> bool {
        match before {
            AnySource::Nws(_) => self is Nws && self.known() == known && choices
                == before.choices(),
            AnySource::Auto { .. } => self is Auto && self.known() == known && self.choices()
                == choices,
            _ => self == before && known == before.known() && choices == before.choices(),
        }
    }

    /// The NWS API comes next: for rows where the station is known, else with
    /// a question about the station.
    pub open spec fn turns_to_nws(self, e: Errand, p: Progress) -> bool {
        let id = upper(e.station@);
        if self.known().contains_key(id) {
            knows(p, e, self.known()[id])
        } else {
            asks_station(p, e)
        }
    }

    /// What [`AnySource::fetch`] asks first.
    pub open spec fn sets_out(self, e: Errand, p: Progress) -> bool {
        match self {
            AnySource::Awc(_) => asks_awc(p, e),
            AnySource::Synoptic(s) => p matches Progress::Ask { errand, request } && errand == (
            Errand { leg: Leg::Synoptic, ..e }) && request.url@ == s.address(e.station@, e.window)
                && request.shown@ == SynopticSource::address_with("<token>"@, e.station@, e.window)
                && request.accept is None,
            AnySource::Nws(_) => self.turns_to_nws(e, p),
            AnySource::Auto { .. } => match self.picked(e.station@) {
                Some(Pick::Awc) => asks_awc(p, e),
                Some(Pick::Nws) => self.turns_to_nws(e, p),
                None => self.turns_to_nws(Errand { settling: true, ..e }, p),
            },
        }
    }

    fn turn_to_nws(&self, e: Errand) -> (p: Progress)
        requires
            self is Nws || self is Auto,
        ensures
            self.turns_to_nws(e, p),
    {
        let id = to_upper(e.station.as_str());
        let found = match self {
            AnySource::Nws(nws) => nws.station_info(id.as_str()),
            AnySource::Auto { nws, .. } => nws.station_info(id.as_str()),
            _ => None,
        };
        match found {
            Some(info) => Progress::Known { errand: Errand { leg: Leg::Rows(info), ..e } },
            None => ask_station(e),
        }
    }

    /// Begins to fetch every observation for `station` within the trailing
    /// `window`.
    pub fn fetch(&self, station: String, window: Span) -> (p: Progress)
        requires
            window.wf(),
        ensures
            self.sets_out(Errand { station, window, leg: Leg::Awc, settling: false }, p),
            self.carries_on(p),
    {
        let pick = self.pick_for(station.as_str());
        let e = Errand { station, window, leg: Leg::Awc, settling: false };
        match self {
            AnySource::Awc(_) => ask_awc(e),
            AnySource::Synoptic(s) => {
                let url = s.url(e.station.as_str(), window);
                let shown = SynopticSource::url_with("<token>", e.station.as_str(), window);
                Progress::Ask {
                    errand: Errand { leg: Leg::Synoptic, ..e },
                    request: Request { url, shown, accept: None },
                }
            },
            AnySource::Nws(_) => self.turn_to_nws(e),
            AnySource::Auto { .. } => match pick {
                Some(Pick::Awc) => ask_awc(e),
                Some(Pick::Nws) => self.turn_to_nws(e),
                None => self.turn_to_nws(Errand { settling: true, ..e }),
            },
        }
    }

    /// The errand is one that this source can be on.
    pub open spec fn runs(self, e: Errand) -> bool {
        &&& e.window.wf()
        &&& e.settling ==> self is Auto
        &&& match e.leg {
            Leg::Awc => self is Awc || self is Auto,
            Leg::Synoptic => self is Synoptic,
            Leg::Station => self is Nws || self is Auto,
            Leg::Rows(_) => self is Nws || self is Auto,
        }
    }

    /// The errand of a fetch that goes on is one that this source can be on.
    pub open spec fn carries_on(self, p: Progress) -> bool {
        match p {
            Progress::Ask { errand, .. } => self.runs(errand),
            Progress::Known { errand } => self.runs(errand),
            Progress::Done(_) => true,
        }
    }

    /// What is settled once `pick` has served the errand: the first success
    /// settles the choice.
    pub open spec fn choices_with(self, e: Errand, pick: Pick) -> Map<Seq<char>, Pick> {
        if e.settling && self.picked(e.station@) is None {
            self.choices().insert(upper(e.station@), pick)
        } else {
            self.choices()
        }
    }

    /// What a fault of the NWS API leads to: where the choice is open and there
    /// is no such station, to the Aviation Weather Center.
    pub open spec fn falls_back(self, e: Errand, f: Fault, p: Progress) -> bool {
        if e.settling && f is NotFound {
            asks_awc(p, e)
        } else {
            p == Progress::Done(Err::<Batch, Fault>(f))
        }
    }

    /// What [`AnySource::resume`] makes of a body that describes the station.
    pub open spec fn reads_station(
        self,
        e: Errand,
        body: Seq<char>,
        after: AnySource,
        p: Progress,
    ) -> bool {
        let id = upper(e.station@);
        exists|d: Result<StationInfo, Fault>| #[trigger]
            nws::parses_station(id, body, d) && match d {
                Ok(info) => after.turned_from(
                    self,
                    self.known().insert(id, info),
                    self.choices(),
                ) && knows(p, e, info),
                Err(f) => after == self && self.falls_back(e, f, p),
            }
    }

    /// What [`AnySource::resume`] makes of a body that lists rows.
    pub open spec fn reads_rows(
        self,
        e: Errand,
        info: StationInfo,
        body: Seq<char>,
        after: AnySource,
        p: Progress,
    ) -> bool {
        let id = upper(e.station@);
        exists|d: Result<Batch, Fault>| #[trigger]
            nws::parses_rows(id, body, d) && match d {
                Ok(batch) => after.turned_from(
                    self,
                    self.known(),
                    self.choices_with(e, Pick::Nws),
                ) && p == Progress::Done(
                    Ok::<Batch, Fault>(Batch { info: Some(info), rows: batch.rows }),
                ),
                Err(f) => after == self && self.falls_back(e, f, p),
            }
    }

    /// What [`AnySource::resume`] makes of a reply.
    pub open spec fn resumes(
        self,
        e: Errand,
        reply: Reply,
        after: AnySource,
        p: Progress,
    ) -> bool {
        match e.leg {
            Leg::Awc => p matches Progress::Done(r) && awc_takes(e.station@, reply, r) && match r {
                Ok(_) => after.turned_from(
                    self,
                    self.known(),
                    self.choices_with(e, Pick::Awc),
                ),
                Err(_) => after == self,
            },
            Leg::Synoptic => {
                &&& after == self
                &&& p matches Progress::Done(r) && synoptic_takes(e.station@, reply, r)
            },
            Leg::Station => exists|b: Result<String, Fault>| #[trigger]
                nws_takes(upper(e.station@), reply, b) && match b {
                    Ok(body) => self.reads_station(e, body@, after, p),
                    Err(f) => after == self && self.falls_back(e, f, p),
                },
            Leg::Rows(info) => exists|b: Result<String, Fault>| #[trigger]
                nws_takes(upper(e.station@), reply, b) && match b {
                    Ok(body) => self.reads_rows(e, info, body@, after, p),
                    Err(f) => after == self && self.falls_back(e, f, p),
                },
        }
    }

    fn settle(&mut self, e: &Errand, pick: Pick)
        requires
            old(self).runs(*e),
        ensures
            final(self).turned_from(
                *old(self),
                old(self).known(),
                old(self).choices_with(*e, pick),
            ),
    {
        if !e.settling || self.pick_for(e.station.as_str()).is_some() {
            return;
        }
        match self {
            AnySource::Auto { picks, .. } => {
                picks.record(e.station.as_str(), pick);
            },
            _ => {},
        }
    }

    fn remember(&mut self, id: &str, info: StationInfo)
        requires
            *old(self) is Auto || *old(self) is Nws,
        ensures
            final(self).turned_from(
                *old(self),
                old(self).known().insert(id@, info),
                old(self).choices(),
            ),
    {
        match self {
            AnySource::Auto { nws, .. } => {
                nws.remember(id, info);
            },
            AnySource::Nws(nws) => {
                nws.remember(id, info);
            },
            _ => {},
        }
    }

    fn fall_back(&self, e: Errand, f: Fault) -> (p: Progress)
        requires
            e.window.wf(),
        ensures
            self.falls_back(e, f, p),
    {
        if e.settling {
            if let Fault::NotFound(_) = &f {
                return ask_awc(e);
            }
        }
        Progress::Done(Err(f))
    }

    fn read_station(&mut self, e: Errand, body: &str) -> (p: Progress)
        requires
            old(self).runs(e),
            *old(self) is Auto || *old(self) is Nws,
        ensures
            old(self).reads_station(e, body@, *final(self), p),
    {
        let id = to_upper(e.station.as_str());
        let d = parse_station(id.as_str(), body);
        let ghost seen = d;
        assert(nws::parses_station(upper(e.station@), body@, seen));
        match d {
            Ok(info) => {
                self.remember(id.as_str(), info.clone());
                Progress::Known { errand: Errand { leg: Leg::Rows(info), ..e } }
            },
            Err(f) => self.fall_back(e, f),
        }
    }

    fn read_rows(&mut self, e: Errand, info: StationInfo, body: &str) -> (p: Progress)
        requires
            old(self).runs(e),
            *old(self) is Auto || *old(self) is Nws,
        ensures
            old(self).reads_rows(e, info, body@, *final(self), p),
    {
        let id = to_upper(e.station.as_str());
        let d = parse_observations(id.as_str(), body);
        let ghost seen = d;
        assert(nws::parses_rows(upper(e.station@), body@, seen));
        match d {
            Ok(batch) => {
                self.settle(&e, Pick::Nws);
                Progress::Done(Ok(Batch { info: Some(info), rows: batch.rows }))
            },
            Err(f) => self.fall_back(e, f),
        }
    }

    /// Goes on with a fetch after a reply.
    pub fn resume(&mut self, e: Errand, reply: Reply) -> (p: Progress)
        requires
            old(self).runs(e),
        ensures
            old(self).resumes(e, reply, *final(self), p),
            final(self).carries_on(p),
    {
        let id = to_upper(e.station.as_str());
        match &e.leg {
            Leg::Awc => {
                let r = take_awc(e.station.as_str(), reply);
                if r.is_ok() {
                    self.settle(&e, Pick::Awc);
                }
                Progress::Done(r)
            },
            Leg::Synoptic => Progress::Done(take_synoptic(e.station.as_str(), reply)),
            Leg::Station => {
                let b = take_nws(id.as_str(), reply);
                let ghost seen = b;
                assert(nws_takes(upper(e.station@), reply, seen));
                match b {
                    Ok(body) => self.read_station(e, body.as_str()),
                    Err(f) => self.fall_back(e, f),
                }
            },
            Leg::Rows(info) => {
                let info = info.clone();
                let b = take_nws(id.as_str(), reply);
                let ghost seen = b;
                assert(nws_takes(upper(e.station@), reply, seen));
                match b {
                    Ok(body) => self.read_rows(e, info, body.as_str()),
                    Err(f) => self.fall_back(e, f),
                }
            },
        }
    }
}

/// While the choice is open, the Aviation Weather Center is asked exactly when
/// the NWS API answers that it has no such station, and nothing is settled by
/// that.
pub proof fn law_a_missing_station_goes_to_awc(
    source: AnySource,
    e: Errand,
    reply: Reply,
    after: AnySource,
    p: Progress,
)
    requires
        source.runs(e),
        source.resumes(e, reply, after, p),
        e.settling,
        e.leg is Station || e.leg is Rows,
    ensures
        p is Ask <==> (reply matches Reply::Answer { code, .. } && code == NOT_FOUND),
        p is Ask ==> asks_awc(p, e) && after == source,
{
}

/// The first success settles the choice on the backend that gave it; a fetch
/// that fails leaves the source as it was.
pub proof fn law_success_settles_the_choice(
    source: AnySource,
    e: Errand,
    reply: Reply,
    after: AnySource,
    p: Progress,
)
    requires
        source.runs(e),
        source.resumes(e, reply, after, p),
        e.settling,
        source.picked(e.station@) is None,
    ensures
        p matches Progress::Done(Ok(_)) ==> after.name(e.station@) == if e.leg is Awc {
            "aviationweather.gov"@
        } else {
            "api.weather.gov"@
        },
        p matches Progress::Done(Err(_)) ==> after == source && after.name(e.station@)
            == "auto (undecided)"@,
{
}

/// Only a success settles a choice, and only that of the station it is about.
pub proof fn law_only_success_settles(
    source: AnySource,
    e: Errand,
    reply: Reply,
    after: AnySource,
    p: Progress,
    station: Seq<char>,
)
    requires
        source.runs(e),
        source.resumes(e, reply, after, p),
        after.picked(station) != source.picked(station),
    ensures
        p matches Progress::Done(Ok(_)),
        e.settling,
        upper(station) == upper(e.station@),
        source.picked(station) is None,
{
}

/// `after` is what a reply turned `before` into.
pub open spec fn one_reply(before: AnySource, after: AnySource) -> bool {
    exists|e: Errand, reply: Reply, p: Progress|
        before.runs(e) && #[trigger] before.resumes(e, reply, after, p)
}

/// A settled choice outlasts one reply.
proof fn lemma_a_reply_keeps_a_choice(before: AnySource, after: AnySource, station: Seq<char>)
    requires
        one_reply(before, after),
        before.picked(station) is Some,
    ensures
        after.picked(station) == before.picked(station),
        after is Synoptic <==> before is Synoptic,
{
    let (e, reply, p) = choose|e: Errand, reply: Reply, p: Progress|
        before.runs(e) && #[trigger] before.resumes(e, reply, after, p);
    if after.picked(station) != before.picked(station) {
        law_only_success_settles(before, e, reply, after, p, station);
    }
}

/// The source at `k + 1` is what a reply turned the one at `k` into.
pub open spec fn replied(sources: Seq<AnySource>, k: int) -> bool {
    one_reply(sources[k], sources[k + 1])
}

/// A choice that is settled stays, however many replies come and whatever they
/// are, in whatever case the station is written.
pub proof fn law_a_choice_lasts(
    sources: Seq<AnySource>,
    i: int,
    j: int,
    station: Seq<char>,
    other: Seq<char>,
)
    requires
        forall|k: int| 0 <= k < sources.len() - 1 ==> #[trigger] replied(sources, k),
        0 <= i <= j < sources.len(),
        sources[i].picked(station) is Some,
        upper(station) == upper(other),
    ensures
        sources[j].picked(other) == sources[i].picked(station),
        sources[j].name(other) == sources[i].name(station),
    decreases j - i,
{
    if i < j {
        law_a_choice_lasts(sources, i, j - 1, station, other);
        assert(replied(sources, j - 1));
        lemma_a_reply_keeps_a_choice(sources[j - 1], sources[j], other);
    }
}

/// Once the choice has fallen on the Aviation Weather Center, a later fetch
/// asks it straight away; once it has fallen on the NWS API, a later fetch
/// turns to it alone.
pub proof fn law_a_choice_is_followed(source: AnySource, e: Errand, p: Progress)
    requires
        source is Auto,
        source.sets_out(e, p),
        !e.settling,
        source.picked(e.station@) is Some,
    ensures
        source.picked(e.station@) == Some(Pick::Awc) ==> asks_awc(p, e),
        source.picked(e.station@) == Some(Pick::Nws) ==> source.turns_to_nws(e, p),
{
}

/// A fetch that began after the choice was made stays with its backend,
/// whatever comes back.
pub proof fn law_a_settled_fetch_asks_no_other(
    source: AnySource,
    e: Errand,
    reply: Reply,
    after: AnySource,
    p: Progress,
)
    requires
        source.runs(e),
        source.resumes(e, reply, after, p),
        !e.settling,
    ensures
        !(p is Ask),
        p matches Progress::Known { errand } ==> e.leg is Station && errand.leg is Rows
            && !errand.settling,
        forall|station: Seq<char>| #[trigger] after.picked(station) == source.picked(station),
{
}

/// The rows that a fetch ends with are in order of time; every value is
/// converted to the metric unit of its field, or left as it was sent; and
/// temperatures are given in both scales.
pub proof fn law_fetched_rows_are_sound(
    source: AnySource,
    e: Errand,
    reply: Reply,
    after: AnySource,
    batch: Batch,
)
    requires
        source.runs(e),
        source.resumes(e, reply, after, Progress::Done(Ok::<Batch, Fault>(batch))),
    ensures
        forall|i: int| 0 <= i < batch.rows@.len() ==> (#[trigger] batch.rows@[i]).sound(),
        crate::order::ranked(batch.rows@),
{
}

/// Whichever backend serves it, a fetch ends with rows of the station asked for
/// and of no other.
pub proof fn law_fetched_rows_are_of_the_station(
    source: AnySource,
    e: Errand,
    reply: Reply,
    after: AnySource,
    batch: Batch,
)
    requires
        source.runs(e),
        source.resumes(e, reply, after, Progress::Done(Ok::<Batch, Fault>(batch))),
    ensures
        batch.is_of(e.station@),
{
    let station = e.station@;
    law_case_is_all_that_changes(station);
    if let Reply::Answer { body, .. } = reply {
        if e.leg is Awc {
            awc::law_the_rows_are_of_the_station_asked_for(station, body@, batch);
        } else if e.leg is Synoptic {
            synoptic::law_the_rows_are_of_the_station_asked_for(station, body@, batch);
        } else if let Leg::Rows(info) = e.leg {
            assert(source.reads_rows(
                e,
                info,
                body@,
                after,
                Progress::Done(Ok::<Batch, Fault>(batch)),
            ));
            let d = choose|d: Result<Batch, Fault>| #[trigger]
                nws::parses_rows(upper(station), body@, d) && (d matches Ok(b) && batch == (Batch {
                    info: Some(info),
                    rows: b.rows,
                }));
            nws::law_the_rows_are_of_the_station(upper(station), body@, d->Ok_0);
            assert forall|i: int| 0 <= i < batch.rows@.len() implies lower(
                (#[trigger] batch.rows@[i]).station@,
            ) == lower(station) by {
                assert(batch.rows@[i] == d->Ok_0.rows@[i]);
            }
        }
    }
}

} // verus!
