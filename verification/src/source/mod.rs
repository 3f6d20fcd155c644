//! Upstream data providers. Each one turns its native payload into metric
//! [`Observation`](crate::model::Observation) rows.

use vstd::hash_map::StringHashMap;
use vstd::prelude::*;

use crate::source::awc::AwcSource;
use crate::source::nws::{NwsSource, StationNotFound};
use crate::source::synoptic::SynopticSource;
use crate::text::{chars_of, is_blank, text_of, to_upper, trim, trimmed, upper};
use crate::time::{parse_rfc3339, rfc3339, Span, Time};

pub mod awc;
pub mod fetch;
pub mod nws;
pub mod synoptic;

verus! {

/// Why a fetch failed.
#[derive(Debug)]
pub enum Fault {
    /// The provider has no such station.
    NotFound(StationNotFound),
    /// Anything else, in words.
    Message(String),
}

impl Fault {
    /// The fault in words.
    pub open spec fn text(self) -> Seq<char> {
        match self {
            Fault::NotFound(e) => e.text(),
            Fault::Message(m) => m@,
        }
    }

    /// The fault in words.
    pub fn message(&self) -> (r: String)
        ensures
            r@ == self.text(),
    {
        match self {
            Fault::NotFound(e) => e.message(),
            Fault::Message(m) => m.clone(),
        }
    }
}

/// The fault is no missing station, and its text is `text`.
pub open spec fn says(fault: Fault, text: Seq<char>) -> bool {
    fault matches Fault::Message(m) && m@ == text
}

/// A fault in two parts, as in `what: why`.
pub(crate) fn fault(what: &str, why: &str) -> (r: Fault)
    ensures
        says(r, what@ + why@),
{
    let mut text = String::new();
    text.append(what);
    text.append(why);
    assert(text@ =~= what@ + why@);
    Fault::Message(text)
}

/// How much of a payload a message quotes, in characters.
pub const SNIPPET: usize = 200;

/// The beginning of a text.
pub open spec fn beginning(s: Seq<char>) -> Seq<char> {
    if s.len() > SNIPPET {
        s.take(SNIPPET as int)
    } else {
        s
    }
}

/// The beginning of a payload, for a message.
pub fn snippet(s: &str) -> (r: String)
    ensures
        r@ == beginning(s@),
{
    let mut v = chars_of(s);
    if v.len() > SNIPPET {
        v.truncate(SNIPPET);
    }
    assert(v@ =~= beginning(s@));
    text_of(&v)
}

/// A string that is missing or blank counts as none.
pub open spec fn unless_blank(s: Option<String>) -> Option<String> {
    match s {
        Some(s) if trim(s@).len() > 0 => Some(s),
        _ => None,
    }
}

/// Drops a blank string.
pub(crate) fn drop_blank(s: Option<String>) -> (r: Option<String>)
    ensures
        r == unless_blank(s),
{
    match s {
        Some(s) => if is_blank(s.as_str()) {
            None
        } else {
            Some(s)
        },
        None => None,
    }
}

/// The instant that a text gives by RFC 3339.
pub open spec fn instant(text: Seq<char>) -> Option<Time> {
    match rfc3339(text) {
        Some((secs, nanos)) => Some(Time { secs, nanos }),
        None => None,
    }
}

/// Reads an RFC 3339 instant, whatever white space surrounds it.
pub fn parse_time(s: &str) -> (r: Option<Time>)
    ensures
        r == instant(trim(s@)),
        r matches Some(t) ==> t.wf(),
{
    let text = trimmed(s);
    parse_rfc3339(text.as_str())
}

/// Which backend serves a station.
#[derive(Debug, Clone, Copy, PartialEq, Eq, Structural)]
pub enum Pick {
    Nws,
    Awc,
}

/// The backend that each station has settled on, by its name in upper case.
pub struct Picks {
    settled: StringHashMap<Pick>,
}

impl View for Picks {
    type V = Map<Seq<char>, Pick>;

    closed spec fn view(&self) -> Map<Seq<char>, Pick> {
        self.settled@
    }
}

impl Picks {
    /// Nothing is settled yet.
    pub fn new() -> (r: Picks)
        ensures
            r@ == Map::<Seq<char>, Pick>::empty(),
    {
        Picks { settled: StringHashMap::new() }
    }

    /// What a station has settled on.
    pub open spec fn choice(self, station: Seq<char>) -> Option<Pick> {
        if self@.contains_key(upper(station)) {
            Some(self@[upper(station)])
        } else {
            None
        }
    }

    /// What a station has settled on.
    pub fn get(&self, station: &str) -> (r: Option<Pick>)
        ensures
            r == self.choice(station@),
    {
        let key = to_upper(station);
        match self.settled.get(key.as_str()) {
            Some(pick) => Some(*pick),
            None => None,
        }
    }

    /// Settles on a backend.
    pub fn record(&mut self, station: &str, pick: Pick)
        ensures
            final(self)@ == old(self)@.insert(upper(station@), pick),
    {
        self.settled.insert(to_upper(station), pick);
    }
}

/// A backend, or the choice between two.
pub enum AnySource {
    Awc(AwcSource),
    Nws(NwsSource),
    Synoptic(SynopticSource),
    /// NWS when it knows the station (US stations, with 5-minute ASOS rows),
    /// AWC otherwise. The choice is made on the first successful fetch.
    Auto { nws: NwsSource, awc: AwcSource, picks: Picks },
}

impl AnySource {
    /// The choice between NWS and AWC, with nothing settled yet.
    pub fn auto() -> (r: AnySource)
        ensures
            r matches AnySource::Auto { nws, picks, .. } && nws@ == Map::<
                Seq<char>,
                crate::model::StationInfo,
            >::empty() && picks@ == Map::<Seq<char>, Pick>::empty(),
    {
        AnySource::Auto { nws: NwsSource::new(), awc: AwcSource::new(), picks: Picks::new() }
    }

    /// Which of NWS and AWC serves a station, as far as that is settled.
    pub open spec fn picked(self, station: Seq<char>) -> Option<Pick> {
        match self {
            AnySource::Awc(_) => Some(Pick::Awc),
            AnySource::Nws(_) => Some(Pick::Nws),
            AnySource::Synoptic(_) => None,
            AnySource::Auto { picks, .. } => picks.choice(station),
        }
    }

    /// Which of NWS and AWC serves a station, as far as that is settled.
    pub fn pick_for(&self, station: &str) -> (r: Option<Pick>)
        ensures
            r == self.picked(station@),
    {
        match self {
            AnySource::Awc(_) => Some(Pick::Awc),
            AnySource::Nws(_) => Some(Pick::Nws),
            AnySource::Synoptic(_) => None,
            AnySource::Auto { picks, .. } => picks.get(station),
        }
    }

    /// The name of the backend that serves a station.
    pub open spec fn name(self, station: Seq<char>) -> Seq<char> {
        if self is Synoptic {
            "synopticdata.com"@
        } else {
            match self.picked(station) {
                Some(Pick::Nws) => "api.weather.gov"@,
                Some(Pick::Awc) => "aviationweather.gov"@,
                None => "auto (undecided)"@,
            }
        }
    }

    /// Backend serving a station. For `Auto` this is settled by the first fetch
    /// that succeeds.
    pub fn name_for(&self, station: &str) -> (r: &'static str)
        ensures
            r@ == self.name(station@),
    {
        match self {
            AnySource::Synoptic(_) => "synopticdata.com",
            _ => match self.pick_for(station) {
                Some(Pick::Nws) => "api.weather.gov",
                Some(Pick::Awc) => "aviationweather.gov",
                None => "auto (undecided)",
            },
        }
    }

    /// Shortest poll interval that can still return something new.
    pub fn min_poll_interval(&self, station: &str) -> (r: Span)
        ensures
            r.wf(),
            r == if self.picked(station@) == Some(Pick::Nws) {
                Span { secs: NwsSource::MIN_POLL_SECONDS, nanos: 0 }
            } else {
                Span { secs: 0, nanos: 0 }
            },
    {
        match self.pick_for(station) {
            Some(Pick::Nws) => Span::from_secs(NwsSource::MIN_POLL_SECONDS),
            _ => Span::zero(),
        }
    }
}

/// How the client names itself to the services.
pub open spec fn agent_text(given: Option<Seq<char>>, version: Seq<char>) -> Seq<char> {
    match given {
        Some(name) => name,
        None => "prawn/"@ + version + " (weather station feed prototype)"@,
    }
}

/// How the client names itself to the services: as told, or else by `version`.
pub fn user_agent(given: Option<&str>, version: &str) -> (r: String)
    ensures
        r@ == agent_text(
            match given {
                Some(name) => Some(name@),
                None => None,
            },
            version@,
        ),
{
    match given {
        Some(name) => name.to_owned(),
        None => {
            let mut r = String::new();
            r.append("prawn/");
            r.append(version);
            r.append(" (weather station feed prototype)");
            assert(r@ =~= "prawn/"@ + version@ + " (weather station feed prototype)"@);
            r
        },
    }
}

} // verus!
