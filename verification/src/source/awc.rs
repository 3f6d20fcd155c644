//! Aviation Weather Center data API backend.
//!
//! Token-free, global METAR/SPECI coverage. Docs: <https://aviationweather.gov/data/api/>.
//! The service allows 100 requests per minute and asks for modest, identifiable clients.
//! Reports carry a `receiptTime`, which lets us measure each station's publish lag
//! straight from history instead of learning it by polling.

use serde_json::Value;
use vstd::prelude::*;

use crate::json::{
    cell_at, cell_holds, check_integer, check_list, check_needed_text, check_number,
    check_optional_list, check_text, given, integer_at, json, list_at, list_of, list_tells,
    list_wrong, listed, member, not_integer, not_number, not_text, number_at, print, printed, read,
    reading_in, text_at, text_in, told, unless_null, whole_in, Cell, Doc, Fields,
};
use crate::model::{
    convert, converted, humidity, humidity_of, keep, unconverted, Batch, Bearing, CloudLayer,
    ObsKind, Observation, Reading, Scale, StationInfo,
};
use crate::numeral::place_of;
use crate::order::{in_order, sort};
use crate::record::{at_places, words};
use crate::schedule::two_digits;
use crate::source::{
    beginning, drop_blank, fault, instant, says, snippet, unless_blank, Fault,
};
use crate::text::{
    chars_of, decimal, decimal_of, law_case_is_all_that_changes, lower, same, same_ignoring_case,
    strip_end, stripped_end, text_of, to_upper, trim, trimmed, upper,
};
use crate::time::{parse_rfc3339, timestamp, Span, Time};

verus! {

/// One report as the service sends it.
#[derive(Debug)]
pub struct Metar {
    pub icao_id: String,
    pub receipt_time: Option<String>,
    pub obs_time: Option<i64>,
    pub report_time: Option<String>,
    pub temp: Option<Reading>,
    pub dewp: Option<Reading>,
    /// Degrees, or the string "VRB".
    pub wdir: Option<Cell>,
    pub wspd: Option<Reading>,
    pub wgst: Option<Reading>,
    /// Statute miles, or a string like "10+".
    pub visib: Option<Cell>,
    pub altim: Option<Reading>,
    pub slp: Option<Reading>,
    pub wx_string: Option<String>,
    pub precip: Option<Reading>,
    pub pcp3hr: Option<Reading>,
    pub pcp6hr: Option<Reading>,
    pub pcp24hr: Option<Reading>,
    pub snow: Option<Reading>,
    pub metar_type: Option<String>,
    pub raw_ob: Option<String>,
    pub lat: Option<Reading>,
    pub lon: Option<Reading>,
    pub elev: Option<Reading>,
    pub name: Option<String>,
    pub clouds: Option<Vec<Cloud>>,
}

/// One layer of clouds as the service sends it.
#[derive(Debug)]
pub struct Cloud {
    pub cover: Option<String>,
    pub base: Option<Reading>,
}

impl Fields for Cloud {
    open spec fn title() -> Seq<char> {
        "struct AwcCloud"@
    }

    open spec fn names() -> Seq<Seq<char>> {
        seq!["cover"@, "base"@]
    }

    open spec fn sorted() -> Seq<int> {
        seq![1, 0]
    }

    open spec fn needs(k: int) -> bool {
        false
    }

    open spec fn part_wrong(k: int, d: Doc) -> Option<Seq<char>> {
        if k == 0 {
            unless_null(d, not_text(d))
        } else {
            unless_null(d, not_number(d))
        }
    }

    open spec fn tells(self, d: Doc) -> bool {
        &&& told(self.cover) == text_in(given(d, "cover"@, 0))
        &&& self.base == reading_in(given(d, "base"@, 1))
    }

    fn form() -> (r: (&'static str, Vec<&'static str>, Vec<usize>)) {
        let names: Vec<&'static str> = vec!["cover", "base"];
        let sorted: Vec<usize> = vec![1, 0];
        assert(words(names@) =~= Self::names());
        assert(at_places(sorted@) =~= Self::sorted());
        ("struct AwcCloud", names, sorted)
    }

    fn is_needed(k: usize) -> (r: bool) {
        false
    }

    fn check_part(k: usize, value: &Value) -> (r: Option<String>) {
        if k == 0 {
            check_text(value)
        } else {
            check_number(value)
        }
    }

    fn build(value: &Value) -> (r: Cloud) {
        Cloud {
            cover: text_at(value, "cover", 0),
            base: number_at(value, "base", 1),
        }
    }
}

impl Fields for Metar {
    open spec fn title() -> Seq<char> {
        "struct AwcMetar"@
    }

    open spec fn names() -> Seq<Seq<char>> {
        seq![
            "icaoId"@,
            "receiptTime"@,
            "obsTime"@,
            "reportTime"@,
            "temp"@,
            "dewp"@,
            "wdir"@,
            "wspd"@,
            "wgst"@,
            "visib"@,
            "altim"@,
            "slp"@,
            "wxString"@,
            "precip"@,
            "pcp3hr"@,
            "pcp6hr"@,
            "pcp24hr"@,
            "snow"@,
            "metarType"@,
            "rawOb"@,
            "lat"@,
            "lon"@,
            "elev"@,
            "name"@,
            "clouds"@,
        ]
    }

    open spec fn sorted() -> Seq<int> {
        seq![
            10, 24, 5, 22, 0, 20, 21, 18, 23, 2, 16, 14, 15, 13, 19, 1, 3, 11, 17, 4, 9, 6, 8, 7,
            12,
        ]
    }

    open spec fn needs(k: int) -> bool {
        k == 0
    }

    open spec fn part_wrong(k: int, d: Doc) -> Option<Seq<char>> {
        if k == 0 {
            not_text(d)
        } else if k == 2 {
            unless_null(d, not_integer(d))
        } else if k == 24 {
            unless_null(d, list_wrong::<Cloud>(d))
        } else if k == 6 || k == 9 {
            None
        } else if k == 1 || k == 3 || k == 12 || k == 18 || k == 19 || k == 23 {
            unless_null(d, not_text(d))
        } else {
            unless_null(d, not_number(d))
        }
    }

    open spec fn tells(self, d: Doc) -> bool {
        &&& text_in(given(d, "icaoId"@, 0)) matches Some(id) ==> self.icao_id@ == id
        &&& told(self.receipt_time) == text_in(given(d, "receiptTime"@, 1))
        &&& self.obs_time == whole_in(given(d, "obsTime"@, 2))
        &&& told(self.report_time) == text_in(given(d, "reportTime"@, 3))
        &&& self.temp == reading_in(given(d, "temp"@, 4))
        &&& self.dewp == reading_in(given(d, "dewp"@, 5))
        &&& cell_holds(self.wdir, given(d, "wdir"@, 6))
        &&& self.wspd == reading_in(given(d, "wspd"@, 7))
        &&& self.wgst == reading_in(given(d, "wgst"@, 8))
        &&& cell_holds(self.visib, given(d, "visib"@, 9))
        &&& self.altim == reading_in(given(d, "altim"@, 10))
        &&& self.slp == reading_in(given(d, "slp"@, 11))
        &&& told(self.wx_string) == text_in(given(d, "wxString"@, 12))
        &&& self.precip == reading_in(given(d, "precip"@, 13))
        &&& self.pcp3hr == reading_in(given(d, "pcp3hr"@, 14))
        &&& self.pcp6hr == reading_in(given(d, "pcp6hr"@, 15))
        &&& self.pcp24hr == reading_in(given(d, "pcp24hr"@, 16))
        &&& self.snow == reading_in(given(d, "snow"@, 17))
        &&& told(self.metar_type) == text_in(given(d, "metarType"@, 18))
        &&& told(self.raw_ob) == text_in(given(d, "rawOb"@, 19))
        &&& self.lat == reading_in(given(d, "lat"@, 20))
        &&& self.lon == reading_in(given(d, "lon"@, 21))
        &&& self.elev == reading_in(given(d, "elev"@, 22))
        &&& told(self.name) == text_in(given(d, "name"@, 23))
        &&& listed(self.clouds, given(d, "clouds"@, 24))
    }

    fn form() -> (r: (&'static str, Vec<&'static str>, Vec<usize>)) {
        let names: Vec<&'static str> = vec![
            "icaoId",
            "receiptTime",
            "obsTime",
            "reportTime",
            "temp",
            "dewp",
            "wdir",
            "wspd",
            "wgst",
            "visib",
            "altim",
            "slp",
            "wxString",
            "precip",
            "pcp3hr",
            "pcp6hr",
            "pcp24hr",
            "snow",
            "metarType",
            "rawOb",
            "lat",
            "lon",
            "elev",
            "name",
            "clouds",
        ];
        let sorted: Vec<usize> = vec![
            10, 24, 5, 22, 0, 20, 21, 18, 23, 2, 16, 14, 15, 13, 19, 1, 3, 11, 17, 4, 9, 6, 8, 7,
            12,
        ];
        assert(words(names@) =~= Self::names());
        assert(at_places(sorted@) =~= Self::sorted());
        ("struct AwcMetar", names, sorted)
    }

    fn is_needed(k: usize) -> (r: bool) {
        k == 0
    }

    fn check_part(k: usize, value: &Value) -> (r: Option<String>) {
        if k == 0 {
            check_needed_text(value)
        } else if k == 2 {
            check_integer(value)
        } else if k == 24 {
            check_optional_list::<Cloud>(value)
        } else if k == 6 || k == 9 {
            None
        } else if k == 1 || k == 3 || k == 12 || k == 18 || k == 19 || k == 23 {
            check_text(value)
        } else {
            check_number(value)
        }
    }

    fn build(value: &Value) -> (r: Metar) {
        Metar {
            icao_id: match text_at(value, "icaoId", 0) {
                Some(id) => id,
                None => String::new(),
            },
            receipt_time: text_at(value, "receiptTime", 1),
            obs_time: integer_at(value, "obsTime", 2),
            report_time: text_at(value, "reportTime", 3),
            temp: number_at(value, "temp", 4),
            dewp: number_at(value, "dewp", 5),
            wdir: cell_at(value, "wdir", 6),
            wspd: number_at(value, "wspd", 7),
            wgst: number_at(value, "wgst", 8),
            visib: cell_at(value, "visib", 9),
            altim: number_at(value, "altim", 10),
            slp: number_at(value, "slp", 11),
            wx_string: text_at(value, "wxString", 12),
            precip: number_at(value, "precip", 13),
            pcp3hr: number_at(value, "pcp3hr", 14),
            pcp6hr: number_at(value, "pcp6hr", 15),
            pcp24hr: number_at(value, "pcp24hr", 16),
            snow: number_at(value, "snow", 17),
            metar_type: text_at(value, "metarType", 18),
            raw_ob: text_at(value, "rawOb", 19),
            lat: number_at(value, "lat", 20),
            lon: number_at(value, "lon", 21),
            elev: number_at(value, "elev", 22),
            name: text_at(value, "name", 23),
            clouds: list_at(value, "clouds", 24),
        }
    }
}

/// `s` with its first blank turned into a `T`.
pub open spec fn with_t(s: Seq<char>) -> Seq<char> {
    let p = place_of(s, ' ') as int;
    if p < s.len() {
        s.update(p, 'T')
    } else {
        s
    }
}

/// The text that [`parse_timestamp`] reads: the blank of the form with one
/// between date and time turned into a `T`.
pub open spec fn timestamp_text(s: Seq<char>) -> Seq<char> {
    let t = trim(s);
    let bytes = vstd::utf8::encode_utf8(t);
    if bytes.len() > 10 && bytes[10] == 0x20 {
        with_t(t)
    } else {
        t
    }
}

fn put_t(s: &str) -> (r: String)
    ensures
        r@ == with_t(s@),
{
    let mut v = chars_of(s);
    let mut i: usize = 0;
    while i < v.len() && v[i] != ' '
        invariant
            i <= v@.len(),
            forall|k: int| 0 <= k < i ==> #[trigger] v@[k] != ' ',
        ensures
            i <= v@.len(),
            forall|k: int| 0 <= k < i ==> #[trigger] v@[k] != ' ',
            i < v@.len() ==> v@[i as int] == ' ',
        decreases v@.len() - i,
    {
        i += 1;
    }
    proof {
        crate::numeral::lemma_place(v@, ' ', i as int);
    }
    if i < v.len() {
        v.set(i, 'T');
    }
    text_of(&v)
}

/// Accepts `2026-09-12T15:07:37.896Z` and the space-separated form the docs describe.
pub fn parse_timestamp(s: &str) -> (r: Option<Time>)
    ensures
        r == instant(timestamp_text(s@)),
        r matches Some(t) ==> t.wf(),
{
    let t = trimmed(s);
    let bytes = t.as_str().as_bytes();
    if bytes.len() > 10 && bytes[10] == 0x20 {
        let candidate = put_t(t.as_str());
        parse_rfc3339(candidate.as_str())
    } else {
        parse_rfc3339(t.as_str())
    }
}

/// The number in a cell: one that is a number, or whose text spells one ahead
/// of any `+` at its end.
pub fn number_or_plus_string(cell: &Cell) -> (r: Option<Reading>)
    ensures
        cell.reads_as(strip_end(trim(cell.text()), '+'), r),
{
    match cell {
        Cell::Number(bits) => Some(Reading::Number(*bits)),
        Cell::Text(text) => {
            let t = trimmed(text.as_str());
            crate::json::written(stripped_end(t.as_str(), '+'))
        },
        Cell::Other => None,
    }
}

/// The kind of report that the type word says.
pub open spec fn kind_of(word: Option<Seq<char>>) -> ObsKind {
    match word {
        Some(w) => if w == "METAR"@ {
            ObsKind::Routine
        } else if w == "SPECI"@ {
            ObsKind::Special
        } else {
            ObsKind::Unknown
        },
        None => ObsKind::Unknown,
    }
}

fn kind(word: &Option<String>) -> (r: ObsKind)
    ensures
        r == kind_of(told(*word)),
{
    match word {
        Some(w) => if same(w.as_str(), "METAR") {
            ObsKind::Routine
        } else if same(w.as_str(), "SPECI") {
            ObsKind::Special
        } else {
            ObsKind::Unknown
        },
        None => ObsKind::Unknown,
    }
}

/// The layers that have a cover, their bases in metres.
pub open spec fn layers_of(clouds: Seq<Cloud>) -> Seq<CloudLayer>
    decreases clouds.len(),
{
    if clouds.len() == 0 {
        Seq::empty()
    } else {
        let c = clouds.last();
        match c.cover {
            Some(cover) => layers_of(clouds.drop_last()).push(
                CloudLayer { cover, base_m: converted(c.base, Scale::FeetToM, 0) },
            ),
            None => layers_of(clouds.drop_last()),
        }
    }
}

/// The layers of clouds that may be missing.
pub open spec fn sky_of(clouds: Option<Vec<Cloud>>) -> Seq<CloudLayer> {
    match clouds {
        Some(clouds) => layers_of(clouds@),
        None => Seq::empty(),
    }
}

fn sky(clouds: Option<Vec<Cloud>>) -> (r: Vec<CloudLayer>)
    ensures
        r@ == sky_of(clouds),
        forall|i: int|
            0 <= i < r@.len() ==> crate::model::given_in(
                (#[trigger] r@[i]).base_m,
                crate::model::Unit::Metres,
            ),
{
    let mut r: Vec<CloudLayer> = Vec::new();
    if let Some(clouds) = clouds {
        let ghost whole = clouds@;
        for c in it: clouds
            invariant
                it.seq() == whole,
                r@ == layers_of(whole.take(it.index() as int)),
                forall|i: int|
                    0 <= i < r@.len() ==> crate::model::given_in(
                        (#[trigger] r@[i]).base_m,
                        crate::model::Unit::Metres,
                    ),
        {
            let ghost n = it.index() as int;
            assert(whole.take(n + 1).drop_last() == whole.take(n));
            if let Some(cover) = c.cover {
                r.push(CloudLayer { cover, base_m: convert(c.base, Scale::FeetToM, 0) });
            }
        }
        assert(whole.take(whole.len() as int) == whole);
    }
    r
}

impl Metar {
    /// When the station observed: by `obsTime`, or else by `reportTime`.
    pub open spec fn valid_time(self) -> Option<Time> {
        match self.obs_time {
            Some(secs) => if (Time { secs, nanos: 0 }).wf() {
                Some(Time { secs, nanos: 0 })
            } else {
                None
            },
            None => match self.report_time {
                Some(text) => instant(timestamp_text(text@)),
                None => None,
            },
        }
    }

    /// When the service received the report.
    pub open spec fn receipt(self) -> Option<Time> {
        match self.receipt_time {
            Some(text) => instant(timestamp_text(text@)),
            None => None,
        }
    }

    /// The wind direction, where it is a number.
    pub open spec fn direction(self) -> Option<Bearing> {
        match self.wdir {
            Some(Cell::Number(bits)) => Some(Bearing { reading: Reading::Number(bits) }),
            _ => None,
        }
    }

    /// The wind comes from no one direction.
    pub open spec fn varies(self) -> bool {
        self.wdir matches Some(Cell::Text(text)) && lower(text@) == lower("VRB"@)
    }

    /// `m` is the visibility that the report gives.
    pub open spec fn sees(self, m: Option<crate::model::Measure>) -> bool {
        match self.visib {
            Some(cell) => exists|reading: Option<Reading>| #[trigger]
                cell.reads_as(strip_end(trim(cell.text()), '+'), reading) && m == converted(
                    reading,
                    Scale::StatuteMilesToKm,
                    1,
                ),
            None => m is None,
        }
    }

    /// What the report says of its station.
    pub open spec fn describes(self, info: StationInfo) -> bool {
        &&& info.id@ == upper(self.icao_id@)
        &&& info.name == self.name
        &&& info.lat == unconverted(self.lat)
        &&& info.lon == unconverted(self.lon)
        &&& info.elevation_m == unconverted(self.elev)
    }

    /// The observation that the report makes.
    pub open spec fn reports(self, o: Observation) -> bool {
        &&& o.station@ == upper(self.icao_id@)
        &&& Some(o.time) == self.valid_time()
        &&& o.received == self.receipt()
        &&& o.kind == kind_of(told(self.metar_type))
        &&& o.air_temp_c == unconverted(self.temp)
        &&& o.dew_point_c == unconverted(self.dewp)
        &&& o.in_both_scales()
        &&& o.relative_humidity_pct == humidity_of(
            None,
            unconverted(self.temp),
            unconverted(self.dewp),
        )
        &&& o.wind_direction_deg == self.direction()
        &&& o.wind_variable == self.varies()
        &&& o.wind_speed_ms == converted(self.wspd, Scale::KnotsToMs, 1)
        &&& o.wind_gust_ms == converted(self.wgst, Scale::KnotsToMs, 1)
        &&& self.sees(o.visibility_km)
        &&& o.altimeter_hpa == converted(self.altim, Scale::AsIs, 1)
        &&& o.sea_level_pressure_hpa == converted(self.slp, Scale::AsIs, 1)
        &&& o.weather == unless_blank(self.wx_string)
        &&& o.clouds@ == sky_of(self.clouds)
        &&& o.precip_1h_mm == converted(self.precip, Scale::InchesToMm, 2)
        &&& o.precip_3h_mm == converted(self.pcp3hr, Scale::InchesToMm, 2)
        &&& o.precip_6h_mm == converted(self.pcp6hr, Scale::InchesToMm, 2)
        &&& o.precip_24h_mm == converted(self.pcp24hr, Scale::InchesToMm, 2)
        &&& o.snow_depth_cm == converted(self.snow, Scale::InchesToCm, 1)
        &&& o.raw == self.raw_ob
    }

    /// What the report says of its station.
    pub fn station_info(&self) -> (r: StationInfo)
        ensures
            self.describes(r),
    {
        StationInfo {
            id: to_upper(self.icao_id.as_str()),
            name: match &self.name {
                Some(name) => Some(name.clone()),
                None => None,
            },
            lat: keep(copied_reading(&self.lat)),
            lon: keep(copied_reading(&self.lon)),
            elevation_m: keep(copied_reading(&self.elev)),
        }
    }

    fn time(&self) -> (r: Option<Time>)
        ensures
            r == self.valid_time(),
            r matches Some(t) ==> t.wf(),
    {
        match self.obs_time {
            Some(secs) => timestamp(secs, 0),
            None => match &self.report_time {
                Some(text) => parse_timestamp(text.as_str()),
                None => None,
            },
        }
    }

    /// The observation that the report makes, unless it says no time.
    pub fn into_observation(self) -> (r: Option<Observation>)
        ensures
            match r {
                Some(o) => self.reports(o) && o.sound(),
                None => self.valid_time() is None,
            },
    {
        let time = match self.time() {
            Some(time) => time,
            None => {
                return None;
            },
        };
        let mut o = Observation::new(to_upper(self.icao_id.as_str()), time);
        o.received =
        match &self.receipt_time {
            Some(text) => parse_timestamp(text.as_str()),
            None => None,
        };
        o.kind = kind(&self.metar_type);
        o.set_air_temp_c(keep(self.temp));
        o.set_dew_point_c(keep(self.dewp));
        o.relative_humidity_pct = humidity(None, &o.air_temp_c, &o.dew_point_c);
        match &self.wdir {
            Some(Cell::Number(bits)) => {
                o.wind_direction_deg = Some(Bearing { reading: Reading::Number(*bits) });
            },
            Some(Cell::Text(text)) => {
                o.wind_variable = same_ignoring_case(text.as_str(), "VRB");
            },
            _ => {},
        }
        o.wind_speed_ms = convert(self.wspd, Scale::KnotsToMs, 1);
        o.wind_gust_ms = convert(self.wgst, Scale::KnotsToMs, 1);
        o.visibility_km =
        match &self.visib {
            Some(cell) => convert(number_or_plus_string(cell), Scale::StatuteMilesToKm, 1),
            None => None,
        };
        o.altimeter_hpa = convert(self.altim, Scale::AsIs, 1);
        o.sea_level_pressure_hpa = convert(self.slp, Scale::AsIs, 1);
        o.weather = drop_blank(self.wx_string);
        o.clouds = sky(self.clouds);
        o.precip_1h_mm = convert(self.precip, Scale::InchesToMm, 2);
        o.precip_3h_mm = convert(self.pcp3hr, Scale::InchesToMm, 2);
        o.precip_6h_mm = convert(self.pcp6hr, Scale::InchesToMm, 2);
        o.precip_24h_mm = convert(self.pcp24hr, Scale::InchesToMm, 2);
        o.snow_depth_cm = convert(self.snow, Scale::InchesToCm, 1);
        o.raw = self.raw_ob;
        Some(o)
    }
}

fn copied_reading(reading: &Option<Reading>) -> (r: Option<Reading>)
    ensures
        r == *reading,
{
    match reading {
        Some(reading) => Some(reading.clone()),
        None => None,
    }
}

/// The reports of a station, in the order in which they came.
pub open spec fn of_station(records: Seq<Metar>, station: Seq<char>) -> Seq<Metar>
    decreases records.len(),
{
    if records.len() == 0 {
        Seq::empty()
    } else if lower(records.last().icao_id@) == lower(upper(station)) {
        of_station(records.drop_last(), station).push(records.last())
    } else {
        of_station(records.drop_last(), station)
    }
}

/// The reports that say when they were made.
pub open spec fn timed(records: Seq<Metar>) -> Seq<Metar>
    decreases records.len(),
{
    if records.len() == 0 {
        Seq::empty()
    } else if records.last().valid_time() is Some {
        timed(records.drop_last()).push(records.last())
    } else {
        timed(records.drop_last())
    }
}

/// The rows are what the reports make, one for one.
pub open spec fn rows_report(records: Seq<Metar>, rows: Seq<Observation>) -> bool {
    records.len() == rows.len() && forall|i: int|
        0 <= i < rows.len() ==> (#[trigger] records[i]).reports(#[trigger] rows[i])
}

/// The batch holds what the reports say of a station: what the first one says
/// of the station itself, and the rows of those with a time, in order of time.
pub open spec fn gathered(station: Seq<char>, records: Seq<Metar>, batch: Batch) -> bool {
    let own = of_station(records, station);
    &&& match batch.info {
        Some(info) => own.len() > 0 && own[0].describes(info),
        None => own.len() == 0,
    }
    &&& exists|rows: Seq<Observation>| #[trigger]
        rows_report(timed(own), rows) && batch.rows@ == in_order(rows)
}

/// Gathers what the reports say of a station.
pub fn gather(station: &str, records: Vec<Metar>) -> (r: Batch)
    ensures
        gathered(station@, records@, r),
        r.sound(),
{
    let wanted = to_upper(station);
    let ghost whole = records@;
    let mut info: Option<StationInfo> = None;
    let mut rows: Vec<Observation> = Vec::new();
    for record in it: records
        invariant
            it.seq() == whole,
            wanted@ == upper(station@),
            ({
                let own = of_station(whole.take(it.index() as int), station@);
                &&& match info {
                    Some(info) => own.len() > 0 && own[0].describes(info) && info.normalized(),
                    None => own.len() == 0,
                }
                &&& rows_report(timed(own), rows@)
            }),
            forall|i: int| 0 <= i < rows@.len() ==> (#[trigger] rows@[i]).sound(),
    {
        let ghost n = it.index() as int;
        let ghost own = of_station(whole.take(n), station@);
        assert(whole.take(n + 1).drop_last() == whole.take(n));
        assert(whole.take(n + 1).last() == record);
        if same_ignoring_case(record.icao_id.as_str(), wanted.as_str()) {
            assert(own.push(record).drop_last() == own);
            if info.is_none() {
                info = Some(record.station_info());
            }
            if let Some(o) = record.into_observation() {
                rows.push(o);
            }
        }
    }
    assert(whole.take(whole.len() as int) == whole);
    proof {
        crate::model::lemma_sorting_keeps_soundness(rows@);
        crate::order::law_sorting_ranks(rows@);
    }
    Batch { info, rows: sort(rows) }
}

/// The reports that are kept are those of the station.
proof fn lemma_reports_of_the_station(records: Seq<Metar>, station: Seq<char>)
    ensures
        forall|i: int|
            0 <= i < of_station(records, station).len() ==> lower(
                (#[trigger] of_station(records, station)[i]).icao_id@,
            ) == lower(upper(station)),
    decreases records.len(),
{
    if records.len() > 0 {
        lemma_reports_of_the_station(records.drop_last(), station);
    }
}

/// The reports that say when they were made are some of the reports.
proof fn lemma_timed_reports(records: Seq<Metar>)
    ensures
        forall|i: int|
            0 <= i < timed(records).len() ==> records.contains(#[trigger] timed(records)[i]),
    decreases records.len(),
{
    if records.len() > 0 {
        let head = records.drop_last();
        lemma_timed_reports(head);
        assert forall|i: int| 0 <= i < timed(records).len() implies records.contains(
            #[trigger] timed(records)[i],
        ) by {
            if i < timed(head).len() {
                assert(head.contains(timed(head)[i]));
                let k = choose|k: int| 0 <= k < head.len() && head[k] == timed(head)[i];
                assert(records[k] == timed(records)[i]);
            } else {
                assert(records[records.len() - 1] == timed(records)[i]);
            }
        }
    }
}

/// Every row of a response that is read is one of the station asked for.
pub proof fn law_the_rows_are_of_the_station_asked_for(
    station: Seq<char>,
    body: Seq<char>,
    batch: Batch,
)
    requires
        parses(station, body, Ok::<Batch, Fault>(batch)),
    ensures
        batch.is_of(station),
{
    let d = json(body)->Ok_0;
    let records = choose|records: Seq<Metar>| #[trigger]
        list_tells(records, d) && gathered(station, records, batch);
    let own = of_station(records, station);
    let rows = choose|rows: Seq<Observation>| #[trigger]
        rows_report(timed(own), rows) && batch.rows@ == in_order(rows);
    lemma_reports_of_the_station(records, station);
    lemma_timed_reports(own);
    law_case_is_all_that_changes(station);
    assert forall|i: int| 0 <= i < batch.rows@.len() implies lower(
        (#[trigger] batch.rows@[i]).station@,
    ) == lower(station) by {
        assert(in_order(rows).contains(batch.rows@[i]));
        crate::order::lemma_same_members(rows, batch.rows@[i]);
        let k = choose|k: int| 0 <= k < rows.len() && rows[k] == batch.rows@[i];
        assert(timed(own)[k].reports(rows[k]));
        assert(own.contains(timed(own)[k]));
        law_case_is_all_that_changes(timed(own)[k].icao_id@);
    }
}

/// What a document says of a station.
pub open spec fn answers(station: Seq<char>, d: Doc, r: Result<Batch, Fault>) -> bool {
    match (d, r) {
        (Doc::List(_), Ok(batch)) => list_wrong::<Metar>(d) is None && batch.sound() && exists|
            records: Seq<Metar>,
        | #[trigger]
            list_tells(records, d) && gathered(station, records, batch),
        (Doc::List(_), Err(fault)) => list_wrong::<Metar>(d) matches Some(why) && says(
            fault,
            "decoding AWC METAR records: "@ + why,
        ),
        (Doc::Object(members), Err(fault)) if members.contains_key("error"@) => says(
            fault,
            "AWC error: "@ + printed(members["error"@]),
        ),
        (_, Err(fault)) => says(fault, "unexpected AWC response: "@ + beginning(printed(d))),
        (_, Ok(_)) => false,
    }
}

/// What [`parse_body`] makes of a text.
pub open spec fn parses(station: Seq<char>, body: Seq<char>, r: Result<Batch, Fault>) -> bool {
    match json(body) {
        Ok(d) => answers(station, d, r),
        Err(why) => r matches Err(fault) && says(fault, "AWC response is not JSON: "@ + why),
    }
}

/// Reads a response body: the reports of `station` in a list of reports, or
/// the error that the service reports instead.
pub fn parse_body(station: &str, body: &str) -> (r: Result<Batch, Fault>)
    ensures
        parses(station@, body@, r),
{
    let value = match read(body) {
        Ok(value) => value,
        Err(why) => {
            return Err(fault("AWC response is not JSON: ", why.as_str()));
        },
    };
    if value.as_array().is_some() {
        return match check_list::<Metar>(&value) {
            None => Ok(gather(station, list_of(&value))),
            Some(why) => Err(fault("decoding AWC METAR records: ", why.as_str())),
        };
    }
    if let Some(error) = member(&value, "error") {
        return Err(fault("AWC error: ", print(error).as_str()));
    }
    let shown = print(&value);
    Err(fault("unexpected AWC response: ", snippet(shown.as_str()).as_str()))
}

/// The Aviation Weather Center.
#[derive(Debug)]
pub struct AwcSource {}

impl AwcSource {
    /// The service needs no setting up.
    pub fn new() -> (r: AwcSource)
        ensures
            r == (AwcSource {  }),
    {
        AwcSource {  }
    }

    /// The least number of hundredths of an hour that cover a trailing window,
    /// and at least a quarter of an hour.
    pub open spec fn hundredths(window: Span) -> nat {
        let least = (window.ns() + 35_999_999_999) / 36_000_000_000;
        if least < 25 {
            25
        } else {
            least
        }
    }

    /// The length of a trailing window in hours, with two decimals.
    pub open spec fn hours_text(window: Span) -> Seq<char> {
        decimal(Self::hundredths(window) / 100) + "."@ + two_digits(
            Self::hundredths(window) % 100,
        )
    }

    /// The length of a trailing window in hours, with two decimals: rounded up,
    /// so that what is asked for covers the window, and no less than 0.25.
    pub fn hours(window: Span) -> (r: String)
        requires
            window.wf(),
        ensures
            r@ == Self::hours_text(window),
    {
        let mut least: u64 = window.secs / 36;
        if window.secs % 36 > 0 || window.nanos > 0 {
            least += 1;
        }
        proof {
            let rest: int = (window.secs % 36) * 1_000_000_000 + window.nanos;
            assert(window.ns() == (window.secs / 36) * 36_000_000_000 + rest);
            assert(0 <= rest < 36_000_000_000);
            assert((window.ns() + 35_999_999_999) / 36_000_000_000 == least);
        }
        let n: u64 = if least < 25 {
            25
        } else {
            least
        };
        let mut r = decimal_of(n / 100);
        r.append(".");
        if n % 100 < 10 {
            r.append("0");
            proof {
                reveal_strlit("0");
            }
        }
        r.append(decimal_of(n % 100).as_str());
        assert(r@ =~= Self::hours_text(window));
        r
    }

    /// Where the reports of a station within the trailing `window` are found.
    pub open spec fn address(station: Seq<char>, window: Span) -> Seq<char> {
        "https://aviationweather.gov/api/data/metar?ids="@ + upper(station)
            + "&format=json&hours="@ + Self::hours_text(window)
    }

    /// Where the reports of a station within the trailing `window` are found.
    pub fn url(station: &str, window: Span) -> (r: String)
        requires
            window.wf(),
        ensures
            r@ == Self::address(station@, window),
    {
        let mut url = String::new();
        url.append("https://aviationweather.gov/api/data/metar?ids=");
        url.append(to_upper(station).as_str());
        url.append("&format=json&hours=");
        url.append(Self::hours(window).as_str());
        assert(url@ =~= Self::address(station@, window));
        url
    }
}

/// The hours asked for cover the window, and no fewer hundredths would, but
/// for the least that is ever asked for.
pub proof fn law_the_hours_cover_the_window(window: Span)
    ensures
        AwcSource::hundredths(window) * 36_000_000_000 >= window.ns(),
        AwcSource::hundredths(window) >= 25,
        AwcSource::hundredths(window) > 25 ==> (AwcSource::hundredths(window) - 1) * 36_000_000_000
            < window.ns(),
{
}

} // verus!
