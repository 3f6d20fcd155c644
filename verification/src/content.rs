//! The content of a row, and the text by which it is told from another.
//!
//! A row without a raw report is known by the whole of it as JSON. Its numbers
//! come written out already; everything else is put together here, and it is
//! shown that no two contents have the same text.

use chrono::{SecondsFormat, TimeZone, Utc};
use vstd::prelude::*;

use crate::model::{CloudLayer, ObsKind, Observation};
use crate::text::{join, joined, views};
use crate::time::Time;

verus! {

/// The numbers of a row as JSON writes them. The number of a value that the row
/// lacks counts for nothing.
#[derive(Debug)]
pub struct Numbers {
    pub air_temp_c: String,
    pub air_temp_f: String,
    pub dew_point_c: String,
    pub dew_point_f: String,
    pub relative_humidity_pct: String,
    pub wind_direction_deg: String,
    pub wind_speed_ms: String,
    pub wind_gust_ms: String,
    pub visibility_km: String,
    pub altimeter_hpa: String,
    pub sea_level_pressure_hpa: String,
    /// The bases of the layers of clouds, layer by layer.
    pub bases: Vec<String>,
    pub precip_1h_mm: String,
    pub precip_3h_mm: String,
    pub precip_6h_mm: String,
    pub precip_24h_mm: String,
    pub snow_depth_cm: String,
}

impl Default for Numbers {
    fn default() -> (r: Numbers)
        ensures
            r.bases@.len() == 0,
    {
        Numbers {
            air_temp_c: String::new(),
            air_temp_f: String::new(),
            dew_point_c: String::new(),
            dew_point_f: String::new(),
            relative_humidity_pct: String::new(),
            wind_direction_deg: String::new(),
            wind_speed_ms: String::new(),
            wind_gust_ms: String::new(),
            visibility_km: String::new(),
            altimeter_hpa: String::new(),
            sea_level_pressure_hpa: String::new(),
            bases: Vec::new(),
            precip_1h_mm: String::new(),
            precip_3h_mm: String::new(),
            precip_6h_mm: String::new(),
            precip_24h_mm: String::new(),
            snow_depth_cm: String::new(),
        }
    }
}

/// All that a row says, its numbers written out.
pub struct Content {
    pub station: Seq<char>,
    pub time: Time,
    pub received: Option<Time>,
    pub kind: ObsKind,
    pub air_temp_c: Option<Seq<char>>,
    pub air_temp_f: Option<Seq<char>>,
    pub dew_point_c: Option<Seq<char>>,
    pub dew_point_f: Option<Seq<char>>,
    pub relative_humidity_pct: Option<Seq<char>>,
    pub wind_direction_deg: Option<Seq<char>>,
    pub wind_variable: bool,
    pub wind_speed_ms: Option<Seq<char>>,
    pub wind_gust_ms: Option<Seq<char>>,
    pub visibility_km: Option<Seq<char>>,
    pub altimeter_hpa: Option<Seq<char>>,
    pub sea_level_pressure_hpa: Option<Seq<char>>,
    pub weather: Option<Seq<char>>,
    pub clouds: Seq<Layer>,
    pub precip_1h_mm: Option<Seq<char>>,
    pub precip_3h_mm: Option<Seq<char>>,
    pub precip_6h_mm: Option<Seq<char>>,
    pub precip_24h_mm: Option<Seq<char>>,
    pub snow_depth_cm: Option<Seq<char>>,
    pub raw: Option<Seq<char>>,
}

/// One layer of clouds, its base written out.
pub struct Layer {
    pub cover: Seq<char>,
    pub base: Option<Seq<char>>,
}

/// The number of a value that is there.
pub open spec fn number(there: bool, text: Seq<char>) -> Option<Seq<char>> {
    if there {
        Some(text)
    } else {
        None
    }
}

/// The layer of clouds at a position.
pub open spec fn layer_at(clouds: Seq<CloudLayer>, bases: Seq<String>, i: int) -> Layer {
    Layer {
        cover: clouds[i].cover@,
        base: number(
            clouds[i].base_m is Some,
            if i < bases.len() {
                bases[i]@
            } else {
                Seq::empty()
            },
        ),
    }
}

/// What a row says.
pub open spec fn content(o: Observation, n: Numbers) -> Content {
    Content {
        station: o.station@,
        time: o.time,
        received: o.received,
        kind: o.kind,
        air_temp_c: number(o.air_temp_c is Some, n.air_temp_c@),
        air_temp_f: number(o.air_temp_f is Some, n.air_temp_f@),
        dew_point_c: number(o.dew_point_c is Some, n.dew_point_c@),
        dew_point_f: number(o.dew_point_f is Some, n.dew_point_f@),
        relative_humidity_pct: number(
            o.relative_humidity_pct is Some,
            n.relative_humidity_pct@,
        ),
        wind_direction_deg: number(o.wind_direction_deg is Some, n.wind_direction_deg@),
        wind_variable: o.wind_variable,
        wind_speed_ms: number(o.wind_speed_ms is Some, n.wind_speed_ms@),
        wind_gust_ms: number(o.wind_gust_ms is Some, n.wind_gust_ms@),
        visibility_km: number(o.visibility_km is Some, n.visibility_km@),
        altimeter_hpa: number(o.altimeter_hpa is Some, n.altimeter_hpa@),
        sea_level_pressure_hpa: number(
            o.sea_level_pressure_hpa is Some,
            n.sea_level_pressure_hpa@,
        ),
        weather: crate::json::told(o.weather),
        clouds: Seq::new(o.clouds@.len(), |i: int| layer_at(o.clouds@, n.bases@, i)),
        precip_1h_mm: number(o.precip_1h_mm is Some, n.precip_1h_mm@),
        precip_3h_mm: number(o.precip_3h_mm is Some, n.precip_3h_mm@),
        precip_6h_mm: number(o.precip_6h_mm is Some, n.precip_6h_mm@),
        precip_24h_mm: number(o.precip_24h_mm is Some, n.precip_24h_mm@),
        snow_depth_cm: number(o.snow_depth_cm is Some, n.snow_depth_cm@),
        raw: crate::json::told(o.raw),
    }
}

/// A hexadecimal digit.
pub open spec fn hex(n: int) -> char {
    seq!['0', '1', '2', '3', '4', '5', '6', '7', '8', '9', 'a', 'b', 'c', 'd', 'e', 'f'][n]
}

/// A character within a JSON string.
pub open spec fn escape(c: char) -> Seq<char> {
    if c == '"' {
        seq!['\\', '"']
    } else if c == '\\' {
        seq!['\\', '\\']
    } else if c == '\u{8}' {
        seq!['\\', 'b']
    } else if c == '\t' {
        seq!['\\', 't']
    } else if c == '\n' {
        seq!['\\', 'n']
    } else if c == '\u{c}' {
        seq!['\\', 'f']
    } else if c == '\r' {
        seq!['\\', 'r']
    } else if c <= '\u{1f}' {
        seq!['\\', 'u', '0', '0', hex(c as int / 16), hex(c as int % 16)]
    } else {
        seq![c]
    }
}

/// The characters of a text within a JSON string.
pub open spec fn escaped(s: Seq<char>) -> Seq<char>
    decreases s.len(),
{
    if s.len() == 0 {
        Seq::empty()
    } else {
        escape(s[0]) + escaped(s.drop_first())
    }
}

/// A text as a JSON string.
pub open spec fn quoted(s: Seq<char>) -> Seq<char> {
    seq!['"'] + escaped(s) + seq!['"']
}

/// `serde_json::to_string` of a text: it stands between quotes, with quotes,
/// backslashes and control characters escaped and all others as they are.
#[verifier::external_body]
fn quote(text: &str) -> (r: String)
    ensures
        r@ == quoted(text@),
{
    serde_json::to_string(text).unwrap()
}

/// What `DateTime::to_rfc3339_opts` writes of the instant with these seconds
/// and nanoseconds, in UTC: with a `Z`, and as many decimals of the second as
/// are needed, by threes.
pub uninterp spec fn stamp(secs: i64, nanos: u32) -> Seq<char>;

/// `DateTime::to_rfc3339_opts` with `SecondsFormat::AutoSi` and a `Z`. It
/// writes every instant differently: all digits of the year are there, with a
/// sign where there are not four of them, all decimals of the second that are
/// not zero, and a leap second as the sixtieth.
#[verifier::external_body]
fn write_rfc3339(t: Time) -> (r: String)
    requires
        t.wf(),
    ensures
        r@ == stamp(t.secs, t.nanos),
        forall|u: Time| u.wf() && #[trigger] stamp(u.secs, u.nanos) == r@ ==> u == t,
{
    let t = Utc.timestamp_opt(t.secs, t.nanos).unwrap();
    t.to_rfc3339_opts(SecondsFormat::AutoSi, true)
}

/// No other instant is written as `t` is.
pub open spec fn has_own_stamp(t: Time) -> bool {
    forall|u: Time|
        u.wf() && #[trigger] stamp(u.secs, u.nanos) == stamp(t.secs, t.nanos) ==> u == t
}

/// The times of the row are written as no other is.
pub open spec fn has_own_stamps(o: Observation) -> bool {
    has_own_stamp(o.time) && (o.received matches Some(t) ==> has_own_stamp(t))
}

/// A member of a JSON object.
pub open spec fn member(name: Seq<char>, value: Seq<char>) -> Seq<char> {
    "\""@ + name + "\":"@ + value
}

/// A number, or null.
pub open spec fn or_null(number: Option<Seq<char>>) -> Seq<char> {
    match number {
        Some(text) => text,
        None => "null"@,
    }
}

/// A text as a JSON string, or null.
pub open spec fn quoted_or_null(text: Option<Seq<char>>) -> Seq<char> {
    match text {
        Some(text) => quoted(text),
        None => "null"@,
    }
}

/// The name of a kind of report.
pub open spec fn kind_name(kind: ObsKind) -> Seq<char> {
    match kind {
        ObsKind::Routine => "routine"@,
        ObsKind::Special => "special"@,
        ObsKind::Unknown => "unknown"@,
    }
}

/// Time, receipt time where there is one, and kind.
pub open spec fn dated(time: Time, received: Option<Time>, kind: ObsKind) -> Seq<char> {
    let then = member("time"@, quoted(stamp(time.secs, time.nanos)));
    let last = ","@ + member("kind"@, quoted(kind_name(kind)));
    match received {
        Some(t) => then + ","@ + member("received"@, quoted(stamp(t.secs, t.nanos))) + last,
        None => then + last,
    }
}

/// A layer of clouds.
pub open spec fn layer_text(layer: Layer) -> Seq<char> {
    let cover = "{"@ + member("cover"@, quoted(layer.cover));
    match layer.base {
        Some(base) => cover + ","@ + member("base_m"@, base) + "}"@,
        None => cover + "}"@,
    }
}

/// The layers of clouds.
pub open spec fn layer_texts(clouds: Seq<Layer>) -> Seq<Seq<char>> {
    clouds.map_values(|layer: Layer| layer_text(layer))
}

/// The layers of clouds as a JSON array.
pub open spec fn clouds_text(clouds: Seq<Layer>) -> Seq<char> {
    "["@ + joined(layer_texts(clouds), ","@) + "]"@
}

/// Yes or no.
pub open spec fn truth(b: bool) -> Seq<char> {
    if b {
        "true"@
    } else {
        "false"@
    }
}

/// Station, times and kind.
pub open spec fn opening(c: Content) -> Seq<Seq<char>> {
    seq![
        member("station"@, quoted(c.station)),
        dated(c.time, c.received, c.kind),
    ]
}

/// Temperatures and humidity.
pub open spec fn warmth(c: Content) -> Seq<Seq<char>> {
    seq![
        member("air_temp_c"@, or_null(c.air_temp_c)),
        member("air_temp_f"@, or_null(c.air_temp_f)),
        member("dew_point_c"@, or_null(c.dew_point_c)),
        member("dew_point_f"@, or_null(c.dew_point_f)),
        member("relative_humidity_pct"@, or_null(c.relative_humidity_pct)),
    ]
}

/// The wind.
pub open spec fn wind(c: Content) -> Seq<Seq<char>> {
    seq![
        member("wind_direction_deg"@, or_null(c.wind_direction_deg)),
        member("wind_variable"@, truth(c.wind_variable)),
        member("wind_speed_ms"@, or_null(c.wind_speed_ms)),
        member("wind_gust_ms"@, or_null(c.wind_gust_ms)),
    ]
}

/// Visibility, pressure, weather and clouds.
pub open spec fn air(c: Content) -> Seq<Seq<char>> {
    seq![
        member("visibility_km"@, or_null(c.visibility_km)),
        member("altimeter_hpa"@, or_null(c.altimeter_hpa)),
        member("sea_level_pressure_hpa"@, or_null(c.sea_level_pressure_hpa)),
        member("weather"@, quoted_or_null(c.weather)),
        member("clouds"@, clouds_text(c.clouds)),
    ]
}

/// Precipitation, snow and the raw report.
pub open spec fn water(c: Content) -> Seq<Seq<char>> {
    seq![
        member("precip_1h_mm"@, or_null(c.precip_1h_mm)),
        member("precip_3h_mm"@, or_null(c.precip_3h_mm)),
        member("precip_6h_mm"@, or_null(c.precip_6h_mm)),
        member("precip_24h_mm"@, or_null(c.precip_24h_mm)),
        member("snow_depth_cm"@, or_null(c.snow_depth_cm)),
        member("raw"@, quoted_or_null(c.raw)),
    ]
}

/// The members of a row.
pub open spec fn members(c: Content) -> Seq<Seq<char>> {
    opening(c) + warmth(c) + wind(c) + air(c) + water(c)
}

/// A row as JSON.
pub open spec fn row_json(c: Content) -> Seq<char> {
    "{"@ + joined(members(c), ","@) + "}"@
}

fn named(name: &str, value: &str) -> (r: String)
    ensures
        r@ == member(name@, value@),
{
    let mut r = "\"".to_owned();
    r.append(name);
    r.append("\":");
    r.append(value);
    assert(r@ =~= member(name@, value@));
    r
}

fn named_number(name: &str, there: bool, text: &str) -> (r: String)
    ensures
        r@ == member(name@, or_null(number(there, text@))),
{
    if there {
        named(name, text)
    } else {
        named(name, "null")
    }
}

fn named_text(name: &str, text: &Option<String>) -> (r: String)
    ensures
        r@ == member(name@, quoted_or_null(crate::json::told(*text))),
{
    match text {
        Some(text) => named(name, quote(text.as_str()).as_str()),
        None => named(name, "null"),
    }
}

fn dates(o: &Observation) -> (r: String)
    requires
        o.wf(),
    ensures
        r@ == dated(o.time, o.received, o.kind),
        has_own_stamps(*o),
{
    let mut r = named("time", quote(write_rfc3339(o.time).as_str()).as_str());
    if let Some(t) = o.received {
        r.append(",");
        r.append(named("received", quote(write_rfc3339(t).as_str()).as_str()).as_str());
    }
    let kind = match o.kind {
        ObsKind::Routine => "routine",
        ObsKind::Special => "special",
        ObsKind::Unknown => "unknown",
    };
    assert(kind@ == kind_name(o.kind));
    r.append(",");
    r.append(named("kind", quote(kind).as_str()).as_str());
    assert(r@ =~= dated(o.time, o.received, o.kind));
    r
}

fn sky(clouds: &Vec<CloudLayer>, bases: &Vec<String>) -> (r: String)
    ensures
        r@ == clouds_text(Seq::new(clouds@.len(), |i: int| layer_at(clouds@, bases@, i))),
{
    let ghost all = Seq::new(clouds@.len(), |i: int| layer_at(clouds@, bases@, i));
    let mut parts: Vec<String> = Vec::new();
    let mut i: usize = 0;
    while i < clouds.len()
        invariant
            i <= clouds@.len(),
            all == Seq::new(clouds@.len(), |i: int| layer_at(clouds@, bases@, i)),
            views(parts@) == layer_texts(all).take(i as int),
        decreases clouds@.len() - i,
    {
        let ghost before = views(parts@);
        let mut part = "{".to_owned();
        part.append(named("cover", quote(clouds[i].cover.as_str()).as_str()).as_str());
        if clouds[i].base_m.is_some() {
            part.append(",");
            if i < bases.len() {
                part.append(named("base_m", bases[i].as_str()).as_str());
            } else {
                let none = String::new();
                assert(none@ =~= Seq::empty());
                part.append(named("base_m", none.as_str()).as_str());
            }
        }
        part.append("}");
        assert(part@ =~= layer_text(all[i as int]));
        parts.push(part);
        assert(views(parts@) =~= before.push(part@));
        assert(before.push(part@) =~= layer_texts(all).take(i + 1));
        i += 1;
    }
    assert(layer_texts(all).take(i as int) =~= layer_texts(all));
    let mut r = "[".to_owned();
    r.append(join(&parts, ",").as_str());
    r.append("]");
    assert(r@ =~= clouds_text(all));
    r
}

fn put(parts: &mut Vec<String>, part: String)
    ensures
        views(final(parts)@) == views(old(parts)@).push(part@),
{
    let ghost before = views(parts@);
    parts.push(part);
    assert(views(parts@) =~= before.push(part@));
}

fn put_opening(parts: &mut Vec<String>, o: &Observation, n: &Numbers)
    requires
        o.wf(),
    ensures
        views(final(parts)@) == views(old(parts)@) + opening(content(*o, *n)),
        has_own_stamps(*o),
{
    let ghost start = views(parts@);
    put(parts, named("station", quote(o.station.as_str()).as_str()));
    put(parts, dates(o));
    assert(views(parts@) =~= start + opening(content(*o, *n)));
}

fn put_warmth(parts: &mut Vec<String>, o: &Observation, n: &Numbers)
    ensures
        views(final(parts)@) == views(old(parts)@) + warmth(content(*o, *n)),
{
    let ghost start = views(parts@);
    put(parts, named_number("air_temp_c", o.air_temp_c.is_some(), n.air_temp_c.as_str()));
    put(parts, named_number("air_temp_f", o.air_temp_f.is_some(), n.air_temp_f.as_str()));
    put(parts, named_number("dew_point_c", o.dew_point_c.is_some(), n.dew_point_c.as_str()));
    put(parts, named_number("dew_point_f", o.dew_point_f.is_some(), n.dew_point_f.as_str()));
    put(
        parts,
        named_number("relative_humidity_pct", o.relative_humidity_pct.is_some(), n.relative_humidity_pct.as_str()),
    );
    assert(views(parts@) =~= start + warmth(content(*o, *n)));
}

fn put_wind(parts: &mut Vec<String>, o: &Observation, n: &Numbers)
    ensures
        views(final(parts)@) == views(old(parts)@) + wind(content(*o, *n)),
{
    let ghost start = views(parts@);
    let variable = if o.wind_variable {
        named("wind_variable", "true")
    } else {
        named("wind_variable", "false")
    };
    put(
        parts,
        named_number("wind_direction_deg", o.wind_direction_deg.is_some(), n.wind_direction_deg.as_str()),
    );
    put(parts, variable);
    put(parts, named_number("wind_speed_ms", o.wind_speed_ms.is_some(), n.wind_speed_ms.as_str()));
    put(parts, named_number("wind_gust_ms", o.wind_gust_ms.is_some(), n.wind_gust_ms.as_str()));
    assert(views(parts@) =~= start + wind(content(*o, *n)));
}

fn put_air(parts: &mut Vec<String>, o: &Observation, n: &Numbers)
    ensures
        views(final(parts)@) == views(old(parts)@) + air(content(*o, *n)),
{
    let ghost start = views(parts@);
    put(parts, named_number("visibility_km", o.visibility_km.is_some(), n.visibility_km.as_str()));
    put(parts, named_number("altimeter_hpa", o.altimeter_hpa.is_some(), n.altimeter_hpa.as_str()));
    put(
        parts,
        named_number("sea_level_pressure_hpa", o.sea_level_pressure_hpa.is_some(), n.sea_level_pressure_hpa.as_str()),
    );
    put(parts, named_text("weather", &o.weather));
    put(parts, named("clouds", sky(&o.clouds, &n.bases).as_str()));
    assert(views(parts@) =~= start + air(content(*o, *n)));
}

fn put_water(parts: &mut Vec<String>, o: &Observation, n: &Numbers)
    ensures
        views(final(parts)@) == views(old(parts)@) + water(content(*o, *n)),
{
    let ghost start = views(parts@);
    put(parts, named_number("precip_1h_mm", o.precip_1h_mm.is_some(), n.precip_1h_mm.as_str()));
    put(parts, named_number("precip_3h_mm", o.precip_3h_mm.is_some(), n.precip_3h_mm.as_str()));
    put(parts, named_number("precip_6h_mm", o.precip_6h_mm.is_some(), n.precip_6h_mm.as_str()));
    put(parts, named_number("precip_24h_mm", o.precip_24h_mm.is_some(), n.precip_24h_mm.as_str()));
    put(parts, named_number("snow_depth_cm", o.snow_depth_cm.is_some(), n.snow_depth_cm.as_str()));
    put(parts, named_text("raw", &o.raw));
    assert(views(parts@) =~= start + water(content(*o, *n)));
}

/// Writes a row as JSON.
fn write_row(o: &Observation, n: &Numbers) -> (r: String)
    requires
        o.wf(),
    ensures
        r@ == row_json(content(*o, *n)),
        has_own_stamps(*o),
{
    let mut parts: Vec<String> = Vec::new();
    put_opening(&mut parts, o, n);
    put_warmth(&mut parts, o, n);
    put_wind(&mut parts, o, n);
    put_air(&mut parts, o, n);
    put_water(&mut parts, o, n);
    assert(views(parts@) =~= members(content(*o, *n)));
    let mut r = "{".to_owned();
    r.append(join(&parts, ",").as_str());
    r.append("}");
    assert(r@ =~= row_json(content(*o, *n)));
    r
}

/// What may follow a value within an object or an array.
pub open spec fn ends(x: Seq<char>) -> bool {
    x.len() > 0 && (x[0] == ',' || x[0] == '}' || x[0] == ']')
}

/// Where both texts stand before what may follow a value, nothing of one is
/// taken for the other.
pub open spec fn apart(u: Seq<char>, v: Seq<char>) -> bool {
    forall|x: Seq<char>, y: Seq<char>|
        ends(x) && ends(y) && #[trigger] (u + x) == #[trigger] (v + y) ==> u == v
}

/// A text that can be a number: it is not empty, not null, and holds nothing
/// that ends a value.
pub open spec fn plain(t: Seq<char>) -> bool {
    &&& t.len() > 0
    &&& t != "null"@
    &&& forall|i: int| 0 <= i < t.len() ==> #[trigger] t[i] != ',' && t[i] != '}' && t[i] != ']'
}

/// A number that is missing or plain.
pub open spec fn may_be_plain(t: Option<Seq<char>>) -> bool {
    t matches Some(t) ==> plain(t)
}

impl Content {
    /// Every number is written plainly, as JSON writes every finite one, and
    /// the times lie in the calendar.
    pub open spec fn wf(self) -> bool {
        &&& self.time.wf()
        &&& self.received matches Some(t) ==> t.wf()
        &&& may_be_plain(self.air_temp_c)
        &&& may_be_plain(self.air_temp_f)
        &&& may_be_plain(self.dew_point_c)
        &&& may_be_plain(self.dew_point_f)
        &&& may_be_plain(self.relative_humidity_pct)
        &&& may_be_plain(self.wind_direction_deg)
        &&& may_be_plain(self.wind_speed_ms)
        &&& may_be_plain(self.wind_gust_ms)
        &&& may_be_plain(self.visibility_km)
        &&& may_be_plain(self.altimeter_hpa)
        &&& may_be_plain(self.sea_level_pressure_hpa)
        &&& may_be_plain(self.precip_1h_mm)
        &&& may_be_plain(self.precip_3h_mm)
        &&& may_be_plain(self.precip_6h_mm)
        &&& may_be_plain(self.precip_24h_mm)
        &&& may_be_plain(self.snow_depth_cm)
        &&& forall|i: int|
            0 <= i < self.clouds.len() ==> may_be_plain((#[trigger] self.clouds[i]).base)
    }
}

/// No two characters are written alike within a JSON string.
proof fn lemma_escape(c: char, d: char, x: Seq<char>, y: Seq<char>)
    requires
        escape(c) + x == escape(d) + y,
    ensures
        c == d,
        x == y,
{
    let l = escape(c) + x;
    let r = escape(d) + y;
    assert(l[0] == escape(c)[0] && r[0] == escape(d)[0]);
    if escape(c).len() > 1 && escape(d).len() > 1 {
        assert(l[1] == escape(c)[1] && r[1] == escape(d)[1]);
        if escape(c).len() == 6 && escape(d).len() == 6 {
            assert(l[4] == escape(c)[4] && r[4] == escape(d)[4]);
            assert(l[5] == escape(c)[5] && r[5] == escape(d)[5]);
            assert(c as int / 16 == d as int / 16);
            assert(c as int % 16 == d as int % 16);
        }
    }
    assert(c == d);
    let n = escape(c).len() as int;
    assert(l.skip(n) =~= x);
    assert(r.skip(n) =~= y);
}

/// The characters of a text end where its closing quote stands.
proof fn lemma_escaped(s: Seq<char>, t: Seq<char>, x: Seq<char>, y: Seq<char>)
    requires
        escaped(s) + seq!['"'] + x == escaped(t) + seq!['"'] + y,
    ensures
        s == t,
        x == y,
    decreases s.len(),
{
    let l = escaped(s) + seq!['"'] + x;
    let r = escaped(t) + seq!['"'] + y;
    if s.len() == 0 && t.len() == 0 {
        assert(l.skip(1) =~= x);
        assert(r.skip(1) =~= y);
        assert(s =~= t);
    } else if s.len() == 0 {
        assert(l[0] == '"');
        assert(r[0] == escape(t[0])[0]);
    } else if t.len() == 0 {
        assert(r[0] == '"');
        assert(l[0] == escape(s[0])[0]);
    } else {
        let u = escaped(s.drop_first()) + seq!['"'] + x;
        let v = escaped(t.drop_first()) + seq!['"'] + y;
        assert(l =~= escape(s[0]) + u);
        assert(r =~= escape(t[0]) + v);
        lemma_escape(s[0], t[0], u, v);
        lemma_escaped(s.drop_first(), t.drop_first(), x, y);
        assert(s =~= seq![s[0]] + s.drop_first());
        assert(t =~= seq![t[0]] + t.drop_first());
    }
}

/// A JSON string ends where its closing quote stands.
proof fn lemma_quoted(s: Seq<char>, t: Seq<char>, x: Seq<char>, y: Seq<char>)
    requires
        quoted(s) + x == quoted(t) + y,
    ensures
        s == t,
        x == y,
{
    let u = escaped(s) + seq!['"'] + x;
    let v = escaped(t) + seq!['"'] + y;
    assert((quoted(s) + x).skip(1) =~= u);
    assert((quoted(t) + y).skip(1) =~= v);
    lemma_escaped(s, t, x, y);
}

/// The same text in front can be taken off.
proof fn lemma_take_off(p: Seq<char>, x: Seq<char>, y: Seq<char>)
    requires
        p + x == p + y,
    ensures
        x == y,
{
    assert((p + x).skip(p.len() as int) =~= x);
    assert((p + y).skip(p.len() as int) =~= y);
}

/// A text without anything that ends a value.
spec fn endless(t: Seq<char>) -> bool {
    forall|i: int| 0 <= i < t.len() ==> #[trigger] t[i] != ',' && t[i] != '}' && t[i] != ']'
}

proof fn lemma_endless(u: Seq<char>, v: Seq<char>, x: Seq<char>, y: Seq<char>)
    requires
        endless(u),
        endless(v),
        ends(x),
        ends(y),
        u + x == v + y,
    ensures
        u == v,
        x == y,
{
    let l = u + x;
    let r = v + y;
    if u.len() < v.len() {
        assert(l[u.len() as int] == x[0]);
        assert(r[u.len() as int] == v[u.len() as int]);
    } else if v.len() < u.len() {
        assert(r[v.len() as int] == y[0]);
        assert(l[v.len() as int] == u[v.len() as int]);
    }
    assert(l.take(u.len() as int) =~= u);
    assert(r.take(v.len() as int) =~= v);
    lemma_take_off(u, x, y);
}

proof fn lemma_null_is_endless()
    ensures
        endless("null"@),
        endless("true"@),
        endless("false"@),
        "true"@ != "false"@,
        "null"@.len() == 4,
        "null"@[0] == 'n',
{
    reveal_strlit("null");
    reveal_strlit("true");
    reveal_strlit("false");
    assert("true"@.len() != "false"@.len());
}

/// Numbers stand apart, and none is written as null.
proof fn lemma_numbers(a: Option<Seq<char>>, b: Option<Seq<char>>)
    requires
        may_be_plain(a),
        may_be_plain(b),
    ensures
        apart(or_null(a), or_null(b)),
        or_null(a) == or_null(b) ==> a == b,
{
    lemma_null_is_endless();
    let u = or_null(a);
    let v = or_null(b);
    assert forall|x: Seq<char>, y: Seq<char>|
        ends(x) && ends(y) && #[trigger] (u + x) == #[trigger] (v + y) implies u == v by {
        lemma_endless(u, v, x, y);
    }
}

/// Texts stand apart, and none is written as null.
proof fn lemma_texts(a: Option<Seq<char>>, b: Option<Seq<char>>)
    ensures
        apart(quoted_or_null(a), quoted_or_null(b)),
        quoted_or_null(a) == quoted_or_null(b) ==> a == b,
{
    lemma_null_is_endless();
    let u = quoted_or_null(a);
    let v = quoted_or_null(b);
    assert forall|x: Seq<char>, y: Seq<char>|
        ends(x) && ends(y) && #[trigger] (u + x) == #[trigger] (v + y) implies u == v by {
        assert((u + x)[0] == u[0] && (v + y)[0] == v[0]);
        if a is Some && b is Some {
            lemma_quoted(a->0, b->0, x, y);
        }
    }
    if u == v {
        assert(u[0] == v[0]);
        if a is Some && b is Some {
            assert(u + Seq::empty() =~= v + Seq::empty());
            lemma_quoted(a->0, b->0, Seq::empty(), Seq::empty());
        }
    }
}

/// Members of one name stand apart where their values do.
proof fn lemma_member(name: Seq<char>, u: Seq<char>, v: Seq<char>)
    ensures
        apart(u, v) ==> apart(member(name, u), member(name, v)),
        member(name, u) == member(name, v) ==> u == v,
{
    let p = "\""@ + name + "\":"@;
    assert(member(name, u) =~= p + u);
    assert(member(name, v) =~= p + v);
    if apart(u, v) {
        assert forall|x: Seq<char>, y: Seq<char>|
            ends(x) && ends(y) && #[trigger] (member(name, u) + x) == #[trigger] (member(name, v)
                + y) implies member(name, u) == member(name, v) by {
            assert(member(name, u) + x =~= p + (u + x));
            assert(member(name, v) + y =~= p + (v + y));
            lemma_take_off(p, u + x, v + y);
        }
    }
    if member(name, u) == member(name, v) {
        lemma_take_off(p, u, v);
    }
}

/// Texts that stand apart one by one.
spec fn all_apart(a: Seq<Seq<char>>, b: Seq<Seq<char>>) -> bool {
    a.len() == b.len() && forall|i: int| 0 <= i < a.len() ==> #[trigger] apart(a[i], b[i])
}

/// Of texts that stand apart one by one, the same is made only of the same.
proof fn lemma_joined(a: Seq<Seq<char>>, b: Seq<Seq<char>>, x: Seq<char>, y: Seq<char>)
    requires
        all_apart(a, b),
        a.len() > 0,
        ends(x),
        ends(y),
        joined(a, ","@) + x == joined(b, ","@) + y,
    ensures
        a == b,
        x == y,
    decreases a.len(),
{
    let n = a.len() - 1;
    assert(apart(a[n], b[n]));
    if n == 0 {
        assert(a[0] + x == b[0] + y);
        assert(a =~= b);
        lemma_take_off(a[0], x, y);
    } else {
        reveal_strlit(",");
        let u = ","@ + (a.last() + x);
        let v = ","@ + (b.last() + y);
        assert(joined(a, ","@) + x =~= joined(a.drop_last(), ","@) + u);
        assert(joined(b, ","@) + y =~= joined(b.drop_last(), ","@) + v);
        assert(all_apart(a.drop_last(), b.drop_last())) by {
            assert forall|i: int| 0 <= i < n implies #[trigger] apart(
                a.drop_last()[i],
                b.drop_last()[i],
            ) by {
                assert(apart(a[i], b[i]));
            }
        }
        lemma_joined(a.drop_last(), b.drop_last(), u, v);
        lemma_take_off(","@, a.last() + x, b.last() + y);
        assert(a.last() == b.last());
        lemma_take_off(a.last(), x, y);
        assert(a =~= a.drop_last().push(a.last()));
        assert(b =~= b.drop_last().push(b.last()));
    }
}

/// Layers of clouds stand apart.
proof fn lemma_layer(a: Layer, b: Layer, x: Seq<char>, y: Seq<char>)
    requires
        may_be_plain(a.base),
        may_be_plain(b.base),
        layer_text(a) + x == layer_text(b) + y,
    ensures
        a == b,
        x == y,
{
    reveal_strlit("}");
    reveal_strlit(",");
    let p = "{"@ + ("\""@ + "cover"@ + "\":"@);
    let after = |l: Layer, x: Seq<char>|
        match l.base {
            Some(base) => ","@ + member("base_m"@, base) + "}"@ + x,
            None => "}"@ + x,
        };
    assert(layer_text(a) + x =~= p + (quoted(a.cover) + after(a, x)));
    assert(layer_text(b) + y =~= p + (quoted(b.cover) + after(b, y)));
    lemma_take_off(p, quoted(a.cover) + after(a, x), quoted(b.cover) + after(b, y));
    lemma_quoted(a.cover, b.cover, after(a, x), after(b, y));
    assert(after(a, x)[0] == if a.base is Some {
        ','
    } else {
        '}'
    });
    assert(after(b, y)[0] == if b.base is Some {
        ','
    } else {
        '}'
    });
    if a.base is Some {
        let q = ","@ + ("\""@ + "base_m"@ + "\":"@);
        let u = a.base->0;
        let v = b.base->0;
        assert(after(a, x) =~= q + (u + ("}"@ + x)));
        assert(after(b, y) =~= q + (v + ("}"@ + y)));
        lemma_take_off(q, u + ("}"@ + x), v + ("}"@ + y));
        lemma_endless(u, v, "}"@ + x, "}"@ + y);
    }
    lemma_take_off("}"@, x, y);
}

/// A list begins with its first part.
proof fn lemma_joined_front(parts: Seq<Seq<char>>, sep: Seq<char>)
    requires
        parts.len() > 1,
    ensures
        joined(parts, sep) == parts[0] + sep + joined(parts.drop_first(), sep),
    decreases parts.len(),
{
    if parts.len() == 2 {
        assert(parts.drop_last() =~= seq![parts[0]]);
        assert(parts.drop_first() =~= seq![parts[1]]);
        assert(joined(parts.drop_last(), sep) == parts[0]);
        assert(joined(parts.drop_first(), sep) == parts[1]);
    } else {
        let head = parts.drop_last();
        lemma_joined_front(head, sep);
        assert(head.drop_first() =~= parts.drop_first().drop_last());
        assert(parts.drop_first().last() == parts.last());
        assert(joined(parts, sep) =~= parts[0] + sep + joined(parts.drop_first(), sep));
    }
}

proof fn lemma_layers(a: Seq<Layer>, b: Seq<Layer>, x: Seq<char>, y: Seq<char>)
    requires
        forall|i: int| 0 <= i < a.len() ==> may_be_plain((#[trigger] a[i]).base),
        forall|i: int| 0 <= i < b.len() ==> may_be_plain((#[trigger] b[i]).base),
        joined(layer_texts(a), ","@) + "]"@ + x == joined(layer_texts(b), ","@) + "]"@ + y,
    ensures
        a == b,
        x == y,
    decreases a.len(),
{
    reveal_strlit("]");
    reveal_strlit("{");
    reveal_strlit(",");
    let l = joined(layer_texts(a), ","@) + "]"@ + x;
    let r = joined(layer_texts(b), ","@) + "]"@ + y;
    if a.len() > 0 {
        lemma_layers_begin(a, x);
    }
    if b.len() > 0 {
        lemma_layers_begin(b, y);
    }
    if a.len() == 0 && b.len() == 0 {
        assert(l.skip(1) =~= x);
        assert(r.skip(1) =~= y);
        assert(a =~= b);
    } else if a.len() == 0 {
        assert(l[0] == ']');
    } else if b.len() == 0 {
        assert(r[0] == ']');
    } else {
        let u = behind(a, x);
        let v = behind(b, y);
        lemma_layer(a[0], b[0], u, v);
        assert(u[0] == v[0]);
        if a.len() == 1 {
            assert(u.skip(1) =~= x);
            assert(v.skip(1) =~= y);
            assert(a =~= b);
        } else {
            let c = a.drop_first();
            let d = b.drop_first();
            assert forall|i: int| 0 <= i < c.len() implies may_be_plain(
                (#[trigger] c[i]).base,
            ) by {
                assert(c[i] == a[i + 1]);
            }
            assert forall|i: int| 0 <= i < d.len() implies may_be_plain(
                (#[trigger] d[i]).base,
            ) by {
                assert(d[i] == b[i + 1]);
            }
            lemma_take_off(
                ","@,
                joined(layer_texts(c), ","@) + "]"@ + x,
                joined(layer_texts(d), ","@) + "]"@ + y,
            );
            lemma_layers(c, d, x, y);
            assert(a =~= seq![a[0]] + c);
            assert(b =~= seq![b[0]] + d);
        }
    }
}

/// What stands behind the first layer of a list.
spec fn behind(a: Seq<Layer>, x: Seq<char>) -> Seq<char> {
    if a.len() == 1 {
        "]"@ + x
    } else {
        ","@ + (joined(layer_texts(a.drop_first()), ","@) + "]"@ + x)
    }
}

proof fn lemma_layers_begin(a: Seq<Layer>, x: Seq<char>)
    requires
        a.len() > 0,
    ensures
        joined(layer_texts(a), ","@) + "]"@ + x == layer_text(a[0]) + behind(a, x),
        (joined(layer_texts(a), ","@) + "]"@ + x)[0] == '{',
        behind(a, x).len() > 0,
        behind(a, x)[0] == if a.len() == 1 {
            ']'
        } else {
            ','
        },
{
    reveal_strlit("]");
    reveal_strlit("{");
    reveal_strlit(",");
    let texts = layer_texts(a);
    assert(layer_text(a[0])[0] == '{');
    if a.len() == 1 {
        assert(joined(texts, ","@) + "]"@ + x =~= layer_text(a[0]) + behind(a, x));
    } else {
        lemma_joined_front(texts, ","@);
        assert(texts.drop_first() =~= layer_texts(a.drop_first()));
        assert(joined(texts, ","@) + "]"@ + x =~= layer_text(a[0]) + behind(a, x));
    }
}

/// Lists of layers stand apart.
proof fn lemma_clouds(a: Seq<Layer>, b: Seq<Layer>)
    requires
        forall|i: int| 0 <= i < a.len() ==> may_be_plain((#[trigger] a[i]).base),
        forall|i: int| 0 <= i < b.len() ==> may_be_plain((#[trigger] b[i]).base),
    ensures
        apart(clouds_text(a), clouds_text(b)),
        clouds_text(a) == clouds_text(b) ==> a == b,
{
    let u = clouds_text(a);
    let v = clouds_text(b);
    assert forall|x: Seq<char>, y: Seq<char>| #[trigger]
        (u + x) == #[trigger] (v + y) implies u == v && a == b by {
        assert(u + x =~= "["@ + (joined(layer_texts(a), ","@) + "]"@ + x));
        assert(v + y =~= "["@ + (joined(layer_texts(b), ","@) + "]"@ + y));
        lemma_take_off(
            "["@,
            joined(layer_texts(a), ","@) + "]"@ + x,
            joined(layer_texts(b), ","@) + "]"@ + y,
        );
        lemma_layers(a, b, x, y);
    }
    if u == v {
        assert(u + Seq::<char>::empty() == v + Seq::<char>::empty());
    }
}

/// Kinds are named differently.
proof fn lemma_kinds(a: ObsKind, b: ObsKind)
    requires
        kind_name(a) == kind_name(b),
    ensures
        a == b,
{
    reveal_strlit("routine");
    reveal_strlit("special");
    reveal_strlit("unknown");
    assert("routine"@[0] == 'r' && "special"@[0] == 's' && "unknown"@[0] == 'u');
}

/// Receipt time, where there is one, and kind.
spec fn dated_rest(received: Option<Time>, kind: ObsKind, x: Seq<char>) -> Seq<char> {
    let last = ","@ + ("\""@ + "kind"@ + "\":"@) + (quoted(kind_name(kind)) + x);
    match received {
        Some(t) => ","@ + ("\""@ + "received"@ + "\":"@) + (quoted(stamp(t.secs, t.nanos)) + last),
        None => last,
    }
}

proof fn lemma_dated_rest(received: Option<Time>, kind: ObsKind, x: Seq<char>)
    ensures
        dated_rest(received, kind, x).len() > 2,
        dated_rest(received, kind, x)[2] == if received is Some {
            'r'
        } else {
            'k'
        },
{
    reveal_strlit(",");
    reveal_strlit("\"");
    reveal_strlit("kind");
    reveal_strlit("received");
}

/// The stamps of two optional times are the same.
pub open spec fn same_stamp(a: Option<Time>, b: Option<Time>) -> bool {
    match (a, b) {
        (Some(a), Some(b)) => stamp(a.secs, a.nanos) == stamp(b.secs, b.nanos),
        (None, None) => true,
        _ => false,
    }
}

proof fn lemma_dated_whole(time: Time, received: Option<Time>, kind: ObsKind, x: Seq<char>)
    ensures
        dated(time, received, kind) + x == ("\""@ + "time"@ + "\":"@) + (quoted(
            stamp(time.secs, time.nanos),
        ) + dated_rest(received, kind, x)),
{
    assert(dated(time, received, kind) + x =~= ("\""@ + "time"@ + "\":"@) + (quoted(
        stamp(time.secs, time.nanos),
    ) + dated_rest(received, kind, x)));
}

/// Times and kinds stand apart.
proof fn lemma_dated(c: Content, d: Content, x: Seq<char>, y: Seq<char>)
    requires
        dated(c.time, c.received, c.kind) + x == dated(d.time, d.received, d.kind) + y,
    ensures
        same_stamp(Some(c.time), Some(d.time)),
        same_stamp(c.received, d.received),
        c.kind == d.kind,
        x == y,
{
    let p = "\""@ + "time"@ + "\":"@;
    let u = dated_rest(c.received, c.kind, x);
    let v = dated_rest(d.received, d.kind, y);
    let s = stamp(c.time.secs, c.time.nanos);
    let t = stamp(d.time.secs, d.time.nanos);
    lemma_dated_whole(c.time, c.received, c.kind, x);
    lemma_dated_whole(d.time, d.received, d.kind, y);
    lemma_take_off(p, quoted(s) + u, quoted(t) + v);
    lemma_quoted(s, t, u, v);
    lemma_dated_rest(c.received, c.kind, x);
    lemma_dated_rest(d.received, d.kind, y);
    let k = ","@ + ("\""@ + "kind"@ + "\":"@);
    let m = quoted(kind_name(c.kind)) + x;
    let n = quoted(kind_name(d.kind)) + y;
    if c.received is Some {
        let q = ","@ + ("\""@ + "received"@ + "\":"@);
        let a = c.received->0;
        let b = d.received->0;
        lemma_take_off(
            q,
            quoted(stamp(a.secs, a.nanos)) + (k + m),
            quoted(stamp(b.secs, b.nanos)) + (k + n),
        );
        lemma_quoted(stamp(a.secs, a.nanos), stamp(b.secs, b.nanos), k + m, k + n);
    }
    lemma_take_off(k, m, n);
    lemma_quoted(kind_name(c.kind), kind_name(d.kind), x, y);
    lemma_kinds(c.kind, d.kind);
}

proof fn lemma_number_members(name: Seq<char>, a: Option<Seq<char>>, b: Option<Seq<char>>)
    requires
        may_be_plain(a),
        may_be_plain(b),
    ensures
        apart(member(name, or_null(a)), member(name, or_null(b))),
        member(name, or_null(a)) == member(name, or_null(b)) ==> a == b,
{
    lemma_numbers(a, b);
    lemma_member(name, or_null(a), or_null(b));
}

proof fn lemma_text_members(name: Seq<char>, a: Option<Seq<char>>, b: Option<Seq<char>>)
    ensures
        apart(member(name, quoted_or_null(a)), member(name, quoted_or_null(b))),
        member(name, quoted_or_null(a)) == member(name, quoted_or_null(b)) ==> a == b,
{
    lemma_texts(a, b);
    lemma_member(name, quoted_or_null(a), quoted_or_null(b));
}

proof fn lemma_truth_members(name: Seq<char>, a: bool, b: bool)
    ensures
        apart(member(name, truth(a)), member(name, truth(b))),
        member(name, truth(a)) == member(name, truth(b)) ==> a == b,
{
    lemma_null_is_endless();
    let u = truth(a);
    let v = truth(b);
    assert forall|x: Seq<char>, y: Seq<char>|
        ends(x) && ends(y) && #[trigger] (u + x) == #[trigger] (v + y) implies u == v by {
        lemma_endless(u, v, x, y);
    }
    lemma_member(name, u, v);
}

proof fn lemma_opening(c: Content, d: Content)
    ensures
        all_apart(opening(c), opening(d)),
        opening(c) == opening(d) ==> c.station == d.station && c.kind == d.kind && same_stamp(
            Some(c.time),
            Some(d.time),
        ) && same_stamp(c.received, d.received),
{
    let a = opening(c);
    let b = opening(d);
    lemma_text_members("station"@, Some(c.station), Some(d.station));
    assert forall|x: Seq<char>, y: Seq<char>|
        ends(x) && ends(y) && #[trigger] (a[1] + x) == #[trigger] (b[1] + y) implies a[1] == b[1] by {
        lemma_dated(c, d, x, y);
        assert((a[1] + x).take(a[1].len() as int) =~= a[1]);
        assert((b[1] + y).take(b[1].len() as int) =~= b[1]);
        assert(a[1].len() + x.len() == (a[1] + x).len());
    }
    assert(apart(a[0], b[0]) && apart(a[1], b[1]));
    if a == b {
        assert(a[0] == b[0] && a[1] == b[1]);
        assert(a[1] + Seq::empty() =~= b[1] + Seq::empty());
        lemma_dated(c, d, Seq::empty(), Seq::empty());
    }
}

proof fn lemma_warmth(c: Content, d: Content)
    requires
        c.wf(),
        d.wf(),
    ensures
        all_apart(warmth(c), warmth(d)),
        warmth(c) == warmth(d) ==> {
            &&& c.air_temp_c == d.air_temp_c
            &&& c.air_temp_f == d.air_temp_f
            &&& c.dew_point_c == d.dew_point_c
            &&& c.dew_point_f == d.dew_point_f
            &&& c.relative_humidity_pct == d.relative_humidity_pct
        },
{
    let a = warmth(c);
    let b = warmth(d);
    lemma_number_members("air_temp_c"@, c.air_temp_c, d.air_temp_c);
    lemma_number_members("air_temp_f"@, c.air_temp_f, d.air_temp_f);
    lemma_number_members("dew_point_c"@, c.dew_point_c, d.dew_point_c);
    lemma_number_members("dew_point_f"@, c.dew_point_f, d.dew_point_f);
    lemma_number_members(
        "relative_humidity_pct"@,
        c.relative_humidity_pct,
        d.relative_humidity_pct,
    );
    assert(apart(a[0], b[0]));
    assert(apart(a[1], b[1]));
    assert(apart(a[2], b[2]));
    assert(apart(a[3], b[3]));
    assert(apart(a[4], b[4]));
    if a == b {
        assert(a[0] == b[0]);
        assert(a[1] == b[1]);
        assert(a[2] == b[2]);
        assert(a[3] == b[3]);
        assert(a[4] == b[4]);
    }
}

proof fn lemma_wind(c: Content, d: Content)
    requires
        c.wf(),
        d.wf(),
    ensures
        all_apart(wind(c), wind(d)),
        wind(c) == wind(d) ==> {
            &&& c.wind_direction_deg == d.wind_direction_deg
            &&& c.wind_variable == d.wind_variable
            &&& c.wind_speed_ms == d.wind_speed_ms
            &&& c.wind_gust_ms == d.wind_gust_ms
        },
{
    let a = wind(c);
    let b = wind(d);
    lemma_number_members("wind_direction_deg"@, c.wind_direction_deg, d.wind_direction_deg);
    lemma_truth_members("wind_variable"@, c.wind_variable, d.wind_variable);
    lemma_number_members("wind_speed_ms"@, c.wind_speed_ms, d.wind_speed_ms);
    lemma_number_members("wind_gust_ms"@, c.wind_gust_ms, d.wind_gust_ms);
    assert(apart(a[0], b[0]));
    assert(apart(a[1], b[1]));
    assert(apart(a[2], b[2]));
    assert(apart(a[3], b[3]));
    if a == b {
        assert(a[0] == b[0]);
        assert(a[1] == b[1]);
        assert(a[2] == b[2]);
        assert(a[3] == b[3]);
    }
}

proof fn lemma_air(c: Content, d: Content)
    requires
        c.wf(),
        d.wf(),
    ensures
        all_apart(air(c), air(d)),
        air(c) == air(d) ==> {
            &&& c.visibility_km == d.visibility_km
            &&& c.altimeter_hpa == d.altimeter_hpa
            &&& c.sea_level_pressure_hpa == d.sea_level_pressure_hpa
            &&& c.weather == d.weather
            &&& c.clouds == d.clouds
        },
{
    let a = air(c);
    let b = air(d);
    lemma_number_members("visibility_km"@, c.visibility_km, d.visibility_km);
    lemma_number_members("altimeter_hpa"@, c.altimeter_hpa, d.altimeter_hpa);
    lemma_number_members(
        "sea_level_pressure_hpa"@,
        c.sea_level_pressure_hpa,
        d.sea_level_pressure_hpa,
    );
    lemma_text_members("weather"@, c.weather, d.weather);
    lemma_clouds(c.clouds, d.clouds);
    lemma_member("clouds"@, clouds_text(c.clouds), clouds_text(d.clouds));
    assert(apart(a[0], b[0]));
    assert(apart(a[1], b[1]));
    assert(apart(a[2], b[2]));
    assert(apart(a[3], b[3]));
    assert(apart(a[4], b[4]));
    if a == b {
        assert(a[0] == b[0]);
        assert(a[1] == b[1]);
        assert(a[2] == b[2]);
        assert(a[3] == b[3]);
        assert(a[4] == b[4]);
    }
}

proof fn lemma_water(c: Content, d: Content)
    requires
        c.wf(),
        d.wf(),
    ensures
        all_apart(water(c), water(d)),
        water(c) == water(d) ==> {
            &&& c.precip_1h_mm == d.precip_1h_mm
            &&& c.precip_3h_mm == d.precip_3h_mm
            &&& c.precip_6h_mm == d.precip_6h_mm
            &&& c.precip_24h_mm == d.precip_24h_mm
            &&& c.snow_depth_cm == d.snow_depth_cm
            &&& c.raw == d.raw
        },
{
    let a = water(c);
    let b = water(d);
    lemma_number_members("precip_1h_mm"@, c.precip_1h_mm, d.precip_1h_mm);
    lemma_number_members("precip_3h_mm"@, c.precip_3h_mm, d.precip_3h_mm);
    lemma_number_members("precip_6h_mm"@, c.precip_6h_mm, d.precip_6h_mm);
    lemma_number_members("precip_24h_mm"@, c.precip_24h_mm, d.precip_24h_mm);
    lemma_number_members("snow_depth_cm"@, c.snow_depth_cm, d.snow_depth_cm);
    lemma_text_members("raw"@, c.raw, d.raw);
    assert(apart(a[0], b[0]));
    assert(apart(a[1], b[1]));
    assert(apart(a[2], b[2]));
    assert(apart(a[3], b[3]));
    assert(apart(a[4], b[4]));
    assert(apart(a[5], b[5]));
    if a == b {
        assert(a[0] == b[0]);
        assert(a[1] == b[1]);
        assert(a[2] == b[2]);
        assert(a[3] == b[3]);
        assert(a[4] == b[4]);
        assert(a[5] == b[5]);
    }
}

proof fn lemma_apart_together(
    a: Seq<Seq<char>>,
    b: Seq<Seq<char>>,
    c: Seq<Seq<char>>,
    d: Seq<Seq<char>>,
)
    requires
        all_apart(a, b),
        all_apart(c, d),
    ensures
        all_apart(a + c, b + d),
        a + c == b + d ==> a == b && c == d,
{
    let u = a + c;
    let v = b + d;
    assert forall|i: int| 0 <= i < u.len() implies #[trigger] apart(u[i], v[i]) by {
        if i < a.len() {
            assert(apart(a[i], b[i]));
        } else {
            assert(apart(c[i - a.len()], d[i - a.len()]));
        }
    }
    if u == v {
        assert(u.take(a.len() as int) =~= a);
        assert(v.take(b.len() as int) =~= b);
        assert(u.skip(a.len() as int) =~= c);
        assert(v.skip(b.len() as int) =~= d);
    }
}

/// `d` says what `c` says, as far as their texts tell the times.
pub open spec fn says_the_same(c: Content, d: Content) -> bool {
    &&& same_stamp(Some(c.time), Some(d.time))
    &&& same_stamp(c.received, d.received)
    &&& c == (Content { time: c.time, received: c.received, ..d })
}

/// No two contents are written alike: rows with the same text say the same.
pub proof fn law_no_two_contents_are_written_alike(c: Content, d: Content)
    requires
        c.wf(),
        d.wf(),
    ensures
        row_json(c) == row_json(d) <==> says_the_same(c, d),
{
    if row_json(c) == row_json(d) {
        lemma_opening(c, d);
        lemma_warmth(c, d);
        lemma_wind(c, d);
        lemma_air(c, d);
        lemma_water(c, d);
        let c1 = opening(c) + warmth(c);
        let d1 = opening(d) + warmth(d);
        lemma_apart_together(opening(c), opening(d), warmth(c), warmth(d));
        let c2 = c1 + wind(c);
        let d2 = d1 + wind(d);
        lemma_apart_together(c1, d1, wind(c), wind(d));
        let c3 = c2 + air(c);
        let d3 = d2 + air(d);
        lemma_apart_together(c2, d2, air(c), air(d));
        lemma_apart_together(c3, d3, water(c), water(d));
        reveal_strlit("}");
        assert(row_json(c) =~= "{"@ + (joined(members(c), ","@) + "}"@));
        assert(row_json(d) =~= "{"@ + (joined(members(d), ","@) + "}"@));
        lemma_take_off("{"@, joined(members(c), ","@) + "}"@, joined(members(d), ","@) + "}"@);
        lemma_joined(members(c), members(d), "}"@, "}"@);
        assert(c.clouds =~= d.clouds);
    }
    if says_the_same(c, d) {
        assert(opening(c) =~= opening(d));
        assert(members(c) =~= members(d));
    }
}

impl Observation {
    /// What [`Observation::fingerprint`] gives.
    pub open spec fn identity(self, n: Numbers) -> Seq<char> {
        match self.raw {
            Some(raw) => raw@,
            None => row_json(content(self, n)),
        }
    }

    /// Stable identity of the row's content, used to notice a correction
    /// re-issued for an observation time we already reported: the raw report,
    /// or else the whole row as JSON. Without a raw report, another row has the
    /// same identity exactly when it says the same.
    pub fn fingerprint(&self, n: &Numbers) -> (r: String)
        requires
            self.wf(),
        ensures
            r@ == self.identity(*n),
            self.raw is None && content(*self, *n).wf() ==> forall|b: Observation, m: Numbers|
                b.raw is None && content(b, m).wf() ==> (#[trigger] b.identity(m) == r@ <==> content(
                    b,
                    m,
                ) == content(*self, *n)),
    {
        match &self.raw {
            Some(raw) => raw.clone(),
            None => {
                let r = write_row(self, n);
                proof {
                    let c = content(*self, *n);
                    assert forall|b: Observation, m: Numbers|
                        c.wf() && b.raw is None && content(b, m).wf() implies (#[trigger] b.identity(
                        m,
                    ) == r@ <==> content(b, m) == c) by {
                        law_no_two_contents_are_written_alike(content(b, m), c);
                    }
                }
                r
            },
        }
    }
}

} // verus!
