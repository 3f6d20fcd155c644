//! Events as lines of a log.
//!
//! A line is put together here from figures that have been written out
//! already, each with the number of decimals that the line wants.

use chrono::{TimeZone, Utc};
use vstd::prelude::*;

use crate::feed::Event;
use crate::model::{CloudLayer, ObsKind, Observation, StationInfo};
use crate::text::{
    chars_of, decimal, decimal_of, join, joined, signed_decimal, signed_decimal_of, trim, trimmed,
    views,
};
use crate::time::Time;

verus! {

/// Whether the time zone database of `chrono-tz` has a zone of that name.
pub uninterp spec fn zone_known(name: Seq<char>) -> bool;

/// What `DateTime::format` writes of an instant, by its seconds and
/// nanoseconds, in the zone of that name.
pub uninterp spec fn zone_text(
    secs: i64,
    nanos: u32,
    zone: Seq<char>,
    format: Seq<char>,
) -> Seq<char>;

/// `Tz::from_str`: whether there is a zone of that name.
#[verifier::external_body]
fn is_zone(name: &str) -> (r: bool)
    ensures
        r == zone_known(name@),
{
    name.parse::<chrono_tz::Tz>().is_ok()
}

/// A way to write a time.
#[derive(Debug, Clone, Copy, PartialEq, Eq, Structural)]
pub enum Style {
    /// Hours, minutes, seconds and the zone.
    Clock,
    /// Hours, minutes and the zone.
    Minute,
    /// Month, day, hours, minutes and the zone.
    Date,
}

impl Style {
    /// The format of `chrono` for the style.
    pub open spec fn format(self) -> Seq<char> {
        match self {
            Style::Clock => "%H:%M:%S %Z"@,
            Style::Minute => "%H:%M %Z"@,
            Style::Date => "%m-%d %H:%M %Z"@,
        }
    }

    fn as_format(self) -> (r: &'static str)
        ensures
            r@ == self.format(),
    {
        match self {
            Style::Clock => "%H:%M:%S %Z",
            Style::Minute => "%H:%M %Z",
            Style::Date => "%m-%d %H:%M %Z",
        }
    }
}

/// `DateTime::with_timezone` and `DateTime::format`, which panics on a format
/// that it does not know; the formats admitted are those of [`Style`].
#[verifier::external_body]
fn format_in_zone(t: Time, zone: &str, format: &str) -> (r: String)
    requires
        t.wf(),
        zone_known(zone@),
        exists|style: Style| #[trigger] style.format() == format@,
    ensures
        r@ == zone_text(t.secs, t.nanos, zone@, format@),
{
    let zone: chrono_tz::Tz = zone.parse().unwrap();
    let t = Utc.timestamp_opt(t.secs, t.nanos).unwrap();
    t.with_timezone(&zone).format(format).to_string()
}

/// A time zone of the database.
#[derive(Debug)]
pub struct Zone {
    name: String,
}

impl View for Zone {
    type V = Seq<char>;

    closed spec fn view(&self) -> Seq<char> {
        self.name@
    }
}

impl Zone {
    #[verifier::type_invariant]
    spec fn wf(self) -> bool {
        zone_known(self.name@)
    }
}

/// The message about a zone that is not known.
pub open spec fn unknown_zone(s: Seq<char>) -> Seq<char> {
    "unknown time zone '"@ + s + "'; use an IANA name such as UTC or America/New_York"@
}

/// Finds a time zone by its IANA name, whatever white space surrounds it.
pub fn parse_tz(s: &str) -> (r: Result<Zone, String>)
    ensures
        match r {
            Ok(zone) => zone_known(trim(s@)) && zone@ == trim(s@),
            Err(message) => !zone_known(trim(s@)) && message@ == unknown_zone(s@),
        },
{
    let name = trimmed(s);
    if is_zone(name.as_str()) {
        return Ok(Zone { name });
    }
    let mut message = String::new();
    message.append("unknown time zone '");
    message.append(s);
    message.append("'; use an IANA name such as UTC or America/New_York");
    assert(message@ =~= unknown_zone(s@));
    Err(message)
}

/// An instant in a zone and a style.
pub open spec fn time_text(t: Time, zone: Zone, style: Style) -> Seq<char> {
    zone_text(t.secs, t.nanos, zone@, style.format())
}

/// Renders a UTC instant in the display zone; the zone abbreviation (EDT, JST,
/// UTC) stands behind it.
pub fn fmt_time(t: Time, zone: &Zone, style: Style) -> (r: String)
    requires
        t.wf(),
    ensures
        r@ == time_text(t, *zone, style),
{
    proof {
        use_type_invariant(zone);
    }
    let format = style.as_format();
    assert(style.format() == format@);
    format_in_zone(t, zone.name.as_str(), format)
}

/// The text of a lag.
pub open spec fn lag_text(secs: Option<i64>, prefix: Seq<char>) -> Seq<char> {
    match secs {
        Some(s) => prefix + signed_decimal(s as int) + "s"@,
        None => "unknown"@,
    }
}

/// A lag in words.
pub fn fmt_lag(secs: Option<i64>, prefix: &str) -> (r: String)
    ensures
        r@ == lag_text(secs, prefix@),
{
    match secs {
        Some(s) => {
            let mut r = prefix.to_owned();
            r.append(signed_decimal_of(s).as_str());
            r.append("s");
            assert(r@ =~= lag_text(secs, prefix@));
            r
        },
        None => "unknown".to_owned(),
    }
}

/// The figures of an event, written out. Which of them are shown is settled by
/// the event: the figure of a value that it lacks counts for nothing.
#[derive(Debug)]
pub struct Figures {
    /// Latitude and longitude to three decimals.
    pub lat: String,
    pub lon: String,
    /// Elevation in whole metres.
    pub elevation: String,
    /// Agreement on the cadence in whole percent.
    pub agreement: String,
    /// Temperatures to one decimal.
    pub air_temp_c: String,
    pub air_temp_f: String,
    pub dew_point_c: String,
    pub dew_point_f: String,
    /// Humidity in whole percent.
    pub humidity: String,
    /// Direction of the wind in whole degrees.
    pub wind_direction: u16,
    /// The rest to one decimal, but bases of clouds, layer by layer, in whole
    /// metres.
    pub wind_speed: String,
    pub wind_gust: String,
    pub visibility: String,
    pub altimeter: String,
    pub sea_level_pressure: String,
    pub bases: Vec<String>,
    pub precip_1h: String,
}

impl Default for Figures {
    fn default() -> (r: Figures)
        ensures
            r.lat@.len() == 0,
            r.lon@.len() == 0,
            r.elevation@.len() == 0,
            r.agreement@.len() == 0,
            r.air_temp_c@.len() == 0,
            r.air_temp_f@.len() == 0,
            r.dew_point_c@.len() == 0,
            r.dew_point_f@.len() == 0,
            r.humidity@.len() == 0,
            r.wind_direction == 0,
            r.wind_speed@.len() == 0,
            r.wind_gust@.len() == 0,
            r.visibility@.len() == 0,
            r.altimeter@.len() == 0,
            r.sea_level_pressure@.len() == 0,
            r.bases@.len() == 0,
            r.precip_1h@.len() == 0,
    {
        Figures {
            lat: String::new(),
            lon: String::new(),
            elevation: String::new(),
            agreement: String::new(),
            air_temp_c: String::new(),
            air_temp_f: String::new(),
            dew_point_c: String::new(),
            dew_point_f: String::new(),
            humidity: String::new(),
            wind_direction: 0,
            wind_speed: String::new(),
            wind_gust: String::new(),
            visibility: String::new(),
            altimeter: String::new(),
            sea_level_pressure: String::new(),
            bases: Vec::new(),
            precip_1h: String::new(),
        }
    }
}

/// `before`, the figure and `after`, where there is a value to show.
pub open spec fn around(
    before: Seq<char>,
    there: bool,
    figure: Seq<char>,
    after: Seq<char>,
) -> Seq<Seq<char>> {
    if there {
        seq![before + figure + after]
    } else {
        Seq::empty()
    }
}

fn put_around(parts: &mut Vec<String>, before: &str, there: bool, figure: &str, after: &str)
    ensures
        views(final(parts)@) == views(old(parts)@) + around(before@, there, figure@, after@),
{
    let ghost start = views(parts@);
    if there {
        let mut part = before.to_owned();
        part.append(figure);
        part.append(after);
        assert(part@ =~= before@ + figure@ + after@);
        parts.push(part);
        assert(views(parts@) =~= start.push(part@));
    }
    assert(views(parts@) =~= start + around(before@, there, figure@, after@));
}

/// Where a station lies, as far as that is known.
pub open spec fn location_text(info: StationInfo, f: Figures) -> Seq<char> {
    let place = if info.lat is Some && info.lon is Some {
        " at "@ + f.lat@ + ", "@ + f.lon@
    } else {
        Seq::empty()
    };
    if info.elevation_m is Some {
        place + ", "@ + f.elevation@ + " m"@
    } else {
        place
    }
}

/// Where a station lies, as far as that is known.
pub fn fmt_location(info: &StationInfo, f: &Figures) -> (r: String)
    ensures
        r@ == location_text(*info, *f),
{
    let mut r = String::new();
    if info.lat.is_some() && info.lon.is_some() {
        r.append(" at ");
        r.append(f.lat.as_str());
        r.append(", ");
        r.append(f.lon.as_str());
    }
    if info.elevation_m.is_some() {
        r.append(", ");
        r.append(f.elevation.as_str());
        r.append(" m");
    }
    assert(r@ =~= location_text(*info, *f));
    r
}

/// A temperature in both scales, where there is one to show.
pub open spec fn temperature(label: Seq<char>, there: bool, c: Seq<char>, f: Seq<char>) -> Seq<
    Seq<char>,
> {
    if there {
        seq![label + c + "°C/"@ + f + "°F"@]
    } else {
        Seq::empty()
    }
}

fn put_temperature(parts: &mut Vec<String>, label: &str, there: bool, c: &str, f: &str)
    ensures
        views(final(parts)@) == views(old(parts)@) + temperature(label@, there, c@, f@),
{
    let ghost start = views(parts@);
    if there {
        let mut part = label.to_owned();
        part.append(c);
        part.append("°C/");
        part.append(f);
        part.append("°F");
        assert(part@ =~= label@ + c@ + "°C/"@ + f@ + "°F"@);
        parts.push(part);
        assert(views(parts@) =~= start.push(part@));
    }
    assert(views(parts@) =~= start + temperature(label@, there, c@, f@));
}

/// `n` with leading zeros to make three digits.
pub open spec fn three_digits(n: nat) -> Seq<char> {
    if n < 10 {
        "00"@ + decimal(n)
    } else if n < 100 {
        "0"@ + decimal(n)
    } else {
        decimal(n)
    }
}

/// The wind of a row, where its speed is known.
pub open spec fn wind(o: Observation, f: Figures) -> Seq<Seq<char>> {
    if o.wind_speed_ms is None {
        Seq::empty()
    } else if o.wind_direction_deg is Some {
        seq![
            "wind "@ + three_digits(f.wind_direction as nat) + "° "@ + f.wind_speed@ + " m/s"@,
        ]
    } else if o.wind_variable {
        seq!["wind VRB "@ + f.wind_speed@ + " m/s"@]
    } else {
        seq!["wind "@ + f.wind_speed@ + " m/s"@]
    }
}

fn put_wind(parts: &mut Vec<String>, o: &Observation, f: &Figures)
    ensures
        views(final(parts)@) == views(old(parts)@) + wind(*o, *f),
{
    let ghost start = views(parts@);
    if o.wind_speed_ms.is_some() {
        let mut part = String::new();
        part.append("wind ");
        if o.wind_direction_deg.is_some() {
            let d: u16 = f.wind_direction;
            if d < 10 {
                part.append("00");
            } else if d < 100 {
                part.append("0");
            }
            part.append(decimal_of(d as u64).as_str());
            part.append("° ");
            assert(part@ =~= "wind "@ + three_digits(d as nat) + "° "@);
        } else if o.wind_variable {
            part = "wind VRB ".to_owned();
        }
        part.append(f.wind_speed.as_str());
        part.append(" m/s");
        assert(wind(*o, *f) =~= seq![part@]) by {
            assert(wind(*o, *f)[0] =~= part@);
        }
        parts.push(part);
        assert(views(parts@) =~= start.push(part@));
    }
    assert(views(parts@) =~= start + wind(*o, *f));
}

/// The base at a position, written out.
pub open spec fn base_at(bases: Seq<String>, i: int) -> Seq<char> {
    if i < bases.len() {
        bases[i]@
    } else {
        Seq::empty()
    }
}

/// The layers of clouds, each with its base where that is known.
pub open spec fn layers(clouds: Seq<CloudLayer>, bases: Seq<String>) -> Seq<Seq<char>> {
    Seq::new(
        clouds.len(),
        |i: int|
            if clouds[i].base_m is Some {
                clouds[i].cover@ + base_at(bases, i) + "m"@
            } else {
                clouds[i].cover@
            },
    )
}

/// The layers of clouds in one part, where there are any.
pub open spec fn sky(clouds: Seq<CloudLayer>, bases: Seq<String>) -> Seq<Seq<char>> {
    if clouds.len() == 0 {
        Seq::empty()
    } else {
        seq![joined(layers(clouds, bases), " "@)]
    }
}

fn put_sky(parts: &mut Vec<String>, clouds: &Vec<CloudLayer>, bases: &Vec<String>)
    ensures
        views(final(parts)@) == views(old(parts)@) + sky(clouds@, bases@),
{
    let ghost start = views(parts@);
    if clouds.len() > 0 {
        let mut shown: Vec<String> = Vec::new();
        let mut i: usize = 0;
        while i < clouds.len()
            invariant
                i <= clouds@.len(),
                views(shown@) == layers(clouds@, bases@).take(i as int),
            decreases clouds@.len() - i,
        {
            let ghost before = views(shown@);
            let mut layer = clouds[i].cover.clone();
            if clouds[i].base_m.is_some() {
                if i < bases.len() {
                    layer.append(bases[i].as_str());
                }
                layer.append("m");
                assert(layer@ =~= clouds@[i as int].cover@ + base_at(bases@, i as int) + "m"@);
            }
            shown.push(layer);
            assert(views(shown@) =~= before.push(layer@));
            assert(before.push(layer@) =~= layers(clouds@, bases@).take(i + 1));
            i += 1;
        }
        assert(layers(clouds@, bases@).take(i as int) =~= layers(clouds@, bases@));
        let part = join(&shown, " ");
        parts.push(part);
        assert(views(parts@) =~= start.push(part@));
    }
    assert(views(parts@) =~= start + sky(clouds@, bases@));
}

/// The word for a special report.
pub open spec fn special(kind: ObsKind) -> Seq<Seq<char>> {
    if kind is Special {
        seq!["SPECI"@]
    } else {
        Seq::empty()
    }
}

/// The weather, where it is told.
pub open spec fn phrase(weather: Option<String>) -> Seq<Seq<char>> {
    match weather {
        Some(text) => seq![text@],
        None => Seq::empty(),
    }
}

/// The parts of a row's line: each is there exactly when the row has the value
/// that it shows.
pub open spec fn parts_of(o: Observation, f: Figures, zone: Zone) -> Seq<Seq<char>> {
    seq![time_text(o.time, zone, Style::Date)] + special(o.kind) + temperature(
        "T "@,
        o.air_temp_c is Some && o.air_temp_f is Some,
        f.air_temp_c@,
        f.air_temp_f@,
    ) + temperature(
        "Td "@,
        o.dew_point_c is Some && o.dew_point_f is Some,
        f.dew_point_c@,
        f.dew_point_f@,
    ) + around("RH "@, o.relative_humidity_pct is Some, f.humidity@, "%"@) + wind(o, f) + around(
        "gust "@,
        o.wind_gust_ms is Some,
        f.wind_gust@,
        " m/s"@,
    ) + around("vis "@, o.visibility_km is Some, f.visibility@, " km"@) + around(
        "QNH "@,
        o.altimeter_hpa is Some,
        f.altimeter@,
        " hPa"@,
    ) + around("SLP "@, o.sea_level_pressure_hpa is Some, f.sea_level_pressure@, " hPa"@) + phrase(
        o.weather,
    ) + sky(o.clouds@, f.bases@) + around(
        "precip1h "@,
        o.precip_1h_mm is Some,
        f.precip_1h@,
        " mm"@,
    )
}

/// A row in one line.
pub open spec fn row_text(o: Observation, f: Figures, zone: Zone) -> Seq<char> {
    joined(parts_of(o, f, zone), "  "@)
}

/// A row in one line.
pub fn fmt_obs(o: &Observation, f: &Figures, zone: &Zone) -> (r: String)
    requires
        o.time.wf(),
    ensures
        r@ == row_text(*o, *f, *zone),
{
    let mut parts: Vec<String> = Vec::new();
    parts.push(fmt_time(o.time, zone, Style::Date));
    assert(views(parts@) =~= seq![time_text(o.time, *zone, Style::Date)]);
    if o.kind == ObsKind::Special {
        let ghost start = views(parts@);
        parts.push("SPECI".to_owned());
        assert(views(parts@) =~= start + seq!["SPECI"@]);
    }
    assert(views(parts@) =~= seq![time_text(o.time, *zone, Style::Date)] + special(o.kind));
    put_temperature(
        &mut parts,
        "T ",
        o.air_temp_c.is_some() && o.air_temp_f.is_some(),
        f.air_temp_c.as_str(),
        f.air_temp_f.as_str(),
    );
    put_temperature(
        &mut parts,
        "Td ",
        o.dew_point_c.is_some() && o.dew_point_f.is_some(),
        f.dew_point_c.as_str(),
        f.dew_point_f.as_str(),
    );
    put_around(&mut parts, "RH ", o.relative_humidity_pct.is_some(), f.humidity.as_str(), "%");
    put_wind(&mut parts, o, f);
    put_around(&mut parts, "gust ", o.wind_gust_ms.is_some(), f.wind_gust.as_str(), " m/s");
    put_around(&mut parts, "vis ", o.visibility_km.is_some(), f.visibility.as_str(), " km");
    put_around(&mut parts, "QNH ", o.altimeter_hpa.is_some(), f.altimeter.as_str(), " hPa");
    put_around(
        &mut parts,
        "SLP ",
        o.sea_level_pressure_hpa.is_some(),
        f.sea_level_pressure.as_str(),
        " hPa",
    );
    let ghost start = views(parts@);
    if let Some(w) = &o.weather {
        parts.push(w.clone());
        assert(views(parts@) =~= start.push(w@));
    }
    assert(views(parts@) =~= start + phrase(o.weather));
    put_sky(&mut parts, &o.clouds, &f.bases);
    put_around(&mut parts, "precip1h ", o.precip_1h_mm.is_some(), f.precip_1h.as_str(), " mm");
    join(&parts, "  ")
}

/// Every time that the line of an event shows lies in the calendar.
pub open spec fn dated(event: Event) -> bool {
    match event {
        Event::History { obs, .. } => obs.time.wf(),
        Event::Waiting { expected, poll_from, .. } => expected.wf() && poll_from.wf(),
        Event::New { obs, .. } => obs.time.wf(),
        Event::Corrected { obs, .. } => obs.time.wf(),
        Event::Missed { expected, .. } => expected.wf(),
        _ => true,
    }
}

/// Whether every time that the line of an event shows lies in the calendar.
pub fn is_dated(event: &Event) -> (r: bool)
    ensures
        r == dated(*event),
{
    match event {
        Event::History { obs, .. } => obs.time.is_valid(),
        Event::Waiting { expected, poll_from, .. } => expected.is_valid() && poll_from.is_valid(),
        Event::New { obs, .. } => obs.time.is_valid(),
        Event::Corrected { obs, .. } => obs.time.is_valid(),
        Event::Missed { expected, .. } => expected.is_valid(),
        _ => true,
    }
}

/// What the line of an event says.
pub open spec fn body_text(event: Event, f: Figures, zone: Zone) -> Seq<char> {
    match event {
        Event::Station { source, info, .. } => (match info.name {
            Some(name) => name@,
            None => "(unnamed)"@,
        }) + " via "@ + source@ + location_text(info, f),
        Event::History { obs, .. } => "hist  "@ + row_text(obs, f, zone),
        Event::CadenceLearned { description, samples, lag_min_s, lag_median_s, .. } => "cadence "@
            + description@ + " ("@ + decimal(samples as nat) + " intervals, "@ + f.agreement@
            + "% agree); reports appear "@ + lag_text(lag_min_s, "no earlier than "@)
            + " after the obs time (median "@ + lag_text(lag_median_s, ""@) + ")"@,
        Event::NoCadence { rows, .. } => "no regular cadence in "@ + decimal(rows as nat)
            + " rows; polling at the slow interval"@,
        Event::Waiting { expected, poll_from, .. } => "next row expected "@ + time_text(
            expected,
            zone,
            Style::Minute,
        ) + ", polling from "@ + time_text(poll_from, zone, Style::Clock),
        Event::New { obs, latency_s, on_schedule, .. } => "NEW   "@ + row_text(obs, f, zone)
            + "  [seen "@ + signed_decimal(latency_s as int) + "s after obs time"@ + (
        if on_schedule {
            "]"@
        } else {
            ", unscheduled]"@
        }),
        Event::Corrected { obs, .. } => "CORR  "@ + row_text(obs, f, zone),
        Event::Missed { expected, .. } => "no row for "@ + time_text(expected, zone, Style::Minute)
            + " yet, moving on (it will still be reported if it turns up)"@,
        Event::Error { message, .. } => "error "@ + message@,
    }
}

/// What the line of an event says.
pub fn body(event: &Event, f: &Figures, zone: &Zone) -> (r: String)
    requires
        dated(*event),
    ensures
        r@ == body_text(*event, *f, *zone),
{
    let mut r = String::new();
    match event {
        Event::Station { source, info, .. } => {
            match &info.name {
                Some(name) => r.append(name.as_str()),
                None => r.append("(unnamed)"),
            }
            r.append(" via ");
            r.append(source);
            r.append(fmt_location(info, f).as_str());
        },
        Event::History { obs, .. } => {
            r.append("hist  ");
            r.append(fmt_obs(obs, f, zone).as_str());
        },
        Event::CadenceLearned { description, samples, lag_min_s, lag_median_s, .. } => {
            r.append("cadence ");
            r.append(description.as_str());
            r.append(" (");
            r.append(decimal_of(*samples as u64).as_str());
            r.append(" intervals, ");
            r.append(f.agreement.as_str());
            r.append("% agree); reports appear ");
            r.append(fmt_lag(*lag_min_s, "no earlier than ").as_str());
            r.append(" after the obs time (median ");
            r.append(fmt_lag(*lag_median_s, "").as_str());
            r.append(")");
        },
        Event::NoCadence { rows, .. } => {
            r.append("no regular cadence in ");
            r.append(decimal_of(*rows as u64).as_str());
            r.append(" rows; polling at the slow interval");
        },
        Event::Waiting { expected, poll_from, .. } => {
            r.append("next row expected ");
            r.append(fmt_time(*expected, zone, Style::Minute).as_str());
            r.append(", polling from ");
            r.append(fmt_time(*poll_from, zone, Style::Clock).as_str());
        },
        Event::New { obs, latency_s, on_schedule, .. } => {
            r.append("NEW   ");
            r.append(fmt_obs(obs, f, zone).as_str());
            r.append("  [seen ");
            r.append(signed_decimal_of(*latency_s).as_str());
            r.append("s after obs time");
            if *on_schedule {
                r.append("]");
            } else {
                r.append(", unscheduled]");
            }
        },
        Event::Corrected { obs, .. } => {
            r.append("CORR  ");
            r.append(fmt_obs(obs, f, zone).as_str());
        },
        Event::Missed { expected, .. } => {
            r.append("no row for ");
            r.append(fmt_time(*expected, zone, Style::Minute).as_str());
            r.append(" yet, moving on (it will still be reported if it turns up)");
        },
        Event::Error { message, .. } => {
            r.append("error ");
            r.append(message.as_str());
        },
    }
    assert(r@ =~= body_text(*event, *f, *zone));
    r
}

/// `s` with blanks behind it, to fill six places.
pub open spec fn padded(s: Seq<char>) -> Seq<char> {
    if s.len() < 6 {
        s + Seq::new((6 - s.len()) as nat, |i: int| ' ')
    } else {
        s
    }
}

fn pad(s: &str) -> (r: String)
    ensures
        r@ == padded(s@),
{
    let mut r = s.to_owned();
    let mut n: usize = chars_of(s).len();
    while n < 6
        invariant
            s@.len() <= n,
            n == r@.len(),
            n <= 6 || n == s@.len(),
            r@ == s@ + Seq::new((n - s@.len()) as nat, |i: int| ' '),
        decreases 6 - n,
    {
        let ghost before = r@;
        r.push(' ');
        n += 1;
        assert(r@ =~= s@ + Seq::new((n - s@.len()) as nat, |i: int| ' '));
    }
    assert(r@ =~= padded(s@));
    r
}

/// The line of an event that is shown at `now`.
pub open spec fn line_text(now: Time, event: Event, f: Figures, zone: Zone) -> Seq<char> {
    time_text(now, zone, Style::Clock) + " "@ + padded(event.subject()) + " "@ + body_text(
        event,
        f,
        zone,
    )
}

/// The line of an event that is shown at `now`.
pub fn event_line(now: Time, event: &Event, f: &Figures, zone: &Zone) -> (r: String)
    requires
        now.wf(),
        dated(*event),
    ensures
        r@ == line_text(now, *event, *f, *zone),
{
    let mut r = fmt_time(now, zone, Style::Clock);
    r.append(" ");
    r.append(pad(event.station()).as_str());
    r.append(" ");
    r.append(body(event, f, zone).as_str());
    assert(r@ =~= line_text(now, *event, *f, *zone));
    r
}

} // verus!
