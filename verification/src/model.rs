//! Normalized observation model.
//!
//! Every backend converts its native payload into [`Observation`], which is
//! always metric: degrees Celsius, metres per second, kilometres, hectopascals,
//! millimetres, centimetres and metres. A value whose unit is not known is left
//! as it was sent.
//!
//! A number is kept as the provider sent it, together with the conversion and
//! the rounding that make it metric. Which conversion applies is settled here;
//! carrying it out is left to whoever needs the figure.

use vstd::prelude::*;

use crate::order::{in_order, Ranked};
use crate::text::lower;
use crate::time::Time;

verus! {

/// A number as the provider sent it.
#[derive(Debug, PartialEq)]
pub enum Reading {
    /// A double-precision float, by its bits.
    Number(u64),
    /// The number that a text spells.
    Written(String),
}

impl Clone for Reading {
    fn clone(&self) -> (r: Reading)
        ensures
            r == *self,
    {
        match self {
            Reading::Number(bits) => Reading::Number(*bits),
            Reading::Written(text) => Reading::Written(text.clone()),
        }
    }
}

/// A conversion to a metric unit, or none.
#[derive(Debug, Clone, Copy, PartialEq, Eq, Structural)]
pub enum Scale {
    /// Metric already, or in a unit that is not known.
    AsIs,
    FahrenheitToCelsius,
    KelvinToCelsius,
    KnotsToMs,
    MilesPerHourToMs,
    KilometresPerHourToMs,
    PascalsToHpa,
    InchesOfMercuryToHpa,
    FeetToM,
    KilometresToM,
    MetresToKm,
    StatuteMilesToKm,
    MetresToMm,
    CentimetresToMm,
    InchesToMm,
    MillimetresToCm,
    InchesToCm,
}

/// A metric unit.
#[derive(Debug, Clone, Copy, PartialEq, Eq, Structural)]
pub enum Unit {
    Celsius,
    MetresPerSecond,
    Hectopascals,
    Metres,
    Kilometres,
    Millimetres,
    Centimetres,
}

impl Scale {
    /// The unit that the conversion leads to, where it converts at all.
    pub open spec fn unit(self) -> Option<Unit> {
        match self {
            Scale::AsIs => None,
            Scale::FahrenheitToCelsius | Scale::KelvinToCelsius => Some(Unit::Celsius),
            Scale::KnotsToMs | Scale::MilesPerHourToMs | Scale::KilometresPerHourToMs => Some(
                Unit::MetresPerSecond,
            ),
            Scale::PascalsToHpa | Scale::InchesOfMercuryToHpa => Some(Unit::Hectopascals),
            Scale::FeetToM | Scale::KilometresToM => Some(Unit::Metres),
            Scale::MetresToKm | Scale::StatuteMilesToKm => Some(Unit::Kilometres),
            Scale::MetresToMm | Scale::CentimetresToMm | Scale::InchesToMm => Some(
                Unit::Millimetres,
            ),
            Scale::MillimetresToCm | Scale::InchesToCm => Some(Unit::Centimetres),
        }
    }

    /// The conversion leads to `unit` or changes nothing.
    pub open spec fn leads_to(self, unit: Unit) -> bool {
        self is AsIs || self.unit() == Some(unit)
    }
}

/// A measured value: `reading` put through `scale`, then rounded to `places`
/// decimals, or left unrounded where there are none.
#[derive(Debug, PartialEq)]
pub struct Measure {
    pub reading: Reading,
    pub scale: Scale,
    pub places: Option<u8>,
}

impl Clone for Measure {
    fn clone(&self) -> (r: Measure)
        ensures
            r == *self,
    {
        Measure { reading: self.reading.clone(), scale: self.scale, places: self.places }
    }
}

/// A copy of a measure that may be missing.
pub fn copied(m: &Option<Measure>) -> (r: Option<Measure>)
    ensures
        r == *m,
{
    match m {
        Some(m) => Some(m.clone()),
        None => None,
    }
}

impl Measure {
    /// The value just as the provider sent it.
    pub fn raw(reading: Reading) -> (r: Measure)
        ensures
            r == (Measure { reading, scale: Scale::AsIs, places: None }),
    {
        Measure { reading, scale: Scale::AsIs, places: None }
    }

    /// The value through `scale`, rounded to `places` decimals.
    pub fn rounded(reading: Reading, scale: Scale, places: u8) -> (r: Measure)
        ensures
            r == (Measure { reading, scale, places: Some(places) }),
    {
        Measure { reading, scale, places: Some(places) }
    }
}

/// `reading`, if there is one, through `scale` and rounded to `places`.
pub open spec fn converted(reading: Option<Reading>, scale: Scale, places: u8) -> Option<Measure> {
    match reading {
        Some(reading) => Some(Measure { reading, scale, places: Some(places) }),
        None => None,
    }
}

/// The measure of a reading that may be missing.
pub fn convert(reading: Option<Reading>, scale: Scale, places: u8) -> (r: Option<Measure>)
    ensures
        r == converted(reading, scale, places),
{
    match reading {
        Some(reading) => Some(Measure::rounded(reading, scale, places)),
        None => None,
    }
}

/// `reading`, if there is one, just as it was sent.
pub open spec fn unconverted(reading: Option<Reading>) -> Option<Measure> {
    match reading {
        Some(reading) => Some(Measure { reading, scale: Scale::AsIs, places: None }),
        None => None,
    }
}

/// The unrounded measure of a reading that may be missing.
pub fn keep(reading: Option<Reading>) -> (r: Option<Measure>)
    ensures
        r == unconverted(reading),
{
    match reading {
        Some(reading) => Some(Measure::raw(reading)),
        None => None,
    }
}

/// A temperature in Fahrenheit: nine fifths of `celsius` plus 32, rounded to
/// one decimal.
#[derive(Debug, PartialEq)]
pub struct Fahrenheit {
    pub celsius: Measure,
}

/// Relative humidity in whole percent.
#[derive(Debug, PartialEq)]
pub enum Humidity {
    /// As the provider reports it.
    Reported(Measure),
    /// From the temperature and the dew point, both in Celsius.
    FromDewPoint { air: Measure, dew: Measure },
}

/// The humidity that a provider reports, or else the one that temperature and
/// dew point give.
pub open spec fn humidity_of(
    reported: Option<Measure>,
    air: Option<Measure>,
    dew: Option<Measure>,
) -> Option<Humidity> {
    match reported {
        Some(m) => Some(Humidity::Reported(m)),
        None => match (air, dew) {
            (Some(air), Some(dew)) => Some(Humidity::FromDewPoint { air, dew }),
            _ => None,
        },
    }
}

/// Settles where the humidity of an observation comes from.
pub fn humidity(reported: Option<Measure>, air: &Option<Measure>, dew: &Option<Measure>) -> (r:
    Option<Humidity>)
    ensures
        r == humidity_of(reported, *air, *dew),
{
    match reported {
        Some(m) => Some(Humidity::Reported(m)),
        None => match (air, dew) {
            (Some(air), Some(dew)) => Some(
                Humidity::FromDewPoint { air: air.clone(), dew: dew.clone() },
            ),
            _ => None,
        },
    }
}

/// A direction of the compass, from a whole number of degrees: 0 to 359.
pub fn compass(degrees: i64) -> (r: u16)
    ensures
        r == degrees as int % 360,
        r < 360,
{
    crate::time::remainder(degrees, 360) as u16
}

/// A direction of the compass: the reading rounded to a whole number of
/// degrees, taken round the circle by [`compass`].
#[derive(Debug, PartialEq)]
pub struct Bearing {
    pub reading: Reading,
}

/// The direction of a reading that may be missing.
pub open spec fn bearing_of(reading: Option<Reading>) -> Option<Bearing> {
    match reading {
        Some(reading) => Some(Bearing { reading }),
        None => None,
    }
}

/// The direction of a reading that may be missing.
pub fn bearing(reading: Option<Reading>) -> (r: Option<Bearing>)
    ensures
        r == bearing_of(reading),
{
    match reading {
        Some(reading) => Some(Bearing { reading }),
        None => None,
    }
}

/// Why a report was issued.
#[derive(Debug, Clone, Copy, PartialEq, Eq, Structural)]
pub enum ObsKind {
    /// Scheduled report (an hourly or half-hourly METAR, a mesonet interval).
    Routine,
    /// Unscheduled report issued because conditions changed (a SPECI).
    Special,
    Unknown,
}

/// One layer of clouds.
#[derive(Debug, PartialEq)]
pub struct CloudLayer {
    pub cover: String,
    pub base_m: Option<Measure>,
}

/// What a provider says of a station.
#[derive(Debug, PartialEq)]
pub struct StationInfo {
    pub id: String,
    pub name: Option<String>,
    pub lat: Option<Measure>,
    pub lon: Option<Measure>,
    pub elevation_m: Option<Measure>,
}

impl Clone for StationInfo {
    fn clone(&self) -> (r: StationInfo)
        ensures
            r == *self,
    {
        let name = match &self.name {
            Some(name) => Some(name.clone()),
            None => None,
        };
        StationInfo {
            id: self.id.clone(),
            name,
            lat: copied(&self.lat),
            lon: copied(&self.lon),
            elevation_m: copied(&self.elevation_m),
        }
    }
}

impl StationInfo {
    /// The elevation is converted to metres, or left as it was sent.
    pub open spec fn normalized(self) -> bool {
        self.elevation_m matches Some(m) ==> m.scale.leads_to(Unit::Metres)
    }
}

/// One report of a station.
#[derive(Debug, PartialEq)]
pub struct Observation {
    pub station: String,
    /// Observation (valid) time.
    pub time: Time,
    /// When the upstream provider received the report, if it says.
    pub received: Option<Time>,
    pub kind: ObsKind,
    pub air_temp_c: Option<Measure>,
    pub air_temp_f: Option<Fahrenheit>,
    pub dew_point_c: Option<Measure>,
    pub dew_point_f: Option<Fahrenheit>,
    pub relative_humidity_pct: Option<Humidity>,
    pub wind_direction_deg: Option<Bearing>,
    pub wind_variable: bool,
    pub wind_speed_ms: Option<Measure>,
    pub wind_gust_ms: Option<Measure>,
    pub visibility_km: Option<Measure>,
    pub altimeter_hpa: Option<Measure>,
    pub sea_level_pressure_hpa: Option<Measure>,
    pub weather: Option<String>,
    pub clouds: Vec<CloudLayer>,
    pub precip_1h_mm: Option<Measure>,
    pub precip_3h_mm: Option<Measure>,
    pub precip_6h_mm: Option<Measure>,
    pub precip_24h_mm: Option<Measure>,
    pub snow_depth_cm: Option<Measure>,
    /// Raw report text when the source provides one (the METAR string).
    pub raw: Option<String>,
}

/// A value that is missing, converted to `unit`, or left as it was sent.
pub open spec fn given_in(m: Option<Measure>, unit: Unit) -> bool {
    m matches Some(m) ==> m.scale.leads_to(unit)
}

/// The Fahrenheit value of a temperature that may be missing.
pub open spec fn fahrenheit_of(celsius: Option<Measure>) -> Option<Fahrenheit> {
    match celsius {
        Some(celsius) => Some(Fahrenheit { celsius }),
        None => None,
    }
}

impl Observation {
    /// The observation time and the receipt time lie in the calendar.
    pub open spec fn wf(self) -> bool {
        self.time.wf() && (self.received matches Some(t) ==> t.wf())
    }

    /// Temperature and dew point are given in Celsius and Fahrenheit alike.
    pub open spec fn in_both_scales(self) -> bool {
        &&& self.air_temp_f == fahrenheit_of(self.air_temp_c)
        &&& self.dew_point_f == fahrenheit_of(self.dew_point_c)
    }

    /// Every value is converted to the metric unit of its field, or left as it
    /// was sent, as it is where its unit is that one already or is not known.
    pub open spec fn normalized(self) -> bool {
        &&& given_in(self.air_temp_c, Unit::Celsius)
        &&& given_in(self.dew_point_c, Unit::Celsius)
        &&& given_in(self.wind_speed_ms, Unit::MetresPerSecond)
        &&& given_in(self.wind_gust_ms, Unit::MetresPerSecond)
        &&& given_in(self.visibility_km, Unit::Kilometres)
        &&& given_in(self.altimeter_hpa, Unit::Hectopascals)
        &&& given_in(self.sea_level_pressure_hpa, Unit::Hectopascals)
        &&& given_in(self.precip_1h_mm, Unit::Millimetres)
        &&& given_in(self.precip_3h_mm, Unit::Millimetres)
        &&& given_in(self.precip_6h_mm, Unit::Millimetres)
        &&& given_in(self.precip_24h_mm, Unit::Millimetres)
        &&& given_in(self.snow_depth_cm, Unit::Centimetres)
        &&& forall|i: int|
            0 <= i < self.clouds@.len() ==> given_in(
                (#[trigger] self.clouds@[i]).base_m,
                Unit::Metres,
            )
    }

    /// The times lie in the calendar, the values are normalized, and
    /// temperatures are given in Fahrenheit as well.
    pub open spec fn sound(self) -> bool {
        self.wf() && self.normalized() && self.in_both_scales()
    }

    /// Nothing but the station and the time is known.
    pub open spec fn is_blank(self) -> bool {
        &&& self.received is None
        &&& self.kind is Unknown
        &&& self.air_temp_c is None
        &&& self.air_temp_f is None
        &&& self.dew_point_c is None
        &&& self.dew_point_f is None
        &&& self.relative_humidity_pct is None
        &&& self.wind_direction_deg is None
        &&& !self.wind_variable
        &&& self.wind_speed_ms is None
        &&& self.wind_gust_ms is None
        &&& self.visibility_km is None
        &&& self.altimeter_hpa is None
        &&& self.sea_level_pressure_hpa is None
        &&& self.weather is None
        &&& self.clouds@.len() == 0
        &&& self.precip_1h_mm is None
        &&& self.precip_3h_mm is None
        &&& self.precip_6h_mm is None
        &&& self.precip_24h_mm is None
        &&& self.snow_depth_cm is None
        &&& self.raw is None
    }

    /// A report of which only the station and the time are known.
    pub fn new(station: String, time: Time) -> (r: Observation)
        ensures
            r.station == station,
            r.time == time,
            r.is_blank(),
    {
        Observation {
            station,
            time,
            received: None,
            kind: ObsKind::Unknown,
            air_temp_c: None,
            air_temp_f: None,
            dew_point_c: None,
            dew_point_f: None,
            relative_humidity_pct: None,
            wind_direction_deg: None,
            wind_variable: false,
            wind_speed_ms: None,
            wind_gust_ms: None,
            visibility_km: None,
            altimeter_hpa: None,
            sea_level_pressure_hpa: None,
            weather: None,
            clouds: Vec::new(),
            precip_1h_mm: None,
            precip_3h_mm: None,
            precip_6h_mm: None,
            precip_24h_mm: None,
            snow_depth_cm: None,
            raw: None,
        }
    }

    /// Sets the air temperature, in Celsius and Fahrenheit.
    pub fn set_air_temp_c(&mut self, celsius: Option<Measure>)
        ensures
            *final(self) == (Observation {
                air_temp_c: celsius,
                air_temp_f: fahrenheit_of(celsius),
                ..*old(self)
            }),
    {
        self.air_temp_f =
        match &celsius {
            Some(celsius) => Some(Fahrenheit { celsius: celsius.clone() }),
            None => None,
        };
        self.air_temp_c = celsius;
    }

    /// Sets the dew point, in Celsius and Fahrenheit.
    pub fn set_dew_point_c(&mut self, celsius: Option<Measure>)
        ensures
            *final(self) == (Observation {
                dew_point_c: celsius,
                dew_point_f: fahrenheit_of(celsius),
                ..*old(self)
            }),
    {
        self.dew_point_f =
        match &celsius {
            Some(celsius) => Some(Fahrenheit { celsius: celsius.clone() }),
            None => None,
        };
        self.dew_point_c = celsius;
    }
}

impl Ranked for Observation {
    open spec fn ranks_before(self, other: Self) -> bool {
        self.time.precedes(other.time)
    }

    fn is_ranked_before(&self, other: &Self) -> (r: bool) {
        self.time.is_before(other.time)
    }

    proof fn ranking_is_asymmetric(a: Self, b: Self) {
    }

    proof fn ranking_is_transitive(a: Self, b: Self, c: Self) {
    }
}

/// Sorting keeps every observation sound.
pub proof fn lemma_sorting_keeps_soundness(rows: Seq<Observation>)
    requires
        forall|i: int| 0 <= i < rows.len() ==> (#[trigger] rows[i]).sound(),
    ensures
        forall|i: int| 0 <= i < in_order(rows).len() ==> (#[trigger] in_order(rows)[i]).sound(),
{
    assert forall|i: int| 0 <= i < in_order(rows).len() implies (#[trigger] in_order(
        rows,
    )[i]).sound() by {
        crate::order::lemma_same_members(rows, in_order(rows)[i]);
        let k = choose|k: int| 0 <= k < rows.len() && rows[k] == in_order(rows)[i];
        assert(rows[k].sound());
    }
}

/// Everything one fetch returned for a station.
#[derive(Debug)]
pub struct Batch {
    pub info: Option<StationInfo>,
    pub rows: Vec<Observation>,
}

impl Batch {
    /// Every row is sound, and they come in order of time.
    pub open spec fn sound(self) -> bool {
        &&& forall|i: int| 0 <= i < self.rows@.len() ==> (#[trigger] self.rows@[i]).sound()
        &&& crate::order::ranked(self.rows@)
        &&& self.info matches Some(info) ==> info.normalized()
    }

    /// Every row is one of `station`, in whatever case that is written.
    pub open spec fn is_of(self, station: Seq<char>) -> bool {
        forall|i: int|
            0 <= i < self.rows@.len() ==> lower((#[trigger] self.rows@[i]).station@) == lower(
                station,
            )
    }
}

impl Default for Batch {
    fn default() -> (r: Batch)
        ensures
            r.info is None,
            r.rows@.len() == 0,
    {
        Batch { info: None, rows: Vec::new() }
    }
}

} // verus!
