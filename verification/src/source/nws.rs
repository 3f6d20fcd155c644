//! NWS API backend (api.weather.gov). Token-free, US stations only.
//!
//! For ASOS airports this carries the 5-minute observations the weather.gov
//! timeseries page shows, not only the hourly METARs. Responses are cached
//! upstream for about two minutes, so the `start` parameter is truncated to
//! the minute: polls within one minute share a URL (and a cached answer), and
//! each new minute is a fresh query.

use vstd::hash_map::StringHashMap;
use vstd::prelude::*;
use vstd::utf8::encode_utf8;

use crate::json::told;
use crate::model::{
    bearing, bearing_of, converted, given_in, humidity, humidity_of, keep, unconverted, Batch,
    CloudLayer, Measure, Observation, Reading, Scale, StationInfo, Unit,
};
use crate::order::{in_order, sort};
use crate::record::{
    at_place, needed, needed_says, numbered, option, option_says, read_all, text_wrong, words,
    Readable, Record,
};
use crate::schedule::{can_be_earlier, moved_earlier};
use crate::source::{drop_blank, fault, instant, parse_time, says, unless_blank, Fault};
use crate::text::{join, joined, lower, same, trim, views};
use crate::time::{format_utc, minute_start, truncate_to_minute, utc_text, Span, Time};

verus! {

/// The NWS API has no such station; callers may fall back to another backend.
#[derive(Debug)]
pub struct StationNotFound(pub String);

impl StationNotFound {
    /// The fault in words.
    pub open spec fn text(self) -> Seq<char> {
        "the NWS API has no station "@ + self.0@
    }

    /// The fault in words.
    pub fn message(&self) -> (r: String)
        ensures
            r@ == self.text(),
    {
        let mut r = String::new();
        r.append("the NWS API has no station ");
        r.append(self.0.as_str());
        assert(r@ =~= self.text());
        r
    }
}

/// NWS measurement: a value, a WMO unit code and a quality-control flag.
#[derive(Debug)]
pub struct Quantity {
    pub unit_code: Option<String>,
    pub value: Option<Reading>,
    pub quality_control: Option<String>,
}

impl Record for Quantity {
    open spec fn title() -> Seq<char> {
        "struct Quantity"@
    }

    open spec fn names() -> Seq<Seq<char>> {
        seq!["unitCode"@, "value"@, "qualityControl"@]
    }

    open spec fn needs(k: int) -> bool {
        false
    }

    open spec fn least() -> nat {
        3
    }

    open spec fn part_wrong(k: int, text: Seq<u8>, i: int) -> Option<Seq<char>> {
        if k == 1 {
            Option::<Reading>::wrong(text, i)
        } else {
            Option::<String>::wrong(text, i)
        }
    }

    open spec fn tells(self, text: Seq<u8>, places: Seq<Option<int>>) -> bool {
        &&& option_says(self.unit_code, text, places[0])
        &&& option_says(self.value, text, places[1])
        &&& option_says(self.quality_control, text, places[2])
    }

    fn form() -> (r: (&'static str, Vec<&'static str>, usize)) {
        let names: Vec<&'static str> = vec!["unitCode", "value", "qualityControl"];
        assert(words(names@) =~= Self::names());
        ("struct Quantity", names, 3)
    }

    fn is_needed(k: usize) -> (r: bool) {
        false
    }

    fn check_part(k: usize, text: &[u8], i: usize) -> (r: Option<String>) {
        if k == 1 {
            Option::<Reading>::check(text, i)
        } else {
            Option::<String>::check(text, i)
        }
    }

    fn build(text: &[u8], places: &Vec<Option<usize>>) -> (r: Quantity) {
        let ghost all = numbered(places@);
        assert(all[0] == at_place(places@[0]));
        assert(all[1] == at_place(places@[1]));
        assert(all[2] == at_place(places@[2]));
        Quantity {
            unit_code: option(text, places[0]),
            value: option(text, places[1]),
            quality_control: option(text, places[2]),
        }
    }
}

/// One layer of clouds as the service sends it.
#[derive(Debug)]
pub struct Layer {
    pub base: Option<Quantity>,
    pub amount: Option<String>,
}

impl Record for Layer {
    open spec fn title() -> Seq<char> {
        "struct Layer"@
    }

    open spec fn names() -> Seq<Seq<char>> {
        seq!["base"@, "amount"@]
    }

    open spec fn needs(k: int) -> bool {
        false
    }

    open spec fn least() -> nat {
        2
    }

    open spec fn part_wrong(k: int, text: Seq<u8>, i: int) -> Option<Seq<char>> {
        if k == 0 {
            Option::<Quantity>::wrong(text, i)
        } else {
            Option::<String>::wrong(text, i)
        }
    }

    open spec fn tells(self, text: Seq<u8>, places: Seq<Option<int>>) -> bool {
        &&& option_says(self.base, text, places[0])
        &&& option_says(self.amount, text, places[1])
    }

    fn form() -> (r: (&'static str, Vec<&'static str>, usize)) {
        let names: Vec<&'static str> = vec!["base", "amount"];
        assert(words(names@) =~= Self::names());
        ("struct Layer", names, 2)
    }

    fn is_needed(k: usize) -> (r: bool) {
        false
    }

    fn check_part(k: usize, text: &[u8], i: usize) -> (r: Option<String>) {
        if k == 0 {
            Option::<Quantity>::check(text, i)
        } else {
            Option::<String>::check(text, i)
        }
    }

    fn build(text: &[u8], places: &Vec<Option<usize>>) -> (r: Layer) {
        let ghost all = numbered(places@);
        assert(all[0] == at_place(places@[0]));
        assert(all[1] == at_place(places@[1]));
        Layer {
            base: option(text, places[0]),
            amount: option(text, places[1]),
        }
    }
}

/// One weather phenomenon as the service sends it.
#[derive(Debug)]
pub struct Weather {
    pub raw_string: Option<String>,
}

impl Record for Weather {
    open spec fn title() -> Seq<char> {
        "struct Weather"@
    }

    open spec fn names() -> Seq<Seq<char>> {
        seq!["rawString"@]
    }

    open spec fn needs(k: int) -> bool {
        false
    }

    open spec fn least() -> nat {
        1
    }

    open spec fn part_wrong(k: int, text: Seq<u8>, i: int) -> Option<Seq<char>> {
        Option::<String>::wrong(text, i)
    }

    open spec fn tells(self, text: Seq<u8>, places: Seq<Option<int>>) -> bool {
        option_says(self.raw_string, text, places[0])
    }

    fn form() -> (r: (&'static str, Vec<&'static str>, usize)) {
        let names: Vec<&'static str> = vec!["rawString"];
        assert(words(names@) =~= Self::names());
        ("struct Weather", names, 1)
    }

    fn is_needed(k: usize) -> (r: bool) {
        false
    }

    fn check_part(k: usize, text: &[u8], i: usize) -> (r: Option<String>) {
        Option::<String>::check(text, i)
    }

    fn build(text: &[u8], places: &Vec<Option<usize>>) -> (r: Weather) {
        let ghost all = numbered(places@);
        assert(all[0] == at_place(places@[0]));
        Weather {
            raw_string: option(text, places[0]),
        }
    }
}

/// One observation as the service sends it.
#[derive(Debug)]
pub struct Props {
    pub timestamp: Option<String>,
    pub raw_message: Option<String>,
    pub temperature: Option<Quantity>,
    pub dewpoint: Option<Quantity>,
    pub wind_direction: Option<Quantity>,
    pub wind_speed: Option<Quantity>,
    pub wind_gust: Option<Quantity>,
    pub barometric_pressure: Option<Quantity>,
    pub sea_level_pressure: Option<Quantity>,
    pub visibility: Option<Quantity>,
    pub relative_humidity: Option<Quantity>,
    pub precipitation_last_hour: Option<Quantity>,
    pub precipitation_last3_hours: Option<Quantity>,
    pub precipitation_last6_hours: Option<Quantity>,
    pub cloud_layers: Option<Vec<Layer>>,
    pub present_weather: Option<Vec<Weather>>,
}

impl Record for Props {
    open spec fn title() -> Seq<char> {
        "struct Props"@
    }

    open spec fn names() -> Seq<Seq<char>> {
        seq![
            "timestamp"@,
            "rawMessage"@,
            "temperature"@,
            "dewpoint"@,
            "windDirection"@,
            "windSpeed"@,
            "windGust"@,
            "barometricPressure"@,
            "seaLevelPressure"@,
            "visibility"@,
            "relativeHumidity"@,
            "precipitationLastHour"@,
            "precipitationLast3Hours"@,
            "precipitationLast6Hours"@,
            "cloudLayers"@,
            "presentWeather"@,
        ]
    }

    open spec fn needs(k: int) -> bool {
        false
    }

    open spec fn least() -> nat {
        16
    }

    open spec fn part_wrong(k: int, text: Seq<u8>, i: int) -> Option<Seq<char>> {
        if k == 14 {
            Option::<Vec<Layer>>::wrong(text, i)
        } else if k == 15 {
            Option::<Vec<Weather>>::wrong(text, i)
        } else if k == 0 || k == 1 {
            Option::<String>::wrong(text, i)
        } else {
            Option::<Quantity>::wrong(text, i)
        }
    }

    open spec fn tells(self, text: Seq<u8>, places: Seq<Option<int>>) -> bool {
        &&& option_says(self.timestamp, text, places[0])
        &&& option_says(self.raw_message, text, places[1])
        &&& option_says(self.temperature, text, places[2])
        &&& option_says(self.dewpoint, text, places[3])
        &&& option_says(self.wind_direction, text, places[4])
        &&& option_says(self.wind_speed, text, places[5])
        &&& option_says(self.wind_gust, text, places[6])
        &&& option_says(self.barometric_pressure, text, places[7])
        &&& option_says(self.sea_level_pressure, text, places[8])
        &&& option_says(self.visibility, text, places[9])
        &&& option_says(self.relative_humidity, text, places[10])
        &&& option_says(self.precipitation_last_hour, text, places[11])
        &&& option_says(self.precipitation_last3_hours, text, places[12])
        &&& option_says(self.precipitation_last6_hours, text, places[13])
        &&& option_says(self.cloud_layers, text, places[14])
        &&& option_says(self.present_weather, text, places[15])
    }

    fn form() -> (r: (&'static str, Vec<&'static str>, usize)) {
        let names: Vec<&'static str> = vec![
            "timestamp",
            "rawMessage",
            "temperature",
            "dewpoint",
            "windDirection",
            "windSpeed",
            "windGust",
            "barometricPressure",
            "seaLevelPressure",
            "visibility",
            "relativeHumidity",
            "precipitationLastHour",
            "precipitationLast3Hours",
            "precipitationLast6Hours",
            "cloudLayers",
            "presentWeather",
        ];
        assert(words(names@) =~= Self::names());
        ("struct Props", names, 16)
    }

    fn is_needed(k: usize) -> (r: bool) {
        false
    }

    fn check_part(k: usize, text: &[u8], i: usize) -> (r: Option<String>) {
        if k == 14 {
            Option::<Vec<Layer>>::check(text, i)
        } else if k == 15 {
            Option::<Vec<Weather>>::check(text, i)
        } else if k == 0 || k == 1 {
            Option::<String>::check(text, i)
        } else {
            Option::<Quantity>::check(text, i)
        }
    }

    fn build(text: &[u8], places: &Vec<Option<usize>>) -> (r: Props) {
        let ghost all = numbered(places@);
        assert(all[0] == at_place(places@[0]));
        assert(all[1] == at_place(places@[1]));
        assert(all[2] == at_place(places@[2]));
        assert(all[3] == at_place(places@[3]));
        assert(all[4] == at_place(places@[4]));
        assert(all[5] == at_place(places@[5]));
        assert(all[6] == at_place(places@[6]));
        assert(all[7] == at_place(places@[7]));
        assert(all[8] == at_place(places@[8]));
        assert(all[9] == at_place(places@[9]));
        assert(all[10] == at_place(places@[10]));
        assert(all[11] == at_place(places@[11]));
        assert(all[12] == at_place(places@[12]));
        assert(all[13] == at_place(places@[13]));
        assert(all[14] == at_place(places@[14]));
        assert(all[15] == at_place(places@[15]));
        Props {
            timestamp: option(text, places[0]),
            raw_message: option(text, places[1]),
            temperature: option(text, places[2]),
            dewpoint: option(text, places[3]),
            wind_direction: option(text, places[4]),
            wind_speed: option(text, places[5]),
            wind_gust: option(text, places[6]),
            barometric_pressure: option(text, places[7]),
            sea_level_pressure: option(text, places[8]),
            visibility: option(text, places[9]),
            relative_humidity: option(text, places[10]),
            precipitation_last_hour: option(text, places[11]),
            precipitation_last3_hours: option(text, places[12]),
            precipitation_last6_hours: option(text, places[13]),
            cloud_layers: option(text, places[14]),
            present_weather: option(text, places[15]),
        }
    }
}

/// One entry of a collection of observations.
#[derive(Debug)]
pub struct Feature {
    pub properties: Props,
}

impl Record for Feature {
    open spec fn title() -> Seq<char> {
        "struct Feature"@
    }

    open spec fn names() -> Seq<Seq<char>> {
        seq!["properties"@]
    }

    open spec fn needs(k: int) -> bool {
        k == 0
    }

    open spec fn least() -> nat {
        1
    }

    open spec fn part_wrong(k: int, text: Seq<u8>, i: int) -> Option<Seq<char>> {
        Props::wrong(text, i)
    }

    open spec fn tells(self, text: Seq<u8>, places: Seq<Option<int>>) -> bool {
        needed_says(self.properties, text, places[0])
    }

    fn form() -> (r: (&'static str, Vec<&'static str>, usize)) {
        let names: Vec<&'static str> = vec!["properties"];
        assert(words(names@) =~= Self::names());
        ("struct Feature", names, 1)
    }

    fn is_needed(k: usize) -> (r: bool) {
        k == 0
    }

    fn check_part(k: usize, text: &[u8], i: usize) -> (r: Option<String>) {
        Props::check(text, i)
    }

    fn build(text: &[u8], places: &Vec<Option<usize>>) -> (r: Feature) {
        let ghost all = numbered(places@);
        assert(all[0] == at_place(places@[0]));
        Feature {
            properties: needed(text, places[0]),
        }
    }
}

/// A collection of observations. Without a list it is empty.
#[derive(Debug)]
pub struct Collection {
    pub features: Vec<Feature>,
}

impl Record for Collection {
    open spec fn title() -> Seq<char> {
        "struct Collection"@
    }

    open spec fn names() -> Seq<Seq<char>> {
        seq!["features"@]
    }

    open spec fn needs(k: int) -> bool {
        false
    }

    open spec fn least() -> nat {
        0
    }

    open spec fn part_wrong(k: int, text: Seq<u8>, i: int) -> Option<Seq<char>> {
        Vec::<Feature>::wrong(text, i)
    }

    open spec fn tells(self, text: Seq<u8>, places: Seq<Option<int>>) -> bool {
        match places[0] {
            Some(i) => self.features.says(text, i),
            None => self.features@.len() == 0,
        }
    }

    fn form() -> (r: (&'static str, Vec<&'static str>, usize)) {
        let names: Vec<&'static str> = vec!["features"];
        assert(words(names@) =~= Self::names());
        ("struct Collection", names, 0)
    }

    fn is_needed(k: usize) -> (r: bool) {
        false
    }

    fn check_part(k: usize, text: &[u8], i: usize) -> (r: Option<String>) {
        Vec::<Feature>::check(text, i)
    }

    fn build(text: &[u8], places: &Vec<Option<usize>>) -> (r: Collection) {
        let ghost all = numbered(places@);
        assert(all[0] == at_place(places@[0]));
        let features = match places[0] {
            Some(i) => Vec::<Feature>::decode(text, i),
            None => Vec::new(),
        };
        Collection {
            features,
        }
    }
}

/// Where a station lies, as the service sends it.
#[derive(Debug)]
pub struct Geometry {
    /// Longitude, then latitude.
    pub coordinates: Option<Vec<Reading>>,
}

impl Record for Geometry {
    open spec fn title() -> Seq<char> {
        "struct Geometry"@
    }

    open spec fn names() -> Seq<Seq<char>> {
        seq!["coordinates"@]
    }

    open spec fn needs(k: int) -> bool {
        false
    }

    open spec fn least() -> nat {
        1
    }

    open spec fn part_wrong(k: int, text: Seq<u8>, i: int) -> Option<Seq<char>> {
        Option::<Vec<Reading>>::wrong(text, i)
    }

    open spec fn tells(self, text: Seq<u8>, places: Seq<Option<int>>) -> bool {
        option_says(self.coordinates, text, places[0])
    }

    fn form() -> (r: (&'static str, Vec<&'static str>, usize)) {
        let names: Vec<&'static str> = vec!["coordinates"];
        assert(words(names@) =~= Self::names());
        ("struct Geometry", names, 1)
    }

    fn is_needed(k: usize) -> (r: bool) {
        false
    }

    fn check_part(k: usize, text: &[u8], i: usize) -> (r: Option<String>) {
        Option::<Vec<Reading>>::check(text, i)
    }

    fn build(text: &[u8], places: &Vec<Option<usize>>) -> (r: Geometry) {
        let ghost all = numbered(places@);
        assert(all[0] == at_place(places@[0]));
        Geometry {
            coordinates: option(text, places[0]),
        }
    }
}

/// What the service says of a station.
#[derive(Debug)]
pub struct StationProps {
    pub id: Option<String>,
    pub name: Option<String>,
    pub elevation: Option<Quantity>,
}

impl Record for StationProps {
    open spec fn title() -> Seq<char> {
        "struct StationProps"@
    }

    open spec fn names() -> Seq<Seq<char>> {
        seq!["stationIdentifier"@, "name"@, "elevation"@]
    }

    open spec fn needs(k: int) -> bool {
        false
    }

    open spec fn least() -> nat {
        3
    }

    open spec fn part_wrong(k: int, text: Seq<u8>, i: int) -> Option<Seq<char>> {
        if k == 2 {
            Option::<Quantity>::wrong(text, i)
        } else {
            Option::<String>::wrong(text, i)
        }
    }

    open spec fn tells(self, text: Seq<u8>, places: Seq<Option<int>>) -> bool {
        &&& option_says(self.id, text, places[0])
        &&& option_says(self.name, text, places[1])
        &&& option_says(self.elevation, text, places[2])
    }

    fn form() -> (r: (&'static str, Vec<&'static str>, usize)) {
        let names: Vec<&'static str> = vec!["stationIdentifier", "name", "elevation"];
        assert(words(names@) =~= Self::names());
        ("struct StationProps", names, 3)
    }

    fn is_needed(k: usize) -> (r: bool) {
        false
    }

    fn check_part(k: usize, text: &[u8], i: usize) -> (r: Option<String>) {
        if k == 2 {
            Option::<Quantity>::check(text, i)
        } else {
            Option::<String>::check(text, i)
        }
    }

    fn build(text: &[u8], places: &Vec<Option<usize>>) -> (r: StationProps) {
        let ghost all = numbered(places@);
        assert(all[0] == at_place(places@[0]));
        assert(all[1] == at_place(places@[1]));
        assert(all[2] == at_place(places@[2]));
        StationProps {
            id: option(text, places[0]),
            name: option(text, places[1]),
            elevation: option(text, places[2]),
        }
    }
}

/// A station as the service sends it.
#[derive(Debug)]
pub struct StationDoc {
    pub properties: StationProps,
    pub geometry: Option<Geometry>,
}

impl Record for StationDoc {
    open spec fn title() -> Seq<char> {
        "struct StationDoc"@
    }

    open spec fn names() -> Seq<Seq<char>> {
        seq!["properties"@, "geometry"@]
    }

    open spec fn needs(k: int) -> bool {
        k == 0
    }

    open spec fn least() -> nat {
        2
    }

    open spec fn part_wrong(k: int, text: Seq<u8>, i: int) -> Option<Seq<char>> {
        if k == 0 {
            StationProps::wrong(text, i)
        } else {
            Option::<Geometry>::wrong(text, i)
        }
    }

    open spec fn tells(self, text: Seq<u8>, places: Seq<Option<int>>) -> bool {
        &&& needed_says(self.properties, text, places[0])
        &&& option_says(self.geometry, text, places[1])
    }

    fn form() -> (r: (&'static str, Vec<&'static str>, usize)) {
        let names: Vec<&'static str> = vec!["properties", "geometry"];
        assert(words(names@) =~= Self::names());
        ("struct StationDoc", names, 2)
    }

    fn is_needed(k: usize) -> (r: bool) {
        k == 0
    }

    fn check_part(k: usize, text: &[u8], i: usize) -> (r: Option<String>) {
        if k == 0 {
            StationProps::check(text, i)
        } else {
            Option::<Geometry>::check(text, i)
        }
    }

    fn build(text: &[u8], places: &Vec<Option<usize>>) -> (r: StationDoc) {
        let ghost all = numbered(places@);
        assert(all[0] == at_place(places@[0]));
        assert(all[1] == at_place(places@[1]));
        StationDoc {
            properties: needed(text, places[0]),
            geometry: option(text, places[1]),
        }
    }
}

/// How a value with the unit code `unit` becomes degrees Celsius.
pub open spec fn temp_c_scale(unit: Seq<char>) -> Scale {
    if unit == "wmoUnit:degF"@ {
        Scale::FahrenheitToCelsius
    } else if unit == "wmoUnit:K"@ {
        Scale::KelvinToCelsius
    } else {
        Scale::AsIs
    }
}

fn temp_c(unit: &str) -> (r: Scale)
    ensures
        r == temp_c_scale(unit@),
{
    if same(unit, "wmoUnit:degF") {
        Scale::FahrenheitToCelsius
    } else if same(unit, "wmoUnit:K") {
        Scale::KelvinToCelsius
    } else {
        Scale::AsIs
    }
}

/// How a value with the unit code `unit` becomes metres per second.
pub open spec fn speed_ms_scale(unit: Seq<char>) -> Scale {
    if unit == "wmoUnit:km_h-1"@ {
        Scale::KilometresPerHourToMs
    } else if unit == "wmoUnit:kn"@ || unit == "wmoUnit:kt"@ {
        Scale::KnotsToMs
    } else if unit == "wmoUnit:mi_h-1"@ {
        Scale::MilesPerHourToMs
    } else {
        Scale::AsIs
    }
}

fn speed_ms(unit: &str) -> (r: Scale)
    ensures
        r == speed_ms_scale(unit@),
{
    if same(unit, "wmoUnit:km_h-1") {
        Scale::KilometresPerHourToMs
    } else if same(unit, "wmoUnit:kn") || same(unit, "wmoUnit:kt") {
        Scale::KnotsToMs
    } else if same(unit, "wmoUnit:mi_h-1") {
        Scale::MilesPerHourToMs
    } else {
        Scale::AsIs
    }
}

/// How a value with the unit code `unit` becomes hectopascals.
pub open spec fn pressure_hpa_scale(unit: Seq<char>) -> Scale {
    if unit == "wmoUnit:Pa"@ {
        Scale::PascalsToHpa
    } else {
        Scale::AsIs
    }
}

fn pressure_hpa(unit: &str) -> (r: Scale)
    ensures
        r == pressure_hpa_scale(unit@),
{
    if same(unit, "wmoUnit:Pa") {
        Scale::PascalsToHpa
    } else {
        Scale::AsIs
    }
}

/// How a value with the unit code `unit` becomes kilometres.
pub open spec fn length_km_scale(unit: Seq<char>) -> Scale {
    if unit == "wmoUnit:m"@ {
        Scale::MetresToKm
    } else if unit == "wmoUnit:mi"@ {
        Scale::StatuteMilesToKm
    } else {
        Scale::AsIs
    }
}

fn length_km(unit: &str) -> (r: Scale)
    ensures
        r == length_km_scale(unit@),
{
    if same(unit, "wmoUnit:m") {
        Scale::MetresToKm
    } else if same(unit, "wmoUnit:mi") {
        Scale::StatuteMilesToKm
    } else {
        Scale::AsIs
    }
}

/// How a value with the unit code `unit` becomes metres.
pub open spec fn length_m_scale(unit: Seq<char>) -> Scale {
    if unit == "wmoUnit:ft"@ {
        Scale::FeetToM
    } else if unit == "wmoUnit:km"@ {
        Scale::KilometresToM
    } else {
        Scale::AsIs
    }
}

fn length_m(unit: &str) -> (r: Scale)
    ensures
        r == length_m_scale(unit@),
{
    if same(unit, "wmoUnit:ft") {
        Scale::FeetToM
    } else if same(unit, "wmoUnit:km") {
        Scale::KilometresToM
    } else {
        Scale::AsIs
    }
}

/// How a value with the unit code `unit` becomes millimetres.
pub open spec fn depth_mm_scale(unit: Seq<char>) -> Scale {
    if unit == "wmoUnit:m"@ {
        Scale::MetresToMm
    } else if unit == "wmoUnit:in"@ {
        Scale::InchesToMm
    } else {
        Scale::AsIs
    }
}

fn depth_mm(unit: &str) -> (r: Scale)
    ensures
        r == depth_mm_scale(unit@),
{
    if same(unit, "wmoUnit:m") {
        Scale::MetresToMm
    } else if same(unit, "wmoUnit:in") {
        Scale::InchesToMm
    } else {
        Scale::AsIs
    }
}

/// What a quantity measures.
#[derive(Debug, Clone, Copy, PartialEq, Eq, Structural)]
pub enum Dimension {
    Temperature,
    Speed,
    Pressure,
    /// A length that is given in kilometres.
    Distance,
    /// A length that is given in metres.
    Height,
    Depth,
    /// A number that is taken as it is.
    Plain,
}

impl Dimension {
    /// How a value of this dimension becomes metric.
    pub open spec fn scale_of(self, unit: Seq<char>) -> Scale {
        match self {
            Dimension::Temperature => temp_c_scale(unit),
            Dimension::Speed => speed_ms_scale(unit),
            Dimension::Pressure => pressure_hpa_scale(unit),
            Dimension::Distance => length_km_scale(unit),
            Dimension::Height => length_m_scale(unit),
            Dimension::Depth => depth_mm_scale(unit),
            Dimension::Plain => Scale::AsIs,
        }
    }

    fn scale(self, unit: &str) -> (r: Scale)
        ensures
            r == self.scale_of(unit@),
    {
        match self {
            Dimension::Temperature => temp_c(unit),
            Dimension::Speed => speed_ms(unit),
            Dimension::Pressure => pressure_hpa(unit),
            Dimension::Distance => length_km(unit),
            Dimension::Height => length_m(unit),
            Dimension::Depth => depth_mm(unit),
            Dimension::Plain => Scale::AsIs,
        }
    }
}

impl Quantity {
    /// Quality control rejected the value.
    pub open spec fn rejected(self) -> bool {
        told(self.quality_control) == Some("X"@)
    }

    /// The value, unless there is none or quality control rejected it.
    pub open spec fn accepted(self) -> Option<Reading> {
        if self.rejected() {
            None
        } else {
            self.value
        }
    }

    /// The unit code, or nothing where there is none.
    pub open spec fn unit(self) -> Seq<char> {
        match self.unit_code {
            Some(code) => code@,
            None => ""@,
        }
    }

    /// The value with its unit, unless quality control rejected it ("X").
    pub fn value(&self) -> (r: Option<(Reading, &str)>)
        ensures
            match r {
                Some((reading, unit)) => self.accepted() == Some(reading) && unit@ == self.unit(),
                None => self.accepted() is None,
            },
    {
        if let Some(flag) = &self.quality_control {
            if same(flag.as_str(), "X") {
                return None;
            }
        }
        match &self.value {
            Some(reading) => Some(
                (
                    reading.clone(),
                    match &self.unit_code {
                        Some(code) => code.as_str(),
                        None => "",
                    },
                ),
            ),
            None => None,
        }
    }
}

/// The metric value of a quantity, rounded to `places` decimals.
pub open spec fn measured(q: Option<Quantity>, dimension: Dimension, places: u8) -> Option<
    Measure,
> {
    match q {
        Some(q) => converted(q.accepted(), dimension.scale_of(q.unit()), places),
        None => None,
    }
}

fn measure(q: &Option<Quantity>, dimension: Dimension, places: u8) -> (r: Option<Measure>)
    ensures
        r == measured(*q, dimension, places),
{
    match q {
        Some(q) => match q.value() {
            Some((reading, unit)) => Some(Measure::rounded(reading, dimension.scale(unit), places)),
            None => None,
        },
        None => None,
    }
}

/// The value of a quantity as it is.
pub open spec fn plain(q: Option<Quantity>) -> Option<Reading> {
    match q {
        Some(q) => q.accepted(),
        None => None,
    }
}

/// The phenomena that are no blank strings.
pub open spec fn phrases(weather: Seq<Weather>) -> Seq<Seq<char>>
    decreases weather.len(),
{
    if weather.len() == 0 {
        Seq::empty()
    } else {
        match unless_blank(weather.last().raw_string) {
            Some(text) => phrases(weather.drop_last()).push(text@),
            None => phrases(weather.drop_last()),
        }
    }
}

/// The phenomena in one line, if there are any.
pub open spec fn weather_of(weather: Option<Vec<Weather>>) -> Option<Seq<char>> {
    match weather {
        Some(list) if phrases(list@).len() > 0 => Some(joined(phrases(list@), " "@)),
        _ => None,
    }
}

fn weather_line(weather: Option<Vec<Weather>>) -> (r: Option<String>)
    ensures
        told(r) == weather_of(weather),
{
    let list = match weather {
        Some(list) => list,
        None => {
            return None;
        },
    };
    let ghost whole = list@;
    let mut texts: Vec<String> = Vec::new();
    for w in it: list
        invariant
            it.seq() == whole,
            views(texts@) == phrases(whole.take(it.index() as int)),
    {
        let ghost n = it.index() as int;
        let ghost before = texts@;
        assert(whole.take(n + 1).drop_last() == whole.take(n));
        if let Some(text) = drop_blank(w.raw_string) {
            texts.push(text);
            assert(views(texts@) =~= views(before).push(text@));
        }
    }
    assert(whole.take(whole.len() as int) == whole);
    assert(views(texts@).len() == texts@.len());
    if texts.len() == 0 {
        None
    } else {
        Some(join(&texts, " "))
    }
}

/// The layers that have an amount, their bases in metres.
pub open spec fn layers_of(layers: Seq<Layer>) -> Seq<CloudLayer>
    decreases layers.len(),
{
    if layers.len() == 0 {
        Seq::empty()
    } else {
        let layer = layers.last();
        match layer.amount {
            Some(cover) => layers_of(layers.drop_last()).push(
                CloudLayer { cover, base_m: measured(layer.base, Dimension::Height, 0) },
            ),
            None => layers_of(layers.drop_last()),
        }
    }
}

/// The layers of clouds that may be missing.
pub open spec fn sky_of(layers: Option<Vec<Layer>>) -> Seq<CloudLayer> {
    match layers {
        Some(layers) => layers_of(layers@),
        None => Seq::empty(),
    }
}

fn sky(layers: Option<Vec<Layer>>) -> (r: Vec<CloudLayer>)
    ensures
        r@ == sky_of(layers),
        forall|i: int|
            0 <= i < r@.len() ==> given_in((#[trigger] r@[i]).base_m, Unit::Metres),
{
    let mut r: Vec<CloudLayer> = Vec::new();
    if let Some(layers) = layers {
        let ghost whole = layers@;
        for layer in it: layers
            invariant
                it.seq() == whole,
                r@ == layers_of(whole.take(it.index() as int)),
                forall|i: int|
                    0 <= i < r@.len() ==> given_in((#[trigger] r@[i]).base_m, Unit::Metres),
        {
            let ghost n = it.index() as int;
            assert(whole.take(n + 1).drop_last() == whole.take(n));
            let base_m = measure(&layer.base, Dimension::Height, 0);
            if let Some(cover) = layer.amount {
                r.push(CloudLayer { cover, base_m });
            }
        }
        assert(whole.take(whole.len() as int) == whole);
    }
    r
}

impl Props {
    /// When the station observed.
    pub open spec fn valid_time(self) -> Option<Time> {
        match self.timestamp {
            Some(text) => instant(trim(text@)),
            None => None,
        }
    }

    /// The observation that the entry makes for a station.
    pub open spec fn reports(self, station: Seq<char>, o: Observation) -> bool {
        &&& o.station@ == station
        &&& Some(o.time) == self.valid_time()
        &&& o.received is None
        &&& o.kind is Unknown
        &&& o.air_temp_c == measured(self.temperature, Dimension::Temperature, 1)
        &&& o.dew_point_c == measured(self.dewpoint, Dimension::Temperature, 1)
        &&& o.in_both_scales()
        &&& o.relative_humidity_pct == humidity_of(
            measured(self.relative_humidity, Dimension::Plain, 0),
            o.air_temp_c,
            o.dew_point_c,
        )
        &&& o.wind_direction_deg == bearing_of(plain(self.wind_direction))
        &&& !o.wind_variable
        &&& o.wind_speed_ms == measured(self.wind_speed, Dimension::Speed, 1)
        &&& o.wind_gust_ms == measured(self.wind_gust, Dimension::Speed, 1)
        &&& o.visibility_km == measured(self.visibility, Dimension::Distance, 1)
        &&& o.altimeter_hpa == measured(self.barometric_pressure, Dimension::Pressure, 1)
        &&& o.sea_level_pressure_hpa == measured(self.sea_level_pressure, Dimension::Pressure, 1)
        &&& told(o.weather) == weather_of(self.present_weather)
        &&& o.clouds@ == sky_of(self.cloud_layers)
        &&& o.precip_1h_mm == measured(self.precipitation_last_hour, Dimension::Depth, 2)
        &&& o.precip_3h_mm == measured(self.precipitation_last3_hours, Dimension::Depth, 2)
        &&& o.precip_6h_mm == measured(self.precipitation_last6_hours, Dimension::Depth, 2)
        &&& o.precip_24h_mm is None
        &&& o.snow_depth_cm is None
        &&& o.raw == unless_blank(self.raw_message)
    }

    /// The observation that the entry makes, unless it says no time.
    pub fn into_observation(self, station: &str) -> (r: Option<Observation>)
        ensures
            match r {
                Some(o) => self.reports(station@, o) && o.sound(),
                None => self.valid_time() is None,
            },
    {
        let parsed = match &self.timestamp {
            Some(text) => parse_time(text.as_str()),
            None => None,
        };
        let time = match parsed {
            Some(time) => time,
            None => {
                return None;
            },
        };
        // NWS drops the METAR/SPECI type word, so scheduled and special reports
        // cannot be told apart here; the cadence inference tolerates a few extras.
        let mut o = Observation::new(station.to_owned(), time);
        o.set_air_temp_c(measure(&self.temperature, Dimension::Temperature, 1));
        o.set_dew_point_c(measure(&self.dewpoint, Dimension::Temperature, 1));
        o.relative_humidity_pct =
        humidity(
            measure(&self.relative_humidity, Dimension::Plain, 0),
            &o.air_temp_c,
            &o.dew_point_c,
        );
        o.wind_direction_deg =
        bearing(
            match &self.wind_direction {
                Some(q) => match q.value() {
                    Some((reading, _)) => Some(reading),
                    None => None,
                },
                None => None,
            },
        );
        o.wind_speed_ms = measure(&self.wind_speed, Dimension::Speed, 1);
        o.wind_gust_ms = measure(&self.wind_gust, Dimension::Speed, 1);
        o.visibility_km = measure(&self.visibility, Dimension::Distance, 1);
        o.altimeter_hpa = measure(&self.barometric_pressure, Dimension::Pressure, 1);
        o.sea_level_pressure_hpa = measure(&self.sea_level_pressure, Dimension::Pressure, 1);
        o.precip_1h_mm = measure(&self.precipitation_last_hour, Dimension::Depth, 2);
        o.precip_3h_mm = measure(&self.precipitation_last3_hours, Dimension::Depth, 2);
        o.precip_6h_mm = measure(&self.precipitation_last6_hours, Dimension::Depth, 2);
        o.weather = weather_line(self.present_weather);
        o.clouds = sky(self.cloud_layers);
        o.raw = drop_blank(self.raw_message);
        Some(o)
    }
}

/// The entries that say when they were made.
pub open spec fn timed(features: Seq<Feature>) -> Seq<Feature>
    decreases features.len(),
{
    if features.len() == 0 {
        Seq::empty()
    } else if features.last().properties.valid_time() is Some {
        timed(features.drop_last()).push(features.last())
    } else {
        timed(features.drop_last())
    }
}

/// The rows are what the entries make for a station, one for one.
pub open spec fn rows_report(
    station: Seq<char>,
    features: Seq<Feature>,
    rows: Seq<Observation>,
) -> bool {
    features.len() == rows.len() && forall|i: int|
        0 <= i < rows.len() ==> (#[trigger] features[i]).properties.reports(
            station,
            #[trigger] rows[i],
        )
}

/// The batch holds the rows of the entries with a time, in order of time, and
/// says nothing of the station.
pub open spec fn collected(station: Seq<char>, features: Seq<Feature>, batch: Batch) -> bool {
    &&& batch.info is None
    &&& exists|rows: Seq<Observation>| #[trigger]
        rows_report(station, timed(features), rows) && batch.rows@ == in_order(rows)
}

/// Collects the rows of a station.
pub fn collect(station: &str, collection: Collection) -> (r: Batch)
    ensures
        collected(station@, collection.features@, r),
        r.sound(),
{
    let ghost whole = collection.features@;
    let mut rows: Vec<Observation> = Vec::new();
    for feature in it: collection.features
        invariant
            it.seq() == whole,
            rows_report(station@, timed(whole.take(it.index() as int)), rows@),
            forall|i: int| 0 <= i < rows@.len() ==> (#[trigger] rows@[i]).sound(),
    {
        let ghost n = it.index() as int;
        assert(whole.take(n + 1).drop_last() == whole.take(n));
        assert(whole.take(n + 1).last() == feature);
        if let Some(o) = feature.properties.into_observation(station) {
            rows.push(o);
        }
    }
    assert(whole.take(whole.len() as int) == whole);
    proof {
        crate::model::lemma_sorting_keeps_soundness(rows@);
        crate::order::law_sorting_ranks(rows@);
    }
    Batch { info: None, rows: sort(rows) }
}

/// What [`parse_observations`] makes of a text.
pub open spec fn parses_rows(station: Seq<char>, body: Seq<char>, r: Result<Batch, Fault>) -> bool {
    let bytes = encode_utf8(body);
    match (text_wrong::<Collection>(bytes), r) {
        (None, Ok(batch)) => batch.sound() && exists|collection: Collection| #[trigger]
            collection.says(bytes, 0) && collected(station, collection.features@, batch),
        (Some(why), Err(fault)) => says(fault, "decoding NWS observations: "@ + why),
        _ => false,
    }
}

/// Every row that is read is told to be of the station.
pub proof fn law_the_rows_are_of_the_station(station: Seq<char>, body: Seq<char>, batch: Batch)
    requires
        parses_rows(station, body, Ok::<Batch, Fault>(batch)),
    ensures
        batch.is_of(station),
{
    let bytes = encode_utf8(body);
    let collection = choose|collection: Collection| #[trigger]
        collection.says(bytes, 0) && collected(station, collection.features@, batch);
    let entries = timed(collection.features@);
    let rows = choose|rows: Seq<Observation>| #[trigger]
        rows_report(station, entries, rows) && batch.rows@ == in_order(rows);
    assert forall|i: int| 0 <= i < batch.rows@.len() implies lower(
        (#[trigger] batch.rows@[i]).station@,
    ) == lower(station) by {
        assert(in_order(rows).contains(batch.rows@[i]));
        crate::order::lemma_same_members(rows, batch.rows@[i]);
        let k = choose|k: int| 0 <= k < rows.len() && rows[k] == batch.rows@[i];
        assert(entries[k].properties.reports(station, rows[k]));
    }
}

/// Reads a list of observations of `station`.
pub fn parse_observations(station: &str, body: &str) -> (r: Result<Batch, Fault>)
    ensures
        parses_rows(station@, body@, r),
{
    match read_all::<Collection>(body.as_bytes()) {
        Ok(collection) => Ok(collect(station, collection)),
        Err(why) => Err(fault("decoding NWS observations: ", why.as_str())),
    }
}

impl StationDoc {
    /// The coordinate at a position, if it is given.
    pub open spec fn coordinate(self, i: int) -> Option<Reading> {
        match self.geometry {
            Some(Geometry { coordinates: Some(list) }) if i < list@.len() => Some(list@[i]),
            _ => None,
        }
    }

    /// What the document says of a station; without an identifier it is the
    /// station that was asked for.
    pub open spec fn describes(self, id: Seq<char>, info: StationInfo) -> bool {
        &&& info.id@ == match self.properties.id {
            Some(own) => own@,
            None => id,
        }
        &&& info.name == self.properties.name
        &&& info.lat == unconverted(self.coordinate(1))
        &&& info.lon == unconverted(self.coordinate(0))
        &&& info.elevation_m == measured(self.properties.elevation, Dimension::Height, 1)
    }

    fn coordinate_at(&self, i: usize) -> (r: Option<Reading>)
        ensures
            r == self.coordinate(i as int),
    {
        match &self.geometry {
            Some(g) => match &g.coordinates {
                Some(list) => if i < list.len() {
                    Some(list[i].clone())
                } else {
                    None
                },
                None => None,
            },
            None => None,
        }
    }

    /// What the document says of a station.
    pub fn into_info(self, id: &str) -> (r: StationInfo)
        ensures
            self.describes(id@, r),
            r.normalized(),
    {
        let lat = keep(self.coordinate_at(1));
        let lon = keep(self.coordinate_at(0));
        let elevation_m = measure(&self.properties.elevation, Dimension::Height, 1);
        StationInfo {
            id: match self.properties.id {
                Some(own) => own,
                None => id.to_owned(),
            },
            name: self.properties.name,
            lat,
            lon,
            elevation_m,
        }
    }
}

/// What [`parse_station`] makes of a text.
pub open spec fn parses_station(
    id: Seq<char>,
    body: Seq<char>,
    r: Result<StationInfo, Fault>,
) -> bool {
    let bytes = encode_utf8(body);
    match (text_wrong::<StationDoc>(bytes), r) {
        (None, Ok(info)) => info.normalized() && exists|doc: StationDoc| #[trigger]
            doc.says(bytes, 0) && doc.describes(id, info),
        (Some(why), Err(fault)) => says(fault, "decoding NWS station: "@ + why),
        _ => false,
    }
}

/// Reads what the service says of a station.
pub fn parse_station(id: &str, body: &str) -> (r: Result<StationInfo, Fault>)
    ensures
        parses_station(id@, body@, r),
{
    match read_all::<StationDoc>(body.as_bytes()) {
        Ok(doc) => Ok(doc.into_info(id)),
        Err(why) => Err(fault("decoding NWS station: ", why.as_str())),
    }
}

/// The NWS API, with what it said of the stations asked for so far.
pub struct NwsSource {
    stations: StringHashMap<StationInfo>,
}

impl View for NwsSource {
    type V = Map<Seq<char>, StationInfo>;

    closed spec fn view(&self) -> Map<Seq<char>, StationInfo> {
        self.stations@
    }
}

impl NwsSource {
    /// Seconds between useful polls. Upstream caches observation lists for
    /// about two minutes, so polling more often than once a minute cannot
    /// return anything new.
    pub const MIN_POLL_SECONDS: u64 = 60;

    /// The service, with no station known yet.
    pub fn new() -> (r: NwsSource)
        ensures
            r@ == Map::<Seq<char>, StationInfo>::empty(),
    {
        NwsSource { stations: StringHashMap::new() }
    }

    /// What is known of a station.
    pub fn station_info(&self, id: &str) -> (r: Option<StationInfo>)
        ensures
            r == if self@.contains_key(id@) {
                Some(self@[id@])
            } else {
                None
            },
    {
        match self.stations.get(id) {
            Some(info) => Some(info.clone()),
            None => None,
        }
    }

    /// Keeps what the service said of a station.
    pub fn remember(&mut self, id: &str, info: StationInfo)
        ensures
            final(self)@ == old(self)@.insert(id@, info),
    {
        self.stations.insert(id.to_owned(), info);
    }

    /// Where a station is described.
    pub open spec fn station_address(id: Seq<char>) -> Seq<char> {
        "https://api.weather.gov/stations/"@ + id
    }

    /// Where a station is described.
    pub fn station_url(id: &str) -> (r: String)
        ensures
            r@ == Self::station_address(id@),
    {
        let mut url = String::new();
        url.append("https://api.weather.gov/stations/");
        url.append(id);
        assert(url@ =~= Self::station_address(id@));
        url
    }

    /// The start of the trailing window, to the minute. A window that no shift
    /// can hold counts for nothing.
    pub open spec fn start(window: Span, now: Time) -> Time {
        minute_start(moved_earlier(now, window))
    }

    /// Where the rows of a station since `start` are found.
    pub open spec fn rows_address(id: Seq<char>, start: Time) -> Seq<char> {
        "https://api.weather.gov/stations/"@ + id + "/observations?start="@ + utc_text(
            start.secs,
            start.nanos,
            "%Y-%m-%dT%H:%M:%SZ"@,
        ) + "&limit=500"@
    }

    /// What [`NwsSource::rows_url`] gives.
    pub open spec fn tells_rows_url(
        id: Seq<char>,
        window: Span,
        now: Time,
        r: Result<String, Fault>,
    ) -> bool {
        match r {
            Ok(url) => i64::MIN <= moved_earlier(now, window).ns() <= i64::MAX && url@
                == Self::rows_address(id, Self::start(window, now)),
            Err(fault) => !(i64::MIN <= moved_earlier(now, window).ns() <= i64::MAX) && says(
                fault,
                "truncating start time: timestamp exceeds num_nanoseconds limit"@,
            ),
        }
    }

    /// Where the rows of a station within the trailing `window` are found.
    pub fn rows_url(id: &str, window: Span, now: Time) -> (r: Result<String, Fault>)
        requires
            window.wf(),
            now.wf(),
            can_be_earlier(now, window),
        ensures
            Self::tells_rows_url(id@, window, now, r),
    {
        let begin = crate::schedule::sub(now, window);
        match truncate_to_minute(begin) {
            Ok(start) => {
                let mut url = String::new();
                url.append("https://api.weather.gov/stations/");
                url.append(id);
                url.append("/observations?start=");
                url.append(format_utc(start, "%Y-%m-%dT%H:%M:%SZ").as_str());
                url.append("&limit=500");
                assert(url@ =~= Self::rows_address(id@, start));
                Ok(url)
            },
            Err(why) => {
                let r = fault("truncating start time: ", why.as_str());
                proof {
                    reveal_strlit("truncating start time: ");
                    reveal_strlit("timestamp exceeds num_nanoseconds limit");
                    reveal_strlit("truncating start time: timestamp exceeds num_nanoseconds limit");
                    assert("truncating start time: "@ + "timestamp exceeds num_nanoseconds limit"@
                        =~= "truncating start time: timestamp exceeds num_nanoseconds limit"@);
                }
                Err(r)
            },
        }
    }
}

/// With a window of whole minutes, requests within one minute share an
/// address, and each new minute starts from another instant.
pub proof fn law_requests_within_a_minute_share_an_address(
    id: Seq<char>,
    window: Span,
    a: Time,
    b: Time,
)
    requires
        window.wf(),
        window.nanos == 0,
        window.secs % 60 == 0,
        a.wf(),
        b.wf(),
        !a.in_leap_second(),
        !b.in_leap_second(),
        can_be_earlier(a, window),
        can_be_earlier(b, window),
    ensures
        a.secs as int / 60 == b.secs as int / 60 ==> NwsSource::rows_address(
            id,
            NwsSource::start(window, a),
        ) == NwsSource::rows_address(id, NwsSource::start(window, b)),
        a.secs as int / 60 != b.secs as int / 60 ==> NwsSource::start(window, a)
            != NwsSource::start(window, b),
{
    lemma_start(window, a);
    lemma_start(window, b);
}

/// The start of the window is the start of the minute, less the window.
proof fn lemma_start(window: Span, now: Time)
    requires
        window.wf(),
        window.nanos == 0,
        window.secs % 60 == 0,
        now.wf(),
        !now.in_leap_second(),
        can_be_earlier(now, window),
    ensures
        NwsSource::start(window, now).nanos == 0,
        NwsSource::start(window, now).secs == now.secs as int / 60 * 60 - if window.ns()
            <= crate::time::longest_shift() {
            window.secs as int
        } else {
            0
        },
{
    let shift: int = if window.ns() <= crate::time::longest_shift() {
        window.secs as int
    } else {
        0
    };
    let begin = moved_earlier(now, window);
    lemma_seconds(now.secs - shift, now.nanos as int);
    assert(begin.secs == now.secs - shift && begin.nanos == now.nanos);
    lemma_minute(begin.secs as int, begin.nanos as int);
    lemma_seconds(begin.secs as int / 60 * 60, 0);
    lemma_seconds(begin.secs as int % 60, begin.nanos as int);
    assert((now.secs - shift) / 60 * 60 == now.secs as int / 60 * 60 - shift);
}

/// The parts of an instant, from its nanoseconds.
proof fn lemma_seconds(s: int, n: int)
    requires
        0 <= n < 1_000_000_000,
    ensures
        (s * 1_000_000_000 + n) / 1_000_000_000 == s,
        (s * 1_000_000_000 + n) % 1_000_000_000 == n,
{
}

/// What an instant is past the minute.
proof fn lemma_minute(s: int, n: int)
    requires
        0 <= n < 1_000_000_000,
    ensures
        (s * 1_000_000_000 + n) % 60_000_000_000 == (s % 60) * 1_000_000_000 + n,
{
    let q = s / 60;
    let r = s % 60;
    assert(s * 1_000_000_000 + n == q * 60_000_000_000 + (r * 1_000_000_000 + n));
}

} // verus!
