//! What an observation of the NWS API becomes, field by field.

use vstd::prelude::*;

use crate::laws::awc::follows;
use crate::model::{Humidity, Measure, Observation, Reading, Scale, StationInfo};
use crate::record::{needed_says, option_says, Readable, Record};
use crate::source::nws::{
    layers_of, phrases, Collection, Feature, Geometry, Layer, Props, Quantity, StationDoc,
    StationProps, Weather,
};
use crate::text::{joined, trim, white_space};
use crate::time::rfc3339;

verus! {

/// The reading of a quantity: none where there is no value, or where quality
/// control marks it with an X.
pub open spec fn reading_of(q: Option<Quantity>) -> Option<Reading> {
    match q {
        Some(q) => match (q.quality_control, q.value) {
            (Some(flag), Some(_)) if flag@ == "X"@ => None,
            (_, value) => value,
        },
        None => None,
    }
}

/// The unit code of a quantity.
pub open spec fn unit_in(q: Option<Quantity>, code: Seq<char>) -> bool {
    q matches Some(q) && q.unit_code matches Some(unit) && unit@ == code
}

/// A value is the reading of a quantity, rounded to so many decimals.
pub open spec fn takes(m: Option<Measure>, q: Option<Quantity>, places: u8) -> bool {
    &&& m is Some <==> reading_of(q) is Some
    &&& m matches Some(m) ==> Some(m.reading) == reading_of(q) && m.places == Some(places)
}

/// A quantity becomes degrees Celsius by its unit code; one in another unit is left as
/// it was sent.
pub open spec fn becomes_celsius(m: Option<Measure>, q: Option<Quantity>, places: u8) -> bool {
    &&& takes(m, q, places)
    &&& m matches Some(m) ==> {
        &&& unit_in(q, "wmoUnit:degF"@) ==> m.scale == Scale::FahrenheitToCelsius
        &&& unit_in(q, "wmoUnit:K"@) ==> m.scale == Scale::KelvinToCelsius
        &&& !unit_in(q, "wmoUnit:degF"@) && !unit_in(q, "wmoUnit:K"@) ==> m.scale == Scale::AsIs
    }
}

/// A quantity becomes metres per second by its unit code; one in another unit is left as
/// it was sent.
pub open spec fn becomes_speed(m: Option<Measure>, q: Option<Quantity>, places: u8) -> bool {
    &&& takes(m, q, places)
    &&& m matches Some(m) ==> {
        &&& unit_in(q, "wmoUnit:km_h-1"@) ==> m.scale == Scale::KilometresPerHourToMs
        &&& unit_in(q, "wmoUnit:kn"@) ==> m.scale == Scale::KnotsToMs
        &&& unit_in(q, "wmoUnit:kt"@) ==> m.scale == Scale::KnotsToMs
        &&& unit_in(q, "wmoUnit:mi_h-1"@) ==> m.scale == Scale::MilesPerHourToMs
        &&& !unit_in(q, "wmoUnit:km_h-1"@) && !unit_in(q, "wmoUnit:kn"@) && !unit_in(
            q,
            "wmoUnit:kt"@,
        ) && !unit_in(q, "wmoUnit:mi_h-1"@) ==> m.scale == Scale::AsIs
    }
}

/// A quantity becomes hectopascals by its unit code; one in another unit is left as
/// it was sent.
pub open spec fn becomes_pressure(m: Option<Measure>, q: Option<Quantity>, places: u8) -> bool {
    &&& takes(m, q, places)
    &&& m matches Some(m) ==> {
        &&& unit_in(q, "wmoUnit:Pa"@) ==> m.scale == Scale::PascalsToHpa
        &&& !unit_in(q, "wmoUnit:Pa"@) ==> m.scale == Scale::AsIs
    }
}

/// A quantity becomes kilometres by its unit code; one in another unit is left as
/// it was sent.
pub open spec fn becomes_distance(m: Option<Measure>, q: Option<Quantity>, places: u8) -> bool {
    &&& takes(m, q, places)
    &&& m matches Some(m) ==> {
        &&& unit_in(q, "wmoUnit:m"@) ==> m.scale == Scale::MetresToKm
        &&& unit_in(q, "wmoUnit:mi"@) ==> m.scale == Scale::StatuteMilesToKm
        &&& !unit_in(q, "wmoUnit:m"@) && !unit_in(q, "wmoUnit:mi"@) ==> m.scale == Scale::AsIs
    }
}

/// A quantity becomes metres by its unit code; one in another unit is left as
/// it was sent.
pub open spec fn becomes_height(m: Option<Measure>, q: Option<Quantity>, places: u8) -> bool {
    &&& takes(m, q, places)
    &&& m matches Some(m) ==> {
        &&& unit_in(q, "wmoUnit:ft"@) ==> m.scale == Scale::FeetToM
        &&& unit_in(q, "wmoUnit:km"@) ==> m.scale == Scale::KilometresToM
        &&& !unit_in(q, "wmoUnit:ft"@) && !unit_in(q, "wmoUnit:km"@) ==> m.scale == Scale::AsIs
    }
}

/// A quantity becomes millimetres by its unit code; one in another unit is left as
/// it was sent.
pub open spec fn becomes_depth(m: Option<Measure>, q: Option<Quantity>, places: u8) -> bool {
    &&& takes(m, q, places)
    &&& m matches Some(m) ==> {
        &&& unit_in(q, "wmoUnit:m"@) ==> m.scale == Scale::MetresToMm
        &&& unit_in(q, "wmoUnit:in"@) ==> m.scale == Scale::InchesToMm
        &&& !unit_in(q, "wmoUnit:m"@) && !unit_in(q, "wmoUnit:in"@) ==> m.scale == Scale::AsIs
    }
}

/// The unit codes are told apart.
proof fn lemma_codes()
    ensures
        "wmoUnit:degF"@ != "wmoUnit:K"@,
        "wmoUnit:ft"@ != "wmoUnit:km"@,
        "wmoUnit:km_h-1"@ != "wmoUnit:kn"@,
        "wmoUnit:km_h-1"@ != "wmoUnit:kt"@,
        "wmoUnit:km_h-1"@ != "wmoUnit:mi_h-1"@,
        "wmoUnit:kn"@ != "wmoUnit:mi_h-1"@,
        "wmoUnit:kt"@ != "wmoUnit:mi_h-1"@,
        "wmoUnit:m"@ != "wmoUnit:in"@,
        "wmoUnit:m"@ != "wmoUnit:mi"@,
        "X"@.len() == 1,
        ""@.len() == 0,
        "wmoUnit:K"@.len() == 9,
        "wmoUnit:Pa"@.len() == 10,
        "wmoUnit:degF"@.len() == 12,
        "wmoUnit:ft"@.len() == 10,
        "wmoUnit:in"@.len() == 10,
        "wmoUnit:km"@.len() == 10,
        "wmoUnit:km_h-1"@.len() == 14,
        "wmoUnit:kn"@.len() == 10,
        "wmoUnit:kt"@.len() == 10,
        "wmoUnit:m"@.len() == 9,
        "wmoUnit:mi"@.len() == 10,
        "wmoUnit:mi_h-1"@.len() == 14,
{
    reveal_strlit("X");
    reveal_strlit("");
    reveal_strlit("wmoUnit:K");
    reveal_strlit("wmoUnit:Pa");
    reveal_strlit("wmoUnit:degF");
    reveal_strlit("wmoUnit:ft");
    reveal_strlit("wmoUnit:in");
    reveal_strlit("wmoUnit:km");
    reveal_strlit("wmoUnit:km_h-1");
    reveal_strlit("wmoUnit:kn");
    reveal_strlit("wmoUnit:kt");
    reveal_strlit("wmoUnit:m");
    reveal_strlit("wmoUnit:mi");
    reveal_strlit("wmoUnit:mi_h-1");
    assert("wmoUnit:degF"@.len() == 12 && "wmoUnit:K"@.len() == 9);
    assert("wmoUnit:ft"@[8] == 'f' && "wmoUnit:km"@[8] == 'k');
    assert("wmoUnit:km_h-1"@.len() == 14 && "wmoUnit:kn"@.len() == 10);
    assert("wmoUnit:km_h-1"@.len() == 14 && "wmoUnit:kt"@.len() == 10);
    assert("wmoUnit:km_h-1"@[8] == 'k' && "wmoUnit:mi_h-1"@[8] == 'm');
    assert("wmoUnit:kn"@.len() == 10 && "wmoUnit:mi_h-1"@.len() == 14);
    assert("wmoUnit:kt"@.len() == 10 && "wmoUnit:mi_h-1"@.len() == 14);
    assert("wmoUnit:m"@.len() == 9 && "wmoUnit:in"@.len() == 10);
    assert("wmoUnit:m"@.len() == 9 && "wmoUnit:mi"@.len() == 10);
}

/// Every value of a row is the one that the entry gives for it, by its own unit
/// code and to its own number of decimals, and none that quality control
/// rejected.
pub proof fn law_an_entry_gives_its_own_values(e: Props, station: Seq<char>, o: Observation)
    requires
        e.reports(station, o),
    ensures
        becomes_celsius(o.air_temp_c, e.temperature, 1),
        becomes_celsius(o.dew_point_c, e.dewpoint, 1),
        becomes_speed(o.wind_speed_ms, e.wind_speed, 1),
        becomes_speed(o.wind_gust_ms, e.wind_gust, 1),
        becomes_distance(o.visibility_km, e.visibility, 1),
        becomes_pressure(o.altimeter_hpa, e.barometric_pressure, 1),
        becomes_pressure(o.sea_level_pressure_hpa, e.sea_level_pressure, 1),
        becomes_depth(o.precip_1h_mm, e.precipitation_last_hour, 2),
        becomes_depth(o.precip_3h_mm, e.precipitation_last3_hours, 2),
        becomes_depth(o.precip_6h_mm, e.precipitation_last6_hours, 2),
        o.precip_24h_mm is None,
        o.snow_depth_cm is None,
        o.station@ == station,
        o.kind is Unknown,
        o.received is None,
        o.air_temp_f is Some <==> o.air_temp_c is Some,
        o.air_temp_f matches Some(f) ==> Some(f.celsius) == o.air_temp_c,
        o.dew_point_f is Some <==> o.dew_point_c is Some,
        o.dew_point_f matches Some(f) ==> Some(f.celsius) == o.dew_point_c,
{
    lemma_codes();
}

/// The same quantity gives the same value wherever it stands for the same kind
/// of thing: gust and speed, temperature and dew point, the two pressures, and
/// the three depths, in one row or in two.
pub proof fn law_like_quantities_are_treated_alike(
    a: Props,
    b: Props,
    s: Seq<char>,
    t: Seq<char>,
    o: Observation,
    p: Observation,
)
    requires
        a.reports(s, o),
        b.reports(t, p),
    ensures
        a.wind_gust == b.wind_speed ==> o.wind_gust_ms == p.wind_speed_ms,
        a.wind_gust == b.wind_gust ==> o.wind_gust_ms == p.wind_gust_ms,
        a.wind_speed == b.wind_speed ==> o.wind_speed_ms == p.wind_speed_ms,
        a.temperature == b.dewpoint ==> o.air_temp_c == p.dew_point_c,
        a.temperature == b.temperature ==> o.air_temp_c == p.air_temp_c,
        a.dewpoint == b.dewpoint ==> o.dew_point_c == p.dew_point_c,
        a.visibility == b.visibility ==> o.visibility_km == p.visibility_km,
        a.barometric_pressure == b.sea_level_pressure ==> o.altimeter_hpa
            == p.sea_level_pressure_hpa,
        a.barometric_pressure == b.barometric_pressure ==> o.altimeter_hpa == p.altimeter_hpa,
        a.precipitation_last_hour == b.precipitation_last3_hours ==> o.precip_1h_mm
            == p.precip_3h_mm,
        a.precipitation_last3_hours == b.precipitation_last6_hours ==> o.precip_3h_mm
            == p.precip_6h_mm,
        a.precipitation_last6_hours == b.precipitation_last_hour ==> o.precip_6h_mm
            == p.precip_1h_mm,
{
}

/// The humidity is the one that is reported, to a whole percent; where none is,
/// it is worked out from the temperature and the dew point of the row.
pub proof fn law_the_humidity_of_an_entry(e: Props, station: Seq<char>, o: Observation)
    requires
        e.reports(station, o),
    ensures
        reading_of(e.relative_humidity) matches Some(x) ==> (
        o.relative_humidity_pct matches Some(Humidity::Reported(m)) && m.reading == x && m.scale
            == Scale::AsIs && m.places == Some(0u8)),
        reading_of(e.relative_humidity) is None ==> (o.relative_humidity_pct is Some <==> (
        o.air_temp_c is Some && o.dew_point_c is Some)),
        reading_of(e.relative_humidity) is None ==> (o.relative_humidity_pct matches Some(h) ==> (
        h matches Humidity::FromDewPoint { air, dew } && Some(air) == o.air_temp_c && Some(dew)
            == o.dew_point_c)),
{
    lemma_codes();
}

/// The direction of the wind is the number that is sent, unless quality control
/// rejected it; the wind is never said to vary.
pub proof fn law_an_entry_tells_where_the_wind_is_from(e: Props, station: Seq<char>, o: Observation)
    requires
        e.reports(station, o),
    ensures
        !o.wind_variable,
        o.wind_direction_deg is Some <==> reading_of(e.wind_direction) is Some,
        o.wind_direction_deg matches Some(b) ==> Some(b.reading) == reading_of(e.wind_direction),
{
    lemma_codes();
}

/// The time is the one that the timestamp says, without the white space around
/// it; and the raw message is kept unless it is blank.
pub proof fn law_an_entry_tells_its_time(e: Props, station: Seq<char>, o: Observation)
    requires
        e.reports(station, o),
    ensures
        e.timestamp matches Some(text) && rfc3339(trim(text@)) == Some((o.time.secs, o.time.nanos)),
        o.raw matches Some(w) ==> e.raw_message == Some(w),
        o.raw is None <==> (e.raw_message matches Some(w) ==> forall|k: int|
            0 <= k < w@.len() ==> white_space(#[trigger] w@[k])),
{
    if let Some(w) = e.raw_message {
        crate::laws::texts::law_blank_texts_count_as_none(w);
    }
}

/// Layers with an amount are kept one by one and in order, each with its own
/// base to a whole number of metres.
pub proof fn law_layers_with_an_amount_are_kept(layers: Seq<Layer>)
    requires
        forall|i: int| 0 <= i < layers.len() ==> (#[trigger] layers[i]).amount is Some,
    ensures
        layers_of(layers).len() == layers.len(),
        forall|i: int|
            0 <= i < layers.len() ==> Some((#[trigger] layers_of(layers)[i]).cover)
                == layers[i].amount && becomes_height(
                layers_of(layers)[i].base_m,
                layers[i].base,
                0,
            ),
    decreases layers.len(),
{
    lemma_codes();
    if layers.len() > 0 {
        let head = layers.drop_last();
        assert forall|i: int| 0 <= i < head.len() implies (#[trigger] head[i]).amount is Some by {
            assert(layers[i].amount is Some);
        }
        law_layers_with_an_amount_are_kept(head);
        assert(layers[layers.len() - 1].amount is Some);
        assert forall|i: int| 0 <= i < layers.len() implies Some(
            (#[trigger] layers_of(layers)[i]).cover,
        ) == layers[i].amount && becomes_height(
            layers_of(layers)[i].base_m,
            layers[i].base,
            0,
        ) by {
            if i < head.len() {
                assert(layers_of(head)[i] == layers_of(layers)[i]);
            }
        }
    }
}

/// A layer without an amount makes no difference, wherever it stands.
pub proof fn law_layers_without_an_amount_are_passed_over(a: Seq<Layer>, c: Layer, b: Seq<Layer>)
    requires
        c.amount is None,
    ensures
        layers_of(a.push(c) + b) == layers_of(a + b),
    decreases b.len(),
{
    if b.len() == 0 {
        assert(a.push(c) + b =~= a.push(c));
        assert(a + b =~= a);
        assert(a.push(c).drop_last() =~= a);
    } else {
        law_layers_without_an_amount_are_passed_over(a, c, b.drop_last());
        assert((a.push(c) + b).drop_last() =~= a.push(c) + b.drop_last());
        assert((a + b).drop_last() =~= a + b.drop_last());
    }
}

/// The weather is all phenomena that are no blank strings, in order, with a
/// blank between neighbours; without any there is none.
pub proof fn law_phenomena_make_one_line(e: Props, station: Seq<char>, o: Observation)
    requires
        e.reports(station, o),
    ensures
        e.present_weather is None ==> o.weather is None,
        e.present_weather matches Some(list) ==> match o.weather {
            Some(line) => phrases(list@).len() > 0 && line@ == joined(phrases(list@), " "@),
            None => phrases(list@).len() == 0,
        },
        e.cloud_layers is None ==> o.clouds@.len() == 0,
        e.cloud_layers matches Some(list) ==> o.clouds@ == layers_of(list@),
{
}

/// Behind other phenomena, one that says something is told as it was sent, and
/// one that says nothing is passed over.
pub proof fn law_phenomena_are_told_as_sent(list: Seq<Weather>, w: Weather)
    ensures
        phrases(Seq::empty()).len() == 0,
        w.raw_string is None ==> phrases(list.push(w)) == phrases(list),
        w.raw_string matches Some(text) ==> if forall|k: int|
            0 <= k < text@.len() ==> white_space(#[trigger] text@[k]) {
            phrases(list.push(w)) == phrases(list)
        } else {
            phrases(list.push(w)) == phrases(list).push(text@)
        },
{
    assert(list.push(w).drop_last() =~= list);
    if let Some(text) = w.raw_string {
        crate::laws::texts::law_blank_texts_count_as_none(text);
    }
}

/// What is told of a station: its own identifier or else the one asked for, its
/// name, the second coordinate as latitude and the first as longitude, and the
/// elevation to a tenth of a metre.
pub proof fn law_a_station_is_described(d: StationDoc, id: Seq<char>, info: StationInfo)
    requires
        d.describes(id, info),
    ensures
        d.properties.id matches Some(own) ==> info.id@ == own@,
        d.properties.id is None ==> info.id@ == id,
        info.name == d.properties.name,
        becomes_height(info.elevation_m, d.properties.elevation, 1),
        d.geometry is None ==> info.lat is None && info.lon is None,
        d.geometry matches Some(g) ==> match g.coordinates {
            None => info.lat is None && info.lon is None,
            Some(list) => {
                &&& list@.len() == 0 ==> info.lon is None
                &&& list@.len() <= 1 ==> info.lat is None
                &&& list@.len() > 0 ==> follows(info.lon, Some(list@[0]), Scale::AsIs, None)
                &&& list@.len() > 1 ==> follows(info.lat, Some(list@[1]), Scale::AsIs, None)
            },
        },
{
    lemma_codes();
}

/// A quantity is read by names: every field comes from the place of
/// the member of its own name, and there is no other field.
pub proof fn law_the_quantity_is_read_by_names(x: Quantity, text: Seq<u8>, places: Seq<Option<int>>)
    requires
        x.tells(text, places),
    ensures
        Quantity::names().len() == 3,
        Quantity::names()[0] == "unitCode"@ && option_says(x.unit_code, text, places[0]),
        Quantity::names()[1] == "value"@ && option_says(x.value, text, places[1]),
        Quantity::names()[2] == "qualityControl"@
            && option_says(x.quality_control, text, places[2]),
{
}

/// A layer is read by names: every field comes from the place of
/// the member of its own name, and there is no other field.
pub proof fn law_the_layer_is_read_by_names(x: Layer, text: Seq<u8>, places: Seq<Option<int>>)
    requires
        x.tells(text, places),
    ensures
        Layer::names().len() == 2,
        Layer::names()[0] == "base"@ && option_says(x.base, text, places[0]),
        Layer::names()[1] == "amount"@ && option_says(x.amount, text, places[1]),
{
}

/// A phenomenon is read by its name: every field comes from the place of
/// the member of its own name, and there is no other field.
pub proof fn law_the_phenomenon_is_read_by_names(
    x: Weather,
    text: Seq<u8>,
    places: Seq<Option<int>>,
)
    requires
        x.tells(text, places),
    ensures
        Weather::names().len() == 1,
        Weather::names()[0] == "rawString"@ && option_says(x.raw_string, text, places[0]),
{
}

/// An entry is read by names: every field comes from the place of
/// the member of its own name, and there is no other field.
pub proof fn law_the_entry_is_read_by_names(x: Props, text: Seq<u8>, places: Seq<Option<int>>)
    requires
        x.tells(text, places),
    ensures
        Props::names().len() == 16,
        Props::names()[0] == "timestamp"@ && option_says(x.timestamp, text, places[0]),
        Props::names()[1] == "rawMessage"@ && option_says(x.raw_message, text, places[1]),
        Props::names()[2] == "temperature"@ && option_says(x.temperature, text, places[2]),
        Props::names()[3] == "dewpoint"@ && option_says(x.dewpoint, text, places[3]),
        Props::names()[4] == "windDirection"@ && option_says(x.wind_direction, text, places[4]),
        Props::names()[5] == "windSpeed"@ && option_says(x.wind_speed, text, places[5]),
        Props::names()[6] == "windGust"@ && option_says(x.wind_gust, text, places[6]),
        Props::names()[7] == "barometricPressure"@
            && option_says(x.barometric_pressure, text, places[7]),
        Props::names()[8] == "seaLevelPressure"@
            && option_says(x.sea_level_pressure, text, places[8]),
        Props::names()[9] == "visibility"@ && option_says(x.visibility, text, places[9]),
        Props::names()[10] == "relativeHumidity"@
            && option_says(x.relative_humidity, text, places[10]),
        Props::names()[11] == "precipitationLastHour"@
            && option_says(x.precipitation_last_hour, text, places[11]),
        Props::names()[12] == "precipitationLast3Hours"@
            && option_says(x.precipitation_last3_hours, text, places[12]),
        Props::names()[13] == "precipitationLast6Hours"@
            && option_says(x.precipitation_last6_hours, text, places[13]),
        Props::names()[14] == "cloudLayers"@ && option_says(x.cloud_layers, text, places[14]),
        Props::names()[15] == "presentWeather"@ && option_says(x.present_weather, text, places[15]),
{
}

/// A geometry is read by its name: every field comes from the place of
/// the member of its own name, and there is no other field.
pub proof fn law_the_geometry_is_read_by_names(x: Geometry, text: Seq<u8>, places: Seq<Option<int>>)
    requires
        x.tells(text, places),
    ensures
        Geometry::names().len() == 1,
        Geometry::names()[0] == "coordinates"@ && option_says(x.coordinates, text, places[0]),
{
}

/// What is said of a station is read by names: every field comes from the place of
/// the member of its own name, and there is no other field.
pub proof fn law_the_station_text_is_read_by_names(
    x: StationProps,
    text: Seq<u8>,
    places: Seq<Option<int>>,
)
    requires
        x.tells(text, places),
    ensures
        StationProps::names().len() == 3,
        StationProps::names()[0] == "stationIdentifier"@ && option_says(x.id, text, places[0]),
        StationProps::names()[1] == "name"@ && option_says(x.name, text, places[1]),
        StationProps::names()[2] == "elevation"@ && option_says(x.elevation, text, places[2]),
{
}

/// A collection lists entries, an entry has properties, and what is said of a
/// station has properties and a geometry, each by its own name.
pub proof fn law_documents_are_read_by_names(
    c: Collection,
    f: Feature,
    d: StationDoc,
    text: Seq<u8>,
    places: Seq<Option<int>>,
)
    ensures
        Collection::names() == seq!["features"@],
        c.tells(text, places) ==> match places[0] {
            Some(i) => c.features.says(text, i),
            None => c.features@.len() == 0,
        },
        Feature::names() == seq!["properties"@],
        f.tells(text, places) ==> needed_says(f.properties, text, places[0]),
        Feature::needs(0),
        StationDoc::names() == seq!["properties"@, "geometry"@],
        d.tells(text, places) ==> needed_says(d.properties, text, places[0]) && option_says(
            d.geometry,
            text,
            places[1],
        ),
        StationDoc::needs(0),
        !StationDoc::needs(1),
{
}

} // verus!
