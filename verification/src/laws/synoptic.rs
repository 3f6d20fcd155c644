//! What a row of Synoptic Data becomes, column by column.

use vstd::prelude::*;

use crate::json::{told, under, Cell, Entry};
use crate::model::{Batch, Humidity, Measure, Observation, Reading, Scale, StationInfo};
use crate::numeral::is_numeral;
use crate::record::{as_table, needed_says, option_says, Readable, Record};
use crate::source::synoptic::{
    best_of, depth_to_cm_scale, detail, digested, distance_to_km_scale, length_to_m_scale,
    precip_to_mm_scale, pressure_to_hpa_scale, scales_for, speed_to_ms_scale, temp_to_c_scale,
    unit_of, Response, Station, Summary,
};
use crate::source::{says, Fault};
use crate::text::{lower, signed_decimal, trim, trim_start, upper, white_space};
use crate::time::rfc3339;

verus! {

/// The number in a cell: itself, or the text without the white space around it
/// where that spells one.
pub open spec fn number_in(cell: Option<Cell>, x: Option<Reading>) -> bool {
    match cell {
        Some(Cell::Number(bits)) => x == Some(Reading::Number(bits)),
        Some(Cell::Text(text)) => if is_numeral(trim(text@)) {
            x matches Some(Reading::Written(w)) && w@ == trim(text@)
        } else {
            x is None
        },
        _ => x is None,
    }
}

/// The reading of a value.
pub open spec fn reading_of(m: Option<Measure>) -> Option<Reading> {
    match m {
        Some(m) => Some(m.reading),
        None => None,
    }
}

/// A value is the number in a cell, rounded to so many decimals if any.
pub open spec fn takes(m: Option<Measure>, cell: Option<Cell>, places: Option<u8>) -> bool {
    number_in(cell, reading_of(m)) && (m matches Some(m) ==> m.places == places)
}

/// The unit of a group in lower case, or `otherwise` where the response does
/// not tell it.
pub open spec fn unit_told(
    units: Seq<Entry<String>>,
    group: Seq<char>,
    otherwise: Seq<char>,
) -> Seq<char> {
    match under(units, group) {
        Some(unit) => lower(unit@),
        None => otherwise,
    }
}

/// The conversion to degrees Celsius that a unit in lower case calls for; any other
/// unit is left as it was sent.
pub open spec fn celsius_by(unit: Seq<char>, scale: Scale) -> bool {
    &&& unit == "fahrenheit"@ ==> scale == Scale::FahrenheitToCelsius
    &&& unit == "f"@ ==> scale == Scale::FahrenheitToCelsius
    &&& unit == "kelvin"@ ==> scale == Scale::KelvinToCelsius
    &&& unit == "k"@ ==> scale == Scale::KelvinToCelsius
    &&& scale == Scale::AsIs || unit == "fahrenheit"@ || unit == "f"@ || unit == "kelvin"@
        || unit == "k"@
}

/// The conversion to metres per second that a unit in lower case calls for; any other
/// unit is left as it was sent.
pub open spec fn speed_by(unit: Seq<char>, scale: Scale) -> bool {
    &&& unit == "knots"@ ==> scale == Scale::KnotsToMs
    &&& unit == "kts"@ ==> scale == Scale::KnotsToMs
    &&& unit == "kt"@ ==> scale == Scale::KnotsToMs
    &&& unit == "mph"@ ==> scale == Scale::MilesPerHourToMs
    &&& unit == "miles/hour"@ ==> scale == Scale::MilesPerHourToMs
    &&& unit == "miles per hour"@ ==> scale == Scale::MilesPerHourToMs
    &&& unit == "km/h"@ ==> scale == Scale::KilometresPerHourToMs
    &&& unit == "kph"@ ==> scale == Scale::KilometresPerHourToMs
    &&& unit == "kilometers/hour"@ ==> scale == Scale::KilometresPerHourToMs
    &&& scale == Scale::AsIs || unit == "knots"@ || unit == "kts"@ || unit == "kt"@
        || unit == "mph"@ || unit == "miles/hour"@ || unit == "miles per hour"@
        || unit == "km/h"@ || unit == "kph"@ || unit == "kilometers/hour"@
}

/// The conversion to hectopascals that a unit in lower case calls for; any other
/// unit is left as it was sent.
pub open spec fn pressure_by(unit: Seq<char>, scale: Scale) -> bool {
    &&& unit == "pascals"@ ==> scale == Scale::PascalsToHpa
    &&& unit == "pa"@ ==> scale == Scale::PascalsToHpa
    &&& unit == "inches hg"@ ==> scale == Scale::InchesOfMercuryToHpa
    &&& unit == "inhg"@ ==> scale == Scale::InchesOfMercuryToHpa
    &&& unit == "inches mercury"@ ==> scale == Scale::InchesOfMercuryToHpa
    &&& unit == "inches of mercury"@ ==> scale == Scale::InchesOfMercuryToHpa
    &&& scale == Scale::AsIs || unit == "pascals"@ || unit == "pa"@ || unit == "inches hg"@
        || unit == "inhg"@ || unit == "inches mercury"@ || unit == "inches of mercury"@
}

/// The conversion to metres that a unit in lower case calls for; any other
/// unit is left as it was sent.
pub open spec fn height_by(unit: Seq<char>, scale: Scale) -> bool {
    &&& unit == "ft"@ ==> scale == Scale::FeetToM
    &&& unit == "feet"@ ==> scale == Scale::FeetToM
    &&& scale == Scale::AsIs || unit == "ft"@ || unit == "feet"@
}

/// The conversion to kilometres that a unit in lower case calls for; any other
/// unit is left as it was sent.
pub open spec fn distance_by(unit: Seq<char>, scale: Scale) -> bool {
    &&& unit == "statute miles"@ ==> scale == Scale::StatuteMilesToKm
    &&& unit == "miles"@ ==> scale == Scale::StatuteMilesToKm
    &&& unit == "mi"@ ==> scale == Scale::StatuteMilesToKm
    &&& unit == "meters"@ ==> scale == Scale::MetresToKm
    &&& unit == "m"@ ==> scale == Scale::MetresToKm
    &&& scale == Scale::AsIs || unit == "statute miles"@ || unit == "miles"@ || unit == "mi"@
        || unit == "meters"@ || unit == "m"@
}

/// The conversion to millimetres that a unit in lower case calls for; any other
/// unit is left as it was sent.
pub open spec fn rain_by(unit: Seq<char>, scale: Scale) -> bool {
    &&& unit == "inches"@ ==> scale == Scale::InchesToMm
    &&& unit == "in"@ ==> scale == Scale::InchesToMm
    &&& unit == "centimeters"@ ==> scale == Scale::CentimetresToMm
    &&& unit == "cm"@ ==> scale == Scale::CentimetresToMm
    &&& scale == Scale::AsIs || unit == "inches"@ || unit == "in"@ || unit == "centimeters"@
        || unit == "cm"@
}

/// The conversion to centimetres that a unit in lower case calls for; any other
/// unit is left as it was sent.
pub open spec fn snow_by(unit: Seq<char>, scale: Scale) -> bool {
    &&& unit == "inches"@ ==> scale == Scale::InchesToCm
    &&& unit == "in"@ ==> scale == Scale::InchesToCm
    &&& unit == "millimeters"@ ==> scale == Scale::MillimetresToCm
    &&& unit == "mm"@ ==> scale == Scale::MillimetresToCm
    &&& scale == Scale::AsIs || unit == "inches"@ || unit == "in"@ || unit == "millimeters"@
        || unit == "mm"@
}

proof fn lemma_celsius(unit: Seq<char>)
    ensures
        celsius_by(lower(unit), temp_to_c_scale(unit)),
{
    reveal_strlit("fahrenheit");
    reveal_strlit("f");
    reveal_strlit("kelvin");
    reveal_strlit("k");
    assert("fahrenheit"@.len() == 10 && "kelvin"@.len() == 6);
    assert("f"@.len() == 1 && "kelvin"@.len() == 6);
    assert("fahrenheit"@.len() == 10 && "k"@.len() == 1);
    assert("f"@[0] == 'f' && "k"@[0] == 'k');
}

proof fn lemma_speed(unit: Seq<char>)
    ensures
        speed_by(lower(unit), speed_to_ms_scale(unit)),
{
    reveal_strlit("knots");
    reveal_strlit("kts");
    reveal_strlit("kt");
    reveal_strlit("mph");
    reveal_strlit("miles/hour");
    reveal_strlit("miles per hour");
    reveal_strlit("km/h");
    reveal_strlit("kph");
    reveal_strlit("kilometers/hour");
    assert("knots"@.len() == 5 && "mph"@.len() == 3);
    assert("kts"@[0] == 'k' && "mph"@[0] == 'm');
    assert("kt"@.len() == 2 && "mph"@.len() == 3);
    assert("knots"@.len() == 5 && "miles/hour"@.len() == 10);
    assert("kts"@.len() == 3 && "miles/hour"@.len() == 10);
    assert("kt"@.len() == 2 && "miles/hour"@.len() == 10);
    assert("knots"@.len() == 5 && "miles per hour"@.len() == 14);
    assert("kts"@.len() == 3 && "miles per hour"@.len() == 14);
    assert("kt"@.len() == 2 && "miles per hour"@.len() == 14);
    assert("knots"@.len() == 5 && "km/h"@.len() == 4);
    assert("kts"@.len() == 3 && "km/h"@.len() == 4);
    assert("kt"@.len() == 2 && "km/h"@.len() == 4);
    assert("mph"@.len() == 3 && "km/h"@.len() == 4);
    assert("miles/hour"@.len() == 10 && "km/h"@.len() == 4);
    assert("miles per hour"@.len() == 14 && "km/h"@.len() == 4);
    assert("knots"@.len() == 5 && "kph"@.len() == 3);
    assert("kts"@[1] == 't' && "kph"@[1] == 'p');
    assert("kt"@.len() == 2 && "kph"@.len() == 3);
    assert("mph"@[0] == 'm' && "kph"@[0] == 'k');
    assert("miles/hour"@.len() == 10 && "kph"@.len() == 3);
    assert("miles per hour"@.len() == 14 && "kph"@.len() == 3);
    assert("knots"@.len() == 5 && "kilometers/hour"@.len() == 15);
    assert("kts"@.len() == 3 && "kilometers/hour"@.len() == 15);
    assert("kt"@.len() == 2 && "kilometers/hour"@.len() == 15);
    assert("mph"@.len() == 3 && "kilometers/hour"@.len() == 15);
    assert("miles/hour"@.len() == 10 && "kilometers/hour"@.len() == 15);
    assert("miles per hour"@.len() == 14 && "kilometers/hour"@.len() == 15);
}

proof fn lemma_pressure(unit: Seq<char>)
    ensures
        pressure_by(lower(unit), pressure_to_hpa_scale(unit)),
{
    reveal_strlit("pascals");
    reveal_strlit("pa");
    reveal_strlit("inches hg");
    reveal_strlit("inhg");
    reveal_strlit("inches mercury");
    reveal_strlit("inches of mercury");
    assert("pascals"@.len() == 7 && "inches hg"@.len() == 9);
    assert("pa"@.len() == 2 && "inches hg"@.len() == 9);
    assert("pascals"@.len() == 7 && "inhg"@.len() == 4);
    assert("pa"@.len() == 2 && "inhg"@.len() == 4);
    assert("pascals"@.len() == 7 && "inches mercury"@.len() == 14);
    assert("pa"@.len() == 2 && "inches mercury"@.len() == 14);
    assert("pascals"@.len() == 7 && "inches of mercury"@.len() == 17);
    assert("pa"@.len() == 2 && "inches of mercury"@.len() == 17);
}

proof fn lemma_height(unit: Seq<char>)
    ensures
        height_by(lower(unit), length_to_m_scale(unit)),
{
    reveal_strlit("ft");
    reveal_strlit("feet");
}

proof fn lemma_distance(unit: Seq<char>)
    ensures
        distance_by(lower(unit), distance_to_km_scale(unit)),
{
    reveal_strlit("statute miles");
    reveal_strlit("miles");
    reveal_strlit("mi");
    reveal_strlit("meters");
    reveal_strlit("m");
    assert("statute miles"@.len() == 13 && "meters"@.len() == 6);
    assert("miles"@.len() == 5 && "meters"@.len() == 6);
    assert("mi"@.len() == 2 && "meters"@.len() == 6);
    assert("statute miles"@.len() == 13 && "m"@.len() == 1);
    assert("miles"@.len() == 5 && "m"@.len() == 1);
    assert("mi"@.len() == 2 && "m"@.len() == 1);
}

proof fn lemma_rain(unit: Seq<char>)
    ensures
        rain_by(lower(unit), precip_to_mm_scale(unit)),
{
    reveal_strlit("inches");
    reveal_strlit("in");
    reveal_strlit("centimeters");
    reveal_strlit("cm");
    assert("inches"@.len() == 6 && "centimeters"@.len() == 11);
    assert("in"@.len() == 2 && "centimeters"@.len() == 11);
    assert("inches"@.len() == 6 && "cm"@.len() == 2);
    assert("in"@[0] == 'i' && "cm"@[0] == 'c');
}

proof fn lemma_snow(unit: Seq<char>)
    ensures
        snow_by(lower(unit), depth_to_cm_scale(unit)),
{
    reveal_strlit("inches");
    reveal_strlit("in");
    reveal_strlit("millimeters");
    reveal_strlit("mm");
    assert("inches"@.len() == 6 && "millimeters"@.len() == 11);
    assert("in"@.len() == 2 && "millimeters"@.len() == 11);
    assert("inches"@.len() == 6 && "mm"@.len() == 2);
    assert("in"@[0] == 'i' && "mm"@[0] == 'm');
}

/// The units that are taken where none is told, in lower case.
proof fn lemma_fallbacks()
    ensures
        lower("Celsius"@) == "celsius"@,
        lower("Millibars"@) == "millibars"@,
        lower("Millimeters"@) == "millimeters"@,
        lower("Pascals"@) == "pascals"@,
        lower("Statute miles"@) == "statute miles"@,
        lower("ft"@) == "ft"@,
        lower("m/s"@) == "m/s"@,
{
    reveal_strlit("Celsius");
    reveal_strlit("celsius");
    assert(lower("Celsius"@) =~= "celsius"@);
    reveal_strlit("Millibars");
    reveal_strlit("millibars");
    assert(lower("Millibars"@) =~= "millibars"@);
    reveal_strlit("Millimeters");
    reveal_strlit("millimeters");
    assert(lower("Millimeters"@) =~= "millimeters"@);
    reveal_strlit("Pascals");
    reveal_strlit("pascals");
    assert(lower("Pascals"@) =~= "pascals"@);
    reveal_strlit("Statute miles");
    reveal_strlit("statute miles");
    assert(lower("Statute miles"@) =~= "statute miles"@);
    reveal_strlit("ft");
    assert(lower("ft"@) =~= "ft"@);
    reveal_strlit("m/s");
    assert(lower("m/s"@) =~= "m/s"@);
}

/// Every value of a row is the number in the column of its own group, converted
/// by the unit of that group and of no other, to its own number of decimals.
pub proof fn law_a_row_gives_its_own_values(
    st: Station,
    units: Seq<Entry<String>>,
    i: int,
    o: Observation,
)
    requires
        st.reports(scales_for(units), i, o),
    ensures
        takes(o.air_temp_c, st.cell("air_temp"@, i), Some(1)),
        o.air_temp_c matches Some(m) ==> celsius_by(
            unit_told(units, "air_temp"@, "celsius"@),
            m.scale,
        ),
        takes(o.dew_point_c, st.cell("dew_point_temperature"@, i), Some(1)),
        o.dew_point_c matches Some(m) ==> celsius_by(
            unit_told(units, "dew_point_temperature"@, "celsius"@),
            m.scale,
        ),
        takes(o.wind_speed_ms, st.cell("wind_speed"@, i), Some(1)),
        o.wind_speed_ms matches Some(m) ==> speed_by(
            unit_told(units, "wind_speed"@, "m/s"@),
            m.scale,
        ),
        takes(o.wind_gust_ms, st.cell("wind_gust"@, i), Some(1)),
        o.wind_gust_ms matches Some(m) ==> speed_by(
            unit_told(units, "wind_gust"@, "m/s"@),
            m.scale,
        ),
        takes(o.visibility_km, st.cell("visibility"@, i), Some(1)),
        o.visibility_km matches Some(m) ==> distance_by(
            unit_told(units, "visibility"@, "statute miles"@),
            m.scale,
        ),
        takes(o.altimeter_hpa, st.cell("altimeter"@, i), Some(1)),
        o.altimeter_hpa matches Some(m) ==> pressure_by(
            unit_told(units, "altimeter"@, "pascals"@),
            m.scale,
        ),
        takes(o.sea_level_pressure_hpa, st.cell("sea_level_pressure"@, i), Some(1)),
        o.sea_level_pressure_hpa matches Some(m) ==> pressure_by(
            unit_told(units, "sea_level_pressure"@, "millibars"@),
            m.scale,
        ),
        takes(o.precip_1h_mm, st.cell("precip_accum_one_hour"@, i), Some(2)),
        o.precip_1h_mm matches Some(m) ==> rain_by(
            unit_told(units, "precip_accum_one_hour"@, "millimeters"@),
            m.scale,
        ),
        takes(o.precip_3h_mm, st.cell("precip_accum_three_hour"@, i), Some(2)),
        o.precip_3h_mm matches Some(m) ==> rain_by(
            unit_told(units, "precip_accum_three_hour"@, "millimeters"@),
            m.scale,
        ),
        takes(o.precip_6h_mm, st.cell("precip_accum_six_hour"@, i), Some(2)),
        o.precip_6h_mm matches Some(m) ==> rain_by(
            unit_told(units, "precip_accum_six_hour"@, "millimeters"@),
            m.scale,
        ),
        takes(o.precip_24h_mm, st.cell("precip_accum_24_hour"@, i), Some(2)),
        o.precip_24h_mm matches Some(m) ==> rain_by(
            unit_told(units, "precip_accum_24_hour"@, "millimeters"@),
            m.scale,
        ),
        takes(o.snow_depth_cm, st.cell("snow_depth"@, i), Some(1)),
        o.snow_depth_cm matches Some(m) ==> snow_by(
            unit_told(units, "snow_depth"@, "millimeters"@),
            m.scale,
        ),
        o.station@ == upper(st.stid@),
        o.received is None,
        !o.wind_variable,
        o.clouds@.len() == 0,
        o.air_temp_f is Some <==> o.air_temp_c is Some,
        o.air_temp_f matches Some(f) ==> Some(f.celsius) == o.air_temp_c,
        o.dew_point_f is Some <==> o.dew_point_c is Some,
        o.dew_point_f matches Some(f) ==> Some(f.celsius) == o.dew_point_c,
{
    lemma_fallbacks();
    lemma_celsius(unit_of(units, "air_temp"@, "Celsius"@));
    lemma_celsius(unit_of(units, "dew_point_temperature"@, "Celsius"@));
    lemma_speed(unit_of(units, "wind_speed"@, "m/s"@));
    lemma_speed(unit_of(units, "wind_gust"@, "m/s"@));
    lemma_distance(unit_of(units, "visibility"@, "Statute miles"@));
    lemma_pressure(unit_of(units, "altimeter"@, "Pascals"@));
    lemma_pressure(unit_of(units, "sea_level_pressure"@, "Millibars"@));
    lemma_rain(unit_of(units, "precip_accum_one_hour"@, "Millimeters"@));
    lemma_rain(unit_of(units, "precip_accum_three_hour"@, "Millimeters"@));
    lemma_rain(unit_of(units, "precip_accum_six_hour"@, "Millimeters"@));
    lemma_rain(unit_of(units, "precip_accum_24_hour"@, "Millimeters"@));
    lemma_snow(unit_of(units, "snow_depth"@, "Millimeters"@));
}

/// What is taken where the response does not tell a unit: miles of sight,
/// Pascals on the altimeter and millimetres of snow are converted, all else is
/// metric already.
pub proof fn law_units_that_are_not_told(units: Seq<Entry<String>>)
    ensures
        under(units, "air_temp"@) is None ==> scales_for(units).temp == Scale::AsIs,
        under(units, "dew_point_temperature"@) is None ==> scales_for(units).dew == Scale::AsIs,
        under(units, "wind_speed"@) is None ==> scales_for(units).speed == Scale::AsIs,
        under(units, "wind_gust"@) is None ==> scales_for(units).gust == Scale::AsIs,
        under(units, "visibility"@) is None ==> scales_for(units).vis == Scale::StatuteMilesToKm,
        under(units, "altimeter"@) is None ==> scales_for(units).alti == Scale::PascalsToHpa,
        under(units, "sea_level_pressure"@) is None ==> scales_for(units).slp == Scale::AsIs,
        under(units, "precip_accum_one_hour"@) is None ==> scales_for(units).precip_1h == Scale::AsIs,
        under(units, "precip_accum_three_hour"@) is None ==> scales_for(units).precip_3h == Scale::AsIs,
        under(units, "precip_accum_six_hour"@) is None ==> scales_for(units).precip_6h == Scale::AsIs,
        under(units, "precip_accum_24_hour"@) is None ==> scales_for(units).precip_24h == Scale::AsIs,
        under(units, "snow_depth"@) is None ==> scales_for(units).snow == Scale::MillimetresToCm,
{
    lemma_fallbacks();
    reveal_strlit("celsius");
    reveal_strlit("centimeters");
    reveal_strlit("cm");
    reveal_strlit("f");
    reveal_strlit("fahrenheit");
    reveal_strlit("feet");
    reveal_strlit("ft");
    reveal_strlit("in");
    reveal_strlit("inches");
    reveal_strlit("inches hg");
    reveal_strlit("inches mercury");
    reveal_strlit("inches of mercury");
    reveal_strlit("inhg");
    reveal_strlit("k");
    reveal_strlit("kelvin");
    reveal_strlit("kilometers/hour");
    reveal_strlit("km/h");
    reveal_strlit("knots");
    reveal_strlit("kph");
    reveal_strlit("kt");
    reveal_strlit("kts");
    reveal_strlit("m");
    reveal_strlit("m/s");
    reveal_strlit("meters");
    reveal_strlit("mi");
    reveal_strlit("miles");
    reveal_strlit("miles per hour");
    reveal_strlit("miles/hour");
    reveal_strlit("millibars");
    reveal_strlit("millimeters");
    reveal_strlit("mm");
    reveal_strlit("mph");
    reveal_strlit("pa");
    reveal_strlit("pascals");
    reveal_strlit("statute miles");
    lemma_celsius(unit_of(units, "air_temp"@, "Celsius"@));
    lemma_celsius(unit_of(units, "dew_point_temperature"@, "Celsius"@));
    lemma_speed(unit_of(units, "wind_speed"@, "m/s"@));
    lemma_speed(unit_of(units, "wind_gust"@, "m/s"@));
    lemma_distance(unit_of(units, "visibility"@, "Statute miles"@));
    lemma_pressure(unit_of(units, "altimeter"@, "Pascals"@));
    lemma_pressure(unit_of(units, "sea_level_pressure"@, "Millibars"@));
    lemma_rain(unit_of(units, "precip_accum_one_hour"@, "Millimeters"@));
    lemma_rain(unit_of(units, "precip_accum_three_hour"@, "Millimeters"@));
    lemma_rain(unit_of(units, "precip_accum_six_hour"@, "Millimeters"@));
    lemma_rain(unit_of(units, "precip_accum_24_hour"@, "Millimeters"@));
    lemma_snow(unit_of(units, "snow_depth"@, "Millimeters"@));
    assert("celsius"@.len() == 7 && "fahrenheit"@.len() == 10);
    assert("celsius"@.len() == 7 && "f"@.len() == 1);
    assert("celsius"@.len() == 7 && "kelvin"@.len() == 6);
    assert("celsius"@.len() == 7 && "k"@.len() == 1);
    assert("m/s"@.len() == 3 && "knots"@.len() == 5);
    assert("m/s"@[0] == 'm' && "kts"@[0] == 'k');
    assert("m/s"@.len() == 3 && "kt"@.len() == 2);
    assert("m/s"@[1] == '/' && "mph"@[1] == 'p');
    assert("m/s"@.len() == 3 && "miles/hour"@.len() == 10);
    assert("m/s"@.len() == 3 && "miles per hour"@.len() == 14);
    assert("m/s"@.len() == 3 && "km/h"@.len() == 4);
    assert("m/s"@[0] == 'm' && "kph"@[0] == 'k');
    assert("m/s"@.len() == 3 && "kilometers/hour"@.len() == 15);
    assert("millibars"@.len() == 9 && "pascals"@.len() == 7);
    assert("millibars"@.len() == 9 && "pa"@.len() == 2);
    assert("millibars"@[0] == 'm' && "inches hg"@[0] == 'i');
    assert("millibars"@.len() == 9 && "inhg"@.len() == 4);
    assert("millibars"@.len() == 9 && "inches mercury"@.len() == 14);
    assert("millibars"@.len() == 9 && "inches of mercury"@.len() == 17);
    assert("millimeters"@.len() == 11 && "inches"@.len() == 6);
    assert("millimeters"@.len() == 11 && "in"@.len() == 2);
    assert("millimeters"@[0] == 'm' && "centimeters"@[0] == 'c');
    assert("millimeters"@.len() == 11 && "cm"@.len() == 2);
}

/// The name is that of a column of the group.
pub open spec fn is_column_of(name: Seq<char>, group: Seq<char>) -> bool {
    let n = group.len() + 5;
    name.len() > n && name.take(n as int) == group + "_set_"@
}

/// A cell stands in its row of a column of its own group; where the group has
/// no column, there is none.
pub proof fn law_cells_stand_in_their_own_group(st: Station, group: Seq<char>, i: int)
    requires
        i >= 0,
    ensures
        st.cell(group, i) matches Some(c) ==> exists|k: int|
            0 <= k < st.sheet().len() && is_column_of(
                (#[trigger] st.sheet()[k]).name@,
                group,
            ) && i < st.sheet()[k].value.cells@.len() && st.sheet()[k].value.cells@[i] == c,
        (forall|k: int|
            0 <= k < st.sheet().len() ==> !is_column_of((#[trigger] st.sheet()[k]).name@, group))
            ==> st.cell(group, i) is None,
{
    let sheet = st.sheet();
    reveal_strlit("_set_");
    crate::source::synoptic::lemma_best_is_a_sensor(sheet, group);
    if let Some(k) = best_of(sheet, group) {
        let name = sheet[k].name@;
        assert(name.take(group.len() as int + 5) =~= group + "_set_"@);
        assert(is_column_of(sheet[k].name@, group));
    }
}

/// A value that stands under a name is that of an entry of the name, and there
/// is none where no entry has the name.
pub proof fn law_what_stands_under_a_name<T>(entries: Seq<Entry<T>>, name: Seq<char>)
    ensures
        under(entries, name) matches Some(x) ==> exists|k: int|
            0 <= k < entries.len() && (#[trigger] entries[k]).name@ == name
                && entries[k].value == x,
        under(entries, name) is None <==> forall|k: int|
            0 <= k < entries.len() ==> (#[trigger] entries[k]).name@ != name,
    decreases entries.len(),
{
    if entries.len() > 0 {
        let rest = entries.drop_first();
        law_what_stands_under_a_name(rest, name);
        if entries[0].name@ != name {
            if let Some(x) = under(rest, name) {
                let k = choose|k: int|
                    0 <= k < rest.len() && (#[trigger] rest[k]).name@ == name && rest[k].value == x;
                assert(entries[k + 1].name@ == name);
            } else {
                assert forall|k: int| 0 <= k < entries.len() implies (#[trigger] entries[k]).name@
                    != name by {
                    if k > 0 {
                        assert(rest[k - 1].name@ != name);
                    }
                }
            }
        }
    }
}

/// The text in a cell.
pub open spec fn text_in(cell: Option<Cell>) -> Option<Seq<char>> {
    match cell {
        Some(Cell::Text(text)) => Some(text@),
        _ => None,
    }
}

/// The text begins with a word, behind white space if any.
pub open spec fn opens_with(text: Option<Seq<char>>, word: Seq<char>) -> bool {
    text matches Some(text) && word.len() <= trim_start(text).len() && trim_start(text).take(
        word.len() as int,
    ) == word
}

/// The raw report is the text of its column and tells the kind by its first
/// word; the weather is the text of its own column, unless it is blank.
pub proof fn law_a_row_tells_its_texts(
    st: Station,
    units: Seq<Entry<String>>,
    i: int,
    o: Observation,
)
    requires
        st.reports(scales_for(units), i, o),
    ensures
        told(o.raw) == text_in(st.cell("metar"@, i)),
        o.kind is Special <==> opens_with(text_in(st.cell("metar"@, i)), "SPECI"@),
        o.kind is Routine <==> opens_with(text_in(st.cell("metar"@, i)), "METAR"@),
        o.weather matches Some(w) ==> text_in(st.cell("weather_condition"@, i)) == Some(w@),
        o.weather is None <==> (text_in(st.cell("weather_condition"@, i)) matches Some(w)
            ==> forall|k: int| 0 <= k < w.len() ==> white_space(#[trigger] w[k])),
{
    reveal_strlit("METAR");
    reveal_strlit("SPECI");
    assert("METAR"@[0] == 'M' && "SPECI"@[0] == 'S');
    if let Some(raw) = text_in(st.cell("metar"@, i)) {
        let t = trim_start(raw);
        if opens_with(Some(raw), "SPECI"@) {
            assert(t.take(5)[0] == t[0]);
        }
        if opens_with(Some(raw), "METAR"@) {
            assert(t.take(5)[0] == t[0]);
        }
    }
    if let Some(w) = text_in(st.cell("weather_condition"@, i)) {
        crate::laws::texts::law_trimming_takes_white_space_off(w);
    }
}

/// The humidity is the number in its column, to a whole percent; without one it
/// is worked out from the temperature and the dew point of the row. The
/// direction of the wind is the number in its column.
pub proof fn law_the_humidity_and_the_direction_of_a_row(
    st: Station,
    units: Seq<Entry<String>>,
    i: int,
    o: Observation,
    x: Option<Reading>,
    y: Option<Reading>,
)
    requires
        st.reports(scales_for(units), i, o),
        number_in(st.cell("relative_humidity"@, i), x),
        number_in(st.cell("wind_direction"@, i), y),
    ensures
        x is Some ==> (o.relative_humidity_pct matches Some(Humidity::Reported(m)) && number_in(
            st.cell("relative_humidity"@, i),
            Some(m.reading),
        ) && m.scale == Scale::AsIs && m.places == Some(0u8)),
        x is None ==> (o.relative_humidity_pct is Some <==> o.air_temp_c is Some
            && o.dew_point_c is Some),
        x is None ==> (o.relative_humidity_pct matches Some(h) ==> (
        h matches Humidity::FromDewPoint { air, dew } && Some(air) == o.air_temp_c && Some(dew)
            == o.dew_point_c)),
        o.wind_direction_deg is Some <==> y is Some,
        o.wind_direction_deg matches Some(b) ==> number_in(
            st.cell("wind_direction"@, i),
            Some(b.reading),
        ),
{
}

/// The time of a row is the one in the column of times, in the same row.
pub proof fn law_a_row_tells_its_time(
    st: Station,
    units: Seq<Entry<String>>,
    i: int,
    o: Observation,
)
    requires
        st.reports(scales_for(units), i, o),
    ensures
        under(st.sheet(), "date_time"@) matches Some(times) && i < times.cells@.len() && (
        times.cells@[i] matches Cell::Text(text) && rfc3339(trim(text@)) == Some(
            (o.time.secs, o.time.nanos),
        )),
{
}

/// A row is made of exactly those that have a time, in order.
pub proof fn law_rows_with_a_time_count(st: Station, n: nat, i: int)
    ensures
        st.timed(n).contains(i) <==> 0 <= i < n && st.time_at(i) is Some,
        forall|a: int, b: int|
            0 <= a < b < st.timed(n).len() ==> #[trigger] st.timed(n)[a] < #[trigger] st.timed(n)[b],
    decreases n,
{
    if n > 0 {
        let head = st.timed((n - 1) as nat);
        law_rows_with_a_time_count(st, (n - 1) as nat, i);
        let all = st.timed(n);
        if st.time_at(n - 1) is Some {
            if head.contains(i) {
                let k = choose|k: int| 0 <= k < head.len() && head[k] == i;
                assert(all[k] == i);
            }
            if i == n - 1 {
                assert(all[head.len() as int] == i);
            }
            assert forall|a: int, b: int| 0 <= a < b < all.len() implies #[trigger] all[a]
                < #[trigger] all[b] by {
                if b == head.len() {
                    assert(head.contains(head[a]));
                    law_rows_with_a_time_count(st, (n - 1) as nat, head[a]);
                }
            }
        }
    }
}

/// What is told of the station is what the response says of it; the elevation
/// is in feet unless a unit is told.
pub proof fn law_a_station_is_described(st: Station, units: Seq<Entry<String>>, info: StationInfo)
    requires
        st.describes(units, info),
    ensures
        info.id@ == upper(st.stid@),
        told(info.name) == told(st.name),
        takes(info.lat, st.lat, None),
        takes(info.lon, st.lon, None),
        info.lat matches Some(m) ==> m.scale == Scale::AsIs,
        info.lon matches Some(m) ==> m.scale == Scale::AsIs,
        takes(info.elevation_m, st.elevation, Some(1)),
        info.elevation_m matches Some(m) ==> height_by(
            unit_told(units, "elevation"@, "ft"@),
            m.scale,
        ),
{
    lemma_fallbacks();
    lemma_height(unit_of(units, "elevation"@, "ft"@));
}

/// A response with another code than one is refused with its code and message,
/// and no other is.
pub proof fn law_a_refusal_is_passed_on(station: Seq<char>, resp: Response, r: Result<Batch, Fault>)
    requires
        digested(station, resp, r),
    ensures
        r is Err <==> resp.summary.code != 1,
        r matches Err(fault) ==> says(
            fault,
            "Synoptic error (code "@ + signed_decimal(resp.summary.code as int) + "): "@
                + resp.summary.message@,
        ),
{
}

/// A response is read by names: its summary, units and stations, and what is in
/// each of these.
pub proof fn law_a_response_is_read_by_names(
    s: Summary,
    st: Station,
    r: Response,
    text: Seq<u8>,
    places: Seq<Option<int>>,
)
    ensures
        Summary::names() == seq!["RESPONSE_CODE"@, "RESPONSE_MESSAGE"@],
        Summary::needs(0),
        !Summary::needs(1),
        s.tells(text, places) ==> needed_says(s.code, text, places[0]),
        s.tells(text, places) ==> match places[1] {
            Some(i) => s.message.says(text, i),
            None => s.message@.len() == 0,
        },
        Station::names() == seq![
            "STID"@,
            "NAME"@,
            "LATITUDE"@,
            "LONGITUDE"@,
            "ELEVATION"@,
            "OBSERVATIONS"@,
        ],
        Station::needs(0),
        st.tells(text, places) ==> needed_says(st.stid, text, places[0]) && option_says(
            st.name,
            text,
            places[1],
        ),
        st.tells(text, places) ==> option_says(detail(st.lat), text, places[2]) && option_says(
            detail(st.lon),
            text,
            places[3],
        ) && option_says(detail(st.elevation), text, places[4]) && option_says(
            as_table(st.observations),
            text,
            places[5],
        ),
        Response::names() == seq!["SUMMARY"@, "UNITS"@, "STATION"@],
        Response::needs(0),
        r.tells(text, places) ==> needed_says(r.summary, text, places[0]) && option_says(
            as_table(r.units),
            text,
            places[1],
        ) && option_says(r.stations, text, places[2]),
{
}

} // verus!
