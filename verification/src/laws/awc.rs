//! What a report of the Aviation Weather Center becomes, field by field.

use vstd::prelude::*;

use crate::json::{member_of, Cell, Doc, Fields};
use crate::model::{Bearing, Humidity, Measure, Observation, Reading, Scale, StationInfo};
use crate::source::awc::{layers_of, Cloud, Metar};
use crate::text::{lower, strip_end, trim, upper, white_space};
use crate::time::{rfc3339, Time};

verus! {

/// A value is there exactly when a reading is: that reading, through that
/// conversion, rounded to so many decimals if any.
pub open spec fn follows(
    m: Option<Measure>,
    reading: Option<Reading>,
    scale: Scale,
    places: Option<u8>,
) -> bool {
    &&& m is Some <==> reading is Some
    &&& m matches Some(m) ==> Some(m.reading) == reading && m.scale == scale && m.places == places
}

/// Every value of a row is the number that the report gives for it, in its own
/// unit and to its own number of decimals.
pub proof fn law_a_metar_gives_its_own_values(r: Metar, o: Observation)
    requires
        r.reports(o),
    ensures
        follows(o.air_temp_c, r.temp, Scale::AsIs, None),
        follows(o.dew_point_c, r.dewp, Scale::AsIs, None),
        follows(o.wind_speed_ms, r.wspd, Scale::KnotsToMs, Some(1)),
        follows(o.wind_gust_ms, r.wgst, Scale::KnotsToMs, Some(1)),
        follows(o.altimeter_hpa, r.altim, Scale::AsIs, Some(1)),
        follows(o.sea_level_pressure_hpa, r.slp, Scale::AsIs, Some(1)),
        follows(o.precip_1h_mm, r.precip, Scale::InchesToMm, Some(2)),
        follows(o.precip_3h_mm, r.pcp3hr, Scale::InchesToMm, Some(2)),
        follows(o.precip_6h_mm, r.pcp6hr, Scale::InchesToMm, Some(2)),
        follows(o.precip_24h_mm, r.pcp24hr, Scale::InchesToMm, Some(2)),
        follows(o.snow_depth_cm, r.snow, Scale::InchesToCm, Some(1)),
        o.raw == r.raw_ob,
        o.station@ == upper(r.icao_id@),
        o.air_temp_f is Some <==> r.temp is Some,
        o.air_temp_f matches Some(f) ==> Some(f.celsius) == o.air_temp_c,
        o.dew_point_f is Some <==> r.dewp is Some,
        o.dew_point_f matches Some(f) ==> Some(f.celsius) == o.dew_point_c,
{
}

/// Two reports give the same value exactly when they were sent the same number
/// for it, whatever else they differ in.
pub proof fn law_no_value_of_a_metar_depends_on_another(
    a: Metar,
    b: Metar,
    o: Observation,
    p: Observation,
)
    requires
        a.reports(o),
        b.reports(p),
    ensures
        o.air_temp_c == p.air_temp_c <==> a.temp == b.temp,
        o.air_temp_f == p.air_temp_f <==> a.temp == b.temp,
        o.dew_point_c == p.dew_point_c <==> a.dewp == b.dewp,
        o.dew_point_f == p.dew_point_f <==> a.dewp == b.dewp,
        o.wind_speed_ms == p.wind_speed_ms <==> a.wspd == b.wspd,
        o.wind_gust_ms == p.wind_gust_ms <==> a.wgst == b.wgst,
        o.altimeter_hpa == p.altimeter_hpa <==> a.altim == b.altim,
        o.sea_level_pressure_hpa == p.sea_level_pressure_hpa <==> a.slp == b.slp,
        o.precip_1h_mm == p.precip_1h_mm <==> a.precip == b.precip,
        o.precip_3h_mm == p.precip_3h_mm <==> a.pcp3hr == b.pcp3hr,
        o.precip_6h_mm == p.precip_6h_mm <==> a.pcp6hr == b.pcp6hr,
        o.precip_24h_mm == p.precip_24h_mm <==> a.pcp24hr == b.pcp24hr,
        o.snow_depth_cm == p.snow_depth_cm <==> a.snow == b.snow,
        o.raw == p.raw <==> a.raw_ob == b.raw_ob,
        a.temp is Some && a.dewp is Some && b.temp is Some && b.dewp is Some ==> (
        o.relative_humidity_pct == p.relative_humidity_pct <==> a.temp == b.temp && a.dewp
            == b.dewp),
{
}

/// The humidity is worked out from the temperature and the dew point that the
/// row has, and is missing where either is.
pub proof fn law_the_humidity_of_a_metar_is_worked_out(r: Metar, o: Observation)
    requires
        r.reports(o),
    ensures
        o.relative_humidity_pct is Some <==> r.temp is Some && r.dewp is Some,
        o.relative_humidity_pct matches Some(h) ==> (h matches Humidity::FromDewPoint { air, dew }
            && Some(air) == o.air_temp_c && Some(dew) == o.dew_point_c),
{
}

/// A direction in degrees is kept; the word VRB, in whatever case, means that
/// the wind varies; anything else says nothing.
pub proof fn law_a_metar_tells_where_the_wind_is_from(r: Metar, o: Observation)
    requires
        r.reports(o),
    ensures
        r.wdir matches Some(Cell::Number(bits)) ==> o.wind_direction_deg == Some(
            Bearing { reading: Reading::Number(bits) },
        ) && !o.wind_variable,
        r.wdir matches Some(Cell::Text(text)) ==> o.wind_direction_deg is None && (o.wind_variable
            <==> lower(text@) == lower("VRB"@)),
        r.wdir is None || r.wdir == Some(Cell::Other) ==> o.wind_direction_deg is None
            && !o.wind_variable,
{
}

/// Visibility is in statute miles: a number, or a text that spells one with or
/// without a plus behind it.
pub proof fn law_a_metar_tells_how_far_one_sees(r: Metar, o: Observation)
    requires
        r.reports(o),
    ensures
        r.visib is None || r.visib == Some(Cell::Other) ==> o.visibility_km is None,
        r.visib matches Some(Cell::Number(bits)) ==> follows(
            o.visibility_km,
            Some(Reading::Number(bits)),
            Scale::StatuteMilesToKm,
            Some(1),
        ),
        r.visib matches Some(Cell::Text(text)) ==> match o.visibility_km {
            Some(m) => m.scale == Scale::StatuteMilesToKm && m.places == Some(1u8) && (
            m.reading matches Reading::Written(w) && w@ == strip_end(trim(text@), '+')
                && crate::numeral::is_numeral(w@)),
            None => !crate::numeral::is_numeral(strip_end(trim(text@), '+')),
        },
{
}

/// METAR is a routine report, SPECI a special one, and no other word is either.
pub proof fn law_a_metar_tells_its_kind(r: Metar, o: Observation)
    requires
        r.reports(o),
    ensures
        o.kind is Routine <==> (r.metar_type matches Some(w) && w@ == "METAR"@),
        o.kind is Special <==> (r.metar_type matches Some(w) && w@ == "SPECI"@),
{
    reveal_strlit("METAR");
    reveal_strlit("SPECI");
    assert("METAR"@[0] == 'M' && "SPECI"@[0] == 'S');
}

/// The text says a time.
pub open spec fn says_time(text: Seq<char>, t: Time) -> bool {
    rfc3339(text) == Some((t.secs, t.nanos))
}

/// A time of observation in seconds counts before one in words. In words, a
/// blank in the eleventh place stands for the letter between date and time. The
/// receipt time is in words, and neither time stands for the other.
pub proof fn law_a_metar_tells_its_times(r: Metar, o: Observation)
    requires
        r.reports(o),
    ensures
        r.obs_time matches Some(s) ==> o.time.secs == s && o.time.nanos == 0,
        r.obs_time is None ==> (r.report_time matches Some(w) && says_time(
            crate::source::awc::timestamp_text(w@),
            o.time,
        )),
        r.receipt_time is None ==> o.received is None,
        r.receipt_time matches Some(w) ==> match o.received {
            Some(t) => says_time(crate::source::awc::timestamp_text(w@), t),
            None => rfc3339(crate::source::awc::timestamp_text(w@)) is None,
        },
{
}

/// A time in words is read without the white space around it, and as it stands
/// where it holds no blank.
pub proof fn law_times_are_read_as_they_stand(text: Seq<char>)
    requires
        forall|i: int| 0 <= i < text.len() ==> !white_space(#[trigger] text[i]),
    ensures
        crate::source::awc::timestamp_text(text) == text,
{
    let (i, j) = crate::laws::texts::law_trimming_takes_white_space_off(text);
    if i > 0 {
        assert(white_space(text[0]));
    }
    if j < text.len() {
        assert(white_space(text[j]));
    }
    assert(trim(text) =~= text);
    lemma_no_blank(text);
}

proof fn lemma_no_blank(text: Seq<char>)
    requires
        forall|i: int| 0 <= i < text.len() ==> !white_space(#[trigger] text[i]),
    ensures
        crate::source::awc::with_t(text) == text,
{
    assert forall|i: int| 0 <= i < text.len() implies #[trigger] text[i] != ' ' by {
        assert(!white_space(text[i]));
    }
    crate::laws::texts::lemma_no_place(text, ' ');
}

/// The weather is told as it was sent, unless all of it is white space.
pub proof fn law_a_metar_tells_the_weather(r: Metar, o: Observation)
    requires
        r.reports(o),
    ensures
        o.weather matches Some(w) ==> r.wx_string == Some(w),
        o.weather is None <==> (r.wx_string matches Some(w) ==> forall|k: int|
            0 <= k < w@.len() ==> white_space(#[trigger] w@[k])),
{
    if let Some(w) = r.wx_string {
        crate::laws::texts::law_blank_texts_count_as_none(w);
    }
}

/// Layers with a cover are kept one by one and in order, each with its own base
/// in feet, to a whole number of metres.
pub proof fn law_covered_layers_are_kept(clouds: Seq<Cloud>)
    requires
        forall|i: int| 0 <= i < clouds.len() ==> (#[trigger] clouds[i]).cover is Some,
    ensures
        layers_of(clouds).len() == clouds.len(),
        forall|i: int|
            0 <= i < clouds.len() ==> Some((#[trigger] layers_of(clouds)[i]).cover)
                == clouds[i].cover && follows(
                layers_of(clouds)[i].base_m,
                clouds[i].base,
                Scale::FeetToM,
                Some(0),
            ),
    decreases clouds.len(),
{
    if clouds.len() > 0 {
        let head = clouds.drop_last();
        assert forall|i: int| 0 <= i < head.len() implies (#[trigger] head[i]).cover is Some by {
            assert(clouds[i].cover is Some);
        }
        law_covered_layers_are_kept(head);
        assert(clouds[clouds.len() - 1].cover is Some);
        assert forall|i: int| 0 <= i < clouds.len() implies Some(
            (#[trigger] layers_of(clouds)[i]).cover,
        ) == clouds[i].cover && follows(
            layers_of(clouds)[i].base_m,
            clouds[i].base,
            Scale::FeetToM,
            Some(0),
        ) by {
            if i < head.len() {
                assert(layers_of(head)[i] == layers_of(clouds)[i]);
            }
        }
    }
}

/// A layer without a cover makes no difference, wherever it stands.
pub proof fn law_uncovered_layers_are_passed_over(a: Seq<Cloud>, c: Cloud, b: Seq<Cloud>)
    requires
        c.cover is None,
    ensures
        layers_of(a.push(c) + b) == layers_of(a + b),
    decreases b.len(),
{
    if b.len() == 0 {
        assert(a.push(c) + b =~= a.push(c));
        assert(a + b =~= a);
        assert(a.push(c).drop_last() =~= a);
    } else {
        law_uncovered_layers_are_passed_over(a, c, b.drop_last());
        assert((a.push(c) + b).drop_last() =~= a.push(c) + b.drop_last());
        assert((a + b).drop_last() =~= a + b.drop_last());
    }
}

/// The row has the layers of the report, or none where it lists none.
pub proof fn law_a_metar_gives_its_own_clouds(r: Metar, o: Observation)
    requires
        r.reports(o),
    ensures
        r.clouds is None ==> o.clouds@.len() == 0,
        r.clouds matches Some(list) ==> o.clouds@ == layers_of(list@),
{
}

/// What is told of the station is what the report says of it.
pub proof fn law_a_metar_describes_its_station(r: Metar, info: StationInfo)
    requires
        r.describes(info),
    ensures
        info.id@ == upper(r.icao_id@),
        info.name == r.name,
        follows(info.lat, r.lat, Scale::AsIs, None),
        follows(info.lon, r.lon, Scale::AsIs, None),
        follows(info.elevation_m, r.elev, Scale::AsIs, None),
{
}

/// The number under a name of an object, and nothing where there is none.
pub open spec fn number_under(d: Doc, name: Seq<char>) -> Option<Reading> {
    match member_of(d, name) {
        Some(Doc::Number { bits, .. }) => Some(Reading::Number(bits)),
        _ => None,
    }
}

/// The string under a name of an object, and nothing where there is none.
pub open spec fn string_under(d: Doc, name: Seq<char>) -> Option<Seq<char>> {
    match member_of(d, name) {
        Some(Doc::Text(text)) => Some(text),
        _ => None,
    }
}

/// Every field of a report comes from the member of its own name.
pub proof fn law_a_metar_is_read_by_names(r: Metar, d: Doc)
    requires
        r.tells(d),
        d is Object,
    ensures
        string_under(d, "icaoId"@) matches Some(id) ==> r.icao_id@ == id,
        crate::json::told(r.receipt_time) == string_under(d, "receiptTime"@),
        crate::json::told(r.report_time) == string_under(d, "reportTime"@),
        r.temp == number_under(d, "temp"@),
        r.dewp == number_under(d, "dewp"@),
        r.wspd == number_under(d, "wspd"@),
        r.wgst == number_under(d, "wgst"@),
        r.altim == number_under(d, "altim"@),
        r.slp == number_under(d, "slp"@),
        crate::json::told(r.wx_string) == string_under(d, "wxString"@),
        r.precip == number_under(d, "precip"@),
        r.pcp3hr == number_under(d, "pcp3hr"@),
        r.pcp6hr == number_under(d, "pcp6hr"@),
        r.pcp24hr == number_under(d, "pcp24hr"@),
        r.snow == number_under(d, "snow"@),
        crate::json::told(r.metar_type) == string_under(d, "metarType"@),
        crate::json::told(r.raw_ob) == string_under(d, "rawOb"@),
        r.lat == number_under(d, "lat"@),
        r.lon == number_under(d, "lon"@),
        r.elev == number_under(d, "elev"@),
        crate::json::told(r.name) == string_under(d, "name"@),
        r.wdir matches Some(cell) ==> (member_of(d, "wdir"@) matches Some(m) && cell.holds(m)),
        r.visib matches Some(cell) ==> (member_of(d, "visib"@) matches Some(m) && cell.holds(m)),
        r.obs_time matches Some(n) ==> (member_of(d, "obsTime"@) matches Some(Doc::Number {
            integer: Some(i),
            ..
        }) && i == n),
        r.clouds is Some ==> member_of(d, "clouds"@) is Some,
{
}

/// Every field of a layer of clouds comes from the member of its own name.
pub proof fn law_a_cloud_is_read_by_names(c: Cloud, d: Doc)
    requires
        c.tells(d),
        d is Object,
    ensures
        crate::json::told(c.cover) == string_under(d, "cover"@),
        c.base == number_under(d, "base"@),
{
}

} // verus!
