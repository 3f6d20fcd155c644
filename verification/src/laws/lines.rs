//! What the lines of the log show, and what the command line comes to.

use vstd::prelude::*;

use crate::cli::Options;
use crate::feed::Event;
use crate::laws::lag::spelled;
use crate::model::{CloudLayer, Observation, StationInfo};
use crate::render::{
    around, body_text, lag_text, layers, line_text, location_text, padded, parts_of, phrase,
    row_text, sky, special, temperature, three_digits, time_text, unknown_zone, wind, zone_text,
    Figures, Style, Zone,
};
use crate::text::{decimal, joined, signed_decimal};
use crate::time::Time;

verus! {

/// One for each thing that is there.
pub open spec fn one_if(there: bool) -> int {
    if there {
        1
    } else {
        0
    }
}

/// How many parts of a row's line come no later than the word for a special report.
pub open spec fn up_to_special(o: Observation) -> int {
    1 + one_if(o.kind is Special)
}

/// How many parts of a row's line come no later than the temperature.
pub open spec fn up_to_air(o: Observation) -> int {
    up_to_special(o) + one_if(o.air_temp_c is Some && o.air_temp_f is Some)
}

/// How many parts of a row's line come no later than the dew point.
pub open spec fn up_to_dew(o: Observation) -> int {
    up_to_air(o) + one_if(o.dew_point_c is Some && o.dew_point_f is Some)
}

/// How many parts of a row's line come no later than the humidity.
pub open spec fn up_to_humidity(o: Observation) -> int {
    up_to_dew(o) + one_if(o.relative_humidity_pct is Some)
}

/// How many parts of a row's line come no later than the wind.
pub open spec fn up_to_wind(o: Observation) -> int {
    up_to_humidity(o) + one_if(o.wind_speed_ms is Some)
}

/// How many parts of a row's line come no later than the gust.
pub open spec fn up_to_gust(o: Observation) -> int {
    up_to_wind(o) + one_if(o.wind_gust_ms is Some)
}

/// How many parts of a row's line come no later than the visibility.
pub open spec fn up_to_sight(o: Observation) -> int {
    up_to_gust(o) + one_if(o.visibility_km is Some)
}

/// How many parts of a row's line come no later than the altimeter.
pub open spec fn up_to_altimeter(o: Observation) -> int {
    up_to_sight(o) + one_if(o.altimeter_hpa is Some)
}

/// How many parts of a row's line come no later than the pressure at sea level.
pub open spec fn up_to_sea_level(o: Observation) -> int {
    up_to_altimeter(o) + one_if(o.sea_level_pressure_hpa is Some)
}

/// How many parts of a row's line come no later than the weather.
pub open spec fn up_to_weather(o: Observation) -> int {
    up_to_sea_level(o) + one_if(o.weather is Some)
}

/// How many parts of a row's line come no later than the clouds.
pub open spec fn up_to_clouds(o: Observation) -> int {
    up_to_weather(o) + one_if(o.clouds@.len() > 0)
}

/// How many parts of a row's line come no later than the precipitation.
pub open spec fn up_to_rain(o: Observation) -> int {
    up_to_clouds(o) + one_if(o.precip_1h_mm is Some)
}

/// Where there is something to show, it stands at that place among the parts.
pub open spec fn shown(parts: Seq<Seq<char>>, n: int, there: bool, text: Seq<char>) -> bool {
    there ==> 0 <= n < parts.len() && parts[n] == text
}

/// The wind: where it is from, or that it varies, or neither; and its speed.
pub open spec fn wind_words(o: Observation, f: Figures) -> Seq<char> {
    if o.wind_direction_deg is Some {
        "wind "@ + three_digits(f.wind_direction as nat) + "° "@ + f.wind_speed@ + " m/s"@
    } else if o.wind_variable {
        "wind VRB "@ + f.wind_speed@ + " m/s"@
    } else {
        "wind "@ + f.wind_speed@ + " m/s"@
    }
}

/// There is a part for the time, and then one for each value that the row has,
/// in this order, each with the figures of that value and of no other.
pub open spec fn shows_own_figures(
    parts: Seq<Seq<char>>,
    o: Observation,
    f: Figures,
    zone: Zone,
) -> bool {
    &&& parts.len() == up_to_rain(o)
    &&& shown(parts, 0, true, time_text(o.time, zone, Style::Date))
    &&& shown(parts, 1, o.kind is Special, "SPECI"@)
    &&& shown(
        parts,
        up_to_special(o),
        o.air_temp_c is Some && o.air_temp_f is Some,
        "T "@ + f.air_temp_c@ + "°C/"@ + f.air_temp_f@ + "°F"@,
    )
    &&& shown(
        parts,
        up_to_air(o),
        o.dew_point_c is Some && o.dew_point_f is Some,
        "Td "@ + f.dew_point_c@ + "°C/"@ + f.dew_point_f@ + "°F"@,
    )
    &&& shown(parts, up_to_dew(o), o.relative_humidity_pct is Some, "RH "@ + f.humidity@ + "%"@)
    &&& shown(parts, up_to_humidity(o), o.wind_speed_ms is Some, wind_words(o, f))
    &&& shown(parts, up_to_wind(o), o.wind_gust_ms is Some, "gust "@ + f.wind_gust@ + " m/s"@)
    &&& shown(parts, up_to_gust(o), o.visibility_km is Some, "vis "@ + f.visibility@ + " km"@)
    &&& shown(parts, up_to_sight(o), o.altimeter_hpa is Some, "QNH "@ + f.altimeter@ + " hPa"@)
    &&& shown(
        parts,
        up_to_altimeter(o),
        o.sea_level_pressure_hpa is Some,
        "SLP "@ + f.sea_level_pressure@ + " hPa"@,
    )
    &&& shown(parts, up_to_sea_level(o), o.weather is Some, o.weather->0@)
    &&& shown(
        parts,
        up_to_weather(o),
        o.clouds@.len() > 0,
        joined(layers(o.clouds@, f.bases@), " "@),
    )
    &&& shown(parts, up_to_clouds(o), o.precip_1h_mm is Some, "precip1h "@ + f.precip_1h@ + " mm"@)
}

/// A row's line shows the time, and each value that the row has by its own
/// figures.
pub proof fn law_each_part_shows_its_own_figures(o: Observation, f: Figures, zone: Zone)
    ensures
        shows_own_figures(parts_of(o, f, zone), o, f, zone),
{
    lemma_parts(o, f, zone);
    lemma_shown(parts_of(o, f, zone), o, f, zone);
}

proof fn lemma_shown(parts: Seq<Seq<char>>, o: Observation, f: Figures, zone: Zone)
    requires
        parts == with_three(
            with_three(
                with_three(
                    with_three(
                        seq![time_text(o.time, zone, Style::Date)],
                        o.kind is Special,
                        "SPECI"@,
                        o.air_temp_c is Some && o.air_temp_f is Some,
                        "T "@ + f.air_temp_c@ + "°C/"@ + f.air_temp_f@ + "°F"@,
                        o.dew_point_c is Some && o.dew_point_f is Some,
                        "Td "@ + f.dew_point_c@ + "°C/"@ + f.dew_point_f@ + "°F"@,
                    ),
                    o.relative_humidity_pct is Some,
                    "RH "@ + f.humidity@ + "%"@,
                    o.wind_speed_ms is Some,
                    wind_words(o, f),
                    o.wind_gust_ms is Some,
                    "gust "@ + f.wind_gust@ + " m/s"@,
                ),
                o.visibility_km is Some,
                "vis "@ + f.visibility@ + " km"@,
                o.altimeter_hpa is Some,
                "QNH "@ + f.altimeter@ + " hPa"@,
                o.sea_level_pressure_hpa is Some,
                "SLP "@ + f.sea_level_pressure@ + " hPa"@,
            ),
            o.weather is Some,
            o.weather->0@,
            o.clouds@.len() > 0,
            joined(layers(o.clouds@, f.bases@), " "@),
            o.precip_1h_mm is Some,
            "precip1h "@ + f.precip_1h@ + " mm"@,
        ),
    ensures
        shows_own_figures(parts, o, f, zone),
{
    let p0 = seq![time_text(o.time, zone, Style::Date)];
    let p1 = with_three(
        p0,
        o.kind is Special,
        "SPECI"@,
        o.air_temp_c is Some && o.air_temp_f is Some,
        "T "@ + f.air_temp_c@ + "°C/"@ + f.air_temp_f@ + "°F"@,
        o.dew_point_c is Some && o.dew_point_f is Some,
        "Td "@ + f.dew_point_c@ + "°C/"@ + f.dew_point_f@ + "°F"@,
    );
    lemma_three(
        p0,
        o.kind is Special,
        "SPECI"@,
        o.air_temp_c is Some && o.air_temp_f is Some,
        "T "@ + f.air_temp_c@ + "°C/"@ + f.air_temp_f@ + "°F"@,
        o.dew_point_c is Some && o.dew_point_f is Some,
        "Td "@ + f.dew_point_c@ + "°C/"@ + f.dew_point_f@ + "°F"@,
    );
    let p2 = with_three(
        p1,
        o.relative_humidity_pct is Some,
        "RH "@ + f.humidity@ + "%"@,
        o.wind_speed_ms is Some,
        wind_words(o, f),
        o.wind_gust_ms is Some,
        "gust "@ + f.wind_gust@ + " m/s"@,
    );
    lemma_three(
        p1,
        o.relative_humidity_pct is Some,
        "RH "@ + f.humidity@ + "%"@,
        o.wind_speed_ms is Some,
        wind_words(o, f),
        o.wind_gust_ms is Some,
        "gust "@ + f.wind_gust@ + " m/s"@,
    );
    let p3 = with_three(
        p2,
        o.visibility_km is Some,
        "vis "@ + f.visibility@ + " km"@,
        o.altimeter_hpa is Some,
        "QNH "@ + f.altimeter@ + " hPa"@,
        o.sea_level_pressure_hpa is Some,
        "SLP "@ + f.sea_level_pressure@ + " hPa"@,
    );
    lemma_three(
        p2,
        o.visibility_km is Some,
        "vis "@ + f.visibility@ + " km"@,
        o.altimeter_hpa is Some,
        "QNH "@ + f.altimeter@ + " hPa"@,
        o.sea_level_pressure_hpa is Some,
        "SLP "@ + f.sea_level_pressure@ + " hPa"@,
    );
    let p4 = with_three(
        p3,
        o.weather is Some,
        o.weather->0@,
        o.clouds@.len() > 0,
        joined(layers(o.clouds@, f.bases@), " "@),
        o.precip_1h_mm is Some,
        "precip1h "@ + f.precip_1h@ + " mm"@,
    );
    lemma_three(
        p3,
        o.weather is Some,
        o.weather->0@,
        o.clouds@.len() > 0,
        joined(layers(o.clouds@, f.bases@), " "@),
        o.precip_1h_mm is Some,
        "precip1h "@ + f.precip_1h@ + " mm"@,
    );
    lemma_still_shown(p1, p2, 1, o.kind is Special, "SPECI"@);
    lemma_still_shown(
        p1,
        p2,
        up_to_special(o),
        o.air_temp_c is Some && o.air_temp_f is Some,
        "T "@ + f.air_temp_c@ + "°C/"@ + f.air_temp_f@ + "°F"@,
    );
    lemma_still_shown(
        p1,
        p2,
        up_to_air(o),
        o.dew_point_c is Some && o.dew_point_f is Some,
        "Td "@ + f.dew_point_c@ + "°C/"@ + f.dew_point_f@ + "°F"@,
    );
    lemma_still_shown(p2, p3, 1, o.kind is Special, "SPECI"@);
    lemma_still_shown(
        p2,
        p3,
        up_to_special(o),
        o.air_temp_c is Some && o.air_temp_f is Some,
        "T "@ + f.air_temp_c@ + "°C/"@ + f.air_temp_f@ + "°F"@,
    );
    lemma_still_shown(
        p2,
        p3,
        up_to_air(o),
        o.dew_point_c is Some && o.dew_point_f is Some,
        "Td "@ + f.dew_point_c@ + "°C/"@ + f.dew_point_f@ + "°F"@,
    );
    lemma_still_shown(p3, p4, 1, o.kind is Special, "SPECI"@);
    lemma_still_shown(
        p3,
        p4,
        up_to_special(o),
        o.air_temp_c is Some && o.air_temp_f is Some,
        "T "@ + f.air_temp_c@ + "°C/"@ + f.air_temp_f@ + "°F"@,
    );
    lemma_still_shown(
        p3,
        p4,
        up_to_air(o),
        o.dew_point_c is Some && o.dew_point_f is Some,
        "Td "@ + f.dew_point_c@ + "°C/"@ + f.dew_point_f@ + "°F"@,
    );
    lemma_still_shown(
        p2,
        p3,
        up_to_dew(o),
        o.relative_humidity_pct is Some,
        "RH "@ + f.humidity@ + "%"@,
    );
    lemma_still_shown(p2, p3, up_to_humidity(o), o.wind_speed_ms is Some, wind_words(o, f));
    lemma_still_shown(
        p2,
        p3,
        up_to_wind(o),
        o.wind_gust_ms is Some,
        "gust "@ + f.wind_gust@ + " m/s"@,
    );
    lemma_still_shown(
        p3,
        p4,
        up_to_dew(o),
        o.relative_humidity_pct is Some,
        "RH "@ + f.humidity@ + "%"@,
    );
    lemma_still_shown(p3, p4, up_to_humidity(o), o.wind_speed_ms is Some, wind_words(o, f));
    lemma_still_shown(
        p3,
        p4,
        up_to_wind(o),
        o.wind_gust_ms is Some,
        "gust "@ + f.wind_gust@ + " m/s"@,
    );
    lemma_still_shown(
        p3,
        p4,
        up_to_gust(o),
        o.visibility_km is Some,
        "vis "@ + f.visibility@ + " km"@,
    );
    lemma_still_shown(
        p3,
        p4,
        up_to_sight(o),
        o.altimeter_hpa is Some,
        "QNH "@ + f.altimeter@ + " hPa"@,
    );
    lemma_still_shown(
        p3,
        p4,
        up_to_altimeter(o),
        o.sea_level_pressure_hpa is Some,
        "SLP "@ + f.sea_level_pressure@ + " hPa"@,
    );
    lemma_still_shown(p0, p1, 0, true, time_text(o.time, zone, Style::Date));
    lemma_still_shown(p1, p2, 0, true, time_text(o.time, zone, Style::Date));
    lemma_still_shown(p2, p3, 0, true, time_text(o.time, zone, Style::Date));
    lemma_still_shown(p3, p4, 0, true, time_text(o.time, zone, Style::Date));
}

/// One part, where there is something to show.
spec fn piece(there: bool, text: Seq<char>) -> Seq<Seq<char>> {
    if there {
        seq![text]
    } else {
        Seq::empty()
    }
}

/// Three more parts.
#[verifier::opaque]
spec fn with_three(
    base: Seq<Seq<char>>,
    a: bool,
    t: Seq<char>,
    b: bool,
    u: Seq<char>,
    c: bool,
    v: Seq<char>,
) -> Seq<Seq<char>> {
    base + piece(a, t) + piece(b, u) + piece(c, v)
}

/// `b` begins with `a`.
#[verifier::opaque]
spec fn goes_on(a: Seq<Seq<char>>, b: Seq<Seq<char>>) -> bool {
    a.len() <= b.len() && forall|i: int| 0 <= i < a.len() ==> a[i] == #[trigger] b[i]
}

proof fn lemma_three(
    base: Seq<Seq<char>>,
    a: bool,
    t: Seq<char>,
    b: bool,
    u: Seq<char>,
    c: bool,
    v: Seq<char>,
)
    ensures
        ({
            let whole = with_three(base, a, t, b, u, c, v);
            let n = base.len() as int;
            &&& whole.len() == n + one_if(a) + one_if(b) + one_if(c)
            &&& shown(whole, n, a, t)
            &&& shown(whole, n + one_if(a), b, u)
            &&& shown(whole, n + one_if(a) + one_if(b), c, v)
            &&& goes_on(base, whole)
        }),
{
    reveal(goes_on);
    reveal(with_three);
}

proof fn lemma_still_shown(
    a: Seq<Seq<char>>,
    b: Seq<Seq<char>>,
    n: int,
    there: bool,
    text: Seq<char>,
)
    requires
        goes_on(a, b),
        shown(a, n, there, text),
    ensures
        shown(b, n, there, text),
{
    reveal(goes_on);
    if there {
        assert(a[n] == b[n]);
    }
}

/// The parts are those of the values, three by three.
proof fn lemma_parts(o: Observation, f: Figures, zone: Zone)
    ensures
        parts_of(o, f, zone) == with_three(
            with_three(
                with_three(
                    with_three(
                        seq![time_text(o.time, zone, Style::Date)],
                        o.kind is Special,
                        "SPECI"@,
                        o.air_temp_c is Some && o.air_temp_f is Some,
                        "T "@ + f.air_temp_c@ + "°C/"@ + f.air_temp_f@ + "°F"@,
                        o.dew_point_c is Some && o.dew_point_f is Some,
                        "Td "@ + f.dew_point_c@ + "°C/"@ + f.dew_point_f@ + "°F"@,
                    ),
                    o.relative_humidity_pct is Some,
                    "RH "@ + f.humidity@ + "%"@,
                    o.wind_speed_ms is Some,
                    wind_words(o, f),
                    o.wind_gust_ms is Some,
                    "gust "@ + f.wind_gust@ + " m/s"@,
                ),
                o.visibility_km is Some,
                "vis "@ + f.visibility@ + " km"@,
                o.altimeter_hpa is Some,
                "QNH "@ + f.altimeter@ + " hPa"@,
                o.sea_level_pressure_hpa is Some,
                "SLP "@ + f.sea_level_pressure@ + " hPa"@,
            ),
            o.weather is Some,
            o.weather->0@,
            o.clouds@.len() > 0,
            joined(layers(o.clouds@, f.bases@), " "@),
            o.precip_1h_mm is Some,
            "precip1h "@ + f.precip_1h@ + " mm"@,
        ),
{
    reveal(with_three);
    assert(special(o.kind) == piece(o.kind is Special, "SPECI"@));
    assert(wind(o, f) == piece(o.wind_speed_ms is Some, wind_words(o, f)));
    assert(phrase(o.weather) == piece(o.weather is Some, o.weather->0@));
    assert(sky(o.clouds@, f.bases@) == piece(
        o.clouds@.len() > 0,
        joined(layers(o.clouds@, f.bases@), " "@),
    ));
}

/// The figures of values that a row lacks make no difference to its line.
pub proof fn law_figures_of_missing_values_are_not_shown(
    o: Observation,
    f: Figures,
    g: Figures,
    zone: Zone,
)
    requires
        o.air_temp_c is Some ==> f.air_temp_c@ == g.air_temp_c@ && f.air_temp_f@ == g.air_temp_f@,
        o.dew_point_c is Some ==> f.dew_point_c@ == g.dew_point_c@ && f.dew_point_f@
            == g.dew_point_f@,
        o.relative_humidity_pct is Some ==> f.humidity@ == g.humidity@,
        o.wind_speed_ms is Some ==> f.wind_speed@ == g.wind_speed@,
        o.wind_speed_ms is Some && o.wind_direction_deg is Some ==> f.wind_direction
            == g.wind_direction,
        o.wind_gust_ms is Some ==> f.wind_gust@ == g.wind_gust@,
        o.visibility_km is Some ==> f.visibility@ == g.visibility@,
        o.altimeter_hpa is Some ==> f.altimeter@ == g.altimeter@,
        o.sea_level_pressure_hpa is Some ==> f.sea_level_pressure@ == g.sea_level_pressure@,
        o.precip_1h_mm is Some ==> f.precip_1h@ == g.precip_1h@,
        f.bases == g.bases,
    ensures
        row_text(o, f, zone) == row_text(o, g, zone),
{
    law_each_part_shows_its_own_figures(o, f, zone);
    law_each_part_shows_its_own_figures(o, g, zone);
    assert(parts_of(o, f, zone) =~= parts_of(o, g, zone));
}

/// The parts of a line stand two blanks apart.
pub proof fn law_the_parts_make_the_line(o: Observation, f: Figures, zone: Zone)
    ensures
        row_text(o, f, zone) == joined(parts_of(o, f, zone), "  "@),
{
}

/// Each layer of clouds is shown by its cover, with its own base in metres
/// behind it where that is known.
pub proof fn law_each_layer_shows_its_own_base(
    clouds: Seq<CloudLayer>,
    bases: Seq<String>,
    i: int,
)
    requires
        0 <= i < clouds.len(),
        bases.len() == clouds.len(),
    ensures
        layers(clouds, bases).len() == clouds.len(),
        clouds[i].base_m is Some ==> layers(clouds, bases)[i] == clouds[i].cover@ + bases[i]@
            + "m"@,
        clouds[i].base_m is None ==> layers(clouds, bases)[i] == clouds[i].cover@,
{
}

/// A direction is shown in three digits at least that spell it.
pub proof fn law_directions_have_three_digits(n: nat)
    requires
        n < 1000,
    ensures
        three_digits(n).len() == 3,
        spelled(three_digits(n)) == n,
{
    reveal_strlit("00");
    reveal_strlit("0");
    reveal_with_fuel(decimal, 4);
    reveal_with_fuel(spelled, 5);
    crate::laws::lag::law_numbers_are_spelled(n);
    crate::laws::lag::law_numbers_are_spelled(n / 10);
    crate::laws::lag::law_numbers_are_spelled(n / 100);
    let s = three_digits(n);
    assert(s.drop_last().drop_last().drop_last() =~= Seq::empty());
    if n < 10 {
        assert(s.drop_last() =~= seq!['0', '0']);
    } else if n < 100 {
        assert(s.drop_last() =~= seq!['0'] + decimal(n / 10));
    } else {
        assert(s.drop_last() =~= decimal(n / 10));
    }
}

/// Latitude and longitude are shown where both are known, and the elevation
/// where it is, each by its own figure.
pub proof fn law_a_place_is_shown_as_far_as_known(info: StationInfo, f: Figures)
    ensures
        ({
            let shown = location_text(info, f);
            let both = info.lat is Some && info.lon is Some;
            let high = info.elevation_m is Some;
            &&& both && high ==> shown == " at "@ + f.lat@ + ", "@ + f.lon@ + ", "@ + f.elevation@
                + " m"@
            &&& both && !high ==> shown == " at "@ + f.lat@ + ", "@ + f.lon@
            &&& !both && high ==> shown == ", "@ + f.elevation@ + " m"@
            &&& !both && !high ==> shown.len() == 0
        }),
{
    assert(Seq::<char>::empty() + ", "@ =~= ", "@);
}

/// A lag is shown in seconds behind its words, or as unknown.
pub proof fn law_lags_are_shown_in_seconds(secs: i64, prefix: Seq<char>)
    ensures
        lag_text(Some(secs), prefix) == prefix + signed_decimal(secs as int) + "s"@,
        lag_text(None, prefix) == "unknown"@,
{
}

/// Times are shown in the zone: with seconds, without, or with the date, and
/// always with the name of the zone.
pub proof fn law_times_are_shown_in_the_zone(t: Time, zone: Zone)
    ensures
        time_text(t, zone, Style::Clock) == zone_text(t.secs, t.nanos, zone@, "%H:%M:%S %Z"@),
        time_text(t, zone, Style::Minute) == zone_text(t.secs, t.nanos, zone@, "%H:%M %Z"@),
        time_text(t, zone, Style::Date) == zone_text(t.secs, t.nanos, zone@, "%m-%d %H:%M %Z"@),
{
}

/// A station's name fills six places.
pub proof fn law_names_fill_six_places(s: Seq<char>)
    ensures
        s.len() >= 6 ==> padded(s) == s,
        s.len() < 6 ==> padded(s).len() == 6,
        forall|i: int| 0 <= i < s.len() ==> #[trigger] padded(s)[i] == s[i],
        forall|i: int| s.len() <= i < padded(s).len() ==> #[trigger] padded(s)[i] == ' ',
{
}

/// A line begins with the time at which it is shown, then the station.
pub proof fn law_a_line_begins_with_time_and_station(
    now: Time,
    event: Event,
    f: Figures,
    zone: Zone,
)
    ensures
        line_text(now, event, f, zone) == time_text(now, zone, Style::Clock) + " "@ + padded(
            event.subject(),
        ) + " "@ + body_text(event, f, zone),
{
}

/// Every event tells the station that it is about.
pub proof fn law_every_event_is_about_its_station(event: Event)
    ensures
        event matches Event::Station { station, .. } ==> event.subject() == station@,
        event matches Event::History { station, .. } ==> event.subject() == station@,
        event matches Event::CadenceLearned { station, .. } ==> event.subject() == station@,
        event matches Event::NoCadence { station, .. } ==> event.subject() == station@,
        event matches Event::Waiting { station, .. } ==> event.subject() == station@,
        event matches Event::New { station, .. } ==> event.subject() == station@,
        event matches Event::Corrected { station, .. } ==> event.subject() == station@,
        event matches Event::Missed { station, .. } ==> event.subject() == station@,
        event matches Event::Error { station, .. } ==> event.subject() == station@,
{
}

/// Rows are told by the row's own line behind a word for how it came: of the
/// history, new or corrected. A new one says how old it was when it was seen,
/// and whether it was expected.
pub proof fn law_rows_are_told_by_their_lines(event: Event, f: Figures, zone: Zone)
    ensures
        event matches Event::History { obs, .. } ==> body_text(event, f, zone) == "hist  "@
            + row_text(obs, f, zone),
        event matches Event::Corrected { obs, .. } ==> body_text(event, f, zone) == "CORR  "@
            + row_text(obs, f, zone),
        event matches Event::New { obs, latency_s, on_schedule, .. } ==> body_text(event, f, zone)
            == "NEW   "@ + row_text(obs, f, zone) + "  [seen "@ + signed_decimal(latency_s as int)
            + "s after obs time"@ + (if on_schedule {
            "]"@
        } else {
            ", unscheduled]"@
        }),
{
}

/// What is awaited, missed, learned or wrong is told with its own times and
/// numbers.
pub proof fn law_other_events_are_told_in_words(event: Event, f: Figures, zone: Zone)
    ensures
        event matches Event::Waiting { expected, poll_from, .. } ==> body_text(event, f, zone)
            == "next row expected "@ + time_text(expected, zone, Style::Minute)
            + ", polling from "@ + time_text(poll_from, zone, Style::Clock),
        event matches Event::Missed { expected, .. } ==> body_text(event, f, zone)
            == "no row for "@ + time_text(expected, zone, Style::Minute)
            + " yet, moving on (it will still be reported if it turns up)"@,
        event matches Event::Error { message, .. } ==> body_text(event, f, zone) == "error "@
            + message@,
        event matches Event::NoCadence { rows, .. } ==> body_text(event, f, zone)
            == "no regular cadence in "@ + decimal(rows as nat)
            + " rows; polling at the slow interval"@,
        event matches Event::CadenceLearned { description, samples, lag_min_s, lag_median_s, .. }
            ==> body_text(event, f, zone) == "cadence "@ + description@ + " ("@ + decimal(
            samples as nat,
        ) + " intervals, "@ + f.agreement@ + "% agree); reports appear "@ + lag_text(
            lag_min_s,
            "no earlier than "@,
        ) + " after the obs time (median "@ + lag_text(lag_median_s, ""@) + ")"@,
        event matches Event::Station { source, info, .. } ==> body_text(event, f, zone) == (
        match info.name {
            Some(name) => name@,
            None => "(unnamed)"@,
        }) + " via "@ + source@ + location_text(info, f),
{
}

/// A zone that is not known is named as it was given.
pub proof fn law_unknown_zones_are_named(s: Seq<char>)
    ensures
        unknown_zone(s) == "unknown time zone '"@ + s
            + "'; use an IANA name such as UTC or America/New_York"@,
{
}

/// Every option ends up in the setting of its own name, in whole. Without a
/// number of rows to replay, three are replayed, or all where nothing else is
/// shown.
pub proof fn law_options_become_settings(o: Options)
    ensures
        ({
            let s = o.settings();
            &&& s.history == o.history
            &&& s.poll_interval == o.poll_interval
            &&& s.slow_interval == o.slow_interval
            &&& s.fast_window == o.fast_window
            &&& s.lag_margin == o.lag_margin
            &&& s.idle_poll == o.idle_poll
            &&& o.replay matches Some(n) ==> s.replay == n
            &&& o.replay is None && o.once ==> s.replay == usize::MAX
            &&& o.replay is None && !o.once ==> s.replay == 3
        }),
{
}

/// Options are refused exactly when an interval is shorter than a second, and
/// the one that is told is such a one.
pub proof fn law_short_intervals_are_refused(o: Options)
    ensures
        o.too_short() is None <==> o.poll_interval.secs >= 1 && o.slow_interval.secs >= 1 && (
        o.idle_poll matches Some(d) ==> d.secs >= 1),
        o.poll_interval.secs == 0 ==> o.too_short() == Some("--poll-interval"@),
        o.poll_interval.secs >= 1 && o.slow_interval.secs == 0 ==> o.too_short() == Some(
            "--slow-interval"@,
        ),
        o.poll_interval.secs >= 1 && o.slow_interval.secs >= 1 && (o.idle_poll matches Some(d)
            && d.secs == 0) ==> o.too_short() == Some("--idle-poll"@),
{
}

} // verus!
