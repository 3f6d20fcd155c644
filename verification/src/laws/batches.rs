//! Which rows a response comes to, and what makes a row the same as another.

use vstd::prelude::*;

use crate::content::{content, Numbers};
use crate::json::{told, Entry};
use crate::model::{Batch, Observation};
use crate::order::{in_order, ranked};
use crate::source::awc::{gathered, of_station, timed, Metar};
use crate::source::nws::{collected, Feature};
use crate::source::synoptic::{scales_for, tabled, Station};
use crate::text::{law_case_is_all_that_changes, lower};
use crate::time::{rfc3339, Time};

verus! {

/// The report is one of the station and says when it was made.
pub open spec fn counts(station: Seq<char>) -> spec_fn(Metar) -> bool {
    |r: Metar| lower(r.icao_id@) == lower(station) && r.valid_time() is Some
}

proof fn lemma_those_that_count(records: Seq<Metar>, station: Seq<char>)
    ensures
        timed(of_station(records, station)) == records.filter(counts(station)),
    decreases records.len(),
{
    reveal(Seq::filter);
    law_case_is_all_that_changes(station);
    if records.len() > 0 {
        let head = records.drop_last();
        lemma_those_that_count(head, station);
        let own = of_station(head, station);
        assert(own.push(records.last()).drop_last() =~= own);
    }
}

/// There is one row for each report of the station that says when it was made,
/// made of that report, and no other; and they are in order of time.
pub proof fn law_every_report_of_the_station_makes_a_row(
    station: Seq<char>,
    records: Seq<Metar>,
    batch: Batch,
)
    requires
        gathered(station, records, batch),
    ensures
        ranked(batch.rows@),
        exists|rows: Seq<Observation>|
            rows.to_multiset() == batch.rows@.to_multiset() && #[trigger] each_makes(
                records.filter(counts(station)),
                rows,
            ),
{
    let own = of_station(records, station);
    lemma_those_that_count(records, station);
    let rows = choose|rows: Seq<Observation>| #[trigger]
        crate::source::awc::rows_report(timed(own), rows) && batch.rows@ == in_order(rows);
    crate::order::law_sorting_keeps_the_values(rows);
    crate::order::law_sorting_ranks(rows);
    assert(each_makes(records.filter(counts(station)), rows));
}

/// The rows are made of the reports, one of each.
pub open spec fn each_makes(records: Seq<Metar>, rows: Seq<Observation>) -> bool {
    records.len() == rows.len() && forall|k: int|
        0 <= k < rows.len() ==> (#[trigger] records[k]).reports(rows[k])
}

/// The station is described by its first report, with or without a time, and
/// not at all where there is none.
pub proof fn law_the_first_report_describes_the_station(
    station: Seq<char>,
    records: Seq<Metar>,
    batch: Batch,
    i: int,
)
    requires
        gathered(station, records, batch),
        0 <= i < records.len(),
        forall|k: int|
            0 <= k < i ==> lower((#[trigger] records[k]).icao_id@) != lower(station),
    ensures
        lower(records[i].icao_id@) == lower(station) ==> (batch.info matches Some(info)
            && records[i].describes(info)),
        i == records.len() - 1 && lower(records[i].icao_id@) != lower(station)
            ==> batch.info is None && batch.rows@.len() == 0,
{
    law_case_is_all_that_changes(station);
    lemma_first(records, station, i);
    if i == records.len() - 1 && lower(records[i].icao_id@) != lower(station) {
        assert(of_station(records, station) =~= Seq::empty());
        let rows = choose|rows: Seq<Observation>| #[trigger]
            crate::source::awc::rows_report(timed(of_station(records, station)), rows)
                && batch.rows@ == in_order(rows);
        assert(rows.len() == 0);
        crate::order::law_sorting_keeps_the_values(rows);
    }
}

proof fn lemma_first(records: Seq<Metar>, station: Seq<char>, i: int)
    requires
        0 <= i < records.len(),
        forall|k: int|
            0 <= k < i ==> lower((#[trigger] records[k]).icao_id@) != lower(station),
    ensures
        lower(records[i].icao_id@) == lower(station) ==> of_station(records, station).len() > 0
            && of_station(records, station)[0] == records[i],
        i == records.len() - 1 && lower(records[i].icao_id@) != lower(station) ==> of_station(
            records,
            station,
        ).len() == 0,
    decreases records.len(),
{
    law_case_is_all_that_changes(station);
    let head = records.drop_last();
    if i < head.len() {
        assert forall|k: int| 0 <= k < i implies lower((#[trigger] head[k]).icao_id@) != lower(
            station,
        ) by {
            assert(lower(records[k].icao_id@) != lower(station));
        }
        lemma_first(head, station, i);
    } else {
        lemma_none(head, station);
    }
}

proof fn lemma_none(records: Seq<Metar>, station: Seq<char>)
    requires
        forall|k: int|
            0 <= k < records.len() ==> lower((#[trigger] records[k]).icao_id@) != lower(station),
    ensures
        of_station(records, station).len() == 0,
    decreases records.len(),
{
    law_case_is_all_that_changes(station);
    if records.len() > 0 {
        let head = records.drop_last();
        assert forall|k: int| 0 <= k < head.len() implies lower((#[trigger] head[k]).icao_id@)
            != lower(station) by {
            assert(lower(records[k].icao_id@) != lower(station));
        }
        lemma_none(head, station);
        assert(lower(records[records.len() - 1].icao_id@) != lower(station));
    }
}

/// A report has a time where its seconds lie in the calendar, or where it gives
/// none but a time in words that can be read.
pub proof fn law_reports_with_a_time(r: Metar)
    ensures
        r.obs_time matches Some(s) ==> (r.valid_time() is Some <==> (Time {
            secs: s,
            nanos: 0,
        }).wf()),
        r.obs_time is None ==> (r.valid_time() is Some <==> (r.report_time matches Some(w)
            && rfc3339(crate::source::awc::timestamp_text(w@)) is Some)),
{
}

/// The entry says when it was made.
pub open spec fn has_time() -> spec_fn(Feature) -> bool {
    |f: Feature| f.properties.valid_time() is Some
}

proof fn lemma_those_with_a_time(features: Seq<Feature>)
    ensures
        crate::source::nws::timed(features) == features.filter(has_time()),
    decreases features.len(),
{
    reveal(Seq::filter);
    if features.len() > 0 {
        lemma_those_with_a_time(features.drop_last());
    }
}

/// There is one row for each entry that says when it was made, made of that
/// entry, and no other; and they are in order of time.
pub proof fn law_every_entry_with_a_time_makes_a_row(
    station: Seq<char>,
    features: Seq<Feature>,
    batch: Batch,
)
    requires
        collected(station, features, batch),
    ensures
        ranked(batch.rows@),
        exists|rows: Seq<Observation>|
            rows.to_multiset() == batch.rows@.to_multiset() && #[trigger] entries_make(
                features.filter(has_time()),
                station,
                rows,
            ),
{
    lemma_those_with_a_time(features);
    let rows = choose|rows: Seq<Observation>| #[trigger]
        crate::source::nws::rows_report(station, crate::source::nws::timed(features), rows)
            && batch.rows@ == in_order(rows);
    crate::order::law_sorting_keeps_the_values(rows);
    crate::order::law_sorting_ranks(rows);
    assert(entries_make(features.filter(has_time()), station, rows));
}

/// The rows are made of the entries, one of each.
pub open spec fn entries_make(
    entries: Seq<Feature>,
    station: Seq<char>,
    rows: Seq<Observation>,
) -> bool {
    entries.len() == rows.len() && forall|k: int|
        0 <= k < rows.len() ==> (#[trigger] entries[k]).properties.reports(station, rows[k])
}

/// Every row of a station that has a time makes a row, by the units of the
/// response; and every row is made of one that has a time.
pub proof fn law_every_row_with_a_time_counts(
    units: Seq<Entry<String>>,
    st: Station,
    batch: Batch,
    i: int,
    k: int,
)
    requires
        tabled(units, st, batch),
        0 <= i < st.height(),
        st.time_at(i) is Some,
        0 <= k < batch.rows@.len(),
    ensures
        ranked(batch.rows@),
        batch.info matches Some(info) && st.describes(units, info),
        exists|j: int|
            0 <= j < batch.rows@.len() && st.reports(
                scales_for(units),
                i,
                #[trigger] batch.rows@[j],
            ),
        exists|j: int|
            0 <= j < st.height() && #[trigger] st.reports(scales_for(units), j, batch.rows@[k]),
{
    let scales = scales_for(units);
    let which = st.timed(st.height());
    let rows = choose|rows: Seq<Observation>| #[trigger]
        crate::source::synoptic::rows_report(st, scales, which, rows) && batch.rows@ == in_order(
            rows,
        );
    crate::order::law_sorting_ranks(rows);
    crate::laws::synoptic::law_rows_with_a_time_count(st, st.height(), i);
    let a = choose|a: int| 0 <= a < which.len() && which[a] == i;
    assert(st.reports(scales, which[a], rows[a]));
    assert(rows.contains(rows[a]));
    crate::order::lemma_same_members(rows, rows[a]);
    let j = choose|j: int| 0 <= j < batch.rows@.len() && batch.rows@[j] == rows[a];
    assert(st.reports(scales, i, batch.rows@[j]));
    assert(in_order(rows).contains(batch.rows@[k]));
    crate::order::lemma_same_members(rows, batch.rows@[k]);
    let b = choose|b: int| 0 <= b < rows.len() && rows[b] == batch.rows@[k];
    assert(st.reports(scales, which[b], rows[b]));
    assert(which.contains(which[b]));
    crate::laws::synoptic::law_rows_with_a_time_count(st, st.height(), which[b]);
}

/// A number that counts only where there is a value.
pub open spec fn same_number(x: bool, t: Seq<char>, y: bool, u: Seq<char>) -> bool {
    x == y && (x ==> t == u)
}

/// Rows of the same content agree in every field: in the texts, the times and
/// the flags, in which values they have, and in the numbers of those.
pub proof fn law_the_same_content_agrees_in_every_field(
    a: Observation,
    n: Numbers,
    b: Observation,
    m: Numbers,
)
    requires
        content(a, n) == content(b, m),
    ensures
        a.station@ == b.station@,
        a.time == b.time,
        a.received == b.received,
        a.kind == b.kind,
        a.wind_variable == b.wind_variable,
        told(a.weather) == told(b.weather),
        told(a.raw) == told(b.raw),
        a.clouds@.len() == b.clouds@.len(),
        forall|i: int|
            0 <= i < a.clouds@.len() ==> (#[trigger] a.clouds@[i]).cover@ == b.clouds@[i].cover@ && (
            a.clouds@[i].base_m is Some <==> b.clouds@[i].base_m is Some),
        forall|i: int|
            0 <= i < a.clouds@.len() && i < n.bases@.len() && i < m.bases@.len() && (
            #[trigger] a.clouds@[i]).base_m is Some ==> n.bases@[i]@ == m.bases@[i]@,
        same_number(a.air_temp_c is Some, n.air_temp_c@, b.air_temp_c is Some, m.air_temp_c@),
        same_number(a.air_temp_f is Some, n.air_temp_f@, b.air_temp_f is Some, m.air_temp_f@),
        same_number(a.dew_point_c is Some, n.dew_point_c@, b.dew_point_c is Some, m.dew_point_c@),
        same_number(a.dew_point_f is Some, n.dew_point_f@, b.dew_point_f is Some, m.dew_point_f@),
        same_number(
            a.relative_humidity_pct is Some,
            n.relative_humidity_pct@,
            b.relative_humidity_pct is Some,
            m.relative_humidity_pct@,
        ),
        same_number(
            a.wind_direction_deg is Some,
            n.wind_direction_deg@,
            b.wind_direction_deg is Some,
            m.wind_direction_deg@,
        ),
        same_number(
            a.wind_speed_ms is Some,
            n.wind_speed_ms@,
            b.wind_speed_ms is Some,
            m.wind_speed_ms@,
        ),
        same_number(
            a.wind_gust_ms is Some,
            n.wind_gust_ms@,
            b.wind_gust_ms is Some,
            m.wind_gust_ms@,
        ),
        same_number(
            a.visibility_km is Some,
            n.visibility_km@,
            b.visibility_km is Some,
            m.visibility_km@,
        ),
        same_number(
            a.altimeter_hpa is Some,
            n.altimeter_hpa@,
            b.altimeter_hpa is Some,
            m.altimeter_hpa@,
        ),
        same_number(
            a.sea_level_pressure_hpa is Some,
            n.sea_level_pressure_hpa@,
            b.sea_level_pressure_hpa is Some,
            m.sea_level_pressure_hpa@,
        ),
        same_number(
            a.precip_1h_mm is Some,
            n.precip_1h_mm@,
            b.precip_1h_mm is Some,
            m.precip_1h_mm@,
        ),
        same_number(
            a.precip_3h_mm is Some,
            n.precip_3h_mm@,
            b.precip_3h_mm is Some,
            m.precip_3h_mm@,
        ),
        same_number(
            a.precip_6h_mm is Some,
            n.precip_6h_mm@,
            b.precip_6h_mm is Some,
            m.precip_6h_mm@,
        ),
        same_number(
            a.precip_24h_mm is Some,
            n.precip_24h_mm@,
            b.precip_24h_mm is Some,
            m.precip_24h_mm@,
        ),
        same_number(
            a.snow_depth_cm is Some,
            n.snow_depth_cm@,
            b.snow_depth_cm is Some,
            m.snow_depth_cm@,
        ),
{
    let c = content(a, n).clouds;
    let d = content(b, m).clouds;
    assert(c.len() == d.len());
    assert forall|i: int| 0 <= i < a.clouds@.len() implies (#[trigger] a.clouds@[i]).cover@
        == b.clouds@[i].cover@ && (a.clouds@[i].base_m is Some <==> b.clouds@[i].base_m is Some) by {
        assert(c[i] == d[i]);
    }
    assert forall|i: int|
        0 <= i < a.clouds@.len() && i < n.bases@.len() && i < m.bases@.len() && (
        #[trigger] a.clouds@[i]).base_m is Some implies n.bases@[i]@ == m.bases@[i]@ by {
        assert(c[i] == d[i]);
    }
}

} // verus!
