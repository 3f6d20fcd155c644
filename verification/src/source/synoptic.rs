//! Synoptic Data API backend, the provider behind the weather.gov WRH timeseries page.
//!
//! Needs an API token. The token embedded in the weather.gov page is locked to
//! that site, and Synoptic's free tier is limited to US academic accounts, so
//! this backend is opt-in.

use vstd::prelude::*;
use vstd::utf8::encode_utf8;

use crate::json::{look_up, told, under, Cell, Entry};
use crate::model::{
    bearing, bearing_of, convert, converted, humidity, humidity_of, keep, unconverted, Batch,
    Bearing, Humidity, Measure, ObsKind, Observation, Reading, Scale, StationInfo, Unit,
};
use crate::numeral::{all_digits, is_digit};
use crate::order::{in_order, sort};
use crate::record::{
    as_entries, as_table, at_place, needed, needed_says, numbered, option, option_says, read_all,
    text_wrong, words, Inner, Readable, Record, Table,
};
use crate::source::{drop_blank, fault, instant, parse_time, says, Fault};
use crate::text::{
    begins_with, chars_of, decimal, decimal_of, law_case_is_all_that_changes, lower, same,
    same_ignoring_case, signed_decimal, signed_decimal_of, starts_with, to_lower, to_upper, trim,
    trim_start, trimmed, trimmed_start, upper,
};
use crate::time::{Span, Time};

verus! {

/// How the request went.
#[derive(Debug)]
pub struct Summary {
    pub code: i64,
    pub message: String,
}

impl Record for Summary {
    open spec fn title() -> Seq<char> {
        "struct SynSummary"@
    }

    open spec fn names() -> Seq<Seq<char>> {
        seq!["RESPONSE_CODE"@, "RESPONSE_MESSAGE"@]
    }

    open spec fn needs(k: int) -> bool {
        k == 0
    }

    open spec fn least() -> nat {
        1
    }

    open spec fn part_wrong(k: int, text: Seq<u8>, i: int) -> Option<Seq<char>> {
        if k == 0 {
            i64::wrong(text, i)
        } else {
            String::wrong(text, i)
        }
    }

    open spec fn tells(self, text: Seq<u8>, places: Seq<Option<int>>) -> bool {
        &&& needed_says(self.code, text, places[0])
        &&& match places[1] {
            Some(i) => self.message.says(text, i),
            None => self.message@.len() == 0,
        }
    }

    fn form() -> (r: (&'static str, Vec<&'static str>, usize)) {
        let names: Vec<&'static str> = vec!["RESPONSE_CODE", "RESPONSE_MESSAGE"];
        assert(words(names@) =~= Self::names());
        ("struct SynSummary", names, 1)
    }

    fn is_needed(k: usize) -> (r: bool) {
        k == 0
    }

    fn check_part(k: usize, text: &[u8], i: usize) -> (r: Option<String>) {
        if k == 0 {
            i64::check(text, i)
        } else {
            String::check(text, i)
        }
    }

    fn build(text: &[u8], places: &Vec<Option<usize>>) -> (r: Summary) {
        let ghost all = numbered(places@);
        assert(all[0] == at_place(places@[0]));
        assert(all[1] == at_place(places@[1]));
        let message = match places[1] {
            Some(i) => String::decode(text, i),
            None => String::new(),
        };
        Summary {
            code: needed(text, places[0]),
            message,
        }
    }
}

/// One variable over time.
#[derive(Debug)]
pub struct Column {
    pub cells: Vec<Cell>,
}

/// A value within a station within a response.
type Detail = Inner<125>;

/// A value within a column of a station.
type Item = Inner<123>;

impl Readable for Column {
    open spec fn wrong(text: Seq<u8>, i: int) -> Option<Seq<char>> {
        Vec::<Item>::wrong(text, i)
    }

    open spec fn says(self, text: Seq<u8>, i: int) -> bool {
        exists|items: Vec<Item>| #[trigger] items.says(text, i) && same_cells(self.cells@, items@)
    }

    fn check(text: &[u8], i: usize) -> (r: Option<String>) {
        Vec::<Item>::check(text, i)
    }

    fn decode(text: &[u8], i: usize) -> (r: Column) {
        let items = Vec::<Item>::decode(text, i);
        let ghost all = items;
        let mut cells: Vec<Cell> = Vec::new();
        for item in it: items
            invariant
                it.seq() == all@,
                cells@.len() == it.index(),
                forall|k: int| 0 <= k < cells@.len() ==> #[trigger] cells@[k] == all@[k].cell,
        {
            cells.push(item.cell);
        }
        assert(all.says(text@, i as int) && same_cells(cells@, all@));
        Column { cells }
    }
}

/// The cells are those of the items.
pub open spec fn same_cells(cells: Seq<Cell>, items: Seq<Item>) -> bool {
    cells.len() == items.len() && forall|k: int|
        0 <= k < cells.len() ==> #[trigger] cells[k] == items[k].cell
}

/// A cell of a station.
pub open spec fn detail(cell: Option<Cell>) -> Option<Detail> {
    match cell {
        Some(cell) => Some(Inner { cell }),
        None => None,
    }
}

fn cell_of_detail(item: Option<Detail>) -> (r: Option<Cell>)
    ensures
        detail(r) == item,
{
    match item {
        Some(item) => Some(item.cell),
        None => None,
    }
}

/// One station as the service sends it.
#[derive(Debug)]
pub struct Station {
    pub stid: String,
    pub name: Option<String>,
    pub lat: Option<Cell>,
    pub lon: Option<Cell>,
    pub elevation: Option<Cell>,
    pub observations: Option<Vec<Entry<Column>>>,
}

impl Record for Station {
    open spec fn title() -> Seq<char> {
        "struct SynStation"@
    }

    open spec fn names() -> Seq<Seq<char>> {
        seq![
            "STID"@,
            "NAME"@,
            "LATITUDE"@,
            "LONGITUDE"@,
            "ELEVATION"@,
            "OBSERVATIONS"@,
        ]
    }

    open spec fn needs(k: int) -> bool {
        k == 0
    }

    open spec fn least() -> nat {
        6
    }

    open spec fn part_wrong(k: int, text: Seq<u8>, i: int) -> Option<Seq<char>> {
        if k == 0 {
            String::wrong(text, i)
        } else if k == 1 {
            Option::<String>::wrong(text, i)
        } else if k == 5 {
            Option::<Table<Column>>::wrong(text, i)
        } else {
            Option::<Detail>::wrong(text, i)
        }
    }

    open spec fn tells(self, text: Seq<u8>, places: Seq<Option<int>>) -> bool {
        &&& needed_says(self.stid, text, places[0])
        &&& option_says(self.name, text, places[1])
        &&& option_says(detail(self.lat), text, places[2])
        &&& option_says(detail(self.lon), text, places[3])
        &&& option_says(detail(self.elevation), text, places[4])
        &&& option_says(as_table(self.observations), text, places[5])
    }

    fn form() -> (r: (&'static str, Vec<&'static str>, usize)) {
        let names: Vec<&'static str> = vec![
            "STID", "NAME", "LATITUDE", "LONGITUDE", "ELEVATION", "OBSERVATIONS",
        ];
        assert(words(names@) =~= Self::names());
        ("struct SynStation", names, 6)
    }

    fn is_needed(k: usize) -> (r: bool) {
        k == 0
    }

    fn check_part(k: usize, text: &[u8], i: usize) -> (r: Option<String>) {
        if k == 0 {
            String::check(text, i)
        } else if k == 1 {
            Option::<String>::check(text, i)
        } else if k == 5 {
            Option::<Table<Column>>::check(text, i)
        } else {
            Option::<Detail>::check(text, i)
        }
    }

    fn build(text: &[u8], places: &Vec<Option<usize>>) -> (r: Station) {
        let ghost all = numbered(places@);
        assert(all[0] == at_place(places@[0]));
        assert(all[1] == at_place(places@[1]));
        assert(all[2] == at_place(places@[2]));
        assert(all[3] == at_place(places@[3]));
        assert(all[4] == at_place(places@[4]));
        assert(all[5] == at_place(places@[5]));
        Station {
            stid: needed(text, places[0]),
            name: option(text, places[1]),
            lat: cell_of_detail(option(text, places[2])),
            lon: cell_of_detail(option(text, places[3])),
            elevation: cell_of_detail(option(text, places[4])),
            observations: as_entries(option(text, places[5])),
        }
    }
}

/// A response as the service sends it.
#[derive(Debug)]
pub struct Response {
    pub summary: Summary,
    pub units: Option<Vec<Entry<String>>>,
    pub stations: Option<Vec<Station>>,
}

impl Record for Response {
    open spec fn title() -> Seq<char> {
        "struct SynResponse"@
    }

    open spec fn names() -> Seq<Seq<char>> {
        seq!["SUMMARY"@, "UNITS"@, "STATION"@]
    }

    open spec fn needs(k: int) -> bool {
        k == 0
    }

    open spec fn least() -> nat {
        3
    }

    open spec fn part_wrong(k: int, text: Seq<u8>, i: int) -> Option<Seq<char>> {
        if k == 0 {
            Summary::wrong(text, i)
        } else if k == 1 {
            Option::<Table<String>>::wrong(text, i)
        } else {
            Option::<Vec<Station>>::wrong(text, i)
        }
    }

    open spec fn tells(self, text: Seq<u8>, places: Seq<Option<int>>) -> bool {
        &&& needed_says(self.summary, text, places[0])
        &&& option_says(as_table(self.units), text, places[1])
        &&& option_says(self.stations, text, places[2])
    }

    fn form() -> (r: (&'static str, Vec<&'static str>, usize)) {
        let names: Vec<&'static str> = vec!["SUMMARY", "UNITS", "STATION"];
        assert(words(names@) =~= Self::names());
        ("struct SynResponse", names, 3)
    }

    fn is_needed(k: usize) -> (r: bool) {
        k == 0
    }

    fn check_part(k: usize, text: &[u8], i: usize) -> (r: Option<String>) {
        if k == 0 {
            Summary::check(text, i)
        } else if k == 1 {
            Option::<Table<String>>::check(text, i)
        } else {
            Option::<Vec<Station>>::check(text, i)
        }
    }

    fn build(text: &[u8], places: &Vec<Option<usize>>) -> (r: Response) {
        let ghost all = numbered(places@);
        assert(all[0] == at_place(places@[0]));
        assert(all[1] == at_place(places@[1]));
        assert(all[2] == at_place(places@[2]));
        Response {
            summary: needed(text, places[0]),
            units: as_entries(option(text, places[1])),
            stations: option(text, places[2]),
        }
    }
}

/// The number that digits spell.
pub open spec fn number_of(digits: Seq<char>) -> nat
    decreases digits.len(),
{
    if digits.len() == 0 {
        0
    } else {
        (10 * number_of(digits.drop_last()) + (digits.last() as int - '0' as int)) as nat
    }
}

/// `a` comes before `b` in the order of a dictionary.
pub open spec fn alphabetical(a: Seq<char>, b: Seq<char>) -> bool
    decreases a.len(),
{
    if a.len() == 0 || b.len() == 0 {
        a.len() < b.len()
    } else {
        a[0] < b[0] || (a[0] == b[0] && alphabetical(a.drop_first(), b.drop_first()))
    }
}

/// A column of a variable group: the number of the sensor in digits, and
/// whether the values are derived.
pub struct Sensor {
    pub digits: Seq<char>,
    pub derived: bool,
}

/// The sensor of a column that is named `<group>_set_N` or, where the values
/// are derived, `<group>_set_Nd`.
pub open spec fn sensor_of(name: Seq<char>, group: Seq<char>) -> Option<Sensor> {
    let prefix = group + "_set_"@;
    let rest = name.skip(prefix.len() as int);
    let derived = rest.len() > 0 && rest.last() == 'd';
    let digits = if derived {
        rest.drop_last()
    } else {
        rest
    };
    if begins_with(name, prefix) && digits.len() > 0 && all_digits(digits) {
        Some(Sensor { digits, derived })
    } else {
        None
    }
}

impl Sensor {
    /// A sensor is preferred for its lower number, then for not being derived,
    /// then in the order of a dictionary.
    pub open spec fn beats(self, other: Sensor) -> bool {
        let a = number_of(self.digits);
        let b = number_of(other.digits);
        a < b || (a == b && ((!self.derived && other.derived) || (self.derived == other.derived
            && alphabetical(self.digits, other.digits))))
    }
}

/// The position of the column to use for a variable group: the first one that
/// no later one beats.
pub open spec fn best_of(entries: Seq<Entry<Column>>, group: Seq<char>) -> Option<int>
    decreases entries.len(),
{
    if entries.len() == 0 {
        None
    } else {
        let before = best_of(entries.drop_last(), group);
        match (sensor_of(entries.last().name@, group), before) {
            (None, _) => before,
            (Some(_), None) => Some(entries.len() - 1),
            (Some(s), Some(k)) => match sensor_of(entries[k].name@, group) {
                Some(t) if s.beats(t) => Some(entries.len() - 1),
                _ => before,
            },
        }
    }
}

/// Leading zeros count for nothing.
proof fn lemma_leading_zeros(s: Seq<char>, n: int)
    requires
        0 <= n <= s.len(),
        forall|i: int| 0 <= i < n ==> #[trigger] s[i] == '0',
        all_digits(s),
    ensures
        number_of(s) == number_of(s.skip(n)),
    decreases s.len(),
{
    if n == 0 {
        assert(s.skip(0) == s);
    } else if n == s.len() {
        let head = s.drop_last();
        assert(all_digits(head)) by {
            assert forall|i: int| 0 <= i < head.len() implies is_digit(#[trigger] head[i]) by {
                assert(is_digit(s[i]));
            }
        }
        lemma_leading_zeros(head, n - 1);
        assert(head.skip(n - 1).len() == 0);
        assert(s[n - 1] == '0');
    } else {
        let head = s.drop_last();
        assert(all_digits(head)) by {
            assert forall|i: int| 0 <= i < head.len() implies is_digit(#[trigger] head[i]) by {
                assert(is_digit(s[i]));
            }
        }
        lemma_leading_zeros(head, n);
        assert(s.skip(n).drop_last() == head.skip(n));
    }
}

/// Of two numerals of the same length, the first digit that differs decides.
proof fn lemma_first_difference(a: Seq<char>, b: Seq<char>, i: int)
    requires
        a.len() == b.len(),
        all_digits(a),
        all_digits(b),
        0 <= i < a.len(),
        forall|k: int| 0 <= k < i ==> #[trigger] a[k] == b[k],
        a[i] < b[i],
    ensures
        number_of(a) < number_of(b),
    decreases a.len(),
{
    let u = a.drop_last();
    let v = b.drop_last();
    let n = a.len() - 1;
    assert(is_digit(a[n]) && is_digit(b[n]));
    if i == n {
        assert(u =~= v);
    } else {
        assert forall|k: int| 0 <= k < u.len() implies is_digit(#[trigger] u[k]) by {
            assert(is_digit(a[k]));
        }
        assert forall|k: int| 0 <= k < v.len() implies is_digit(#[trigger] v[k]) by {
            assert(is_digit(b[k]));
        }
        lemma_first_difference(u, v, i);
    }
}

/// Of two numerals, the shorter one is the smaller, unless the longer one
/// begins with a zero.
proof fn lemma_shorter(a: Seq<char>, b: Seq<char>)
    requires
        a.len() < b.len(),
        all_digits(a),
        all_digits(b),
        b[0] != '0',
    ensures
        number_of(a) < number_of(b),
    decreases b.len(),
{
    let v = b.drop_last();
    let n = b.len() - 1;
    assert(is_digit(b[n]) && is_digit(b[0]));
    assert forall|k: int| 0 <= k < v.len() implies is_digit(#[trigger] v[k]) by {
        assert(is_digit(b[k]));
    }
    if a.len() == 0 {
        if n > 0 {
            lemma_shorter(a, v);
        }
    } else {
        let u = a.drop_last();
        assert(is_digit(a[a.len() - 1]));
        assert forall|k: int| 0 <= k < u.len() implies is_digit(#[trigger] u[k]) by {
            assert(is_digit(a[k]));
        }
        lemma_shorter(u, v);
    }
}

/// How one thing ranks against another.
#[derive(Debug, Clone, Copy, PartialEq, Eq, Structural)]
enum Rank {
    Before,
    Level,
    Behind,
}

fn first_nonzero(v: &Vec<char>) -> (r: usize)
    ensures
        r <= v@.len(),
        forall|i: int| 0 <= i < r ==> #[trigger] v@[i] == '0',
        r < v@.len() ==> v@[r as int] != '0',
{
    let mut i: usize = 0;
    while i < v.len() && v[i] == '0'
        invariant
            i <= v@.len(),
            forall|k: int| 0 <= k < i ==> #[trigger] v@[k] == '0',
        ensures
            i <= v@.len(),
            forall|k: int| 0 <= k < i ==> #[trigger] v@[k] == '0',
            i < v@.len() ==> v@[i as int] != '0',
        decreases v@.len() - i,
    {
        i += 1;
    }
    i
}

/// Ranks two numerals by the numbers that they spell.
fn rank_numbers(a: &Vec<char>, b: &Vec<char>) -> (r: Rank)
    requires
        all_digits(a@),
        all_digits(b@),
    ensures
        r == if number_of(a@) < number_of(b@) {
            Rank::Before
        } else if number_of(a@) == number_of(b@) {
            Rank::Level
        } else {
            Rank::Behind
        },
{
    let i: usize = first_nonzero(a);
    let j: usize = first_nonzero(b);
    let ghost u = a@.skip(i as int);
    let ghost v = b@.skip(j as int);
    proof {
        lemma_leading_zeros(a@, i as int);
        lemma_leading_zeros(b@, j as int);
        assert forall|k: int| 0 <= k < u.len() implies is_digit(#[trigger] u[k]) by {
            assert(is_digit(a@[i + k]));
        }
        assert forall|k: int| 0 <= k < v.len() implies is_digit(#[trigger] v[k]) by {
            assert(is_digit(b@[j + k]));
        }
    }
    let m: usize = a.len() - i;
    let n: usize = b.len() - j;
    if m < n {
        proof {
            lemma_shorter(u, v);
        }
        return Rank::Before;
    }
    if n < m {
        proof {
            lemma_shorter(v, u);
        }
        return Rank::Behind;
    }
    let mut k: usize = 0;
    while k < m
        invariant
            k <= m,
            i + m == a.len(),
            j + m == b.len(),
            u == a@.skip(i as int),
            v == b@.skip(j as int),
            all_digits(u),
            all_digits(v),
            number_of(a@) == number_of(u),
            number_of(b@) == number_of(v),
            forall|x: int| 0 <= x < k ==> #[trigger] u[x] == v[x],
        decreases m - k,
    {
        let c = a[i + k];
        let d = b[j + k];
        if c < d {
            proof {
                lemma_first_difference(u, v, k as int);
            }
            return Rank::Before;
        }
        if d < c {
            proof {
                assert forall|x: int| 0 <= x < k implies #[trigger] v[x] == u[x] by {
                    assert(u[x] == v[x]);
                }
                lemma_first_difference(v, u, k as int);
            }
            return Rank::Behind;
        }
        k += 1;
    }
    assert(u =~= v);
    Rank::Level
}

fn is_alphabetical(a: &Vec<char>, b: &Vec<char>) -> (r: bool)
    ensures
        r == alphabetical(a@, b@),
{
    let mut i: usize = 0;
    assert(a@.skip(0) == a@ && b@.skip(0) == b@);
    while i < a.len() && i < b.len()
        invariant
            i <= a@.len(),
            i <= b@.len(),
            alphabetical(a@, b@) == alphabetical(a@.skip(i as int), b@.skip(i as int)),
        decreases a@.len() - i,
    {
        assert(a@.skip(i as int)[0] == a@[i as int]);
        assert(b@.skip(i as int)[0] == b@[i as int]);
        assert(a@.skip(i as int).drop_first() == a@.skip(i + 1));
        assert(b@.skip(i as int).drop_first() == b@.skip(i + 1));
        if a[i] < b[i] {
            return true;
        }
        if b[i] < a[i] {
            return false;
        }
        i += 1;
    }
    a.len() < b.len()
}

struct Found {
    digits: Vec<char>,
    derived: bool,
}

impl Found {
    spec fn sensor(self) -> Sensor {
        Sensor { digits: self.digits@, derived: self.derived }
    }

    fn is_better(&self, other: &Found) -> (r: bool)
        requires
            all_digits(self.digits@),
            all_digits(other.digits@),
        ensures
            r == self.sensor().beats(other.sensor()),
    {
        match rank_numbers(&self.digits, &other.digits) {
            Rank::Before => true,
            Rank::Behind => false,
            Rank::Level => (!self.derived && other.derived) || (self.derived == other.derived
                && is_alphabetical(&self.digits, &other.digits)),
        }
    }
}

fn find_sensor(name: &str, group: &str) -> (r: Option<Found>)
    ensures
        match r {
            Some(f) => sensor_of(name@, group@) == Some(f.sensor()) && all_digits(f.digits@),
            None => sensor_of(name@, group@) is None,
        },
{
    let mut prefix = group.to_owned();
    prefix.append("_set_");
    if !starts_with(name, prefix.as_str()) {
        return None;
    }
    let mut all = chars_of(name);
    let head: usize = chars_of(prefix.as_str()).len();
    let mut digits = all.split_off(head);
    let ghost rest = digits@;
    assert(rest == name@.skip(prefix@.len() as int));
    let derived = digits.len() > 0 && digits[digits.len() - 1] == 'd';
    if derived {
        digits.pop();
    }
    assert(digits@.subrange(0, digits@.len() as int) == digits@);
    if digits.len() == 0 || !crate::numeral::digits(&digits, 0, digits.len()) {
        return None;
    }
    Some(Found { digits, derived })
}

/// The column to use for a variable group.
pub open spec fn picked(entries: Seq<Entry<Column>>, group: Seq<char>) -> Option<Column> {
    match best_of(entries, group) {
        Some(k) => Some(entries[k].value),
        None => None,
    }
}

pub(crate) proof fn lemma_best_is_a_sensor(entries: Seq<Entry<Column>>, group: Seq<char>)
    ensures
        best_of(entries, group) matches Some(k) ==> 0 <= k < entries.len() && sensor_of(
            entries[k].name@,
            group,
        ) is Some,
    decreases entries.len(),
{
    if entries.len() > 0 {
        lemma_best_is_a_sensor(entries.drop_last(), group);
    }
}

/// Finds the `<group>_set_N` (or `_set_Nd`, derived) column for a variable group,
/// preferring the lowest-numbered primary sensor.
pub fn pick_column<'a>(entries: &'a Vec<Entry<Column>>, group: &str) -> (r: Option<&'a Column>)
    ensures
        match r {
            Some(column) => picked(entries@, group@) == Some(*column),
            None => picked(entries@, group@) is None,
        },
{
    let mut best: Option<(usize, Found)> = None;
    let mut i: usize = 0;
    while i < entries.len()
        invariant
            i <= entries@.len(),
            match best {
                Some((k, f)) => {
                    &&& best_of(entries@.take(i as int), group@) == Some(k as int)
                    &&& k < i
                    &&& sensor_of(entries@[k as int].name@, group@) == Some(f.sensor())
                    &&& all_digits(f.digits@)
                },
                None => best_of(entries@.take(i as int), group@) is None,
            },
        decreases entries@.len() - i,
    {
        let ghost now = entries@.take(i + 1);
        assert(now.drop_last() == entries@.take(i as int));
        assert(now.last() == entries@[i as int]);
        if let Some(f) = find_sensor(entries[i].name.as_str(), group) {
            let better = match &best {
                Some((k, g)) => {
                    assert(now[*k as int] == entries@[*k as int]);
                    f.is_better(g)
                },
                None => true,
            };
            if better {
                best = Some((i, f));
            }
        }
        i += 1;
    }
    assert(entries@.take(i as int) == entries@);
    match best {
        Some((k, _)) => Some(&entries[k].value),
        None => None,
    }
}

proof fn lemma_alphabetical_is_transitive(a: Seq<char>, b: Seq<char>, c: Seq<char>)
    requires
        alphabetical(a, b),
        alphabetical(b, c),
    ensures
        alphabetical(a, c),
    decreases a.len(),
{
    if a.len() > 0 && b.len() > 0 && c.len() > 0 && a[0] == b[0] && b[0] == c[0] {
        lemma_alphabetical_is_transitive(a.drop_first(), b.drop_first(), c.drop_first());
    }
}

proof fn lemma_preference_is_transitive(a: Sensor, b: Sensor, c: Sensor)
    requires
        a.beats(b),
        b.beats(c),
    ensures
        a.beats(c),
{
    if alphabetical(a.digits, b.digits) && alphabetical(b.digits, c.digits) {
        lemma_alphabetical_is_transitive(a.digits, b.digits, c.digits);
    }
}

/// A column is found whenever the group has one, and none of the group beats it.
pub proof fn law_the_picked_column_is_the_lowest(
    entries: Seq<Entry<Column>>,
    group: Seq<char>,
    i: int,
)
    requires
        0 <= i < entries.len(),
        sensor_of(entries[i].name@, group) is Some,
    ensures
        best_of(entries, group) matches Some(k) && 0 <= k < entries.len() && sensor_of(
            entries[k].name@,
            group,
        ) is Some && !sensor_of(entries[i].name@, group)->0.beats(
            sensor_of(entries[k].name@, group)->0,
        ),
    decreases entries.len(),
{
    let head = entries.drop_last();
    lemma_best_is_a_sensor(head, group);
    if i < head.len() {
        law_the_picked_column_is_the_lowest(head, group, i);
        let k = best_of(head, group)->0;
        let t = sensor_of(entries[k].name@, group)->0;
        let e = sensor_of(entries[i].name@, group)->0;
        if let Some(s) = sensor_of(entries.last().name@, group) {
            if s.beats(t) && e.beats(s) {
                lemma_preference_is_transitive(e, s, t);
            }
        }
    } else {
        let s = sensor_of(entries.last().name@, group)->0;
        lemma_preference_is_irreflexive(s);
    }
}

proof fn lemma_preference_is_irreflexive(s: Sensor)
    ensures
        !s.beats(s),
{
    lemma_alphabetical_is_irreflexive(s.digits);
}

proof fn lemma_alphabetical_is_irreflexive(a: Seq<char>)
    ensures
        !alphabetical(a, a),
    decreases a.len(),
{
    if a.len() > 0 {
        lemma_alphabetical_is_irreflexive(a.drop_first());
    }
}

/// How a value in `unit` becomes degrees Celsius.
pub open spec fn temp_to_c_scale(unit: Seq<char>) -> Scale {
    let u = lower(unit);
    if u == "fahrenheit"@ || u == "f"@ {
        Scale::FahrenheitToCelsius
    } else if u == "kelvin"@ || u == "k"@ {
        Scale::KelvinToCelsius
    } else {
        Scale::AsIs
    }
}

fn temp_to_c(unit: &str) -> (r: Scale)
    ensures
        r == temp_to_c_scale(unit@),
{
    let folded = to_lower(unit);
    let u = folded.as_str();
    if same(u, "fahrenheit") || same(u, "f") {
        Scale::FahrenheitToCelsius
    } else if same(u, "kelvin") || same(u, "k") {
        Scale::KelvinToCelsius
    } else {
        Scale::AsIs
    }
}

/// How a value in `unit` becomes metres per second.
pub open spec fn speed_to_ms_scale(unit: Seq<char>) -> Scale {
    let u = lower(unit);
    if u == "knots"@ || u == "kts"@ || u == "kt"@ {
        Scale::KnotsToMs
    } else if u == "mph"@ || u == "miles/hour"@ || u == "miles per hour"@ {
        Scale::MilesPerHourToMs
    } else if u == "km/h"@ || u == "kph"@ || u == "kilometers/hour"@ {
        Scale::KilometresPerHourToMs
    } else {
        Scale::AsIs
    }
}

fn speed_to_ms(unit: &str) -> (r: Scale)
    ensures
        r == speed_to_ms_scale(unit@),
{
    let folded = to_lower(unit);
    let u = folded.as_str();
    if same(u, "knots") || same(u, "kts") || same(u, "kt") {
        Scale::KnotsToMs
    } else if same(u, "mph") || same(u, "miles/hour") || same(u, "miles per hour") {
        Scale::MilesPerHourToMs
    } else if same(u, "km/h") || same(u, "kph") || same(u, "kilometers/hour") {
        Scale::KilometresPerHourToMs
    } else {
        Scale::AsIs
    }
}

/// How a value in `unit` becomes hectopascals.
pub open spec fn pressure_to_hpa_scale(unit: Seq<char>) -> Scale {
    let u = lower(unit);
    if u == "pascals"@ || u == "pa"@ {
        Scale::PascalsToHpa
    } else if u == "inches hg"@ || u == "inhg"@ || u == "inches mercury"@ || u
        == "inches of mercury"@ {
        Scale::InchesOfMercuryToHpa
    } else {
        Scale::AsIs
    }
}

fn pressure_to_hpa(unit: &str) -> (r: Scale)
    ensures
        r == pressure_to_hpa_scale(unit@),
{
    let folded = to_lower(unit);
    let u = folded.as_str();
    if same(u, "pascals") || same(u, "pa") {
        Scale::PascalsToHpa
    } else if same(u, "inches hg") || same(u, "inhg") || same(u, "inches mercury") || same(
        u,
        "inches of mercury",
    ) {
        Scale::InchesOfMercuryToHpa
    } else {
        Scale::AsIs
    }
}

/// How a value in `unit` becomes metres.
pub open spec fn length_to_m_scale(unit: Seq<char>) -> Scale {
    let u = lower(unit);
    if u == "ft"@ || u == "feet"@ {
        Scale::FeetToM
    } else {
        Scale::AsIs
    }
}

fn length_to_m(unit: &str) -> (r: Scale)
    ensures
        r == length_to_m_scale(unit@),
{
    let folded = to_lower(unit);
    let u = folded.as_str();
    if same(u, "ft") || same(u, "feet") {
        Scale::FeetToM
    } else {
        Scale::AsIs
    }
}

/// How a value in `unit` becomes kilometres.
pub open spec fn distance_to_km_scale(unit: Seq<char>) -> Scale {
    let u = lower(unit);
    if u == "statute miles"@ || u == "miles"@ || u == "mi"@ {
        Scale::StatuteMilesToKm
    } else if u == "meters"@ || u == "m"@ {
        Scale::MetresToKm
    } else {
        Scale::AsIs
    }
}

fn distance_to_km(unit: &str) -> (r: Scale)
    ensures
        r == distance_to_km_scale(unit@),
{
    let folded = to_lower(unit);
    let u = folded.as_str();
    if same(u, "statute miles") || same(u, "miles") || same(u, "mi") {
        Scale::StatuteMilesToKm
    } else if same(u, "meters") || same(u, "m") {
        Scale::MetresToKm
    } else {
        Scale::AsIs
    }
}

/// How a value in `unit` becomes millimetres.
pub open spec fn precip_to_mm_scale(unit: Seq<char>) -> Scale {
    let u = lower(unit);
    if u == "inches"@ || u == "in"@ {
        Scale::InchesToMm
    } else if u == "centimeters"@ || u == "cm"@ {
        Scale::CentimetresToMm
    } else {
        Scale::AsIs
    }
}

fn precip_to_mm(unit: &str) -> (r: Scale)
    ensures
        r == precip_to_mm_scale(unit@),
{
    let folded = to_lower(unit);
    let u = folded.as_str();
    if same(u, "inches") || same(u, "in") {
        Scale::InchesToMm
    } else if same(u, "centimeters") || same(u, "cm") {
        Scale::CentimetresToMm
    } else {
        Scale::AsIs
    }
}

/// How a value in `unit` becomes centimetres.
pub open spec fn depth_to_cm_scale(unit: Seq<char>) -> Scale {
    let u = lower(unit);
    if u == "inches"@ || u == "in"@ {
        Scale::InchesToCm
    } else if u == "millimeters"@ || u == "mm"@ {
        Scale::MillimetresToCm
    } else {
        Scale::AsIs
    }
}

fn depth_to_cm(unit: &str) -> (r: Scale)
    ensures
        r == depth_to_cm_scale(unit@),
{
    let folded = to_lower(unit);
    let u = folded.as_str();
    if same(u, "inches") || same(u, "in") {
        Scale::InchesToCm
    } else if same(u, "millimeters") || same(u, "mm") {
        Scale::MillimetresToCm
    } else {
        Scale::AsIs
    }
}

/// The unit of a variable group, or else `fallback`.
pub open spec fn unit_of(units: Seq<Entry<String>>, group: Seq<char>, fallback: Seq<char>) -> Seq<
    char,
> {
    match under(units, group) {
        Some(unit) => unit@,
        None => fallback,
    }
}

fn unit<'a>(units: &'a Vec<Entry<String>>, group: &str, fallback: &'a str) -> (r: &'a str)
    ensures
        r@ == unit_of(units@, group@, fallback@),
{
    match look_up(units, group) {
        Some(unit) => unit.as_str(),
        None => fallback,
    }
}

/// The cell of a column in row `i`, if there is one.
pub open spec fn cell_of(column: Option<Column>, i: int) -> Option<Cell> {
    match column {
        Some(column) if i < column.cells@.len() => Some(column.cells@[i]),
        _ => None,
    }
}

/// `reading` is the number in the cell: one that is a number, or whose text
/// spells one.
pub open spec fn reads(cell: Option<Cell>, reading: Option<Reading>) -> bool {
    match cell {
        Some(cell) => cell.reads_as(trim(cell.text()), reading),
        None => reading is None,
    }
}

/// `m` is the number in the cell through `scale`, rounded to `places`.
pub open spec fn shows(cell: Option<Cell>, scale: Scale, places: u8, m: Option<Measure>) -> bool {
    exists|reading: Option<Reading>| #[trigger]
        reads(cell, reading) && m == converted(reading, scale, places)
}

/// `m` is the number in the cell as it is.
pub open spec fn shows_plainly(cell: Option<Cell>, m: Option<Measure>) -> bool {
    exists|reading: Option<Reading>| #[trigger]
        reads(cell, reading) && m == unconverted(reading)
}

/// `b` is the direction in the cell.
pub open spec fn points(cell: Option<Cell>, b: Option<Bearing>) -> bool {
    exists|reading: Option<Reading>| #[trigger] reads(cell, reading) && b == bearing_of(reading)
}

/// The text in the cell.
pub open spec fn text_of_cell(cell: Option<Cell>) -> Option<Seq<char>> {
    match cell {
        Some(Cell::Text(text)) => Some(text@),
        _ => None,
    }
}

/// Synoptic sends numbers as numbers in observations but as strings in metadata.
pub fn num(cell: &Cell) -> (r: Option<Reading>)
    ensures
        cell.reads_as(trim(cell.text()), r),
{
    match cell {
        Cell::Number(bits) => Some(Reading::Number(*bits)),
        Cell::Text(text) => crate::json::written(trimmed(text.as_str())),
        Cell::Other => None,
    }
}

fn number_in(cell: &Option<Cell>) -> (r: Option<Reading>)
    ensures
        reads(*cell, r),
{
    match cell {
        Some(cell) => num(cell),
        None => None,
    }
}

/// The column that a reference leads to.
pub open spec fn column_of(column: Option<&Column>) -> Option<Column> {
    match column {
        Some(column) => Some(*column),
        None => None,
    }
}

/// The number in row `i` of a column.
pub fn cell_num(column: Option<&Column>, i: usize) -> (r: Option<Reading>)
    ensures
        reads(cell_of(column_of(column), i as int), r),
{
    match column {
        Some(column) => if i < column.cells.len() {
            num(&column.cells[i])
        } else {
            None
        },
        None => None,
    }
}

/// The text in row `i` of a column.
pub fn cell_str(column: Option<&Column>, i: usize) -> (r: Option<String>)
    ensures
        told(r) == text_of_cell(cell_of(column_of(column), i as int)),
{
    match column {
        Some(column) => if i < column.cells.len() {
            match &column.cells[i] {
                Cell::Text(text) => Some(text.clone()),
                _ => None,
            }
        } else {
            None
        },
        None => None,
    }
}

/// How the values of each variable group become metric.
#[derive(Debug, Clone, Copy, PartialEq, Eq, Structural)]
pub struct Scales {
    pub temp: Scale,
    pub dew: Scale,
    pub speed: Scale,
    pub gust: Scale,
    pub vis: Scale,
    pub alti: Scale,
    pub slp: Scale,
    pub precip_1h: Scale,
    pub precip_3h: Scale,
    pub precip_6h: Scale,
    pub precip_24h: Scale,
    pub snow: Scale,
}

/// The conversions that the units of a response call for.
pub open spec fn scales_for(units: Seq<Entry<String>>) -> Scales {
    Scales {
        temp: temp_to_c_scale(unit_of(units, "air_temp"@, "Celsius"@)),
        dew: temp_to_c_scale(unit_of(units, "dew_point_temperature"@, "Celsius"@)),
        speed: speed_to_ms_scale(unit_of(units, "wind_speed"@, "m/s"@)),
        gust: speed_to_ms_scale(unit_of(units, "wind_gust"@, "m/s"@)),
        vis: distance_to_km_scale(unit_of(units, "visibility"@, "Statute miles"@)),
        alti: pressure_to_hpa_scale(unit_of(units, "altimeter"@, "Pascals"@)),
        slp: pressure_to_hpa_scale(unit_of(units, "sea_level_pressure"@, "Millibars"@)),
        precip_1h: precip_to_mm_scale(unit_of(units, "precip_accum_one_hour"@, "Millimeters"@)),
        precip_3h: precip_to_mm_scale(unit_of(units, "precip_accum_three_hour"@, "Millimeters"@)),
        precip_6h: precip_to_mm_scale(unit_of(units, "precip_accum_six_hour"@, "Millimeters"@)),
        precip_24h: precip_to_mm_scale(unit_of(units, "precip_accum_24_hour"@, "Millimeters"@)),
        snow: depth_to_cm_scale(unit_of(units, "snow_depth"@, "Millimeters"@)),
    }
}

impl Scales {
    /// Every conversion leads to the metric unit of its group, or changes
    /// nothing.
    pub open spec fn normalized(self) -> bool {
        &&& self.temp.leads_to(Unit::Celsius)
        &&& self.dew.leads_to(Unit::Celsius)
        &&& self.speed.leads_to(Unit::MetresPerSecond)
        &&& self.gust.leads_to(Unit::MetresPerSecond)
        &&& self.vis.leads_to(Unit::Kilometres)
        &&& self.alti.leads_to(Unit::Hectopascals)
        &&& self.slp.leads_to(Unit::Hectopascals)
        &&& self.precip_1h.leads_to(Unit::Millimetres)
        &&& self.precip_3h.leads_to(Unit::Millimetres)
        &&& self.precip_6h.leads_to(Unit::Millimetres)
        &&& self.precip_24h.leads_to(Unit::Millimetres)
        &&& self.snow.leads_to(Unit::Centimetres)
    }

    fn of(units: &Vec<Entry<String>>) -> (r: Scales)
        ensures
            r == scales_for(units@),
            r.normalized(),
    {
        Scales {
            temp: temp_to_c(unit(units, "air_temp", "Celsius")),
            dew: temp_to_c(unit(units, "dew_point_temperature", "Celsius")),
            speed: speed_to_ms(unit(units, "wind_speed", "m/s")),
            gust: speed_to_ms(unit(units, "wind_gust", "m/s")),
            vis: distance_to_km(unit(units, "visibility", "Statute miles")),
            alti: pressure_to_hpa(unit(units, "altimeter", "Pascals")),
            slp: pressure_to_hpa(unit(units, "sea_level_pressure", "Millibars")),
            precip_1h: precip_to_mm(unit(units, "precip_accum_one_hour", "Millimeters")),
            precip_3h: precip_to_mm(unit(units, "precip_accum_three_hour", "Millimeters")),
            precip_6h: precip_to_mm(unit(units, "precip_accum_six_hour", "Millimeters")),
            precip_24h: precip_to_mm(unit(units, "precip_accum_24_hour", "Millimeters")),
            snow: depth_to_cm(unit(units, "snow_depth", "Millimeters")),
        }
    }
}

/// The columns in use.
struct Columns<'a> {
    air_temp: Option<&'a Column>,
    dew_point: Option<&'a Column>,
    humidity: Option<&'a Column>,
    wind_dir: Option<&'a Column>,
    wind_speed: Option<&'a Column>,
    wind_gust: Option<&'a Column>,
    visibility: Option<&'a Column>,
    altimeter: Option<&'a Column>,
    slp: Option<&'a Column>,
    weather: Option<&'a Column>,
    precip_1h: Option<&'a Column>,
    precip_3h: Option<&'a Column>,
    precip_6h: Option<&'a Column>,
    precip_24h: Option<&'a Column>,
    snow_depth: Option<&'a Column>,
    metar: Option<&'a Column>,
}

impl<'a> Columns<'a> {
    spec fn are_of(self, entries: Seq<Entry<Column>>) -> bool {
        &&& column_of(self.air_temp) == picked(entries, "air_temp"@)
        &&& column_of(self.dew_point) == picked(entries, "dew_point_temperature"@)
        &&& column_of(self.humidity) == picked(entries, "relative_humidity"@)
        &&& column_of(self.wind_dir) == picked(entries, "wind_direction"@)
        &&& column_of(self.wind_speed) == picked(entries, "wind_speed"@)
        &&& column_of(self.wind_gust) == picked(entries, "wind_gust"@)
        &&& column_of(self.visibility) == picked(entries, "visibility"@)
        &&& column_of(self.altimeter) == picked(entries, "altimeter"@)
        &&& column_of(self.slp) == picked(entries, "sea_level_pressure"@)
        &&& column_of(self.weather) == picked(entries, "weather_condition"@)
        &&& column_of(self.precip_1h) == picked(entries, "precip_accum_one_hour"@)
        &&& column_of(self.precip_3h) == picked(entries, "precip_accum_three_hour"@)
        &&& column_of(self.precip_6h) == picked(entries, "precip_accum_six_hour"@)
        &&& column_of(self.precip_24h) == picked(entries, "precip_accum_24_hour"@)
        &&& column_of(self.snow_depth) == picked(entries, "snow_depth"@)
        &&& column_of(self.metar) == picked(entries, "metar"@)
    }

    fn of(entries: &'a Vec<Entry<Column>>) -> (r: Columns<'a>)
        ensures
            r.are_of(entries@),
    {
        Columns {
            air_temp: pick_column(entries, "air_temp"),
            dew_point: pick_column(entries, "dew_point_temperature"),
            humidity: pick_column(entries, "relative_humidity"),
            wind_dir: pick_column(entries, "wind_direction"),
            wind_speed: pick_column(entries, "wind_speed"),
            wind_gust: pick_column(entries, "wind_gust"),
            visibility: pick_column(entries, "visibility"),
            altimeter: pick_column(entries, "altimeter"),
            slp: pick_column(entries, "sea_level_pressure"),
            weather: pick_column(entries, "weather_condition"),
            precip_1h: pick_column(entries, "precip_accum_one_hour"),
            precip_3h: pick_column(entries, "precip_accum_three_hour"),
            precip_6h: pick_column(entries, "precip_accum_six_hour"),
            precip_24h: pick_column(entries, "precip_accum_24_hour"),
            snow_depth: pick_column(entries, "snow_depth"),
            metar: pick_column(entries, "metar"),
        }
    }
}

/// The kind of report that a raw report begins with.
pub open spec fn kind_of(raw: Option<Seq<char>>) -> ObsKind {
    match raw {
        Some(raw) => if begins_with(trim_start(raw), "SPECI"@) {
            ObsKind::Special
        } else if begins_with(trim_start(raw), "METAR"@) {
            ObsKind::Routine
        } else {
            ObsKind::Unknown
        },
        None => ObsKind::Unknown,
    }
}

fn kind(raw: &Option<String>) -> (r: ObsKind)
    ensures
        r == kind_of(told(*raw)),
{
    match raw {
        Some(raw) => {
            let text = trimmed_start(raw.as_str());
            if starts_with(text.as_str(), "SPECI") {
                ObsKind::Special
            } else if starts_with(text.as_str(), "METAR") {
                ObsKind::Routine
            } else {
                ObsKind::Unknown
            }
        },
        None => ObsKind::Unknown,
    }
}

/// A text that is missing or blank counts as none.
pub open spec fn text_unless_blank(text: Option<Seq<char>>) -> Option<Seq<char>> {
    match text {
        Some(text) if trim(text).len() > 0 => Some(text),
        _ => None,
    }
}

/// `h` is the humidity in the cell, or else the one that temperature and dew
/// point give.
pub open spec fn tells_humidity(
    cell: Option<Cell>,
    air: Option<Measure>,
    dew: Option<Measure>,
    h: Option<Humidity>,
) -> bool {
    exists|reading: Option<Reading>| #[trigger]
        reads(cell, reading) && h == humidity_of(converted(reading, Scale::AsIs, 0), air, dew)
}

impl Station {
    /// The columns of the station.
    pub open spec fn sheet(self) -> Seq<Entry<Column>> {
        match self.observations {
            Some(entries) => entries@,
            None => Seq::empty(),
        }
    }

    /// How many rows there are: as many as there are times.
    pub open spec fn height(self) -> nat {
        match under(self.sheet(), "date_time"@) {
            Some(column) => column.cells@.len(),
            None => 0,
        }
    }

    /// The time of row `i`.
    pub open spec fn time_at(self, i: int) -> Option<Time> {
        match text_of_cell(cell_of(under(self.sheet(), "date_time"@), i)) {
            Some(text) => instant(trim(text)),
            None => None,
        }
    }

    /// The cell of a variable group in row `i`.
    pub open spec fn cell(self, group: Seq<char>, i: int) -> Option<Cell> {
        cell_of(picked(self.sheet(), group), i)
    }

    /// What the response says of the station. Synoptic reports elevation in
    /// feet unless told otherwise, even in metric mode.
    pub open spec fn describes(self, units: Seq<Entry<String>>, info: StationInfo) -> bool {
        &&& info.id@ == upper(self.stid@)
        &&& told(info.name) == told(self.name)
        &&& shows_plainly(self.lat, info.lat)
        &&& shows_plainly(self.lon, info.lon)
        &&& shows(
            self.elevation,
            length_to_m_scale(unit_of(units, "elevation"@, "ft"@)),
            1,
            info.elevation_m,
        )
    }

    /// The observation that row `i` makes.
    pub open spec fn reports(self, scales: Scales, i: int, o: Observation) -> bool {
        &&& o.station@ == upper(self.stid@)
        &&& Some(o.time) == self.time_at(i)
        &&& o.received is None
        &&& told(o.raw) == text_of_cell(self.cell("metar"@, i))
        &&& o.kind == kind_of(told(o.raw))
        &&& shows(self.cell("air_temp"@, i), scales.temp, 1, o.air_temp_c)
        &&& shows(self.cell("dew_point_temperature"@, i), scales.dew, 1, o.dew_point_c)
        &&& o.in_both_scales()
        &&& tells_humidity(
            self.cell("relative_humidity"@, i),
            o.air_temp_c,
            o.dew_point_c,
            o.relative_humidity_pct,
        )
        &&& points(self.cell("wind_direction"@, i), o.wind_direction_deg)
        &&& !o.wind_variable
        &&& shows(self.cell("wind_speed"@, i), scales.speed, 1, o.wind_speed_ms)
        &&& shows(self.cell("wind_gust"@, i), scales.gust, 1, o.wind_gust_ms)
        &&& shows(self.cell("visibility"@, i), scales.vis, 1, o.visibility_km)
        &&& shows(self.cell("altimeter"@, i), scales.alti, 1, o.altimeter_hpa)
        &&& shows(self.cell("sea_level_pressure"@, i), scales.slp, 1, o.sea_level_pressure_hpa)
        &&& told(o.weather) == text_unless_blank(
            text_of_cell(self.cell("weather_condition"@, i)),
        )
        &&& o.clouds@.len() == 0
        &&& shows(self.cell("precip_accum_one_hour"@, i), scales.precip_1h, 2, o.precip_1h_mm)
        &&& shows(self.cell("precip_accum_three_hour"@, i), scales.precip_3h, 2, o.precip_3h_mm)
        &&& shows(self.cell("precip_accum_six_hour"@, i), scales.precip_6h, 2, o.precip_6h_mm)
        &&& shows(self.cell("precip_accum_24_hour"@, i), scales.precip_24h, 2, o.precip_24h_mm)
        &&& shows(self.cell("snow_depth"@, i), scales.snow, 1, o.snow_depth_cm)
    }

    /// The rows up to `n` that have a time.
    pub open spec fn timed(self, n: nat) -> Seq<int>
        decreases n,
    {
        if n == 0 {
            Seq::empty()
        } else if self.time_at(n - 1) is Some {
            self.timed((n - 1) as nat).push(n - 1)
        } else {
            self.timed((n - 1) as nat)
        }
    }
}

/// Makes the observation of row `i` from the columns in use.
fn row(
    st: &Station,
    id: &str,
    time: Time,
    columns: &Columns,
    scales: Scales,
    i: usize,
) -> (o: Observation)
    requires
        id@ == upper(st.stid@),
        time.wf(),
        st.time_at(i as int) == Some(time),
        columns.are_of(st.sheet()),
        scales.normalized(),
    ensures
        st.reports(scales, i as int, o),
        o.sound(),
{
    let mut o = Observation::new(id.to_owned(), time);
    o.raw = cell_str(columns.metar, i);
    o.kind = kind(&o.raw);
    o.set_air_temp_c(convert(cell_num(columns.air_temp, i), scales.temp, 1));
    o.set_dew_point_c(convert(cell_num(columns.dew_point, i), scales.dew, 1));
    o.relative_humidity_pct =
    humidity(
        convert(cell_num(columns.humidity, i), Scale::AsIs, 0),
        &o.air_temp_c,
        &o.dew_point_c,
    );
    o.wind_direction_deg = bearing(cell_num(columns.wind_dir, i));
    o.wind_speed_ms = convert(cell_num(columns.wind_speed, i), scales.speed, 1);
    o.wind_gust_ms = convert(cell_num(columns.wind_gust, i), scales.gust, 1);
    o.visibility_km = convert(cell_num(columns.visibility, i), scales.vis, 1);
    o.altimeter_hpa = convert(cell_num(columns.altimeter, i), scales.alti, 1);
    o.sea_level_pressure_hpa = convert(cell_num(columns.slp, i), scales.slp, 1);
    o.weather = drop_blank(cell_str(columns.weather, i));
    o.precip_1h_mm = convert(cell_num(columns.precip_1h, i), scales.precip_1h, 2);
    o.precip_3h_mm = convert(cell_num(columns.precip_3h, i), scales.precip_3h, 2);
    o.precip_6h_mm = convert(cell_num(columns.precip_6h, i), scales.precip_6h, 2);
    o.precip_24h_mm = convert(cell_num(columns.precip_24h, i), scales.precip_24h, 2);
    o.snow_depth_cm = convert(cell_num(columns.snow_depth, i), scales.snow, 1);
    o
}

/// The rows are what the given rows of the station make, one for one.
pub open spec fn rows_report(
    st: Station,
    scales: Scales,
    which: Seq<int>,
    rows: Seq<Observation>,
) -> bool {
    which.len() == rows.len() && forall|k: int|
        0 <= k < rows.len() ==> st.reports(scales, #[trigger] which[k], #[trigger] rows[k])
}

/// The batch holds what the response says of the station, and the rows that
/// have a time, in order of time.
pub open spec fn tabled(units: Seq<Entry<String>>, st: Station, batch: Batch) -> bool {
    &&& batch.info matches Some(info) && st.describes(units, info)
    &&& exists|rows: Seq<Observation>| #[trigger]
        rows_report(st, scales_for(units), st.timed(st.height()), rows) && batch.rows@ == in_order(
            rows,
        )
}

/// Makes the rows of a station.
pub fn tabulate(units: &Vec<Entry<String>>, st: &Station) -> (r: Batch)
    ensures
        tabled(units@, *st, r),
        r.sound(),
{
    let elevation = number_in(&st.elevation);
    let info = StationInfo {
        id: to_upper(st.stid.as_str()),
        name: match &st.name {
            Some(name) => Some(name.clone()),
            None => None,
        },
        lat: keep(number_in(&st.lat)),
        lon: keep(number_in(&st.lon)),
        elevation_m: convert(elevation, length_to_m(unit(units, "elevation", "ft")), 1),
    };
    assert(reads(st.elevation, elevation));
    let none: Vec<Entry<Column>> = Vec::new();
    let entries = match &st.observations {
        Some(entries) => entries,
        None => &none,
    };
    let columns = Columns::of(entries);
    let scales = Scales::of(units);
    let times = look_up(entries, "date_time");
    let height: usize = match times {
        Some(column) => column.cells.len(),
        None => 0,
    };
    let mut rows: Vec<Observation> = Vec::new();
    let mut i: usize = 0;
    while i < height
        invariant
            i <= height,
            height == st.height(),
            info.id@ == upper(st.stid@),
            column_of(times) == under(st.sheet(), "date_time"@),
            columns.are_of(st.sheet()),
            scales == scales_for(units@),
            scales.normalized(),
            rows_report(*st, scales, st.timed(i as nat), rows@),
            forall|k: int| 0 <= k < rows@.len() ==> (#[trigger] rows@[k]).sound(),
        decreases height - i,
    {
        let parsed = match cell_str(times, i) {
            Some(text) => parse_time(text.as_str()),
            None => None,
        };
        if let Some(time) = parsed {
            rows.push(row(st, info.id.as_str(), time, &columns, scales, i));
        }
        i += 1;
    }
    proof {
        crate::model::lemma_sorting_keeps_soundness(rows@);
        crate::order::law_sorting_ranks(rows@);
    }
    Batch { info: Some(info), rows: sort(rows) }
}

/// The position of the first station of that name, in whatever case.
pub open spec fn position_of(stations: Seq<Station>, station: Seq<char>) -> Option<int>
    decreases stations.len(),
{
    if stations.len() == 0 {
        None
    } else {
        match position_of(stations.drop_last(), station) {
            Some(k) => Some(k),
            None => if lower(stations.last().stid@) == lower(station) {
                Some(stations.len() - 1)
            } else {
                None
            },
        }
    }
}

/// The station asked for is found exactly where the response has it.
pub proof fn law_the_station_asked_for_is_found(stations: Seq<Station>, station: Seq<char>)
    ensures
        match position_of(stations, station) {
            Some(k) => 0 <= k < stations.len() && lower(stations[k].stid@) == lower(station),
            None => forall|i: int|
                0 <= i < stations.len() ==> lower((#[trigger] stations[i]).stid@) != lower(station),
        },
    decreases stations.len(),
{
    if stations.len() > 0 {
        let head = stations.drop_last();
        law_the_station_asked_for_is_found(head, station);
        assert forall|i: int|
            0 <= i < stations.len() && position_of(stations, station) is None implies lower(
            (#[trigger] stations[i]).stid@,
        ) != lower(station) by {
            if i < head.len() {
                assert(head[i] == stations[i]);
            }
        }
    }
}

fn position(stations: &Vec<Station>, station: &str) -> (r: Option<usize>)
    ensures
        match r {
            Some(k) => position_of(stations@, station@) == Some(k as int) && k < stations@.len(),
            None => position_of(stations@, station@) is None,
        },
{
    let mut i: usize = 0;
    while i < stations.len()
        invariant
            i <= stations@.len(),
            position_of(stations@.take(i as int), station@) is None,
        decreases stations@.len() - i,
    {
        let ghost now = stations@.take(i + 1);
        assert(now.drop_last() == stations@.take(i as int));
        if same_ignoring_case(stations[i].stid.as_str(), station) {
            proof {
                lemma_position_stays(stations@, station@, i + 1);
            }
            return Some(i);
        }
        i += 1;
    }
    assert(stations@.take(i as int) == stations@);
    None
}

/// A station found among the first stays the one that is found.
proof fn lemma_position_stays(stations: Seq<Station>, station: Seq<char>, n: int)
    requires
        0 <= n <= stations.len(),
        position_of(stations.take(n), station) is Some,
    ensures
        position_of(stations, station) == position_of(stations.take(n), station),
    decreases stations.len() - n,
{
    if n < stations.len() {
        assert(stations.take(n + 1).drop_last() == stations.take(n));
        lemma_position_stays(stations, station, n + 1);
    } else {
        assert(stations.take(n) == stations);
    }
}

/// Every row of a station is told to be of that station.
proof fn lemma_rows_are_of_the_station(units: Seq<Entry<String>>, st: Station, batch: Batch)
    requires
        tabled(units, st, batch),
    ensures
        batch.is_of(st.stid@),
{
    let scales = scales_for(units);
    let which = st.timed(st.height());
    let rows = choose|rows: Seq<Observation>| #[trigger]
        rows_report(st, scales, which, rows) && batch.rows@ == in_order(rows);
    law_case_is_all_that_changes(st.stid@);
    assert forall|i: int| 0 <= i < batch.rows@.len() implies lower(
        (#[trigger] batch.rows@[i]).station@,
    ) == lower(st.stid@) by {
        assert(in_order(rows).contains(batch.rows@[i]));
        crate::order::lemma_same_members(rows, batch.rows@[i]);
        let k = choose|k: int| 0 <= k < rows.len() && rows[k] == batch.rows@[i];
        assert(st.reports(scales, which[k], rows[k]));
    }
}

/// Every row of a response that is read is one of the station asked for.
pub proof fn law_the_rows_are_of_the_station_asked_for(
    station: Seq<char>,
    body: Seq<char>,
    batch: Batch,
)
    requires
        parses(station, body, Ok::<Batch, Fault>(batch)),
    ensures
        batch.is_of(station),
{
    let bytes = encode_utf8(body);
    let resp = choose|resp: Response| #[trigger]
        resp.says(bytes, 0) && digested(station, resp, Ok::<Batch, Fault>(batch));
    let stations = stations_in(resp);
    law_the_station_asked_for_is_found(stations, station);
    if let Some(k) = position_of(stations, station) {
        lemma_rows_are_of_the_station(units_in(resp), stations[k], batch);
    }
}

/// The stations of a response.
pub open spec fn stations_in(resp: Response) -> Seq<Station> {
    match resp.stations {
        Some(stations) => stations@,
        None => Seq::empty(),
    }
}

/// The units of a response.
pub open spec fn units_in(resp: Response) -> Seq<Entry<String>> {
    match resp.units {
        Some(units) => units@,
        None => Seq::empty(),
    }
}

/// The text of an error that the service reports.
pub open spec fn refusal(summary: Summary) -> Seq<char> {
    "Synoptic error (code "@ + signed_decimal(summary.code as int) + "): "@ + summary.message@
}

/// What [`digest`] makes of a response.
pub open spec fn digested(station: Seq<char>, resp: Response, r: Result<Batch, Fault>) -> bool {
    let stations = stations_in(resp);
    match r {
        Err(fault) => resp.summary.code != 1 && says(fault, refusal(resp.summary)),
        Ok(batch) => {
            &&& resp.summary.code == 1
            &&& batch.sound()
            &&& match position_of(stations, station) {
                Some(k) => tabled(units_in(resp), stations[k], batch),
                None => batch.info is None && batch.rows@.len() == 0,
            }
        },
    }
}

/// Makes the rows of `station` from a response, none where the response is
/// about other stations; passes on the error that it reports.
pub fn digest(station: &str, resp: Response) -> (r: Result<Batch, Fault>)
    ensures
        digested(station@, resp, r),
{
    if resp.summary.code != 1 {
        let mut text = String::new();
        text.append("Synoptic error (code ");
        text.append(signed_decimal_of(resp.summary.code).as_str());
        text.append("): ");
        text.append(resp.summary.message.as_str());
        assert(text@ =~= refusal(resp.summary));
        return Err(Fault::Message(text));
    }
    let units = match resp.units {
        Some(units) => units,
        None => Vec::new(),
    };
    let stations = match resp.stations {
        Some(stations) => stations,
        None => Vec::new(),
    };
    match position(&stations, station) {
        Some(k) => Ok(tabulate(&units, &stations[k])),
        None => Ok(Batch::default()),
    }
}

/// What [`parse_body`] makes of a text.
pub open spec fn parses(station: Seq<char>, body: Seq<char>, r: Result<Batch, Fault>) -> bool {
    let bytes = encode_utf8(body);
    match text_wrong::<Response>(bytes) {
        None => exists|resp: Response| #[trigger]
            resp.says(bytes, 0) && digested(station, resp, r),
        Some(why) => r matches Err(fault) && says(fault, "decoding Synoptic response: "@ + why),
    }
}

/// Reads a response body.
pub fn parse_body(station: &str, body: &str) -> (r: Result<Batch, Fault>)
    ensures
        parses(station@, body@, r),
{
    match read_all::<Response>(body.as_bytes()) {
        Ok(resp) => digest(station, resp),
        Err(why) => Err(fault("decoding Synoptic response: ", why.as_str())),
    }
}

/// Synoptic Data. The token is shown nowhere but in the address of a request.
pub struct SynopticSource {
    token: String,
}

impl SynopticSource {
    /// The service with a token for it.
    pub fn new(token: String) -> (r: SynopticSource)
        ensures
            r.key() == token@,
    {
        SynopticSource { token }
    }

    /// The token.
    pub closed spec fn key(self) -> Seq<char> {
        self.token@
    }

    /// The least number of minutes that cover a trailing window, and at least
    /// one.
    pub open spec fn minutes(window: Span) -> nat {
        let least = (window.ns() + 59_999_999_999) / 60_000_000_000;
        if least < 1 {
            1
        } else {
            least
        }
    }

    /// Where the rows of a station within the trailing `window` are found. The
    /// metric preset has each variable group pinned, so an upstream preset
    /// change cannot silently alter what is received.
    pub open spec fn address(self, station: Seq<char>, window: Span) -> Seq<char> {
        Self::address_with(self.key(), station, window)
    }

    /// The same with any text in place of the token.
    pub open spec fn address_with(key: Seq<char>, station: Seq<char>, window: Span) -> Seq<char> {
        "https://api.synopticdata.com/v2/stations/timeseries?stid="@ + upper(station)
            + "&recent="@ + decimal(Self::minutes(window))
            + "&units=metric,temp|C,speed|mps,pres|mb,height|m,precip|mm&obtimezone=UTC&token="@
            + key
    }

    /// Where the rows of a station within the trailing `window` are found.
    pub fn url(&self, station: &str, window: Span) -> (r: String)
        requires
            window.wf(),
        ensures
            r@ == self.address(station@, window),
    {
        Self::url_with(self.token.as_str(), station, window)
    }

    /// The same with any text in place of the token, such as can be shown.
    pub fn url_with(key: &str, station: &str, window: Span) -> (r: String)
        requires
            window.wf(),
        ensures
            r@ == Self::address_with(key@, station@, window),
    {
        let mut minutes: u64 = window.secs / 60;
        if window.secs % 60 > 0 || window.nanos > 0 {
            minutes += 1;
        }
        proof {
            let rest: int = (window.secs % 60) * 1_000_000_000 + window.nanos;
            assert(window.ns() == (window.secs / 60) * 60_000_000_000 + rest);
            assert(0 <= rest < 60_000_000_000);
            assert((window.ns() + 59_999_999_999) / 60_000_000_000 == minutes);
        }
        if minutes == 0 {
            minutes = 1;
        }
        let mut url = String::new();
        url.append("https://api.synopticdata.com/v2/stations/timeseries?stid=");
        url.append(to_upper(station).as_str());
        url.append("&recent=");
        url.append(decimal_of(minutes).as_str());
        url.append(
            "&units=metric,temp|C,speed|mps,pres|mb,height|m,precip|mm&obtimezone=UTC&token=",
        );
        url.append(key);
        assert(url@ =~= Self::address_with(key@, station@, window));
        url
    }
}

/// The minutes asked for cover the window, and no fewer would, but for the
/// least that is ever asked for.
pub proof fn law_the_minutes_cover_the_window(window: Span)
    ensures
        SynopticSource::minutes(window) * 60_000_000_000 >= window.ns(),
        SynopticSource::minutes(window) >= 1,
        SynopticSource::minutes(window) > 1 ==> (SynopticSource::minutes(window) - 1)
            * 60_000_000_000 < window.ns(),
{
}

} // verus!
