//! JSON documents, read through `serde_json`.
//!
//! [`Doc`] is what a document says; [`document`] is what a `serde_json::Value`
//! holds in those terms. The functions here take a document apart that has been
//! read whole: where an object repeats a name, the last member of that name is
//! the one that counts, and the members come in the order of their names. A
//! record is an object, whose members are the fields by name, or an array, whose
//! items are the fields in order.

use serde::de::IgnoredAny;
use serde::Deserialize;
use serde_json::{Number, Value};
use vstd::prelude::*;

use crate::model::Reading;
use crate::numeral::{is_numeral, spells_number};
use crate::record::{about, about_field, at_places, tell_too_short, too_short, words};
use crate::text::{decimal, decimal_of, replace, replaced, same};

verus! {

/// A JSON value.
pub enum Doc {
    Null,
    Bool(bool),
    /// A number: the double-precision float that it is read as, by its bits,
    /// and the whole number where it is written as one of 64 bits.
    Number { bits: u64, integer: Option<int> },
    Text(Seq<char>),
    List(Seq<Doc>),
    Object(Map<Seq<char>, Doc>),
}

/// `serde_json::Value`.
#[verifier::external_type_specification]
#[verifier::external_body]
pub struct ExValue(serde_json::Value);

/// The contents of a `serde_json::Value`.
pub uninterp spec fn document(value: serde_json::Value) -> Doc;

/// What `serde_json::from_str` reads from a text: a document, or what it finds
/// wrong with the text.
pub uninterp spec fn json(text: Seq<char>) -> Result<Doc, Seq<char>>;

/// The compact form in which `serde_json` prints a document.
pub uninterp spec fn printed(doc: Doc) -> Seq<char>;

/// `serde_json::from_str` for a `Value`, with the text of the error.
#[verifier::external_body]
pub(crate) fn read(text: &str) -> (r: Result<Value, String>)
    ensures
        match r {
            Ok(value) => json(text@) == Ok::<Doc, Seq<char>>(document(value)),
            Err(fault) => json(text@) == Err::<Doc, Seq<char>>(fault@),
        },
{
    serde_json::from_str(text).map_err(|e| e.to_string())
}

/// `Value::to_string`, by the `Display` of `Value`.
#[verifier::external_body]
pub(crate) fn print(value: &Value) -> (r: String)
    ensures
        r@ == printed(document(*value)),
{
    value.to_string()
}

/// `Value::is_null`.
pub assume_specification[ Value::is_null ](value: &Value) -> (r: bool)
    ensures
        r == (document(*value) is Null),
;

/// `Value::is_object`.
pub assume_specification[ Value::is_object ](value: &Value) -> (r: bool)
    ensures
        r == (document(*value) is Object),
;

/// `Value::as_str`: the text of a string.
pub assume_specification[ Value::as_str ](value: &Value) -> (r: Option<&str>)
    ensures
        match r {
            Some(text) => document(*value) == Doc::Text(text@),
            None => !(document(*value) is Text),
        },
;

/// `Value::as_i64`: a whole number that fits into an `i64`.
pub assume_specification[ Value::as_i64 ](value: &Value) -> (r: Option<i64>)
    ensures
        r == integer_in(document(*value)),
;

/// `Value::as_array`: the items of an array, in order.
pub assume_specification[ Value::as_array ](value: &Value) -> (r: Option<&Vec<Value>>)
    ensures
        match r {
            Some(items) => document(*value) == Doc::List(documents(items@)),
            None => !(document(*value) is List),
        },
;

/// `Value::as_f64`, by the bits of the float. Every number has one.
#[verifier::external_body]
pub(crate) fn number_bits(value: &Value) -> (r: Option<u64>)
    ensures
        r == bits_in(document(*value)),
{
    value.as_f64().map(|number| number.to_bits())
}

/// `Value::get` with a name: the member of an object.
#[verifier::external_body]
pub(crate) fn member<'a>(value: &'a Value, name: &str) -> (r: Option<&'a Value>)
    ensures
        match r {
            Some(m) => member_of(document(*value), name@) == Some(document(*m)),
            None => member_of(document(*value), name@) is None,
        },
{
    value.get(name)
}

/// The contents of some values.
pub open spec fn documents(values: Seq<Value>) -> Seq<Doc> {
    values.map_values(|v: Value| document(v))
}

/// The bits of a number.
pub open spec fn bits_in(d: Doc) -> Option<u64> {
    match d {
        Doc::Number { bits, .. } => Some(bits),
        _ => None,
    }
}

/// The whole number of 64 bits, signed, that `d` is.
pub open spec fn integer_in(d: Doc) -> Option<i64> {
    match d {
        Doc::Number { integer: Some(n), .. } if i64::MIN <= n <= i64::MAX => Some(n as i64),
        _ => None,
    }
}

/// The member of that name, if `d` is an object and has one.
pub open spec fn member_of(d: Doc, name: Seq<char>) -> Option<Doc> {
    match d {
        Doc::Object(members) if members.contains_key(name) => Some(members[name]),
        _ => None,
    }
}

/// The contents of an optional string.
pub open spec fn told(text: Option<String>) -> Option<Seq<char>> {
    match text {
        Some(text) => Some(text@),
        None => None,
    }
}

/// What `String::deserialize` finds wrong with a document, if
/// anything.
pub uninterp spec fn not_text(d: Doc) -> Option<Seq<char>>;

/// `String::deserialize`, with the text of the error. It takes
/// a string and nothing else.
#[verifier::external_body]
fn find_not_text(value: &Value) -> (r: Option<String>)
    ensures
        told(r) == not_text(document(*value)),
        r is None <==> document(*value) is Text,
{
    String::deserialize(value).err().map(|e| e.to_string())
}

/// What `Deserialize::deserialize` of a double-precision float finds wrong with a document, if
/// anything.
pub uninterp spec fn not_number(d: Doc) -> Option<Seq<char>>;

/// `Deserialize::deserialize` of a double-precision float, with the text of the error. It takes
/// a number and nothing else.
#[verifier::external_body]
fn find_not_number(value: &Value) -> (r: Option<String>)
    ensures
        told(r) == not_number(document(*value)),
        r is None <==> document(*value) is Number,
{
    let read = Deserialize::deserialize(value).map(|x| Number::from_f64(x));
    read.err().map(|e| e.to_string())
}

/// What `i64::deserialize` finds wrong with a document, if
/// anything.
pub uninterp spec fn not_integer(d: Doc) -> Option<Seq<char>>;

/// `i64::deserialize`, with the text of the error. It takes
/// a whole number of 64 bits, signed and nothing else.
#[verifier::external_body]
fn find_not_integer(value: &Value) -> (r: Option<String>)
    ensures
        told(r) == not_integer(document(*value)),
        r is None <==> integer_in(document(*value)) is Some,
{
    i64::deserialize(value).err().map(|e| e.to_string())
}

/// What `Vec::<IgnoredAny>::deserialize` finds wrong with a document, if
/// anything.
pub uninterp spec fn not_list(d: Doc) -> Option<Seq<char>>;

/// `Vec::<IgnoredAny>::deserialize`, with the text of the error. It takes
/// an array and nothing else.
#[verifier::external_body]
fn find_not_list(value: &Value) -> (r: Option<String>)
    ensures
        told(r) == not_list(document(*value)),
        r is None <==> document(*value) is List,
{
    Vec::<IgnoredAny>::deserialize(value).err().map(|e| e.to_string())
}

/// What `BTreeMap::<String, IgnoredAny>::deserialize` finds wrong with a document, if
/// anything.
pub uninterp spec fn not_map(d: Doc) -> Option<Seq<char>>;

/// `BTreeMap::<String, IgnoredAny>::deserialize`, with the text of the error. It takes
/// an object and nothing else.
#[verifier::external_body]
fn find_not_map(value: &Value) -> (r: Option<String>)
    ensures
        told(r) == not_map(document(*value)),
        r is None <==> document(*value) is Object,
{
    let read = std::collections::BTreeMap::<String, IgnoredAny>::deserialize(value);
    read.err().map(|e| e.to_string())
}

/// A value that may be a number or a string.
#[derive(Debug, PartialEq)]
pub enum Cell {
    /// A double-precision float, by its bits.
    Number(u64),
    Text(String),
    Other,
}

impl Cell {
    /// The cell holds what the document says.
    pub open spec fn holds(self, d: Doc) -> bool {
        match self {
            Cell::Number(bits) => bits_in(d) == Some(bits),
            Cell::Text(text) => d == Doc::Text(text@),
            Cell::Other => !(d is Number) && !(d is Text),
        }
    }

    /// The text of the cell, if it has any.
    pub open spec fn text(self) -> Seq<char> {
        match self {
            Cell::Text(text) => text@,
            _ => Seq::empty(),
        }
    }

    /// `reading` is the number in the cell, where `rest` is what counts of the
    /// cell's text.
    pub open spec fn reads_as(self, rest: Seq<char>, reading: Option<Reading>) -> bool {
        match (self, reading) {
            (Cell::Number(bits), Some(Reading::Number(n))) => n == bits,
            (Cell::Text(_), Some(Reading::Written(w))) => w@ == rest && is_numeral(rest),
            (Cell::Text(_), None) => !is_numeral(rest),
            (Cell::Other, None) => true,
            _ => false,
        }
    }

    /// Reads a cell.
    pub fn of(value: &Value) -> (r: Cell)
        ensures
            r.holds(document(*value)),
    {
        match number_bits(value) {
            Some(bits) => Cell::Number(bits),
            None => match value.as_str() {
                Some(text) => Cell::Text(text.to_owned()),
                None => Cell::Other,
            },
        }
    }
}

/// The number that a text spells.
pub fn written(text: String) -> (r: Option<Reading>)
    ensures
        match r {
            Some(Reading::Written(w)) => w@ == text@ && is_numeral(text@),
            Some(_) => false,
            None => !is_numeral(text@),
        },
{
    if spells_number(text.as_str()) {
        Some(Reading::Written(text))
    } else {
        None
    }
}

/// What is wrong with a document that may be null.
pub open spec fn unless_null(d: Doc, wrong: Option<Seq<char>>) -> Option<Seq<char>> {
    if d is Null {
        None
    } else {
        wrong
    }
}

/// A type that is read from a document field by field. An object has the
/// fields by name, an array has them in order.
pub trait Fields: Sized {
    /// What is expected, in words.
    spec fn title() -> Seq<char>;

    /// The names of the fields, in order.
    spec fn names() -> Seq<Seq<char>>;

    /// The fields in the order of their names, in which an object has them.
    spec fn sorted() -> Seq<int>;

    /// An object must have the field.
    spec fn needs(k: int) -> bool;

    /// What is wrong with the value of a field, if anything.
    spec fn part_wrong(k: int, d: Doc) -> Option<Seq<char>>;

    /// This is what the document says.
    spec fn tells(self, d: Doc) -> bool;

    /// What is expected, the names of the fields, and their order.
    fn form() -> (r: (&'static str, Vec<&'static str>, Vec<usize>))
        ensures
            r.0@ == Self::title(),
            words(r.1@) == Self::names(),
            at_places(r.2@) == Self::sorted(),
            forall|i: int| 0 <= i < r.2@.len() ==> #[trigger] r.2@[i] < r.1@.len(),
    ;

    /// Whether an object must have the field.
    fn is_needed(k: usize) -> (r: bool)
        ensures
            r == Self::needs(k as int),
    ;

    /// Finds out what is wrong with the value of a field.
    fn check_part(k: usize, value: &Value) -> (r: Option<String>)
        requires
            k < Self::names().len(),
        ensures
            told(r) == Self::part_wrong(k as int, document(*value)),
    ;

    /// Reads a document.
    fn build(value: &Value) -> (r: Self)
        ensures
            r.tells(document(*value)),
    ;
}

/// What is wrong with the members of an object, in the order of their names,
/// from the `k`th field on.
pub open spec fn members_wrong<T: Fields>(d: Doc, k: int) -> Option<Seq<char>>
    decreases T::sorted().len() - k,
{
    if k >= T::sorted().len() {
        None
    } else {
        let j = T::sorted()[k];
        match member_of(d, T::names()[j]) {
            Some(m) => match T::part_wrong(j, m) {
                Some(why) => Some(why),
                None => members_wrong::<T>(d, k + 1),
            },
            None => members_wrong::<T>(d, k + 1),
        }
    }
}

/// The first needed field that an object lacks, from the `k`th on.
pub open spec fn lacks<T: Fields>(d: Doc, k: int) -> Option<int>
    decreases T::names().len() - k,
{
    if k >= T::names().len() {
        None
    } else if T::needs(k) && member_of(d, T::names()[k]) is None {
        Some(k)
    } else {
        lacks::<T>(d, k + 1)
    }
}

/// What is wrong with the items of an array, which are the fields in order,
/// from the `k`th on.
pub open spec fn items_wrong<T: Fields>(items: Seq<Doc>, k: int) -> Option<Seq<char>>
    decreases T::names().len() - k,
{
    let n = T::names().len();
    if k >= n {
        if items.len() > n {
            Some("invalid length "@ + decimal(items.len()) + ", expected fewer elements in array"@)
        } else {
            None
        }
    } else if k >= items.len() {
        Some(too_short(items.len(), T::title(), n))
    } else {
        match T::part_wrong(k, items[k]) {
            Some(why) => Some(why),
            None => items_wrong::<T>(items, k + 1),
        }
    }
}

/// The first thing that is wrong with a document, if anything.
pub open spec fn record_wrong<T: Fields>(d: Doc) -> Option<Seq<char>> {
    match d {
        Doc::Object(_) => match (members_wrong::<T>(d, 0), lacks::<T>(d, 0)) {
            (Some(why), _) => Some(why),
            (None, Some(k)) => Some(about_field("missing"@, T::names()[k])),
            (None, None) => None,
        },
        Doc::List(items) => items_wrong::<T>(items, 0),
        _ => match not_map(d) {
            Some(why) => Some(replaced(why, "a map"@, T::title())),
            None => Some("expected "@ + T::title()),
        },
    }
}

fn check_members<T: Fields>(value: &Value) -> (r: Option<String>)
    requires
        document(*value) is Object,
    ensures
        told(r) == record_wrong::<T>(document(*value)),
{
    let (_, names, sorted) = T::form();
    let ghost d = document(*value);
    assert(words(names@).len() == names@.len());
    let mut k: usize = 0;
    while k < sorted.len()
        invariant
            k <= sorted@.len(),
            d == document(*value),
            d is Object,
            words(names@) == T::names(),
            names@.len() == T::names().len(),
            at_places(sorted@) == T::sorted(),
            forall|i: int| 0 <= i < sorted@.len() ==> #[trigger] sorted@[i] < names@.len(),
            members_wrong::<T>(d, 0) == members_wrong::<T>(d, k as int),
        decreases sorted@.len() - k,
    {
        let j: usize = sorted[k];
        assert(T::sorted()[k as int] == j);
        assert(words(names@)[j as int] == names@[j as int]@);
        if let Some(m) = member(value, names[j]) {
            if let Some(why) = T::check_part(j, m) {
                return Some(why);
            }
        }
        k += 1;
    }
    let mut k: usize = 0;
    while k < names.len()
        invariant
            k <= names@.len(),
            d == document(*value),
            d is Object,
            words(names@) == T::names(),
            names@.len() == T::names().len(),
            members_wrong::<T>(d, 0) is None,
            lacks::<T>(d, 0) == lacks::<T>(d, k as int),
        decreases names@.len() - k,
    {
        assert(words(names@)[k as int] == names@[k as int]@);
        if T::is_needed(k) && member(value, names[k]).is_none() {
            return Some(about("missing", names[k]));
        }
        k += 1;
    }
    None
}

fn check_items<T: Fields>(value: &Value, items: &Vec<Value>) -> (r: Option<String>)
    requires
        document(*value) == Doc::List(documents(items@)),
    ensures
        told(r) == record_wrong::<T>(document(*value)),
{
    let (title, names, _) = T::form();
    let ghost docs = documents(items@);
    assert(words(names@).len() == names@.len());
    let mut k: usize = 0;
    while k < names.len()
        invariant
            k <= names@.len(),
            title@ == T::title(),
            names@.len() == T::names().len(),
            docs == documents(items@),
            document(*value) == Doc::List(docs),
            items_wrong::<T>(docs, 0) == items_wrong::<T>(docs, k as int),
        decreases names@.len() - k,
    {
        if k >= items.len() {
            return Some(tell_too_short(items.len(), title, names.len()));
        }
        assert(docs[k as int] == document(items@[k as int]));
        if let Some(why) = T::check_part(k, &items[k]) {
            return Some(why);
        }
        k += 1;
    }
    if items.len() > names.len() {
        let mut why = "invalid length ".to_owned();
        why.append(decimal_of(items.len() as u64).as_str());
        why.append(", expected fewer elements in array");
        assert(why@ =~= "invalid length "@ + decimal(docs.len())
            + ", expected fewer elements in array"@);
        return Some(why);
    }
    None
}

/// Finds out what is wrong with a document.
pub fn check_record<T: Fields>(value: &Value) -> (r: Option<String>)
    ensures
        told(r) == record_wrong::<T>(document(*value)),
{
    if value.is_object() {
        return check_members::<T>(value);
    }
    if let Some(items) = value.as_array() {
        return check_items::<T>(value, items);
    }
    let (title, _, _) = T::form();
    match find_not_map(value) {
        Some(why) => Some(replace(why.as_str(), "a map", title)),
        None => {
            let mut why = "expected ".to_owned();
            why.append(title);
            Some(why)
        },
    }
}

/// The first thing that is wrong with some documents, from the `k`th on.
pub open spec fn all_wrong<T: Fields>(items: Seq<Doc>, k: int) -> Option<Seq<char>>
    decreases items.len() - k,
{
    if k >= items.len() {
        None
    } else {
        match record_wrong::<T>(items[k]) {
            Some(why) => Some(why),
            None => all_wrong::<T>(items, k + 1),
        }
    }
}

/// The first thing that is wrong with a list of records, if anything.
pub open spec fn list_wrong<T: Fields>(d: Doc) -> Option<Seq<char>> {
    match d {
        Doc::List(items) => all_wrong::<T>(items, 0),
        _ => not_list(d),
    }
}

/// Finds out what is wrong with a list of records.
pub fn check_list<T: Fields>(value: &Value) -> (r: Option<String>)
    ensures
        told(r) == list_wrong::<T>(document(*value)),
{
    let items = match value.as_array() {
        Some(items) => items,
        None => {
            return find_not_list(value);
        },
    };
    let ghost docs = documents(items@);
    let mut k: usize = 0;
    while k < items.len()
        invariant
            k <= items@.len(),
            docs == documents(items@),
            document(*value) == Doc::List(docs),
            all_wrong::<T>(docs, 0) == all_wrong::<T>(docs, k as int),
        decreases items@.len() - k,
    {
        assert(docs[k as int] == document(items@[k as int]));
        if let Some(why) = check_record::<T>(&items[k]) {
            return Some(why);
        }
        k += 1;
    }
    None
}

/// The values are what the listed documents say.
pub open spec fn list_tells<T: Fields>(values: Seq<T>, d: Doc) -> bool {
    match d {
        Doc::List(items) => values.len() == items.len() && forall|i: int|
            0 <= i < items.len() ==> (#[trigger] values[i]).tells(items[i]),
        _ => values.len() == 0,
    }
}

/// Reads a list of records.
pub fn list_of<T: Fields>(value: &Value) -> (r: Vec<T>)
    ensures
        list_tells(r@, document(*value)),
{
    let mut values: Vec<T> = Vec::new();
    let items = match value.as_array() {
        Some(items) => items,
        None => {
            return values;
        },
    };
    let ghost docs = documents(items@);
    let mut i: usize = 0;
    while i < items.len()
        invariant
            i <= items@.len(),
            docs == documents(items@),
            document(*value) == Doc::List(docs),
            values@.len() == i,
            forall|k: int| 0 <= k < i ==> (#[trigger] values@[k]).tells(docs[k]),
        decreases items@.len() - i,
    {
        assert(docs[i as int] == document(items@[i as int]));
        values.push(T::build(&items[i]));
        i += 1;
    }
    values
}

/// The field of a record, if it is there: the member of that name, or the item
/// at that place.
pub open spec fn part_of(d: Doc, name: Seq<char>, at: nat) -> Option<Doc> {
    match d {
        Doc::List(items) => if at < items.len() {
            Some(items[at as int])
        } else {
            None
        },
        _ => member_of(d, name),
    }
}

/// The field of a record, unless it is missing or null.
pub open spec fn given(d: Doc, name: Seq<char>, at: nat) -> Option<Doc> {
    match part_of(d, name, at) {
        Some(Doc::Null) => None,
        found => found,
    }
}

/// The field of a record, unless it is missing or null.
pub fn optional<'a>(value: &'a Value, name: &str, at: usize) -> (r: Option<&'a Value>)
    ensures
        match r {
            Some(m) => given(document(*value), name@, at as nat) == Some(document(*m)),
            None => given(document(*value), name@, at as nat) is None,
        },
{
    let found = match value.as_array() {
        Some(items) => if at < items.len() {
            assert(documents(items@)[at as int] == document(items@[at as int]));
            Some(&items[at])
        } else {
            None
        },
        None => member(value, name),
    };
    match found {
        Some(m) => if m.is_null() {
            None
        } else {
            Some(m)
        },
        None => None,
    }
}

/// The string that is given.
pub open spec fn text_in(d: Option<Doc>) -> Option<Seq<char>> {
    match d {
        Some(Doc::Text(text)) => Some(text),
        _ => None,
    }
}

/// The number that is given.
pub open spec fn reading_in(d: Option<Doc>) -> Option<Reading> {
    match d {
        Some(Doc::Number { bits, .. }) => Some(Reading::Number(bits)),
        _ => None,
    }
}

/// The whole number that is given.
pub open spec fn whole_in(d: Option<Doc>) -> Option<i64> {
    match d {
        Some(d) => integer_in(d),
        None => None,
    }
}

/// An optional string of a record.
pub fn text_at(value: &Value, name: &str, at: usize) -> (r: Option<String>)
    ensures
        told(r) == text_in(given(document(*value), name@, at as nat)),
{
    match optional(value, name, at) {
        Some(m) => match m.as_str() {
            Some(text) => Some(text.to_owned()),
            None => None,
        },
        None => None,
    }
}

/// An optional number of a record.
pub fn number_at(value: &Value, name: &str, at: usize) -> (r: Option<Reading>)
    ensures
        r == reading_in(given(document(*value), name@, at as nat)),
{
    match optional(value, name, at) {
        Some(m) => match number_bits(m) {
            Some(bits) => Some(Reading::Number(bits)),
            None => None,
        },
        None => None,
    }
}

/// An optional whole number of a record.
pub fn integer_at(value: &Value, name: &str, at: usize) -> (r: Option<i64>)
    ensures
        r == whole_in(given(document(*value), name@, at as nat)),
{
    match optional(value, name, at) {
        Some(m) => m.as_i64(),
        None => None,
    }
}

/// The cell of an optional value holds what is given.
pub open spec fn cell_holds(cell: Option<Cell>, d: Option<Doc>) -> bool {
    match (cell, d) {
        (Some(cell), Some(d)) => cell.holds(d),
        (None, None) => true,
        _ => false,
    }
}

/// An optional value of a record that may be a number or a string.
pub fn cell_at(value: &Value, name: &str, at: usize) -> (r: Option<Cell>)
    ensures
        cell_holds(r, given(document(*value), name@, at as nat)),
{
    match optional(value, name, at) {
        Some(m) => Some(Cell::of(m)),
        None => None,
    }
}

/// The list is what is given.
pub open spec fn listed<T: Fields>(list: Option<Vec<T>>, d: Option<Doc>) -> bool {
    match (list, d) {
        (Some(list), Some(d)) => list_tells(list@, d),
        (None, None) => true,
        _ => false,
    }
}

/// An optional list of records within a record.
pub fn list_at<T: Fields>(value: &Value, name: &str, at: usize) -> (r: Option<Vec<T>>)
    ensures
        listed(r, given(document(*value), name@, at as nat)),
{
    match optional(value, name, at) {
        Some(m) => Some(list_of(m)),
        None => None,
    }
}

/// Finds out what is wrong where a string, or null, is wanted.
pub fn check_text(value: &Value) -> (r: Option<String>)
    ensures
        told(r) == unless_null(document(*value), not_text(document(*value))),
{
    if value.is_null() {
        None
    } else {
        find_not_text(value)
    }
}

/// Finds out what is wrong where a number, or null, is wanted.
pub fn check_number(value: &Value) -> (r: Option<String>)
    ensures
        told(r) == unless_null(document(*value), not_number(document(*value))),
{
    if value.is_null() {
        None
    } else {
        find_not_number(value)
    }
}

/// Finds out what is wrong where a whole number, or null, is wanted.
pub fn check_integer(value: &Value) -> (r: Option<String>)
    ensures
        told(r) == unless_null(document(*value), not_integer(document(*value))),
{
    if value.is_null() {
        None
    } else {
        find_not_integer(value)
    }
}

/// Finds out what is wrong where a string must be.
pub fn check_needed_text(value: &Value) -> (r: Option<String>)
    ensures
        told(r) == not_text(document(*value)),
{
    find_not_text(value)
}

/// Finds out what is wrong where a list of records, or null, is wanted.
pub fn check_optional_list<T: Fields>(value: &Value) -> (r: Option<String>)
    ensures
        told(r) == unless_null(document(*value), list_wrong::<T>(document(*value))),
{
    if value.is_null() {
        None
    } else {
        check_list::<T>(value)
    }
}

/// A record under a name.
#[derive(Debug)]
pub struct Entry<T> {
    pub name: String,
    pub value: T,
}

/// What stands under a name: the first entry of that name.
pub open spec fn under<T>(entries: Seq<Entry<T>>, name: Seq<char>) -> Option<T>
    decreases entries.len(),
{
    if entries.len() == 0 {
        None
    } else if entries[0].name@ == name {
        Some(entries[0].value)
    } else {
        under(entries.drop_first(), name)
    }
}

/// Looks up an entry.
pub fn look_up<'a, T>(entries: &'a Vec<Entry<T>>, name: &str) -> (r: Option<&'a T>)
    ensures
        match r {
            Some(value) => under(entries@, name@) == Some(*value),
            None => under(entries@, name@) is None,
        },
{
    let mut i: usize = 0;
    assert(entries@.skip(0) == entries@);
    while i < entries.len()
        invariant
            i <= entries@.len(),
            under(entries@, name@) == under(entries@.skip(i as int), name@),
        decreases entries@.len() - i,
    {
        assert(entries@.skip(i as int)[0] == entries@[i as int]);
        assert(entries@.skip(i as int).drop_first() == entries@.skip(i + 1));
        if same(entries[i].name.as_str(), name) {
            return Some(&entries[i].value);
        }
        i += 1;
    }
    None
}

} // verus!
