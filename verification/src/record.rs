//! Records read from JSON text, field by field, through `serde_json`.
//!
//! A text is taken apart in the order in which it stands, as a decoder derived
//! from a list of fields takes it apart. A record is an object, whose members
//! are the fields by name, or an array, whose items are the fields in order. A
//! field that is not of the record is skipped, whatever it holds; a field that
//! is comes once. The first thing that is wrong is told, with its place.
//!
//! What a string, a number or a value to be skipped is, `serde_json` decides;
//! what stands between them is looked at here.

use serde::de::IgnoredAny;
use serde::Deserialize;
use serde_json::{Deserializer, Number, Value};
use vstd::prelude::*;

use crate::json::{document, told, Cell, Doc, Entry};
use crate::model::Reading;
use crate::text::{decimal, decimal_of, replace, replaced, same};

verus! {

/// What `String::deserialize` reads from the beginning of a text: a string, and how
/// many bytes it takes with the white space before it; or what is wrong.
pub uninterp spec fn string_read(text: Seq<u8>) -> Result<(Seq<char>, nat), Seq<char>>;

/// `String::deserialize` from a `serde_json::Deserializer` at the beginning of the
/// text behind `from`. It takes no more than there is, and never nothing.
#[verifier::external_body]
fn read_string(text: &[u8], from: usize) -> (r: Result<(String, usize), String>)
    requires
        from <= text@.len(),
    ensures
        match r {
            Ok((x, n)) => 0 < n <= text@.len() - from && string_read(text@.skip(from as int))
                == Ok::<(Seq<char>, nat), Seq<char>>((x@, n as nat)),
            Err(why) => string_read(text@.skip(from as int)) == Err::<(Seq<char>, nat), Seq<char>>(
                why@,
            ),
        },
{
    let mut source = Deserializer::from_slice(&text[from..]);
    let read = String::deserialize(&mut source).map_err(|e| e.to_string());
    let len = source.into_iter::<IgnoredAny>().byte_offset();
    read.map(|x| (x, len))
}

/// What deserializing a double-precision float reads from the beginning of a
/// text: its bits, and how many bytes it takes with the white space before it;
/// or what is wrong.
pub uninterp spec fn figure_read(text: Seq<u8>) -> Result<(u64, nat), Seq<char>>;

/// `Deserialize::deserialize` of a double-precision float, which is always
/// finite, from a `serde_json::Deserializer` at the beginning of the text behind
/// `from`. It takes no more than there is, and never nothing.
#[verifier::external_body]
fn read_figure(text: &[u8], from: usize) -> (r: Result<(u64, usize), String>)
    requires
        from <= text@.len(),
    ensures
        match r {
            Ok((x, n)) => 0 < n <= text@.len() - from && figure_read(text@.skip(from as int))
                == Ok::<(u64, nat), Seq<char>>((x, n as nat)),
            Err(why) => figure_read(text@.skip(from as int)) == Err::<(u64, nat), Seq<char>>(
                why@,
            ),
        },
{
    let mut source = Deserializer::from_slice(&text[from..]);
    let read = Deserialize::deserialize(&mut source).map_err(|e| e.to_string());
    let len = source.into_iter::<IgnoredAny>().byte_offset();
    read.map(|x| (Number::from_f64(x).unwrap().as_f64().unwrap().to_bits(), len))
}

/// What `i64::deserialize` reads from the beginning of a text: a whole number of 64 bits, and how
/// many bytes it takes with the white space before it; or what is wrong.
pub uninterp spec fn integer_read(text: Seq<u8>) -> Result<(i64, nat), Seq<char>>;

/// `i64::deserialize` from a `serde_json::Deserializer` at the beginning of the
/// text behind `from`. It takes no more than there is, and never nothing.
#[verifier::external_body]
fn read_integer(text: &[u8], from: usize) -> (r: Result<(i64, usize), String>)
    requires
        from <= text@.len(),
    ensures
        match r {
            Ok((x, n)) => 0 < n <= text@.len() - from && integer_read(text@.skip(from as int))
                == Ok::<(i64, nat), Seq<char>>((x, n as nat)),
            Err(why) => integer_read(text@.skip(from as int)) == Err::<(i64, nat), Seq<char>>(
                why@,
            ),
        },
{
    let mut source = Deserializer::from_slice(&text[from..]);
    let read = i64::deserialize(&mut source).map_err(|e| e.to_string());
    let len = source.into_iter::<IgnoredAny>().byte_offset();
    read.map(|x| (x, len))
}

/// What `()::deserialize` reads from the beginning of a text: null, and how
/// many bytes it takes with the white space before it; or what is wrong.
pub uninterp spec fn null_read(text: Seq<u8>) -> Result<((), nat), Seq<char>>;

/// `()::deserialize` from a `serde_json::Deserializer` at the beginning of the
/// text behind `from`. It takes no more than there is, and never nothing.
#[verifier::external_body]
fn read_null(text: &[u8], from: usize) -> (r: Result<((), usize), String>)
    requires
        from <= text@.len(),
    ensures
        match r {
            Ok((x, n)) => 0 < n <= text@.len() - from && null_read(text@.skip(from as int))
                == Ok::<((), nat), Seq<char>>((x, n as nat)),
            Err(why) => null_read(text@.skip(from as int)) == Err::<((), nat), Seq<char>>(
                why@,
            ),
        },
{
    let mut source = Deserializer::from_slice(&text[from..]);
    let read = <()>::deserialize(&mut source).map_err(|e| e.to_string());
    let len = source.into_iter::<IgnoredAny>().byte_offset();
    read.map(|x| (x, len))
}

/// What `Value::deserialize` reads from the beginning of a text: any value, and how
/// many bytes it takes with the white space before it; or what is wrong.
pub uninterp spec fn value_read(text: Seq<u8>) -> Result<(Doc, nat), Seq<char>>;

/// `Value::deserialize` from a `serde_json::Deserializer` at the beginning of the
/// text behind `from`. It takes no more than there is, and never nothing.
#[verifier::external_body]
fn read_value(text: &[u8], from: usize) -> (r: Result<(Value, usize), String>)
    requires
        from <= text@.len(),
    ensures
        match r {
            Ok((x, n)) => 0 < n <= text@.len() - from && value_read(text@.skip(from as int))
                == Ok::<(Doc, nat), Seq<char>>((document(x), n as nat)),
            Err(why) => value_read(text@.skip(from as int)) == Err::<(Doc, nat), Seq<char>>(
                why@,
            ),
        },
{
    let mut source = Deserializer::from_slice(&text[from..]);
    let read = Value::deserialize(&mut source).map_err(|e| e.to_string());
    let len = source.into_iter::<IgnoredAny>().byte_offset();
    read.map(|x| (x, len))
}

/// What `IgnoredAny::deserialize` reads from the beginning of a text: any value,
/// which is not looked into, and how many bytes it takes with the white space
/// before it; or what is wrong.
pub uninterp spec fn skip_read(text: Seq<u8>) -> Result<((), nat), Seq<char>>;

/// `IgnoredAny::deserialize` from a `serde_json::Deserializer` at the beginning of the
/// text behind `from`. It takes no more than there is, and never nothing.
#[verifier::external_body]
fn read_skip(text: &[u8], from: usize) -> (r: Result<((), usize), String>)
    requires
        from <= text@.len(),
    ensures
        match r {
            Ok((x, n)) => 0 < n <= text@.len() - from && skip_read(text@.skip(from as int))
                == Ok::<((), nat), Seq<char>>((x, n as nat)),
            Err(why) => skip_read(text@.skip(from as int)) == Err::<((), nat), Seq<char>>(
                why@,
            ),
        },
{
    let mut source = Deserializer::from_slice(&text[from..]);
    let read = IgnoredAny::deserialize(&mut source).map_err(|e| e.to_string());
    let len = source.into_iter::<IgnoredAny>().byte_offset();
    read.map(|_| ((), len))
}

/// What `BTreeMap::<String, IgnoredAny>::deserialize` finds wrong with the beginning of
/// a text, if anything, where an object is wanted.
pub uninterp spec fn map_fault(text: Seq<u8>) -> Option<Seq<char>>;

/// `BTreeMap::<String, IgnoredAny>::deserialize` from a `serde_json::Deserializer`.
#[verifier::external_body]
fn find_map_fault(text: &[u8], from: usize) -> (r: Option<String>)
    requires
        from <= text@.len(),
    ensures
        told(r) == map_fault(text@.skip(from as int)),
{
    let mut source = Deserializer::from_slice(&text[from..]);
    let read = std::collections::BTreeMap::<String, IgnoredAny>::deserialize(&mut source);
    read.err().map(|e| e.to_string())
}

/// What `Vec::<IgnoredAny>::deserialize` finds wrong with the beginning of
/// a text, if anything, where an array is wanted.
pub uninterp spec fn list_fault(text: Seq<u8>) -> Option<Seq<char>>;

/// `Vec::<IgnoredAny>::deserialize` from a `serde_json::Deserializer`.
#[verifier::external_body]
fn find_list_fault(text: &[u8], from: usize) -> (r: Option<String>)
    requires
        from <= text@.len(),
    ensures
        told(r) == list_fault(text@.skip(from as int)),
{
    let mut source = Deserializer::from_slice(&text[from..]);
    Vec::<IgnoredAny>::deserialize(&mut source).err().map(|e| e.to_string())
}

/// White space of JSON.
pub open spec fn blank(b: u8) -> bool {
    b == 0x20 || b == 0x0a || b == 0x09 || b == 0x0d
}

/// Where the white space from `i` on ends.
pub open spec fn blanks_end(text: Seq<u8>, i: int) -> int
    decreases text.len() - i,
{
    if i < text.len() && blank(text[i]) {
        blanks_end(text, i + 1)
    } else {
        i
    }
}

fn skip_blanks(text: &[u8], from: usize) -> (r: usize)
    requires
        from <= text@.len(),
    ensures
        from <= r <= text@.len(),
        r == blanks_end(text@, from as int),
{
    let mut i: usize = from;
    while i < text.len() && (text[i] == 0x20 || text[i] == 0x0a || text[i] == 0x09 || text[i]
        == 0x0d)
        invariant
            from <= i <= text@.len(),
            blanks_end(text@, from as int) == blanks_end(text@, i as int),
        decreases text@.len() - i,
    {
        i += 1;
    }
    i
}

/// The line of a place in a text, counted from one.
pub open spec fn line_of(text: Seq<u8>, i: int) -> nat
    decreases i,
{
    if i <= 0 {
        1
    } else if text[i - 1] == 0x0a {
        line_of(text, i - 1) + 1
    } else {
        line_of(text, i - 1)
    }
}

/// The column of a place in a text: how many bytes of its line come before it.
pub open spec fn column_of(text: Seq<u8>, i: int) -> nat
    decreases i,
{
    if i <= 0 || text[i - 1] == 0x0a {
        0
    } else {
        column_of(text, i - 1) + 1
    }
}

/// What is wrong, and where.
pub open spec fn told_at(what: Seq<char>, text: Seq<u8>, i: int) -> Seq<char> {
    what + " at line "@ + decimal(line_of(text, i)) + " column "@ + decimal(column_of(text, i))
}

/// What is wrong, at the byte in view: the place behind it is told.
pub open spec fn told_behind(what: Seq<char>, text: Seq<u8>, i: int) -> Seq<char> {
    told_at(
        what,
        text,
        if i < text.len() {
            i + 1
        } else {
            text.len() as int
        },
    )
}

fn tell_at(what: &str, text: &[u8], i: usize) -> (r: String)
    requires
        i <= text@.len(),
    ensures
        r@ == told_at(what@, text@, i as int),
{
    let mut line: u128 = 1;
    let mut column: u64 = 0;
    let mut k: usize = 0;
    while k < i
        invariant
            k <= i <= text@.len(),
            line == line_of(text@, k as int),
            column == column_of(text@, k as int),
            line <= k + 1,
            column <= k,
        decreases i - k,
    {
        if text[k] == 0x0a {
            line += 1;
            column = 0;
        } else {
            column += 1;
        }
        k += 1;
    }
    let mut r = what.to_owned();
    r.append(" at line ");
    if line < 10 {
        r.append(decimal_of(line as u64).as_str());
    } else {
        r.append(decimal_of((line / 10) as u64).as_str());
        r.append(decimal_of((line % 10) as u64).as_str());
    }
    assert(r@ =~= what@ + " at line "@ + decimal(line as nat));
    r.append(" column ");
    r.append(decimal_of(column).as_str());
    assert(r@ =~= told_at(what@, text@, i as int));
    r
}

fn tell_behind(what: &str, text: &[u8], i: usize) -> (r: String)
    requires
        i <= text@.len(),
    ensures
        r@ == told_behind(what@, text@, i as int),
{
    if i < text.len() {
        tell_at(what, text, i + 1)
    } else {
        tell_at(what, text, i)
    }
}

/// The text with blanks for all that stands before `i` but the ends of lines,
/// so that every place in it stays the same.
pub open spec fn blanked(text: Seq<u8>, i: int) -> Seq<u8> {
    Seq::new(
        text.len(),
        |k: int|
            if k < i && text[k] != 0x0a {
                0x20u8
            } else {
                text[k]
            },
    )
}

fn blank_out(text: &[u8], i: usize) -> (r: Vec<u8>)
    ensures
        r@ == blanked(text@, i as int),
{
    let mut r: Vec<u8> = Vec::new();
    let mut k: usize = 0;
    while k < text.len()
        invariant
            k <= text@.len(),
            r@ == blanked(text@, i as int).take(k as int),
        decreases text@.len() - k,
    {
        let ghost before = r@;
        r.push(
            if k < i && text[k] != 0x0a {
                0x20
            } else {
                text[k]
            },
        );
        assert(r@ =~= blanked(text@, i as int).take(k + 1));
        k += 1;
    }
    assert(r@ =~= blanked(text@, i as int));
    r
}

/// What is wrong, if anything, with its place in the whole text; `whole` is
/// what is read with blanks for all that stands before.
pub open spec fn fault_in<A>(
    read: Result<(A, nat), Seq<char>>,
    whole: Result<(A, nat), Seq<char>>,
) -> Option<Seq<char>> {
    match (read, whole) {
        (Ok(_), _) => None,
        (Err(_), Err(why)) => Some(why),
        (Err(why), Ok(_)) => Some(why),
    }
}

/// What is wrong with the string at `i`.
pub open spec fn string_wrong(text: Seq<u8>, i: int) -> Option<Seq<char>> {
    fault_in(string_read(text.skip(i)), string_read(blanked(text, i)))
}

fn check_string(text: &[u8], i: usize) -> (r: Option<String>)
    requires
        i <= text@.len(),
    ensures
        told(r) == string_wrong(text@, i as int),
{
    match read_string(text, i) {
        Ok(_) => None,
        Err(why) => {
            let whole = blank_out(text, i);
            assert(whole@.skip(0) =~= blanked(text@, i as int));
            match read_string(whole.as_slice(), 0) {
                Ok(_) => Some(why),
                Err(why) => Some(why),
            }
        },
    }
}

/// What is wrong with the figure at `i`.
pub open spec fn figure_wrong(text: Seq<u8>, i: int) -> Option<Seq<char>> {
    fault_in(figure_read(text.skip(i)), figure_read(blanked(text, i)))
}

fn check_figure(text: &[u8], i: usize) -> (r: Option<String>)
    requires
        i <= text@.len(),
    ensures
        told(r) == figure_wrong(text@, i as int),
{
    match read_figure(text, i) {
        Ok(_) => None,
        Err(why) => {
            let whole = blank_out(text, i);
            assert(whole@.skip(0) =~= blanked(text@, i as int));
            match read_figure(whole.as_slice(), 0) {
                Ok(_) => Some(why),
                Err(why) => Some(why),
            }
        },
    }
}

/// What is wrong with the integer at `i`.
pub open spec fn integer_wrong(text: Seq<u8>, i: int) -> Option<Seq<char>> {
    fault_in(integer_read(text.skip(i)), integer_read(blanked(text, i)))
}

fn check_integer(text: &[u8], i: usize) -> (r: Option<String>)
    requires
        i <= text@.len(),
    ensures
        told(r) == integer_wrong(text@, i as int),
{
    match read_integer(text, i) {
        Ok(_) => None,
        Err(why) => {
            let whole = blank_out(text, i);
            assert(whole@.skip(0) =~= blanked(text@, i as int));
            match read_integer(whole.as_slice(), 0) {
                Ok(_) => Some(why),
                Err(why) => Some(why),
            }
        },
    }
}

/// What is wrong with the null at `i`.
pub open spec fn null_wrong(text: Seq<u8>, i: int) -> Option<Seq<char>> {
    fault_in(null_read(text.skip(i)), null_read(blanked(text, i)))
}

fn check_null(text: &[u8], i: usize) -> (r: Option<String>)
    requires
        i <= text@.len(),
    ensures
        told(r) == null_wrong(text@, i as int),
{
    match read_null(text, i) {
        Ok(_) => None,
        Err(why) => {
            let whole = blank_out(text, i);
            assert(whole@.skip(0) =~= blanked(text@, i as int));
            match read_null(whole.as_slice(), 0) {
                Ok(_) => Some(why),
                Err(why) => Some(why),
            }
        },
    }
}

/// What is wrong with the value at `i`.
pub open spec fn value_wrong(text: Seq<u8>, i: int) -> Option<Seq<char>> {
    fault_in(value_read(text.skip(i)), value_read(blanked(text, i)))
}

fn check_value(text: &[u8], i: usize) -> (r: Option<String>)
    requires
        i <= text@.len(),
    ensures
        told(r) == value_wrong(text@, i as int),
{
    match read_value(text, i) {
        Ok(_) => None,
        Err(why) => {
            let whole = blank_out(text, i);
            assert(whole@.skip(0) =~= blanked(text@, i as int));
            match read_value(whole.as_slice(), 0) {
                Ok(_) => Some(why),
                Err(why) => Some(why),
            }
        },
    }
}

/// What is wrong with the value at `i`, which is not looked into.
pub open spec fn skip_wrong(text: Seq<u8>, i: int) -> Option<Seq<char>> {
    fault_in(skip_read(text.skip(i)), skip_read(blanked(text, i)))
}

fn check_skip(text: &[u8], i: usize) -> (r: Option<String>)
    requires
        i <= text@.len(),
    ensures
        told(r) == skip_wrong(text@, i as int),
{
    match read_skip(text, i) {
        Ok(_) => None,
        Err(why) => {
            let whole = blank_out(text, i);
            assert(whole@.skip(0) =~= blanked(text@, i as int));
            match read_skip(whole.as_slice(), 0) {
                Ok(_) => Some(why),
                Err(why) => Some(why),
            }
        },
    }
}

/// How much of the text is left.
pub open spec fn left(text: Seq<u8>, i: int) -> nat {
    if i < text.len() {
        (text.len() - i) as nat
    } else {
        0
    }
}

/// Where a member of an object stands.
pub struct Spot {
    pub name: Seq<char>,
    /// Behind the name.
    pub behind: int,
    /// Before the value, if there is a colon.
    pub from: Option<int>,
}

/// The members of an object, or the items of an array, as far as the text can
/// be followed; what is wrong where it cannot; and where it ends if it can.
pub struct Scan<S> {
    pub parts: Seq<S>,
    pub fault: Option<Seq<char>>,
    pub end: int,
}

/// Nothing more, and what is wrong.
pub open spec fn stopped<S>(fault: Seq<char>) -> Scan<S> {
    Scan { parts: Seq::empty(), fault: Some(fault), end: 0 }
}

/// One more in front.
pub open spec fn with_part<S>(part: S, rest: Scan<S>) -> Scan<S> {
    Scan { parts: seq![part] + rest.parts, ..rest }
}

/// Where the next name of an object stands, `None` where the object ends, or
/// what is wrong. No comma stands before the first.
pub open spec fn next_name(text: Seq<u8>, i: int, first: bool) -> Result<Option<int>, Seq<char>> {
    let p = blanks_end(text, i);
    let q = blanks_end(text, p + 1);
    if p >= text.len() {
        Err(told_behind("EOF while parsing an object"@, text, p))
    } else if text[p] == 0x7d {
        Ok(None)
    } else if first {
        if text[p] == 0x22 {
            Ok(Some(p))
        } else {
            Err(told_behind("key must be a string"@, text, p))
        }
    } else if text[p] != 0x2c {
        Err(told_behind("expected `,` or `}`"@, text, p))
    } else if q >= text.len() {
        Err(told_behind("EOF while parsing a value"@, text, q))
    } else if text[q] == 0x22 {
        Ok(Some(q))
    } else if text[q] == 0x7d {
        Err(told_behind("trailing comma"@, text, q))
    } else {
        Err(told_behind("key must be a string"@, text, q))
    }
}

/// The members of an object from `i` on.
pub open spec fn members_from(text: Seq<u8>, i: int, first: bool) -> Scan<Spot>
    decreases left(text, i),
{
    match next_name(text, i, first) {
        Err(why) => stopped(why),
        Ok(None) => Scan { parts: Seq::empty(), fault: None, end: blanks_end(text, i) + 1 },
        Ok(Some(p)) => match string_read(text.skip(p)) {
            Err(_) => stopped(string_wrong(text, p)->0),
            Ok((name, n)) => {
                let behind = p + n;
                let c = blanks_end(text, behind);
                let spot = Spot { name, behind, from: None };
                if c >= text.len() {
                    with_part(spot, stopped(told_behind("EOF while parsing an object"@, text, c)))
                } else if text[c] != 0x3a {
                    with_part(spot, stopped(told_behind("expected `:`"@, text, c)))
                } else {
                    let spot = Spot { from: Some(c + 1), ..spot };
                    match skip_read(text.skip(c + 1)) {
                        Err(_) => with_part(spot, stopped(skip_wrong(text, c + 1)->0)),
                        Ok((_, m)) => {
                            proof {
                                lemma_blanks(text, i);
                                lemma_blanks(text, blanks_end(text, i) + 1);
                                lemma_blanks(text, behind);
                            }
                            with_part(spot, members_from(text, c + 1 + m, false))
                        },
                    }
                }
            },
        },
    }
}

/// White space ends no earlier than it begins, and within the text.
pub proof fn lemma_blanks(text: Seq<u8>, i: int)
    ensures
        i <= blanks_end(text, i),
        i <= text.len() ==> blanks_end(text, i) <= text.len(),
    decreases text.len() - i,
{
    if i < text.len() && blank(text[i]) {
        lemma_blanks(text, i + 1);
    }
}

/// A member of an object, where it stands.
pub struct Place {
    pub name: String,
    pub behind: usize,
    pub from: Option<usize>,
}

/// A place as a number.
pub open spec fn at_place(i: Option<usize>) -> Option<int> {
    match i {
        Some(i) => Some(i as int),
        None => None,
    }
}

impl Place {
    /// What is known of the member.
    pub open spec fn spot(self) -> Spot {
        Spot { name: self.name@, behind: self.behind as int, from: at_place(self.from) }
    }
}

/// The members that were found.
pub open spec fn spots(places: Seq<Place>) -> Seq<Spot> {
    places.map_values(|p: Place| p.spot())
}

fn find_name(text: &[u8], i: usize, first: bool) -> (r: Result<Option<usize>, String>)
    requires
        i <= text@.len(),
    ensures
        match r {
            Ok(p) => next_name(text@, i as int, first) == Ok::<Option<int>, Seq<char>>(
                at_place(p),
            ) && (p matches Some(p) ==> i <= p < text@.len()) && (p is None ==> blanks_end(
                text@,
                i as int,
            ) < text@.len()),
            Err(why) => next_name(text@, i as int, first) == Err::<Option<int>, Seq<char>>(why@),
        },
{
    let p: usize = skip_blanks(text, i);
    if p >= text.len() {
        return Err(tell_behind("EOF while parsing an object", text, p));
    }
    if text[p] == 0x7d {
        return Ok(None);
    }
    if first {
        return if text[p] == 0x22 {
            Ok(Some(p))
        } else {
            Err(tell_behind("key must be a string", text, p))
        };
    }
    if text[p] != 0x2c {
        return Err(tell_behind("expected `,` or `}`", text, p));
    }
    let q: usize = skip_blanks(text, p + 1);
    if q >= text.len() {
        Err(tell_behind("EOF while parsing a value", text, q))
    } else if text[q] == 0x22 {
        Ok(Some(q))
    } else if text[q] == 0x7d {
        Err(tell_behind("trailing comma", text, q))
    } else {
        Err(tell_behind("key must be a string", text, q))
    }
}

/// What became of one step along an object.
enum Step {
    /// Another member, and where it ends.
    Part(Place, usize),
    /// The end.
    End(usize),
    /// Another member, but not all of it can be followed.
    Cut(Place, String),
    /// Nothing can be followed.
    Stop(String),
}

impl Step {
    /// The step is the first of the scan.
    spec fn begins(self, text: Seq<u8>, scan: Scan<Spot>) -> bool {
        match self {
            Step::Part(place, end) => end <= text.len() && scan == with_part(
                place.spot(),
                members_from(text, end as int, false),
            ) && (place.from matches Some(f) && f <= text.len()),
            Step::End(end) => end <= text.len() && scan.parts.len() == 0 && scan.fault is None
                && scan.end == end,
            Step::Cut(place, why) => scan == with_part(place.spot(), stopped(why@)) && (
            place.from matches Some(f) ==> f <= text.len()),
            Step::Stop(why) => scan == stopped::<Spot>(why@),
        }
    }
}

fn step_along(text: &[u8], i: usize, first: bool) -> (r: Step)
    requires
        i <= text@.len(),
    ensures
        r.begins(text@, members_from(text@, i as int, first)),
        r matches Step::Part(_, end) ==> i < end,
        r matches Step::Part(place, _) ==> place.behind <= text@.len(),
        r matches Step::Cut(place, _) ==> place.behind <= text@.len(),
{
    let p: usize = match find_name(text, i, first) {
        Err(why) => {
            return Step::Stop(why);
        },
        Ok(None) => {
            let end: usize = skip_blanks(text, i);
            assert(end < text.len());
            return Step::End(end + 1);
        },
        Ok(Some(p)) => p,
    };
    let (name, n) = match read_string(text, p) {
        Ok(read) => read,
        Err(why) => {
            return match check_string(text, p) {
                Some(why) => Step::Stop(why),
                None => Step::Stop(why),
            };
        },
    };
    assert(p + n <= text.len());
    let behind: usize = p + n;
    let c: usize = skip_blanks(text, behind);
    if c >= text.len() {
        let why = tell_behind("EOF while parsing an object", text, c);
        return Step::Cut(Place { name, behind, from: None }, why);
    }
    if text[c] != 0x3a {
        let why = tell_behind("expected `:`", text, c);
        return Step::Cut(Place { name, behind, from: None }, why);
    }
    let place = Place { name, behind, from: Some(c + 1) };
    match read_skip(text, c + 1) {
        Ok((_, m)) => Step::Part(place, c + 1 + m),
        Err(why) => match check_skip(text, c + 1) {
            Some(why) => Step::Cut(place, why),
            None => Step::Cut(place, why),
        },
    }
}

/// The members of an object, as far as the text can be followed.
struct Found<P> {
    parts: Vec<P>,
    fault: Option<String>,
    end: usize,
}

fn scan_members(text: &[u8], start: usize) -> (r: Found<Place>)
    requires
        start <= text@.len(),
    ensures
        spots(r.parts@) == members_from(text@, start as int, true).parts,
        told(r.fault) == members_from(text@, start as int, true).fault,
        r.fault is None ==> r.end == members_from(text@, start as int, true).end && r.end
            <= text@.len(),
        forall|k: int|
            0 <= k < r.parts@.len() ==> (#[trigger] r.parts@[k]).behind <= text@.len() && (
            r.parts@[k].from matches Some(f) ==> f <= text@.len()),
{
    let ghost whole = members_from(text@, start as int, true);
    let mut parts: Vec<Place> = Vec::new();
    let mut i: usize = start;
    let mut first: bool = true;
    assert(spots(parts@) + whole.parts =~= whole.parts);
    loop
        invariant
            i <= text@.len(),
            whole.parts == spots(parts@) + members_from(text@, i as int, first).parts,
            whole.fault == members_from(text@, i as int, first).fault,
            whole.end == members_from(text@, i as int, first).end,
            whole == members_from(text@, start as int, true),
            forall|k: int|
                0 <= k < parts@.len() ==> (#[trigger] parts@[k]).behind <= text@.len() && (
                parts@[k].from matches Some(f) ==> f <= text@.len()),
        decreases text@.len() - i,
    {
        let ghost before = spots(parts@);
        match step_along(text, i, first) {
            Step::Part(place, end) => {
                let ghost rest = members_from(text@, end as int, false);
                let ghost spot = place.spot();
                parts.push(place);
                assert(spots(parts@) =~= before.push(spot));
                assert(before + (seq![spot] + rest.parts) =~= before.push(spot) + rest.parts);
                i = end;
                first = false;
            },
            Step::End(end) => {
                assert(before + Seq::<Spot>::empty() =~= before);
                assert(members_from(text@, i as int, first).parts =~= Seq::empty());
                return Found { parts, fault: None, end };
            },
            Step::Cut(place, why) => {
                let ghost spot = place.spot();
                parts.push(place);
                assert(spots(parts@) =~= before.push(spot));
                assert(before + (seq![spot] + Seq::empty()) =~= before.push(spot));
                return Found { parts, fault: Some(why), end: 0 };
            },
            Step::Stop(why) => {
                assert(before + Seq::<Spot>::empty() =~= before);
                return Found { parts, fault: Some(why), end: 0 };
            },
        }
    }
}

/// Where the next item of an array stands, `None` where the array ends, or
/// what is wrong. No comma stands before the first.
pub open spec fn next_item(text: Seq<u8>, i: int, first: bool) -> Result<Option<int>, Seq<char>> {
    let p = blanks_end(text, i);
    let q = blanks_end(text, p + 1);
    if p >= text.len() {
        Err(told_behind("EOF while parsing a list"@, text, p))
    } else if text[p] == 0x5d {
        Ok(None)
    } else if first {
        Ok(Some(p))
    } else if text[p] != 0x2c {
        Err(told_behind("expected `,` or `]`"@, text, p))
    } else if q >= text.len() {
        Err(told_behind("EOF while parsing a value"@, text, q))
    } else if text[q] == 0x5d {
        Err(told_behind("trailing comma"@, text, q))
    } else {
        Ok(Some(q))
    }
}

/// Where an array ends of which no further item is wanted, or what is wrong.
pub open spec fn list_end(text: Seq<u8>, i: int) -> Result<int, Seq<char>> {
    let p = blanks_end(text, i);
    let q = blanks_end(text, p + 1);
    if p >= text.len() {
        Err(told_behind("EOF while parsing a list"@, text, p))
    } else if text[p] == 0x5d {
        Ok(p + 1)
    } else if text[p] != 0x2c {
        Err(told_behind("trailing characters"@, text, p))
    } else if q < text.len() && text[q] == 0x5d {
        Err(told_behind("trailing comma"@, text, q))
    } else {
        Err(told_behind("trailing characters"@, text, q))
    }
}

/// The items of an array from `i` on, of which no more than so many are wanted
/// where there is a limit.
pub open spec fn items_from(text: Seq<u8>, i: int, first: bool, limit: Option<nat>) -> Scan<int>
    decreases left(text, i),
{
    if limit == Some(0nat) {
        match list_end(text, i) {
            Ok(end) => Scan { parts: Seq::empty(), fault: None, end },
            Err(why) => stopped(why),
        }
    } else {
        match next_item(text, i, first) {
            Err(why) => stopped(why),
            Ok(None) => Scan { parts: Seq::empty(), fault: None, end: blanks_end(text, i) + 1 },
            Ok(Some(p)) => match skip_read(text.skip(p)) {
                Ok((_, m)) if m > 0 => {
                    proof {
                        lemma_blanks(text, i);
                        lemma_blanks(text, blanks_end(text, i) + 1);
                    }
                    with_part(p, items_from(text, p + m, false, fewer(limit)))
                },
                _ => with_part(p, stopped(skip_wrong(text, p)->0)),
            },
        }
    }
}

/// One less.
pub open spec fn fewer(limit: Option<nat>) -> Option<nat> {
    match limit {
        Some(n) if n > 0 => Some((n - 1) as nat),
        _ => limit,
    }
}

fn find_item(text: &[u8], i: usize, first: bool) -> (r: Result<Option<usize>, String>)
    requires
        i <= text@.len(),
    ensures
        match r {
            Ok(p) => next_item(text@, i as int, first) == Ok::<Option<int>, Seq<char>>(
                at_place(p),
            ) && (p matches Some(p) ==> i <= p < text@.len()) && (p is None ==> blanks_end(
                text@,
                i as int,
            ) < text@.len()),
            Err(why) => next_item(text@, i as int, first) == Err::<Option<int>, Seq<char>>(why@),
        },
{
    let p: usize = skip_blanks(text, i);
    if p >= text.len() {
        return Err(tell_behind("EOF while parsing a list", text, p));
    }
    if text[p] == 0x5d {
        return Ok(None);
    }
    if first {
        return Ok(Some(p));
    }
    if text[p] != 0x2c {
        return Err(tell_behind("expected `,` or `]`", text, p));
    }
    let q: usize = skip_blanks(text, p + 1);
    if q >= text.len() {
        Err(tell_behind("EOF while parsing a value", text, q))
    } else if text[q] == 0x5d {
        Err(tell_behind("trailing comma", text, q))
    } else {
        Ok(Some(q))
    }
}

fn find_list_end(text: &[u8], i: usize) -> (r: Result<usize, String>)
    requires
        i <= text@.len(),
    ensures
        match r {
            Ok(end) => end <= text@.len() && list_end(text@, i as int) == Ok::<int, Seq<char>>(
                end as int,
            ),
            Err(why) => list_end(text@, i as int) == Err::<int, Seq<char>>(why@),
        },
{
    let p: usize = skip_blanks(text, i);
    if p >= text.len() {
        return Err(tell_behind("EOF while parsing a list", text, p));
    }
    if text[p] == 0x5d {
        return Ok(p + 1);
    }
    if text[p] != 0x2c {
        return Err(tell_behind("trailing characters", text, p));
    }
    let q: usize = skip_blanks(text, p + 1);
    if q < text.len() && text[q] == 0x5d {
        Err(tell_behind("trailing comma", text, q))
    } else {
        Err(tell_behind("trailing characters", text, q))
    }
}

/// The items that were found.
pub open spec fn at_places(places: Seq<usize>) -> Seq<int> {
    places.map_values(|p: usize| p as int)
}

/// A limit as a number.
pub open spec fn wanted(limit: Option<usize>) -> Option<nat> {
    match limit {
        Some(n) => Some(n as nat),
        None => None,
    }
}

fn scan_items(text: &[u8], start: usize, limit: Option<usize>) -> (r: Found<usize>)
    requires
        start <= text@.len(),
    ensures
        at_places(r.parts@) == items_from(text@, start as int, true, wanted(limit)).parts,
        told(r.fault) == items_from(text@, start as int, true, wanted(limit)).fault,
        r.fault is None ==> r.end == items_from(text@, start as int, true, wanted(limit)).end
            && r.end <= text@.len(),
        forall|k: int| 0 <= k < r.parts@.len() ==> #[trigger] r.parts@[k] <= text@.len(),
{
    let ghost whole = items_from(text@, start as int, true, wanted(limit));
    let mut parts: Vec<usize> = Vec::new();
    let mut i: usize = start;
    let mut first: bool = true;
    let mut more: Option<usize> = limit;
    assert(at_places(parts@) + whole.parts =~= whole.parts);
    loop
        invariant
            i <= text@.len(),
            whole.parts == at_places(parts@) + items_from(
                text@,
                i as int,
                first,
                wanted(more),
            ).parts,
            whole.fault == items_from(text@, i as int, first, wanted(more)).fault,
            whole.end == items_from(text@, i as int, first, wanted(more)).end,
            whole == items_from(text@, start as int, true, wanted(limit)),
            forall|k: int| 0 <= k < parts@.len() ==> #[trigger] parts@[k] <= text@.len(),
        decreases text@.len() - i,
    {
        let ghost before = at_places(parts@);
        assert(before + Seq::<int>::empty() =~= before);
        if let Some(0) = more {
            return match find_list_end(text, i) {
                Ok(end) => Found { parts, fault: None, end },
                Err(why) => Found { parts, fault: Some(why), end: 0 },
            };
        }
        let p: usize = match find_item(text, i, first) {
            Err(why) => {
                return Found { parts, fault: Some(why), end: 0 };
            },
            Ok(None) => {
                let end: usize = skip_blanks(text, i);
                assert(end < text.len());
                return Found { parts, fault: None, end: end + 1 };
            },
            Ok(Some(p)) => p,
        };
        parts.push(p);
        assert(at_places(parts@) =~= before.push(p as int));
        match read_skip(text, p) {
            Ok((_, m)) => {
                assert(p + m <= text.len());
                let ghost rest = items_from(text@, p + m, false, fewer(wanted(more)));
                assert(before + (seq![p as int] + rest.parts) =~= before.push(p as int)
                    + rest.parts);
                i = p + m;
                first = false;
                more =
                match more {
                    Some(n) => Some(n - 1),
                    None => None,
                };
            },
            Err(why) => {
                assert(before + (seq![p as int] + Seq::empty()) =~= before.push(p as int));
                return match check_skip(text, p) {
                    Some(why) => Found { parts, fault: Some(why), end: 0 },
                    None => Found { parts, fault: Some(why), end: 0 },
                };
            },
        }
    }
}

/// A type that is read from JSON.
pub trait Readable: Sized {
    /// What is wrong with the value at `i`, if anything.
    spec fn wrong(text: Seq<u8>, i: int) -> Option<Seq<char>>;

    /// This is what the value at `i` says. Of a value with something wrong,
    /// nothing is claimed.
    spec fn says(self, text: Seq<u8>, i: int) -> bool;

    /// Finds out what is wrong with the value at `i`.
    fn check(text: &[u8], i: usize) -> (r: Option<String>)
        requires
            i <= text@.len(),
        ensures
            told(r) == Self::wrong(text@, i as int),
    ;

    /// Reads the value at `i`.
    fn decode(text: &[u8], i: usize) -> (r: Self)
        requires
            i <= text@.len(),
        ensures
            r.says(text@, i as int),
    ;
}

impl Readable for String {
    open spec fn wrong(text: Seq<u8>, i: int) -> Option<Seq<char>> {
        string_wrong(text, i)
    }

    open spec fn says(self, text: Seq<u8>, i: int) -> bool {
        string_read(text.skip(i)) matches Ok((s, _)) ==> self@ == s
    }

    fn check(text: &[u8], i: usize) -> (r: Option<String>) {
        check_string(text, i)
    }

    fn decode(text: &[u8], i: usize) -> (r: String) {
        match read_string(text, i) {
            Ok((s, _)) => s,
            Err(_) => String::new(),
        }
    }
}

impl Readable for Reading {
    open spec fn wrong(text: Seq<u8>, i: int) -> Option<Seq<char>> {
        figure_wrong(text, i)
    }

    open spec fn says(self, text: Seq<u8>, i: int) -> bool {
        figure_read(text.skip(i)) matches Ok((bits, _)) ==> self == Reading::Number(bits)
    }

    fn check(text: &[u8], i: usize) -> (r: Option<String>) {
        check_figure(text, i)
    }

    fn decode(text: &[u8], i: usize) -> (r: Reading) {
        match read_figure(text, i) {
            Ok((bits, _)) => Reading::Number(bits),
            Err(_) => Reading::Number(0),
        }
    }
}

impl Readable for i64 {
    open spec fn wrong(text: Seq<u8>, i: int) -> Option<Seq<char>> {
        integer_wrong(text, i)
    }

    open spec fn says(self, text: Seq<u8>, i: int) -> bool {
        integer_read(text.skip(i)) matches Ok((n, _)) ==> self == n
    }

    fn check(text: &[u8], i: usize) -> (r: Option<String>) {
        check_integer(text, i)
    }

    fn decode(text: &[u8], i: usize) -> (r: i64) {
        match read_integer(text, i) {
            Ok((n, _)) => n,
            Err(_) => 0,
        }
    }
}

/// Where the brackets of a value first stand `limit` deep, if they ever do:
/// `depth` of them are open at `i`, and a string is, if `quoted`.
pub open spec fn deep_place(text: Seq<u8>, i: int, quoted: bool, depth: nat, limit: nat) -> Option<
    int,
>
    decreases left(text, i),
{
    if i < 0 || i >= text.len() {
        None
    } else if quoted {
        if text[i] == 0x5c {
            deep_place(text, i + 2, true, depth, limit)
        } else {
            deep_place(text, i + 1, text[i] != 0x22, depth, limit)
        }
    } else if text[i] == 0x5b || text[i] == 0x7b {
        if depth + 1 >= limit {
            Some(i)
        } else {
            deep_place(text, i + 1, false, depth + 1, limit)
        }
    } else if text[i] == 0x5d || text[i] == 0x7d {
        if depth <= 1 {
            None
        } else {
            deep_place(text, i + 1, false, (depth - 1) as nat, limit)
        }
    } else if depth == 0 {
        None
    } else {
        deep_place(text, i + 1, text[i] == 0x22, depth, limit)
    }
}

fn find_deep(text: &[u8], from: usize, limit: usize) -> (r: Option<usize>)
    requires
        from <= text@.len(),
    ensures
        at_place(r) == deep_place(text@, from as int, false, 0, limit as nat),
        r matches Some(p) ==> p < text@.len(),
{
    let mut i: usize = from;
    let mut quoted: bool = false;
    let mut depth: usize = 0;
    while i < text.len()
        invariant
            depth <= i,
            deep_place(text@, from as int, false, 0, limit as nat) == deep_place(
                text@,
                i as int,
                quoted,
                depth as nat,
                limit as nat,
            ),
        decreases left(text@, i as int),
    {
        let b: u8 = text[i];
        if quoted {
            if b == 0x5c {
                if text.len() - i < 2 {
                    assert(deep_place(text@, i + 2, true, depth as nat, limit as nat) is None);
                    return None;
                }
                i += 2;
            } else {
                quoted = b != 0x22;
                i += 1;
            }
        } else if b == 0x5b || b == 0x7b {
            if depth + 1 >= limit {
                return Some(i);
            }
            depth += 1;
            i += 1;
        } else if b == 0x5d || b == 0x7d {
            if depth <= 1 {
                return None;
            }
            depth -= 1;
            i += 1;
        } else if depth == 0 {
            return None;
        } else {
            quoted = b == 0x22;
            i += 1;
        }
    }
    None
}

/// The text up to `p`, with a number there.
pub open spec fn with_number(text: Seq<u8>, p: int) -> Seq<u8> {
    text.take(p).push(0x30u8)
}

/// Nothing but the end is missing from a text that stops behind `p`.
pub open spec fn only_stops(text: Seq<u8>, p: int, wrong: Option<Seq<char>>) -> bool {
    wrong == Some(told_at("EOF while parsing a list"@, text, p + 1)) || wrong == Some(
        told_at("EOF while parsing an object"@, text, p + 1),
    )
}

/// What is wrong with the value at `i` where brackets may not stand `limit`
/// deep.
pub open spec fn deep_wrong(text: Seq<u8>, i: int, limit: nat) -> Option<Seq<char>> {
    match deep_place(text, blanks_end(text, i), false, 0, limit) {
        Some(p) => {
            let cut = with_number(text, p);
            if only_stops(cut, p, value_wrong(cut, i)) {
                Some(told_behind("recursion limit exceeded"@, text, p))
            } else {
                value_wrong(cut, i)
            }
        },
        None => value_wrong(text, i),
    }
}

fn check_deep(text: &[u8], i: usize, limit: usize) -> (r: Option<String>)
    requires
        i <= text@.len(),
    ensures
        told(r) == deep_wrong(text@, i as int, limit as nat),
{
    let start: usize = skip_blanks(text, i);
    let p: usize = match find_deep(text, start, limit) {
        Some(p) => p,
        None => {
            return check_value(text, i);
        },
    };
    let mut cut: Vec<u8> = Vec::new();
    let mut k: usize = 0;
    while k < p
        invariant
            k <= p < text@.len(),
            cut@ == text@.take(k as int),
        decreases p - k,
    {
        cut.push(text[k]);
        assert(cut@ =~= text@.take(k + 1));
        k += 1;
    }
    cut.push(0x30);
    assert(cut@ =~= with_number(text@, p as int));
    proof {
        lemma_deep(text@, start as int, false, 0, limit as nat);
    }
    let wrong = check_value(cut.as_slice(), i);
    let list = tell_at("EOF while parsing a list", cut.as_slice(), p + 1);
    let object = tell_at("EOF while parsing an object", cut.as_slice(), p + 1);
    match wrong {
        Some(why) => if same(why.as_str(), list.as_str()) || same(why.as_str(), object.as_str()) {
            Some(tell_behind("recursion limit exceeded", text, p))
        } else {
            Some(why)
        },
        None => None,
    }
}

proof fn lemma_deep(text: Seq<u8>, i: int, quoted: bool, depth: nat, limit: nat)
    ensures
        deep_place(text, i, quoted, depth, limit) matches Some(p) ==> i <= p < text.len(),
    decreases left(text, i),
{
    if 0 <= i < text.len() {
        if quoted {
            if text[i] == 0x5c {
                lemma_deep(text, i + 2, true, depth, limit);
            } else {
                lemma_deep(text, i + 1, text[i] != 0x22, depth, limit);
            }
        } else if text[i] == 0x5b || text[i] == 0x7b {
            lemma_deep(text, i + 1, false, depth + 1, limit);
        } else if text[i] == 0x5d || text[i] == 0x7d {
            if depth > 1 {
                lemma_deep(text, i + 1, false, (depth - 1) as nat, limit);
            }
        } else {
            lemma_deep(text, i + 1, text[i] == 0x22, depth, limit);
        }
    }
}

/// A cell within other brackets, so that its own may not stand `LIMIT` deep.
#[derive(Debug)]
pub struct Inner<const LIMIT: usize> {
    pub cell: Cell,
}

impl<const LIMIT: usize> Readable for Inner<LIMIT> {
    open spec fn wrong(text: Seq<u8>, i: int) -> Option<Seq<char>> {
        deep_wrong(text, i, LIMIT as nat)
    }

    open spec fn says(self, text: Seq<u8>, i: int) -> bool {
        value_read(text.skip(i)) matches Ok((d, _)) ==> self.cell.holds(d)
    }

    fn check(text: &[u8], i: usize) -> (r: Option<String>) {
        check_deep(text, i, LIMIT)
    }

    fn decode(text: &[u8], i: usize) -> (r: Inner<LIMIT>) {
        match read_value(text, i) {
            Ok((value, _)) => Inner { cell: Cell::of(&value) },
            Err(_) => Inner { cell: Cell::Other },
        }
    }
}

/// The value at `i` begins with this byte.
pub open spec fn begins_at(text: Seq<u8>, i: int, b: u8) -> bool {
    let p = blanks_end(text, i);
    p < text.len() && text[p] == b
}

fn starts_at(text: &[u8], i: usize, b: u8) -> (r: bool)
    requires
        i <= text@.len(),
    ensures
        r == begins_at(text@, i as int, b),
{
    let p: usize = skip_blanks(text, i);
    p < text.len() && text[p] == b
}

/// Null, or a value.
impl<T: Readable> Readable for Option<T> {
    open spec fn wrong(text: Seq<u8>, i: int) -> Option<Seq<char>> {
        if begins_at(text, i, 0x6e) {
            null_wrong(text, i)
        } else {
            T::wrong(text, i)
        }
    }

    open spec fn says(self, text: Seq<u8>, i: int) -> bool {
        if begins_at(text, i, 0x6e) {
            self is None
        } else {
            self matches Some(x) && x.says(text, i)
        }
    }

    fn check(text: &[u8], i: usize) -> (r: Option<String>) {
        if starts_at(text, i, 0x6e) {
            check_null(text, i)
        } else {
            T::check(text, i)
        }
    }

    fn decode(text: &[u8], i: usize) -> (r: Option<T>) {
        if starts_at(text, i, 0x6e) {
            None
        } else {
            Some(T::decode(text, i))
        }
    }
}

/// The items of the array at `i`; none where there is no array.
pub open spec fn items_at(text: Seq<u8>, i: int) -> Scan<int> {
    items_from(text, blanks_end(text, i) + 1, true, None)
}

/// What is wrong with the items from the `k`th on, or behind them.
pub open spec fn items_wrong<T: Readable>(text: Seq<u8>, scan: Scan<int>, k: int) -> Option<
    Seq<char>,
>
    decreases scan.parts.len() - k,
{
    if k >= scan.parts.len() {
        scan.fault
    } else {
        match T::wrong(text, scan.parts[k]) {
            Some(why) => Some(why),
            None => items_wrong::<T>(text, scan, k + 1),
        }
    }
}

/// A list of values.
impl<T: Readable> Readable for Vec<T> {
    open spec fn wrong(text: Seq<u8>, i: int) -> Option<Seq<char>> {
        if begins_at(text, i, 0x5b) {
            items_wrong::<T>(text, items_at(text, i), 0)
        } else {
            list_fault(blanked(text, i))
        }
    }

    open spec fn says(self, text: Seq<u8>, i: int) -> bool {
        if begins_at(text, i, 0x5b) {
            let places = items_at(text, i).parts;
            self@.len() == places.len() && forall|k: int|
                0 <= k < places.len() ==> (#[trigger] self@[k]).says(text, places[k])
        } else {
            self@.len() == 0
        }
    }

    fn check(text: &[u8], i: usize) -> (r: Option<String>) {
        if !starts_at(text, i, 0x5b) {
            let whole = blank_out(text, i);
            assert(whole@.skip(0) =~= blanked(text@, i as int));
            return find_list_fault(whole.as_slice(), 0);
        }
        let p: usize = skip_blanks(text, i);
        assert(p < text.len());
        let found = scan_items(text, p + 1, None);
        let ghost scan = items_at(text@, i as int);
        let mut k: usize = 0;
        while k < found.parts.len()
            invariant
                k <= found.parts@.len(),
                begins_at(text@, i as int, 0x5b),
                scan == items_at(text@, i as int),
                at_places(found.parts@) == scan.parts,
                forall|k: int| 0 <= k < found.parts@.len() ==> #[trigger] found.parts@[k]
                    <= text@.len(),
                items_wrong::<T>(text@, scan, 0) == items_wrong::<T>(text@, scan, k as int),
            decreases found.parts@.len() - k,
        {
            assert(scan.parts[k as int] == found.parts@[k as int]);
            if let Some(why) = T::check(text, found.parts[k]) {
                return Some(why);
            }
            k += 1;
        }
        found.fault
    }

    fn decode(text: &[u8], i: usize) -> (r: Vec<T>) {
        let mut values: Vec<T> = Vec::new();
        if !starts_at(text, i, 0x5b) {
            return values;
        }
        let p: usize = skip_blanks(text, i);
        assert(p < text.len());
        let found = scan_items(text, p + 1, None);
        let ghost places = items_at(text@, i as int).parts;
        let mut k: usize = 0;
        while k < found.parts.len()
            invariant
                k <= found.parts@.len(),
                at_places(found.parts@) == places,
                forall|k: int| 0 <= k < found.parts@.len() ==> #[trigger] found.parts@[k]
                    <= text@.len(),
                values@.len() == k,
                forall|j: int| 0 <= j < k ==> (#[trigger] values@[j]).says(text@, places[j]),
            decreases found.parts@.len() - k,
        {
            assert(places[k as int] == found.parts@[k as int]);
            values.push(T::decode(text, found.parts[k]));
            k += 1;
        }
        values
    }
}

/// The members of an object under their names.
#[derive(Debug)]
pub struct Table<T> {
    pub entries: Vec<Entry<T>>,
}

/// The members of the object at `i`.
pub open spec fn members_at(text: Seq<u8>, i: int) -> Scan<Spot> {
    members_from(text, blanks_end(text, i) + 1, true)
}

/// What is wrong with the members from the `k`th on, or behind them.
pub open spec fn members_wrong<T: Readable>(text: Seq<u8>, scan: Scan<Spot>, k: int) -> Option<
    Seq<char>,
>
    decreases scan.parts.len() - k,
{
    if k >= scan.parts.len() {
        scan.fault
    } else {
        match scan.parts[k].from {
            Some(i) => match T::wrong(text, i) {
                Some(why) => Some(why),
                None => members_wrong::<T>(text, scan, k + 1),
            },
            None => members_wrong::<T>(text, scan, k + 1),
        }
    }
}

/// Where the value of the last of some members of that name stands.
pub open spec fn last_of(parts: Seq<Spot>, name: Seq<char>) -> Option<int>
    decreases parts.len(),
{
    if parts.len() == 0 {
        None
    } else if parts.last().name == name && parts.last().from is Some {
        parts.last().from
    } else {
        last_of(parts.drop_last(), name)
    }
}

/// Each name stands once among the entries, with what the last member of that
/// name says, and no name is left out.
pub open spec fn tabulates<T: Readable>(
    entries: Seq<Entry<T>>,
    text: Seq<u8>,
    parts: Seq<Spot>,
) -> bool {
    &&& forall|k: int|
        0 <= k < entries.len() ==> (last_of(parts, (#[trigger] entries[k]).name@) matches Some(i)
            && entries[k].value.says(text, i))
    &&& forall|name: Seq<char>| #[trigger]
        last_of(parts, name) is Some ==> exists|k: int|
            0 <= k < entries.len() && (#[trigger] entries[k]).name@ == name
    &&& forall|j: int, k: int|
        0 <= j < k < entries.len() ==> (#[trigger] entries[j]).name@ != (#[trigger] entries[k]).name@
}

/// The place of the entry of that name.
fn entry_of<T>(entries: &Vec<Entry<T>>, name: &str) -> (r: Option<usize>)
    ensures
        match r {
            Some(k) => k < entries@.len() && entries@[k as int].name@ == name@,
            None => forall|k: int|
                0 <= k < entries@.len() ==> (#[trigger] entries@[k]).name@ != name@,
        },
{
    let mut k: usize = 0;
    while k < entries.len()
        invariant
            k <= entries@.len(),
            forall|j: int| 0 <= j < k ==> (#[trigger] entries@[j]).name@ != name@,
        decreases entries@.len() - k,
    {
        if same(entries[k].name.as_str(), name) {
            return Some(k);
        }
        k += 1;
    }
    None
}

fn enter<T: Readable>(
    entries: &mut Vec<Entry<T>>,
    place: &Place,
    from: usize,
    text: &[u8],
    Ghost(parts): Ghost<Seq<Spot>>,
)
    requires
        tabulates(old(entries)@, text@, parts),
        place.from == Some(from),
        from <= text@.len(),
    ensures
        tabulates(final(entries)@, text@, parts.push(place.spot())),
{
    let value = T::decode(text, from);
    let ghost old_entries = entries@;
    let ghost spot = place.spot();
    let ghost now = parts.push(spot);
    assert(now.drop_last() =~= parts);
    assert forall|name: Seq<char>| #[trigger] last_of(now, name) == if name == spot.name {
        spot.from
    } else {
        last_of(parts, name)
    } by {}
    match entry_of(entries, place.name.as_str()) {
        Some(k) => {
            let entry = Entry { name: place.name.clone(), value };
            entries.set(k, entry);
            assert forall|j: int| 0 <= j < entries@.len() implies (last_of(
                now,
                (#[trigger] entries@[j]).name@,
            ) matches Some(i) && entries@[j].value.says(text@, i)) by {
                if j != k {
                    assert(entries@[j] == old_entries[j]);
                    assert(old_entries[j].name@ != old_entries[k as int].name@);
                }
            }
            assert forall|name: Seq<char>| #[trigger] last_of(now, name) is Some implies exists|
                j: int,
            |
                0 <= j < entries@.len() && (#[trigger] entries@[j]).name@ == name by {
                if name == spot.name {
                    assert(entries@[k as int].name@ == name);
                } else {
                    let j = choose|j: int|
                        0 <= j < old_entries.len() && (#[trigger] old_entries[j]).name@ == name;
                    assert(entries@[j].name@ == name);
                }
            }
            assert forall|i: int, j: int| 0 <= i < j < entries@.len() implies (
            #[trigger] entries@[i]).name@ != (#[trigger] entries@[j]).name@ by {
                assert(old_entries[i].name@ != old_entries[j].name@);
            }
        },
        None => {
            entries.push(Entry { name: place.name.clone(), value });
            assert forall|j: int| 0 <= j < entries@.len() implies (last_of(
                now,
                (#[trigger] entries@[j]).name@,
            ) matches Some(i) && entries@[j].value.says(text@, i)) by {
                if j < old_entries.len() {
                    assert(entries@[j] == old_entries[j]);
                }
            }
            assert forall|name: Seq<char>| #[trigger] last_of(now, name) is Some implies exists|
                j: int,
            |
                0 <= j < entries@.len() && (#[trigger] entries@[j]).name@ == name by {
                if name == spot.name {
                    assert(entries@[old_entries.len() as int].name@ == name);
                } else {
                    let j = choose|j: int|
                        0 <= j < old_entries.len() && (#[trigger] old_entries[j]).name@ == name;
                    assert(entries@[j].name@ == name);
                }
            }
            assert forall|i: int, j: int| 0 <= i < j < entries@.len() implies (
            #[trigger] entries@[i]).name@ != (#[trigger] entries@[j]).name@ by {
                assert(entries@[i] == old_entries[i]);
                if j < old_entries.len() {
                    assert(entries@[j] == old_entries[j]);
                }
            }
        },
    }
}

impl<T: Readable> Readable for Table<T> {
    open spec fn wrong(text: Seq<u8>, i: int) -> Option<Seq<char>> {
        if begins_at(text, i, 0x7b) {
            members_wrong::<T>(text, members_at(text, i), 0)
        } else {
            map_fault(blanked(text, i))
        }
    }

    open spec fn says(self, text: Seq<u8>, i: int) -> bool {
        if begins_at(text, i, 0x7b) {
            tabulates(self.entries@, text, members_at(text, i).parts)
        } else {
            self.entries@.len() == 0
        }
    }

    fn check(text: &[u8], i: usize) -> (r: Option<String>) {
        if !starts_at(text, i, 0x7b) {
            let whole = blank_out(text, i);
            assert(whole@.skip(0) =~= blanked(text@, i as int));
            return find_map_fault(whole.as_slice(), 0);
        }
        let p: usize = skip_blanks(text, i);
        assert(p < text.len());
        let found = scan_members(text, p + 1);
        let ghost scan = members_at(text@, i as int);
        let mut k: usize = 0;
        while k < found.parts.len()
            invariant
                k <= found.parts@.len(),
                begins_at(text@, i as int, 0x7b),
                scan == members_at(text@, i as int),
                spots(found.parts@) == scan.parts,
                forall|k: int|
                    0 <= k < found.parts@.len() ==> (#[trigger] found.parts@[k]).behind
                        <= text@.len() && (found.parts@[k].from matches Some(f) ==> f
                        <= text@.len()),
                members_wrong::<T>(text@, scan, 0) == members_wrong::<T>(text@, scan, k as int),
            decreases found.parts@.len() - k,
        {
            assert(scan.parts[k as int] == found.parts@[k as int].spot());
            if let Some(from) = found.parts[k].from {
                if let Some(why) = T::check(text, from) {
                    return Some(why);
                }
            }
            k += 1;
        }
        found.fault
    }

    fn decode(text: &[u8], i: usize) -> (r: Table<T>) {
        let mut entries: Vec<Entry<T>> = Vec::new();
        if !starts_at(text, i, 0x7b) {
            return Table { entries };
        }
        let p: usize = skip_blanks(text, i);
        assert(p < text.len());
        let found = scan_members(text, p + 1);
        let ghost parts = members_at(text@, i as int).parts;
        let mut k: usize = 0;
        while k < found.parts.len()
            invariant
                k <= found.parts@.len(),
                spots(found.parts@) == parts,
                forall|k: int|
                    0 <= k < found.parts@.len() ==> (#[trigger] found.parts@[k]).behind
                        <= text@.len() && (found.parts@[k].from matches Some(f) ==> f
                        <= text@.len()),
                tabulates(entries@, text@, parts.take(k as int)),
            decreases found.parts@.len() - k,
        {
            let ghost spot = parts[k as int];
            assert(spot == found.parts@[k as int].spot());
            assert(parts.take(k + 1) =~= parts.take(k as int).push(spot));
            match found.parts[k].from {
                Some(from) => {
                    enter(&mut entries, &found.parts[k], from, text, Ghost(parts.take(k as int)));
                },
                None => {
                    assert(parts.take(k + 1).drop_last() =~= parts.take(k as int));
                    assert forall|name: Seq<char>| #[trigger]
                        last_of(parts.take(k + 1), name) == last_of(
                            parts.take(k as int),
                            name,
                        ) by {}
                },
            }
            k += 1;
        }
        assert(parts.take(k as int) =~= parts);
        Table { entries }
    }
}

/// A type that is read from JSON field by field.
pub trait Record: Sized {
    /// What is expected, in words.
    spec fn title() -> Seq<char>;

    /// The names of the fields, in order.
    spec fn names() -> Seq<Seq<char>>;

    /// An object must have the field.
    spec fn needs(k: int) -> bool;

    /// How many fields an array must have.
    spec fn least() -> nat;

    /// What is wrong with the value of a field, if anything.
    spec fn part_wrong(k: int, text: Seq<u8>, i: int) -> Option<Seq<char>>;

    /// The record is what the fields at these places say.
    spec fn tells(self, text: Seq<u8>, places: Seq<Option<int>>) -> bool;

    /// What is expected, the names of the fields, and how many an array must
    /// have.
    fn form() -> (r: (&'static str, Vec<&'static str>, usize))
        ensures
            r.0@ == Self::title(),
            words(r.1@) == Self::names(),
            r.2 == Self::least(),
    ;

    /// Whether an object must have the field.
    fn is_needed(k: usize) -> (r: bool)
        ensures
            r == Self::needs(k as int),
    ;

    /// Finds out what is wrong with the value of a field.
    fn check_part(k: usize, text: &[u8], i: usize) -> (r: Option<String>)
        requires
            k < Self::names().len(),
            i <= text@.len(),
        ensures
            told(r) == Self::part_wrong(k as int, text@, i as int),
    ;

    /// Reads the fields at these places.
    fn build(text: &[u8], places: &Vec<Option<usize>>) -> (r: Self)
        requires
            places@.len() == Self::names().len(),
            within(places@, text@.len()),
        ensures
            r.tells(text@, numbered(places@)),
    ;
}

/// The contents of some words.
pub open spec fn words(list: Seq<&'static str>) -> Seq<Seq<char>> {
    list.map_values(|w: &'static str| w@)
}

/// Every place lies within a text of that length.
pub open spec fn within(places: Seq<Option<usize>>, len: nat) -> bool {
    forall|k: int| 0 <= k < places.len() ==> (#[trigger] places[k] matches Some(i) ==> i <= len)
}

/// Places as numbers.
pub open spec fn numbered(places: Seq<Option<usize>>) -> Seq<Option<int>> {
    places.map_values(|p: Option<usize>| at_place(p))
}

/// No field is anywhere.
pub open spec fn nowhere(n: nat) -> Seq<Option<int>> {
    Seq::new(n, |k: int| None)
}

/// The first word of a list that is `name`.
pub open spec fn index_of(names: Seq<Seq<char>>, name: Seq<char>) -> Option<int>
    decreases names.len(),
{
    if names.len() == 0 {
        None
    } else {
        match index_of(names.drop_last(), name) {
            Some(k) => Some(k),
            None => if names.last() == name {
                Some(names.len() - 1)
            } else {
                None
            },
        }
    }
}

proof fn lemma_index(names: Seq<Seq<char>>, name: Seq<char>, n: int)
    requires
        0 <= n <= names.len(),
    ensures
        index_of(names.take(n), name) matches Some(k) ==> 0 <= k < n && names[k] == name
            && index_of(names, name) == Some(k),
    decreases names.len() - n, n,
{
    lemma_index_within(names.take(n), name);
    if n < names.len() {
        assert(names.take(n + 1).drop_last() =~= names.take(n));
        lemma_index(names, name, n + 1);
    } else {
        assert(names.take(n) =~= names);
    }
}

proof fn lemma_index_within(names: Seq<Seq<char>>, name: Seq<char>)
    ensures
        index_of(names, name) matches Some(k) ==> 0 <= k < names.len() && names[k] == name,
    decreases names.len(),
{
    if names.len() > 0 {
        lemma_index_within(names.drop_last(), name);
    }
}

fn find_index(names: &Vec<&'static str>, name: &str) -> (r: Option<usize>)
    ensures
        at_place(r) == index_of(words(names@), name@),
        r matches Some(k) ==> k < names@.len(),
{
    let ghost all = words(names@);
    let mut k: usize = 0;
    while k < names.len()
        invariant
            k <= names@.len(),
            all == words(names@),
            index_of(all.take(k as int), name@) is None,
        decreases names@.len() - k,
    {
        assert(all.take(k + 1).drop_last() =~= all.take(k as int));
        if same(names[k], name) {
            proof {
                lemma_index(all, name@, k + 1);
            }
            return Some(k);
        }
        k += 1;
    }
    assert(all.take(k as int) =~= all);
    None
}

/// The first needed field that is nowhere, from the `k`th on.
pub open spec fn lacking<T: Record>(places: Seq<Option<int>>, k: int) -> Option<int>
    decreases places.len() - k,
{
    if k >= places.len() {
        None
    } else if T::needs(k) && places[k] is None {
        Some(k)
    } else {
        lacking::<T>(places, k + 1)
    }
}

/// A field's name in words.
pub open spec fn about_field(what: Seq<char>, name: Seq<char>) -> Seq<char> {
    what + " field `"@ + name + "`"@
}

/// A field's name in words.
pub fn about(what: &str, name: &str) -> (r: String)
    ensures
        r@ == about_field(what@, name@),
{
    let mut r = what.to_owned();
    r.append(" field `");
    r.append(name);
    r.append("`");
    assert(r@ =~= about_field(what@, name@));
    r
}

/// Where the fields of a record stand, given where those of the members before
/// the `k`th do; or the first thing that is wrong.
pub open spec fn walk<T: Record>(
    text: Seq<u8>,
    scan: Scan<Spot>,
    k: int,
    places: Seq<Option<int>>,
) -> Result<Seq<Option<int>>, Seq<char>>
    decreases scan.parts.len() - k,
{
    if k >= scan.parts.len() {
        match (scan.fault, lacking::<T>(places, 0)) {
            (Some(why), _) => Err(why),
            (None, Some(j)) => Err(
                told_at(about_field("missing"@, T::names()[j]), text, scan.end),
            ),
            (None, None) => Ok(places),
        }
    } else {
        let spot = scan.parts[k];
        match (index_of(T::names(), spot.name), spot.from) {
            (Some(j), _) if places[j] is Some => Err(
                told_at(
                    about_field("duplicate"@, T::names()[j]),
                    text,
                    blanks_end(text, spot.behind),
                ),
            ),
            (Some(j), Some(i)) => match T::part_wrong(j, text, i) {
                Some(why) => Err(why),
                None => walk::<T>(text, scan, k + 1, places.update(j, Some(i))),
            },
            _ => walk::<T>(text, scan, k + 1, places),
        }
    }
}

/// How many fields there are in an array that has too few.
pub open spec fn too_short(n: nat, title: Seq<char>, fields: nat) -> Seq<char> {
    "invalid length "@ + decimal(n) + ", expected "@ + title + " with "@ + decimal(fields) + (
    if fields == 1 {
        " element"@
    } else {
        " elements"@
    })
}

/// How many fields there are in an array that has too few.
pub fn tell_too_short(n: usize, title: &str, fields: usize) -> (r: String)
    ensures
        r@ == too_short(n as nat, title@, fields as nat),
{
    let mut r = "invalid length ".to_owned();
    r.append(decimal_of(n as u64).as_str());
    r.append(", expected ");
    r.append(title);
    r.append(" with ");
    r.append(decimal_of(fields as u64).as_str());
    if fields == 1 {
        r.append(" element");
    } else {
        r.append(" elements");
    }
    assert(r@ =~= too_short(n as nat, title@, fields as nat));
    r
}

/// Where the fields of a record stand that is an array.
pub open spec fn walk_items<T: Record>(text: Seq<u8>, scan: Scan<int>, k: int) -> Result<
    Seq<Option<int>>,
    Seq<char>,
>
    decreases scan.parts.len() - k,
{
    let n = T::names().len();
    if k < scan.parts.len() {
        match T::part_wrong(k, text, scan.parts[k]) {
            Some(why) => Err(why),
            None => walk_items::<T>(text, scan, k + 1),
        }
    } else if scan.fault is Some {
        Err(scan.fault->0)
    } else if scan.parts.len() < T::least() {
        Err(told_at(too_short(scan.parts.len(), T::title(), n), text, scan.end))
    } else {
        Ok(
            Seq::new(
                n,
                |j: int|
                    if j < scan.parts.len() {
                        Some(scan.parts[j])
                    } else {
                        None
                    },
            ),
        )
    }
}

/// Where the fields of the record at `i` stand, or the first thing that is
/// wrong.
pub open spec fn fields_at<T: Record>(text: Seq<u8>, i: int) -> Result<
    Seq<Option<int>>,
    Seq<char>,
> {
    let p = blanks_end(text, i);
    let n = T::names().len();
    if begins_at(text, i, 0x7b) {
        walk::<T>(text, members_from(text, p + 1, true), 0, nowhere(n))
    } else if begins_at(text, i, 0x5b) {
        walk_items::<T>(text, items_from(text, p + 1, true, Some(n)), 0)
    } else {
        match map_fault(blanked(text, i)) {
            Some(why) => Err(replaced(why, "a map"@, T::title())),
            None => Err("expected "@ + T::title()),
        }
    }
}

/// What was found of a record's fields.
spec fn finds(
    r: Result<Vec<Option<usize>>, String>,
    fields: Result<Seq<Option<int>>, Seq<char>>,
    n: nat,
    len: nat,
) -> bool {
    match r {
        Ok(places) => places@.len() == n && within(places@, len) && fields == Ok::<
            Seq<Option<int>>,
            Seq<char>,
        >(numbered(places@)),
        Err(why) => fields == Err::<Seq<Option<int>>, Seq<char>>(why@),
    }
}

fn find_lacking<T: Record>(places: &Vec<Option<usize>>) -> (r: Option<usize>)
    ensures
        at_place(r) == lacking::<T>(numbered(places@), 0),
        r matches Some(k) ==> k < places@.len(),
{
    let mut k: usize = 0;
    while k < places.len()
        invariant
            k <= places@.len(),
            lacking::<T>(numbered(places@), 0) == lacking::<T>(numbered(places@), k as int),
        decreases places@.len() - k,
    {
        assert(numbered(places@)[k as int] == at_place(places@[k as int]));
        if T::is_needed(k) && places[k].is_none() {
            return Some(k);
        }
        k += 1;
    }
    None
}

fn walk_members<T: Record>(text: &[u8], found: Found<Place>, Ghost(scan): Ghost<Scan<Spot>>) -> (r:
    Result<Vec<Option<usize>>, String>)
    requires
        spots(found.parts@) == scan.parts,
        told(found.fault) == scan.fault,
        found.fault is None ==> found.end == scan.end && found.end <= text@.len(),
        forall|k: int|
            0 <= k < found.parts@.len() ==> (#[trigger] found.parts@[k]).behind <= text@.len() && (
            found.parts@[k].from matches Some(f) ==> f <= text@.len()),
    ensures
        finds(
            r,
            walk::<T>(text@, scan, 0, nowhere(T::names().len())),
            T::names().len(),
            text@.len(),
        ),
{
    let (_, names, _) = T::form();
    let ghost whole = walk::<T>(text@, scan, 0, nowhere(T::names().len()));
    let mut places: Vec<Option<usize>> = Vec::new();
    while places.len() < names.len()
        invariant
            places@.len() <= names@.len(),
            forall|k: int| 0 <= k < places@.len() ==> #[trigger] places@[k] is None,
        decreases names@.len() - places@.len(),
    {
        places.push(None);
    }
    assert(words(names@).len() == names@.len());
    assert(numbered(places@) =~= nowhere(T::names().len()));
    let mut k: usize = 0;
    while k < found.parts.len()
        invariant
            k <= found.parts@.len(),
            words(names@) == T::names(),
            names@.len() == T::names().len(),
            places@.len() == T::names().len(),
            within(places@, text@.len()),
            spots(found.parts@) == scan.parts,
            forall|k: int|
                0 <= k < found.parts@.len() ==> (#[trigger] found.parts@[k]).behind <= text@.len()
                    && (found.parts@[k].from matches Some(f) ==> f <= text@.len()),
            whole == walk::<T>(text@, scan, 0, nowhere(T::names().len())),
            whole == walk::<T>(text@, scan, k as int, numbered(places@)),
        decreases found.parts@.len() - k,
    {
        let ghost spot = scan.parts[k as int];
        assert(spot == found.parts@[k as int].spot());
        if let Some(j) = find_index(&names, found.parts[k].name.as_str()) {
            assert(numbered(places@)[j as int] == at_place(places@[j as int]));
            assert(words(names@)[j as int] == names@[j as int]@);
            if places[j].is_some() {
                let at: usize = skip_blanks(text, found.parts[k].behind);
                let what = about("duplicate", names[j]);
                return Err(tell_at(what.as_str(), text, at));
            }
            if let Some(from) = found.parts[k].from {
                if let Some(why) = T::check_part(j, text, from) {
                    return Err(why);
                }
                let ghost before = places@;
                places.set(j, Some(from));
                assert(numbered(places@) =~= numbered(before).update(j as int, Some(from as int)));
            }
        }
        k += 1;
    }
    if let Some(why) = found.fault {
        return Err(why);
    }
    if let Some(j) = find_lacking::<T>(&places) {
        assert(words(names@)[j as int] == names@[j as int]@);
        let what = about("missing", names[j]);
        return Err(tell_at(what.as_str(), text, found.end));
    }
    Ok(places)
}

fn walk_list<T: Record>(text: &[u8], found: Found<usize>, Ghost(scan): Ghost<Scan<int>>) -> (r:
    Result<Vec<Option<usize>>, String>)
    requires
        at_places(found.parts@) == scan.parts,
        told(found.fault) == scan.fault,
        found.fault is None ==> found.end == scan.end && found.end <= text@.len(),
        forall|k: int| 0 <= k < found.parts@.len() ==> #[trigger] found.parts@[k] <= text@.len(),
        found.parts@.len() <= T::names().len(),
    ensures
        finds(r, walk_items::<T>(text@, scan, 0), T::names().len(), text@.len()),
{
    let (title, names, least) = T::form();
    assert(words(names@).len() == names@.len());
    let ghost whole = walk_items::<T>(text@, scan, 0);
    let mut k: usize = 0;
    while k < found.parts.len()
        invariant
            k <= found.parts@.len(),
            found.parts@.len() <= T::names().len(),
            at_places(found.parts@) == scan.parts,
            forall|k: int| 0 <= k < found.parts@.len() ==> #[trigger] found.parts@[k]
                <= text@.len(),
            whole == walk_items::<T>(text@, scan, 0),
            whole == walk_items::<T>(text@, scan, k as int),
        decreases found.parts@.len() - k,
    {
        assert(scan.parts[k as int] == found.parts@[k as int]);
        if let Some(why) = T::check_part(k, text, found.parts[k]) {
            return Err(why);
        }
        k += 1;
    }
    if let Some(why) = found.fault {
        return Err(why);
    }
    if found.parts.len() < least {
        let what = tell_too_short(found.parts.len(), title, names.len());
        return Err(tell_at(what.as_str(), text, found.end));
    }
    let mut places: Vec<Option<usize>> = Vec::new();
    while places.len() < names.len()
        invariant
            places@.len() <= names@.len(),
            forall|k: int| 0 <= k < found.parts@.len() ==> #[trigger] found.parts@[k]
                <= text@.len(),
            forall|k: int|
                0 <= k < places@.len() ==> #[trigger] places@[k] == if k < found.parts@.len() {
                    Some(found.parts@[k])
                } else {
                    None
                },
        decreases names@.len() - places@.len(),
    {
        let j: usize = places.len();
        if j < found.parts.len() {
            places.push(Some(found.parts[j]));
        } else {
            places.push(None);
        }
    }
    assert forall|k: int| 0 <= k < places@.len() implies (#[trigger] places@[k] matches Some(i)
        ==> i <= text@.len()) by {
        if k < found.parts@.len() {
            assert(places@[k] == Some(found.parts@[k]));
        }
    }
    assert(numbered(places@) =~= Seq::new(
        T::names().len(),
        |j: int|
            if j < scan.parts.len() {
                Some(scan.parts[j])
            } else {
                None
            },
    ));
    Ok(places)
}

/// No more items are found than are wanted.
proof fn lemma_limit(text: Seq<u8>, i: int, first: bool, limit: nat)
    ensures
        items_from(text, i, first, Some(limit)).parts.len() <= limit,
    decreases left(text, i),
{
    if limit > 0 {
        if let Ok(Some(p)) = next_item(text, i, first) {
            if let Ok((_, m)) = skip_read(text.skip(p)) {
                if m > 0 {
                    lemma_blanks(text, i);
                    lemma_blanks(text, blanks_end(text, i) + 1);
                    lemma_limit(text, p + m, false, (limit - 1) as nat);
                }
            }
        }
    }
}

fn find_fields<T: Record>(text: &[u8], i: usize) -> (r: Result<Vec<Option<usize>>, String>)
    requires
        i <= text@.len(),
    ensures
        finds(r, fields_at::<T>(text@, i as int), T::names().len(), text@.len()),
{
    let (title, names, _) = T::form();
    assert(words(names@).len() == names@.len());
    let p: usize = skip_blanks(text, i);
    if starts_at(text, i, 0x7b) {
        assert(p < text.len());
        let found = scan_members(text, p + 1);
        return walk_members::<T>(text, found, Ghost(members_from(text@, p + 1, true)));
    }
    if starts_at(text, i, 0x5b) {
        assert(p < text.len());
        let found = scan_items(text, p + 1, Some(names.len()));
        let ghost scan = items_from(text@, p + 1, true, Some(names@.len()));
        proof {
            lemma_limit(text@, p + 1, true, names@.len());
            assert(found.parts@.len() == scan.parts.len());
        }
        return walk_list::<T>(text, found, Ghost(scan));
    }
    let whole = blank_out(text, i);
    assert(whole@.skip(0) =~= blanked(text@, i as int));
    match find_map_fault(whole.as_slice(), 0) {
        Some(why) => Err(replace(why.as_str(), "a map", title)),
        None => {
            let mut why = "expected ".to_owned();
            why.append(title);
            Err(why)
        },
    }
}

/// Where the fields of the record at `i` stand; nowhere if something is wrong.
pub open spec fn places_at<T: Record>(text: Seq<u8>, i: int) -> Seq<Option<int>> {
    match fields_at::<T>(text, i) {
        Ok(places) => places,
        Err(_) => nowhere(T::names().len()),
    }
}

impl<T: Record> Readable for T {
    open spec fn wrong(text: Seq<u8>, i: int) -> Option<Seq<char>> {
        match fields_at::<T>(text, i) {
            Ok(_) => None,
            Err(why) => Some(why),
        }
    }

    open spec fn says(self, text: Seq<u8>, i: int) -> bool {
        self.tells(text, places_at::<T>(text, i))
    }

    fn check(text: &[u8], i: usize) -> (r: Option<String>) {
        match find_fields::<T>(text, i) {
            Ok(_) => None,
            Err(why) => Some(why),
        }
    }

    fn decode(text: &[u8], i: usize) -> (r: T) {
        match find_fields::<T>(text, i) {
            Ok(places) => T::build(text, &places),
            Err(_) => {
                let (_, names, _) = T::form();
                assert(words(names@).len() == names@.len());
                let mut places: Vec<Option<usize>> = Vec::new();
                while places.len() < names.len()
                    invariant
                        places@.len() <= names@.len(),
                        forall|k: int| 0 <= k < places@.len() ==> #[trigger] places@[k] is None,
                    decreases names@.len() - places@.len(),
                {
                    places.push(None);
                }
                assert(numbered(places@) =~= nowhere(T::names().len()));
                T::build(text, &places)
            },
        }
    }
}

/// What is wrong with a whole text that is to be one value.
pub open spec fn text_wrong<T: Readable>(text: Seq<u8>) -> Option<Seq<char>> {
    match (T::wrong(text, 0), skip_read(text)) {
        (Some(why), _) => Some(why),
        (None, Err(why)) => Some(why),
        (None, Ok((_, n))) => if blanks_end(text, n as int) < text.len() {
            Some(told_behind("trailing characters"@, text, blanks_end(text, n as int)))
        } else {
            None
        },
    }
}

/// Reads a whole text as one value, or tells what is wrong with it.
pub fn read_all<T: Readable>(text: &[u8]) -> (r: Result<T, String>)
    ensures
        match r {
            Ok(x) => text_wrong::<T>(text@) is None && x.says(text@, 0),
            Err(why) => text_wrong::<T>(text@) == Some(why@),
        },
{
    assert(text@.skip(0) =~= text@);
    if let Some(why) = T::check(text, 0) {
        return Err(why);
    }
    match read_skip(text, 0) {
        Err(why) => Err(why),
        Ok((_, n)) => {
            let p: usize = skip_blanks(text, n);
            if p < text.len() {
                Err(tell_behind("trailing characters", text, p))
            } else {
                Ok(T::decode(text, 0))
            }
        },
    }
}

/// An optional field of a record, which may be null or nowhere.
pub open spec fn option_says<T: Readable>(x: Option<T>, text: Seq<u8>, place: Option<int>) -> bool {
    match place {
        Some(i) => x.says(text, i),
        None => x is None,
    }
}

/// Reads an optional field of a record.
pub fn option<T: Readable>(text: &[u8], place: Option<usize>) -> (r: Option<T>)
    requires
        place matches Some(i) ==> i <= text@.len(),
    ensures
        option_says(r, text@, at_place(place)),
{
    match place {
        Some(i) => Option::<T>::decode(text, i),
        None => None,
    }
}

/// A field of a record that must be there.
pub open spec fn needed_says<T: Readable>(x: T, text: Seq<u8>, place: Option<int>) -> bool {
    place matches Some(i) ==> x.says(text, i)
}

/// Reads a field of a record that must be there.
pub fn needed<T: Readable>(text: &[u8], place: Option<usize>) -> (r: T)
    requires
        place matches Some(i) ==> i <= text@.len(),
    ensures
        needed_says(r, text@, at_place(place)),
{
    match place {
        Some(i) => T::decode(text, i),
        None => T::decode(text, text.len()),
    }
}

/// Entries as a table.
pub open spec fn as_table<T>(entries: Option<Vec<Entry<T>>>) -> Option<Table<T>> {
    match entries {
        Some(entries) => Some(Table { entries }),
        None => None,
    }
}

/// The entries of a table.
pub fn as_entries<T>(table: Option<Table<T>>) -> (r: Option<Vec<Entry<T>>>)
    ensures
        as_table(r) == table,
{
    match table {
        Some(table) => Some(table.entries),
        None => None,
    }
}

} // verus!
