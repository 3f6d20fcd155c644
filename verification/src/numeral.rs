//! Which texts spell a number.

use vstd::prelude::*;

use crate::text::{chars_of, lower, same, to_lower};

verus! {

/// A decimal digit.
pub open spec fn is_digit(c: char) -> bool {
    '0' <= c <= '9'
}

/// Decimal digits throughout.
pub open spec fn all_digits(s: Seq<char>) -> bool {
    forall|i: int| 0 <= i < s.len() ==> is_digit(#[trigger] s[i])
}

/// Where `c` first stands in `s`, or the length of `s` where it does not.
pub open spec fn place_of(s: Seq<char>, c: char) -> nat
    decreases s.len(),
{
    if s.len() == 0 || s[0] == c {
        0
    } else {
        1 + place_of(s.drop_first(), c)
    }
}

/// `s` without a leading sign.
pub open spec fn unsigned(s: Seq<char>) -> Seq<char> {
    if s.len() > 0 && (s[0] == '+' || s[0] == '-') {
        s.drop_first()
    } else {
        s
    }
}

/// Digits, with a point before, between or behind them.
pub open spec fn is_mantissa(s: Seq<char>) -> bool {
    let point = place_of(s, '.') as int;
    if point < s.len() {
        s.len() > 1 && all_digits(s.take(point)) && all_digits(s.skip(point + 1))
    } else {
        s.len() > 0 && all_digits(s)
    }
}

/// Digits, with or without a sign.
pub open spec fn is_exponent(s: Seq<char>) -> bool {
    unsigned(s).len() > 0 && all_digits(unsigned(s))
}

/// The text spells a number, by the grammar that the standard library gives
/// for floats: a sign if wanted, then `inf`, `infinity`, `nan` or digits with a
/// point and an exponent if wanted, in upper or lower case.
pub open spec fn is_numeral(s: Seq<char>) -> bool {
    let t = unsigned(lower(s));
    let e = place_of(t, 'e') as int;
    ||| t == "inf"@
    ||| t == "infinity"@
    ||| t == "nan"@
    ||| is_mantissa(t.take(e)) && (e < t.len() ==> is_exponent(t.skip(e + 1)))
}

/// What stands at the first place, with nothing of the kind ahead of it.
pub proof fn lemma_place(s: Seq<char>, c: char, n: int)
    requires
        0 <= n <= s.len(),
        forall|i: int| 0 <= i < n ==> #[trigger] s[i] != c,
        n < s.len() ==> s[n] == c,
    ensures
        place_of(s, c) == n,
    decreases s.len(),
{
    if n > 0 {
        assert(s[0] != c);
        let rest = s.drop_first();
        assert forall|i: int| 0 <= i < n - 1 implies #[trigger] rest[i] != c by {
            assert(s[i + 1] != c);
        }
        lemma_place(rest, c, n - 1);
    }
}

/// Where `c` first stands in `v` from `from` up to `to`.
fn find(v: &Vec<char>, from: usize, to: usize, c: char) -> (r: usize)
    requires
        from <= to <= v@.len(),
    ensures
        from <= r <= to,
        r - from == place_of(v@.subrange(from as int, to as int), c),
{
    let ghost part = v@.subrange(from as int, to as int);
    let mut i: usize = from;
    while i < to && v[i] != c
        invariant
            from <= i <= to <= v@.len(),
            part == v@.subrange(from as int, to as int),
            forall|k: int| 0 <= k < i - from ==> #[trigger] part[k] != c,
        ensures
            from <= i <= to,
            part == v@.subrange(from as int, to as int),
            forall|k: int| 0 <= k < i - from ==> #[trigger] part[k] != c,
            i < to ==> part[i - from] == c,
        decreases to - i,
    {
        i += 1;
    }
    proof {
        lemma_place(part, c, i - from);
    }
    i
}

/// Whether `v` holds digits only from `from` up to `to`.
pub(crate) fn digits(v: &Vec<char>, from: usize, to: usize) -> (r: bool)
    requires
        from <= to <= v@.len(),
    ensures
        r == all_digits(v@.subrange(from as int, to as int)),
{
    let ghost part = v@.subrange(from as int, to as int);
    let mut i: usize = from;
    while i < to
        invariant
            from <= i <= to <= v@.len(),
            part == v@.subrange(from as int, to as int),
            forall|k: int| 0 <= k < i - from ==> is_digit(#[trigger] part[k]),
        decreases to - i,
    {
        let c = v[i];
        if !('0' <= c && c <= '9') {
            assert(!is_digit(part[i - from]));
            return false;
        }
        i += 1;
    }
    true
}

fn mantissa(v: &Vec<char>, from: usize, to: usize) -> (r: bool)
    requires
        from <= to <= v@.len(),
    ensures
        r == is_mantissa(v@.subrange(from as int, to as int)),
{
    let ghost part = v@.subrange(from as int, to as int);
    let point: usize = find(v, from, to, '.');
    if point < to {
        assert(part.take(point - from) == v@.subrange(from as int, point as int));
        assert(part.skip(point - from + 1) == v@.subrange(point + 1, to as int));
        to - from > 1 && digits(v, from, point) && digits(v, point + 1, to)
    } else {
        to > from && digits(v, from, to)
    }
}

fn exponent(v: &Vec<char>, from: usize) -> (r: bool)
    requires
        from <= v@.len(),
    ensures
        r == is_exponent(v@.skip(from as int)),
{
    let ghost part = v@.skip(from as int);
    let mut at: usize = from;
    if from < v.len() && (v[from] == '+' || v[from] == '-') {
        assert(part.drop_first() == v@.subrange(from + 1, v@.len() as int));
        at = from + 1;
    } else {
        assert(part == v@.subrange(from as int, v@.len() as int));
    }
    v.len() > at && digits(v, at, v.len())
}

/// Whether the text spells a number.
pub fn spells_number(s: &str) -> (r: bool)
    ensures
        r == is_numeral(s@),
{
    let folded = to_lower(s);
    let mut v = chars_of(folded.as_str());
    if v.len() > 0 && (v[0] == '+' || v[0] == '-') {
        v = v.split_off(1);
        assert(v@ == lower(s@).drop_first());
    }
    let ghost t = unsigned(lower(s@));
    assert(v@ == t);
    let word = crate::text::text_of(&v);
    if same(word.as_str(), "inf") || same(word.as_str(), "infinity") || same(
        word.as_str(),
        "nan",
    ) {
        return true;
    }
    let n: usize = v.len();
    assert(t.subrange(0, n as int) == t);
    let e: usize = find(&v, 0, n, 'e');
    assert(t.take(e as int) == t.subrange(0, e as int));
    mantissa(&v, 0, e) && (e >= n || exponent(&v, e + 1))
}

} // verus!
