//! What trimming, folding, joining and cutting leave of a text.

use vstd::prelude::*;

use crate::numeral::{all_digits, is_digit, is_numeral, place_of, unsigned};
use crate::source::{agent_text, beginning, unless_blank};
use crate::text::{joined, lower, strip_end, trim, trim_end, trim_start, upper, white_space};

verus! {

/// `t` is what stands in `s` from `i` to `j`, and all around it is white space.
pub open spec fn stripped_of_white(s: Seq<char>, t: Seq<char>, i: int, j: int) -> bool {
    &&& 0 <= i <= j <= s.len()
    &&& t == s.subrange(i, j)
    &&& forall|k: int| 0 <= k < i ==> white_space(#[trigger] s[k])
    &&& forall|k: int| j <= k < s.len() ==> white_space(#[trigger] s[k])
}

proof fn lemma_trim_start(s: Seq<char>) -> (i: int)
    ensures
        0 <= i <= s.len(),
        trim_start(s) == s.skip(i),
        forall|k: int| 0 <= k < i ==> white_space(#[trigger] s[k]),
        i < s.len() ==> !white_space(s[i]),
    decreases s.len(),
{
    if s.len() > 0 && white_space(s[0]) {
        let rest = s.drop_first();
        let i = lemma_trim_start(rest);
        assert(s.skip(i + 1) =~= rest.skip(i));
        assert forall|k: int| 0 <= k < i + 1 implies white_space(#[trigger] s[k]) by {
            if k > 0 {
                assert(rest[k - 1] == s[k]);
            }
        }
        i + 1
    } else {
        assert(s.skip(0) =~= s);
        0
    }
}

proof fn lemma_trim_end(s: Seq<char>) -> (j: int)
    ensures
        0 <= j <= s.len(),
        trim_end(s) == s.take(j),
        forall|k: int| j <= k < s.len() ==> white_space(#[trigger] s[k]),
        j > 0 ==> !white_space(s[j - 1]),
    decreases s.len(),
{
    if s.len() > 0 && white_space(s.last()) {
        let j = lemma_trim_end(s.drop_last());
        assert(s.take(j) =~= s.drop_last().take(j));
        assert forall|k: int| j <= k < s.len() implies white_space(#[trigger] s[k]) by {
            if k < s.len() - 1 {
                assert(s.drop_last()[k] == s[k]);
            }
        }
        j
    } else {
        assert(s.take(s.len() as int) =~= s);
        s.len() as int
    }
}

/// Trimming takes white space off both ends, all of it, and nothing else.
pub proof fn law_trimming_takes_white_space_off(s: Seq<char>) -> (r: (int, int))
    ensures
        stripped_of_white(s, trim(s), r.0, r.1),
        trim(s).len() > 0 ==> !white_space(trim(s)[0]) && !white_space(trim(s)[trim(s).len() - 1]),
        trim(s).len() == 0 <==> forall|k: int| 0 <= k < s.len() ==> white_space(#[trigger] s[k]),
{
    let i = lemma_trim_start(s);
    let t = s.skip(i);
    let j = lemma_trim_end(t);
    assert(t.take(j) =~= s.subrange(i, i + j));
    assert forall|k: int| i + j <= k < s.len() implies white_space(#[trigger] s[k]) by {
        assert(t[k - i] == s[k]);
    }
    if j == 0 && i < s.len() {
        assert(t[0] == s[i]);
    }
    if j > 0 {
        assert(t[0] == s[i] && t[j - 1] == s[i + j - 1]);
    }
    (i, i + j)
}

/// Taking a character off the end takes off all of them that stand there.
pub proof fn law_stripping_takes_a_run_off(s: Seq<char>, c: char)
    ensures
        strip_end(s, c).len() <= s.len(),
        strip_end(s, c) == s.take(strip_end(s, c).len() as int),
        forall|k: int| strip_end(s, c).len() <= k < s.len() ==> #[trigger] s[k] == c,
        strip_end(s, c).len() > 0 ==> strip_end(s, c)[strip_end(s, c).len() - 1] != c,
    decreases s.len(),
{
    if s.len() > 0 && s.last() == c {
        law_stripping_takes_a_run_off(s.drop_last(), c);
        let n = strip_end(s, c).len() as int;
        assert(s.take(n) =~= s.drop_last().take(n));
        assert forall|k: int| n <= k < s.len() implies #[trigger] s[k] == c by {
            if k < s.len() - 1 {
                assert(s.drop_last()[k] == s[k]);
            }
        }
    } else {
        assert(s.take(s.len() as int) =~= s);
    }
}

/// Upper and lower case change ASCII letters and nothing else, one by one.
pub proof fn law_case_changes_letters_only(s: Seq<char>, i: int)
    requires
        0 <= i < s.len(),
    ensures
        upper(s).len() == s.len(),
        lower(s).len() == s.len(),
        'a' <= s[i] <= 'z' ==> upper(s)[i] as int == s[i] as int - 32,
        !('a' <= s[i] <= 'z') ==> upper(s)[i] == s[i],
        'A' <= s[i] <= 'Z' ==> lower(s)[i] as int == s[i] as int + 32,
        !('A' <= s[i] <= 'Z') ==> lower(s)[i] == s[i],
{
}

/// Joining puts the parts one after the other, with the separator between
/// neighbours alone.
pub proof fn law_joining_separates_neighbours(
    parts: Seq<Seq<char>>,
    part: Seq<char>,
    sep: Seq<char>,
)
    ensures
        joined(Seq::empty(), sep).len() == 0,
        joined(seq![part], sep) == part,
        parts.len() > 0 ==> joined(parts.push(part), sep) == joined(parts, sep) + sep + part,
{
    assert(parts.push(part).drop_last() =~= parts);
}

/// A quotation is the text itself, or its first two hundred characters.
pub proof fn law_quotations_are_beginnings(s: Seq<char>)
    ensures
        s.len() <= 200 ==> beginning(s) == s,
        s.len() > 200 ==> beginning(s).len() == 200,
        forall|i: int| 0 <= i < beginning(s).len() ==> #[trigger] beginning(s)[i] == s[i],
{
}

/// A text counts as none exactly when all of it is white space.
pub proof fn law_blank_texts_count_as_none(text: String)
    ensures
        unless_blank(None) is None,
        unless_blank(Some(text)) is None <==> forall|k: int|
            0 <= k < text@.len() ==> white_space(#[trigger] text@[k]),
        unless_blank(Some(text)) matches Some(kept) ==> kept == text,
{
    law_trimming_takes_white_space_off(text@);
}

/// The client names itself as it is told to, or else by its version.
pub proof fn law_the_client_names_itself(name: Seq<char>, version: Seq<char>)
    ensures
        agent_text(Some(name), version) == name,
        agent_text(None, version) == "prawn/"@ + version + " (weather station feed prototype)"@,
{
}

pub(crate) proof fn lemma_no_place(s: Seq<char>, c: char)
    requires
        forall|i: int| 0 <= i < s.len() ==> #[trigger] s[i] != c,
    ensures
        place_of(s, c) == s.len(),
    decreases s.len(),
{
    if s.len() > 0 {
        assert(s[0] != c);
        assert forall|i: int| 0 <= i < s.drop_first().len() implies #[trigger] s.drop_first()[i]
            != c by {
            assert(s[i + 1] != c);
        }
        lemma_no_place(s.drop_first(), c);
    }
}

/// Digits spell a number, and so they do with a sign in front and with a point
/// and more digits behind.
pub proof fn law_digits_spell_a_number(a: Seq<char>, b: Seq<char>)
    requires
        a.len() > 0,
        forall|i: int| 0 <= i < a.len() ==> '0' <= #[trigger] a[i] <= '9',
        forall|i: int| 0 <= i < b.len() ==> '0' <= #[trigger] b[i] <= '9',
    ensures
        is_numeral(a),
        is_numeral(seq!['-'] + a),
        is_numeral(seq!['+'] + a),
        is_numeral(a + seq!['.'] + b),
{
    lemma_plain_number(a);
    assert(all_digits(a));
    lemma_no_place(a, '.');
    let t = a + seq!['.'] + b;
    assert forall|i: int| 0 <= i < t.len() implies ('0' <= #[trigger] t[i] <= '9'
        || t[i] == '.') by {
        if i < a.len() {
            assert(t[i] == a[i]);
        } else if i > a.len() {
            assert(t[i] == b[i - a.len() - 1]);
        }
    }
    crate::numeral::lemma_place(t, '.', a.len() as int);
    lemma_no_place(t, 'e');
    assert(lower(t) =~= t);
    assert(t[0] == a[0]);
    assert(unsigned(t) == t);
    assert(t.take(t.len() as int) =~= t);
    assert(t.take(a.len() as int) =~= a);
    assert(t.skip(a.len() as int + 1) =~= b);
    assert(all_digits(b));
    let m = seq!['-'] + a;
    let p = seq!['+'] + a;
    assert(lower(m) =~= m && lower(p) =~= p);
    assert(m.drop_first() =~= a && p.drop_first() =~= a);
    lemma_no_place(a, 'e');
    assert(a.take(a.len() as int) =~= a);
}

proof fn lemma_plain_number(a: Seq<char>)
    requires
        a.len() > 0,
        forall|i: int| 0 <= i < a.len() ==> '0' <= #[trigger] a[i] <= '9',
    ensures
        is_numeral(a),
        lower(a) == a,
        unsigned(a) == a,
{
    assert(lower(a) =~= a);
    assert(a[0] != '+' && a[0] != '-');
    lemma_no_place(a, 'e');
    lemma_no_place(a, '.');
    assert(a.take(a.len() as int) =~= a);
    assert forall|i: int| 0 <= i < a.len() implies is_digit(#[trigger] a[i]) by {}
}

/// A text spells a number only if it says something and holds nothing but
/// digits, signs, a point and the letters that numbers are written with.
pub proof fn law_nothing_else_spells_a_number(s: Seq<char>, i: int)
    requires
        is_numeral(s),
    ensures
        s.len() > 0,
        0 <= i < s.len() ==> {
            let c = lower(s)[i];
            '0' <= c <= '9' || c == '+' || c == '-' || c == '.' || 'a' <= c <= 'z'
        },
{
    let l = lower(s);
    let t = unsigned(l);
    reveal_strlit("inf");
    reveal_strlit("infinity");
    reveal_strlit("nan");
    assert(t.len() > 0) by {
        if t.len() == 0 {
            assert(t.take(place_of(t, 'e') as int).len() == 0);
        }
    }
    if 0 <= i < s.len() {
        let j = i - (l.len() - t.len());
        if j >= 0 {
            assert(t[j] == l[i]);
            lemma_numeral_char(t, j);
        }
    }
}

proof fn lemma_numeral_char(t: Seq<char>, j: int)
    requires
        0 <= j < t.len(),
        ({
            let e = place_of(t, 'e') as int;
            ||| t == "inf"@
            ||| t == "infinity"@
            ||| t == "nan"@
            ||| crate::numeral::is_mantissa(t.take(e)) && (e < t.len()
                ==> crate::numeral::is_exponent(t.skip(e + 1)))
        }),
    ensures
        '0' <= t[j] <= '9' || t[j] == '+' || t[j] == '-' || t[j] == '.' || 'a' <= t[j] <= 'z',
{
    reveal_strlit("inf");
    reveal_strlit("infinity");
    reveal_strlit("nan");
    let e = place_of(t, 'e') as int;
    lemma_place_is(t, 'e');
    if crate::numeral::is_mantissa(t.take(e)) && (e < t.len() ==> crate::numeral::is_exponent(
        t.skip(e + 1),
    )) {
        if j < e {
            let m = t.take(e);
            let p = place_of(m, '.') as int;
            lemma_place_is(m, '.');
            assert(m[j] == t[j]);
            if p < m.len() {
                if j < p {
                    assert(is_digit(m.take(p)[j]));
                } else if j > p {
                    assert(is_digit(m.skip(p + 1)[j - p - 1]));
                }
            } else {
                assert(is_digit(m[j]));
            }
        } else if j > e {
            let x = t.skip(e + 1);
            let u = unsigned(x);
            let k = j - e - 1 - (x.len() - u.len());
            assert(x[j - e - 1] == t[j]);
            if k >= 0 {
                assert(u[k] == t[j]);
                assert(is_digit(u[k]));
            }
        }
    } else if t == "inf"@ {
        assert(t[j] == 'i' || t[j] == 'n' || t[j] == 'f');
    } else if t == "nan"@ {
        assert(t[j] == 'n' || t[j] == 'a');
    } else {
        assert('a' <= "infinity"@[j] <= 'z');
    }
}

proof fn lemma_place_is(s: Seq<char>, c: char)
    ensures
        place_of(s, c) <= s.len(),
        place_of(s, c) < s.len() ==> s[place_of(s, c) as int] == c,
    decreases s.len(),
{
    if s.len() > 0 && s[0] != c {
        lemma_place_is(s.drop_first(), c);
    }
}

} // verus!
