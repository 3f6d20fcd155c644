//! Text as sequences of characters: case folding, trimming, decimal numerals
//! and joining, with what each of them yields stated over `Seq<char>`.

use vstd::prelude::*;

verus! {

/// `String::push`: appends one character at the end.
pub assume_specification[ String::push ](s: &mut String, c: char)
    ensures
        final(s)@ == old(s)@.push(c),
;

/// White space: the characters with the Unicode property `White_Space`.
pub open spec fn white_space(c: char) -> bool {
    ||| '\u{9}' <= c <= '\u{d}'
    ||| c == ' ' || c == '\u{85}' || c == '\u{a0}' || c == '\u{1680}'
    ||| '\u{2000}' <= c <= '\u{200a}'
    ||| c == '\u{2028}' || c == '\u{2029}' || c == '\u{202f}' || c == '\u{205f}'
    ||| c == '\u{3000}'
}

/// Whether a character is white space.
pub fn is_white_space(c: char) -> (r: bool)
    ensures
        r == white_space(c),
{
    ('\u{9}' <= c && c <= '\u{d}') || c == ' ' || c == '\u{85}' || c == '\u{a0}' || c == '\u{1680}'
        || ('\u{2000}' <= c && c <= '\u{200a}') || c == '\u{2028}' || c == '\u{2029}' || c
        == '\u{202f}' || c == '\u{205f}' || c == '\u{3000}'
}

/// The characters of a string, in order.
pub fn chars_of(s: &str) -> (v: Vec<char>)
    ensures
        v@ == s@,
{
    let mut v: Vec<char> = Vec::new();
    for c in it: s.chars()
        invariant
            it.seq() == s@,
            v@ == s@.take(it.index() as int),
    {
        v.push(c);
    }
    v
}

/// A string made of the given characters.
pub fn text_of(v: &Vec<char>) -> (s: String)
    ensures
        s@ == v@,
{
    let mut s = String::new();
    let mut i: usize = 0;
    while i < v.len()
        invariant
            i <= v@.len(),
            s@ == v@.take(i as int),
        decreases v@.len() - i,
    {
        s.push(v[i]);
        i += 1;
    }
    s
}

/// Whether two strings hold the same characters.
pub fn same(a: &str, b: &str) -> (r: bool)
    ensures
        r == (a@ == b@),
{
    let u = chars_of(a);
    let v = chars_of(b);
    if u.len() != v.len() {
        return false;
    }
    let mut i: usize = 0;
    while i < u.len()
        invariant
            i <= u@.len(),
            u@.len() == v@.len(),
            u@ == a@,
            v@ == b@,
            u@.take(i as int) == v@.take(i as int),
        decreases u@.len() - i,
    {
        if u[i] != v[i] {
            assert(a@[i as int] != b@[i as int]);
            return false;
        }
        assert(u@.take(i + 1) == u@.take(i as int).push(u@[i as int]));
        assert(v@.take(i + 1) == v@.take(i as int).push(v@[i as int]));
        i += 1;
    }
    assert(u@.take(i as int) == u@);
    assert(v@.take(i as int) == v@);
    true
}

/// The ASCII upper-case form of a character; any other character is itself.
pub open spec fn upper_char(c: char) -> char {
    if 'a' <= c <= 'z' {
        (c as u8 - 32) as char
    } else {
        c
    }
}

/// The ASCII lower-case form of a character; any other character is itself.
pub open spec fn lower_char(c: char) -> char {
    if 'A' <= c <= 'Z' {
        (c as u8 + 32) as char
    } else {
        c
    }
}

/// `s` with every ASCII letter in upper case.
pub open spec fn upper(s: Seq<char>) -> Seq<char> {
    s.map_values(|c: char| upper_char(c))
}

/// `s` with every ASCII letter in lower case.
pub open spec fn lower(s: Seq<char>) -> Seq<char> {
    s.map_values(|c: char| lower_char(c))
}

/// `s` in ASCII upper case.
pub fn to_upper(s: &str) -> (r: String)
    ensures
        r@ == upper(s@),
{
    let v = chars_of(s);
    let mut r = String::new();
    let mut i: usize = 0;
    while i < v.len()
        invariant
            i <= v@.len(),
            v@ == s@,
            r@ == upper(v@.take(i as int)),
        decreases v@.len() - i,
    {
        let c = v[i];
        assert(v@.take(i + 1) == v@.take(i as int).push(c));
        if 'a' <= c && c <= 'z' {
            r.push((c as u8 - 32) as char);
        } else {
            r.push(c);
        }
        i += 1;
    }
    assert(v@.take(i as int) == v@);
    r
}

/// `s` in ASCII lower case.
pub fn to_lower(s: &str) -> (r: String)
    ensures
        r@ == lower(s@),
{
    let v = chars_of(s);
    let mut r = String::new();
    let mut i: usize = 0;
    while i < v.len()
        invariant
            i <= v@.len(),
            v@ == s@,
            r@ == lower(v@.take(i as int)),
        decreases v@.len() - i,
    {
        let c = v[i];
        assert(v@.take(i + 1) == v@.take(i as int).push(c));
        if 'A' <= c && c <= 'Z' {
            r.push((c as u8 + 32) as char);
        } else {
            r.push(c);
        }
        i += 1;
    }
    assert(v@.take(i as int) == v@);
    r
}

/// Whether `a` and `b` differ in nothing but the case of ASCII letters.
pub fn same_ignoring_case(a: &str, b: &str) -> (r: bool)
    ensures
        r == (lower(a@) == lower(b@)),
{
    let u = to_lower(a);
    let v = to_lower(b);
    same(u.as_str(), v.as_str())
}

/// `s` without its leading white space.
pub open spec fn trim_start(s: Seq<char>) -> Seq<char>
    decreases s.len(),
{
    if s.len() > 0 && white_space(s[0]) {
        trim_start(s.drop_first())
    } else {
        s
    }
}

/// `s` without its trailing white space.
pub open spec fn trim_end(s: Seq<char>) -> Seq<char>
    decreases s.len(),
{
    if s.len() > 0 && white_space(s.last()) {
        trim_end(s.drop_last())
    } else {
        s
    }
}

/// `s` without the white space at either end.
pub open spec fn trim(s: Seq<char>) -> Seq<char> {
    trim_end(trim_start(s))
}

/// `s` without the trailing characters equal to `c`.
pub open spec fn strip_end(s: Seq<char>, c: char) -> Seq<char>
    decreases s.len(),
{
    if s.len() > 0 && s.last() == c {
        strip_end(s.drop_last(), c)
    } else {
        s
    }
}

/// The characters of `s` after its leading white space.
fn skip_white(v: Vec<char>) -> (r: Vec<char>)
    ensures
        r@ == trim_start(v@),
{
    let mut i: usize = 0;
    assert(v@.skip(0) == v@);
    while i < v.len() && is_white_space(v[i])
        invariant
            i <= v@.len(),
            trim_start(v@.skip(i as int)) == trim_start(v@),
        ensures
            i <= v@.len(),
            v@.skip(i as int) == trim_start(v@),
        decreases v@.len() - i,
    {
        assert(v@.skip(i as int).drop_first() == v@.skip(i + 1));
        i += 1;
    }
    let mut v = v;
    let ghost whole = v@;
    let tail = v.split_off(i);
    assert(tail@ == whole.skip(i as int));
    tail
}

/// The characters of `s` up to its trailing white space.
fn drop_white(v: Vec<char>) -> (r: Vec<char>)
    ensures
        r@ == trim_end(v@),
{
    let mut v = v;
    let ghost whole = v@;
    while v.len() > 0 && is_white_space(v[v.len() - 1])
        invariant
            trim_end(v@) == trim_end(whole),
        ensures
            v@ == trim_end(whole),
        decreases v@.len(),
    {
        v.pop();
    }
    v
}

/// `str::trim`.
pub fn trimmed(s: &str) -> (r: String)
    ensures
        r@ == trim(s@),
{
    let v = drop_white(skip_white(chars_of(s)));
    text_of(&v)
}

/// `str::trim_start`.
pub fn trimmed_start(s: &str) -> (r: String)
    ensures
        r@ == trim_start(s@),
{
    let v = skip_white(chars_of(s));
    text_of(&v)
}

/// `str::trim_end_matches` for one character.
pub fn stripped_end(s: &str, c: char) -> (r: String)
    ensures
        r@ == strip_end(s@, c),
{
    let mut v = chars_of(s);
    while v.len() > 0 && v[v.len() - 1] == c
        invariant
            strip_end(v@, c) == strip_end(s@, c),
        ensures
            v@ == strip_end(s@, c),
        decreases v@.len(),
    {
        v.pop();
    }
    text_of(&v)
}

/// Whether `s` holds nothing but white space.
pub fn is_blank(s: &str) -> (r: bool)
    ensures
        r == (trim(s@).len() == 0),
{
    let v = drop_white(skip_white(chars_of(s)));
    v.len() == 0
}

/// Whether `s` begins with `prefix`.
pub open spec fn begins_with(s: Seq<char>, prefix: Seq<char>) -> bool {
    prefix.len() <= s.len() && s.take(prefix.len() as int) == prefix
}

/// `str::starts_with`.
pub fn starts_with(s: &str, prefix: &str) -> (r: bool)
    ensures
        r == begins_with(s@, prefix@),
{
    let u = chars_of(s);
    let p = chars_of(prefix);
    if p.len() > u.len() {
        return false;
    }
    let mut i: usize = 0;
    while i < p.len()
        invariant
            i <= p@.len() <= u@.len(),
            u@ == s@,
            p@ == prefix@,
            u@.take(i as int) == p@.take(i as int),
        decreases p@.len() - i,
    {
        if u[i] != p[i] {
            assert(s@.take(p@.len() as int)[i as int] != prefix@[i as int]);
            return false;
        }
        assert(u@.take(i + 1) == u@.take(i as int).push(u@[i as int]));
        assert(p@.take(i + 1) == p@.take(i as int).push(p@[i as int]));
        i += 1;
    }
    assert(p@.take(i as int) == p@);
    true
}

/// The decimal digit of value `d`.
pub open spec fn digit(d: nat) -> char {
    (48 + d) as u8 as char
}

/// The decimal numeral of `n`, without leading zeros.
pub open spec fn decimal(n: nat) -> Seq<char>
    decreases n,
{
    if n < 10 {
        seq![digit(n)]
    } else {
        decimal(n / 10).push(digit(n % 10))
    }
}

/// The decimal numeral of `n` with a minus sign when it is negative.
pub open spec fn signed_decimal(n: int) -> Seq<char> {
    if n < 0 {
        seq!['-'] + decimal((-n) as nat)
    } else {
        decimal(n as nat)
    }
}

/// The decimal numeral of `n`.
pub fn decimal_of(n: u64) -> (r: String)
    ensures
        r@ == decimal(n as nat),
    decreases n,
{
    if n < 10 {
        let mut r = String::new();
        r.push((48 + n as u8) as char);
        assert(r@ == seq![digit(n as nat)]);
        r
    } else {
        let mut r = decimal_of(n / 10);
        r.push((48 + (n % 10) as u8) as char);
        r
    }
}

/// The decimal numeral of `n`, signed.
pub fn signed_decimal_of(n: i64) -> (r: String)
    ensures
        r@ == signed_decimal(n as int),
{
    if n < 0 {
        let magnitude: u64 = if n == i64::MIN {
            0x8000_0000_0000_0000
        } else {
            (-n) as u64
        };
        let mut r = String::new();
        r.push('-');
        let digits = decimal_of(magnitude);
        assert(r@ == seq!['-']);
        r.append(digits.as_str());
        r
    } else {
        decimal_of(n as u64)
    }
}

/// `parts` one after the other with `sep` between neighbours.
pub open spec fn joined(parts: Seq<Seq<char>>, sep: Seq<char>) -> Seq<char>
    decreases parts.len(),
{
    if parts.len() == 0 {
        Seq::empty()
    } else if parts.len() == 1 {
        parts[0]
    } else {
        joined(parts.drop_last(), sep) + sep + parts.last()
    }
}

/// The contents of a list of strings.
pub open spec fn views(parts: Seq<String>) -> Seq<Seq<char>> {
    parts.map_values(|s: String| s@)
}

/// The strings of `parts` joined by `sep`.
pub fn join(parts: &Vec<String>, sep: &str) -> (r: String)
    ensures
        r@ == joined(views(parts@), sep@),
{
    let mut r = String::new();
    let mut i: usize = 0;
    while i < parts.len()
        invariant
            i <= parts@.len(),
            r@ == joined(views(parts@.take(i as int)), sep@),
        decreases parts@.len() - i,
    {
        let ghost before = views(parts@.take(i as int));
        let ghost after = views(parts@.take(i + 1));
        assert(after.drop_last() == before);
        assert(after.last() == parts@[i as int]@);
        if i > 0 {
            r.append(sep);
        } else {
            assert(r@ + parts@[0]@ == parts@[0]@);
        }
        r.append(parts[i].as_str());
        i += 1;
    }
    assert(parts@.take(i as int) == parts@);
    r
}

/// Upper case and lower case say the same: a text that is put in upper case
/// differs from itself in nothing but case.
pub proof fn law_case_is_all_that_changes(s: Seq<char>)
    ensures
        lower(upper(s)) == lower(s),
        upper(lower(s)) == upper(s),
        upper(upper(s)) == upper(s),
        lower(lower(s)) == lower(s),
{
    assert(lower(upper(s)) =~= lower(s));
    assert(upper(lower(s)) =~= upper(s));
    assert(upper(upper(s)) =~= upper(s));
    assert(lower(lower(s)) =~= lower(s));
}

/// Where a word stands last in a text.
pub open spec fn last_place(s: Seq<char>, word: Seq<char>) -> Option<int>
    decreases s.len(),
{
    if s.len() < word.len() || s.len() == 0 {
        None
    } else if s.skip(s.len() - word.len()) == word {
        Some(s.len() - word.len())
    } else {
        last_place(s.drop_last(), word)
    }
}

/// The text with the last `word` in it replaced.
pub open spec fn replaced(s: Seq<char>, word: Seq<char>, by: Seq<char>) -> Seq<char> {
    match last_place(s, word) {
        Some(p) => s.take(p) + by + s.skip(p + word.len()),
        None => s,
    }
}

/// Replaces the last `word` of a text.
pub fn replace(text: &str, word: &str, by: &str) -> (r: String)
    ensures
        r@ == replaced(text@, word@, by@),
{
    let s = chars_of(text);
    let w = chars_of(word);
    let mut n: usize = s.len();
    assert(s@.take(n as int) =~= s@);
    while n >= w.len() && n > 0
        invariant
            n <= s@.len(),
            s@ == text@,
            w@ == word@,
            last_place(text@, word@) == last_place(s@.take(n as int), word@),
        ensures
            n < w@.len() || n == 0,
            n <= s@.len(),
            last_place(text@, word@) == last_place(s@.take(n as int), word@),
        decreases n,
    {
        let p: usize = n - w.len();
        let ghost head = s@.take(n as int);
        if matches_at(&s, p, &w) {
            assert(head.skip(p as int) =~= s@.subrange(p as int, n as int));
            let mut r = text_of_range(&s, 0, p);
            r.append(by);
            r.append(text_of_range(&s, n, s.len()).as_str());
            assert(r@ =~= replaced(text@, word@, by@));
            return r;
        }
        assert(head.skip(p as int) =~= s@.subrange(p as int, n as int));
        assert(head.drop_last() =~= s@.take(n - 1));
        n -= 1;
    }
    text.to_owned()
}

fn matches_at(s: &Vec<char>, p: usize, w: &Vec<char>) -> (r: bool)
    requires
        p + w@.len() <= s@.len(),
    ensures
        r == (s@.subrange(p as int, p + w@.len()) == w@),
{
    let mut i: usize = 0;
    while i < w.len()
        invariant
            i <= w@.len(),
            p + w@.len() <= s@.len(),
            forall|k: int| 0 <= k < i ==> s@[p + k] == #[trigger] w@[k],
        decreases w@.len() - i,
    {
        assert(p + i < s.len());
        if s[p + i] != w[i] {
            assert(s@.subrange(p as int, p + w@.len())[i as int] != w@[i as int]);
            return false;
        }
        i += 1;
    }
    assert(s@.subrange(p as int, p + w@.len()) =~= w@);
    true
}

fn text_of_range(s: &Vec<char>, from: usize, to: usize) -> (r: String)
    requires
        from <= to <= s@.len(),
    ensures
        r@ == s@.subrange(from as int, to as int),
{
    let mut v: Vec<char> = Vec::new();
    let mut i: usize = from;
    while i < to
        invariant
            from <= i <= to <= s@.len(),
            v@ == s@.subrange(from as int, i as int),
        decreases to - i,
    {
        v.push(s[i]);
        i += 1;
        assert(v@ =~= s@.subrange(from as int, i as int));
    }
    text_of(&v)
}

} // verus!
