use prawn::numeral::spells_number;
use prawn::text::{
    decimal_of, is_blank, is_white_space, join, same, same_ignoring_case, signed_decimal_of, starts_with,
    stripped_end, to_lower, to_upper, trimmed, trimmed_start,
};

#[test]
fn numerals_are_those_of_floats() {
    let texts = [
        "0", "12", "-3", "+4", "1.5", ".5", "5.", "1e5", "1E-5", "-1.25e+10", "inf", "-INF",
        "infinity", "NaN", "+nan", "", "+", "-", ".", "e", "e5", "1e", "1e+", "1.2.3", "1 2", " 1",
        "1 ", "0x10", "1_000", "++1", "1e5.0", "infinit", "nano", "ten", "１", "1e5e5", "-.e1",
    ];
    for text in texts {
        assert_eq!(spells_number(text), text.parse::<f64>().is_ok(), "{text:?}");
    }
}

#[test]
fn letters_change_case_in_ascii_only() {
    assert_eq!(to_upper("rjtt-é9"), "RJTT-é9");
    assert_eq!(to_lower("Inches HG É"), "inches hg É");
    assert!(same_ignoring_case("vRb", "VRB"));
    assert!(!same_ignoring_case("É", "é"));
    assert!(same("a", "a") && !same("a", "A") && !same("a", "ab"));
}

#[test]
fn white_space_is_trimmed() {
    assert_eq!(trimmed("\t a b\u{a0}\n"), "a b");
    assert_eq!(trimmed_start("\u{2003}a "), "a ");
    assert_eq!(stripped_end("10++", '+'), "10");
    assert!(is_blank(" \u{3000}") && is_blank("") && !is_blank(" . "));
}

#[test]
fn texts_are_compared_and_joined() {
    assert!(starts_with("METAR X", "METAR") && starts_with("a", ""));
    assert!(!starts_with("MET", "METAR"));
    let parts = vec!["a".to_owned(), "b".to_owned(), "c".to_owned()];
    assert_eq!(join(&parts, "  "), "a  b  c");
    assert_eq!(join(&vec![], "  "), "");
}

#[test]
fn numbers_are_written_in_decimal() {
    assert_eq!(decimal_of(0), "0");
    assert_eq!(decimal_of(u64::MAX), u64::MAX.to_string());
    assert_eq!(signed_decimal_of(-12), "-12");
    assert_eq!(signed_decimal_of(i64::MIN), i64::MIN.to_string());
}

#[test]
fn case_is_all_that_changes() {
    for text in ["rJtT 9é", "", "ÄäZz@[`{"] {
        assert_eq!(to_lower(&to_upper(text)), to_lower(text));
        assert_eq!(to_upper(&to_lower(text)), to_upper(text));
        assert!(same_ignoring_case(&to_upper(text), text));
    }
}

#[test]
fn white_space_is_that_of_unicode() {
    for c in '\0'..=char::MAX {
        assert_eq!(is_white_space(c), c.is_whitespace(), "{c:?}");
    }
}
