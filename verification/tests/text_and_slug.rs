use school_portal::models::slug::{slug_from_lowercase, slugify};
use school_portal::text::{chars_of, is_ascii_alphanumeric, is_white_space, string_of, trim};

#[test]
fn trim_removes_unicode_white_space_at_both_ends() {
    assert_eq!(trim("  a b \t\n"), "a b");
    assert_eq!(trim("\u{3000}x\u{85}"), "x");
    assert_eq!(trim("\u{2028}\u{A0} \u{1680}"), "");
    assert_eq!(trim(""), "");
    assert_eq!(trim("inner  space"), "inner  space");
}

#[test]
fn white_space_and_ascii_classes() {
    for c in ['\t', '\n', '\u{0B}', '\u{0C}', '\r', ' ', '\u{85}', '\u{A0}', '\u{2000}', '\u{200A}', '\u{202F}', '\u{205F}', '\u{3000}'] {
        assert!(is_white_space(c), "{:?}", c);
        assert_eq!(is_white_space(c), c.is_whitespace());
    }
    for c in ['a', '-', '\u{200B}', 'é', '0'] {
        assert!(!is_white_space(c));
        assert_eq!(is_white_space(c), c.is_whitespace());
    }
    for c in ['a', 'z', 'A', 'Z', '0', '9'] {
        assert!(is_ascii_alphanumeric(c));
    }
    for c in ['-', ' ', 'é', '_', '@'] {
        assert!(!is_ascii_alphanumeric(c));
    }
}

#[test]
fn chars_round_trip() {
    let v = chars_of("héllo");
    assert_eq!(v, vec!['h', 'é', 'l', 'l', 'o']);
    assert_eq!(string_of(&v), "héllo");
}

#[test]
fn slugify_examples() {
    assert_eq!(slugify("  Hello, World!  "), "hello-world");
    assert_eq!(slugify("Green Valley High School"), "green-valley-high-school");
    assert_eq!(slugify("Université de Lagos"), "universit-de-lagos");
    assert_eq!(slugify("A--B"), "a-b");
    assert_eq!(slugify("---"), "");
    assert_eq!(slugify(""), "");
    assert_eq!(slugify("!!!"), "");
    assert_eq!(slugify("St. John's 2024"), "st-john-s-2024");
}

#[test]
fn slugify_lowercases_with_unicode_rules() {
    // The Kelvin sign lowercases to an ASCII `k`.
    assert_eq!(slugify("\u{212A}elvin College"), "kelvin-college");
    assert_eq!(slugify("ÀB"), "b");
}

#[test]
fn slug_from_lowercase_keeps_case_and_collapses_separators() {
    assert_eq!(slug_from_lowercase("ab--CD"), "ab-CD");
    assert_eq!(slug_from_lowercase("-x-"), "x");
    assert_eq!(slug_from_lowercase("a b\tc"), "a-b-c");
    assert_eq!(slug_from_lowercase(""), "");
}

#[test]
fn slug_is_well_formed_and_idempotent() {
    for name in ["  Hello, World!  ", "A--B", "---", "x", "Université de Lagos", "a_b_c", "-lead-trail-"] {
        let s = slugify(name);
        assert_eq!(slug_from_lowercase(&s), s);
        assert_eq!(slugify(&s), s);
        assert!(!s.starts_with('-') && !s.ends_with('-') && !s.contains("--"));
        assert!(s.chars().all(|c| c == '-' || c.is_ascii_alphanumeric()));
    }
}

#[test]
fn slug_ignores_ascii_case_and_is_empty_without_letters_or_digits() {
    for name in ["Green Valley", "  st. MARY's  ", "a-B-c", "x1 Y2"] {
        assert_eq!(slugify(&name.to_ascii_uppercase()), slugify(name));
        assert!(!slugify(name).is_empty());
    }
    for name in ["", "   ", "!?-", "éàü", "——"] {
        assert!(slugify(name).is_empty());
    }
}

#[test]
fn slug_ignores_ascii_case_in_unicode_names() {
    for name in ["École Saint-Jean", "ΟΔΟΣ Alpha σ", "Straße 9", "Ünïcode Hall"] {
        assert_eq!(slugify(&name.to_ascii_uppercase()), slugify(name));
        assert_eq!(slugify(&slugify(name)), slugify(name));
    }
}
