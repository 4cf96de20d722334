use json_unescape::{unescape_str, UnescapeError};

fn ok(s: &str) -> String {
    match unescape_str(s) {
        Ok(o) => o,
        Err(e) => panic!("unexpected error for {:?}: {:?}", s, e),
    }
}

#[test]
fn plain_text_is_unchanged() {
    for s in ["abc", "hello, world", "quote \" inside", "héllo ☃ 𝄞", "/ and '"] {
        assert_eq!(ok(s), s);
    }
}

#[test]
fn empty_input_decodes_to_empty() {
    assert_eq!(unescape_str(""), Ok(String::new()));
}

#[test]
fn newline_escape() {
    assert_eq!(ok("\\n"), "\n");
}

#[test]
fn several_escapes_in_order() {
    assert_eq!(ok("\\t\\r\\n"), "\t\r\n");
}

#[test]
fn every_single_character_escape() {
    assert_eq!(ok("\\\\"), "\\");
    assert_eq!(ok("\\\""), "\"");
    assert_eq!(ok("\\/"), "/");
    assert_eq!(ok("\\b"), "\u{8}");
    assert_eq!(ok("\\f"), "\u{c}");
    assert_eq!(ok("\\n"), "\n");
    assert_eq!(ok("\\r"), "\r");
    assert_eq!(ok("\\t"), "\t");
}

#[test]
fn escape_returns_to_plain_text() {
    assert_eq!(ok("a\\nb\\tc"), "a\nb\tc");
    assert_eq!(ok("\\bx"), "\u{8}x");
    assert_eq!(ok("\\\\n"), "\\n");
}

#[test]
fn unicode_escape() {
    assert_eq!(ok("\\u0041"), "A");
}

#[test]
fn unicode_escape_beyond_ascii() {
    assert_eq!(ok("\\u00e9"), "é");
    assert_eq!(ok("\\u00E9"), "é");
    assert_eq!(ok("\\u2603"), "☃");
    assert_eq!(ok("\\uFFFF"), "\u{ffff}");
    assert_eq!(ok("\\uE000"), "\u{e000}");
    assert_eq!(ok("\\u0000"), "\u{0}");
}

#[test]
fn unicode_escape_takes_exactly_four_digits() {
    assert_eq!(ok("\\u12345"), "\u{1234}5");
    assert_eq!(ok("x\\u0041\\u0042y"), "xABy");
}

#[test]
fn lone_high_surrogate_is_rejected() {
    assert_eq!(
        unescape_str("\\uD800"),
        Err(UnescapeError::InvalidCodepoint { digits: "D800".to_string() })
    );
}

#[test]
fn surrogate_halves_are_not_paired() {
    assert_eq!(
        unescape_str("\\uD800\\uDC00"),
        Err(UnescapeError::InvalidCodepoint { digits: "D800".to_string() })
    );
    assert_eq!(
        unescape_str("\\udfff"),
        Err(UnescapeError::InvalidCodepoint { digits: "dfff".to_string() })
    );
}

#[test]
fn invalid_escape_character() {
    assert_eq!(unescape_str("\\x"), Err(UnescapeError::InvalidEscapeCharacter('x')));
    assert_eq!(unescape_str("ab\\qcd"), Err(UnescapeError::InvalidEscapeCharacter('q')));
}

#[test]
fn unterminated_unicode_escape() {
    assert_eq!(unescape_str("\\u12"), Err(UnescapeError::UnterminatedUnicodeEscape));
    assert_eq!(unescape_str("\\u"), Err(UnescapeError::UnterminatedUnicodeEscape));
    assert_eq!(unescape_str("a\\u123"), Err(UnescapeError::UnterminatedUnicodeEscape));
}

#[test]
fn unterminated_escape() {
    assert_eq!(unescape_str("\\"), Err(UnescapeError::UnterminatedEscape));
    assert_eq!(unescape_str("abc\\"), Err(UnescapeError::UnterminatedEscape));
}

#[test]
fn invalid_hex_digit() {
    assert_eq!(
        unescape_str("\\u00zz"),
        Err(UnescapeError::InvalidHexDigit { digits: "00".to_string(), found: 'z' })
    );
    assert_eq!(
        unescape_str("\\ug"),
        Err(UnescapeError::InvalidHexDigit { digits: String::new(), found: 'g' })
    );
}

#[test]
fn first_error_wins() {
    assert_eq!(unescape_str("\\x\\"), Err(UnescapeError::InvalidEscapeCharacter('x')));
    assert_eq!(
        unescape_str("\\uD800\\q"),
        Err(UnescapeError::InvalidCodepoint { digits: "D800".to_string() })
    );
}

#[test]
fn decoding_twice_differs() {
    let once = ok("\\\\n");
    assert_eq!(once, "\\n");
    assert_eq!(ok(&once), "\n");
    assert_ne!(ok(&once), once);
}

#[test]
fn output_is_never_longer() {
    for s in ["", "abc", "\\n\\t", "\\u0041bc", "a\\\\b", "☃\\u2603"] {
        assert!(ok(s).chars().count() <= s.chars().count());
    }
    assert_eq!(ok("\\u0041bc").chars().count(), 3);
}

#[test]
fn messages_name_the_offending_text() {
    let msg = |s: &str| unescape_str(s).unwrap_err().message();
    assert_eq!(msg("\\x"), "The escape sequence `\\x` is invalid.");
    assert_eq!(
        msg("\\u00zz"),
        "The unicode escape sequence `\\u00z` is invalid (`z` is not a valid hexadecimal character)."
    );
    assert_eq!(
        msg("\\uD800"),
        "The unicode escape sequence `\\uD800` is invalid (it is not a valid unicode codepoint)."
    );
    assert_eq!(msg("\\"), "Reached end of input, expected escape sequence.");
    assert_eq!(msg("\\u1"), "Reached end of input, expected unicode escape sequence.");
}
