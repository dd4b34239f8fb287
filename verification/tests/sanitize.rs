use podchiver::decimal::parse_unsigned;
use podchiver::sanitize::{path_safe_char, sanitize_string, strip_unsafe};

const RESERVED: [char; 9] = ['\\', '/', ':', '*', '?', '"', '<', '>', '|'];

#[test]
fn sanitize_removes_every_reserved_character() {
    assert_eq!(sanitize_string("a\\b/c:d*e?f\"g<h>i|j"), "abcdefghij");
}

#[test]
fn sanitize_removes_non_ascii() {
    assert_eq!(sanitize_string("Caf\u{e9} \u{4f60}\u{597d} ok"), "Caf  ok");
}

#[test]
fn sanitize_result_holds_no_unsafe_character() {
    let inputs = [
        "plain",
        "Ep 1: Q&A",
        "&lt;b&gt;bold&lt;/b&gt; &quot;x&quot; &#47; &#x5c; &eacute;",
        "\u{1f600}/\u{1f600}",
        "",
        "???",
    ];
    for input in inputs {
        let out = sanitize_string(input);
        for c in out.chars() {
            assert!(c.is_ascii());
            assert!(!RESERVED.contains(&c));
        }
    }
}

#[test]
fn sanitize_decodes_entities_before_stripping() {
    assert_eq!(sanitize_string("Q&amp;A"), "Q&A");
    assert_eq!(sanitize_string("Tom &#38; Jerry"), "Tom & Jerry");
    assert_eq!(sanitize_string("a&lt;b&gt;c"), "abc");
    assert_eq!(sanitize_string("We&#x27;re"), "We're");
    assert_eq!(sanitize_string("caf&eacute;"), "caf");
}

#[test]
fn sanitize_keeps_a_bare_ampersand() {
    assert_eq!(sanitize_string("Q&A"), "Q&A");
    assert_eq!(sanitize_string("a & b"), "a & b");
}

#[test]
fn sanitize_may_leave_nothing() {
    assert_eq!(sanitize_string(""), "");
    assert_eq!(sanitize_string(":/\\"), "");
    assert_eq!(sanitize_string("\u{4f60}\u{597d}"), "");
}

#[test]
fn strip_unsafe_does_not_decode() {
    assert_eq!(strip_unsafe("Q&amp;A: x"), "Q&amp;A x");
}

#[test]
fn path_safe_char_on_each_kind() {
    for c in RESERVED {
        assert!(!path_safe_char(c));
    }
    assert!(path_safe_char('a'));
    assert!(path_safe_char(' '));
    assert!(path_safe_char('&'));
    assert!(path_safe_char('\u{7f}'));
    assert!(!path_safe_char('\u{80}'));
    assert!(!path_safe_char('\u{e9}'));
}

#[test]
fn parse_unsigned_reads_decimal_numbers() {
    assert_eq!(parse_unsigned("0"), Some(0));
    assert_eq!(parse_unsigned("123"), Some(123));
    assert_eq!(parse_unsigned("007"), Some(7));
    assert_eq!(parse_unsigned("+5"), Some(5));
    assert_eq!(parse_unsigned("18446744073709551615"), Some(u64::MAX));
}

#[test]
fn parse_unsigned_refuses_everything_else() {
    assert_eq!(parse_unsigned(""), None);
    assert_eq!(parse_unsigned("+"), None);
    assert_eq!(parse_unsigned("-5"), None);
    assert_eq!(parse_unsigned("12a"), None);
    assert_eq!(parse_unsigned(" 12"), None);
    assert_eq!(parse_unsigned("12 "), None);
    assert_eq!(parse_unsigned("++1"), None);
    assert_eq!(parse_unsigned("18446744073709551616"), None);
    assert_eq!(parse_unsigned("99999999999999999999999"), None);
}

#[test]
fn parse_unsigned_agrees_with_the_standard_parser() {
    let inputs = ["0", "42", "+42", "", "+", "-1", "1_000", "18446744073709551615",
        "18446744073709551616", "0000000000000000000000001", "\u{663}"];
    for input in inputs {
        assert_eq!(parse_unsigned(input), input.parse::<u64>().ok());
    }
}
