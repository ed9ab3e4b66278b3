use platfoxbot::text::{escape_html, parse_u64, strip_trailing_link, u64_to_dec};

#[test]
fn parse_plain_numbers() {
    assert_eq!(parse_u64("103"), Some(103));
    assert_eq!(parse_u64("0"), Some(0));
    assert_eq!(parse_u64("5"), Some(5));
}

#[test]
fn parse_rejects_empty_and_nondigits() {
    assert_eq!(parse_u64(""), None);
    assert_eq!(parse_u64("12a"), None);
    assert_eq!(parse_u64("-3"), None);
    assert_eq!(parse_u64("1 2"), None);
}

#[test]
fn parse_at_the_limit() {
    assert_eq!(parse_u64("18446744073709551615"), Some(u64::MAX));
    assert_eq!(parse_u64("18446744073709551616"), None);
    assert_eq!(parse_u64("99999999999999999999999"), None);
}

#[test]
fn format_identifiers() {
    assert_eq!(u64_to_dec(0), "0");
    assert_eq!(u64_to_dec(103), "103");
    assert_eq!(u64_to_dec(u64::MAX), "18446744073709551615");
}

#[test]
fn format_then_parse_roundtrip() {
    for n in [0u64, 7, 42, 103, 9876543210, u64::MAX] {
        assert_eq!(parse_u64(&u64_to_dec(n)), Some(n));
    }
}

#[test]
fn escape_reserved_characters() {
    assert_eq!(escape_html("<a & b>".to_string()), "&lt;a &amp; b&gt;");
    assert_eq!(escape_html("plain text".to_string()), "plain text");
    assert_eq!(escape_html(String::new()), "");
}

#[test]
fn strip_secure_trailing_token() {
    assert_eq!(strip_trailing_link("hi https://t.co/x"), "hi ");
}

#[test]
fn strip_plain_trailing_token() {
    assert_eq!(strip_trailing_link("hi http://t.co/x"), "hi ");
}

#[test]
fn strip_token_alone() {
    assert_eq!(strip_trailing_link("https://t.co/abc"), "");
}

#[test]
fn strip_leaves_text_without_token() {
    assert_eq!(strip_trailing_link("no media"), "no media");
    assert_eq!(strip_trailing_link(""), "");
}

#[test]
fn strip_requires_token_at_the_very_end() {
    // A space after the link means the token does not run to the end.
    assert_eq!(
        strip_trailing_link("see https://t.co/x then"),
        "see https://t.co/x then"
    );
}

#[test]
fn strip_requires_something_after_the_prefix() {
    assert_eq!(strip_trailing_link("go https://t.co/"), "go https://t.co/");
}
