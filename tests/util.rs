use std::borrow::Cow;

use codex_util::backoff::{JITTER_MAX_PPM, JITTER_MIN_PPM};
use codex_util::text::text_contains;
use codex_util::{
    backoff, backoff_delay_ms, base_delay_ms, error_message_or_text, error_or_panic,
    strip_citation_markup, try_parse_error_message, ErrorAction,
};

#[test]
fn test_try_parse_error_message() {
    let text = r#"{
  "error": {
    "message": "Your refresh token has already been used to generate a new access token. Please try signing in again.",
    "type": "invalid_request_error",
    "param": null,
    "code": "refresh_token_reused"
  }
}"#;
    let message = try_parse_error_message(text);
    assert_eq!(
        message,
        "Your refresh token has already been used to generate a new access token. Please try signing in again."
    );
}

#[test]
fn test_try_parse_error_message_no_error() {
    let text = r#"{"message": "test"}"#;
    let message = try_parse_error_message(text);
    assert_eq!(message, r#"{"message": "test"}"#);
}

#[test]
fn strip_citation_markup_removes_private_use_block() {
    let src = "Hello \u{e200}cite\u{e202}turn2search0\u{e201} world";
    let out = strip_citation_markup(src);
    assert_eq!(out, "Hello  world");
}

#[test]
fn strip_citation_markup_unwraps_angle_block() {
    let src = "See <cite|web/src/foo.svelte:1|> for details";
    let out = strip_citation_markup(src);
    assert_eq!(out, "See web/src/foo.svelte:1 for details");
}

#[test]
fn error_message_from_error_object() {
    assert_eq!(try_parse_error_message(r#"{"error":{"message":"M"}}"#), "M");
}

#[test]
fn error_message_without_error_member_echoes_body() {
    assert_eq!(
        try_parse_error_message(r#"{"message":"test"}"#),
        r#"{"message":"test"}"#
    );
}

#[test]
fn error_message_of_empty_body() {
    assert_eq!(try_parse_error_message(""), "Unknown error");
}

#[test]
fn error_message_of_plain_text() {
    assert_eq!(
        try_parse_error_message("plain text, not json"),
        "plain text, not json"
    );
}

#[test]
fn error_message_when_message_is_not_a_string() {
    let body = r#"{"error":{"message":42}}"#;
    assert_eq!(try_parse_error_message(body), body);
    let body = r#"{"error":"oops"}"#;
    assert_eq!(try_parse_error_message(body), body);
}

#[test]
fn error_message_or_text_cases() {
    assert_eq!(error_message_or_text(Some("found".to_string()), "body"), "found");
    assert_eq!(error_message_or_text(None, ""), "Unknown error");
    assert_eq!(error_message_or_text(None, "body"), "body");
    assert_eq!(error_message_or_text(Some(String::new()), "body"), "");
}

#[test]
fn backoff_is_positive_and_within_jitter() {
    for _ in 0..200 {
        for attempt in [0u64, 1] {
            let ms = backoff(attempt).as_millis();
            assert!((180..=220).contains(&ms), "attempt {attempt}: {ms}");
        }
        let ms = backoff(2).as_millis();
        assert!((360..=440).contains(&ms), "attempt 2: {ms}");
        let ms = backoff(3).as_millis();
        assert!((720..=880).contains(&ms), "attempt 3: {ms}");
    }
    for attempt in [4u64, 10, 40, 63, 64, 65, 1000, u64::MAX] {
        assert!(backoff(attempt).as_millis() > 0);
    }
}

#[test]
fn base_delay_doubles_and_saturates() {
    assert_eq!(base_delay_ms(0), 200);
    assert_eq!(base_delay_ms(1), 200);
    assert_eq!(base_delay_ms(2), 400);
    assert_eq!(base_delay_ms(3), 800);
    assert_eq!(base_delay_ms(11), 204_800);
    assert_eq!(base_delay_ms(57), 200u64 << 56);
    assert_eq!(base_delay_ms(58), u64::MAX);
    assert_eq!(base_delay_ms(u64::MAX), u64::MAX);
}

#[test]
fn backoff_delay_exact_values() {
    assert_eq!(backoff_delay_ms(0, 1_000_000), 200);
    assert_eq!(backoff_delay_ms(1, JITTER_MIN_PPM), 180);
    assert_eq!(backoff_delay_ms(1, JITTER_MAX_PPM - 1), 219);
    assert_eq!(backoff_delay_ms(2, 900_000), 360);
    assert_eq!(backoff_delay_ms(3, 1_099_999), 879);
    assert_eq!(backoff_delay_ms(5, 1_050_000), 3360);
    assert_eq!(backoff_delay_ms(u64::MAX, 1_000_000), u64::MAX);
    assert_eq!(backoff_delay_ms(u64::MAX, 1_099_999), u64::MAX);
    let expected = (u64::MAX as u128 * 900_000 / 1_000_000) as u64;
    assert_eq!(backoff_delay_ms(100, 900_000), expected);
}

#[test]
fn strip_removes_private_use_block() {
    let out = strip_citation_markup("Hello \u{e200}cite...\u{e201} world");
    assert_eq!(out, "Hello  world");
    assert!(matches!(out, Cow::Owned(_)));
}

#[test]
fn strip_unwraps_angle_block() {
    let out = strip_citation_markup("See <cite|path/to/file:1|> for details");
    assert_eq!(out, "See path/to/file:1 for details");
    assert!(matches!(out, Cow::Owned(_)));
}

#[test]
fn strip_without_markup_borrows_input() {
    let src = "no markup here";
    let out = strip_citation_markup(src);
    assert_eq!(out, src);
    match out {
        Cow::Borrowed(b) => assert!(std::ptr::eq(b, src)),
        Cow::Owned(_) => panic!("expected the input back"),
    }
}

#[test]
fn strip_edge_cases() {
    assert!(matches!(strip_citation_markup(""), Cow::Borrowed("")));
    // an opening without a closing is not markup
    let src = "a \u{e200}cite never closed";
    assert!(matches!(strip_citation_markup(src), Cow::Borrowed(_)));
    let src = "a <cite|never closed";
    assert!(matches!(strip_citation_markup(src), Cow::Borrowed(_)));
    // the sentinel must be followed by `cite` at once
    let src = "\u{e200} cite\u{e201}";
    assert!(matches!(strip_citation_markup(src), Cow::Borrowed(_)));
    // shortest match, across lines, several blocks
    assert_eq!(
        strip_citation_markup("x\u{e200}cite\na\u{e201}y\u{e201}z\u{e200}citeb\u{e201}"),
        "xy\u{e201}z"
    );
    assert_eq!(strip_citation_markup("<cite|a|>|> <cite|b\nc|>"), "a|> b\nc");
    assert_eq!(strip_citation_markup("<cite||>"), "");
    // both forms: private-use blocks go first
    assert_eq!(
        strip_citation_markup("A\u{e200}cite1\u{e201} <cite|p|>B"),
        "A pB"
    );
}

#[test]
fn strip_twice_equals_strip_once() {
    let inputs = [
        "Hello \u{e200}cite\u{e202}turn2search0\u{e201} world",
        "See <cite|web/src/foo.svelte:1|> for details",
        "no markup here",
        "",
        "A\u{e200}cite1\u{e201} <cite|p|>B <cite|q\n|>",
        "<cite|a|>|> <cite|b\nc|>",
    ];
    for src in inputs {
        let once = strip_citation_markup(src).into_owned();
        let twice = strip_citation_markup(&once).into_owned();
        assert_eq!(once, twice, "input {src:?}");
    }
}

#[test]
fn strip_can_piece_together_a_new_block() {
    let src = "\u{e200}\u{e200}cite x\u{e201}cite y\u{e201}";
    let once = strip_citation_markup(src).into_owned();
    assert_eq!(once, "\u{e200}cite y\u{e201}");
    assert_eq!(strip_citation_markup(&once), "");
}

#[test]
fn strip_agrees_with_regular_expressions() {
    let pua = regex_lite::Regex::new(r"\u{e200}cite[\s\S]*?\u{e201}").unwrap();
    let angle = regex_lite::Regex::new(r"<cite\|([\s\S]*?)\|>").unwrap();
    let inputs = [
        "Hello \u{e200}cite\u{e202}turn2search0\u{e201} world",
        "See <cite|web/src/foo.svelte:1|> for details",
        "x\u{e200}cite\na\u{e201}y\u{e201}z\u{e200}citeb\u{e201}",
        "\u{e200}\u{e200}cite x\u{e201}cite y\u{e201}",
        "<cite|<cite|a|>|> and <cite|b|",
        "\u{e200}<cite|cite|>\u{e201}",
        "<cite|\u{e200}cite|>\u{e201}",
        "\u{e200}cit\u{e201} <cite |x|>",
        "plain",
    ];
    for src in inputs {
        let removed = pua.replace_all(src, "");
        let expected = angle.replace_all(&removed, "$1").into_owned();
        assert_eq!(strip_citation_markup(src), expected, "input {src:?}");
    }
}

#[test]
fn error_or_panic_by_build() {
    assert_eq!(
        error_or_panic("m".to_string(), true, "1.0.0"),
        ErrorAction::Panic("m".to_string())
    );
    assert_eq!(
        error_or_panic("m".to_string(), false, "0.5.0-alpha.2"),
        ErrorAction::Panic("m".to_string())
    );
    assert_eq!(
        error_or_panic("m".to_string(), false, "1.0.0"),
        ErrorAction::Log("m".to_string())
    );
    assert_eq!(
        error_or_panic("m".to_string(), false, "0.0.0-alph"),
        ErrorAction::Log("m".to_string())
    );
}

#[test]
fn text_contains_cases() {
    assert!(text_contains("0.1.0-alpha", "alpha"));
    assert!(text_contains("abc", ""));
    assert!(!text_contains("", "a"));
    assert!(!text_contains("alph", "alpha"));
    assert!(text_contains("\u{e200}x", "x"));
}
