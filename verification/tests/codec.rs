use stomata::codec::ack_message;
use stomata::codec::conf_message;
use stomata::codec::escape_json;
use stomata::codec::parse_handshake;
use stomata::codec::state_message;
use stomata::codec::usize_to_decimal;

#[test]
fn handshake_plain() {
    let h = parse_handshake("{\"id\": 7, \"token\": \"abc\"}").unwrap();
    assert_eq!(h.id, 7);
    assert_eq!(h.token, "abc");
}

#[test]
fn handshake_compact() {
    let h = parse_handshake("{\"id\":42,\"token\":\"deadbeef\"}").unwrap();
    assert_eq!(h.id, 42);
    assert_eq!(h.token, "deadbeef");
}

#[test]
fn handshake_reversed_order() {
    let h = parse_handshake("{\"token\": \"t0\", \"id\": 3}").unwrap();
    assert_eq!(h.id, 3);
    assert_eq!(h.token, "t0");
}

#[test]
fn handshake_much_whitespace() {
    let h = parse_handshake("  {\n\t\"id\" : 10 ,\r\n \"token\" : \"x\" }  ").unwrap();
    assert_eq!(h.id, 10);
    assert_eq!(h.token, "x");
}

#[test]
fn handshake_escapes_in_token() {
    let h = parse_handshake("{\"id\":1,\"token\":\"a\\\"b\\\\c\\/d\\ne\\tf\"}").unwrap();
    assert_eq!(h.token, "a\"b\\c/d\ne\tf");
}

#[test]
fn handshake_empty_token() {
    let h = parse_handshake("{\"id\":0,\"token\":\"\"}").unwrap();
    assert_eq!(h.id, 0);
    assert_eq!(h.token, "");
}

#[test]
fn handshake_missing_token() {
    assert!(parse_handshake("{\"id\": 7}").is_none());
}

#[test]
fn handshake_missing_id() {
    assert!(parse_handshake("{\"token\": \"abc\"}").is_none());
}

#[test]
fn handshake_empty_object() {
    assert!(parse_handshake("{}").is_none());
}

#[test]
fn handshake_unknown_key() {
    assert!(parse_handshake("{\"id\": 7, \"nonce\": \"abc\"}").is_none());
}

#[test]
fn handshake_trailing_garbage() {
    assert!(parse_handshake("{\"id\": 7, \"token\": \"abc\"} x").is_none());
}

#[test]
fn handshake_non_numeric_id() {
    assert!(parse_handshake("{\"id\": \"7\", \"token\": \"abc\"}").is_none());
}

#[test]
fn handshake_id_overflow() {
    // one more than usize::MAX on a 64-bit machine
    assert!(parse_handshake("{\"id\": 18446744073709551616, \"token\": \"a\"}").is_none());
}

#[test]
fn handshake_id_just_fits() {
    let h = parse_handshake("{\"id\": 18446744073709551615, \"token\": \"a\"}").unwrap();
    assert_eq!(h.id, usize::MAX);
}

#[test]
fn handshake_unterminated_string() {
    assert!(parse_handshake("{\"id\": 7, \"token\": \"abc").is_none());
}

#[test]
fn handshake_control_char_in_token() {
    assert!(parse_handshake("{\"id\": 7, \"token\": \"a\nb\"}").is_none());
}

#[test]
fn handshake_bad_escape() {
    assert!(parse_handshake("{\"id\": 7, \"token\": \"a\\qb\"}").is_none());
}

#[test]
fn handshake_not_an_object() {
    assert!(parse_handshake("[7, \"abc\"]").is_none());
    assert!(parse_handshake("").is_none());
    assert!(parse_handshake("   ").is_none());
}

#[test]
fn state_message_plain() {
    assert_eq!(state_message("on"), "{\"state\":\"on\"}");
    assert_eq!(state_message(""), "{\"state\":\"\"}");
}

#[test]
fn conf_message_escapes_quotes() {
    assert_eq!(conf_message("{\"x\":1}"), "{\"conf\":\"{\\\"x\\\":1}\"}");
}

#[test]
fn state_message_escapes_backslash_and_controls() {
    assert_eq!(state_message("a\"b\\c"), "{\"state\":\"a\\\"b\\\\c\"}");
    assert_eq!(state_message("a\nb\tc\rd"), "{\"state\":\"a\\nb\\tc\\rd\"}");
    assert_eq!(state_message("\u{1}"), "{\"state\":\"\\u0001\"}");
    assert_eq!(state_message("\u{1f}"), "{\"state\":\"\\u001f\"}");
}

#[test]
fn escape_json_identity_on_plain_text() {
    assert_eq!(escape_json("hello world"), "hello world");
    assert_eq!(escape_json("ünïcødé"), "ünïcødé");
}

#[test]
fn ack_is_empty_object() {
    assert_eq!(ack_message(), "{}");
}

#[test]
fn decimal_rendering() {
    assert_eq!(usize_to_decimal(0), "0");
    assert_eq!(usize_to_decimal(7), "7");
    assert_eq!(usize_to_decimal(42), "42");
    assert_eq!(usize_to_decimal(600), "600");
    assert_eq!(usize_to_decimal(usize::MAX), "18446744073709551615");
}
