//! Tests of the RCON wire codec and the per-transaction checks.

use rcon_webhook::error::{Error, ErrorKind};
use rcon_webhook::rcon::{
    auth_error, check_response, deserialize, parse_size, serialize, SIZE_MAX, TYPE_AUTH,
    TYPE_COMMAND,
};

#[test]
fn serialize_exact_bytes() {
    let m = serialize(7, TYPE_COMMAND, "hi").unwrap();
    assert_eq!(m, vec![12, 0, 0, 0, 7, 0, 0, 0, 2, 0, 0, 0, b'h', b'i', 0, 0]);
}

#[test]
fn serialize_negative_id_bytes() {
    let m = serialize(-1, TYPE_AUTH, "").unwrap();
    assert_eq!(m, vec![10, 0, 0, 0, 255, 255, 255, 255, 3, 0, 0, 0, 0, 0]);
}

#[test]
fn round_trip_reproduces_message() {
    let m = serialize(123456, TYPE_COMMAND, "list players").unwrap();
    let (id, type_, body) = deserialize(&m).unwrap();
    assert_eq!(id, 123456);
    assert_eq!(type_, TYPE_COMMAND);
    assert_eq!(body, "list players");
}

#[test]
fn round_trip_negative_id_and_unicode_payload() {
    let m = serialize(-7, TYPE_AUTH, "gr\u{00fc}\u{00df} \u{2603}").unwrap();
    let (id, type_, body) = deserialize(&m).unwrap();
    assert_eq!(id, -7);
    assert_eq!(type_, TYPE_AUTH);
    assert_eq!(body, "gr\u{00fc}\u{00df} \u{2603}");
}

#[test]
fn round_trip_empty_payload() {
    let m = serialize(0, TYPE_COMMAND, "").unwrap();
    let (id, type_, body) = deserialize(&m).unwrap();
    assert_eq!(id, 0);
    assert_eq!(type_, TYPE_COMMAND);
    assert_eq!(body, "");
}

#[test]
fn deserialize_truncated_header() {
    let e = deserialize(&[1, 2, 3]).unwrap_err();
    assert_eq!(e.kind, ErrorKind::Protocol);
}

#[test]
fn deserialize_size_below_metadata() {
    let m = [4u8, 0, 0, 0, 1, 0, 0, 0, 2, 0, 0, 0];
    let e = deserialize(&m).unwrap_err();
    assert_eq!(e.kind, ErrorKind::Protocol);
}

#[test]
fn deserialize_negative_size() {
    let m = [255u8, 255, 255, 255, 1, 0, 0, 0, 2, 0, 0, 0];
    let e = deserialize(&m).unwrap_err();
    assert_eq!(e.kind, ErrorKind::Protocol);
}

#[test]
fn deserialize_truncated_body() {
    let m = [20u8, 0, 0, 0, 1, 0, 0, 0, 2, 0, 0, 0];
    let e = deserialize(&m).unwrap_err();
    assert_eq!(e.kind, ErrorKind::Protocol);
}

#[test]
fn deserialize_invalid_utf8_body() {
    let m = [11u8, 0, 0, 0, 1, 0, 0, 0, 0, 0, 0, 0, 0xff];
    let e = deserialize(&m).unwrap_err();
    assert_eq!(e.kind, ErrorKind::Decoding);
}

#[test]
fn parse_size_accepts_up_to_limit() {
    assert_eq!(parse_size(&10i32.to_le_bytes()).unwrap(), 10);
    assert_eq!(parse_size(&SIZE_MAX.to_le_bytes()).unwrap(), SIZE_MAX as usize);
}

#[test]
fn parse_size_rejects_oversized_announcement() {
    let e = parse_size(&5000i32.to_le_bytes()).unwrap_err();
    assert_eq!(e.kind, ErrorKind::Protocol);
}

#[test]
fn parse_size_rejects_negative_announcement() {
    let e = parse_size(&(-1i32).to_le_bytes()).unwrap_err();
    assert_eq!(e.kind, ErrorKind::Protocol);
}

#[test]
fn id_mismatch_rejected_even_when_well_formed() {
    let reply = serialize(5, 0, "fine").unwrap();
    let e = check_response(6, &reply).unwrap_err();
    assert_eq!(e.kind, ErrorKind::Protocol);
    assert_eq!(check_response(5, &reply).unwrap(), "fine");
}

#[test]
fn auth_sentinel_id_rejected() {
    let reply = serialize(-1, TYPE_COMMAND, "").unwrap();
    let e = check_response(3, &reply).unwrap_err();
    assert_eq!(e.kind, ErrorKind::Protocol);
}

#[test]
fn auth_error_carries_its_cause() {
    let cause = Error::new(ErrorKind::Protocol, "Invalid RCON response ID".to_string(), None);
    let e = auth_error(cause);
    assert_eq!(e.kind, ErrorKind::Authentication);
    assert_eq!(e.error, "RCON authentication failed");
    assert_eq!(e.source.as_deref(), Some("Invalid RCON response ID"));
}
