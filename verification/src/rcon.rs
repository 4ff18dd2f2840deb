//! The RCON wire codec and the per-transaction checks.
//!
//! An RCON message is laid out as a 4-byte little-endian size field
//! (counting every byte after the size field itself), a 4-byte
//! little-endian signed transaction id, a 4-byte little-endian signed
//! message type, the UTF-8 payload, and two null terminator bytes. The
//! functions here serialize a request, vet the announced size of a
//! response before its body is read, and parse and validate a complete
//! response; the transport that carries the bytes lives outside this
//! crate.

use crate::error::{Error, ErrorKind};
use vstd::bytes::{
    lemma_auto_spec_u32_to_from_le_bytes, spec_u32_from_le_bytes, spec_u32_to_le_bytes,
    u32_from_le_bytes, u32_to_le_bytes,
};
use vstd::prelude::*;
use vstd::slice::slice_subrange;
use vstd::utf8::{decode_utf8, encode_utf8, encode_utf8_decode_utf8, encode_utf8_valid_utf8,
    valid_utf8};

verus! {

/// The metadata size within an RCON message, excluding the size field:
/// a 4-byte id, a 4-byte type and two null terminator bytes
pub const META_SIZE: usize = 10;

/// The maximum size of a single RCON message; a response announcing more
/// is rejected rather than reassembled from fragments
pub const SIZE_MAX: i32 = 4110;

/// The timeout, in seconds, for each connect, read and write on an RCON
/// connection
pub const TIMEOUT_SECS: u64 = 10;

/// The message type of an authentication transaction
pub const TYPE_AUTH: i32 = 3;

/// The message type of a command transaction
pub const TYPE_COMMAND: i32 = 2;

/// The unsigned 32-bit value with the same bit pattern as `x`
pub open spec fn u32_of_i32(x: i32) -> u32 {
    if x >= 0 {
        x as u32
    } else {
        ((x as int) + 0x1_0000_0000) as u32
    }
}

/// The signed 32-bit value with the same bit pattern as `u`
pub open spec fn i32_of_u32(u: u32) -> i32 {
    if u < 0x8000_0000 {
        u as i32
    } else {
        ((u as int) - 0x1_0000_0000) as i32
    }
}

/// The two casts between equal bit patterns invert one another
pub proof fn lemma_i32_u32_inverse(x: i32)
    ensures
        i32_of_u32(u32_of_i32(x)) == x,
{
}

/// The four little-endian bytes of a signed 32-bit value
pub open spec fn le_bytes_of_i32(x: i32) -> Seq<u8> {
    spec_u32_to_le_bytes(u32_of_i32(x))
}

/// The signed 32-bit value read from four little-endian bytes
pub open spec fn i32_of_le_bytes(s: Seq<u8>) -> i32
    recommends
        s.len() == 4,
{
    i32_of_u32(spec_u32_from_le_bytes(s))
}

/// Reading back the four little-endian bytes of a value yields the value
pub proof fn lemma_le_bytes_of_i32_inverse(x: i32)
    ensures
        le_bytes_of_i32(x).len() == 4,
        i32_of_le_bytes(le_bytes_of_i32(x)) == x,
{
    lemma_auto_spec_u32_to_from_le_bytes();
    assert(spec_u32_to_le_bytes(u32_of_i32(x)).len() == 4);
    assert(spec_u32_from_le_bytes(spec_u32_to_le_bytes(u32_of_i32(x))) == u32_of_i32(x));
    lemma_i32_u32_inverse(x);
}

fn i32_to_u32(x: i32) -> (r: u32)
    ensures
        r == u32_of_i32(x),
{
    if x >= 0 {
        x as u32
    } else {
        ((x as i64) + 0x1_0000_0000i64) as u32
    }
}

fn u32_to_i32(u: u32) -> (r: i32)
    ensures
        r == i32_of_u32(u),
{
    if u < 0x8000_0000 {
        u as i32
    } else {
        ((u as i64) - 0x1_0000_0000i64) as i32
    }
}

/// Appends the four little-endian bytes of `x` to `message`
fn encode_i32_le(message: &mut Vec<u8>, x: i32)
    ensures
        final(message)@ == old(message)@ + le_bytes_of_i32(x),
{
    let mut bytes = u32_to_le_bytes(i32_to_u32(x));
    message.append(&mut bytes);
}

/// Whether a payload of these UTF-8 bytes fits an RCON frame: the size
/// field must be representable as a signed 32-bit value
pub open spec fn encodable(body: Seq<u8>) -> bool {
    body.len() + META_SIZE <= i32::MAX
}

/// The serialized RCON message for a request: size, id, type, the payload
/// bytes, and two null terminator bytes
pub open spec fn spec_frame(id: i32, type_: i32, body: Seq<u8>) -> Seq<u8>
    recommends
        encodable(body),
{
    le_bytes_of_i32(((body.len() + META_SIZE) as int) as i32) + le_bytes_of_i32(id)
        + le_bytes_of_i32(type_) + body + seq![0u8, 0u8]
}

/// Serializes a message. Fails exactly when the payload is too large for
/// its encoded size to fit the signed 32-bit size field.
pub fn serialize(id: i32, type_: i32, payload: &str) -> (r: Result<Vec<u8>, Error>)
    ensures
        r is Ok <==> encodable(encode_utf8(payload@)),
        r matches Ok(m) ==> m@ == spec_frame(id, type_, encode_utf8(payload@)),
        r matches Err(e) ==> e.kind == ErrorKind::Encoding,
{
    let bytes: &[u8] = payload.as_bytes();
    let n: usize = bytes.len();
    if n > 0x7fff_ffff - META_SIZE {
        return Err(
            Error::new(ErrorKind::Encoding, "RCON payload is too large".to_owned(), None),
        );
    }
    let size: i32 = (n + META_SIZE) as i32;
    let mut message: Vec<u8> = Vec::new();
    encode_i32_le(&mut message, size);
    encode_i32_le(&mut message, id);
    encode_i32_le(&mut message, type_);
    message.extend_from_slice(bytes);
    message.push(0);
    message.push(0);
    proof {
        assert(message@ =~= spec_frame(id, type_, encode_utf8(payload@)));
    }
    Ok(message)
}

/// The parse of a raw RCON message: the id and type read from the header
/// and the body bytes, whose count is the announced size less the metadata
/// size. `None` where the message is too short for a header, announces a
/// size below the metadata size, or is shorter than the announced body.
pub open spec fn spec_parse(msg: Seq<u8>) -> Option<(i32, i32, Seq<u8>)> {
    if msg.len() < 12 {
        None
    } else {
        let size = i32_of_le_bytes(msg.subrange(0, 4));
        let id = i32_of_le_bytes(msg.subrange(4, 8));
        let type_ = i32_of_le_bytes(msg.subrange(8, 12));
        if size < META_SIZE {
            None
        } else if msg.len() < 12 + (size - META_SIZE) {
            None
        } else {
            Some((id, type_, msg.subrange(12, 12 + (size - META_SIZE))))
        }
    }
}

/// Relies on std's `str::from_utf8`: it succeeds exactly on valid UTF-8,
/// and the text it returns views the given bytes, so it is their decoding.
#[verifier::external_body]
fn decode_text(bytes: &[u8]) -> (r: Option<String>)
    ensures
        r is Some <==> valid_utf8(bytes@),
        r matches Some(s) ==> s@ == decode_utf8(bytes@),
{
    match core::str::from_utf8(bytes) {
        Ok(text) => Some(text.to_owned()),
        Err(_) => None,
    }
}

/// Deserializes a message into its id, type and decoded body text. A
/// message that does not parse is a protocol error; a body that is not
/// valid UTF-8 is a decoding error.
pub fn deserialize(message: &[u8]) -> (r: Result<(i32, i32, String), Error>)
    ensures
        spec_parse(message@) is None ==> (r matches Err(e) && e.kind == ErrorKind::Protocol),
        spec_parse(message@) matches Some((id, type_, body)) ==> {
            &&& valid_utf8(body) ==> (r matches Ok(t) && t.0 == id && t.1 == type_ && t.2@
                == decode_utf8(body))
            &&& !valid_utf8(body) ==> (r matches Err(e) && e.kind == ErrorKind::Decoding)
        },
{
    let len: usize = message.len();
    if len < 12 {
        return Err(
            Error::new(ErrorKind::Protocol, "Truncated RCON message header".to_owned(), None),
        );
    }
    let size: i32 = u32_to_i32(u32_from_le_bytes(slice_subrange(message, 0, 4)));
    let id: i32 = u32_to_i32(u32_from_le_bytes(slice_subrange(message, 4, 8)));
    let type_: i32 = u32_to_i32(u32_from_le_bytes(slice_subrange(message, 8, 12)));
    if size < 10 {
        return Err(
            Error::new(ErrorKind::Protocol, "Invalid size field in RCON message".to_owned(), None),
        );
    }
    let body_len: usize = (size as usize) - META_SIZE;
    if len - 12 < body_len {
        return Err(
            Error::new(ErrorKind::Protocol, "Truncated RCON message body".to_owned(), None),
        );
    }
    let bytes: &[u8] = slice_subrange(message, 12, 12 + body_len);
    match decode_text(bytes) {
        Some(body) => Ok((id, type_, body)),
        None => Err(Error::new(ErrorKind::Decoding, "UTF-8 decoding error".to_owned(), None)),
    }
}

/// Checks the 4-byte size field read ahead of an RCON response and returns
/// how many further bytes make up the message. An announced size that is
/// negative or beyond `SIZE_MAX` is rejected before any body byte is read.
pub fn parse_size(size_bytes: &[u8]) -> (r: Result<usize, Error>)
    requires
        size_bytes@.len() == 4,
    ensures
        r is Ok <==> 0 <= i32_of_le_bytes(size_bytes@) <= SIZE_MAX,
        r matches Ok(n) ==> n == i32_of_le_bytes(size_bytes@),
        r matches Err(e) ==> e.kind == ErrorKind::Protocol,
{
    let size: i32 = u32_to_i32(u32_from_le_bytes(size_bytes));
    if size < 0 || size > SIZE_MAX {
        return Err(
            Error::new(
                ErrorKind::Protocol,
                "Announced RCON response is too large".to_owned(),
                None,
            ),
        );
    }
    Ok(size as usize)
}

/// Validates a complete RCON response against the id of the request it
/// answers. A response whose id differs from the request's id is rejected
/// even if otherwise well-formed; this guards against a stale or
/// misattributed exchange, and covers the sentinel id a server sends on a
/// failed authentication.
pub fn check_response(expected_id: i32, message: &[u8]) -> (r: Result<String, Error>)
    ensures
        spec_parse(message@) is None ==> (r matches Err(e) && e.kind == ErrorKind::Protocol),
        spec_parse(message@) matches Some((id, type_, body)) ==> {
            &&& !valid_utf8(body) ==> (r matches Err(e) && e.kind == ErrorKind::Decoding)
            &&& (valid_utf8(body) && id != expected_id) ==> (r matches Err(e) && e.kind
                == ErrorKind::Protocol)
            &&& (valid_utf8(body) && id == expected_id) ==> (r matches Ok(s) && s@
                == decode_utf8(body))
        },
{
    let parsed = match deserialize(message) {
        Ok(t) => t,
        Err(e) => {
            return Err(e);
        },
    };
    let (id, _type_, payload) = parsed;
    if id != expected_id {
        return Err(Error::new(ErrorKind::Protocol, "Invalid RCON response ID".to_owned(), None));
    }
    Ok(payload)
}

/// Classifies a failure of the authentication transaction: whatever
/// transaction-level error occurred while authenticating, the connection
/// is unusable and the failure surfaces as an authentication error
/// carrying the underlying description as its cause.
pub fn auth_error(cause: Error) -> (r: Error)
    ensures
        r.kind == ErrorKind::Authentication,
        r.error@ == "RCON authentication failed"@,
        r.source == Some(cause.error),
{
    Error::new(
        ErrorKind::Authentication,
        "RCON authentication failed".to_owned(),
        Some(cause.error),
    )
}

/// Round trip: parsing the serialized bytes of a message reproduces the
/// original id, type and payload exactly, for every payload whose encoding
/// fits the signed 32-bit size field.
pub proof fn lemma_round_trip(id: i32, type_: i32, payload: Seq<char>)
    requires
        encodable(encode_utf8(payload)),
    ensures
        spec_parse(spec_frame(id, type_, encode_utf8(payload))) matches Some((rid, rtype, rbody))
            && rid == id && rtype == type_ && rbody == encode_utf8(payload),
        valid_utf8(encode_utf8(payload)),
        decode_utf8(encode_utf8(payload)) == payload,
{
    let body = encode_utf8(payload);
    let size: i32 = ((body.len() + META_SIZE) as int) as i32;
    let msg = spec_frame(id, type_, body);
    lemma_le_bytes_of_i32_inverse(size);
    lemma_le_bytes_of_i32_inverse(id);
    lemma_le_bytes_of_i32_inverse(type_);
    assert(msg.subrange(0, 4) =~= le_bytes_of_i32(size));
    assert(msg.subrange(4, 8) =~= le_bytes_of_i32(id));
    assert(msg.subrange(8, 12) =~= le_bytes_of_i32(type_));
    assert(msg.subrange(12, 12 + (size - META_SIZE)) =~= body);
    encode_utf8_valid_utf8(payload);
    encode_utf8_decode_utf8(payload);
}

} // verus!
