//! The binary form of the packets that open a connection.
//!
//! The format is that of the `bitcode` crate, which lays out a record as its
//! fields one after the other. A packet with one field is therefore written as
//! that field, and a two-way choice as a `Result`.

use vstd::prelude::*;

use crate::packets::{AuthAck, TokenInvalid, TokenValid, ValidateToken, ValidationResponse};

verus! {

/// The error of a failed decoding.
#[verifier::external_type_specification]
#[verifier::external_body]
pub struct ExBitcodeError(bitcode::Error);

// ---------------------------------------------------------------------------
// Names for what the codec returns
// ---------------------------------------------------------------------------
/// The bytes that `bitcode::encode` makes of a text.
pub uninterp spec fn text_bytes(text: Seq<char>) -> Seq<u8>;

/// The text that `bitcode::decode` reads out of bytes, if it reads one.
pub uninterp spec fn bytes_text(data: Seq<u8>) -> Option<Seq<char>>;

/// The bytes that `bitcode::encode` makes of a 32-bit number.
pub uninterp spec fn number_bytes(n: u32) -> Seq<u8>;

/// The 32-bit number that `bitcode::decode` reads out of bytes, if it reads one.
pub uninterp spec fn bytes_number(data: Seq<u8>) -> Option<u32>;

/// The bytes that `bitcode::encode` makes of a text and a number, or of nothing.
pub uninterp spec fn verdict_bytes(verdict: Option<(Seq<char>, u32)>) -> Seq<u8>;

/// The text and the number, or the nothing, that `bitcode::decode` reads out of
/// bytes, if it reads either.
pub uninterp spec fn bytes_verdict(data: Seq<u8>) -> Option<Option<(Seq<char>, u32)>>;

/// A text and a number, or nothing.
pub open spec fn verdict_view(verdict: Result<(String, u32), ()>) -> Option<(Seq<char>, u32)> {
    match verdict {
        Ok(v) => Some((v.0@, v.1)),
        Err(_) => None,
    }
}

// ---------------------------------------------------------------------------
// The codec
// ---------------------------------------------------------------------------
/// `bitcode::encode` on a text. The bytes depend on the text alone, and
/// decoding them as a text gives the text back.
#[verifier::external_body]
fn encode_text(text: &str) -> (res: Vec<u8>)
    ensures
        res@ == text_bytes(text@),
        bytes_text(res@) == Some(text@),
{
    bitcode::encode(text)
}

/// `bitcode::decode` to a text. What is read depends on the bytes alone.
#[verifier::external_body]
fn decode_text(data: &[u8]) -> (res: Result<String, bitcode::Error>)
    ensures
        (match res {
            Ok(text) => bytes_text(data@) == Some(text@),
            Err(_) => bytes_text(data@) is None,
        }),
{
    bitcode::decode(data)
}

/// `bitcode::encode` on a 32-bit number. The bytes depend on the number alone,
/// and decoding them as such a number gives the number back.
#[verifier::external_body]
fn encode_number(n: u32) -> (res: Vec<u8>)
    ensures
        res@ == number_bytes(n),
        bytes_number(res@) == Some(n),
{
    bitcode::encode(&n)
}

/// `bitcode::decode` to a 32-bit number. What is read depends on the bytes alone.
#[verifier::external_body]
fn decode_number(data: &[u8]) -> (res: Result<u32, bitcode::Error>)
    ensures
        (match res {
            Ok(n) => bytes_number(data@) == Some(n),
            Err(_) => bytes_number(data@) is None,
        }),
{
    bitcode::decode(data)
}

/// `bitcode::encode` on a text and a number, or on nothing. The bytes depend
/// on these alone, and decoding them as such gives the same back.
#[verifier::external_body]
fn encode_verdict(verdict: Result<(String, u32), ()>) -> (res: Vec<u8>)
    ensures
        res@ == verdict_bytes(verdict_view(verdict)),
        bytes_verdict(res@) == Some(verdict_view(verdict)),
{
    bitcode::encode(&verdict)
}

/// `bitcode::decode` to a text and a number, or to nothing. What is read depends
/// on the bytes alone.
#[verifier::external_body]
fn decode_verdict(data: &[u8]) -> (res: Result<Result<(String, u32), ()>, bitcode::Error>)
    ensures
        (match res {
            Ok(verdict) => bytes_verdict(data@) == Some(verdict_view(verdict)),
            Err(_) => bytes_verdict(data@) is None,
        }),
{
    bitcode::decode(data)
}

// ---------------------------------------------------------------------------
// Packets
// ---------------------------------------------------------------------------
/// The bytes are no packet of the expected kind.
#[derive(Debug, Clone, Copy, PartialEq, Eq, Structural)]
pub struct Malformed;

/// The bytes of a token packet.
pub fn encode_validate_token(packet: &ValidateToken) -> (res: Vec<u8>)
    ensures
        res@ == text_bytes(packet.token@),
        bytes_text(res@) == Some(packet.token@),
{
    encode_text(packet.token.as_str())
}

/// Reads a token packet.
pub fn decode_validate_token(data: &[u8]) -> (res: Result<ValidateToken, Malformed>)
    ensures
        (match res {
            Ok(packet) => bytes_text(data@) == Some(packet.token@),
            Err(_) => bytes_text(data@) is None,
        }),
{
    match decode_text(data) {
        Ok(token) => Ok(ValidateToken { token }),
        Err(_) => Err(Malformed),
    }
}

/// The bytes of an acknowledgement.
pub fn encode_auth_ack(packet: &AuthAck) -> (res: Vec<u8>)
    ensures
        res@ == number_bytes(packet.entity_id),
        bytes_number(res@) == Some(packet.entity_id),
{
    encode_number(packet.entity_id)
}

/// Reads an acknowledgement.
pub fn decode_auth_ack(data: &[u8]) -> (res: Result<AuthAck, Malformed>)
    ensures
        (match res {
            Ok(packet) => bytes_number(data@) == Some(packet.entity_id),
            Err(_) => bytes_number(data@) is None,
        }),
{
    match decode_number(data) {
        Ok(entity_id) => Ok(AuthAck { entity_id }),
        Err(_) => Err(Malformed),
    }
}

/// The bytes of a validation response.
pub fn encode_validation_response(response: &ValidationResponse) -> (res: Vec<u8>)
    ensures
        res@ == verdict_bytes(response@),
        bytes_verdict(res@) == Some(response@),
{
    match response {
        ValidationResponse::Valid(v) => encode_verdict(Ok((v.server_id.clone(), v.player_id))),
        ValidationResponse::Invalid(_) => encode_verdict(Err(())),
    }
}

/// Reads a validation response.
pub fn decode_validation_response(data: &[u8]) -> (res: Result<ValidationResponse, Malformed>)
    ensures
        (match res {
            Ok(response) => bytes_verdict(data@) == Some(response@),
            Err(_) => bytes_verdict(data@) is None,
        }),
{
    match decode_verdict(data) {
        Ok(Ok((server_id, player_id))) => Ok(
            ValidationResponse::Valid(TokenValid { server_id, player_id }),
        ),
        Ok(Err(())) => Ok(ValidationResponse::Invalid(TokenInvalid)),
        Err(_) => Err(Malformed),
    }
}

} // verus!
