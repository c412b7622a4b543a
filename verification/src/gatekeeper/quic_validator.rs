//! The validator: answers game servers that ask about a token.

use vstd::prelude::*;

use crate::command::{CommandView, RedisCommand};
use crate::fields::Fields;
use crate::gatekeeper::redis_ops::{
    law_session_roundtrip, session, session_commands, session_query, validate_token,
};
use crate::packets::{TokenInvalid, TokenValid, ValidationResponse};
use crate::redis_keys::session_key_text;
use crate::store::Store;
use crate::wire::{
    bytes_text, bytes_verdict, decode_validate_token, encode_validation_response, verdict_bytes,
    Malformed,
};

verus! {

/// The address that the validator listens on.
pub const LISTEN_ADDR: &'static str = "0.0.0.0:3001";

/// The largest request, in bytes: tokens are small strings.
pub const MAX_REQUEST_BYTES: usize = 4096;

/// The answer about a session.
pub open spec fn verdict(found: Option<(Seq<char>, int)>) -> Option<(Seq<char>, u32)> {
    match found {
        Some((server_id, player_id)) => Some((server_id, player_id as u32)),
        None => None,
    }
}

/// Takes in a request: the command that looks its token up.
pub fn handle_stream(data: &[u8]) -> (res: Result<RedisCommand, Malformed>)
    ensures
        (match res {
            Ok(query) => bytes_text(data@) is Some && query@ == (CommandView::HGetAll {
                key: session_key_text(bytes_text(data@)->Some_0),
            }),
            Err(_) => bytes_text(data@) is None,
        }),
{
    match decode_validate_token(data) {
        Ok(request) => Ok(session_query(request.token.as_str())),
        Err(e) => Err(e),
    }
}

/// The answer, from the fields of the token's session.
pub fn validation_response(fields: &Fields) -> (res: ValidationResponse)
    ensures
        res@ == verdict(session(fields@)),
{
    match validate_token(fields) {
        Some((server_id, player_id)) => ValidationResponse::Valid(
            TokenValid { server_id, player_id },
        ),
        None => ValidationResponse::Invalid(TokenInvalid),
    }
}

/// The bytes of the answer.
pub fn answer_bytes(fields: &Fields) -> (res: Vec<u8>)
    ensures
        res@ == verdict_bytes(verdict(session(fields@))),
        bytes_verdict(res@) == Some(verdict(session(fields@))),
{
    encode_validation_response(&validation_response(fields))
}

/// How a connection stopped giving streams.
#[derive(Debug, Clone, Copy, PartialEq, Eq, Structural)]
pub enum AcceptError {
    ApplicationClosed,
    LocallyClosed,
    Other,
}

/// Whether a connection ended as it should, once it gives no more streams: one
/// side closed it.
pub fn ended_cleanly(error: AcceptError) -> (res: bool)
    ensures
        res == (error == AcceptError::ApplicationClosed || error == AcceptError::LocallyClosed),
{
    match error {
        AcceptError::ApplicationClosed => true,
        AcceptError::LocallyClosed => true,
        AcceptError::Other => false,
    }
}

/// A token that was handed out is confirmed: once its session is stored, and
/// until it expires, a request that carries the token is looked up where the
/// session is, and the answer names its server and its player.
pub proof fn law_stored_token_is_confirmed(
    store: Store,
    data: Seq<u8>,
    token: Seq<char>,
    server_id: Seq<char>,
    player_id: u32,
    expires_at: nat,
)
    requires
        bytes_text(data) == Some(token),
    ensures
        ({
            let after = store.after_all(
                session_commands(token, server_id, player_id as nat, expires_at),
            );
            let key = session_key_text(bytes_text(data)->Some_0);
            verdict(session(after.hash(key))) == Some((server_id, player_id))
        }),
{
    law_session_roundtrip(store, token, server_id, player_id as nat, expires_at);
}

/// The answer about a session names the session's server and player; without a
/// session the token is not valid.
pub proof fn law_verdict(server_id: Seq<char>, player_id: u32)
    ensures
        verdict(Some((server_id, player_id as int))) == Some((server_id, player_id)),
        verdict(None) is None,
{
}

/// A token without a session is refused, whatever else the store holds.
pub proof fn law_unknown_token_is_refused(store: Store, token: Seq<char>)
    requires
        !store.hash(session_key_text(token)).contains_key("server_id"@),
    ensures
        verdict(session(store.hash(session_key_text(token)))) is None,
{
}

} // verus!
