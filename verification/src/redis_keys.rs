//! Names of the keys under which the services share state.

use vstd::prelude::*;

verus! {

/// The key of a game server's metadata hash.
pub open spec fn server_key_text(id: Seq<char>) -> Seq<char> {
    "server:"@ + id
}

/// The key of a session token's hash.
pub open spec fn session_key_text(token: Seq<char>) -> Seq<char> {
    "session:"@ + token
}

pub open spec fn active_servers_key_text() -> Seq<char> {
    "servers:active"@
}

pub open spec fn standby_server_key_text() -> Seq<char> {
    "servers:standby"@
}

/// Key for a game server's metadata hash.
/// Fields: `address`, `quic_port`, `player_count`, `capacity`, `status`.
pub fn server_key(id: &str) -> (res: String)
    ensures
        res@ == server_key_text(id@),
{
    "server:".to_owned().concat(id)
}

/// Key for the set of active (ready) server IDs.
pub fn active_servers_key() -> (res: &'static str)
    ensures
        res@ == active_servers_key_text(),
{
    "servers:active"
}

/// Key for the string holding the current standby server ID.
pub fn standby_server_key() -> (res: &'static str)
    ensures
        res@ == standby_server_key_text(),
{
    "servers:standby"
}

/// Key for a session token hash.
/// Fields: `server_id`, `player_id`, `expires_at`.
pub fn session_key(token: &str) -> (res: String)
    ensures
        res@ == session_key_text(token@),
{
    "session:".to_owned().concat(token)
}

/// The keys, letter for letter.
pub proof fn law_keys(id: Seq<char>)
    ensures
        server_key_text(id) == "server:"@ + id,
        session_key_text(id) == "session:"@ + id,
        active_servers_key_text() == "servers:active"@,
        standby_server_key_text() == "servers:standby"@,
{
}

/// Different servers have different keys.
pub proof fn law_server_keys_distinct(a: Seq<char>, b: Seq<char>)
    ensures
        server_key_text(a) == server_key_text(b) ==> a == b,
{
    let p = "server:"@;
    assert((p + a).skip(p.len() as int) =~= a);
    assert((p + b).skip(p.len() as int) =~= b);
}

/// Different tokens have different keys.
pub proof fn law_session_keys_distinct(a: Seq<char>, b: Seq<char>)
    ensures
        session_key_text(a) == session_key_text(b) ==> a == b,
{
    let p = "session:"@;
    assert((p + a).skip(p.len() as int) =~= a);
    assert((p + b).skip(p.len() as int) =~= b);
}

/// No two kinds of key ever coincide, whatever the ids and tokens are.
pub proof fn law_key_kinds_disjoint(id: Seq<char>, token: Seq<char>)
    ensures
        server_key_text(id) != session_key_text(token),
        server_key_text(id) != active_servers_key_text(),
        server_key_text(id) != standby_server_key_text(),
        session_key_text(token) != active_servers_key_text(),
        session_key_text(token) != standby_server_key_text(),
        active_servers_key_text() != standby_server_key_text(),
{
    reveal_strlit("server:");
    reveal_strlit("session:");
    reveal_strlit("servers:active");
    reveal_strlit("servers:standby");
    assert(server_key_text(id)[2] == 'r');
    assert(server_key_text(id)[6] == ':');
    assert(session_key_text(token)[2] == 's');
    assert(active_servers_key_text()[2] == 'r');
    assert(active_servers_key_text()[6] == 's');
    assert(standby_server_key_text()[2] == 'r');
    assert(standby_server_key_text()[6] == 's');
    assert(active_servers_key_text().len() != standby_server_key_text().len());
}

} // verus!
