//! The game server: one shard.

pub mod net;
pub mod simulation;

use vstd::prelude::*;

use crate::constants::DEFAULT_CAPACITY;
use crate::fields::field;
use crate::ident::{is_uuid_text, new_uuid};
use crate::text::{
    decimal, law_decimal_roundtrip, number_or, opt_text, or_default, text_or, u16_or, u32_or,
};

verus! {

/// Env-driven configuration read at startup.
#[derive(Debug, Clone, PartialEq, Eq)]
pub struct ServerConfig {
    pub server_id: String,
    /// Externally-reachable hostname/IP registered for clients to connect to.
    pub public_addr: String,
    pub quic_port: u16,
    pub max_players: u32,
    pub redis_url: String,
    pub gatekeeper_addr: String,
}

/// The variables that the configuration comes from; `None` where one is not
/// set.
#[derive(Debug, Clone, PartialEq, Eq)]
pub struct ServerVars {
    pub server_id: Option<String>,
    pub public_addr: Option<String>,
    pub quic_port: Option<String>,
    pub max_players: Option<String>,
    pub redis_url: Option<String>,
    pub gatekeeper_addr: Option<String>,
}

/// Whether variables are those that an environment sets.
pub open spec fn are_set_by(vars: ServerVars, env: Map<Seq<char>, Seq<char>>) -> bool {
    &&& opt_text(vars.server_id) == field(env, "SERVER_ID"@)
    &&& opt_text(vars.public_addr) == field(env, "PUBLIC_ADDR"@)
    &&& opt_text(vars.quic_port) == field(env, "QUIC_PORT"@)
    &&& opt_text(vars.max_players) == field(env, "MAX_PLAYERS"@)
    &&& opt_text(vars.redis_url) == field(env, "REDIS_URL"@)
    &&& opt_text(vars.gatekeeper_addr) == field(env, "GATEKEEPER_ADDR"@)
}

/// Whether a configuration is one that variables lead to.
pub open spec fn is_configured(cfg: ServerConfig, vars: ServerVars) -> bool {
    &&& match vars.server_id {
        Some(id) => cfg.server_id@ == id@,
        None => is_uuid_text(cfg.server_id@),
    }
    &&& cfg.public_addr@ == text_or(vars.public_addr, "localhost"@)
    &&& cfg.quic_port == number_or(vars.quic_port, u16::MAX as int, 7000)
    &&& cfg.max_players == number_or(vars.max_players, u32::MAX as int, DEFAULT_CAPACITY as int)
    &&& cfg.redis_url@ == text_or(vars.redis_url, "redis://redis:6379"@)
    &&& cfg.gatekeeper_addr@ == text_or(vars.gatekeeper_addr, "gatekeeper:3001"@)
}

/// A server runs as its environment says: with the id, address, port, capacity
/// and services that are set there, where the numbers are in range.
pub proof fn law_environment_is_obeyed(
    env: Map<Seq<char>, Seq<char>>,
    vars: ServerVars,
    cfg: ServerConfig,
    server_id: Seq<char>,
    public_addr: Seq<char>,
    quic_port: nat,
    max_players: nat,
    redis_url: Seq<char>,
    gatekeeper_addr: Seq<char>,
)
    requires
        are_set_by(vars, env),
        is_configured(cfg, vars),
        field(env, "SERVER_ID"@) == Some(server_id),
        field(env, "PUBLIC_ADDR"@) == Some(public_addr),
        field(env, "QUIC_PORT"@) == Some(decimal(quic_port)),
        field(env, "MAX_PLAYERS"@) == Some(decimal(max_players)),
        field(env, "REDIS_URL"@) == Some(redis_url),
        field(env, "GATEKEEPER_ADDR"@) == Some(gatekeeper_addr),
        quic_port <= u16::MAX,
        max_players <= u32::MAX,
    ensures
        cfg.server_id@ == server_id,
        cfg.public_addr@ == public_addr,
        cfg.quic_port == quic_port,
        cfg.max_players == max_players,
        cfg.redis_url@ == redis_url,
        cfg.gatekeeper_addr@ == gatekeeper_addr,
{
    law_decimal_roundtrip(quic_port, u16::MAX as int);
    law_decimal_roundtrip(max_players, u32::MAX as int);
}

/// What tells the names of a server's variables apart: lengths and first
/// characters.
pub(crate) proof fn lemma_variable_names()
    ensures
        "SERVER_ID"@.len() == 9 && "SERVER_ID"@[0] == 'S',
        "QUIC_PORT"@.len() == 9 && "QUIC_PORT"@[0] == 'Q',
        "REDIS_URL"@.len() == 9 && "REDIS_URL"@[0] == 'R',
        "PUBLIC_ADDR"@.len() == 11 && "PUBLIC_ADDR"@[0] == 'P',
        "MAX_PLAYERS"@.len() == 11 && "MAX_PLAYERS"@[0] == 'M',
        "GATEKEEPER_ADDR"@.len() == 15,
{
    reveal_strlit("SERVER_ID");
    reveal_strlit("QUIC_PORT");
    reveal_strlit("REDIS_URL");
    reveal_strlit("PUBLIC_ADDR");
    reveal_strlit("MAX_PLAYERS");
    reveal_strlit("GATEKEEPER_ADDR");
}

/// Without an environment a server runs under a fresh id, for players on the
/// same machine: at `localhost` and port 7000, with room for 128.
pub proof fn law_empty_environment(vars: ServerVars, cfg: ServerConfig)
    requires
        are_set_by(vars, Map::empty()),
        is_configured(cfg, vars),
    ensures
        is_uuid_text(cfg.server_id@),
        cfg.public_addr@ == "localhost"@,
        cfg.quic_port == 7000,
        cfg.max_players == 128,
        cfg.redis_url@ == "redis://redis:6379"@,
        cfg.gatekeeper_addr@ == "gatekeeper:3001"@,
{
}

impl ServerConfig {
    /// Reads the configuration, with defaults for what is not set and a fresh
    /// id for a server that was given none.
    pub fn from_env(vars: ServerVars) -> (res: ServerConfig)
        ensures
            is_configured(res, vars),
            (match vars.server_id {
                Some(id) => res.server_id@ == id@,
                None => is_uuid_text(res.server_id@),
            }),
            res.public_addr@ == text_or(vars.public_addr, "localhost"@),
            res.quic_port == number_or(vars.quic_port, u16::MAX as int, 7000),
            res.max_players == number_or(
                vars.max_players,
                u32::MAX as int,
                DEFAULT_CAPACITY as int,
            ),
            res.redis_url@ == text_or(vars.redis_url, "redis://redis:6379"@),
            res.gatekeeper_addr@ == text_or(vars.gatekeeper_addr, "gatekeeper:3001"@),
    {
        let server_id = match vars.server_id {
            Some(id) => id,
            None => new_uuid(),
        };
        ServerConfig {
            server_id,
            public_addr: or_default(vars.public_addr, "localhost"),
            quic_port: u16_or(vars.quic_port, 7000),
            max_players: u32_or(vars.max_players, DEFAULT_CAPACITY),
            redis_url: or_default(vars.redis_url, "redis://redis:6379"),
            gatekeeper_addr: or_default(vars.gatekeeper_addr, "gatekeeper:3001"),
        }
    }
}

} // verus!
