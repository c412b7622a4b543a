//! Control logic of an extraction MMO: shard discovery, joining, scaling,
//! health tracking, spawning of game servers and the game server's own
//! connection and simulation bookkeeping, as functions over plain values.

pub mod certs;
pub mod command;
pub mod constants;
pub mod fields;
pub mod game;
pub mod gatekeeper;
pub mod ident;
pub mod orchestrator;
pub mod packets;
pub mod redis_keys;
pub mod scripts;
pub mod store;
pub mod stress;
pub mod text;
pub mod wire;
