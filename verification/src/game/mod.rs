//! The game itself: the shard that players connect to, and their client.

pub mod client;
pub mod server;
