//! The game client, apart from its window.

pub mod input;
pub mod interpolation;
pub mod login;

use vstd::prelude::*;

verus! {

/// The game session received after a successful `/join`.
#[derive(Debug, Clone, PartialEq, Eq)]
pub struct GameSession {
    pub token: String,
    pub server_addr: String,
    pub quic_port: u16,
}

/// Top-level app states.
#[derive(Debug, Clone, Copy, PartialEq, Eq, Hash, Structural)]
pub enum GameState {
    Login,
    Connecting,
    InGame,
}

impl Default for GameState {
    fn default() -> (res: GameState)
        ensures
            res == GameState::Login,
    {
        GameState::Login
    }
}

} // verus!
