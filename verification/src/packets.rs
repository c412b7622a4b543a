//! Packets exchanged between client, game server and gatekeeper.

use vstd::prelude::*;

verus! {

/// A single-precision number, by its IEEE 754 bit pattern. Coordinates and
/// movement axes pass through the services in this form; they are compared
/// here, but nothing computes with them.
#[derive(Debug, Clone, Copy, PartialEq, Eq, Structural)]
pub struct Single {
    pub bits: u32,
}

/// The bit pattern of 0.
pub const SINGLE_ZERO: u32 = 0x0000_0000;

/// The bit pattern of 1.
pub const SINGLE_ONE: u32 = 0x3f80_0000;

/// The bit pattern of -1.
pub const SINGLE_MINUS_ONE: u32 = 0xbf80_0000;

/// The number that stands for -1, 0 or 1.
pub open spec fn unit_single(sign: int) -> Single {
    Single {
        bits: if sign < 0 {
            SINGLE_MINUS_ONE
        } else if sign > 0 {
            SINGLE_ONE
        } else {
            SINGLE_ZERO
        },
    }
}

impl Single {
    /// -1, 0 or 1, by the sign of the argument.
    pub fn unit(sign: i8) -> (res: Single)
        ensures
            res == unit_single(sign as int),
    {
        if sign < 0 {
            Single { bits: SINGLE_MINUS_ONE }
        } else if sign > 0 {
            Single { bits: SINGLE_ONE }
        } else {
            Single { bits: SINGLE_ZERO }
        }
    }
}

/// A point or a direction in the world.
#[derive(Debug, Clone, Copy, PartialEq, Eq, Structural)]
pub struct Point {
    pub x: Single,
    pub y: Single,
}

/// The origin of the world; as a direction, none.
pub open spec fn origin() -> Point {
    Point { x: unit_single(0), y: unit_single(0) }
}

impl Point {
    /// The origin of the world.
    pub fn zero() -> (res: Point)
        ensures
            res == origin(),
    {
        Point { x: Single::unit(0), y: Single::unit(0) }
    }
}

/// The patterns of -1, 0 and 1, and of the origin.
pub proof fn law_unit_patterns(sign: int)
    ensures
        sign < 0 ==> unit_single(sign).bits == 0xbf80_0000,
        sign == 0 ==> unit_single(sign).bits == 0,
        sign > 0 ==> unit_single(sign).bits == 0x3f80_0000,
        origin().x.bits == 0 && origin().y.bits == 0,
{
}

// ---------------------------------------------------------------------------
// Unreliable datagrams
// ---------------------------------------------------------------------------
/// Position and velocity snapshot for a single entity.
/// Sent unreliably every tick; dropped packets are simply skipped.
/// Entity IDs are u32, never UUIDs, to keep datagrams small.
#[derive(Debug, Clone, Copy, PartialEq, Eq, Structural)]
pub struct PositionSnapshot {
    pub entity_id: u32,
    pub x: Single,
    pub y: Single,
    pub vx: Single,
    pub vy: Single,
}

/// A batch of position snapshots sent to one client per tick.
#[derive(Debug, Clone, PartialEq, Eq)]
pub struct PositionBatch {
    pub tick: u32,
    pub snapshots: Vec<PositionSnapshot>,
}

// ---------------------------------------------------------------------------
// Reliable stream packets
// ---------------------------------------------------------------------------
/// A player connected to the shard.
#[derive(Debug, Clone, PartialEq, Eq)]
pub struct PlayerJoined {
    pub entity_id: u32,
    pub display_name: String,
}

/// A player disconnected or was removed from the shard.
#[derive(Debug, Clone, PartialEq, Eq)]
pub struct PlayerLeft {
    pub entity_id: u32,
}

/// A player picked up an item.
#[derive(Debug, Clone, PartialEq, Eq)]
pub struct ItemPickup {
    pub entity_id: u32,
    pub item_id: u32,
}

/// Damage was dealt from one entity to another.
#[derive(Debug, Clone, Copy, PartialEq, Eq)]
pub struct DamageEvent {
    pub source: u32,
    pub target: u32,
    pub amount: Single,
}

/// The result of a player's extraction attempt.
#[derive(Debug, Clone, Copy, PartialEq, Eq)]
pub struct ExtractionResult {
    pub player_id: u32,
    pub success: bool,
}

/// All reliable stream payloads wrapped in a single enum for framing.
#[derive(Debug, Clone, PartialEq, Eq)]
pub enum ReliablePacket {
    PlayerJoined(PlayerJoined),
    PlayerLeft(PlayerLeft),
    ItemPickup(ItemPickup),
    DamageEvent(DamageEvent),
    ExtractionResult(ExtractionResult),
}

// ---------------------------------------------------------------------------
// Auth handshake packets (game server and client)
// ---------------------------------------------------------------------------
/// Sent by the game server to the client after successful authentication.
/// Contains the entity ID assigned to this player for this session.
#[derive(Debug, Clone, Copy, PartialEq, Eq, Structural)]
pub struct AuthAck {
    pub entity_id: u32,
}

/// Player movement input, sent as unreliable datagram from client to server
/// each frame. `dx` and `dy` are in the range [-1, 1]; the server normalises
/// and scales by speed.
#[derive(Debug, Clone, Copy, PartialEq, Eq, Structural)]
pub struct PlayerInput {
    pub dx: Single,
    pub dy: Single,
}

// ---------------------------------------------------------------------------
// Internal packets (game server and gatekeeper)
// ---------------------------------------------------------------------------
/// Sent by a game server to the gatekeeper to validate a session token.
#[derive(Debug, Clone, PartialEq, Eq)]
pub struct ValidateToken {
    pub token: String,
}

/// Positive validation response from the gatekeeper.
#[derive(Debug, Clone, PartialEq, Eq)]
pub struct TokenValid {
    pub server_id: String,
    pub player_id: u32,
}

/// Negative validation response from the gatekeeper.
#[derive(Debug, Clone, Copy, PartialEq, Eq)]
pub struct TokenInvalid;

/// Discriminated union for gatekeeper validation responses.
#[derive(Debug, Clone, PartialEq, Eq)]
pub enum ValidationResponse {
    Valid(TokenValid),
    Invalid(TokenInvalid),
}

impl View for ValidationResponse {
    type V = Option<(Seq<char>, u32)>;

    /// The server and player of a valid token; nothing for an invalid one.
    open spec fn view(&self) -> Option<(Seq<char>, u32)> {
        match self {
            ValidationResponse::Valid(v) => Some((v.server_id@, v.player_id)),
            ValidationResponse::Invalid(_) => None,
        }
    }
}

/// A valid response names its server and player; an invalid one names nobody.
pub proof fn law_validation_response(server_id: String, player_id: u32)
    ensures
        ValidationResponse::Valid(TokenValid { server_id, player_id })@ == Some(
            (server_id@, player_id),
        ),
        ValidationResponse::Invalid(TokenInvalid)@ is None,
{
}

} // verus!
