//! Protocol constants shared by every service.

use vstd::prelude::*;

verus! {

/// Simulation tick rate in Hz.
pub const TICK_RATE_HZ: u32 = 30;

/// Default maximum players per game server shard.
pub const DEFAULT_CAPACITY: u32 = 128;

/// Percentage of capacity at which the orchestrator spawns a new shard.
pub const SPAWN_THRESHOLD_PERCENT: u32 = 85;

/// Spatial interest radius in tiles: only entities within this range receive
/// position snapshots for a given player.
pub const INTEREST_RADIUS_TILES: u32 = 32;

} // verus!
