//! The shard's simulation: what the players' commands lead to each tick.

use std::collections::HashMap;

use vstd::prelude::*;

use crate::constants::INTEREST_RADIUS_TILES;
use crate::game::server::net::{SimCommand, SimCommandView};
use crate::packets::{
    origin, unit_single, Point, PositionBatch, PositionSnapshot, Single, SINGLE_MINUS_ONE,
    SINGLE_ONE,
};

verus! {

broadcast use vstd::std_specs::hash::group_hash_axioms;

/// Counts the ticks.
#[derive(Debug, Clone, Copy, PartialEq, Eq, Structural)]
pub struct TickCounter(pub u32);

/// Latest directional input received from each player this tick.
#[derive(Debug)]
pub struct PlayerInputBuffer(pub HashMap<u32, Point>);

impl PlayerInputBuffer {
    /// No input yet.
    pub fn new() -> (res: PlayerInputBuffer)
        ensures
            res.0@ == Map::<u32, Point>::empty(),
    {
        PlayerInputBuffer(HashMap::new())
    }
}

/// Identifies a player entity on the server.
#[derive(Debug, Clone, PartialEq, Eq)]
pub struct Player {
    pub entity_id: u32,
    pub display_name: String,
}

/// A player is to appear.
#[derive(Debug, Clone, PartialEq, Eq)]
pub struct SpawnPlayer {
    pub entity_id: u32,
    pub display_name: String,
    /// World-space spawn position.
    pub position: Point,
}

/// The view of a `SpawnPlayer`.
pub struct SpawnPlayerView {
    pub entity_id: u32,
    pub display_name: Seq<char>,
    pub position: Point,
}

impl View for SpawnPlayer {
    type V = SpawnPlayerView;

    open spec fn view(&self) -> SpawnPlayerView {
        SpawnPlayerView {
            entity_id: self.entity_id,
            display_name: self.display_name@,
            position: self.position,
        }
    }
}

/// A player is to disappear.
#[derive(Debug, Clone, Copy, PartialEq, Eq, Structural)]
pub struct DespawnPlayer {
    pub entity_id: u32,
}

/// A list of players that are to appear.
pub open spec fn spawns(v: Seq<SpawnPlayer>) -> Seq<SpawnPlayerView> {
    v.map_values(|s: SpawnPlayer| s@)
}

/// A list of commands.
pub open spec fn sim_commands(v: Seq<SimCommand>) -> Seq<SimCommandView> {
    v.map_values(|c: SimCommand| c@)
}

// ---------------------------------------------------------------------------
// Commands
// ---------------------------------------------------------------------------
/// The players that commands let appear, in order.
pub open spec fn spawned(list: Seq<SimCommandView>) -> Seq<SpawnPlayerView>
    decreases list.len(),
{
    if list.len() == 0 {
        Seq::empty()
    } else {
        let rest = spawned(list.drop_last());
        match list.last() {
            SimCommandView::PlayerJoined { entity_id, display_name } => rest.push(
                SpawnPlayerView { entity_id, display_name, position: origin() },
            ),
            _ => rest,
        }
    }
}

/// The players that commands let disappear, in order.
pub open spec fn despawned(list: Seq<SimCommandView>) -> Seq<DespawnPlayer>
    decreases list.len(),
{
    if list.len() == 0 {
        Seq::empty()
    } else {
        let rest = despawned(list.drop_last());
        match list.last() {
            SimCommandView::PlayerLeft { entity_id } => rest.push(DespawnPlayer { entity_id }),
            _ => rest,
        }
    }
}

/// The inputs that commands leave buffered: of each player the last, unless the
/// player left after it.
pub open spec fn buffered(list: Seq<SimCommandView>) -> Map<u32, Point>
    decreases list.len(),
{
    if list.len() == 0 {
        Map::empty()
    } else {
        let rest = buffered(list.drop_last());
        match list.last() {
            SimCommandView::PlayerJoined { entity_id: _, display_name: _ } => rest,
            SimCommandView::PlayerLeft { entity_id } => rest.remove(entity_id),
            SimCommandView::PlayerInput { entity_id, dx, dy } => rest.insert(
                entity_id,
                Point { x: dx, y: dy },
            ),
        }
    }
}

/// Turns the commands of a tick into players that appear, players that
/// disappear, and buffered inputs. The buffer is cleared first, so players with
/// no input this tick stop moving.
pub fn process_net_commands(input_buf: &mut PlayerInputBuffer, list: &Vec<SimCommand>) -> (res: (
    Vec<SpawnPlayer>,
    Vec<DespawnPlayer>,
))
    ensures
        final(input_buf).0@ == buffered(sim_commands(list@)),
        spawns(res.0@) == spawned(sim_commands(list@)),
        res.1@ == despawned(sim_commands(list@)),
{
    let ghost all = sim_commands(list@);
    input_buf.0.clear();
    let mut appear: Vec<SpawnPlayer> = Vec::new();
    let mut disappear: Vec<DespawnPlayer> = Vec::new();
    let mut i: usize = 0;
    proof {
        assert(input_buf.0@ =~= buffered(all.take(0)));
        assert(spawns(appear@) =~= spawned(all.take(0)));
        assert(disappear@ =~= despawned(all.take(0)));
    }
    while i < list.len()
        invariant
            i <= list@.len(),
            all == sim_commands(list@),
            input_buf.0@ == buffered(all.take(i as int)),
            spawns(appear@) == spawned(all.take(i as int)),
            disappear@ == despawned(all.take(i as int)),
        decreases list@.len() - i,
    {
        let ghost before = appear@;
        proof {
            assert(all.take(i + 1).drop_last() =~= all.take(i as int));
            assert(all.take(i + 1).last() == list@[i as int]@);
        }
        match &list[i] {
            SimCommand::PlayerJoined { entity_id, display_name } => {
                appear.push(
                    SpawnPlayer {
                        entity_id: *entity_id,
                        display_name: display_name.clone(),
                        position: Point::zero(),
                    },
                );
                assert(spawns(appear@) =~= spawns(before).push(appear@.last()@));
            },
            SimCommand::PlayerLeft { entity_id } => {
                disappear.push(DespawnPlayer { entity_id: *entity_id });
                input_buf.0.remove(entity_id);
            },
            SimCommand::PlayerInput { entity_id, dx, dy } => {
                input_buf.0.insert(*entity_id, Point { x: *dx, y: *dy });
            },
        }
        i = i + 1;
    }
    assert(all.take(list@.len() as int) =~= all);
    (appear, disappear)
}

/// Every player who joins appears, and every player who leaves disappears: the
/// two lists hold, in order, one player for each such command and nothing else.
/// A new player starts at the origin.
pub proof fn law_joins_appear_and_leavers_disappear(list: Seq<SimCommandView>)
    ensures
        spawned(list) == list.filter_map(
            |c: SimCommandView|
                match c {
                    SimCommandView::PlayerJoined { entity_id, display_name } => Some(
                        SpawnPlayerView {
                            entity_id,
                            display_name,
                            position: Point { x: Single { bits: 0 }, y: Single { bits: 0 } },
                        },
                    ),
                    _ => None,
                },
        ),
        despawned(list) == list.filter_map(
            |c: SimCommandView|
                match c {
                    SimCommandView::PlayerLeft { entity_id } => Some(DespawnPlayer { entity_id }),
                    _ => None,
                },
        ),
    decreases list.len(),
{
    if list.len() > 0 {
        law_joins_appear_and_leavers_disappear(list.drop_last());
    }
}

/// What one more command adds to a tick, whatever came before it: a player who
/// joins appears, one who leaves disappears and has no input any more, and an
/// input replaces what its player sent before. Nothing else changes, and no
/// other player is touched.
pub proof fn law_one_more_command(
    list: Seq<SimCommandView>,
    entity_id: u32,
    display_name: Seq<char>,
    dx: Single,
    dy: Single,
)
    ensures
        ({
            let joined = list.push(SimCommandView::PlayerJoined { entity_id, display_name });
            let left = list.push(SimCommandView::PlayerLeft { entity_id });
            let moved = list.push(SimCommandView::PlayerInput { entity_id, dx, dy });
            &&& spawned(joined) == spawned(list).push(
                SpawnPlayerView {
                    entity_id,
                    display_name,
                    position: Point { x: Single { bits: 0 }, y: Single { bits: 0 } },
                },
            )
            &&& despawned(joined) == despawned(list)
            &&& buffered(joined) == buffered(list)
            &&& spawned(left) == spawned(list)
            &&& despawned(left) == despawned(list).push(DespawnPlayer { entity_id })
            &&& buffered(left) == buffered(list).remove(entity_id)
            &&& spawned(moved) == spawned(list)
            &&& despawned(moved) == despawned(list)
            &&& buffered(moved) == buffered(list).insert(entity_id, Point { x: dx, y: dy })
        }),
{
    let joined = list.push(SimCommandView::PlayerJoined { entity_id, display_name });
    let left = list.push(SimCommandView::PlayerLeft { entity_id });
    let moved = list.push(SimCommandView::PlayerInput { entity_id, dx, dy });
    assert(joined.drop_last() =~= list);
    assert(left.drop_last() =~= list);
    assert(moved.drop_last() =~= list);
}

/// A player who appears is the one that the entry says, read as it stands.
pub proof fn law_spawn_player(list: Seq<SpawnPlayer>, i: int)
    ensures
        spawns(list).len() == list.len(),
        0 <= i < list.len() ==> spawns(list)[i] == (SpawnPlayerView {
            entity_id: list[i].entity_id,
            display_name: list[i].display_name@,
            position: list[i].position,
        }),
{
}

/// A tick without commands lets nobody appear or disappear, and nobody move.
pub proof fn law_quiet_tick()
    ensures
        spawned(Seq::empty()).len() == 0,
        despawned(Seq::empty()).len() == 0,
        buffered(Seq::empty()) == Map::<u32, Point>::empty(),
{
}

/// The input that a tick leaves buffered for a player is the last one that came
/// in this tick, and none if the player sent none or left after it.
pub proof fn law_buffered_input_is_last(
    list: Seq<SimCommandView>,
    later: Seq<SimCommandView>,
    entity_id: u32,
    dx: Single,
    dy: Single,
)
    requires
        forall|i: int|
            0 <= i < later.len() ==> (match #[trigger] later[i] {
                SimCommandView::PlayerInput { entity_id: other, dx: _, dy: _ } => other
                    != entity_id,
                SimCommandView::PlayerLeft { entity_id: other } => other != entity_id,
                SimCommandView::PlayerJoined { entity_id: _, display_name: _ } => true,
            }),
    ensures
        ({
            let input = SimCommandView::PlayerInput { entity_id, dx, dy };
            let left = SimCommandView::PlayerLeft { entity_id };
            let moved = buffered(list.push(input) + later);
            let gone = buffered(list.push(left) + later);
            &&& moved.contains_key(entity_id) && moved[entity_id] == (Point { x: dx, y: dy })
            &&& !gone.contains_key(entity_id)
            &&& !buffered(later).contains_key(entity_id)
        }),
    decreases later.len(),
{
    let input = SimCommandView::PlayerInput { entity_id, dx, dy };
    let left = SimCommandView::PlayerLeft { entity_id };
    if later.len() == 0 {
        assert(list.push(input) + later =~= list.push(input));
        assert(list.push(left) + later =~= list.push(left));
        assert(list.push(input).drop_last() =~= list);
        assert(list.push(left).drop_last() =~= list);
    } else {
        let rest = later.drop_last();
        assert forall|i: int| 0 <= i < rest.len() implies (match #[trigger] rest[i] {
            SimCommandView::PlayerInput { entity_id: other, dx: _, dy: _ } => other != entity_id,
            SimCommandView::PlayerLeft { entity_id: other } => other != entity_id,
            SimCommandView::PlayerJoined { entity_id: _, display_name: _ } => true,
        }) by {
            assert(rest[i] == later[i]);
        }
        law_buffered_input_is_last(list, rest, entity_id, dx, dy);
        assert((list.push(input) + later).drop_last() =~= list.push(input) + rest);
        assert((list.push(left) + later).drop_last() =~= list.push(left) + rest);
        assert(later[later.len() - 1] == later.last());
    }
}

// ---------------------------------------------------------------------------
// Players that disappear
// ---------------------------------------------------------------------------
/// Whether a position is the first in a list of players that holds some id.
pub open spec fn is_first_with(players: Seq<u32>, entity_id: u32, k: int) -> bool {
    0 <= k < players.len() && players[k] == entity_id && forall|j: int|
        0 <= j < k ==> #[trigger] players[j] != entity_id
}

/// A player is found by id where their id comes for the first time, and nowhere
/// else.
pub proof fn law_first_with(players: Seq<u32>, entity_id: u32, k: int)
    requires
        players.contains(entity_id),
    ensures
        is_first_with(players, entity_id, k) <==> k == players.index_of_first(entity_id)->Some_0,
{
    players.index_of_first_ensures(entity_id);
}

/// Whether positions are those of the players to take out: for each event in
/// order the first player with its id; an event without such a player has none.
pub open spec fn is_despawn_list(
    events: Seq<DespawnPlayer>,
    players: Seq<u32>,
    positions: Seq<usize>,
) -> bool
    decreases events.len(),
{
    if events.len() == 0 {
        positions.len() == 0
    } else if players.contains(events.last().entity_id) {
        positions.len() > 0 && is_first_with(
            players,
            events.last().entity_id,
            positions.last() as int,
        ) && is_despawn_list(events.drop_last(), players, positions.drop_last())
    } else {
        is_despawn_list(events.drop_last(), players, positions)
    }
}

/// Every player that somebody is to take out is taken out, and nobody else: each
/// position is the first one with the id of some event, and each event whose id
/// occurs among the players has such a position.
pub proof fn law_leavers_are_taken_out(
    events: Seq<DespawnPlayer>,
    players: Seq<u32>,
    positions: Seq<usize>,
)
    requires
        is_despawn_list(events, players, positions),
    ensures
        positions.len() <= events.len(),
        forall|i: int|
            0 <= i < positions.len() ==> is_taken_out(
                events,
                players,
                #[trigger] positions[i] as int,
            ),
        forall|j: int|
            0 <= j < events.len() && players.contains((#[trigger] events[j]).entity_id)
                ==> has_position(players, positions, events[j].entity_id),
    decreases events.len(),
{
    if events.len() > 0 {
        let rest = events.drop_last();
        let id = events.last().entity_id;
        let before = if players.contains(id) {
            positions.drop_last()
        } else {
            positions
        };
        law_leavers_are_taken_out(rest, players, before);
        assert forall|i: int| 0 <= i < positions.len() implies is_taken_out(
            events,
            players,
            #[trigger] positions[i] as int,
        ) by {
            if i < before.len() {
                assert(before[i] == positions[i]);
                assert(is_taken_out(rest, players, before[i] as int));
                let j = choose|j: int|
                    0 <= j < rest.len() && (#[trigger] rest[j]).entity_id
                        == players[before[i] as int];
                assert(events[j] == rest[j]);
            } else {
                assert(events[events.len() - 1].entity_id == players[positions[i] as int]);
            }
        }
        assert forall|j: int|
            0 <= j < events.len() && players.contains(
                (#[trigger] events[j]).entity_id,
            ) implies has_position(players, positions, events[j].entity_id) by {
            if j < rest.len() {
                assert(rest[j] == events[j]);
                assert(has_position(players, before, rest[j].entity_id));
                let i = choose|i: int|
                    0 <= i < before.len() && players[#[trigger] before[i] as int]
                        == rest[j].entity_id;
                assert(positions[i] == before[i]);
            } else {
                assert(players[positions[positions.len() - 1] as int] == id);
            }
        }
    }
}

/// Whether a position is that of a player to take out: some event has their id,
/// and nobody before them has it.
pub open spec fn is_taken_out(
    events: Seq<DespawnPlayer>,
    players: Seq<u32>,
    position: int,
) -> bool {
    &&& 0 <= position < players.len()
    &&& exists|j: int|
        0 <= j < events.len() && (#[trigger] events[j]).entity_id == players[position]
    &&& forall|m: int| 0 <= m < position ==> #[trigger] players[m] != players[position]
}

/// Whether a list of positions holds one of a player with some id.
pub open spec fn has_position(players: Seq<u32>, positions: Seq<usize>, entity_id: u32) -> bool {
    exists|i: int| 0 <= i < positions.len() && players[#[trigger] positions[i] as int] == entity_id
}

fn find_player(players: &Vec<u32>, entity_id: u32) -> (res: Option<usize>)
    ensures
        (match res {
            Some(k) => is_first_with(players@, entity_id, k as int),
            None => !players@.contains(entity_id),
        }),
{
    let mut k: usize = 0;
    while k < players.len()
        invariant
            k <= players@.len(),
            forall|j: int| 0 <= j < k ==> #[trigger] players@[j] != entity_id,
        decreases players@.len() - k,
    {
        if players[k] == entity_id {
            return Some(k);
        }
        k = k + 1;
    }
    None
}

/// Which players to take out, by their positions in the list of all players.
pub fn despawn_players(events: &Vec<DespawnPlayer>, players: &Vec<u32>) -> (res: Vec<usize>)
    ensures
        is_despawn_list(events@, players@, res@),
{
    let mut out: Vec<usize> = Vec::new();
    let mut i: usize = 0;
    while i < events.len()
        invariant
            i <= events@.len(),
            is_despawn_list(events@.take(i as int), players@, out@),
        decreases events@.len() - i,
    {
        let ghost before = out@;
        assert(events@.take(i + 1).drop_last() =~= events@.take(i as int));
        match find_player(players, events[i].entity_id) {
            Some(k) => {
                out.push(k);
                assert(out@.drop_last() =~= before);
                assert(players@.contains(players@[k as int]));
            },
            None => {},
        }
        i = i + 1;
    }
    assert(events@.take(events@.len() as int) =~= events@);
    out
}

// ---------------------------------------------------------------------------
// Movement
// ---------------------------------------------------------------------------
/// Whether a number differs from 0: zero has two patterns, one of either sign.
pub open spec fn is_nonzero(n: Single) -> bool {
    n.bits != 0 && n.bits != 0x8000_0000
}

/// Whether a number is greater than 1/2: numbers without a sign are ordered as
/// their patterns are, up to that of infinity; beyond it are no numbers.
pub open spec fn exceeds_half(n: Single) -> bool {
    0x3f00_0000 < n.bits <= 0x7f80_0000
}

/// Whether a number lies between -1 and 1: of either sign, numbers are ordered
/// as their patterns are.
pub open spec fn is_unit(n: Single) -> bool {
    n.bits <= SINGLE_ONE || 0x8000_0000 <= n.bits <= SINGLE_MINUS_ONE
}

/// A number brought into the range from -1 to 1: one outside becomes the nearer
/// end, and what is no number becomes 0.
pub open spec fn clamped(n: Single) -> Single {
    if is_unit(n) {
        n
    } else if n.bits <= 0x7f80_0000 {
        unit_single(1)
    } else if 0x8000_0000 <= n.bits <= 0xff80_0000 {
        unit_single(-1)
    } else {
        unit_single(0)
    }
}

fn clamp(n: Single) -> (res: Single)
    ensures
        res == clamped(n),
{
    if n.bits <= SINGLE_ONE || (0x8000_0000 <= n.bits && n.bits <= SINGLE_MINUS_ONE) {
        n
    } else if n.bits <= 0x7f80_0000 {
        Single::unit(1)
    } else if 0x8000_0000 <= n.bits && n.bits <= 0xff80_0000 {
        Single::unit(-1)
    } else {
        Single::unit(0)
    }
}

/// What a player's buffered input does to them.
#[derive(Debug, Clone, Copy, PartialEq, Eq, Structural)]
pub struct PlayerMove {
    /// The direction and strength of a push along the ground, from -1 to 1, if
    /// there is one.
    pub push: Option<Single>,
    pub jump: bool,
}

/// What the buffered input of a player does to them: it pushes them sideways by
/// its first part, normalised to the range from -1 to 1, unless that is 0; and
/// it lets them jump if its second part is greater than 1/2 and they stand on
/// the ground. Without input nothing happens.
pub fn apply_player_inputs(
    input_buf: &PlayerInputBuffer,
    entity_id: u32,
    is_grounded: bool,
) -> (res: PlayerMove)
    ensures
        res == (if input_buf.0@.contains_key(entity_id) {
            let dir = input_buf.0@[entity_id];
            PlayerMove {
                push: if is_nonzero(clamped(dir.x)) {
                    Some(clamped(dir.x))
                } else {
                    None
                },
                jump: exceeds_half(dir.y) && is_grounded,
            }
        } else {
            PlayerMove { push: None, jump: false }
        }),
        res.push matches Some(push) ==> is_unit(push) && is_nonzero(push),
{
    match input_buf.0.get(&entity_id) {
        Some(dir) => {
            let strength = clamp(dir.x);
            let push = if strength.bits != 0 && strength.bits != 0x8000_0000 {
                Some(strength)
            } else {
                None
            };
            let high = 0x3f00_0000 < dir.y.bits && dir.y.bits <= 0x7f80_0000;
            PlayerMove { push, jump: high && is_grounded }
        },
        None => PlayerMove { push: None, jump: false },
    }
}

/// How numbers are read from their patterns. The patterns up to 0x3f800000, that
/// of 1, and those from 0x80000000 to 0xbf800000, that of -1, are kept; greater
/// numbers up to infinity become 1, smaller ones down to infinity -1, and what is
/// no number becomes 0. Of these only the two zeros give no push; and only a
/// number above 0x3f000000, the pattern of 1/2, lets a player jump.
pub proof fn law_number_patterns(n: Single)
    ensures
        n.bits <= 0x3f80_0000 ==> clamped(n) == n,
        0x3f80_0000 <= n.bits <= 0x7f80_0000 ==> clamped(n).bits == 0x3f80_0000,
        0x8000_0000 <= n.bits <= 0xbf80_0000 ==> clamped(n) == n,
        0xbf80_0000 <= n.bits <= 0xff80_0000 ==> clamped(n).bits == 0xbf80_0000,
        0x7f80_0000 < n.bits < 0x8000_0000 || 0xff80_0000 < n.bits ==> clamped(n).bits == 0,
        is_nonzero(n) <==> n.bits != 0x0000_0000 && n.bits != 0x8000_0000,
        exceeds_half(n) <==> 0x3f00_0000 < n.bits && n.bits <= 0x7f80_0000,
{
}

/// Normalising brings every input into the range, leaves one that is in it as
/// it is, and doing it twice is doing it once.
pub proof fn law_clamp(n: Single)
    ensures
        is_unit(clamped(n)),
        is_unit(n) ==> clamped(n) == n,
        clamped(clamped(n)) == clamped(n),
{
}

// ---------------------------------------------------------------------------
// Snapshots
// ---------------------------------------------------------------------------
/// How finely positions are compared: parts of a tile.
pub const TILE_PARTS: u32 = 256;

/// Where a player is: the position in the world, and the same in 256ths of a
/// tile.
#[derive(Debug, Clone, Copy, PartialEq, Eq, Structural)]
pub struct PlayerPosition {
    pub entity_id: u32,
    pub position: Point,
    pub tile_x: i32,
    pub tile_y: i32,
}

/// Whether two players are within the interest radius of each other.
pub open spec fn is_near(a: PlayerPosition, b: PlayerPosition) -> bool {
    let dx = a.tile_x - b.tile_x;
    let dy = a.tile_y - b.tile_y;
    let radius = INTEREST_RADIUS_TILES * TILE_PARTS;
    dx * dx + dy * dy <= radius * radius
}

fn near(a: &PlayerPosition, b: &PlayerPosition) -> (res: bool)
    ensures
        res == is_near(*a, *b),
{
    let dx: i128 = a.tile_x as i128 - b.tile_x as i128;
    let dy: i128 = a.tile_y as i128 - b.tile_y as i128;
    let tiles: i128 = INTEREST_RADIUS_TILES as i128;
    let parts: i128 = TILE_PARTS as i128;
    assert(tiles * parts == 8192) by (nonlinear_arith)
        requires
            tiles == 32,
            parts == 256,
    ;
    let radius: i128 = tiles * parts;
    assert(0 <= dx * dx <= 0x1_0000_0000_0000_0000 && 0 <= dy * dy <= 0x1_0000_0000_0000_0000)
        by (nonlinear_arith)
        requires
            -0x1_0000_0000 <= dx <= 0x1_0000_0000,
            -0x1_0000_0000 <= dy <= 0x1_0000_0000,
    ;
    dx * dx + dy * dy <= radius * radius
}

/// The snapshot of a player.
pub open spec fn snapshot(player: PlayerPosition) -> PositionSnapshot {
    PositionSnapshot {
        entity_id: player.entity_id,
        x: player.position.x,
        y: player.position.y,
        vx: unit_single(0),
        vy: unit_single(0),
    }
}

/// The snapshots of the players within the interest radius of one, in order.
pub open spec fn snapshots_near(
    players: Seq<PlayerPosition>,
    viewer: PlayerPosition,
) -> Seq<PositionSnapshot>
    decreases players.len(),
{
    if players.len() == 0 {
        Seq::empty()
    } else {
        let rest = snapshots_near(players.drop_last(), viewer);
        if is_near(viewer, players.last()) {
            rest.push(snapshot(players.last()))
        } else {
            rest
        }
    }
}

/// The first player with some id, if there is one.
pub open spec fn player_with(players: Seq<PlayerPosition>, entity_id: u32) -> Option<
    PlayerPosition,
>
    decreases players.len(),
{
    if players.len() == 0 {
        None
    } else {
        match player_with(players.drop_last(), entity_id) {
            Some(player) => Some(player),
            None => if players.last().entity_id == entity_id {
                Some(players.last())
            } else {
                None
            },
        }
    }
}

/// What the player with some id gets to see; nothing where there is no such
/// player.
pub open spec fn sight(players: Seq<PlayerPosition>, entity_id: u32) -> Seq<PositionSnapshot> {
    match player_with(players, entity_id) {
        Some(viewer) => snapshots_near(players, viewer),
        None => Seq::empty(),
    }
}

fn find_position(players: &Vec<PlayerPosition>, entity_id: u32) -> (res: Option<PlayerPosition>)
    ensures
        res == player_with(players@, entity_id),
{
    let mut found: Option<PlayerPosition> = None;
    let mut i: usize = 0;
    while i < players.len()
        invariant
            i <= players@.len(),
            found == player_with(players@.take(i as int), entity_id),
        decreases players@.len() - i,
    {
        assert(players@.take(i + 1).drop_last() =~= players@.take(i as int));
        if found.is_none() && players[i].entity_id == entity_id {
            found = Some(players[i]);
        }
        i = i + 1;
    }
    assert(players@.take(players@.len() as int) =~= players@);
    found
}

fn collect_near(players: &Vec<PlayerPosition>, viewer: &PlayerPosition) -> (res: Vec<
    PositionSnapshot,
>)
    ensures
        res@ == snapshots_near(players@, *viewer),
{
    let mut out: Vec<PositionSnapshot> = Vec::new();
    let mut i: usize = 0;
    while i < players.len()
        invariant
            i <= players@.len(),
            out@ == snapshots_near(players@.take(i as int), *viewer),
        decreases players@.len() - i,
    {
        assert(players@.take(i + 1).drop_last() =~= players@.take(i as int));
        let player = players[i];
        if near(viewer, &player) {
            out.push(
                PositionSnapshot {
                    entity_id: player.entity_id,
                    x: player.position.x,
                    y: player.position.y,
                    vx: Single::unit(0),
                    vy: Single::unit(0),
                },
            );
        }
        i = i + 1;
    }
    assert(players@.take(players@.len() as int) =~= players@);
    out
}

/// Whether a batch is what the player with some id is sent at a tick: the
/// players they get to see, and no batch where there are none.
pub open spec fn is_batch_for(
    batch: Option<PositionBatch>,
    tick: u32,
    players: Seq<PlayerPosition>,
    entity_id: u32,
) -> bool {
    match batch {
        Some(b) => sight(players, entity_id).len() > 0 && b.tick == tick && b.snapshots@ == sight(
            players,
            entity_id,
        ),
        None => sight(players, entity_id).len() == 0,
    }
}

/// Every tick: for each connected player, given by their entity ids, the
/// positions of the players within their interest radius. The tick counts also
/// where there is nothing to send, and after the last 32-bit number comes 0.
pub fn broadcast_position_snapshots(
    tick: &mut TickCounter,
    players: &Vec<PlayerPosition>,
    viewers: &Vec<u32>,
) -> (res: Vec<Option<PositionBatch>>)
    ensures
        final(tick).0 == (old(tick).0 + 1) % 0x1_0000_0000,
        res@.len() == viewers@.len(),
        forall|i: int|
            0 <= i < viewers@.len() ==> is_batch_for(
                #[trigger] res@[i],
                final(tick).0,
                players@,
                viewers@[i],
            ),
{
    tick.0 = tick.0.wrapping_add(1);
    let now: u32 = tick.0;
    let mut out: Vec<Option<PositionBatch>> = Vec::new();
    let mut i: usize = 0;
    while i < viewers.len()
        invariant
            i <= viewers@.len(),
            out@.len() == i,
            forall|k: int|
                0 <= k < i ==> is_batch_for(#[trigger] out@[k], now, players@, viewers@[k]),
        decreases viewers@.len() - i,
    {
        let batch = match find_position(players, viewers[i]) {
            Some(viewer) => {
                let snapshots = collect_near(players, &viewer);
                if snapshots.len() == 0 {
                    None
                } else {
                    Some(PositionBatch { tick: now, snapshots })
                }
            },
            None => None,
        };
        assert(is_batch_for(batch, now, players@, viewers@[i as int]));
        out.push(batch);
        i = i + 1;
    }
    out
}

/// A batch is sent exactly if its player gets to see somebody, and then it holds
/// all of that, under the number of the tick.
pub proof fn law_batch(
    batch: Option<PositionBatch>,
    tick: u32,
    players: Seq<PlayerPosition>,
    entity_id: u32,
)
    requires
        is_batch_for(batch, tick, players, entity_id),
    ensures
        batch is None <==> sight(players, entity_id).len() == 0,
        batch matches Some(b) ==> b.tick == tick && b.snapshots@ == sight(players, entity_id),
{
}

proof fn lemma_near_is_sent(players: Seq<PlayerPosition>, viewer: PlayerPosition, k: int)
    requires
        0 <= k < players.len(),
        is_near(viewer, players[k]),
    ensures
        snapshots_near(players, viewer).contains(snapshot(players[k])),
    decreases players.len(),
{
    let rest = snapshots_near(players.drop_last(), viewer);
    let all = snapshots_near(players, viewer);
    if k < players.len() - 1 {
        lemma_near_is_sent(players.drop_last(), viewer, k);
        let j = choose|j: int| 0 <= j < rest.len() && rest[j] == snapshot(players[k]);
        assert(all[j] == snapshot(players[k]));
    } else {
        assert(all[rest.len() as int] == snapshot(players[k]));
    }
}

/// Whether a snapshot is that of a player within the interest radius of another.
pub open spec fn is_of_near_player(
    players: Seq<PlayerPosition>,
    viewer: PlayerPosition,
    sent: PositionSnapshot,
) -> bool {
    exists|k: int|
        0 <= k < players.len() && is_near(viewer, #[trigger] players[k]) && sent == snapshot(
            players[k],
        )
}

proof fn lemma_sent_is_near(players: Seq<PlayerPosition>, viewer: PlayerPosition, j: int)
    requires
        0 <= j < snapshots_near(players, viewer).len(),
    ensures
        is_of_near_player(players, viewer, snapshots_near(players, viewer)[j]),
    decreases players.len(),
{
    let last = players.len() - 1;
    let rest = players.drop_last();
    if j < snapshots_near(rest, viewer).len() {
        lemma_sent_is_near(rest, viewer, j);
        let k = choose|k: int|
            0 <= k < rest.len() && is_near(viewer, #[trigger] rest[k]) && snapshots_near(
                rest,
                viewer,
            )[j] == snapshot(rest[k]);
        assert(players[k] == rest[k]);
    } else {
        assert(is_near(viewer, players[last]));
    }
}

/// Two players are near each other if the distance between them is at most 32
/// tiles, which is 8192 parts of a tile; who is near whom is mutual, and
/// everybody is near themselves.
pub proof fn law_near(a: PlayerPosition, b: PlayerPosition)
    ensures
        is_near(a, b) <==> (a.tile_x - b.tile_x) * (a.tile_x - b.tile_x) + (a.tile_y - b.tile_y) * (
        a.tile_y - b.tile_y) <= 67_108_864,
        is_near(a, b) == is_near(b, a),
        is_near(a, a),
        a.tile_y == b.tile_y ==> (is_near(a, b) <==> -8192 <= a.tile_x - b.tile_x <= 8192),
        a.tile_x == b.tile_x ==> (is_near(a, b) <==> -8192 <= a.tile_y - b.tile_y <= 8192),
{
    let dx = a.tile_x - b.tile_x;
    let dy = a.tile_y - b.tile_y;
    let radius = INTEREST_RADIUS_TILES * TILE_PARTS;
    assert(radius == 8192 && radius * radius == 67_108_864) by (nonlinear_arith)
        requires
            radius == 32 * 256,
    ;
    assert(dx * dx == (-dx) * (-dx) && dy * dy == (-dy) * (-dy)) by (nonlinear_arith);
    assert(dx * dx <= 67_108_864 <==> -8192 <= dx <= 8192) by (nonlinear_arith);
    assert(dy * dy <= 67_108_864 <==> -8192 <= dy <= 8192) by (nonlinear_arith);
    assert(0int * 0int == 0);
}

/// What a connected player is sent: a snapshot of each near player, in order,
/// that holds their id and position and a velocity of zero. It is taken from
/// where the first player with their id stands; without one nothing is sent.
pub proof fn law_sight(players: Seq<PlayerPosition>, entity_id: u32)
    ensures
        (forall|k: int| 0 <= k < players.len() ==> (#[trigger] players[k]).entity_id != entity_id)
            ==> sight(players, entity_id).len() == 0,
        forall|k: int|
            #![trigger players[k]]
            0 <= k < players.len() && players[k].entity_id == entity_id && (forall|m: int|
                0 <= m < k ==> (#[trigger] players[m]).entity_id != entity_id) ==> sight(
                players,
                entity_id,
            ) == players.filter(|p: PlayerPosition| is_near(players[k], p)).map_values(
                |p: PlayerPosition|
                    PositionSnapshot {
                        entity_id: p.entity_id,
                        x: p.position.x,
                        y: p.position.y,
                        vx: Single { bits: 0 },
                        vy: Single { bits: 0 },
                    },
            ),
{
    if forall|k: int| 0 <= k < players.len() ==> (#[trigger] players[k]).entity_id != entity_id {
        lemma_no_player(players, entity_id);
    }
    assert forall|k: int|
        #![trigger players[k]]
        0 <= k < players.len() && players[k].entity_id == entity_id && (forall|m: int|
            0 <= m < k ==> (#[trigger] players[m]).entity_id != entity_id) implies sight(
        players,
        entity_id,
    ) == players.filter(|p: PlayerPosition| is_near(players[k], p)).map_values(
        |p: PlayerPosition|
            PositionSnapshot {
                entity_id: p.entity_id,
                x: p.position.x,
                y: p.position.y,
                vx: Single { bits: 0 },
                vy: Single { bits: 0 },
            },
    ) by {
        lemma_first_player(players, entity_id, k);
        lemma_near_is_filter(players, players[k]);
    }
}

proof fn lemma_no_player(players: Seq<PlayerPosition>, entity_id: u32)
    requires
        forall|k: int| 0 <= k < players.len() ==> (#[trigger] players[k]).entity_id != entity_id,
    ensures
        player_with(players, entity_id) is None,
    decreases players.len(),
{
    if players.len() > 0 {
        let rest = players.drop_last();
        assert forall|k: int| 0 <= k < rest.len() implies (#[trigger] rest[k]).entity_id
            != entity_id by {
            assert(rest[k] == players[k]);
        }
        lemma_no_player(rest, entity_id);
        assert(players[players.len() - 1] == players.last());
    }
}

proof fn lemma_first_player(players: Seq<PlayerPosition>, entity_id: u32, k: int)
    requires
        0 <= k < players.len(),
        players[k].entity_id == entity_id,
        forall|m: int| 0 <= m < k ==> (#[trigger] players[m]).entity_id != entity_id,
    ensures
        player_with(players, entity_id) == Some(players[k]),
    decreases players.len(),
{
    let rest = players.drop_last();
    if k < rest.len() {
        assert forall|m: int| 0 <= m < k implies (#[trigger] rest[m]).entity_id != entity_id by {
            assert(rest[m] == players[m]);
        }
        lemma_first_player(rest, entity_id, k);
    } else {
        assert forall|m: int| 0 <= m < rest.len() implies (#[trigger] rest[m]).entity_id
            != entity_id by {
            assert(rest[m] == players[m]);
        }
        lemma_no_player(rest, entity_id);
    }
}

proof fn lemma_near_is_filter(players: Seq<PlayerPosition>, viewer: PlayerPosition)
    ensures
        snapshots_near(players, viewer) == players.filter(
            |p: PlayerPosition| is_near(viewer, p),
        ).map_values(
            |p: PlayerPosition|
                PositionSnapshot {
                    entity_id: p.entity_id,
                    x: p.position.x,
                    y: p.position.y,
                    vx: Single { bits: 0 },
                    vy: Single { bits: 0 },
                },
        ),
    decreases players.len(),
{
    reveal(Seq::filter);
    let keep = |p: PlayerPosition| is_near(viewer, p);
    let make = |p: PlayerPosition|
        PositionSnapshot {
            entity_id: p.entity_id,
            x: p.position.x,
            y: p.position.y,
            vx: Single { bits: 0 },
            vy: Single { bits: 0 },
        };
    if players.len() > 0 {
        let rest = players.drop_last().filter(keep);
        lemma_near_is_filter(players.drop_last(), viewer);
        if is_near(viewer, players.last()) {
            assert(players.filter(keep) == rest.push(players.last()));
            assert(rest.push(players.last()).map_values(make) =~= rest.map_values(make).push(
                make(players.last()),
            ));
        }
    } else {
        assert(players.filter(keep).map_values(make) =~= Seq::empty());
    }
}

/// A player is sent the snapshots of exactly the players within their interest
/// radius: each of them, and nothing else. One who is further away, and whose
/// id nobody nearer has, does not occur in what is sent.
pub proof fn law_only_near_players_are_sent(
    players: Seq<PlayerPosition>,
    entity_id: u32,
    viewer: PlayerPosition,
    other: u32,
)
    requires
        player_with(players, entity_id) == Some(viewer),
    ensures
        forall|k: int|
            0 <= k < players.len() && is_near(viewer, #[trigger] players[k]) ==> sight(
                players,
                entity_id,
            ).contains(snapshot(players[k])),
        forall|j: int|
            0 <= j < sight(players, entity_id).len() ==> is_of_near_player(
                players,
                viewer,
                #[trigger] sight(players, entity_id)[j],
            ),
        (forall|k: int|
            0 <= k < players.len() && (#[trigger] players[k]).entity_id == other ==> !is_near(
                viewer,
                players[k],
            )) ==> forall|j: int|
            0 <= j < sight(players, entity_id).len() ==> (#[trigger] sight(
                players,
                entity_id,
            )[j]).entity_id != other,
{
    assert forall|k: int|
        0 <= k < players.len() && is_near(viewer, #[trigger] players[k]) implies sight(
        players,
        entity_id,
    ).contains(snapshot(players[k])) by {
        lemma_near_is_sent(players, viewer, k);
    }
    assert forall|j: int| 0 <= j < sight(players, entity_id).len() implies is_of_near_player(
        players,
        viewer,
        #[trigger] sight(players, entity_id)[j],
    ) by {
        lemma_sent_is_near(players, viewer, j);
    }
}

} // verus!
