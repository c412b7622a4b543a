//! The load generator: bots that join, authenticate, move about and leave.

use vstd::prelude::*;

use crate::gatekeeper::join::{JoinResponse, JoinResponseView};
use crate::orchestrator::health::{find_first, is_first_true};
use crate::packets::{unit_single, PlayerInput, Single, ValidateToken};
use crate::text::{
    decimal, number_or, or_default, text_or, three_digit_text, u16_text, u32_or, zero_padded,
};
use crate::wire::{bytes_number, decode_auth_ack, encode_validate_token, text_bytes};

verus! {

/// Milliseconds between the logins of two bots, so the server isn't hit by all
/// at once.
pub const STAGGER_MS: u64 = 50;

/// Milliseconds between two inputs of a bot (about 30 Hz).
pub const TICK_MS: u64 = 33;

/// Milliseconds that a bot plays.
pub const PLAY_MS: u64 = 10_000;

/// The largest acknowledgement, in bytes.
pub const MAX_ACK_BYTES: usize = 64;

/// Ticks after which a bot turns to its next direction (about once a second).
pub const TURN_TICKS: u32 = 30;

/// How many directions a bot moves in.
pub const DIRECTIONS: usize = 8;

// ---------------------------------------------------------------------------
// Arguments
// ---------------------------------------------------------------------------
/// How many bots to run, from the first argument.
pub fn players_arg(arg: Option<String>) -> (res: u32)
    ensures
        res == number_or(arg, u32::MAX as int, 10),
{
    u32_or(arg, 10)
}

/// The gatekeeper base URL, from the second argument.
pub fn gatekeeper_arg(arg: Option<String>) -> (res: String)
    ensures
        res@ == text_or(arg, "http://localhost:3000"@),
{
    or_default(arg, "http://localhost:3000")
}

/// The name of a bot: its number with at least three digits.
pub fn bot_name(i: u32) -> (res: String)
    ensures
        res@ == "bot_"@ + zero_padded(i as nat, 3),
{
    "bot_".to_owned().concat(three_digit_text(i).as_str())
}

// ---------------------------------------------------------------------------
// Directions
// ---------------------------------------------------------------------------
/// A direction, by the signs of its two parts.
pub open spec fn direction(i: int) -> (int, int) {
    if i == 0 {
        (1, 0)
    } else if i == 1 {
        (-1, 0)
    } else if i == 2 {
        (0, 1)
    } else if i == 3 {
        (0, -1)
    } else if i == 4 {
        (1, 1)
    } else if i == 5 {
        (-1, 1)
    } else if i == 6 {
        (1, -1)
    } else {
        (-1, -1)
    }
}

/// The input that moves a bot in a direction.
pub open spec fn direction_input(i: int) -> PlayerInput {
    PlayerInput { dx: unit_single(direction(i).0), dy: unit_single(direction(i).1) }
}

fn make_direction_input(i: usize) -> (res: PlayerInput)
    ensures
        res == direction_input(i as int),
{
    let (dx, dy): (i8, i8) = match i {
        0 => (1, 0),
        1 => (-1, 0),
        2 => (0, 1),
        3 => (0, -1),
        4 => (1, 1),
        5 => (-1, 1),
        6 => (1, -1),
        _ => (-1, -1),
    };
    PlayerInput { dx: Single::unit(dx), dy: Single::unit(dy) }
}

// ---------------------------------------------------------------------------
// One bot
// ---------------------------------------------------------------------------
/// How far a bot is: what it waits for.
#[derive(Debug, Clone, PartialEq, Eq)]
pub enum BotStage {
    Joining,
    Resolving { token: String },
    Connecting { token: String },
    Authenticating,
    /// Plays: its direction, the ticks since it turned, and when it stops.
    Waiting { dir: usize, ticks: u32, deadline_ms: u64 },
    Sending { dir: usize, ticks: u32, deadline_ms: u64 },
    Ended,
}

/// The view of a `BotStage`.
pub enum BotStageView {
    Joining,
    Resolving { token: Seq<char> },
    Connecting { token: Seq<char> },
    Authenticating,
    Waiting { dir: int, ticks: int, deadline_ms: int },
    Sending { dir: int, ticks: int, deadline_ms: int },
    Ended,
}

impl View for BotStage {
    type V = BotStageView;

    open spec fn view(&self) -> BotStageView {
        match self {
            BotStage::Joining => BotStageView::Joining,
            BotStage::Resolving { token } => BotStageView::Resolving { token: token@ },
            BotStage::Connecting { token } => BotStageView::Connecting { token: token@ },
            BotStage::Authenticating => BotStageView::Authenticating,
            BotStage::Waiting { dir, ticks, deadline_ms } => BotStageView::Waiting {
                dir: *dir as int,
                ticks: *ticks as int,
                deadline_ms: *deadline_ms as int,
            },
            BotStage::Sending { dir, ticks, deadline_ms } => BotStageView::Sending {
                dir: *dir as int,
                ticks: *ticks as int,
                deadline_ms: *deadline_ms as int,
            },
            BotStage::Ended => BotStageView::Ended,
        }
    }
}

/// What a bot does next.
#[derive(Debug, Clone, PartialEq, Eq)]
pub enum BotAction {
    /// Sends a join request.
    Join { url: String, display_name: String },
    /// Resolves host and port to addresses.
    Resolve(String),
    /// Connects to the address at a position of the resolved ones.
    Connect(usize),
    /// Sends the authentication request and reads the acknowledgement.
    Authenticate(Vec<u8>),
    /// Waits for the next tick.
    AwaitTick,
    SendInput(PlayerInput),
    /// Closes the connection: the bot is done.
    Close,
    /// Gives up with this reason.
    Fail(String),
}

/// The view of a `BotAction`.
pub enum BotActionView {
    Join { url: Seq<char>, display_name: Seq<char> },
    Resolve(Seq<char>),
    Connect(int),
    Authenticate(Seq<u8>),
    AwaitTick,
    SendInput(PlayerInput),
    Close,
    Fail(Seq<char>),
}

impl View for BotAction {
    type V = BotActionView;

    open spec fn view(&self) -> BotActionView {
        match self {
            BotAction::Join { url, display_name } => BotActionView::Join {
                url: url@,
                display_name: display_name@,
            },
            BotAction::Resolve(addr) => BotActionView::Resolve(addr@),
            BotAction::Connect(i) => BotActionView::Connect(*i as int),
            BotAction::Authenticate(data) => BotActionView::Authenticate(data@),
            BotAction::AwaitTick => BotActionView::AwaitTick,
            BotAction::SendInput(input) => BotActionView::SendInput(*input),
            BotAction::Close => BotActionView::Close,
            BotAction::Fail(reason) => BotActionView::Fail(reason@),
        }
    }
}

/// What happened.
#[derive(Debug, Clone, PartialEq, Eq)]
pub enum BotEvent {
    /// The join request was answered.
    Joined(JoinResponse),
    /// The join request was answered with a status that is no success.
    Refused(String),
    /// The resolved addresses: of each, whether it is IPv4.
    Addresses(Vec<bool>),
    Connected,
    /// The acknowledgement, and the time it came in milliseconds.
    Acknowledged { data: Vec<u8>, now_ms: u64 },
    /// The tick came, at a time in milliseconds.
    Ticked { now_ms: u64 },
    /// The input was handed to the connection.
    Sent,
    /// The last action failed; the reason.
    Failed(String),
}

/// The view of a `BotEvent`.
pub enum BotEventView {
    Joined(JoinResponseView),
    Refused(Seq<char>),
    Addresses(Seq<bool>),
    Connected,
    Acknowledged { data: Seq<u8>, now_ms: int },
    Ticked { now_ms: int },
    Sent,
    Failed(Seq<char>),
}

impl View for BotEvent {
    type V = BotEventView;

    open spec fn view(&self) -> BotEventView {
        match self {
            BotEvent::Joined(response) => BotEventView::Joined(response@),
            BotEvent::Refused(status) => BotEventView::Refused(status@),
            BotEvent::Addresses(is_ipv4) => BotEventView::Addresses(is_ipv4@),
            BotEvent::Connected => BotEventView::Connected,
            BotEvent::Acknowledged { data, now_ms } => BotEventView::Acknowledged {
                data: data@,
                now_ms: *now_ms as int,
            },
            BotEvent::Ticked { now_ms } => BotEventView::Ticked { now_ms: *now_ms as int },
            BotEvent::Sent => BotEventView::Sent,
            BotEvent::Failed(reason) => BotEventView::Failed(reason@),
        }
    }
}

/// Whether an event is an outcome that an action can have.
pub open spec fn is_outcome(action: BotActionView, event: BotEventView) -> bool {
    match action {
        BotActionView::Join { url: _, display_name: _ } => event is Joined || event is Refused
            || event is Failed,
        BotActionView::Resolve(_) => event is Addresses || event is Failed,
        BotActionView::Connect(_) => event is Connected || event is Failed,
        BotActionView::Authenticate(_) => event is Acknowledged || event is Failed,
        BotActionView::AwaitTick => event is Ticked,
        BotActionView::SendInput(_) => event is Sent || event is Failed,
        BotActionView::Close => false,
        BotActionView::Fail(_) => false,
    }
}

/// Whether a bot takes in an event.
pub open spec fn bot_admits(stage: BotStageView, event: BotEventView) -> bool {
    match stage {
        BotStageView::Joining => event is Joined || event is Refused || event is Failed,
        BotStageView::Resolving { token: _ } => event is Addresses || event is Failed,
        BotStageView::Connecting { token: _ } => event is Connected || event is Failed,
        BotStageView::Authenticating => match event {
            BotEventView::Acknowledged { data: _, now_ms } => now_ms + PLAY_MS <= u64::MAX,
            _ => event is Failed,
        },
        BotStageView::Waiting { dir: _, ticks: _, deadline_ms: _ } => event is Ticked,
        BotStageView::Sending { dir: _, ticks: _, deadline_ms: _ } => event is Sent || event
            is Failed,
        BotStageView::Ended => false,
    }
}

/// Whether the direction of a bot is one of the directions, and its turn not
/// overdue.
pub open spec fn bot_wf(stage: BotStageView) -> bool {
    match stage {
        BotStageView::Waiting { dir, ticks, deadline_ms: _ } => 0 <= dir < DIRECTIONS && 0 <= ticks
            < TURN_TICKS,
        BotStageView::Sending { dir, ticks, deadline_ms: _ } => 0 <= dir < DIRECTIONS && 0 <= ticks
            < TURN_TICKS,
        _ => true,
    }
}

/// The first position that holds `true`, if there is one.
pub open spec fn first_ipv4(is_ipv4: Seq<bool>) -> Option<int> {
    if exists|i: int| is_first_true(is_ipv4, i) {
        Some(choose|i: int| is_first_true(is_ipv4, i))
    } else {
        None
    }
}

/// The next stage of a bot and its next action. It plays for a fixed time from
/// its acknowledgement on, with one input each tick, and turns to the next
/// direction on every 30th; where its inputs no longer get through, it stops
/// earlier. Both are a good end.
pub open spec fn bot_step(stage: BotStageView, event: BotEventView) -> (
    BotStageView,
    BotActionView,
) {
    match (stage, event) {
        (BotStageView::Sending { dir: _, ticks: _, deadline_ms: _ }, BotEventView::Failed(_)) => (
            BotStageView::Ended,
            BotActionView::Close,
        ),
        (_, BotEventView::Failed(reason)) => (BotStageView::Ended, BotActionView::Fail(reason)),
        (BotStageView::Joining, BotEventView::Refused(status)) => (
            BotStageView::Ended,
            BotActionView::Fail("/join returned "@ + status),
        ),
        (BotStageView::Joining, BotEventView::Joined(response)) => (
            BotStageView::Resolving { token: response.token },
            BotActionView::Resolve(
                response.server_addr + ":"@ + decimal(response.quic_port as nat),
            ),
        ),
        (BotStageView::Resolving { token }, BotEventView::Addresses(is_ipv4)) => match first_ipv4(
            is_ipv4,
        ) {
            Some(i) => (BotStageView::Connecting { token }, BotActionView::Connect(i)),
            None => (BotStageView::Ended, BotActionView::Fail("no IPv4 addr"@)),
        },
        (BotStageView::Connecting { token }, BotEventView::Connected) => (
            BotStageView::Authenticating,
            BotActionView::Authenticate(text_bytes(token)),
        ),
        (BotStageView::Authenticating, BotEventView::Acknowledged { data, now_ms }) => match
            bytes_number(data) {
            Some(entity_id) => (
                BotStageView::Waiting {
                    dir: entity_id as int % DIRECTIONS as int,
                    ticks: 0,
                    deadline_ms: now_ms + PLAY_MS,
                },
                BotActionView::AwaitTick,
            ),
            None => (BotStageView::Ended, BotActionView::Fail("decode AuthAck"@)),
        },
        (BotStageView::Waiting { dir, ticks, deadline_ms }, BotEventView::Ticked { now_ms }) => if
            now_ms >= deadline_ms {
            (BotStageView::Ended, BotActionView::Close)
        } else if ticks + 1 == TURN_TICKS {
            let next = (dir + 1) % DIRECTIONS as int;
            (
                BotStageView::Sending { dir: next, ticks: 0, deadline_ms },
                BotActionView::SendInput(direction_input(next)),
            )
        } else {
            (
                BotStageView::Sending { dir, ticks: ticks + 1, deadline_ms },
                BotActionView::SendInput(direction_input(dir)),
            )
        },
        (BotStageView::Sending { dir, ticks, deadline_ms }, BotEventView::Sent) => (
            BotStageView::Waiting { dir, ticks, deadline_ms },
            BotActionView::AwaitTick,
        ),
        (_, _) => (BotStageView::Ended, BotActionView::Close),
    }
}

/// Starts a bot: its first action is to join.
pub fn simulate_player(name: String, gatekeeper: String) -> (res: (BotStage, BotAction))
    ensures
        bot_wf(res.0@),
        res.0@ == BotStageView::Joining,
        res.1@ == (BotActionView::Join { url: gatekeeper@ + "/join"@, display_name: name@ }),
{
    (BotStage::Joining, BotAction::Join { url: gatekeeper.concat("/join"), display_name: name })
}

impl BotStage {
    /// Takes in what happened, and gives the next action.
    pub fn step(self, event: BotEvent) -> (res: (BotStage, BotAction))
        requires
            bot_wf(self@),
            bot_admits(self@, event@),
        ensures
            bot_wf(res.0@),
            (res.0@, res.1@) == bot_step(self@, event@),
    {
        match (self, event) {
            (BotStage::Sending { dir: _, ticks: _, deadline_ms: _ }, BotEvent::Failed(_)) => (
                BotStage::Ended,
                BotAction::Close,
            ),
            (_, BotEvent::Failed(reason)) => (BotStage::Ended, BotAction::Fail(reason)),
            (BotStage::Joining, BotEvent::Refused(status)) => (
                BotStage::Ended,
                BotAction::Fail("/join returned ".to_owned().concat(status.as_str())),
            ),
            (BotStage::Joining, BotEvent::Joined(response)) => {
                let addr = response.server_addr.concat(":").concat(
                    u16_text(response.quic_port).as_str(),
                );
                (BotStage::Resolving { token: response.token }, BotAction::Resolve(addr))
            },
            (BotStage::Resolving { token }, BotEvent::Addresses(is_ipv4)) => match find_first(
                &is_ipv4,
            ) {
                Some(i) => {
                    proof {
                        lemma_first_ipv4(is_ipv4@, i as int);
                    }
                    (BotStage::Connecting { token }, BotAction::Connect(i))
                },
                None => {
                    assert(forall|i: int| !#[trigger] is_first_true(is_ipv4@, i));
                    (BotStage::Ended, BotAction::Fail("no IPv4 addr".to_owned()))
                },
            },
            (BotStage::Connecting { token }, BotEvent::Connected) => (
                BotStage::Authenticating,
                BotAction::Authenticate(encode_validate_token(&ValidateToken { token })),
            ),
            (BotStage::Authenticating, BotEvent::Acknowledged { data, now_ms }) => match
                decode_auth_ack(data.as_slice()) {
                Ok(ack) => (
                    BotStage::Waiting {
                        dir: ack.entity_id as usize % DIRECTIONS,
                        ticks: 0,
                        deadline_ms: now_ms + PLAY_MS,
                    },
                    BotAction::AwaitTick,
                ),
                Err(_) => (BotStage::Ended, BotAction::Fail("decode AuthAck".to_owned())),
            },
            (BotStage::Waiting { dir, ticks, deadline_ms }, BotEvent::Ticked { now_ms }) => if
                now_ms >= deadline_ms {
                (BotStage::Ended, BotAction::Close)
            } else if ticks + 1 == TURN_TICKS {
                let next: usize = (dir + 1) % DIRECTIONS;
                (
                    BotStage::Sending { dir: next, ticks: 0, deadline_ms },
                    BotAction::SendInput(make_direction_input(next)),
                )
            } else {
                (
                    BotStage::Sending { dir, ticks: ticks + 1, deadline_ms },
                    BotAction::SendInput(make_direction_input(dir)),
                )
            },
            (BotStage::Sending { dir, ticks, deadline_ms }, BotEvent::Sent) => (
                BotStage::Waiting { dir, ticks, deadline_ms },
                BotAction::AwaitTick,
            ),
            (_, _) => (BotStage::Ended, BotAction::Close),
        }
    }
}

proof fn lemma_first_ipv4(is_ipv4: Seq<bool>, i: int)
    requires
        is_first_true(is_ipv4, i),
    ensures
        first_ipv4(is_ipv4) == Some(i),
{
    let j = choose|j: int| is_first_true(is_ipv4, j);
    if i < j {
        assert(!is_ipv4[i]);
    }
    if j < i {
        assert(!is_ipv4[j]);
    }
}

// ---------------------------------------------------------------------------
// Counting
// ---------------------------------------------------------------------------
/// How the bots fared.
#[derive(Debug, Clone, Copy, PartialEq, Eq, Structural)]
pub struct Tally {
    pub connected: u32,
    pub failed: u32,
}

impl Tally {
    /// No bot has finished.
    pub fn new() -> (res: Tally)
        ensures
            res == (Tally { connected: 0, failed: 0 }),
    {
        Tally { connected: 0, failed: 0 }
    }

    /// Counts a bot that finished; after the last 32-bit number comes 0.
    pub fn record(&mut self, ok: bool)
        ensures
            final(self).connected == if ok {
                (old(self).connected + 1) % 0x1_0000_0000
            } else {
                old(self).connected as int
            },
            final(self).failed == if ok {
                old(self).failed as int
            } else {
                (old(self).failed + 1) % 0x1_0000_0000
            },
    {
        if ok {
            self.connected = self.connected.wrapping_add(1);
        } else {
            self.failed = self.failed.wrapping_add(1);
        }
    }
}

// ---------------------------------------------------------------------------
// Laws
// ---------------------------------------------------------------------------
/// Whoever carries out the action that a bot gave, and hands back how it came
/// out, always hands back an event that the bot takes in, as long as the clock
/// leaves room for the time it plays.
pub proof fn law_bot_takes_outcomes(
    stage: BotStageView,
    event: BotEventView,
    outcome: BotEventView,
)
    requires
        bot_wf(stage),
        bot_admits(stage, event),
        outcome is Acknowledged ==> outcome->Acknowledged_now_ms + PLAY_MS <= u64::MAX,
    ensures
        ({
            let (after, action) = bot_step(stage, event);
            bot_wf(after) && bot_admits(after, outcome) == is_outcome(action, outcome)
        }),
{
}

/// A bot after ticks at the given times, each input handed to the connection,
/// and the actions that the ticks gave.
pub open spec fn after_ticks(stage: BotStageView, times: Seq<int>) -> (
    BotStageView,
    Seq<BotActionView>,
)
    decreases times.len(),
{
    if times.len() == 0 {
        (stage, Seq::empty())
    } else {
        let (before, given) = after_ticks(stage, times.drop_last());
        let (sending, action) = bot_step(before, BotEventView::Ticked { now_ms: times.last() });
        (bot_step(sending, BotEventView::Sent).0, given.push(action))
    }
}

/// As long as a bot plays, each tick gives one input, and its direction is the
/// one it started from, turned once for every 30 ticks.
pub proof fn law_directions_rotate(dir: int, ticks: int, deadline_ms: int, times: Seq<int>)
    requires
        bot_wf(BotStageView::Waiting { dir, ticks, deadline_ms }),
        forall|i: int| 0 <= i < times.len() ==> (#[trigger] times[i]) < deadline_ms,
    ensures
        ({
            let (after, given) = after_ticks(
                BotStageView::Waiting { dir, ticks, deadline_ms },
                times,
            );
            let n = times.len() as int;
            &&& given.len() == n
            &&& forall|i: int|
                0 <= i < n ==> (#[trigger] given[i]) == BotActionView::SendInput(
                    direction_input(
                        (dir + (ticks + i + 1) / TURN_TICKS as int) % DIRECTIONS as int,
                    ),
                )
            &&& after == (BotStageView::Waiting {
                dir: (dir + (ticks + n) / TURN_TICKS as int) % DIRECTIONS as int,
                ticks: (ticks + n) % TURN_TICKS as int,
                deadline_ms,
            })
        }),
    decreases times.len(),
{
    if times.len() > 0 {
        law_directions_rotate(dir, ticks, deadline_ms, times.drop_last());
        assert(times[times.len() - 1] == times.last());
    }
}

/// A bot turns at most once in any 30 ticks: two turns are at least 30 ticks
/// apart.
pub proof fn law_turns_are_rare(
    dir: int,
    ticks: int,
    deadline_ms: int,
    times: Seq<int>,
    i: int,
    j: int,
)
    requires
        bot_wf(BotStageView::Waiting { dir, ticks, deadline_ms }),
        forall|k: int| 0 <= k < times.len() ==> (#[trigger] times[k]) < deadline_ms,
        0 <= i < j,
        j + 1 < times.len(),
        ({
            let given = after_ticks(BotStageView::Waiting { dir, ticks, deadline_ms }, times).1;
            given[i] != given[i + 1] && given[j] != given[j + 1]
        }),
    ensures
        j - i >= TURN_TICKS,
{
    law_directions_rotate(dir, ticks, deadline_ms, times);
    let given = after_ticks(BotStageView::Waiting { dir, ticks, deadline_ms }, times).1;
    assert((ticks + i + 1) / 30 != (ticks + i + 2) / 30) by {
        assert(given[i] != given[i + 1]);
        assert(ticks + (i + 1) + 1 == ticks + i + 2);
    }
    assert((ticks + j + 1) / 30 != (ticks + j + 2) / 30) by {
        assert(given[j] != given[j + 1]);
        assert(ticks + (j + 1) + 1 == ticks + j + 2);
    }
}

/// The eight directions, in the order in which bots turn to them, and the inputs
/// that they are sent as: each part is the pattern of -1, 0 or 1.
pub proof fn law_directions(i: int)
    requires
        0 <= i < 8,
    ensures
        direction(i) == seq![
            (1int, 0int),
            (-1int, 0int),
            (0int, 1int),
            (0int, -1int),
            (1int, 1int),
            (-1int, 1int),
            (1int, -1int),
            (-1int, -1int),
        ][i],
        direction_input(i).dx.bits == if direction(i).0 == 1 {
            0x3f80_0000u32
        } else if direction(i).0 == -1 {
            0xbf80_0000u32
        } else {
            0u32
        },
        direction_input(i).dy.bits == if direction(i).1 == 1 {
            0x3f80_0000u32
        } else if direction(i).1 == -1 {
            0xbf80_0000u32
        } else {
            0u32
        },
{
}

/// How a bot comes to play: it joins, resolves the address it is sent to, takes
/// the first IPv4 one, authenticates with its token, and starts in the direction
/// that its entity id gives, to play for ten seconds.
pub proof fn law_bot_starts(
    response: JoinResponseView,
    token: Seq<char>,
    is_ipv4: Seq<bool>,
    i: int,
    data: Seq<u8>,
    entity_id: u32,
    now_ms: int,
)
    ensures
        bot_step(BotStageView::Joining, BotEventView::Joined(response)) == (
            BotStageView::Resolving { token: response.token },
            BotActionView::Resolve(
                response.server_addr + ":"@ + decimal(response.quic_port as nat),
            ),
        ),
        0 <= i < is_ipv4.len() && is_ipv4[i] && (forall|j: int|
            0 <= j < i ==> !#[trigger] is_ipv4[j]) ==> bot_step(
            BotStageView::Resolving { token },
            BotEventView::Addresses(is_ipv4),
        ) == (BotStageView::Connecting { token }, BotActionView::Connect(i)),
        (forall|j: int| 0 <= j < is_ipv4.len() ==> !#[trigger] is_ipv4[j]) ==> bot_step(
            BotStageView::Resolving { token },
            BotEventView::Addresses(is_ipv4),
        ) == (BotStageView::Ended, BotActionView::Fail("no IPv4 addr"@)),
        bot_step(BotStageView::Connecting { token }, BotEventView::Connected) == (
            BotStageView::Authenticating,
            BotActionView::Authenticate(text_bytes(token)),
        ),
        bytes_number(data) == Some(entity_id) ==> bot_step(
            BotStageView::Authenticating,
            BotEventView::Acknowledged { data, now_ms },
        ) == (
            BotStageView::Waiting {
                dir: entity_id as int % 8,
                ticks: 0,
                deadline_ms: now_ms + 10_000,
            },
            BotActionView::AwaitTick,
        ),
        bytes_number(data) is None ==> bot_step(
            BotStageView::Authenticating,
            BotEventView::Acknowledged { data, now_ms },
        ) == (BotStageView::Ended, BotActionView::Fail("decode AuthAck"@)),
{
    if 0 <= i < is_ipv4.len() && is_ipv4[i] && (forall|j: int|
        0 <= j < i ==> !#[trigger] is_ipv4[j]) {
        assert(is_first_true(is_ipv4, i));
        lemma_first_ipv4(is_ipv4, i);
    }
    if forall|j: int| 0 <= j < is_ipv4.len() ==> !#[trigger] is_ipv4[j] {
        assert(forall|k: int| !#[trigger] is_first_true(is_ipv4, k));
    }
}

/// How a bot plays and ends: each tick before its deadline it sends an input, in
/// the same direction but for every thirtieth; from the deadline on it closes.
/// An input that does not get through ends it well, any other failure with the
/// reason.
pub proof fn law_bot_plays(
    stage: BotStageView,
    dir: int,
    ticks: int,
    deadline_ms: int,
    now_ms: int,
    reason: Seq<char>,
)
    ensures
        ({
            let waiting = BotStageView::Waiting { dir, ticks, deadline_ms };
            let sending = BotStageView::Sending { dir, ticks, deadline_ms };
            let tick = BotEventView::Ticked { now_ms };
            let failed = BotEventView::Failed(reason);
            &&& now_ms >= deadline_ms ==> bot_step(waiting, tick) == (
                BotStageView::Ended,
                BotActionView::Close,
            )
            &&& now_ms < deadline_ms && ticks != 29 ==> bot_step(waiting, tick) == (
                BotStageView::Sending { dir, ticks: ticks + 1, deadline_ms },
                BotActionView::SendInput(direction_input(dir)),
            )
            &&& now_ms < deadline_ms && ticks == 29 ==> bot_step(waiting, tick) == (
                BotStageView::Sending { dir: (dir + 1) % 8, ticks: 0, deadline_ms },
                BotActionView::SendInput(direction_input((dir + 1) % 8)),
            )
            &&& bot_step(sending, BotEventView::Sent) == (waiting, BotActionView::AwaitTick)
            &&& bot_step(sending, failed) == (BotStageView::Ended, BotActionView::Close)
            &&& !(stage is Sending) ==> bot_step(stage, failed) == (
                BotStageView::Ended,
                BotActionView::Fail(reason),
            )
            &&& bot_step(BotStageView::Joining, BotEventView::Refused(reason)) == (
                BotStageView::Ended,
                BotActionView::Fail("/join returned "@ + reason),
            )
        }),
{
}

/// What a bot does and takes in means what it says.
pub proof fn law_bot_messages(
    url: String,
    text: String,
    i: usize,
    data: Vec<u8>,
    input: PlayerInput,
    now_ms: u64,
    response: JoinResponse,
    flags: Vec<bool>,
    ticks: u32,
)
    ensures
        (BotAction::Join { url, display_name: text })@ == (BotActionView::Join {
            url: url@,
            display_name: text@,
        }),
        BotAction::Resolve(text)@ == BotActionView::Resolve(text@),
        BotAction::Connect(i)@ == BotActionView::Connect(i as int),
        BotAction::Authenticate(data)@ == BotActionView::Authenticate(data@),
        BotAction::AwaitTick@ == BotActionView::AwaitTick,
        BotAction::SendInput(input)@ == BotActionView::SendInput(input),
        BotAction::Close@ == BotActionView::Close,
        BotAction::Fail(text)@ == BotActionView::Fail(text@),
        BotEvent::Joined(response)@ == BotEventView::Joined(response@),
        BotEvent::Refused(text)@ == BotEventView::Refused(text@),
        BotEvent::Addresses(flags)@ == BotEventView::Addresses(flags@),
        BotEvent::Connected@ == BotEventView::Connected,
        (BotEvent::Acknowledged { data, now_ms })@ == (BotEventView::Acknowledged {
            data: data@,
            now_ms: now_ms as int,
        }),
        (BotEvent::Ticked { now_ms })@ == (BotEventView::Ticked { now_ms: now_ms as int }),
        BotEvent::Sent@ == BotEventView::Sent,
        BotEvent::Failed(text)@ == BotEventView::Failed(text@),
        (BotStage::Waiting { dir: i, ticks, deadline_ms: now_ms })@ == (BotStageView::Waiting {
            dir: i as int,
            ticks: ticks as int,
            deadline_ms: now_ms as int,
        }),
        (BotStage::Sending { dir: i, ticks, deadline_ms: now_ms })@ == (BotStageView::Sending {
            dir: i as int,
            ticks: ticks as int,
            deadline_ms: now_ms as int,
        }),
        (BotStage::Resolving { token: text })@ == (BotStageView::Resolving { token: text@ }),
        (BotStage::Connecting { token: text })@ == (BotStageView::Connecting { token: text@ }),
{
}

/// Which events a bot takes in at which stage.
pub proof fn law_bot_admits(stage: BotStageView, event: BotEventView)
    ensures
        bot_admits(stage, event) <==> (stage is Joining && (event is Joined || event is Refused
            || event is Failed)) || (stage is Resolving && (event is Addresses || event is Failed))
            || (stage is Connecting && (event is Connected || event is Failed)) || (
        stage is Authenticating && (event is Failed || (event is Acknowledged
            && event->Acknowledged_now_ms + 10_000 <= u64::MAX))) || (stage is Waiting
            && event is Ticked) || (stage is Sending && (event is Sent || event is Failed)),
{
}

/// The directions are all different, and none is standing still.
pub proof fn law_directions_distinct(i: int, j: int)
    requires
        0 <= i < j < DIRECTIONS,
    ensures
        direction_input(i) != direction_input(j),
        direction(i) != (0int, 0int),
        direction(j) != (0int, 0int),
{
}

} // verus!
