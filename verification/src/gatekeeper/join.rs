//! The join request: from a display name to a token and a server.

use vstd::prelude::*;
use vstd::utf8::encode_utf8;

use crate::command::{commands, CommandView, RedisCommand};
use crate::fields::{field, number_field, text_field, Fields};
use crate::gatekeeper::redis_ops::{
    capacity, counter_player_id, find_server_for_join, id_draw, is_best, is_joinable, join_target,
    law_best_is_unique, law_joinable, law_server_is_found, law_session_roundtrip,
    law_session_stored, next_player_id, player_count,
    player_id_from_counter, reservation, reserve_slot, session, session_commands, slot_reserved,
    store_session, ServerInfo, ServerInfoView, SESSION_TTL_SECS,
};
use crate::ident::{is_uuid_text, new_uuid};
use crate::redis_keys::{
    active_servers_key_text, law_key_kinds_disjoint, law_server_keys_distinct,
    law_session_keys_distinct, server_key_text, session_key_text,
};
use crate::scripts::{added, can_reserve, counted_players, stored_number};
use crate::store::Store;
use crate::text::{
    law_decimal_roundtrip, law_signed_decimal_roundtrip, law_unsigned_value_bound, signed_decimal,
    trim, trimmed,
};

verus! {

/// What a player asks for.
#[derive(Debug, Clone, PartialEq, Eq)]
pub struct JoinRequest {
    pub display_name: String,
}

/// Where the player is sent, and with which token.
#[derive(Debug, Clone, PartialEq, Eq)]
pub struct JoinResponse {
    pub token: String,
    pub server_addr: String,
    pub quic_port: u16,
}

/// The view of a `JoinResponse`.
pub struct JoinResponseView {
    pub token: Seq<char>,
    pub server_addr: Seq<char>,
    pub quic_port: int,
}

impl View for JoinResponse {
    type V = JoinResponseView;

    open spec fn view(&self) -> JoinResponseView {
        JoinResponseView {
            token: self.token@,
            server_addr: self.server_addr@,
            quic_port: self.quic_port as int,
        }
    }
}

/// Why a request is turned down.
#[derive(Debug, Clone, Copy, PartialEq, Eq, Structural)]
pub enum JoinError {
    BadRequest,
    ServiceUnavailable,
    InternalServerError,
}

impl JoinError {
    /// The HTTP status code.
    pub fn status(self) -> (res: u16)
        ensures
            res == (match self {
                JoinError::BadRequest => 400u16,
                JoinError::ServiceUnavailable => 503u16,
                JoinError::InternalServerError => 500u16,
            }),
    {
        match self {
            JoinError::BadRequest => 400,
            JoinError::ServiceUnavailable => 503,
            JoinError::InternalServerError => 500,
        }
    }
}

/// The longest display name, in bytes.
pub const MAX_NAME_BYTES: usize = 32;

/// Whether a display name is accepted: without the white space around it, it
/// has at least one byte and at most `MAX_NAME_BYTES`.
pub open spec fn is_name(display_name: Seq<char>) -> bool {
    let name = trimmed(display_name);
    name.len() > 0 && encode_utf8(name).len() <= MAX_NAME_BYTES
}

/// Tests a display name.
pub fn valid_name(display_name: &str) -> (res: bool)
    ensures
        res == is_name(display_name@),
{
    let name = trim(display_name);
    !name.is_empty() && name.as_bytes().len() <= MAX_NAME_BYTES
}

// ---------------------------------------------------------------------------
// The flow of a request
// ---------------------------------------------------------------------------
/// How far a request is: what it waits for.
#[derive(Debug, Clone, PartialEq, Eq)]
pub enum JoinFlow {
    Connecting,
    Finding,
    Reserving { server: ServerInfo },
    Counting { server: ServerInfo },
    Storing { server: ServerInfo, token: String },
    Ended,
}

/// The view of a `JoinFlow`.
pub enum JoinFlowView {
    Connecting,
    Finding,
    Reserving { server: ServerInfoView },
    Counting { server: ServerInfoView },
    Storing { server: ServerInfoView, token: Seq<char> },
    Ended,
}

impl View for JoinFlow {
    type V = JoinFlowView;

    open spec fn view(&self) -> JoinFlowView {
        match self {
            JoinFlow::Connecting => JoinFlowView::Connecting,
            JoinFlow::Finding => JoinFlowView::Finding,
            JoinFlow::Reserving { server } => JoinFlowView::Reserving { server: server@ },
            JoinFlow::Counting { server } => JoinFlowView::Counting { server: server@ },
            JoinFlow::Storing { server, token } => JoinFlowView::Storing {
                server: server@,
                token: token@,
            },
            JoinFlow::Ended => JoinFlowView::Ended,
        }
    }
}

/// What a request does next.
#[derive(Debug, Clone, PartialEq, Eq)]
pub enum JoinAction {
    /// Takes a connection to the store.
    Connect,
    /// Reads the hashes of all active servers.
    ListServers,
    /// Runs a command and reads a number back.
    Query(RedisCommand),
    /// Runs commands in order, until one fails.
    Run(Vec<RedisCommand>),
    Respond(JoinResponse),
    Reject(JoinError),
}

/// The view of a `JoinAction`.
pub enum JoinActionView {
    Connect,
    ListServers,
    Query(CommandView),
    Run(Seq<CommandView>),
    Respond(JoinResponseView),
    Reject(JoinError),
}

impl View for JoinAction {
    type V = JoinActionView;

    open spec fn view(&self) -> JoinActionView {
        match self {
            JoinAction::Connect => JoinActionView::Connect,
            JoinAction::ListServers => JoinActionView::ListServers,
            JoinAction::Query(command) => JoinActionView::Query(command@),
            JoinAction::Run(list) => JoinActionView::Run(commands(list@)),
            JoinAction::Respond(response) => JoinActionView::Respond(response@),
            JoinAction::Reject(error) => JoinActionView::Reject(*error),
        }
    }
}

/// How an action came out.
#[derive(Debug, Clone, PartialEq, Eq)]
pub enum JoinEvent {
    Done,
    /// The active servers, each with the fields of its hash.
    Servers(Vec<(String, Fields)>),
    /// The number that came back, and the time in seconds since the epoch.
    Reply { number: i64, now_secs: u64 },
    Failed,
}

/// Whether an event is an outcome that an action can have.
pub open spec fn is_outcome(action: JoinActionView, event: JoinEvent) -> bool {
    match action {
        JoinActionView::Connect => event is Done || event is Failed,
        JoinActionView::ListServers => event is Servers || event is Failed,
        JoinActionView::Query(_) => event is Reply || event is Failed,
        JoinActionView::Run(_) => event is Done || event is Failed,
        JoinActionView::Respond(_) => false,
        JoinActionView::Reject(_) => false,
    }
}

/// Whether a request takes in an event.
pub open spec fn admits(flow: JoinFlowView, event: JoinEvent) -> bool {
    match flow {
        JoinFlowView::Connecting => event is Done || event is Failed,
        JoinFlowView::Finding => event is Servers || event is Failed,
        JoinFlowView::Reserving { server: _ } => event is Reply || event is Failed,
        JoinFlowView::Counting { server: _ } => match event {
            JoinEvent::Reply { number: _, now_secs } => now_secs + SESSION_TTL_SECS <= u64::MAX,
            _ => event is Failed,
        },
        JoinFlowView::Storing { server: _, token: _ } => event is Done || event is Failed,
        JoinFlowView::Ended => false,
    }
}

/// The server to join, if there is one.
pub open spec fn chosen_server(replies: Seq<(String, Fields)>) -> Option<ServerInfoView> {
    if exists|i: int| is_best(replies, i) {
        let i = choose|i: int| is_best(replies, i);
        Some(join_target(replies[i].0@, replies[i].1@))
    } else {
        None
    }
}

/// The next stage of a request and its next action; `token` is the token to
/// hand out.
pub open spec fn join_step(flow: JoinFlowView, event: JoinEvent, token: Seq<char>) -> (
    JoinFlowView,
    JoinActionView,
) {
    let unavailable = (
        JoinFlowView::Ended,
        JoinActionView::Reject(JoinError::ServiceUnavailable),
    );
    let internal = (JoinFlowView::Ended, JoinActionView::Reject(JoinError::InternalServerError));
    match flow {
        JoinFlowView::Connecting => match event {
            JoinEvent::Done => (JoinFlowView::Finding, JoinActionView::ListServers),
            _ => unavailable,
        },
        JoinFlowView::Finding => match event {
            JoinEvent::Servers(replies) => match chosen_server(replies@) {
                Some(server) => (
                    JoinFlowView::Reserving { server },
                    JoinActionView::Query(reservation(server.id, server.capacity as nat)),
                ),
                None => unavailable,
            },
            _ => unavailable,
        },
        JoinFlowView::Reserving { server } => match event {
            JoinEvent::Reply { number, now_secs: _ } => if number == 1 {
                (
                    JoinFlowView::Counting { server },
                    JoinActionView::Query(
                        CommandView::Incr { key: "player:id_counter"@, by: 1 },
                    ),
                )
            } else {
                unavailable
            },
            _ => unavailable,
        },
        JoinFlowView::Counting { server } => match event {
            JoinEvent::Reply { number, now_secs } => (
                JoinFlowView::Storing { server, token },
                JoinActionView::Run(
                    session_commands(
                        token,
                        server.id,
                        counter_player_id(number as int) as nat,
                        (now_secs + SESSION_TTL_SECS) as nat,
                    ),
                ),
            ),
            _ => internal,
        },
        JoinFlowView::Storing { server, token: stored } => match event {
            JoinEvent::Done => (
                JoinFlowView::Ended,
                JoinActionView::Respond(
                    JoinResponseView {
                        token: stored,
                        server_addr: server.address,
                        quic_port: server.quic_port,
                    },
                ),
            ),
            _ => internal,
        },
        JoinFlowView::Ended => unavailable,
    }
}

/// Starts on a request: a name that is not accepted is turned down at once,
/// before anything is done.
pub fn handler(body: &JoinRequest) -> (res: Result<(JoinFlow, JoinAction), JoinError>)
    ensures
        (match res {
            Ok(started) => is_name(body.display_name@) && started.0@ == JoinFlowView::Connecting
                && started.1@ == JoinActionView::Connect,
            Err(error) => !is_name(body.display_name@) && error == JoinError::BadRequest,
        }),
{
    if valid_name(body.display_name.as_str()) {
        Ok((JoinFlow::Connecting, JoinAction::Connect))
    } else {
        Err(JoinError::BadRequest)
    }
}

impl JoinFlow {
    /// Takes in how the last action came out, and gives the next one. `token`
    /// is the token to hand out, used once the player has an ID.
    pub fn step_with_token(self, event: JoinEvent, token: String) -> (res: (JoinFlow, JoinAction))
        requires
            admits(self@, event),
        ensures
            (res.0@, res.1@) == join_step(self@, event, token@),
    {
        let unavailable = JoinAction::Reject(JoinError::ServiceUnavailable);
        let internal = JoinAction::Reject(JoinError::InternalServerError);
        match self {
            JoinFlow::Connecting => match event {
                JoinEvent::Done => (JoinFlow::Finding, JoinAction::ListServers),
                _ => (JoinFlow::Ended, unavailable),
            },
            JoinFlow::Finding => match event {
                JoinEvent::Servers(replies) => match find_server_for_join(&replies) {
                    Some(server) => {
                        proof {
                            lemma_chosen(replies@, server@);
                        }
                        let query = reserve_slot(server.id.as_str(), server.capacity);
                        (JoinFlow::Reserving { server }, JoinAction::Query(query))
                    },
                    None => {
                        assert(forall|i: int| is_best(replies@, i) ==> is_joinable(replies@[i].1@));
                        (JoinFlow::Ended, unavailable)
                    },
                },
                _ => (JoinFlow::Ended, unavailable),
            },
            JoinFlow::Reserving { server } => match event {
                JoinEvent::Reply { number, now_secs: _ } => if slot_reserved(number) {
                    (JoinFlow::Counting { server }, JoinAction::Query(next_player_id()))
                } else {
                    (JoinFlow::Ended, unavailable)
                },
                _ => (JoinFlow::Ended, unavailable),
            },
            JoinFlow::Counting { server } => match event {
                JoinEvent::Reply { number, now_secs } => {
                    let list = store_session(
                        token.as_str(),
                        server.id.as_str(),
                        player_id_from_counter(number),
                        now_secs,
                    );
                    (JoinFlow::Storing { server, token }, JoinAction::Run(list))
                },
                _ => (JoinFlow::Ended, internal),
            },
            JoinFlow::Storing { server, token: stored } => match event {
                JoinEvent::Done => {
                    let response = JoinResponse {
                        token: stored,
                        server_addr: server.address,
                        quic_port: server.quic_port,
                    };
                    (JoinFlow::Ended, JoinAction::Respond(response))
                },
                _ => (JoinFlow::Ended, internal),
            },
            JoinFlow::Ended => (JoinFlow::Ended, unavailable),
        }
    }

    /// Takes in how the last action came out, and gives the next one, with a
    /// fresh token once the player has an ID.
    pub fn step(self, event: JoinEvent) -> (res: (JoinFlow, JoinAction))
        requires
            admits(self@, event),
        ensures
            exists|token: Seq<char>|
                (self@ is Counting ==> is_uuid_text(token)) && (res.0@, res.1@)
                    == #[trigger] join_step(self@, event, token),
    {
        let token = match &self {
            JoinFlow::Counting { server: _ } => new_uuid(),
            _ => "".to_owned(),
        };
        let ghost chosen = token@;
        let res = self.step_with_token(event, token);
        assert((res.0@, res.1@) == join_step(self@, event, chosen));
        res
    }
}

proof fn lemma_chosen(replies: Seq<(String, Fields)>, server: ServerInfoView)
    requires
        exists|i: int|
            #[trigger]
            is_best(replies, i) && server == join_target(replies[i].0@, replies[i].1@),
    ensures
        chosen_server(replies) == Some(server),
{
    let i = choose|i: int|
        #[trigger]
        is_best(replies, i) && server == join_target(replies[i].0@, replies[i].1@);
    let j = choose|j: int| is_best(replies, j);
    law_best_is_unique(replies, i, j);
}

// ---------------------------------------------------------------------------
// Laws
// ---------------------------------------------------------------------------
/// A display name is accepted exactly if something is left of it without the
/// white space around it, and that has at most 32 bytes.
pub proof fn law_name(display_name: Seq<char>)
    ensures
        is_name(display_name) <==> trimmed(display_name) != Seq::<char>::empty() && encode_utf8(
            trimmed(display_name),
        ).len() <= 32,
{
    if trimmed(display_name).len() == 0 {
        assert(trimmed(display_name) =~= Seq::empty());
    }
}

/// The server to join is the one that the replies describe best; there is one as
/// soon as some reply describes a ready server with room.
pub proof fn law_chosen_server(replies: Seq<(String, Fields)>, i: int)
    ensures
        is_best(replies, i) ==> chosen_server(replies) == Some(
            ServerInfoView {
                id: replies[i].0@,
                address: text_field(replies[i].1@, "address"@),
                quic_port: number_field(replies[i].1@, "quic_port"@, 65535, 0),
                capacity: number_field(replies[i].1@, "capacity"@, 4294967295, 128),
            },
        ),
        chosen_server(replies) is None ==> 0 <= i < replies.len() ==> !is_joinable(replies[i].1@),
{
    if is_best(replies, i) {
        let j = choose|j: int| is_best(replies, j);
        law_best_is_unique(replies, i, j);
    }
    if chosen_server(replies) is None && 0 <= i < replies.len() && is_joinable(replies[i].1@) {
        law_joinable(replies[i].1@);
        law_server_is_found(replies, i);
    }
}

/// A join request, action by action: it connects, lists the servers, reserves a
/// slot on the chosen one, draws an ID, stores the session and answers with the
/// token and where to go.
pub proof fn law_join_steps(
    replies: Vec<(String, Fields)>,
    server: ServerInfoView,
    number: i64,
    now_secs: u64,
    token: Seq<char>,
    stored: Seq<char>,
)
    ensures
        join_step(JoinFlowView::Connecting, JoinEvent::Done, token) == (
            JoinFlowView::Finding,
            JoinActionView::ListServers,
        ),
        chosen_server(replies@) == Some(server) ==> join_step(
            JoinFlowView::Finding,
            JoinEvent::Servers(replies),
            token,
        ) == (
            JoinFlowView::Reserving { server },
            JoinActionView::Query(reservation(server.id, server.capacity as nat)),
        ),
        join_step(
            JoinFlowView::Reserving { server },
            JoinEvent::Reply { number: 1, now_secs },
            token,
        ) == (JoinFlowView::Counting { server }, JoinActionView::Query(id_draw())),
        join_step(
            JoinFlowView::Counting { server },
            JoinEvent::Reply { number, now_secs },
            token,
        ) == (
            JoinFlowView::Storing { server, token },
            JoinActionView::Run(
                session_commands(
                    token,
                    server.id,
                    counter_player_id(number as int) as nat,
                    (now_secs + 3600) as nat,
                ),
            ),
        ),
        join_step(JoinFlowView::Storing { server, token: stored }, JoinEvent::Done, token) == (
            JoinFlowView::Ended,
            JoinActionView::Respond(
                JoinResponseView {
                    token: stored,
                    server_addr: server.address,
                    quic_port: server.quic_port,
                },
            ),
        ),
{
}

/// How a join request is turned down: without a store, a server or a slot the
/// service is unavailable; where the slot is taken already, it is an error of
/// the server.
pub proof fn law_join_failures(
    replies: Vec<(String, Fields)>,
    server: ServerInfoView,
    number: i64,
    now_secs: u64,
    token: Seq<char>,
    stored: Seq<char>,
)
    ensures
        ({
            let unavailable = (
                JoinFlowView::Ended,
                JoinActionView::Reject(JoinError::ServiceUnavailable),
            );
            let internal = (
                JoinFlowView::Ended,
                JoinActionView::Reject(JoinError::InternalServerError),
            );
            &&& join_step(JoinFlowView::Connecting, JoinEvent::Failed, token) == unavailable
            &&& join_step(JoinFlowView::Finding, JoinEvent::Failed, token) == unavailable
            &&& chosen_server(replies@) is None ==> join_step(
                JoinFlowView::Finding,
                JoinEvent::Servers(replies),
                token,
            ) == unavailable
            &&& join_step(JoinFlowView::Reserving { server }, JoinEvent::Failed, token)
                == unavailable
            &&& number != 1 ==> join_step(
                JoinFlowView::Reserving { server },
                JoinEvent::Reply { number, now_secs },
                token,
            ) == unavailable
            &&& join_step(JoinFlowView::Counting { server }, JoinEvent::Failed, token) == internal
            &&& join_step(
                JoinFlowView::Storing { server, token: stored },
                JoinEvent::Failed,
                token,
            ) == internal
        }),
{
}

/// What a request does and answers means what it says.
pub proof fn law_join_messages(
    response: JoinResponse,
    command: RedisCommand,
    list: Vec<RedisCommand>,
    error: JoinError,
    server: ServerInfo,
    token: String,
)
    ensures
        response@.token == response.token@,
        response@.server_addr == response.server_addr@,
        response@.quic_port == response.quic_port,
        server@.id == server.id@,
        server@.address == server.address@,
        server@.quic_port == server.quic_port,
        server@.capacity == server.capacity,
        JoinAction::Connect@ == JoinActionView::Connect,
        JoinAction::ListServers@ == JoinActionView::ListServers,
        JoinAction::Query(command)@ == JoinActionView::Query(command@),
        JoinAction::Run(list)@ == JoinActionView::Run(commands(list@)),
        JoinAction::Respond(response)@ == JoinActionView::Respond(response@),
        JoinAction::Reject(error)@ == JoinActionView::Reject(error),
        JoinFlow::Connecting@ == JoinFlowView::Connecting,
        JoinFlow::Finding@ == JoinFlowView::Finding,
        (JoinFlow::Reserving { server })@ == (JoinFlowView::Reserving { server: server@ }),
        (JoinFlow::Counting { server })@ == (JoinFlowView::Counting { server: server@ }),
        (JoinFlow::Storing { server, token })@ == (JoinFlowView::Storing {
            server: server@,
            token: token@,
        }),
        JoinFlow::Ended@ == JoinFlowView::Ended,
{
}

/// Which events a request takes in at which stage.
pub proof fn law_join_admits(flow: JoinFlowView, event: JoinEvent)
    ensures
        admits(flow, event) <==> !(flow is Ended) && (event is Failed || match flow {
            JoinFlowView::Connecting => event is Done,
            JoinFlowView::Finding => event is Servers,
            JoinFlowView::Reserving { server: _ } => event is Reply,
            JoinFlowView::Counting { server: _ } => event is Reply && event->now_secs + 3600
                <= u64::MAX,
            _ => event is Done,
        }),
{
}

/// Whoever carries out the action that a request gave, and hands back how it
/// came out, always hands back an event that the request takes in, as long as
/// the time leaves room for the life of a session.
pub proof fn law_join_takes_outcomes(
    flow: JoinFlowView,
    event: JoinEvent,
    token: Seq<char>,
    outcome: JoinEvent,
)
    requires
        admits(flow, event),
        outcome is Reply ==> outcome->now_secs + SESSION_TTL_SECS <= u64::MAX,
    ensures
        ({
            let (after, action) = join_step(flow, event, token);
            admits(after, outcome) == is_outcome(action, outcome)
        }),
{
}

/// A request is answered with a token only after a slot was reserved on the
/// chosen server and a session stored: the answer names that server's address
/// and port, and the token in it is then valid for that server and for the
/// player's ID.
pub proof fn law_join_hands_out_valid_token(
    store: Store,
    replies: Vec<(String, Fields)>,
    server: ServerInfoView,
    reserved_at: u64,
    counter: i64,
    now_secs: u64,
    token: Seq<char>,
)
    requires
        chosen_server(replies@) == Some(server),
        now_secs + SESSION_TTL_SECS <= u64::MAX,
    ensures
        ({
            let finding = join_step(JoinFlowView::Connecting, JoinEvent::Done, token);
            let reserving = join_step(finding.0, JoinEvent::Servers(replies), token);
            let counting = join_step(
                reserving.0,
                JoinEvent::Reply { number: 1, now_secs: reserved_at },
                token,
            );
            let storing = join_step(
                counting.0,
                JoinEvent::Reply { number: counter, now_secs },
                token,
            );
            let answer = join_step(storing.0, JoinEvent::Done, token).1;
            let player_id = counter_player_id(counter as int);
            &&& finding.1 == JoinActionView::ListServers
            &&& reserving.1 == JoinActionView::Query(reservation(server.id, server.capacity as nat))
            &&& counting.1 == JoinActionView::Query(
                CommandView::Incr { key: "player:id_counter"@, by: 1 },
            )
            &&& storing.1 is Run
            &&& answer == JoinActionView::Respond(
                JoinResponseView {
                    token,
                    server_addr: server.address,
                    quic_port: server.quic_port,
                },
            )
            &&& session(store.after_all(storing.1->Run_0).hash(session_key_text(token))) == Some(
                (server.id, player_id),
            )
        }),
{
    let player_id = counter_player_id(counter as int);
    law_session_roundtrip(
        store,
        token,
        server.id,
        player_id as nat,
        (now_secs + SESSION_TTL_SECS) as nat,
    );
}

/// Whether a list is what reading all active servers gives: every member of the
/// active set once, with the hash of the server.
pub open spec fn is_listing(replies: Seq<(String, Fields)>, store: Store) -> bool {
    &&& forall|i: int|
        #![trigger replies[i]]
        0 <= i < replies.len() ==> store.members(active_servers_key_text()).contains(replies[i].0@)
            && replies[i].1@ == store.hash(server_key_text(replies[i].0@))
    &&& forall|id: Seq<char>|
        store.members(active_servers_key_text()).contains(id) ==> #[trigger] is_listed(replies, id)
    &&& forall|i: int, j: int|
        0 <= i < j < replies.len() ==> (#[trigger] replies[i]).0@ != (#[trigger] replies[j]).0@
}

/// Whether a list names a server.
pub open spec fn is_listed(replies: Seq<(String, Fields)>, id: Seq<char>) -> bool {
    exists|i: int| 0 <= i < replies.len() && (#[trigger] replies[i]).0@ == id
}

/// What comes back of a command that is answered with a number.
pub open spec fn answered(store: Store, command: CommandView, now_secs: u64) -> JoinEvent {
    match store.number_reply(command) {
        Some(number) => JoinEvent::Reply { number: number as i64, now_secs },
        None => JoinEvent::Failed,
    }
}

/// A whole request, with nobody else writing meanwhile: the store afterwards,
/// and how the request ended. `replies` is what was listed, and the two times
/// are those of the reservation and of the player's ID.
pub open spec fn join_run(
    store: Store,
    replies: Vec<(String, Fields)>,
    reserved_at: u64,
    counted_at: u64,
    token: Seq<char>,
) -> (Store, JoinActionView) {
    let finding = join_step(JoinFlowView::Connecting, JoinEvent::Done, token);
    let reserving = join_step(finding.0, JoinEvent::Servers(replies), token);
    match reserving.1 {
        JoinActionView::Query(reserve) => {
            let taken = store.after(reserve);
            let counting = join_step(reserving.0, answered(store, reserve, reserved_at), token);
            match counting.1 {
                JoinActionView::Query(count) => {
                    let counted = taken.after(count);
                    let storing = join_step(counting.0, answered(taken, count, counted_at), token);
                    match storing.1 {
                        JoinActionView::Run(list) => (
                            counted.after_all(list),
                            join_step(storing.0, JoinEvent::Done, token).1,
                        ),
                        end => (counted, end),
                    }
                },
                end => (taken, end),
            }
        },
        end => (store, end),
    }
}

/// Whether a player joined a server: it was active, ready and below its
/// capacity, and no such server had more players; the answer names its address
/// and port; it counts one player more; the token in the answer is valid for it
/// and the ID just drawn from the counter; and no other server and no other
/// session changed.
pub open spec fn joined_server(
    before: Store,
    after: Store,
    answer: JoinResponseView,
    id: Seq<char>,
) -> bool {
    let active = active_servers_key_text();
    let key = server_key_text(id);
    let hash = before.hash(key);
    let drawn = stored_number(before.text("player:id_counter"@)) + 1;
    &&& before.members(active).contains(id)
    &&& is_joinable(hash)
    &&& forall|other: Seq<char>| #[trigger]
        before.members(active).contains(other) && is_joinable(before.hash(server_key_text(other)))
            ==> player_count(before.hash(server_key_text(other))) <= player_count(hash)
    &&& answer.server_addr == join_target(id, hash).address
    &&& answer.quic_port == join_target(id, hash).quic_port
    &&& after.hash(key) == hash.insert("player_count"@, signed_decimal(counted_players(hash) + 1))
    &&& counted_players(after.hash(key)) == counted_players(hash) + 1 <= capacity(hash)
    &&& after.text("player:id_counter"@) == Some(signed_decimal(drawn))
    &&& session(after.hash(session_key_text(answer.token))) == Some((id, counter_player_id(drawn)))
    &&& forall|other: Seq<char>|
        other != id ==> after.hash(#[trigger] server_key_text(other)) == before.hash(
            server_key_text(other),
        )
    &&& after.sets == before.sets
    &&& forall|other: Seq<char>|
        other != answer.token ==> after.hash(#[trigger] session_key_text(other)) == before.hash(
            session_key_text(other),
        )
}

/// A request that nobody else's writes meet is answered exactly if there is a
/// server to join on which a slot can be reserved, and an ID can be drawn. Then
/// exactly that one server gained one player: the answer sends the player there
/// with a token that is valid for it, and no other server and no other session
/// changed. A request that finds no server to join, or no slot on it, changes
/// nothing.
pub proof fn law_join_takes_one_slot(
    store: Store,
    replies: Vec<(String, Fields)>,
    reserved_at: u64,
    counted_at: u64,
    token: Seq<char>,
)
    requires
        is_listing(replies@, store),
        counted_at + SESSION_TTL_SECS <= u64::MAX,
    ensures
        ({
            let (after, end) = join_run(store, replies, reserved_at, counted_at, token);
            let has_id = added(store.text("player:id_counter"@), 1) is Some;
            match chosen_server(replies@) {
                Some(server) => {
                    let room = can_reserve(
                        store.hash(server_key_text(server.id)),
                        server.capacity,
                    );
                    &&& end is Respond <==> room && has_id
                    &&& end matches JoinActionView::Respond(answer) ==> answer.token == token
                        && joined_server(store, after, answer, server.id)
                    &&& !room ==> after == store
                },
                None => after == store && end == JoinActionView::Reject(
                    JoinError::ServiceUnavailable,
                ),
            }
        }),
{
    match chosen_server(replies@) {
        Some(server) => {
            let i = choose|i: int| is_best(replies@, i);
            let id = replies@[i].0@;
            let key = server_key_text(id);
            let hash = store.hash(key);
            assert(replies@[i].1@ == hash);
            assert(server == join_target(id, hash));
            let limit = capacity(hash);
            let counter = "player:id_counter"@;
            let drawn = stored_number(store.text(counter)) + 1;
            lemma_capacity_bound(hash);
            law_decimal_roundtrip(limit as nat, u32::MAX as int);
            let reserve = reservation(id, limit as nat);
            let taken = store.after(reserve);
            let count = CommandView::Incr { key: counter, by: 1 };
            let counted = taken.after(count);
            if can_reserve(hash, limit) {
                law_signed_decimal_roundtrip(counted_players(hash) + 1);
                assert(store.number_reply(reserve) == Some(1int));
                assert(taken.text(counter) == store.text(counter));
                if added(store.text(counter), 1) is Some {
                    law_signed_decimal_roundtrip(drawn);
                    assert(taken.number_reply(count) == Some(drawn));
                    let player_id = counter_player_id(drawn) as nat;
                    let expires_at = (counted_at + SESSION_TTL_SECS) as nat;
                    law_session_roundtrip(counted, token, id, player_id, expires_at);
                    let after = counted.after_all(
                        session_commands(token, id, player_id, expires_at),
                    );
                    let answer = JoinResponseView {
                        token,
                        server_addr: server.address,
                        quic_port: server.quic_port,
                    };
                    assert(join_run(store, replies, reserved_at, counted_at, token) == (
                        after,
                        JoinActionView::Respond(answer),
                    ));
                    law_session_stored(counted, token, id, player_id, expires_at);
                    law_key_kinds_disjoint(id, token);
                    assert(joined_server(store, after, answer, id)) by {
                        assert forall|other: Seq<char>| #[trigger]
                            store.members(active_servers_key_text()).contains(other) && is_joinable(
                                store.hash(server_key_text(other)),
                            ) implies player_count(store.hash(server_key_text(other)))
                            <= player_count(hash) by {
                            assert(is_listed(replies@, other));
                            let k = choose|k: int|
                                0 <= k < replies@.len() && (#[trigger] replies@[k]).0@ == other;
                            assert(replies@[k].1@ == store.hash(server_key_text(other)));
                        }
                        assert forall|other: Seq<char>| other != id implies after.hash(
                            #[trigger] server_key_text(other),
                        ) == store.hash(server_key_text(other)) by {
                            law_server_keys_distinct(id, other);
                            law_key_kinds_disjoint(other, token);
                        }
                        assert forall|other: Seq<char>| other != token implies after.hash(
                            #[trigger] session_key_text(other),
                        ) == store.hash(session_key_text(other)) by {
                            law_session_keys_distinct(token, other);
                            law_key_kinds_disjoint(id, other);
                        }
                    }
                }
            } else {
                assert(taken == store);
            }
        },
        None => {},
    }
}

proof fn lemma_capacity_bound(hash: Map<Seq<char>, Seq<char>>)
    ensures
        0 <= capacity(hash) <= u32::MAX,
{
    match field(hash, "capacity"@) {
        Some(text) => law_unsigned_value_bound(text, u32::MAX as int),
        None => {},
    }
}

/// No step but the last gives an answer: a request that gives one had stored
/// its session, and one had its session stored only if a slot was reserved for
/// it.
pub proof fn law_join_answers_last(flow: JoinFlowView, event: JoinEvent, token: Seq<char>)
    requires
        admits(flow, event),
    ensures
        ({
            let (after, action) = join_step(flow, event, token);
            &&& action is Respond ==> flow is Storing && event is Done
            &&& after is Storing ==> flow is Counting
            &&& after is Counting ==> flow is Reserving && event->number == 1
        }),
{
}

} // verus!
