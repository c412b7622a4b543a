//! The shard's connections: its registration, its certificate, and what
//! happens from a player's connection to their disconnection.

use vstd::prelude::*;

use crate::certs::{
    cert_content, cert_der, der, is_address_char, key_der, private_key, simple_self_signed,
};
use crate::command::{commands, CommandView, RedisCommand};
use crate::fields::{
    entry, field, fields_of, lemma_server_field_names, text_field,
};
use crate::game::server::ServerConfig;
use crate::gatekeeper::quic_validator::verdict;
use crate::gatekeeper::redis_ops::{
    capacity, is_joinable, join_target, law_session_roundtrip, player_count, reservation, session,
    session_commands, ServerInfoView as JoinTargetView,
};
use crate::orchestrator::redis_ops::{
    law_register_then_list, registration, server_info, ServerInfoView as InstanceView,
};
use crate::packets::{AuthAck, PlayerInput, Single, ValidationResponse};
use crate::redis_keys::{
    active_servers_key, active_servers_key_text, server_key, server_key_text, session_key_text,
};
use crate::scripts::{can_reserve, counted_players, has_countable_players};
use crate::store::{law_after_one, law_after_two, Store};
use crate::text::{
    decimal, law_decimal_roundtrip, law_signed_decimal_roundtrip, pairs, signed_decimal, str_eq,
    texts, u16_text, u32_text, u64_text,
};
use crate::wire::{
    bytes_text, bytes_verdict, decode_validate_token, decode_validation_response, encode_auth_ack,
    encode_validate_token, number_bytes, text_bytes,
};

verus! {

/// Seconds between two heartbeats.
pub const HEARTBEAT_SECS: u64 = 2;

/// The largest authentication request, in bytes.
pub const MAX_AUTH_BYTES: usize = 4096;

// ---------------------------------------------------------------------------
// Registration
// ---------------------------------------------------------------------------
/// What a server writes about itself.
pub open spec fn self_fields(cfg: ServerConfig, status: Seq<char>) -> Seq<(Seq<char>, Seq<char>)> {
    seq![
        ("address"@, cfg.public_addr@),
        ("quic_port"@, decimal(cfg.quic_port as nat)),
        ("player_count"@, decimal(0)),
        ("capacity"@, decimal(cfg.max_players as nat)),
        ("status"@, status),
    ]
}

/// The commands by which a server registers itself; one that is ready also
/// joins the active set.
pub open spec fn self_registration(cfg: ServerConfig, status: Seq<char>) -> Seq<CommandView> {
    let write = CommandView::HSet {
        key: server_key_text(cfg.server_id@),
        fields: self_fields(cfg, status),
    };
    if status == "ready"@ {
        seq![
            write,
            CommandView::SAdd { key: active_servers_key_text(), member: cfg.server_id@ },
        ]
    } else {
        seq![write]
    }
}

/// Registers the server under a status.
pub fn register_server(cfg: &ServerConfig, status: &str) -> (res: Vec<RedisCommand>)
    ensures
        commands(res@) == self_registration(*cfg, status@),
{
    let mut fields: Vec<(String, String)> = Vec::new();
    fields.push(entry("address", cfg.public_addr.as_str()));
    fields.push(entry("quic_port", u16_text(cfg.quic_port).as_str()));
    fields.push(entry("player_count", u32_text(0).as_str()));
    fields.push(entry("capacity", u32_text(cfg.max_players).as_str()));
    fields.push(entry("status", status));
    assert(pairs(fields@) =~= self_fields(*cfg, status@));
    let mut res: Vec<RedisCommand> = Vec::new();
    res.push(RedisCommand::HSet { key: server_key(cfg.server_id.as_str()), fields });
    if str_eq(status, "ready") {
        res.push(
            RedisCommand::SAdd {
                key: active_servers_key().to_owned(),
                member: cfg.server_id.clone(),
            },
        );
    }
    assert(commands(res@) =~= self_registration(*cfg, status@));
    res
}

/// The command of a heartbeat: how many players are connected, and the time in
/// seconds since the epoch.
pub open spec fn heartbeat(server_id: Seq<char>, connected: nat, now_secs: nat) -> CommandView {
    CommandView::HSet {
        key: server_key_text(server_id),
        fields: seq![("player_count"@, decimal(connected)), ("heartbeat"@, decimal(now_secs))],
    }
}

/// Updates `player_count` to the number of connected players, and notes the
/// time.
pub fn redis_heartbeat(server_id: &str, connected: u32, now_secs: u64) -> (res: RedisCommand)
    ensures
        res@ == heartbeat(server_id@, connected as nat, now_secs as nat),
{
    let mut fields: Vec<(String, String)> = Vec::new();
    fields.push(entry("player_count", u32_text(connected).as_str()));
    fields.push(entry("heartbeat", u64_text(now_secs).as_str()));
    assert(pairs(fields@) =~= heartbeat(
        server_id@,
        connected as nat,
        now_secs as nat,
    )->HSet_fields);
    RedisCommand::HSet { key: server_key(server_id), fields }
}

// ---------------------------------------------------------------------------
// Starting up
// ---------------------------------------------------------------------------
/// One thing that a starting server does.
#[derive(Debug, Clone, PartialEq, Eq)]
pub enum SetupStep {
    /// Runs commands in order, until one fails.
    Run(Vec<RedisCommand>),
    /// Binds the endpoint to an address.
    Bind(String),
    /// Accepts players, in the background.
    Accept,
    /// Sends heartbeats, in the background.
    Heartbeat,
}

/// The view of a `SetupStep`.
pub enum SetupStepView {
    Run(Seq<CommandView>),
    Bind(Seq<char>),
    Accept,
    Heartbeat,
}

impl View for SetupStep {
    type V = SetupStepView;

    open spec fn view(&self) -> SetupStepView {
        match self {
            SetupStep::Run(list) => SetupStepView::Run(commands(list@)),
            SetupStep::Bind(addr) => SetupStepView::Bind(addr@),
            SetupStep::Accept => SetupStepView::Accept,
            SetupStep::Heartbeat => SetupStepView::Heartbeat,
        }
    }
}

/// A list of steps.
pub open spec fn setup_steps(v: Seq<SetupStep>) -> Seq<SetupStepView> {
    v.map_values(|s: SetupStep| s@)
}

/// The address that the endpoint of a server is bound to.
pub open spec fn bind_address(quic_port: nat) -> Seq<char> {
    "0.0.0.0:"@ + decimal(quic_port)
}

/// What a server does to start, in order; it gives up at the first step that
/// fails. It is registered as ready only once it accepts players.
pub fn setup(cfg: &ServerConfig) -> (res: Vec<SetupStep>)
    ensures
        setup_steps(res@) == seq![
            SetupStepView::Run(self_registration(*cfg, "starting"@)),
            SetupStepView::Bind(bind_address(cfg.quic_port as nat)),
            SetupStepView::Accept,
            SetupStepView::Run(self_registration(*cfg, "ready"@)),
            SetupStepView::Heartbeat,
        ],
{
    let mut res: Vec<SetupStep> = Vec::new();
    res.push(SetupStep::Run(register_server(cfg, "starting")));
    res.push(SetupStep::Bind("0.0.0.0:".to_owned().concat(u16_text(cfg.quic_port).as_str())));
    res.push(SetupStep::Accept);
    res.push(SetupStep::Run(register_server(cfg, "ready")));
    res.push(SetupStep::Heartbeat);
    assert(setup_steps(res@) =~= seq![
        SetupStepView::Run(self_registration(*cfg, "starting"@)),
        SetupStepView::Bind(bind_address(cfg.quic_port as nat)),
        SetupStepView::Accept,
        SetupStepView::Run(self_registration(*cfg, "ready"@)),
        SetupStepView::Heartbeat,
    ]);
    res
}

/// A certificate and its private key, both in DER form.
#[derive(Debug, Clone, PartialEq, Eq)]
pub struct ServerCert {
    pub cert_der: Vec<u8>,
    pub key_der: Vec<u8>,
}

/// Whether bytes are a certificate for `localhost` that is signed with its own
/// key, and that key.
pub open spec fn is_localhost_cert(cert_bytes: Seq<u8>, key_bytes: Seq<u8>) -> bool {
    exists|cert: rcgen::Certificate|
        #[trigger]
        cert_der(cert) == cert_bytes && cert_content(cert) == (
            (seq!["localhost"@], false),
            Some(key_bytes),
            Some(key_bytes),
        )
}

/// The certificate and its key, once they were made; `None` where they could
/// not be.
pub fn server_cert(
    made: Result<(rcgen::Certificate, rcgen::KeyPair), rcgen::Error>,
) -> (res: Option<ServerCert>)
    requires
        made is Ok ==> private_key(made->Ok_0.1) is Some,
    ensures
        (match made {
            Ok(parts) => res is Some && res->Some_0.cert_der@ == cert_der(parts.0) && private_key(
                parts.1,
            ) == Some(res->Some_0.key_der@),
            Err(_) => res is None,
        }),
{
    match made {
        Ok((cert, key)) => Some(ServerCert { cert_der: der(&cert), key_der: key_der(&key) }),
        Err(_) => None,
    }
}

/// The certificate that the endpoint is bound with; `None` where none could be
/// made, which rests on chance.
pub fn bind_quic_endpoint() -> (res: Option<ServerCert>)
    ensures
        res is Some ==> is_localhost_cert(res->Some_0.cert_der@, res->Some_0.key_der@),
{
    let mut names: Vec<String> = Vec::new();
    names.push("localhost".to_owned());
    proof {
        reveal_strlit("localhost");
        assert(!is_address_char("localhost"@[0]));
        assert(texts(names@) =~= seq!["localhost"@]);
    }
    let made = simple_self_signed(names);
    let ghost parts = made;
    let res = server_cert(made);
    proof {
        if parts is Ok {
            assert(cert_der(parts->Ok_0.0) == res->Some_0.cert_der@);
            assert(is_localhost_cert(res->Some_0.cert_der@, res->Some_0.key_der@));
        }
    }
    res
}

// ---------------------------------------------------------------------------
// Entity ids
// ---------------------------------------------------------------------------
/// Hands out entity ids.
#[derive(Debug, Clone, PartialEq, Eq)]
pub struct EntityIds {
    next: u32,
}

impl View for EntityIds {
    type V = int;

    /// The id that is handed out next.
    closed spec fn view(&self) -> int {
        self.next as int
    }
}

impl EntityIds {
    /// Starts with 1.
    pub fn new() -> (res: EntityIds)
        ensures
            res@ == 1,
    {
        EntityIds { next: 1 }
    }

    /// The next id; after the last 32-bit number comes 0.
    pub fn allocate(&mut self) -> (res: u32)
        ensures
            res == old(self)@,
            final(self)@ == (old(self)@ + 1) % 0x1_0000_0000,
    {
        let id: u32 = self.next;
        self.next = id.wrapping_add(1);
        id
    }
}

/// The id that is handed out after a number of others, from a fresh start.
pub open spec fn nth_entity_id(n: nat) -> int
    decreases n,
{
    if n == 0 {
        1
    } else {
        (nth_entity_id((n - 1) as nat) + 1) % 0x1_0000_0000
    }
}

/// Ids are handed out from 1 on without gaps, so that no two of the first
/// 4294967295 players of a shard share one.
pub proof fn law_entity_ids_distinct(n: nat)
    requires
        n < 0xffff_ffff,
    ensures
        nth_entity_id(n) == n + 1,
    decreases n,
{
    if n > 0 {
        law_entity_ids_distinct((n - 1) as nat);
    }
}

// ---------------------------------------------------------------------------
// Connected players
// ---------------------------------------------------------------------------
/// The connections of all authenticated players, in the order in which they
/// joined.
#[derive(Debug, Clone, PartialEq, Eq)]
pub struct ConnectedPlayers<C> {
    pub connections: Vec<(u32, C)>,
}

/// A list of connections without those of one player.
pub open spec fn without<C>(connections: Seq<(u32, C)>, entity_id: u32) -> Seq<(u32, C)>
    decreases connections.len(),
{
    if connections.len() == 0 {
        Seq::empty()
    } else {
        let rest = without(connections.drop_last(), entity_id);
        if connections.last().0 == entity_id {
            rest
        } else {
            rest.push(connections.last())
        }
    }
}

impl<C> ConnectedPlayers<C> {
    /// Nobody is connected.
    pub fn new() -> (res: ConnectedPlayers<C>)
        ensures
            res.connections@ == Seq::<(u32, C)>::empty(),
    {
        ConnectedPlayers { connections: Vec::new() }
    }

    /// Adds a player's connection.
    pub fn join(&mut self, entity_id: u32, connection: C)
        ensures
            final(self).connections@ == old(self).connections@.push((entity_id, connection)),
    {
        self.connections.push((entity_id, connection));
    }

    /// Drops a player's connection.
    pub fn leave(&mut self, entity_id: u32)
        ensures
            final(self).connections@ == without(old(self).connections@, entity_id),
    {
        let ghost all = self.connections@;
        let ghost mut seen: int = 0;
        let mut i: usize = 0;
        assert(without(all.take(0), entity_id) + all.skip(0) =~= all);
        while i < self.connections.len()
            invariant
                0 <= seen <= all.len(),
                i == without(all.take(seen), entity_id).len(),
                self.connections@ == without(all.take(seen), entity_id) + all.skip(seen),
            decreases self.connections@.len() - i,
        {
            let ghost before = without(all.take(seen), entity_id);
            proof {
                assert(all.take(seen + 1).drop_last() =~= all.take(seen));
                assert(self.connections@[i as int] == all[seen]);
            }
            if self.connections[i].0 == entity_id {
                let _dropped = self.connections.remove(i);
                assert(self.connections@ =~= before + all.skip(seen + 1));
            } else {
                i = i + 1;
                assert(self.connections@ =~= before.push(all[seen]) + all.skip(seen + 1));
            }
            proof {
                seen = seen + 1;
            }
        }
        assert(all.take(all.len() as int) =~= all);
        assert(self.connections@ =~= without(all, entity_id));
    }
}

/// A player who leaves is gone from the list, everybody else stays, and a
/// player who joins and leaves at once leaves no trace.
pub proof fn law_leave<C>(connections: Seq<(u32, C)>, entity_id: u32, connection: C)
    ensures
        forall|i: int|
            0 <= i < without(connections, entity_id).len() ==> (#[trigger] without(
                connections,
                entity_id,
            )[i]).0 != entity_id,
        forall|i: int|
            0 <= i < connections.len() && (#[trigger] connections[i]).0 != entity_id ==> without(
                connections,
                entity_id,
            ).contains(connections[i]),
        without(connections.push((entity_id, connection)), entity_id) == without(
            connections,
            entity_id,
        ),
    decreases connections.len(),
{
    assert(connections.push((entity_id, connection)).drop_last() =~= connections);
    if connections.len() > 0 {
        let rest = connections.drop_last();
        let kept = without(rest, entity_id);
        law_leave(rest, entity_id, connection);
        assert forall|i: int|
            0 <= i < connections.len() && (#[trigger] connections[i]).0
                != entity_id implies without(connections, entity_id).contains(connections[i]) by {
            if i < rest.len() {
                assert(rest[i] == connections[i]);
                let k = choose|k: int| 0 <= k < kept.len() && kept[k] == connections[i];
                assert(without(connections, entity_id)[k] == connections[i]);
            } else {
                assert(without(connections, entity_id)[kept.len() as int] == connections[i]);
            }
        }
    }
}

// ---------------------------------------------------------------------------
// One connection
// ---------------------------------------------------------------------------
/// A command sent from a connection to the simulation.
#[derive(Debug, Clone, PartialEq, Eq)]
pub enum SimCommand {
    PlayerJoined { entity_id: u32, display_name: String },
    PlayerLeft { entity_id: u32 },
    PlayerInput { entity_id: u32, dx: Single, dy: Single },
}

/// The view of a `SimCommand`.
pub enum SimCommandView {
    PlayerJoined { entity_id: u32, display_name: Seq<char> },
    PlayerLeft { entity_id: u32 },
    PlayerInput { entity_id: u32, dx: Single, dy: Single },
}

impl View for SimCommand {
    type V = SimCommandView;

    open spec fn view(&self) -> SimCommandView {
        match self {
            SimCommand::PlayerJoined { entity_id, display_name } => SimCommandView::PlayerJoined {
                entity_id: *entity_id,
                display_name: display_name@,
            },
            SimCommand::PlayerLeft { entity_id } => SimCommandView::PlayerLeft {
                entity_id: *entity_id,
            },
            SimCommand::PlayerInput { entity_id, dx, dy } => SimCommandView::PlayerInput {
                entity_id: *entity_id,
                dx: *dx,
                dy: *dy,
            },
        }
    }
}

/// How far a connection is: what it waits for.
#[derive(Debug, Clone, PartialEq, Eq)]
pub enum ConnStage {
    /// For the authentication request.
    Authenticating,
    /// For the gatekeeper's answer about the token.
    Validating { token: String },
    /// For the acknowledgement to be sent.
    Acknowledging { display_name: String },
    /// For input.
    Playing,
    Ended,
}

/// The view of a `ConnStage`.
pub enum ConnStageView {
    Authenticating,
    Validating { token: Seq<char> },
    Acknowledging { display_name: Seq<char> },
    Playing,
    Ended,
}

impl View for ConnStage {
    type V = ConnStageView;

    open spec fn view(&self) -> ConnStageView {
        match self {
            ConnStage::Authenticating => ConnStageView::Authenticating,
            ConnStage::Validating { token } => ConnStageView::Validating { token: token@ },
            ConnStage::Acknowledging { display_name } => ConnStageView::Acknowledging {
                display_name: display_name@,
            },
            ConnStage::Playing => ConnStageView::Playing,
            ConnStage::Ended => ConnStageView::Ended,
        }
    }
}

/// A player's connection to a shard.
#[derive(Debug, Clone, PartialEq, Eq)]
pub struct PlayerConnection {
    pub entity_id: u32,
    pub server_id: String,
    pub stage: ConnStage,
}

/// The view of a `PlayerConnection`.
pub struct PlayerConnectionView {
    pub entity_id: u32,
    pub server_id: Seq<char>,
    pub stage: ConnStageView,
}

impl View for PlayerConnection {
    type V = PlayerConnectionView;

    open spec fn view(&self) -> PlayerConnectionView {
        PlayerConnectionView {
            entity_id: self.entity_id,
            server_id: self.server_id@,
            stage: self.stage@,
        }
    }
}

/// What happened on a connection.
#[derive(Debug, Clone, PartialEq, Eq)]
pub enum ConnEvent {
    /// The authentication request came in.
    AuthData(Vec<u8>),
    /// The gatekeeper answered.
    Verdict(Vec<u8>),
    /// The acknowledgement was sent.
    AckSent,
    /// A datagram came in: the input in it, if it holds one.
    Datagram(Option<PlayerInput>),
    /// Reading or writing failed, the gatekeeper could not be asked, or the
    /// player disconnected.
    Failed,
}

/// The view of a `ConnEvent`.
pub enum ConnEventView {
    AuthData(Seq<u8>),
    Verdict(Seq<u8>),
    AckSent,
    Datagram(Option<PlayerInput>),
    Failed,
}

impl View for ConnEvent {
    type V = ConnEventView;

    open spec fn view(&self) -> ConnEventView {
        match self {
            ConnEvent::AuthData(data) => ConnEventView::AuthData(data@),
            ConnEvent::Verdict(data) => ConnEventView::Verdict(data@),
            ConnEvent::AckSent => ConnEventView::AckSent,
            ConnEvent::Datagram(input) => ConnEventView::Datagram(*input),
            ConnEvent::Failed => ConnEventView::Failed,
        }
    }
}

/// One thing to do about a connection. Several are done in order; failures to
/// notify or to run a command are passed over.
#[derive(Debug, Clone, PartialEq, Eq)]
pub enum ConnAction {
    /// Sends a request to the gatekeeper and reads its answer.
    AskGatekeeper(Vec<u8>),
    SendAck(Vec<u8>),
    /// Adds the connection to the list of connected players.
    AddConnection,
    /// Drops the connection from the list of connected players.
    RemoveConnection,
    Notify(SimCommand),
    Run(RedisCommand),
}

/// The view of a `ConnAction`.
pub enum ConnActionView {
    AskGatekeeper(Seq<u8>),
    SendAck(Seq<u8>),
    AddConnection,
    RemoveConnection,
    Notify(SimCommandView),
    Run(CommandView),
}

impl View for ConnAction {
    type V = ConnActionView;

    open spec fn view(&self) -> ConnActionView {
        match self {
            ConnAction::AskGatekeeper(data) => ConnActionView::AskGatekeeper(data@),
            ConnAction::SendAck(data) => ConnActionView::SendAck(data@),
            ConnAction::AddConnection => ConnActionView::AddConnection,
            ConnAction::RemoveConnection => ConnActionView::RemoveConnection,
            ConnAction::Notify(command) => ConnActionView::Notify(command@),
            ConnAction::Run(command) => ConnActionView::Run(command@),
        }
    }
}

/// A list of actions.
pub open spec fn conn_actions(v: Seq<ConnAction>) -> Seq<ConnActionView> {
    v.map_values(|a: ConnAction| a@)
}

/// The command that counts one player less.
pub open spec fn departure(server_id: Seq<char>) -> CommandView {
    CommandView::HIncrBy { key: server_key_text(server_id), field: "player_count"@, by: -1 }
}

/// Whether a connection takes in an event.
pub open spec fn conn_admits(stage: ConnStageView, event: ConnEventView) -> bool {
    match stage {
        ConnStageView::Authenticating => event is AuthData || event is Failed,
        ConnStageView::Validating { token: _ } => event is Verdict || event is Failed,
        ConnStageView::Acknowledging { display_name: _ } => event is AckSent || event is Failed,
        ConnStageView::Playing => event is Datagram || event is Failed,
        ConnStageView::Ended => false,
    }
}

/// Whether the gatekeeper's answer says that the token is valid.
pub open spec fn is_valid_answer(data: Seq<u8>) -> bool {
    bytes_verdict(data) matches Some(verdict) && verdict is Some
}

/// The next stage of a connection and what to do. The token of the
/// authentication request is handed to the gatekeeper, and only the answer that
/// it is valid is acknowledged; the token then is the player's name. A
/// connection that ends before the acknowledgement is sent leaves no trace;
/// afterwards the player has joined, and its end is their leaving.
pub open spec fn conn_step(conn: PlayerConnectionView, event: ConnEventView) -> (
    PlayerConnectionView,
    Seq<ConnActionView>,
) {
    let id = conn.entity_id;
    let (stage, actions) = match (conn.stage, event) {
        (ConnStageView::Authenticating, ConnEventView::AuthData(data)) => match bytes_text(data) {
            Some(token) => (
                ConnStageView::Validating { token },
                seq![ConnActionView::AskGatekeeper(text_bytes(token))],
            ),
            None => (ConnStageView::Ended, Seq::empty()),
        },
        (ConnStageView::Validating { token }, ConnEventView::Verdict(data)) => if is_valid_answer(
            data,
        ) {
            (
                ConnStageView::Acknowledging { display_name: token },
                seq![ConnActionView::SendAck(number_bytes(id))],
            )
        } else {
            (ConnStageView::Ended, Seq::empty())
        },
        (ConnStageView::Acknowledging { display_name }, ConnEventView::AckSent) => (
            ConnStageView::Playing,
            seq![
                ConnActionView::AddConnection,
                ConnActionView::Notify(
                    SimCommandView::PlayerJoined { entity_id: id, display_name },
                ),
            ],
        ),
        (ConnStageView::Playing, ConnEventView::Datagram(input)) => (
            ConnStageView::Playing,
            match input {
                Some(i) => seq![
                    ConnActionView::Notify(
                        SimCommandView::PlayerInput { entity_id: id, dx: i.dx, dy: i.dy },
                    ),
                ],
                None => Seq::empty(),
            },
        ),
        (ConnStageView::Playing, _) => (
            ConnStageView::Ended,
            seq![
                ConnActionView::RemoveConnection,
                ConnActionView::Notify(SimCommandView::PlayerLeft { entity_id: id }),
                ConnActionView::Run(departure(conn.server_id)),
            ],
        ),
        (_, _) => (ConnStageView::Ended, Seq::empty()),
    };
    (PlayerConnectionView { stage, ..conn }, actions)
}

/// Starts on a player's connection: the player gets the next entity id.
pub fn handle_connection(ids: &mut EntityIds, server_id: String) -> (res: PlayerConnection)
    ensures
        final(ids)@ == (old(ids)@ + 1) % 0x1_0000_0000,
        res@.entity_id == old(ids)@,
        res@.server_id == server_id@,
        res@.stage == ConnStageView::Authenticating,
{
    PlayerConnection { entity_id: ids.allocate(), server_id, stage: ConnStage::Authenticating }
}

impl PlayerConnection {
    /// Takes in what happened, and gives what to do.
    pub fn step(self, event: ConnEvent) -> (res: (PlayerConnection, Vec<ConnAction>))
        requires
            conn_admits(self@.stage, event@),
        ensures
            (res.0@, conn_actions(res.1@)) == conn_step(self@, event@),
    {
        let ghost expected = conn_step(self@, event@).1;
        let PlayerConnection { entity_id, server_id, stage } = self;
        let mut actions: Vec<ConnAction> = Vec::new();
        let stage = match (stage, event) {
            (ConnStage::Authenticating, ConnEvent::AuthData(data)) => {
                match decode_validate_token(data.as_slice()) {
                    Ok(packet) => {
                        actions.push(ConnAction::AskGatekeeper(encode_validate_token(&packet)));
                        ConnStage::Validating { token: packet.token }
                    },
                    Err(_) => ConnStage::Ended,
                }
            },
            (ConnStage::Validating { token }, ConnEvent::Verdict(data)) => {
                match decode_validation_response(data.as_slice()) {
                    Ok(ValidationResponse::Valid(_)) => {
                        actions.push(ConnAction::SendAck(encode_auth_ack(&AuthAck { entity_id })));
                        ConnStage::Acknowledging { display_name: token }
                    },
                    Ok(ValidationResponse::Invalid(_)) => ConnStage::Ended,
                    Err(_) => ConnStage::Ended,
                }
            },
            (ConnStage::Acknowledging { display_name }, ConnEvent::AckSent) => {
                actions.push(ConnAction::AddConnection);
                actions.push(
                    ConnAction::Notify(SimCommand::PlayerJoined { entity_id, display_name }),
                );
                ConnStage::Playing
            },
            (ConnStage::Playing, ConnEvent::Datagram(input)) => {
                match input {
                    Some(i) => {
                        actions.push(
                            ConnAction::Notify(
                                SimCommand::PlayerInput { entity_id, dx: i.dx, dy: i.dy },
                            ),
                        );
                    },
                    None => {},
                }
                ConnStage::Playing
            },
            (ConnStage::Playing, _) => {
                actions.push(ConnAction::RemoveConnection);
                actions.push(ConnAction::Notify(SimCommand::PlayerLeft { entity_id }));
                actions.push(
                    ConnAction::Run(
                        RedisCommand::HIncrBy {
                            key: server_key(server_id.as_str()),
                            field: "player_count".to_owned(),
                            by: -1,
                        },
                    ),
                );
                ConnStage::Ended
            },
            (_, _) => ConnStage::Ended,
        };
        assert(conn_actions(actions@) =~= expected);
        (PlayerConnection { entity_id, server_id, stage }, actions)
    }
}

// ---------------------------------------------------------------------------
// Laws
// ---------------------------------------------------------------------------
/// What a hash holds that only a server itself wrote to.
pub(crate) proof fn lemma_self_fields(cfg: ServerConfig, status: Seq<char>)
    ensures
        ({
            let hash = fields_of(self_fields(cfg, status));
            &&& field(hash, "address"@) == Some(cfg.public_addr@)
            &&& field(hash, "quic_port"@) == Some(decimal(cfg.quic_port as nat))
            &&& field(hash, "player_count"@) == Some(decimal(0))
            &&& field(hash, "capacity"@) == Some(decimal(cfg.max_players as nat))
            &&& field(hash, "status"@) == Some(status)
        }),
{
    let w5 = self_fields(cfg, status);
    let w4 = w5.drop_last();
    let w3 = w4.drop_last();
    let w2 = w3.drop_last();
    let w1 = w2.drop_last();
    lemma_server_field_names();
    assert(w1.drop_last() =~= Seq::empty());
    assert(fields_of(w1) == fields_of(w1.drop_last()).insert("address"@, cfg.public_addr@));
    assert(fields_of(w2) == fields_of(w1).insert("quic_port"@, decimal(cfg.quic_port as nat)));
    assert(fields_of(w3) == fields_of(w2).insert("player_count"@, decimal(0)));
    assert(fields_of(w4) == fields_of(w3).insert("capacity"@, decimal(cfg.max_players as nat)));
    assert(fields_of(w5) == fields_of(w4).insert("status"@, status));
}

proof fn lemma_self_registered(store: Store, cfg: ServerConfig, status: Seq<char>)
    ensures
        ({
            let hash = store.after_all(self_registration(cfg, status)).hash(
                server_key_text(cfg.server_id@),
            );
            &&& text_field(hash, "status"@) == status
            &&& player_count(hash) == 0
            &&& join_target(cfg.server_id@, hash) == (JoinTargetView {
                id: cfg.server_id@,
                address: cfg.public_addr@,
                quic_port: cfg.quic_port as int,
                capacity: cfg.max_players as int,
            })
        }),
{
    let write = self_registration(cfg, status)[0];
    if status == "ready"@ {
        let join = self_registration(cfg, status)[1];
        assert(self_registration(cfg, status) =~= seq![write, join]);
        law_after_two(store, write, join);
    } else {
        law_after_one(store, write);
    }
    lemma_self_fields(cfg, status);
    law_decimal_roundtrip(cfg.quic_port as nat, u16::MAX as int);
    law_decimal_roundtrip(0, u32::MAX as int);
    law_decimal_roundtrip(cfg.max_players as nat, u32::MAX as int);
}

/// A server that registered itself as ready is found by joining players, at the
/// address, port and capacity it registered, unless it has no room at all;
/// whatever its hash held before does not matter.
pub proof fn law_ready_server_is_joinable(store: Store, cfg: ServerConfig)
    ensures
        ({
            let after = store.after_all(self_registration(cfg, "ready"@));
            let hash = after.hash(server_key_text(cfg.server_id@));
            &&& after.members(active_servers_key_text()).contains(cfg.server_id@)
            &&& is_joinable(hash) == (cfg.max_players > 0)
            &&& join_target(cfg.server_id@, hash) == (JoinTargetView {
                id: cfg.server_id@,
                address: cfg.public_addr@,
                quic_port: cfg.quic_port as int,
                capacity: cfg.max_players as int,
            })
        }),
{
    let list = self_registration(cfg, "ready"@);
    assert(list =~= seq![list[0], list[1]]);
    law_after_two(store, list[0], list[1]);
    lemma_self_registered(store, cfg, "ready"@);
}

/// A server that registered itself under any other status is not joinable.
pub proof fn law_unready_server_is_not_joinable(store: Store, cfg: ServerConfig, status: Seq<char>)
    requires
        status != "ready"@,
    ensures
        !is_joinable(
            store.after_all(self_registration(cfg, status)).hash(
                server_key_text(cfg.server_id@),
            ),
        ),
{
    lemma_self_registered(store, cfg, status);
}

/// A server that registers itself keeps what the orchestrator noted about its
/// instance: its container and its internal address.
pub proof fn law_self_registration_keeps_instance(
    store: Store,
    cfg: ServerConfig,
    status: Seq<char>,
)
    ensures
        ({
            let key = server_key_text(cfg.server_id@);
            let before = store.hash(key);
            let after = store.after_all(self_registration(cfg, status)).hash(key);
            &&& field(after, "container_id"@) == field(before, "container_id"@)
            &&& field(after, "internal_addr"@) == field(before, "internal_addr"@)
        }),
{
    let write = self_registration(cfg, status)[0];
    if status == "ready"@ {
        let join = self_registration(cfg, status)[1];
        assert(self_registration(cfg, status) =~= seq![write, join]);
        law_after_two(store, write, join);
    } else {
        law_after_one(store, write);
    }
    lemma_server_field_names();
    let w5 = self_fields(cfg, status);
    lemma_not_written(w5, "container_id"@);
    lemma_not_written(w5, "internal_addr"@);
}

/// A server is in the active set once it registered itself as ready, and a
/// registration under another status does not put it there.
pub proof fn law_active_set_holds_ready_servers(
    store: Store,
    cfg: ServerConfig,
    status: Seq<char>,
)
    ensures
        ({
            let key = active_servers_key_text();
            let after = store.after_all(self_registration(cfg, status));
            after.members(key) == if status == "ready"@ {
                store.members(key).insert(cfg.server_id@)
            } else {
                store.members(key)
            }
        }),
{
    let write = self_registration(cfg, status)[0];
    if status == "ready"@ {
        let join = self_registration(cfg, status)[1];
        assert(self_registration(cfg, status) =~= seq![write, join]);
        law_after_two(store, write, join);
    } else {
        law_after_one(store, write);
    }
}

/// From its registration by the orchestrator to its own as ready, a server goes
/// live: before, it is in the active set only if it was there already;
/// afterwards it is, and what the store says about it is the instance that the
/// orchestrator noted at the address, port and capacity of the server itself,
/// ready and without players.
pub proof fn law_registered_server_goes_live(
    store: Store,
    cfg: ServerConfig,
    container_id: Seq<char>,
    address: Seq<char>,
    internal_addr: Seq<char>,
    quic_port: nat,
    capacity: nat,
)
    requires
        quic_port <= u16::MAX,
        capacity <= u32::MAX,
    ensures
        ({
            let id = cfg.server_id@;
            let noted = store.after_all(
                registration(id, container_id, address, internal_addr, quic_port, capacity),
            );
            let live = noted.after_all(self_registration(cfg, "ready"@));
            &&& noted.members(active_servers_key_text()) == store.members(
                active_servers_key_text(),
            )
            &&& live.members(active_servers_key_text()).contains(id)
            &&& server_info(id, live.hash(server_key_text(id))) == (InstanceView {
                id,
                container_id,
                address: cfg.public_addr@,
                internal_addr,
                quic_port: cfg.quic_port as int,
                player_count: 0,
                capacity: cfg.max_players as int,
                status: "ready"@,
            })
        }),
{
    let id = cfg.server_id@;
    let key = server_key_text(id);
    let noted = store.after_all(
        registration(id, container_id, address, internal_addr, quic_port, capacity),
    );
    law_register_then_list(
        store,
        id,
        container_id,
        address,
        internal_addr,
        quic_port,
        capacity,
    );
    law_active_set_holds_ready_servers(noted, cfg, "ready"@);
    law_self_registration_keeps_instance(noted, cfg, "ready"@);
    lemma_self_registered(noted, cfg, "ready"@);
}

/// A name that no write is to is not in the hash.
pub(crate) proof fn lemma_not_written(writes: Seq<(Seq<char>, Seq<char>)>, name: Seq<char>)
    requires
        forall|i: int| 0 <= i < writes.len() ==> (#[trigger] writes[i]).0 != name,
    ensures
        !fields_of(writes).contains_key(name),
    decreases writes.len(),
{
    if writes.len() > 0 {
        lemma_not_written(writes.drop_last(), name);
    }
}

/// After a heartbeat the server counts as many players as were connected. Of its
/// other fields only the time of the heartbeat changed, so players are sent
/// where they were before as long as there is room, and nothing else in the
/// store changed.
pub proof fn law_heartbeat(store: Store, server_id: Seq<char>, connected: nat, now_secs: nat)
    ensures
        ({
            let key = server_key_text(server_id);
            let before = store.hash(key);
            let after = store.after(heartbeat(server_id, connected, now_secs));
            let hash = after.hash(key);
            &&& hash == before.insert("player_count"@, decimal(connected)).insert(
                "heartbeat"@,
                decimal(now_secs),
            )
            &&& connected <= u32::MAX ==> player_count(hash) == connected && has_countable_players(
                hash,
            ) && counted_players(hash) == connected
            &&& connected <= u32::MAX ==> is_joinable(hash) == (text_field(before, "status"@)
                == "ready"@ && connected < capacity(before))
            &&& join_target(server_id, hash) == join_target(server_id, before)
            &&& after == Store { hashes: store.hashes.insert(key, hash), ..store }
        }),
{
    let key = server_key_text(server_id);
    let before = store.hash(key);
    let w2 = heartbeat(server_id, connected, now_secs)->HSet_fields;
    let w1 = w2.drop_last();
    lemma_server_field_names();
    assert(w1.drop_last() =~= Seq::empty());
    assert(fields_of(w1.drop_last()) =~= Map::empty());
    assert(fields_of(w1) =~= Map::empty().insert("player_count"@, decimal(connected)));
    assert(fields_of(w2) =~= fields_of(w1).insert("heartbeat"@, decimal(now_secs)));
    assert(before.union_prefer_right(fields_of(w2)) =~= before.insert(
        "player_count"@,
        decimal(connected),
    ).insert("heartbeat"@, decimal(now_secs)));
    if connected <= u32::MAX {
        law_decimal_roundtrip(connected, u32::MAX as int);
        law_signed_decimal_roundtrip(connected as int);
    }
}

/// A departure undoes the reservation it was preceded by: the player count is
/// what it was before the player came, and nothing else in the store changed.
pub proof fn law_departure_undoes_reservation(store: Store, server_id: Seq<char>, capacity: nat)
    requires
        can_reserve(store.hash(server_key_text(server_id)), capacity as int),
        capacity <= u32::MAX,
    ensures
        ({
            let key = server_key_text(server_id);
            let count = counted_players(store.hash(key));
            let after = store.after(reservation(server_id, capacity)).after(departure(server_id));
            &&& counted_players(after.hash(key)) == count
            &&& after == Store {
                hashes: store.hashes.insert(
                    key,
                    store.hash(key).insert("player_count"@, signed_decimal(count)),
                ),
                ..store
            }
        }),
{
    let key = server_key_text(server_id);
    let hash = store.hash(key);
    let count = counted_players(hash);
    let taken = signed_decimal(count + 1);
    law_decimal_roundtrip(capacity, u32::MAX as int);
    law_signed_decimal_roundtrip(count + 1);
    law_signed_decimal_roundtrip(count);
    let reserved = store.after(reservation(server_id, capacity));
    assert(reserved.hash(key) == hash.insert("player_count"@, taken));
    let after = reserved.after(departure(server_id));
    assert(hash.insert("player_count"@, taken).insert("player_count"@, signed_decimal(count))
        =~= hash.insert("player_count"@, signed_decimal(count)));
    assert(after.hashes =~= store.hashes.insert(
        key,
        hash.insert("player_count"@, signed_decimal(count)),
    ));
}

/// What a server writes about itself, letter for letter, and that only a ready
/// one joins the active set; and where it listens.
pub proof fn law_self_registration(cfg: ServerConfig, status: Seq<char>)
    ensures
        self_registration(cfg, status)[0] == (CommandView::HSet {
            key: "server:"@ + cfg.server_id@,
            fields: seq![
                ("address"@, cfg.public_addr@),
                ("quic_port"@, decimal(cfg.quic_port as nat)),
                ("player_count"@, decimal(0)),
                ("capacity"@, decimal(cfg.max_players as nat)),
                ("status"@, status),
            ],
        }),
        status == "ready"@ ==> self_registration(cfg, status).len() == 2 && self_registration(
            cfg,
            status,
        )[1] == (CommandView::SAdd { key: "servers:active"@, member: cfg.server_id@ }),
        status != "ready"@ ==> self_registration(cfg, status).len() == 1,
        bind_address(cfg.quic_port as nat) == "0.0.0.0:"@ + decimal(cfg.quic_port as nat),
{
}

/// The list of connected players without one of them is the list of the others,
/// in order.
pub proof fn law_leave_keeps_order<C>(connections: Seq<(u32, C)>, entity_id: u32)
    ensures
        without(connections, entity_id) == connections.filter(|c: (u32, C)| c.0 != entity_id),
    decreases connections.len(),
{
    reveal(Seq::filter);
    if connections.len() > 0 {
        law_leave_keeps_order(connections.drop_last(), entity_id);
    } else {
        assert(connections =~= Seq::empty());
    }
}

/// While a player plays, every datagram that holds an input is passed on to the
/// simulation, whatever the input is: once, under the player's entity id, with
/// both parts as they came. One that holds none does nothing. Either way the
/// player plays on.
pub proof fn law_every_input_is_passed_on(conn: PlayerConnectionView, input: PlayerInput)
    requires
        conn.stage == ConnStageView::Playing,
    ensures
        conn_admits(conn.stage, ConnEventView::Datagram(Some(input))),
        conn_step(conn, ConnEventView::Datagram(Some(input))) == (
            conn,
            seq![
                ConnActionView::Notify(
                    SimCommandView::PlayerInput {
                        entity_id: conn.entity_id,
                        dx: input.dx,
                        dy: input.dy,
                    },
                ),
            ],
        ),
        conn_admits(conn.stage, ConnEventView::Datagram(None)),
        conn_step(conn, ConnEventView::Datagram(None)) == (conn, Seq::<ConnActionView>::empty()),
{
}

/// How a connection comes to play: a token that was sent, whatever it is, is
/// asked about; a valid answer, whoever it names, is acknowledged with the entity
/// id; and once that is sent, the connection is added and the simulation told of
/// the player under the token.
pub proof fn law_connection_steps(
    conn: PlayerConnectionView,
    data: Seq<u8>,
    token: Seq<char>,
    server_id: Seq<char>,
    player_id: u32,
)
    ensures
        ({
            let at = |stage: ConnStageView| PlayerConnectionView { stage, ..conn };
            let id = conn.entity_id;
            let nothing = Seq::<ConnActionView>::empty();
            &&& bytes_text(data) == Some(token) ==> conn_step(
                at(ConnStageView::Authenticating),
                ConnEventView::AuthData(data),
            ) == (
                at(ConnStageView::Validating { token }),
                seq![ConnActionView::AskGatekeeper(text_bytes(token))],
            )
            &&& bytes_text(data) is None ==> conn_step(
                at(ConnStageView::Authenticating),
                ConnEventView::AuthData(data),
            ) == (at(ConnStageView::Ended), nothing)
            &&& bytes_verdict(data) == Some(Some((server_id, player_id))) ==> conn_step(
                at(ConnStageView::Validating { token }),
                ConnEventView::Verdict(data),
            ) == (
                at(ConnStageView::Acknowledging { display_name: token }),
                seq![ConnActionView::SendAck(number_bytes(id))],
            )
            &&& bytes_verdict(data) is None || bytes_verdict(data) == Some(
                None::<(Seq<char>, u32)>,
            ) ==> conn_step(
                at(ConnStageView::Validating { token }),
                ConnEventView::Verdict(data),
            ) == (at(ConnStageView::Ended), nothing)
            &&& conn_step(
                at(ConnStageView::Acknowledging { display_name: token }),
                ConnEventView::AckSent,
            ) == (
                at(ConnStageView::Playing),
                seq![
                    ConnActionView::AddConnection,
                    ConnActionView::Notify(
                        SimCommandView::PlayerJoined { entity_id: id, display_name: token },
                    ),
                ],
            )
        }),
{
}

/// How a connection ends: a player who played is dropped from the connected
/// ones, the simulation told, and one player less counted on the server; a
/// connection that fails before that ends with nothing done.
pub proof fn law_connection_ends(conn: PlayerConnectionView)
    requires
        !(conn.stage is Ended),
    ensures
        conn_step(conn, ConnEventView::Failed) == (
            PlayerConnectionView { stage: ConnStageView::Ended, ..conn },
            if conn.stage is Playing {
                seq![
                    ConnActionView::RemoveConnection,
                    ConnActionView::Notify(
                        SimCommandView::PlayerLeft { entity_id: conn.entity_id },
                    ),
                    ConnActionView::Run(
                        CommandView::HIncrBy {
                            key: "server:"@ + conn.server_id,
                            field: "player_count"@,
                            by: -1,
                        },
                    ),
                ]
            } else {
                Seq::empty()
            },
        ),
{
}

/// What a connection hands on and takes in means what it says: ids, names, inputs
/// and bytes are read as they stand.
pub proof fn law_connection_messages(
    entity_id: u32,
    name: String,
    dx: Single,
    dy: Single,
    data: Vec<u8>,
    input: Option<PlayerInput>,
    command: SimCommand,
    write: RedisCommand,
    list: Seq<ConnAction>,
    i: int,
)
    ensures
        (SimCommand::PlayerJoined { entity_id, display_name: name })@ == (
        SimCommandView::PlayerJoined { entity_id, display_name: name@ }),
        (SimCommand::PlayerLeft { entity_id })@ == (SimCommandView::PlayerLeft { entity_id }),
        (SimCommand::PlayerInput { entity_id, dx, dy })@ == (SimCommandView::PlayerInput {
            entity_id,
            dx,
            dy,
        }),
        ConnAction::AskGatekeeper(data)@ == ConnActionView::AskGatekeeper(data@),
        ConnAction::SendAck(data)@ == ConnActionView::SendAck(data@),
        ConnAction::AddConnection@ == ConnActionView::AddConnection,
        ConnAction::RemoveConnection@ == ConnActionView::RemoveConnection,
        ConnAction::Notify(command)@ == ConnActionView::Notify(command@),
        ConnAction::Run(write)@ == ConnActionView::Run(write@),
        ConnEvent::AuthData(data)@ == ConnEventView::AuthData(data@),
        ConnEvent::Verdict(data)@ == ConnEventView::Verdict(data@),
        ConnEvent::AckSent@ == ConnEventView::AckSent,
        ConnEvent::Datagram(input)@ == ConnEventView::Datagram(input),
        ConnEvent::Failed@ == ConnEventView::Failed,
        ConnStage::Authenticating@ == ConnStageView::Authenticating,
        (ConnStage::Validating { token: name })@ == (ConnStageView::Validating { token: name@ }),
        (ConnStage::Acknowledging { display_name: name })@ == (ConnStageView::Acknowledging {
            display_name: name@,
        }),
        ConnStage::Playing@ == ConnStageView::Playing,
        ConnStage::Ended@ == ConnStageView::Ended,
        conn_actions(list).len() == list.len(),
        0 <= i < list.len() ==> conn_actions(list)[i] == list[i]@,
{
}

/// A certificate that the endpoint is bound with is for `localhost` alone, of no
/// authority, and signed with the key that comes with it.
pub proof fn law_localhost_cert(cert_bytes: Seq<u8>, key_bytes: Seq<u8>) -> (cert:
    rcgen::Certificate)
    requires
        is_localhost_cert(cert_bytes, key_bytes),
    ensures
        cert_der(cert) == cert_bytes,
        cert_content(cert).0 == (seq!["localhost"@], false),
        cert_content(cert).1 == Some(key_bytes),
        cert_content(cert).2 == Some(key_bytes),
{
    choose|cert: rcgen::Certificate|
        #[trigger]
        cert_der(cert) == cert_bytes && cert_content(cert) == (
            (seq!["localhost"@], false),
            Some(key_bytes),
            Some(key_bytes),
        )
}

/// Which events a connection takes in at which stage.
pub proof fn law_connection_admits(stage: ConnStageView, event: ConnEventView)
    ensures
        conn_admits(stage, event) <==> (stage is Authenticating && event is AuthData) || (
        stage is Validating && event is Verdict) || (stage is Acknowledging && event is AckSent)
            || (stage is Playing && event is Datagram) || (!(stage is Ended) && event is Failed),
{
}

/// A connection can fail as long as it has not ended, and a failure ends it; one
/// that has ended takes in nothing more.
pub proof fn law_conn_failure_ends(conn: PlayerConnectionView, event: ConnEventView)
    ensures
        conn_admits(conn.stage, ConnEventView::Failed) == !(conn.stage is Ended),
        conn_step(conn, ConnEventView::Failed).0.stage is Ended,
        conn.stage is Ended ==> !conn_admits(conn.stage, event),
{
}

/// A connection's stage after a list of events, and all it did.
pub open spec fn conn_trace(conn: PlayerConnectionView, events: Seq<ConnEventView>) -> (
    PlayerConnectionView,
    Seq<ConnActionView>,
)
    decreases events.len(),
{
    if events.len() == 0 {
        (conn, Seq::empty())
    } else {
        let (before, done) = conn_trace(conn, events.drop_last());
        let (after, actions) = conn_step(before, events.last());
        (after, done + actions)
    }
}

/// Whether a list of events holds an answer of the gatekeeper that a token is
/// valid.
pub open spec fn has_valid_answer(events: Seq<ConnEventView>) -> bool {
    exists|i: int|
        0 <= i < events.len() && ((#[trigger] events[i]) matches ConnEventView::Verdict(data)
            && is_valid_answer(data))
}

/// Without an answer that the token is valid, nothing is acknowledged, nobody is
/// added to the connected players, and the simulation is told nothing: all that
/// a connection can do is ask the gatekeeper.
pub proof fn law_no_ack_without_valid_token(
    conn: PlayerConnectionView,
    events: Seq<ConnEventView>,
)
    requires
        conn.stage == ConnStageView::Authenticating,
        !has_valid_answer(events),
    ensures
        ({
            let (after, done) = conn_trace(conn, events);
            &&& after.stage is Authenticating || after.stage is Validating || after.stage is Ended
            &&& forall|i: int| 0 <= i < done.len() ==> (#[trigger] done[i]) is AskGatekeeper
        }),
    decreases events.len(),
{
    if events.len() > 0 {
        let rest = events.drop_last();
        if has_valid_answer(rest) {
            let i = choose|i: int|
                0 <= i < rest.len() && ((#[trigger] rest[i]) matches ConnEventView::Verdict(data)
                    && is_valid_answer(data));
            assert(events[i] == rest[i]);
        }
        law_no_ack_without_valid_token(conn, rest);
        assert(events[events.len() - 1] == events.last());
    }
}

/// A request that holds no token ends the connection at once, with nothing done.
/// One that does is asked about with that token; an answer that the token is not
/// valid, or that cannot be read, ends the connection with nothing more done.
pub proof fn law_bad_token_is_turned_away(
    conn: PlayerConnectionView,
    data: Seq<u8>,
    answer: Seq<u8>,
)
    requires
        conn.stage == ConnStageView::Authenticating,
        !is_valid_answer(answer),
    ensures
        bytes_text(data) is None ==> conn_trace(conn, seq![ConnEventView::AuthData(data)]) == (
            PlayerConnectionView { stage: ConnStageView::Ended, ..conn },
            Seq::<ConnActionView>::empty(),
        ),
        bytes_text(data) matches Some(token) ==> conn_trace(
            conn,
            seq![ConnEventView::AuthData(data), ConnEventView::Verdict(answer)],
        ) == (
            PlayerConnectionView { stage: ConnStageView::Ended, ..conn },
            seq![ConnActionView::AskGatekeeper(text_bytes(token))],
        ),
{
    let one = seq![ConnEventView::AuthData(data)];
    let two = seq![ConnEventView::AuthData(data), ConnEventView::Verdict(answer)];
    assert(one.drop_last() =~= Seq::empty());
    assert(two.drop_last() =~= one);
    assert(conn_trace(conn, one.drop_last()) == (conn, Seq::<ConnActionView>::empty()));
    if bytes_text(data) is Some {
        let token = bytes_text(data)->Some_0;
        let ask = seq![ConnActionView::AskGatekeeper(text_bytes(token))];
        assert(conn_trace(conn, one).1 =~= ask);
        assert(conn_trace(conn, two).1 =~= ask);
    } else {
        assert(conn_trace(conn, one).1 =~= Seq::empty());
    }
}

/// A player whose token the gatekeeper has no session for does not get in: the
/// connection ends on the gatekeeper's answer, and nothing was done but to ask.
pub proof fn law_unknown_token_is_turned_away(
    store: Store,
    conn: PlayerConnectionView,
    data: Seq<u8>,
    answer: Seq<u8>,
    token: Seq<char>,
)
    requires
        conn.stage == ConnStageView::Authenticating,
        bytes_text(data) == Some(token),
        session(store.hash(session_key_text(token))) is None,
        bytes_verdict(answer) == Some(verdict(session(store.hash(session_key_text(token))))),
    ensures
        conn_trace(
            conn,
            seq![ConnEventView::AuthData(data), ConnEventView::Verdict(answer)],
        ) == (
            PlayerConnectionView { stage: ConnStageView::Ended, ..conn },
            seq![ConnActionView::AskGatekeeper(text_bytes(token))],
        ),
{
    law_bad_token_is_turned_away(conn, data, answer);
}

/// A player whose token the gatekeeper has a session for gets in: asked about
/// the token, the gatekeeper answers from that session, and on that answer the
/// entity id is acknowledged, and then the player joins under the token.
pub proof fn law_stored_token_gets_in(
    store: Store,
    conn: PlayerConnectionView,
    data: Seq<u8>,
    answer: Seq<u8>,
    token: Seq<char>,
    server_id: Seq<char>,
    player_id: u32,
    expires_at: nat,
)
    requires
        conn.stage == ConnStageView::Authenticating,
        bytes_text(data) == Some(token),
        ({
            let after = store.after_all(
                session_commands(token, server_id, player_id as nat, expires_at),
            );
            bytes_verdict(answer) == Some(verdict(session(after.hash(session_key_text(token)))))
        }),
    ensures
        conn_trace(
            conn,
            seq![
                ConnEventView::AuthData(data),
                ConnEventView::Verdict(answer),
                ConnEventView::AckSent,
            ],
        ) == (
            PlayerConnectionView { stage: ConnStageView::Playing, ..conn },
            seq![
                ConnActionView::AskGatekeeper(text_bytes(token)),
                ConnActionView::SendAck(number_bytes(conn.entity_id)),
                ConnActionView::AddConnection,
                ConnActionView::Notify(
                    SimCommandView::PlayerJoined {
                        entity_id: conn.entity_id,
                        display_name: token,
                    },
                ),
            ],
        ),
{
    law_session_roundtrip(store, token, server_id, player_id as nat, expires_at);
    let id = conn.entity_id;
    let one = seq![ConnEventView::AuthData(data)];
    let two = seq![ConnEventView::AuthData(data), ConnEventView::Verdict(answer)];
    let three = seq![
        ConnEventView::AuthData(data),
        ConnEventView::Verdict(answer),
        ConnEventView::AckSent,
    ];
    assert(one.drop_last() =~= Seq::empty());
    assert(two.drop_last() =~= one);
    assert(three.drop_last() =~= two);
    assert(conn_trace(conn, one.drop_last()) == (conn, Seq::<ConnActionView>::empty()));
    let ask = ConnActionView::AskGatekeeper(text_bytes(token));
    let ack = ConnActionView::SendAck(number_bytes(id));
    let joined = ConnActionView::Notify(
        SimCommandView::PlayerJoined { entity_id: id, display_name: token },
    );
    assert(conn_trace(conn, one).1 =~= seq![ask]);
    assert(conn_trace(conn, two).1 =~= seq![ask, ack]);
    assert(conn_trace(conn, three).1 =~= seq![ask, ack, ConnActionView::AddConnection, joined]);
}

/// How often an action occurs in a list.
pub open spec fn occurrences(list: Seq<ConnActionView>, action: ConnActionView) -> int
    decreases list.len(),
{
    if list.len() == 0 {
        0
    } else {
        occurrences(list.drop_last(), action) + if list.last() == action {
            1int
        } else {
            0
        }
    }
}

proof fn lemma_occurrences_append(
    a: Seq<ConnActionView>,
    b: Seq<ConnActionView>,
    action: ConnActionView,
)
    ensures
        occurrences(a + b, action) == occurrences(a, action) + occurrences(b, action),
    decreases b.len(),
{
    if b.len() == 0 {
        assert(a + b =~= a);
    } else {
        assert((a + b).drop_last() =~= a + b.drop_last());
        lemma_occurrences_append(a, b.drop_last(), action);
    }
}

/// Whatever happens on a connection, it is added to the list of connected
/// players once if the player got as far as playing and never otherwise; and
/// once it has ended, it was removed, the simulation told, and the player
/// counted out, each exactly as often as it was added.
pub proof fn law_connection_cleans_up(
    conn: PlayerConnectionView,
    events: Seq<ConnEventView>,
)
    requires
        conn.stage == ConnStageView::Authenticating,
    ensures
        ({
            let (after, done) = conn_trace(conn, events);
            let added = occurrences(done, ConnActionView::AddConnection);
            let left = ConnActionView::Notify(
                SimCommandView::PlayerLeft { entity_id: conn.entity_id },
            );
            &&& after.entity_id == conn.entity_id && after.server_id == conn.server_id
            &&& 0 <= added <= 1
            &&& after.stage is Authenticating || after.stage is Validating || after.stage
                is Acknowledging ==> added == 0
            &&& after.stage is Playing ==> added == 1
            &&& occurrences(done, ConnActionView::RemoveConnection) == if after.stage is Playing {
                0
            } else {
                added
            }
            &&& occurrences(done, left) == occurrences(done, ConnActionView::RemoveConnection)
            &&& occurrences(done, ConnActionView::Run(departure(conn.server_id)))
                == occurrences(done, ConnActionView::RemoveConnection)
        }),
    decreases events.len(),
{
    if events.len() > 0 {
        let (before, done) = conn_trace(conn, events.drop_last());
        let (after, actions) = conn_step(before, events.last());
        let left = ConnActionView::Notify(
            SimCommandView::PlayerLeft { entity_id: conn.entity_id },
        );
        let out = ConnActionView::Run(departure(conn.server_id));
        law_connection_cleans_up(conn, events.drop_last());
        lemma_occurrences_append(done, actions, ConnActionView::AddConnection);
        lemma_occurrences_append(done, actions, ConnActionView::RemoveConnection);
        lemma_occurrences_append(done, actions, left);
        lemma_occurrences_append(done, actions, out);
        assert(occurrences(actions, ConnActionView::AddConnection) == if before.stage
            is Acknowledging && after.stage is Playing {
            1int
        } else {
            0
        }) by {
            reveal_with_fuel(occurrences, 4);
        }
        assert(occurrences(actions, ConnActionView::RemoveConnection) == if before.stage is Playing
            && after.stage is Ended {
            1int
        } else {
            0
        }) by {
            reveal_with_fuel(occurrences, 4);
        }
        assert(occurrences(actions, left) == occurrences(
            actions,
            ConnActionView::RemoveConnection,
        )) by {
            reveal_with_fuel(occurrences, 4);
        }
        assert(occurrences(actions, out) == occurrences(
            actions,
            ConnActionView::RemoveConnection,
        )) by {
            reveal_with_fuel(occurrences, 4);
        }
    }
}

} // verus!
