//! Spawning game servers as containers of a Docker host, or as pods that are
//! reached through a port of their node.

use vstd::prelude::*;

use crate::command::{single, CommandView, RedisCommand};
use crate::constants::DEFAULT_CAPACITY;
use crate::fields::{entry, field, fields_of, lemma_server_field_names};
use crate::game::server::net::{law_self_registration, lemma_self_fields, self_registration};
use crate::game::server::{
    are_set_by, is_configured, law_environment_is_obeyed, lemma_variable_names, ServerConfig,
    ServerVars,
};
use crate::ident::{is_uuid_text, new_uuid};
use crate::orchestrator::redis_ops::{
    field_update, infos, law_remove_server, lemma_distinct_writes, register_server, registration,
    removal, remove_server, set_field, set_standby, ServerInfo, ServerInfoView,
};
use crate::orchestrator::spawn::{
    commands_run, is_outcome, ContainerSpec, ContainerSpecView, PodManifest, PodManifestView,
    ServiceManifest, ServiceManifestView, SpawnAction, SpawnActionView, SpawnEvent,
    SpawnEventView,
};
use crate::redis_keys::{
    active_servers_key_text, server_key, server_key_text, standby_server_key_text,
};
use crate::store::{law_after_append, law_after_two, Store};
use crate::text::{
    decimal, i64_text, law_decimal_roundtrip, number_or, or_default, pairs, signed_decimal, text_or,
    texts, u16_or, u16_text, u32_text,
};

verus! {

/// Seconds that a started server has to report that it is ready.
pub const SPAWN_TIMEOUT_SECS: u64 = 30;

// ---------------------------------------------------------------------------
// Configuration
// ---------------------------------------------------------------------------
/// The image of game servers, from `GAME_IMAGE`.
pub fn game_image(var: Option<String>) -> (res: String)
    ensures
        res@ == text_or(var, "game-server:latest"@),
{
    or_default(var, "game-server:latest")
}

/// The network of game servers, from `GAME_NETWORK`.
pub fn game_network(var: Option<String>) -> (res: String)
    ensures
        res@ == text_or(var, "game-net"@),
{
    or_default(var, "game-net")
}

/// The QUIC ports of game servers, first and last, from
/// `QUIC_PORT_RANGE_START` and `QUIC_PORT_RANGE_END`.
pub fn port_range(start: Option<String>, end: Option<String>) -> (res: (u16, u16))
    ensures
        res.0 == number_or(start, u16::MAX as int, 7000),
        res.1 == number_or(end, u16::MAX as int, 7100),
{
    (u16_or(start, 7000), u16_or(end, 7100))
}

/// Settings of a spawn.
#[derive(Debug, Clone, PartialEq, Eq)]
pub struct SpawnConfig {
    /// The address at which clients reach the server.
    pub public_addr: String,
    pub redis_url: String,
    pub gatekeeper_addr: String,
    pub image: String,
    pub network: String,
    pub first_port: u16,
    pub last_port: u16,
}

/// The view of a `SpawnConfig`.
pub struct SpawnConfigView {
    pub public_addr: Seq<char>,
    pub redis_url: Seq<char>,
    pub gatekeeper_addr: Seq<char>,
    pub image: Seq<char>,
    pub network: Seq<char>,
    pub first_port: int,
    pub last_port: int,
}

impl View for SpawnConfig {
    type V = SpawnConfigView;

    open spec fn view(&self) -> SpawnConfigView {
        SpawnConfigView {
            public_addr: self.public_addr@,
            redis_url: self.redis_url@,
            gatekeeper_addr: self.gatekeeper_addr@,
            image: self.image@,
            network: self.network@,
            first_port: self.first_port as int,
            last_port: self.last_port as int,
        }
    }
}

/// The variables that the settings come from; `None` where one is not set.
#[derive(Debug, Clone, PartialEq, Eq)]
pub struct SpawnVars {
    pub public_addr: Option<String>,
    pub redis_url: Option<String>,
    pub gatekeeper_addr: Option<String>,
    pub game_image: Option<String>,
    pub game_network: Option<String>,
    pub port_range_start: Option<String>,
    pub port_range_end: Option<String>,
}

/// The settings, with defaults for what is not set.
pub open spec fn spawn_config(vars: SpawnVars) -> SpawnConfigView {
    SpawnConfigView {
        public_addr: text_or(vars.public_addr, "localhost"@),
        redis_url: text_or(vars.redis_url, "redis://redis:6379"@),
        gatekeeper_addr: text_or(vars.gatekeeper_addr, "gatekeeper:3001"@),
        image: text_or(vars.game_image, "game-server:latest"@),
        network: text_or(vars.game_network, "game-net"@),
        first_port: number_or(vars.port_range_start, u16::MAX as int, 7000),
        last_port: number_or(vars.port_range_end, u16::MAX as int, 7100),
    }
}

impl SpawnConfig {
    /// Reads the settings.
    pub fn from_vars(vars: SpawnVars) -> (res: SpawnConfig)
        ensures
            res@ == spawn_config(vars),
    {
        let (first_port, last_port) = port_range(vars.port_range_start, vars.port_range_end);
        SpawnConfig {
            public_addr: or_default(vars.public_addr, "localhost"),
            redis_url: or_default(vars.redis_url, "redis://redis:6379"),
            gatekeeper_addr: or_default(vars.gatekeeper_addr, "gatekeeper:3001"),
            image: game_image(vars.game_image),
            network: game_network(vars.game_network),
            first_port,
            last_port,
        }
    }
}

// ---------------------------------------------------------------------------
// Ports
// ---------------------------------------------------------------------------
/// Whether a registered server uses a port.
pub open spec fn port_used(servers: Seq<ServerInfoView>, port: int) -> bool {
    exists|i: int| 0 <= i < servers.len() && (#[trigger] servers[i]).quic_port == port
}

/// Whether a port is the lowest of a range that no registered server uses.
pub open spec fn is_lowest_free(
    servers: Seq<ServerInfoView>,
    first: int,
    last: int,
    port: int,
) -> bool {
    &&& first <= port <= last
    &&& !port_used(servers, port)
    &&& forall|p: int| first <= p < port ==> #[trigger] port_used(servers, p)
}

/// The lowest free port of a range, if there is one.
pub open spec fn free_port(servers: Seq<ServerInfoView>, first: int, last: int) -> Option<int> {
    if exists|p: int| is_lowest_free(servers, first, last, p) {
        Some(choose|p: int| is_lowest_free(servers, first, last, p))
    } else {
        None
    }
}

/// The reason given where no port is free.
pub open spec fn no_free_port_message(first: int, last: int) -> Seq<char> {
    "No free QUIC port in range "@ + decimal(first as nat) + "–"@ + decimal(last as nat)
}

/// The free port is the only one that is lowest and free, and there is one
/// unless every port of the range is used.
pub proof fn law_free_port(servers: Seq<ServerInfoView>, first: int, last: int)
    ensures
        (match free_port(servers, first, last) {
            Some(port) => is_lowest_free(servers, first, last, port) && forall|p: int|
                #[trigger]
                is_lowest_free(servers, first, last, p) ==> p == port,
            None => forall|p: int| first <= p <= last ==> #[trigger] port_used(servers, p),
        }),
{
    match free_port(servers, first, last) {
        Some(port) => {
            assert forall|p: int| #[trigger] is_lowest_free(servers, first, last, p) implies p
                == port by {
                if p < port {
                    assert(port_used(servers, p));
                }
                if port < p {
                    assert(port_used(servers, port));
                }
            }
        },
        None => {
            assert forall|p: int| first <= p <= last implies #[trigger] port_used(servers, p) by {
                lemma_none_free(servers, first, last, p);
            }
        },
    }
}

proof fn lemma_none_free(servers: Seq<ServerInfoView>, first: int, last: int, p: int)
    requires
        forall|q: int| !#[trigger] is_lowest_free(servers, first, last, q),
        first <= p <= last,
    ensures
        forall|q: int| first <= q <= p ==> #[trigger] port_used(servers, q),
    decreases p - first,
{
    if p > first {
        lemma_none_free(servers, first, last, p - 1);
    }
    assert(!is_lowest_free(servers, first, last, p));
}

fn server_uses_port(servers: &Vec<ServerInfo>, port: u16) -> (res: bool)
    ensures
        res == port_used(infos(servers@), port as int),
{
    let ghost all = infos(servers@);
    let mut i: usize = 0;
    while i < servers.len()
        invariant
            i <= servers@.len(),
            all == infos(servers@),
            forall|k: int| 0 <= k < i ==> (#[trigger] all[k]).quic_port != port,
        decreases servers@.len() - i,
    {
        assert(all[i as int] == servers@[i as int]@);
        if servers[i].quic_port == port {
            return true;
        }
        i = i + 1;
    }
    false
}

/// Find the lowest QUIC port in the range not currently used by any registered
/// server.
pub fn pick_free_port(first: u16, last: u16, servers: &Vec<ServerInfo>) -> (res: Result<
    u16,
    String,
>)
    ensures
        (match res {
            Ok(port) => is_lowest_free(infos(servers@), first as int, last as int, port as int)
                && free_port(infos(servers@), first as int, last as int) == Some(port as int),
            Err(reason) => free_port(infos(servers@), first as int, last as int) is None
                && reason@ == no_free_port_message(first as int, last as int) && forall|p: int|
                first <= p <= last ==> #[trigger] port_used(infos(servers@), p),
        }),
{
    let ghost all = infos(servers@);
    let mut port: u32 = first as u32;
    while port <= last as u32
        invariant
            first <= port,
            port <= last + 1 || port == first,
            all == infos(servers@),
            forall|p: int| first <= p < port ==> #[trigger] port_used(all, p),
        decreases last + 1 - port,
    {
        if !server_uses_port(servers, port as u16) {
            proof {
                assert(is_lowest_free(all, first as int, last as int, port as int));
                law_free_port(all, first as int, last as int);
            }
            return Ok(port as u16);
        }
        port = port + 1;
    }
    proof {
        if exists|p: int| is_lowest_free(all, first as int, last as int, p) {
            let p = choose|p: int| is_lowest_free(all, first as int, last as int, p);
            assert(port_used(all, p));
        }
    }
    Err(
        "No free QUIC port in range ".to_owned().concat(u16_text(first).as_str()).concat(
            "–",
        ).concat(u16_text(last).as_str()),
    )
}

// ---------------------------------------------------------------------------
// Containers
// ---------------------------------------------------------------------------
/// The name of a server's container or pod.
pub open spec fn instance_name(server_id: Seq<char>) -> Seq<char> {
    "game-"@ + server_id
}

/// The name of a server's container or pod.
pub fn instance_name_of(server_id: &str) -> (res: String)
    ensures
        res@ == instance_name(server_id@),
{
    "game-".to_owned().concat(server_id)
}

/// The container of a server.
pub open spec fn container_spec(
    config: SpawnConfigView,
    server_id: Seq<char>,
    port: int,
) -> ContainerSpecView {
    ContainerSpecView {
        name: instance_name(server_id),
        image: config.image,
        env: seq![
            "SERVER_ID="@ + server_id,
            "QUIC_PORT="@ + decimal(port as nat),
            "PUBLIC_ADDR="@ + config.public_addr,
            "MAX_PLAYERS="@ + decimal(DEFAULT_CAPACITY as nat),
            "REDIS_URL="@ + config.redis_url,
            "GATEKEEPER_ADDR="@ + config.gatekeeper_addr,
        ],
        port_key: decimal(port as nat) + "/udp"@,
        host_ip: "0.0.0.0"@,
        host_port: decimal(port as nat),
        network: config.network,
        alias: instance_name(server_id),
        hostname: instance_name(server_id),
        labels: seq![
            ("extraction-mmo.role"@, "game-server"@),
            ("extraction-mmo.server-id"@, server_id),
            ("com.docker.compose.project"@, "extraction-mmo"@),
            ("com.docker.compose.service"@, "game-server"@),
        ],
    }
}

fn make_container_spec(config: &SpawnConfig, server_id: &str, port: u16) -> (res: ContainerSpec)
    ensures
        res@ == container_spec(config@, server_id@, port as int),
{
    let mut env: Vec<String> = Vec::new();
    env.push("SERVER_ID=".to_owned().concat(server_id));
    env.push("QUIC_PORT=".to_owned().concat(u16_text(port).as_str()));
    env.push("PUBLIC_ADDR=".to_owned().concat(config.public_addr.as_str()));
    env.push("MAX_PLAYERS=".to_owned().concat(u32_text(DEFAULT_CAPACITY).as_str()));
    env.push("REDIS_URL=".to_owned().concat(config.redis_url.as_str()));
    env.push("GATEKEEPER_ADDR=".to_owned().concat(config.gatekeeper_addr.as_str()));
    let mut labels: Vec<(String, String)> = Vec::new();
    labels.push(entry("extraction-mmo.role", "game-server"));
    labels.push(entry("extraction-mmo.server-id", server_id));
    labels.push(entry("com.docker.compose.project", "extraction-mmo"));
    labels.push(entry("com.docker.compose.service", "game-server"));
    proof {
        let spec = container_spec(config@, server_id@, port as int);
        assert(texts(env@) =~= spec.env);
        assert(pairs(labels@) =~= spec.labels);
    }
    ContainerSpec {
        name: instance_name_of(server_id),
        image: config.image.clone(),
        env,
        port_key: u16_text(port).concat("/udp"),
        host_ip: "0.0.0.0".to_owned(),
        host_port: u16_text(port),
        network: config.network.clone(),
        alias: instance_name_of(server_id),
        hostname: instance_name_of(server_id),
        labels,
    }
}

/// Stopping a container: what is done about it, and how it ended.
#[derive(Debug, Clone, Copy, PartialEq, Eq, Structural)]
pub enum StopStep {
    Stop,
    Remove,
    Stopped,
    Failed,
}

/// Stop and remove a container: what follows a step that came out well or not.
/// It is removed only once it is stopped.
pub fn stop_container(done: StopStep, ok: bool) -> (res: StopStep)
    requires
        done == StopStep::Stop || done == StopStep::Remove,
    ensures
        res == (if !ok {
            StopStep::Failed
        } else if done == StopStep::Stop {
            StopStep::Remove
        } else {
            StopStep::Stopped
        }),
{
    if !ok {
        StopStep::Failed
    } else if done == StopStep::Stop {
        StopStep::Remove
    } else {
        StopStep::Stopped
    }
}

// ---------------------------------------------------------------------------
// Spawning a container
// ---------------------------------------------------------------------------
/// How far the spawn of a container is: what it waits for.
#[derive(Debug, Clone, PartialEq, Eq)]
pub enum DockerStage {
    Listing,
    Registering { quic_port: u16 },
    Creating,
    Patching { container_id: String },
    Starting { container_id: String },
    Waiting { container_id: String },
    Tagging,
    Stopping { reason: String },
    Removing { reason: String },
    Ended,
}

/// The view of a `DockerStage`.
pub enum DockerStageView {
    Listing,
    Registering { quic_port: int },
    Creating,
    Patching { container_id: Seq<char> },
    Starting { container_id: Seq<char> },
    Waiting { container_id: Seq<char> },
    Tagging,
    Stopping { reason: Seq<char> },
    Removing { reason: Seq<char> },
    Ended,
}

impl View for DockerStage {
    type V = DockerStageView;

    open spec fn view(&self) -> DockerStageView {
        match self {
            DockerStage::Listing => DockerStageView::Listing,
            DockerStage::Registering { quic_port } => DockerStageView::Registering {
                quic_port: *quic_port as int,
            },
            DockerStage::Creating => DockerStageView::Creating,
            DockerStage::Patching { container_id } => DockerStageView::Patching {
                container_id: container_id@,
            },
            DockerStage::Starting { container_id } => DockerStageView::Starting {
                container_id: container_id@,
            },
            DockerStage::Waiting { container_id } => DockerStageView::Waiting {
                container_id: container_id@,
            },
            DockerStage::Tagging => DockerStageView::Tagging,
            DockerStage::Stopping { reason } => DockerStageView::Stopping { reason: reason@ },
            DockerStage::Removing { reason } => DockerStageView::Removing { reason: reason@ },
            DockerStage::Ended => DockerStageView::Ended,
        }
    }
}

/// The spawn of a container.
#[derive(Debug, Clone, PartialEq, Eq)]
pub struct DockerSpawn {
    pub server_id: String,
    pub standby: bool,
    pub config: SpawnConfig,
    pub stage: DockerStage,
}

/// The view of a `DockerSpawn`.
pub struct DockerSpawnView {
    pub server_id: Seq<char>,
    pub standby: bool,
    pub config: SpawnConfigView,
    pub stage: DockerStageView,
}

impl View for DockerSpawn {
    type V = DockerSpawnView;

    open spec fn view(&self) -> DockerSpawnView {
        DockerSpawnView {
            server_id: self.server_id@,
            standby: self.standby,
            config: self.config@,
            stage: self.stage@,
        }
    }
}

/// Whether a spawn at some stage takes in an event.
pub open spec fn docker_admits(stage: DockerStageView, event: SpawnEventView) -> bool {
    match stage {
        DockerStageView::Ended => false,
        DockerStageView::Listing => event is Servers || event is Failed,
        DockerStageView::Creating => event is ContainerCreated || event is Failed,
        _ => event is Done || event is Failed,
    }
}

/// The next stage of a spawn and its next action. A failure ends the spawn at
/// once, unless the server has been started: then its container is stopped and
/// its entry removed first.
pub open spec fn docker_step(spawn: DockerSpawnView, event: SpawnEventView) -> (
    DockerSpawnView,
    SpawnActionView,
) {
    let id = spawn.server_id;
    let config = spawn.config;
    let (stage, action) = match (spawn.stage, event) {
        (DockerStageView::Waiting { container_id }, SpawnEventView::Failed(reason)) => (
            DockerStageView::Stopping { reason },
            SpawnActionView::StopContainer(container_id),
        ),
        (DockerStageView::Stopping { reason }, _) => (
            DockerStageView::Removing { reason },
            SpawnActionView::Run(removal(id)),
        ),
        (_, SpawnEventView::Failed(reason)) => (
            DockerStageView::Ended,
            SpawnActionView::Failed(reason),
        ),
        (DockerStageView::Listing, SpawnEventView::Servers(servers)) => match free_port(
            servers,
            config.first_port,
            config.last_port,
        ) {
            Some(port) => (
                DockerStageView::Registering { quic_port: port },
                SpawnActionView::Run(
                    registration(
                        id,
                        ""@,
                        config.public_addr,
                        instance_name(id),
                        port as nat,
                        DEFAULT_CAPACITY as nat,
                    ),
                ),
            ),
            None => (
                DockerStageView::Ended,
                SpawnActionView::Failed(no_free_port_message(config.first_port, config.last_port)),
            ),
        },
        (DockerStageView::Registering { quic_port }, _) => (
            DockerStageView::Creating,
            SpawnActionView::CreateContainer(container_spec(config, id, quic_port)),
        ),
        (DockerStageView::Creating, SpawnEventView::ContainerCreated(container_id)) => (
            DockerStageView::Patching { container_id },
            SpawnActionView::Run(seq![field_update(id, "container_id"@, container_id)]),
        ),
        (DockerStageView::Patching { container_id }, _) => (
            DockerStageView::Starting { container_id },
            SpawnActionView::StartContainer(container_id),
        ),
        (DockerStageView::Starting { container_id }, _) => (
            DockerStageView::Waiting { container_id },
            SpawnActionView::AwaitReady { server_id: id, timeout_secs: SPAWN_TIMEOUT_SECS as int },
        ),
        (DockerStageView::Waiting { container_id: _ }, _) => if spawn.standby {
            (
                DockerStageView::Tagging,
                SpawnActionView::Run(
                    seq![CommandView::SetValue { key: standby_server_key_text(), value: id }],
                ),
            )
        } else {
            (DockerStageView::Ended, SpawnActionView::Spawned(id))
        },
        (DockerStageView::Tagging, _) => (DockerStageView::Ended, SpawnActionView::Spawned(id)),
        (DockerStageView::Removing { reason }, _) => (
            DockerStageView::Ended,
            SpawnActionView::Failed(reason),
        ),
        (_, _) => (spawn.stage, SpawnActionView::ListServers),
    };
    (DockerSpawnView { stage, ..spawn }, action)
}

/// Spawn a new game-server container, with a fresh id: the state to go on from
/// and the first action.
///
/// - Picks the next available QUIC port from the configured range.
/// - Creates and starts the container.
/// - Registers a pre-launch entry so the game server can update it.
/// - Waits for `status=ready`; removes the container and the entry on failure.
pub fn spawn_server(config: SpawnConfig, is_standby: bool) -> (res: (DockerSpawn, SpawnAction))
    ensures
        is_uuid_text(res.0@.server_id),
        res.0@ == (DockerSpawnView {
            server_id: res.0@.server_id,
            standby: is_standby,
            config: config@,
            stage: DockerStageView::Listing,
        }),
        res.1@ == SpawnActionView::ListServers,
{
    let spawn = DockerSpawn {
        server_id: new_uuid(),
        standby: is_standby,
        config,
        stage: DockerStage::Listing,
    };
    (spawn, SpawnAction::ListServers)
}

impl DockerSpawn {
    /// Takes in how the last action came out, and gives the next one.
    pub fn step(self, event: SpawnEvent) -> (res: (DockerSpawn, SpawnAction))
        requires
            docker_admits(self@.stage, event@),
        ensures
            (res.0@, res.1@) == docker_step(self@, event@),
    {
        let DockerSpawn { server_id, standby, config, stage } = self;
        let (stage, action) = match (stage, event) {
            (DockerStage::Waiting { container_id }, SpawnEvent::Failed(reason)) => (
                DockerStage::Stopping { reason },
                SpawnAction::StopContainer(container_id),
            ),
            (DockerStage::Stopping { reason }, _) => (
                DockerStage::Removing { reason },
                SpawnAction::Run(remove_server(server_id.as_str())),
            ),
            (_, SpawnEvent::Failed(reason)) => (DockerStage::Ended, SpawnAction::Failed(reason)),
            (DockerStage::Listing, SpawnEvent::Servers(servers)) => match pick_free_port(
                config.first_port,
                config.last_port,
                &servers,
            ) {
                Ok(quic_port) => (
                    DockerStage::Registering { quic_port },
                    SpawnAction::Run(
                        register_server(
                            server_id.as_str(),
                            "",
                            config.public_addr.as_str(),
                            instance_name_of(server_id.as_str()).as_str(),
                            quic_port,
                            DEFAULT_CAPACITY,
                        ),
                    ),
                ),
                Err(reason) => (DockerStage::Ended, SpawnAction::Failed(reason)),
            },
            (DockerStage::Registering { quic_port }, _) => (
                DockerStage::Creating,
                SpawnAction::CreateContainer(
                    make_container_spec(&config, server_id.as_str(), quic_port),
                ),
            ),
            (DockerStage::Creating, SpawnEvent::ContainerCreated(container_id)) => {
                let patch = single(
                    set_field(server_id.as_str(), "container_id", container_id.as_str()),
                );
                (DockerStage::Patching { container_id }, SpawnAction::Run(patch))
            },
            (DockerStage::Patching { container_id }, _) => (
                DockerStage::Starting { container_id: container_id.clone() },
                SpawnAction::StartContainer(container_id),
            ),
            (DockerStage::Starting { container_id }, _) => (
                DockerStage::Waiting { container_id },
                SpawnAction::AwaitReady {
                    server_id: server_id.clone(),
                    timeout_secs: SPAWN_TIMEOUT_SECS,
                },
            ),
            (DockerStage::Waiting { container_id: _ }, _) => if standby {
                (DockerStage::Tagging, SpawnAction::Run(single(set_standby(server_id.as_str()))))
            } else {
                (DockerStage::Ended, SpawnAction::Spawned(server_id.clone()))
            },
            (DockerStage::Tagging, _) => (
                DockerStage::Ended,
                SpawnAction::Spawned(server_id.clone()),
            ),
            (DockerStage::Removing { reason }, _) => (
                DockerStage::Ended,
                SpawnAction::Failed(reason),
            ),
            (stage, _) => (stage, SpawnAction::ListServers),
        };
        (DockerSpawn { server_id, standby, config, stage }, action)
    }
}

// ---------------------------------------------------------------------------
// Spawning a pod behind a node port
// ---------------------------------------------------------------------------
/// The labels of a server's pod and service.
pub open spec fn pod_labels(server_id: Seq<char>) -> Seq<(Seq<char>, Seq<char>)> {
    seq![
        ("extraction-mmo.role"@, "game-server"@),
        ("extraction-mmo.server-id"@, server_id),
    ]
}

fn make_pod_labels(server_id: &str) -> (res: Vec<(String, String)>)
    ensures
        pairs(res@) == pod_labels(server_id@),
{
    let mut labels: Vec<(String, String)> = Vec::new();
    labels.push(entry("extraction-mmo.role", "game-server"));
    labels.push(entry("extraction-mmo.server-id", server_id));
    assert(pairs(labels@) =~= pod_labels(server_id@));
    labels
}

/// The pod of a server.
pub open spec fn node_pod(
    config: SpawnConfigView,
    server_id: Seq<char>,
    port: int,
) -> PodManifestView {
    PodManifestView {
        name: instance_name(server_id),
        namespace: None,
        labels: pod_labels(server_id),
        container_name: instance_name(server_id),
        image: config.image,
        udp_port: Some(port as u16),
        env: seq![
            ("SERVER_ID"@, server_id),
            ("QUIC_PORT"@, decimal(port as nat)),
            ("PUBLIC_ADDR"@, config.public_addr),
            ("MAX_PLAYERS"@, decimal(DEFAULT_CAPACITY as nat)),
            ("REDIS_URL"@, config.redis_url),
            ("GATEKEEPER_ADDR"@, config.gatekeeper_addr),
        ],
        restart_policy: Some("Never"@),
        secret_mount: None,
    }
}

fn make_node_pod(config: &SpawnConfig, server_id: &str, port: u16) -> (res: PodManifest)
    ensures
        res@ == node_pod(config@, server_id@, port as int),
{
    let mut env: Vec<(String, String)> = Vec::new();
    env.push(entry("SERVER_ID", server_id));
    env.push(entry("QUIC_PORT", u16_text(port).as_str()));
    env.push(entry("PUBLIC_ADDR", config.public_addr.as_str()));
    env.push(entry("MAX_PLAYERS", u32_text(DEFAULT_CAPACITY).as_str()));
    env.push(entry("REDIS_URL", config.redis_url.as_str()));
    env.push(entry("GATEKEEPER_ADDR", config.gatekeeper_addr.as_str()));
    assert(pairs(env@) =~= node_pod(config@, server_id@, port as int).env);
    PodManifest {
        name: instance_name_of(server_id),
        namespace: None,
        labels: make_pod_labels(server_id),
        container_name: instance_name_of(server_id),
        image: config.image.clone(),
        udp_port: Some(port),
        env,
        restart_policy: Some("Never".to_owned()),
        secret_mount: None,
    }
}

/// The service in front of a server's pod. The cluster picks the node port.
pub open spec fn node_service(server_id: Seq<char>, port: int) -> ServiceManifestView {
    ServiceManifestView {
        name: instance_name(server_id),
        namespace: None,
        labels: pod_labels(server_id),
        service_type: "NodePort"@,
        selector: seq![("extraction-mmo.server-id"@, server_id)],
        port,
        target_port: port,
    }
}

fn make_node_service(server_id: &str, port: u16) -> (res: ServiceManifest)
    ensures
        res@ == node_service(server_id@, port as int),
{
    let mut selector: Vec<(String, String)> = Vec::new();
    selector.push(entry("extraction-mmo.server-id", server_id));
    assert(pairs(selector@) =~= node_service(server_id@, port as int).selector);
    ServiceManifest {
        name: instance_name_of(server_id),
        namespace: None,
        labels: make_pod_labels(server_id),
        service_type: "NodePort".to_owned(),
        selector,
        port,
        target_port: port,
    }
}

/// How far the spawn of a pod is: what it waits for.
#[derive(Debug, Clone, PartialEq, Eq)]
pub enum NodeStage {
    Listing,
    Registering { quic_port: u16 },
    CreatingPod { quic_port: u16 },
    CreatingService,
    Patching { node_port: i32 },
    Waiting { node_port: i32 },
    Publishing,
    DeletingPod { reason: String },
    DeletingService { reason: String },
    Removing { reason: String },
    Ended,
}

/// The view of a `NodeStage`.
pub enum NodeStageView {
    Listing,
    Registering { quic_port: int },
    CreatingPod { quic_port: int },
    CreatingService,
    Patching { node_port: int },
    Waiting { node_port: int },
    Publishing,
    DeletingPod { reason: Seq<char> },
    DeletingService { reason: Seq<char> },
    Removing { reason: Seq<char> },
    Ended,
}

impl View for NodeStage {
    type V = NodeStageView;

    open spec fn view(&self) -> NodeStageView {
        match self {
            NodeStage::Listing => NodeStageView::Listing,
            NodeStage::Registering { quic_port } => NodeStageView::Registering {
                quic_port: *quic_port as int,
            },
            NodeStage::CreatingPod { quic_port } => NodeStageView::CreatingPod {
                quic_port: *quic_port as int,
            },
            NodeStage::CreatingService => NodeStageView::CreatingService,
            NodeStage::Patching { node_port } => NodeStageView::Patching {
                node_port: *node_port as int,
            },
            NodeStage::Waiting { node_port } => NodeStageView::Waiting {
                node_port: *node_port as int,
            },
            NodeStage::Publishing => NodeStageView::Publishing,
            NodeStage::DeletingPod { reason } => NodeStageView::DeletingPod { reason: reason@ },
            NodeStage::DeletingService { reason } => NodeStageView::DeletingService {
                reason: reason@,
            },
            NodeStage::Removing { reason } => NodeStageView::Removing { reason: reason@ },
            NodeStage::Ended => NodeStageView::Ended,
        }
    }
}

/// The spawn of a pod behind a node port.
#[derive(Debug, Clone, PartialEq, Eq)]
pub struct NodeSpawn {
    pub server_id: String,
    /// Whether the server is wanted as a standby; the poll cycle tags it.
    pub standby: bool,
    pub config: SpawnConfig,
    pub stage: NodeStage,
}

/// The view of a `NodeSpawn`.
pub struct NodeSpawnView {
    pub server_id: Seq<char>,
    pub standby: bool,
    pub config: SpawnConfigView,
    pub stage: NodeStageView,
}

impl View for NodeSpawn {
    type V = NodeSpawnView;

    open spec fn view(&self) -> NodeSpawnView {
        NodeSpawnView {
            server_id: self.server_id@,
            standby: self.standby,
            config: self.config@,
            stage: self.stage@,
        }
    }
}

/// Whether a spawn at some stage takes in an event.
pub open spec fn node_admits(stage: NodeStageView, event: SpawnEventView) -> bool {
    match stage {
        NodeStageView::Ended => false,
        NodeStageView::Listing => event is Servers || event is Failed,
        NodeStageView::CreatingService => event is ServiceCreated || event is Failed,
        _ => event is Done || event is Failed,
    }
}

/// The command that publishes the address at which clients reach the server.
pub open spec fn publication(server_id: Seq<char>, node_port: int) -> CommandView {
    CommandView::HSet {
        key: server_key_text(server_id),
        fields: seq![("address"@, "localhost"@), ("quic_port"@, signed_decimal(node_port))],
    }
}

fn make_publication(server_id: &str, node_port: i32) -> (res: RedisCommand)
    ensures
        res@ == publication(server_id@, node_port as int),
{
    let mut fields: Vec<(String, String)> = Vec::new();
    fields.push(entry("address", "localhost"));
    fields.push(entry("quic_port", i64_text(node_port as i64).as_str()));
    assert(pairs(fields@) =~= publication(server_id@, node_port as int)->HSet_fields);
    RedisCommand::HSet { key: server_key(server_id), fields }
}

/// The reason given where the pod did not become ready.
pub open spec fn pod_not_ready_message(reason: Seq<char>) -> Seq<char> {
    "Game server pod failed to become ready: "@ + reason
}

/// The next stage of a spawn and its next action. The server registers itself
/// while it starts, so its public address and node port are written only once
/// it is ready. A server that does not become ready loses its pod, its service
/// and its entry; any other failure ends the spawn at once.
pub open spec fn node_step(spawn: NodeSpawnView, event: SpawnEventView) -> (
    NodeSpawnView,
    SpawnActionView,
) {
    let id = spawn.server_id;
    let config = spawn.config;
    let (stage, action) = match (spawn.stage, event) {
        (NodeStageView::Waiting { node_port: _ }, SpawnEventView::Failed(reason)) => (
            NodeStageView::DeletingPod { reason },
            SpawnActionView::DeletePod { name: instance_name(id), namespace: None },
        ),
        (NodeStageView::DeletingPod { reason }, _) => (
            NodeStageView::DeletingService { reason },
            SpawnActionView::DeleteService { name: instance_name(id), namespace: None },
        ),
        (NodeStageView::DeletingService { reason }, _) => (
            NodeStageView::Removing { reason },
            SpawnActionView::Run(removal(id)),
        ),
        (_, SpawnEventView::Failed(reason)) => (
            NodeStageView::Ended,
            SpawnActionView::Failed(reason),
        ),
        (NodeStageView::Listing, SpawnEventView::Servers(servers)) => match free_port(
            servers,
            config.first_port,
            config.last_port,
        ) {
            Some(port) => (
                NodeStageView::Registering { quic_port: port },
                SpawnActionView::Run(
                    registration(
                        id,
                        ""@,
                        config.public_addr,
                        instance_name(id),
                        0,
                        DEFAULT_CAPACITY as nat,
                    ),
                ),
            ),
            None => (
                NodeStageView::Ended,
                SpawnActionView::Failed(no_free_port_message(config.first_port, config.last_port)),
            ),
        },
        (NodeStageView::Registering { quic_port }, _) => (
            NodeStageView::CreatingPod { quic_port },
            SpawnActionView::CreatePod(node_pod(config, id, quic_port)),
        ),
        (NodeStageView::CreatingPod { quic_port }, _) => (
            NodeStageView::CreatingService,
            SpawnActionView::CreateService(node_service(id, quic_port)),
        ),
        (
            NodeStageView::CreatingService,
            SpawnEventView::ServiceCreated { node_port, cluster_ip: _ },
        ) => match node_port {
            Some(port) => (
                NodeStageView::Patching { node_port: port as int },
                SpawnActionView::Run(seq![field_update(id, "container_id"@, instance_name(id))]),
            ),
            None => (
                NodeStageView::Ended,
                SpawnActionView::Failed("Failed to get assigned NodePort for game server"@),
            ),
        },
        (NodeStageView::Patching { node_port }, _) => (
            NodeStageView::Waiting { node_port },
            SpawnActionView::AwaitReady { server_id: id, timeout_secs: SPAWN_TIMEOUT_SECS as int },
        ),
        (NodeStageView::Waiting { node_port }, _) => (
            NodeStageView::Publishing,
            SpawnActionView::Run(seq![publication(id, node_port)]),
        ),
        (NodeStageView::Publishing, _) => (NodeStageView::Ended, SpawnActionView::Spawned(id)),
        (NodeStageView::Removing { reason }, _) => (
            NodeStageView::Ended,
            SpawnActionView::Failed(pod_not_ready_message(reason)),
        ),
        (_, _) => (spawn.stage, SpawnActionView::ListServers),
    };
    (NodeSpawnView { stage, ..spawn }, action)
}

/// Spawn a new game-server as a Kubernetes pod, with a fresh id: the state to
/// go on from and the first action.
///
/// - Creates and starts the pod in the current namespace.
/// - Registers a pre-launch entry so the game server can update it.
/// - Waits for `status=ready`; removes the pod, its service and the entry if the
///   wait fails.
pub fn spawn_server_k8s(config: SpawnConfig, is_standby: bool) -> (res: (NodeSpawn, SpawnAction))
    ensures
        is_uuid_text(res.0@.server_id),
        res.0@ == (NodeSpawnView {
            server_id: res.0@.server_id,
            standby: is_standby,
            config: config@,
            stage: NodeStageView::Listing,
        }),
        res.1@ == SpawnActionView::ListServers,
{
    let spawn = NodeSpawn {
        server_id: new_uuid(),
        standby: is_standby,
        config,
        stage: NodeStage::Listing,
    };
    (spawn, SpawnAction::ListServers)
}

impl NodeSpawn {
    /// Takes in how the last action came out, and gives the next one.
    pub fn step(self, event: SpawnEvent) -> (res: (NodeSpawn, SpawnAction))
        requires
            node_admits(self@.stage, event@),
        ensures
            (res.0@, res.1@) == node_step(self@, event@),
    {
        let NodeSpawn { server_id, standby, config, stage } = self;
        let (stage, action) = match (stage, event) {
            (NodeStage::Waiting { node_port: _ }, SpawnEvent::Failed(reason)) => (
                NodeStage::DeletingPod { reason },
                SpawnAction::DeletePod {
                    name: instance_name_of(server_id.as_str()),
                    namespace: None,
                },
            ),
            (NodeStage::DeletingPod { reason }, _) => (
                NodeStage::DeletingService { reason },
                SpawnAction::DeleteService {
                    name: instance_name_of(server_id.as_str()),
                    namespace: None,
                },
            ),
            (NodeStage::DeletingService { reason }, _) => (
                NodeStage::Removing { reason },
                SpawnAction::Run(remove_server(server_id.as_str())),
            ),
            (_, SpawnEvent::Failed(reason)) => (NodeStage::Ended, SpawnAction::Failed(reason)),
            (NodeStage::Listing, SpawnEvent::Servers(servers)) => match pick_free_port(
                config.first_port,
                config.last_port,
                &servers,
            ) {
                Ok(quic_port) => (
                    NodeStage::Registering { quic_port },
                    SpawnAction::Run(
                        register_server(
                            server_id.as_str(),
                            "",
                            config.public_addr.as_str(),
                            instance_name_of(server_id.as_str()).as_str(),
                            0,
                            DEFAULT_CAPACITY,
                        ),
                    ),
                ),
                Err(reason) => (NodeStage::Ended, SpawnAction::Failed(reason)),
            },
            (NodeStage::Registering { quic_port }, _) => (
                NodeStage::CreatingPod { quic_port },
                SpawnAction::CreatePod(make_node_pod(&config, server_id.as_str(), quic_port)),
            ),
            (NodeStage::CreatingPod { quic_port }, _) => (
                NodeStage::CreatingService,
                SpawnAction::CreateService(make_node_service(server_id.as_str(), quic_port)),
            ),
            (
                NodeStage::CreatingService,
                SpawnEvent::ServiceCreated { node_port, cluster_ip: _ },
            ) => match node_port {
                Some(port) => (
                    NodeStage::Patching { node_port: port },
                    SpawnAction::Run(
                        single(
                            set_field(
                                server_id.as_str(),
                                "container_id",
                                instance_name_of(server_id.as_str()).as_str(),
                            ),
                        ),
                    ),
                ),
                None => (
                    NodeStage::Ended,
                    SpawnAction::Failed(
                        "Failed to get assigned NodePort for game server".to_owned(),
                    ),
                ),
            },
            (NodeStage::Patching { node_port }, _) => (
                NodeStage::Waiting { node_port },
                SpawnAction::AwaitReady {
                    server_id: server_id.clone(),
                    timeout_secs: SPAWN_TIMEOUT_SECS,
                },
            ),
            (NodeStage::Waiting { node_port }, _) => (
                NodeStage::Publishing,
                SpawnAction::Run(single(make_publication(server_id.as_str(), node_port))),
            ),
            (NodeStage::Publishing, _) => (
                NodeStage::Ended,
                SpawnAction::Spawned(server_id.clone()),
            ),
            (NodeStage::Removing { reason }, _) => (
                NodeStage::Ended,
                SpawnAction::Failed(
                    "Game server pod failed to become ready: ".to_owned().concat(reason.as_str()),
                ),
            ),
            (stage, _) => (stage, SpawnAction::ListServers),
        };
        (NodeSpawn { server_id, standby, config, stage }, action)
    }
}

// ---------------------------------------------------------------------------
// Laws
// ---------------------------------------------------------------------------
/// A pod that is created starts as the server that was registered: what the game
/// server reads from the pod's environment is the id of the spawn, the port that
/// was picked, the public address and the default capacity. So its registration
/// as ready writes the very hash whose status the spawn waits for.
pub proof fn law_node_pod_runs_the_server(
    store: Store,
    config: SpawnConfigView,
    server_id: Seq<char>,
    port: int,
    vars: ServerVars,
    cfg: ServerConfig,
)
    requires
        0 <= port <= u16::MAX,
        are_set_by(vars, fields_of(node_pod(config, server_id, port).env)),
        is_configured(cfg, vars),
    ensures
        cfg.server_id@ == server_id,
        cfg.quic_port == port,
        cfg.public_addr@ == config.public_addr,
        cfg.max_players == 128,
        cfg.redis_url@ == config.redis_url,
        cfg.gatekeeper_addr@ == config.gatekeeper_addr,
        field(
            store.after_all(self_registration(cfg, "ready"@)).hash("server:"@ + server_id),
            "status"@,
        ) == Some("ready"@),
{
    let env = node_pod(config, server_id, port).env;
    lemma_variable_names();
    lemma_distinct_writes(env, 0);
    lemma_distinct_writes(env, 1);
    lemma_distinct_writes(env, 2);
    lemma_distinct_writes(env, 3);
    lemma_distinct_writes(env, 4);
    lemma_distinct_writes(env, 5);
    law_environment_is_obeyed(
        fields_of(env),
        vars,
        cfg,
        server_id,
        config.public_addr,
        port as nat,
        128,
        config.redis_url,
        config.gatekeeper_addr,
    );
    let list = self_registration(cfg, "ready"@);
    law_self_registration(cfg, "ready"@);
    assert(list =~= seq![list[0], list[1]]);
    law_after_two(store, list[0], list[1]);
    lemma_self_fields(cfg, "ready"@);
}

/// A container's environment is that of a pod of the same server, each variable
/// written with an equals sign before its value.
pub proof fn law_container_environment(config: SpawnConfigView, server_id: Seq<char>, port: int)
    ensures
        container_spec(config, server_id, port).env == node_pod(
            config,
            server_id,
            port,
        ).env.map_values(|v: (Seq<char>, Seq<char>)| v.0 + "="@ + v.1),
{
    let made = container_spec(config, server_id, port).env;
    let env = node_pod(config, server_id, port).env;
    reveal_strlit("=");
    reveal_strlit("SERVER_ID");
    reveal_strlit("SERVER_ID=");
    reveal_strlit("QUIC_PORT");
    reveal_strlit("QUIC_PORT=");
    reveal_strlit("PUBLIC_ADDR");
    reveal_strlit("PUBLIC_ADDR=");
    reveal_strlit("MAX_PLAYERS");
    reveal_strlit("MAX_PLAYERS=");
    reveal_strlit("REDIS_URL");
    reveal_strlit("REDIS_URL=");
    reveal_strlit("GATEKEEPER_ADDR");
    reveal_strlit("GATEKEEPER_ADDR=");
    assert("SERVER_ID="@ =~= "SERVER_ID"@ + "="@);
    assert("QUIC_PORT="@ =~= "QUIC_PORT"@ + "="@);
    assert("PUBLIC_ADDR="@ =~= "PUBLIC_ADDR"@ + "="@);
    assert("MAX_PLAYERS="@ =~= "MAX_PLAYERS"@ + "="@);
    assert("REDIS_URL="@ =~= "REDIS_URL"@ + "="@);
    assert("GATEKEEPER_ADDR="@ =~= "GATEKEEPER_ADDR"@ + "="@);
    assert(made =~= env.map_values(|v: (Seq<char>, Seq<char>)| v.0 + "="@ + v.1));
}

/// Players and the orchestrator reach a container: the port that the server
/// listens on is bound to the same port of every address of the host, and on the
/// network it has the name that the orchestrator registers as its internal
/// address.
pub proof fn law_container_is_reachable(config: SpawnConfigView, server_id: Seq<char>, port: int)
    ensures
        ({
            let made = container_spec(config, server_id, port);
            &&& made.name == "game-"@ + server_id
            &&& made.image == config.image
            &&& made.port_key == decimal(port as nat) + "/udp"@
            &&& made.host_ip == "0.0.0.0"@
            &&& made.host_port == decimal(port as nat)
            &&& made.network == config.network
            &&& made.alias == "game-"@ + server_id
            &&& made.hostname == "game-"@ + server_id
            &&& made.labels == seq![
                ("extraction-mmo.role"@, "game-server"@),
                ("extraction-mmo.server-id"@, server_id),
                ("com.docker.compose.project"@, "extraction-mmo"@),
                ("com.docker.compose.service"@, "game-server"@),
            ]
        }),
{
}

/// A service leads to its server's pod: both have one name and namespace, what
/// the service selects by is a label of the pod that names the server, and it
/// passes its traffic to the port that the pod opens.
pub proof fn law_node_service_leads_to_pod(
    config: SpawnConfigView,
    server_id: Seq<char>,
    port: int,
)
    requires
        0 <= port <= u16::MAX,
    ensures
        ({
            let pod = node_pod(config, server_id, port);
            let service = node_service(server_id, port);
            &&& pod.name == "game-"@ + server_id && service.name == pod.name
            &&& pod.namespace is None && service.namespace is None
            &&& pod.container_name == pod.name
            &&& pod.image == config.image
            &&& pod.restart_policy == Some("Never"@)
            &&& pod.secret_mount is None
            &&& service.service_type == "NodePort"@
            &&& service.selector == seq![("extraction-mmo.server-id"@, server_id)]
            &&& pod.labels.contains(service.selector[0])
            &&& pod.labels == service.labels
            &&& pod.labels == seq![
                ("extraction-mmo.role"@, "game-server"@),
                ("extraction-mmo.server-id"@, server_id),
            ]
            &&& pod.udp_port == Some(port as u16)
            &&& service.port == port && service.target_port == port
        }),
{
    assert(node_pod(config, server_id, port).labels[1] == node_service(
        server_id,
        port,
    ).selector[0]);
}

/// The settings of a spawn: each is what its variable says, and without one the
/// default.
pub proof fn law_spawn_config(vars: SpawnVars, port: nat)
    requires
        port <= u16::MAX,
    ensures
        ({
            let config = spawn_config(vars);
            &&& vars.public_addr matches Some(v) ==> config.public_addr == v@
            &&& vars.redis_url matches Some(v) ==> config.redis_url == v@
            &&& vars.gatekeeper_addr matches Some(v) ==> config.gatekeeper_addr == v@
            &&& vars.game_image matches Some(v) ==> config.image == v@
            &&& vars.game_network matches Some(v) ==> config.network == v@
            &&& (vars.port_range_start matches Some(v) && v@ == decimal(port)) ==> config.first_port
                == port
            &&& (vars.port_range_end matches Some(v) && v@ == decimal(port)) ==> config.last_port
                == port
            &&& vars.public_addr is None ==> config.public_addr == "localhost"@
            &&& vars.redis_url is None ==> config.redis_url == "redis://redis:6379"@
            &&& vars.gatekeeper_addr is None ==> config.gatekeeper_addr == "gatekeeper:3001"@
            &&& vars.game_image is None ==> config.image == "game-server:latest"@
            &&& vars.game_network is None ==> config.network == "game-net"@
            &&& vars.port_range_start is None ==> config.first_port == 7000
            &&& vars.port_range_end is None ==> config.last_port == 7100
        }),
{
    law_decimal_roundtrip(port, u16::MAX as int);
}

/// The picked port lies in the range and no listed server has it, while every
/// lower port of the range is taken. Where none is picked, all are taken.
pub proof fn law_picked_port(servers: Seq<ServerInfoView>, first: int, last: int, p: int, i: int)
    ensures
        (match free_port(servers, first, last) {
            Some(port) => {
                &&& first <= port <= last
                &&& 0 <= i < servers.len() ==> servers[i].quic_port != port
                &&& first <= p < port ==> exists|k: int|
                    0 <= k < servers.len() && (#[trigger] servers[k]).quic_port == p
            },
            None => first <= p <= last ==> exists|k: int|
                0 <= k < servers.len() && (#[trigger] servers[k]).quic_port == p,
        }),
{
    law_free_port(servers, first, last);
    assert(port_used(servers, p) ==> exists|k: int|
        0 <= k < servers.len() && (#[trigger] servers[k]).quic_port == p);
    match free_port(servers, first, last) {
        Some(port) => {
            if 0 <= i < servers.len() && servers[i].quic_port == port {
                assert(port_used(servers, port));
            }
        },
        None => {},
    }
}

/// How a spawn of a container starts: the server is registered on the picked
/// port under the name of its container, or the spawn fails for want of a port.
pub proof fn law_docker_starts_on_free_port(spawn: DockerSpawnView, servers: Seq<ServerInfoView>)
    requires
        spawn.stage == DockerStageView::Listing,
    ensures
        ({
            let id = spawn.server_id;
            let config = spawn.config;
            let (after, action) = docker_step(spawn, SpawnEventView::Servers(servers));
            match free_port(servers, config.first_port, config.last_port) {
                Some(port) => after == (DockerSpawnView {
                    stage: DockerStageView::Registering { quic_port: port },
                    ..spawn
                }) && action == SpawnActionView::Run(
                    registration(id, ""@, config.public_addr, "game-"@ + id, port as nat, 128),
                ),
                None => after == (DockerSpawnView { stage: DockerStageView::Ended, ..spawn })
                    && action == SpawnActionView::Failed(
                    "No free QUIC port in range "@ + decimal(config.first_port as nat) + "–"@
                        + decimal(config.last_port as nat),
                ),
            }
        }),
{
}

/// A spawn of a container whose server was not started yet, or is ready already,
/// ends with the reason of any failure. One whose server was started but does not
/// become ready stops the container first, then removes the entry, whatever comes
/// of either, and fails with the reason of the wait.
pub proof fn law_docker_failures(
    spawn: DockerSpawnView,
    reason: Seq<char>,
    later: SpawnEventView,
    container_id: Seq<char>,
)
    ensures
        ({
            let at = |stage: DockerStageView| DockerSpawnView { stage, ..spawn };
            let failed = SpawnEventView::Failed(reason);
            &&& !(spawn.stage is Waiting) && !(spawn.stage is Stopping) ==> docker_step(
                spawn,
                failed,
            ) == (at(DockerStageView::Ended), SpawnActionView::Failed(reason))
            &&& docker_step(at(DockerStageView::Waiting { container_id }), failed) == (
                at(DockerStageView::Stopping { reason }),
                SpawnActionView::StopContainer(container_id),
            )
            &&& docker_step(at(DockerStageView::Stopping { reason }), later) == (
                at(DockerStageView::Removing { reason }),
                SpawnActionView::Run(removal(spawn.server_id)),
            )
            &&& docker_step(at(DockerStageView::Removing { reason }), SpawnEventView::Done) == (
                at(DockerStageView::Ended),
                SpawnActionView::Failed(reason),
            )
        }),
{
}

/// The spawn of a container, action by action, where all goes well.
pub proof fn law_docker_steps(spawn: DockerSpawnView, port: int, container_id: Seq<char>)
    ensures
        ({
            let at = |stage: DockerStageView| DockerSpawnView { stage, ..spawn };
            let id = spawn.server_id;
            let done = SpawnEventView::Done;
            &&& docker_step(at(DockerStageView::Registering { quic_port: port }), done) == (
                at(DockerStageView::Creating),
                SpawnActionView::CreateContainer(container_spec(spawn.config, id, port)),
            )
            &&& docker_step(
                at(DockerStageView::Creating),
                SpawnEventView::ContainerCreated(container_id),
            ) == (
                at(DockerStageView::Patching { container_id }),
                SpawnActionView::Run(
                    seq![
                        CommandView::HSet {
                            key: "server:"@ + id,
                            fields: seq![("container_id"@, container_id)],
                        },
                    ],
                ),
            )
            &&& docker_step(at(DockerStageView::Patching { container_id }), done) == (
                at(DockerStageView::Starting { container_id }),
                SpawnActionView::StartContainer(container_id),
            )
            &&& docker_step(at(DockerStageView::Starting { container_id }), done) == (
                at(DockerStageView::Waiting { container_id }),
                SpawnActionView::AwaitReady { server_id: id, timeout_secs: 30 },
            )
            &&& docker_step(at(DockerStageView::Waiting { container_id }), done)
                == if spawn.standby {
                (
                    at(DockerStageView::Tagging),
                    SpawnActionView::Run(
                        seq![CommandView::SetValue { key: "servers:standby"@, value: id }],
                    ),
                )
            } else {
                (at(DockerStageView::Ended), SpawnActionView::Spawned(id))
            }
            &&& docker_step(at(DockerStageView::Tagging), done) == (
                at(DockerStageView::Ended),
                SpawnActionView::Spawned(id),
            )
        }),
{
}

/// The spawn of a pod, action by action, where all goes well: the pod is created
/// on the picked port, then its service, its name noted, the server waited for,
/// and the node's port published.
pub proof fn law_node_steps(
    spawn: NodeSpawnView,
    servers: Seq<ServerInfoView>,
    port: int,
    node_port: i32,
    cluster_ip: Option<Seq<char>>,
)
    ensures
        ({
            let at = |stage: NodeStageView| NodeSpawnView { stage, ..spawn };
            let id = spawn.server_id;
            let config = spawn.config;
            let done = SpawnEventView::Done;
            &&& free_port(servers, config.first_port, config.last_port) == Some(port) ==> node_step(
                at(NodeStageView::Listing),
                SpawnEventView::Servers(servers),
            ) == (
                at(NodeStageView::Registering { quic_port: port }),
                SpawnActionView::Run(
                    registration(id, ""@, config.public_addr, "game-"@ + id, 0, 128),
                ),
            )
            &&& free_port(servers, config.first_port, config.last_port) is None ==> node_step(
                at(NodeStageView::Listing),
                SpawnEventView::Servers(servers),
            ) == (
                at(NodeStageView::Ended),
                SpawnActionView::Failed(
                    "No free QUIC port in range "@ + decimal(config.first_port as nat) + "–"@
                        + decimal(config.last_port as nat),
                ),
            )
            &&& node_step(at(NodeStageView::Registering { quic_port: port }), done) == (
                at(NodeStageView::CreatingPod { quic_port: port }),
                SpawnActionView::CreatePod(node_pod(config, id, port)),
            )
            &&& node_step(at(NodeStageView::CreatingPod { quic_port: port }), done) == (
                at(NodeStageView::CreatingService),
                SpawnActionView::CreateService(node_service(id, port)),
            )
            &&& node_step(
                at(NodeStageView::CreatingService),
                SpawnEventView::ServiceCreated { node_port: Some(node_port), cluster_ip },
            ) == (
                at(NodeStageView::Patching { node_port: node_port as int }),
                SpawnActionView::Run(
                    seq![
                        CommandView::HSet {
                            key: "server:"@ + id,
                            fields: seq![("container_id"@, "game-"@ + id)],
                        },
                    ],
                ),
            )
            &&& node_step(
                at(NodeStageView::CreatingService),
                SpawnEventView::ServiceCreated { node_port: None, cluster_ip },
            ) == (
                at(NodeStageView::Ended),
                SpawnActionView::Failed("Failed to get assigned NodePort for game server"@),
            )
            &&& node_step(
                at(NodeStageView::Patching { node_port: node_port as int }),
                done,
            ) == (
                at(NodeStageView::Waiting { node_port: node_port as int }),
                SpawnActionView::AwaitReady { server_id: id, timeout_secs: 30 },
            )
            &&& node_step(at(NodeStageView::Waiting { node_port: node_port as int }), done) == (
                at(NodeStageView::Publishing),
                SpawnActionView::Run(
                    seq![
                        CommandView::HSet {
                            key: "server:"@ + id,
                            fields: seq![
                                ("address"@, "localhost"@),
                                ("quic_port"@, signed_decimal(node_port as int)),
                            ],
                        },
                    ],
                ),
            )
            &&& node_step(at(NodeStageView::Publishing), done) == (
                at(NodeStageView::Ended),
                SpawnActionView::Spawned(id),
            )
        }),
{
}

/// A spawn of a pod ends with the reason of any failure but that of the wait. A
/// pod that does not become ready is deleted first, then its service and the
/// entry of the server, whatever comes of either deletion.
pub proof fn law_node_failures(
    spawn: NodeSpawnView,
    reason: Seq<char>,
    later: SpawnEventView,
    node_port: int,
)
    ensures
        ({
            let at = |stage: NodeStageView| NodeSpawnView { stage, ..spawn };
            let name = "game-"@ + spawn.server_id;
            let failed = SpawnEventView::Failed(reason);
            &&& !(spawn.stage is Waiting) && !(spawn.stage is DeletingPod) && !(spawn.stage
                is DeletingService) ==> node_step(spawn, failed) == (
                at(NodeStageView::Ended),
                SpawnActionView::Failed(reason),
            )
            &&& node_step(at(NodeStageView::Waiting { node_port }), failed) == (
                at(NodeStageView::DeletingPod { reason }),
                SpawnActionView::DeletePod { name, namespace: None },
            )
            &&& node_step(at(NodeStageView::DeletingPod { reason }), later) == (
                at(NodeStageView::DeletingService { reason }),
                SpawnActionView::DeleteService { name, namespace: None },
            )
            &&& node_step(at(NodeStageView::DeletingService { reason }), later) == (
                at(NodeStageView::Removing { reason }),
                SpawnActionView::Run(removal(spawn.server_id)),
            )
            &&& node_step(at(NodeStageView::Removing { reason }), SpawnEventView::Done) == (
                at(NodeStageView::Ended),
                SpawnActionView::Failed("Game server pod failed to become ready: "@ + reason),
            )
        }),
{
}

/// Which events a spawn takes in: at any stage but the last a failure, and else
/// the outcome of what it asked for.
pub proof fn law_spawn_admits(
    docker: DockerStageView,
    node: NodeStageView,
    event: SpawnEventView,
)
    ensures
        docker_admits(docker, event) <==> !(docker is Ended) && (event is Failed || if docker
            is Listing {
            event is Servers
        } else if docker is Creating {
            event is ContainerCreated
        } else {
            event is Done
        }),
        node_admits(node, event) <==> !(node is Ended) && (event is Failed || if node is Listing {
            event is Servers
        } else if node is CreatingService {
            event is ServiceCreated
        } else {
            event is Done
        }),
{
}

/// The state of a container's spawn after a list of events, and the actions it
/// gave.
#[verifier::opaque]
pub open spec fn docker_trace(spawn: DockerSpawnView, events: Seq<SpawnEventView>) -> (
    DockerSpawnView,
    Seq<SpawnActionView>,
)
    decreases events.len(),
{
    if events.len() == 0 {
        (spawn, Seq::empty())
    } else {
        let (before, given) = docker_trace(spawn, events.drop_last());
        let (after, action) = docker_step(before, events.last());
        (after, given.push(action))
    }
}

proof fn lemma_docker_push(
    spawn: DockerSpawnView,
    events: Seq<SpawnEventView>,
    event: SpawnEventView,
    before: DockerSpawnView,
    given: Seq<SpawnActionView>,
    after: DockerSpawnView,
    action: SpawnActionView,
)
    requires
        docker_trace(spawn, events) == (before, given),
        docker_step(before, event) == (after, action),
    ensures
        docker_trace(spawn, events.push(event)) == (after, given.push(action)),
{
    reveal(docker_trace);
    assert(events.push(event).drop_last() =~= events);
}

proof fn lemma_docker_start(spawn: DockerSpawnView)
    ensures
        docker_trace(spawn, Seq::empty()) == (spawn, Seq::<SpawnActionView>::empty()),
{
    reveal(docker_trace);
}

/// Whoever carries out the action that a spawn gave, and hands back how it came
/// out, always hands back an event that the spawn takes in.
pub proof fn law_docker_takes_outcomes(
    spawn: DockerSpawnView,
    event: SpawnEventView,
    outcome: SpawnEventView,
)
    requires
        docker_admits(spawn.stage, event),
    ensures
        ({
            let (after, action) = docker_step(spawn, event);
            docker_admits(after.stage, outcome) == is_outcome(action, outcome)
        }),
{
}

/// How the actions come out, up to the wait for the server.
pub open spec fn docker_events_to_wait(
    servers: Seq<ServerInfoView>,
    container_id: Seq<char>,
) -> Seq<SpawnEventView> {
    seq![
        SpawnEventView::Servers(servers),
        SpawnEventView::Done,
        SpawnEventView::ContainerCreated(container_id),
        SpawnEventView::Done,
        SpawnEventView::Done,
    ]
}

/// The actions up to the wait: the server is registered, its container created,
/// the container's id noted, and the container started.
pub open spec fn docker_actions_to_wait(
    spawn: DockerSpawnView,
    port: int,
    container_id: Seq<char>,
) -> Seq<SpawnActionView> {
    let id = spawn.server_id;
    seq![
        SpawnActionView::Run(
            registration(
                id,
                ""@,
                spawn.config.public_addr,
                instance_name(id),
                port as nat,
                DEFAULT_CAPACITY as nat,
            ),
        ),
        SpawnActionView::CreateContainer(container_spec(spawn.config, id, port)),
        SpawnActionView::Run(seq![field_update(id, "container_id"@, container_id)]),
        SpawnActionView::StartContainer(container_id),
        SpawnActionView::AwaitReady { server_id: id, timeout_secs: SPAWN_TIMEOUT_SECS as int },
    ]
}

spec fn docker_at(spawn: DockerSpawnView, stage: DockerStageView) -> DockerSpawnView {
    DockerSpawnView { stage, ..spawn }
}

proof fn lemma_docker_reaches_wait(
    spawn: DockerSpawnView,
    servers: Seq<ServerInfoView>,
    port: int,
    container_id: Seq<char>,
)
    requires
        spawn.stage == DockerStageView::Listing,
        free_port(servers, spawn.config.first_port, spawn.config.last_port) == Some(port),
    ensures
        docker_trace(spawn, docker_events_to_wait(servers, container_id)) == (
            docker_at(spawn, DockerStageView::Waiting { container_id }),
            docker_actions_to_wait(spawn, port, container_id),
        ),
{
    let e = docker_events_to_wait(servers, container_id);
    let a = docker_actions_to_wait(spawn, port, container_id);
    let s1 = docker_at(spawn, DockerStageView::Registering { quic_port: port });
    let s2 = docker_at(spawn, DockerStageView::Creating);
    let s3 = docker_at(spawn, DockerStageView::Patching { container_id });
    let s4 = docker_at(spawn, DockerStageView::Starting { container_id });
    let s5 = docker_at(spawn, DockerStageView::Waiting { container_id });
    lemma_docker_start(spawn);
    assert(e.take(0) =~= Seq::empty() && a.take(0) =~= Seq::empty());
    assert(e.take(1) =~= e.take(0).push(e[0]) && a.take(1) =~= a.take(0).push(a[0]));
    assert(e.take(2) =~= e.take(1).push(e[1]) && a.take(2) =~= a.take(1).push(a[1]));
    assert(e.take(3) =~= e.take(2).push(e[2]) && a.take(3) =~= a.take(2).push(a[2]));
    assert(e.take(4) =~= e.take(3).push(e[3]) && a.take(4) =~= a.take(3).push(a[3]));
    assert(e =~= e.take(4).push(e[4]) && a =~= a.take(4).push(a[4]));
    lemma_docker_push(spawn, e.take(0), e[0], spawn, a.take(0), s1, a[0]);
    lemma_docker_push(spawn, e.take(1), e[1], s1, a.take(1), s2, a[1]);
    lemma_docker_push(spawn, e.take(2), e[2], s2, a.take(2), s3, a[2]);
    lemma_docker_push(spawn, e.take(3), e[3], s3, a.take(3), s4, a[3]);
    lemma_docker_push(spawn, e.take(4), e[4], s4, a.take(4), s5, a[4]);
}

/// Where every action succeeds, the spawn registers the server on a free port,
/// creates its container, notes the container's id, starts it, waits for the
/// server, tags it if it is a standby, and ends with its id.
pub proof fn law_docker_spawn_succeeds(
    spawn: DockerSpawnView,
    servers: Seq<ServerInfoView>,
    port: int,
    container_id: Seq<char>,
)
    requires
        spawn.stage == DockerStageView::Listing,
        free_port(servers, spawn.config.first_port, spawn.config.last_port) == Some(port),
    ensures
        ({
            let id = spawn.server_id;
            let events = docker_events_to_wait(servers, container_id).push(SpawnEventView::Done);
            let given = docker_actions_to_wait(spawn, port, container_id);
            if spawn.standby {
                docker_trace(spawn, events.push(SpawnEventView::Done)).1 == given.push(
                    SpawnActionView::Run(
                        seq![CommandView::SetValue { key: standby_server_key_text(), value: id }],
                    ),
                ).push(SpawnActionView::Spawned(id))
            } else {
                docker_trace(spawn, events).1 == given.push(SpawnActionView::Spawned(id))
            }
        }),
{
    let id = spawn.server_id;
    let e5 = docker_events_to_wait(servers, container_id);
    let a5 = docker_actions_to_wait(spawn, port, container_id);
    let s5 = docker_at(spawn, DockerStageView::Waiting { container_id });
    let ended = docker_at(spawn, DockerStageView::Ended);
    lemma_docker_reaches_wait(spawn, servers, port, container_id);
    if spawn.standby {
        let s6 = docker_at(spawn, DockerStageView::Tagging);
        let tag = SpawnActionView::Run(
            seq![CommandView::SetValue { key: standby_server_key_text(), value: id }],
        );
        lemma_docker_push(spawn, e5, SpawnEventView::Done, s5, a5, s6, tag);
        lemma_docker_push(
            spawn,
            e5.push(SpawnEventView::Done),
            SpawnEventView::Done,
            s6,
            a5.push(tag),
            ended,
            SpawnActionView::Spawned(id),
        );
    } else {
        lemma_docker_push(
            spawn,
            e5,
            SpawnEventView::Done,
            s5,
            a5,
            ended,
            SpawnActionView::Spawned(id),
        );
    }
}

/// A started server that does not become ready is cleaned up: its container is
/// stopped, and in the end the store has neither its entry nor its membership
/// of the active set. The spawn fails with the reason of the wait, however the
/// stopping came out.
pub proof fn law_docker_failed_spawn_cleans_up(
    store: Store,
    spawn: DockerSpawnView,
    servers: Seq<ServerInfoView>,
    port: int,
    container_id: Seq<char>,
    reason: Seq<char>,
    stop_outcome: SpawnEventView,
)
    requires
        spawn.stage == DockerStageView::Listing,
        free_port(servers, spawn.config.first_port, spawn.config.last_port) == Some(port),
    ensures
        ({
            let id = spawn.server_id;
            let events = docker_events_to_wait(servers, container_id).push(
                SpawnEventView::Failed(reason),
            ).push(stop_outcome).push(SpawnEventView::Done);
            let given = docker_trace(spawn, events).1;
            let after = store.after_all(commands_run(given));
            &&& given == docker_actions_to_wait(spawn, port, container_id).push(
                SpawnActionView::StopContainer(container_id),
            ).push(SpawnActionView::Run(removal(id))).push(SpawnActionView::Failed(reason))
            &&& after.hash(server_key_text(id)) == Map::<Seq<char>, Seq<char>>::empty()
            &&& !after.members(active_servers_key_text()).contains(id)
        }),
{
    let id = spawn.server_id;
    let e5 = docker_events_to_wait(servers, container_id);
    let e6 = e5.push(SpawnEventView::Failed(reason));
    let e7 = e6.push(stop_outcome);
    let a5 = docker_actions_to_wait(spawn, port, container_id);
    let stop = SpawnActionView::StopContainer(container_id);
    let remove = SpawnActionView::Run(removal(id));
    let failed = SpawnActionView::Failed(reason);
    let s5 = docker_at(spawn, DockerStageView::Waiting { container_id });
    let s6 = docker_at(spawn, DockerStageView::Stopping { reason });
    let s7 = docker_at(spawn, DockerStageView::Removing { reason });
    let s8 = docker_at(spawn, DockerStageView::Ended);
    lemma_docker_reaches_wait(spawn, servers, port, container_id);
    lemma_docker_push(spawn, e5, SpawnEventView::Failed(reason), s5, a5, s6, stop);
    lemma_docker_push(spawn, e6, stop_outcome, s6, a5.push(stop), s7, remove);
    lemma_docker_push(
        spawn,
        e7,
        SpawnEventView::Done,
        s7,
        a5.push(stop).push(remove),
        s8,
        failed,
    );
    let before = a5.push(stop);
    assert(before.push(remove).drop_last() =~= before);
    assert(before.push(remove).push(failed).drop_last() =~= before.push(remove));
    assert(commands_run(before.push(remove)) == commands_run(before) + removal(id));
    assert(commands_run(before.push(remove).push(failed)) == commands_run(before.push(remove)));
    law_after_append(store, commands_run(before), removal(id));
    law_remove_server(store.after_all(commands_run(before)), id, id);
}

/// The state of a pod's spawn after a list of events, and the actions it gave.
#[verifier::opaque]
pub open spec fn node_trace(spawn: NodeSpawnView, events: Seq<SpawnEventView>) -> (
    NodeSpawnView,
    Seq<SpawnActionView>,
)
    decreases events.len(),
{
    if events.len() == 0 {
        (spawn, Seq::empty())
    } else {
        let (before, given) = node_trace(spawn, events.drop_last());
        let (after, action) = node_step(before, events.last());
        (after, given.push(action))
    }
}

proof fn lemma_node_push(
    spawn: NodeSpawnView,
    events: Seq<SpawnEventView>,
    event: SpawnEventView,
    before: NodeSpawnView,
    given: Seq<SpawnActionView>,
    after: NodeSpawnView,
    action: SpawnActionView,
)
    requires
        node_trace(spawn, events) == (before, given),
        node_step(before, event) == (after, action),
    ensures
        node_trace(spawn, events.push(event)) == (after, given.push(action)),
{
    reveal(node_trace);
    assert(events.push(event).drop_last() =~= events);
}

proof fn lemma_node_start(spawn: NodeSpawnView)
    ensures
        node_trace(spawn, Seq::empty()) == (spawn, Seq::<SpawnActionView>::empty()),
{
    reveal(node_trace);
}

/// Whoever carries out the action that a spawn gave, and hands back how it came
/// out, always hands back an event that the spawn takes in.
pub proof fn law_node_takes_outcomes(
    spawn: NodeSpawnView,
    event: SpawnEventView,
    outcome: SpawnEventView,
)
    requires
        node_admits(spawn.stage, event),
    ensures
        ({
            let (after, action) = node_step(spawn, event);
            node_admits(after.stage, outcome) == is_outcome(action, outcome)
        }),
{
}

/// How the actions come out, up to the wait for the server.
pub open spec fn node_events_to_wait(
    servers: Seq<ServerInfoView>,
    node_port: i32,
    cluster_ip: Option<Seq<char>>,
) -> Seq<SpawnEventView> {
    seq![
        SpawnEventView::Servers(servers),
        SpawnEventView::Done,
        SpawnEventView::Done,
        SpawnEventView::ServiceCreated { node_port: Some(node_port), cluster_ip },
        SpawnEventView::Done,
    ]
}

/// The actions up to the wait: the server is registered, its pod and its
/// service created, and the pod's name noted.
pub open spec fn node_actions_to_wait(spawn: NodeSpawnView, port: int) -> Seq<SpawnActionView> {
    let id = spawn.server_id;
    seq![
        SpawnActionView::Run(
            registration(
                id,
                ""@,
                spawn.config.public_addr,
                instance_name(id),
                0,
                DEFAULT_CAPACITY as nat,
            ),
        ),
        SpawnActionView::CreatePod(node_pod(spawn.config, id, port)),
        SpawnActionView::CreateService(node_service(id, port)),
        SpawnActionView::Run(seq![field_update(id, "container_id"@, instance_name(id))]),
        SpawnActionView::AwaitReady { server_id: id, timeout_secs: SPAWN_TIMEOUT_SECS as int },
    ]
}

spec fn node_at(spawn: NodeSpawnView, stage: NodeStageView) -> NodeSpawnView {
    NodeSpawnView { stage, ..spawn }
}

proof fn lemma_node_reaches_wait(
    spawn: NodeSpawnView,
    servers: Seq<ServerInfoView>,
    port: int,
    node_port: i32,
    cluster_ip: Option<Seq<char>>,
)
    requires
        spawn.stage == NodeStageView::Listing,
        free_port(servers, spawn.config.first_port, spawn.config.last_port) == Some(port),
    ensures
        node_trace(spawn, node_events_to_wait(servers, node_port, cluster_ip)) == (
            node_at(spawn, NodeStageView::Waiting { node_port: node_port as int }),
            node_actions_to_wait(spawn, port),
        ),
{
    let e = node_events_to_wait(servers, node_port, cluster_ip);
    let a = node_actions_to_wait(spawn, port);
    let s1 = node_at(spawn, NodeStageView::Registering { quic_port: port });
    let s2 = node_at(spawn, NodeStageView::CreatingPod { quic_port: port });
    let s3 = node_at(spawn, NodeStageView::CreatingService);
    let s4 = node_at(spawn, NodeStageView::Patching { node_port: node_port as int });
    let s5 = node_at(spawn, NodeStageView::Waiting { node_port: node_port as int });
    lemma_node_start(spawn);
    assert(e.take(0) =~= Seq::empty() && a.take(0) =~= Seq::empty());
    assert(e.take(1) =~= e.take(0).push(e[0]) && a.take(1) =~= a.take(0).push(a[0]));
    assert(e.take(2) =~= e.take(1).push(e[1]) && a.take(2) =~= a.take(1).push(a[1]));
    assert(e.take(3) =~= e.take(2).push(e[2]) && a.take(3) =~= a.take(2).push(a[2]));
    assert(e.take(4) =~= e.take(3).push(e[3]) && a.take(4) =~= a.take(3).push(a[3]));
    assert(e =~= e.take(4).push(e[4]) && a =~= a.take(4).push(a[4]));
    lemma_node_push(spawn, e.take(0), e[0], spawn, a.take(0), s1, a[0]);
    lemma_node_push(spawn, e.take(1), e[1], s1, a.take(1), s2, a[1]);
    lemma_node_push(spawn, e.take(2), e[2], s2, a.take(2), s3, a[2]);
    lemma_node_push(spawn, e.take(3), e[3], s3, a.take(3), s4, a[3]);
    lemma_node_push(spawn, e.take(4), e[4], s4, a.take(4), s5, a[4]);
}

/// Where every action succeeds, the spawn registers the server, creates its pod
/// and its service, notes the pod's name, waits for the server, and only then
/// writes the address and the node port that clients use; it ends with the
/// server's id.
pub proof fn law_node_spawn_succeeds(
    spawn: NodeSpawnView,
    servers: Seq<ServerInfoView>,
    port: int,
    node_port: i32,
    cluster_ip: Option<Seq<char>>,
)
    requires
        spawn.stage == NodeStageView::Listing,
        free_port(servers, spawn.config.first_port, spawn.config.last_port) == Some(port),
    ensures
        ({
            let id = spawn.server_id;
            let events = node_events_to_wait(servers, node_port, cluster_ip).push(
                SpawnEventView::Done,
            ).push(SpawnEventView::Done);
            node_trace(spawn, events).1 == node_actions_to_wait(spawn, port).push(
                SpawnActionView::Run(seq![publication(id, node_port as int)]),
            ).push(SpawnActionView::Spawned(id))
        }),
{
    let id = spawn.server_id;
    let e5 = node_events_to_wait(servers, node_port, cluster_ip);
    let a5 = node_actions_to_wait(spawn, port);
    let publish = SpawnActionView::Run(seq![publication(id, node_port as int)]);
    let s5 = node_at(spawn, NodeStageView::Waiting { node_port: node_port as int });
    let s6 = node_at(spawn, NodeStageView::Publishing);
    let s7 = node_at(spawn, NodeStageView::Ended);
    lemma_node_reaches_wait(spawn, servers, port, node_port, cluster_ip);
    lemma_node_push(spawn, e5, SpawnEventView::Done, s5, a5, s6, publish);
    lemma_node_push(
        spawn,
        e5.push(SpawnEventView::Done),
        SpawnEventView::Done,
        s6,
        a5.push(publish),
        s7,
        SpawnActionView::Spawned(id),
    );
}

/// Whatever the server wrote about itself while it started, the published
/// address and node port are what the store says afterwards.
pub proof fn law_publication_wins(store: Store, server_id: Seq<char>, node_port: int)
    ensures
        ({
            let hash = store.after(publication(server_id, node_port)).hash(
                server_key_text(server_id),
            );
            &&& field(hash, "address"@) == Some("localhost"@)
            &&& field(hash, "quic_port"@) == Some(signed_decimal(node_port))
        }),
{
    let writes = seq![("address"@, "localhost"@), ("quic_port"@, signed_decimal(node_port))];
    lemma_server_field_names();
    assert(writes.drop_last() =~= seq![("address"@, "localhost"@)]);
    assert(writes.drop_last().drop_last() =~= Seq::empty());
    assert(fields_of(writes) =~= Map::empty().insert("address"@, "localhost"@).insert(
        "quic_port"@,
        signed_decimal(node_port),
    )) by {
        reveal_with_fuel(fields_of, 3);
    }
}

/// A pod that does not become ready is cleaned up: it and its service are
/// deleted, and in the end the store has neither its entry nor its membership
/// of the active set. The spawn fails with the reason of the wait, however the
/// deletions came out.
pub proof fn law_node_failed_spawn_cleans_up(
    store: Store,
    spawn: NodeSpawnView,
    servers: Seq<ServerInfoView>,
    port: int,
    node_port: i32,
    cluster_ip: Option<Seq<char>>,
    reason: Seq<char>,
    pod_outcome: SpawnEventView,
    service_outcome: SpawnEventView,
)
    requires
        spawn.stage == NodeStageView::Listing,
        free_port(servers, spawn.config.first_port, spawn.config.last_port) == Some(port),
    ensures
        ({
            let id = spawn.server_id;
            let name = instance_name(id);
            let events = node_events_to_wait(servers, node_port, cluster_ip).push(
                SpawnEventView::Failed(reason),
            ).push(pod_outcome).push(service_outcome).push(SpawnEventView::Done);
            let given = node_trace(spawn, events).1;
            let after = store.after_all(commands_run(given));
            &&& given == node_actions_to_wait(spawn, port).push(
                SpawnActionView::DeletePod { name, namespace: None },
            ).push(SpawnActionView::DeleteService { name, namespace: None }).push(
                SpawnActionView::Run(removal(id)),
            ).push(SpawnActionView::Failed(pod_not_ready_message(reason)))
            &&& after.hash(server_key_text(id)) == Map::<Seq<char>, Seq<char>>::empty()
            &&& !after.members(active_servers_key_text()).contains(id)
        }),
{
    let id = spawn.server_id;
    let name = instance_name(id);
    let e5 = node_events_to_wait(servers, node_port, cluster_ip);
    let e6 = e5.push(SpawnEventView::Failed(reason));
    let e7 = e6.push(pod_outcome);
    let e8 = e7.push(service_outcome);
    let delete_pod = SpawnActionView::DeletePod { name, namespace: None };
    let delete_service = SpawnActionView::DeleteService { name, namespace: None };
    let remove = SpawnActionView::Run(removal(id));
    let failed = SpawnActionView::Failed(pod_not_ready_message(reason));
    let a5 = node_actions_to_wait(spawn, port);
    let a6 = a5.push(delete_pod);
    let a7 = a6.push(delete_service);
    let a8 = a7.push(remove);
    let s5 = node_at(spawn, NodeStageView::Waiting { node_port: node_port as int });
    let s6 = node_at(spawn, NodeStageView::DeletingPod { reason });
    let s7 = node_at(spawn, NodeStageView::DeletingService { reason });
    let s8 = node_at(spawn, NodeStageView::Removing { reason });
    let s9 = node_at(spawn, NodeStageView::Ended);
    lemma_node_reaches_wait(spawn, servers, port, node_port, cluster_ip);
    lemma_node_push(spawn, e5, SpawnEventView::Failed(reason), s5, a5, s6, delete_pod);
    lemma_node_push(spawn, e6, pod_outcome, s6, a6, s7, delete_service);
    lemma_node_push(spawn, e7, service_outcome, s7, a7, s8, remove);
    lemma_node_push(spawn, e8, SpawnEventView::Done, s8, a8, s9, failed);
    assert(a8.drop_last() =~= a7);
    assert(a8.push(failed).drop_last() =~= a8);
    assert(commands_run(a8) == commands_run(a7) + removal(id));
    assert(commands_run(a8.push(failed)) == commands_run(a8));
    law_after_append(store, commands_run(a7), removal(id));
    law_remove_server(store.after_all(commands_run(a7)), id, id);
}

} // verus!
