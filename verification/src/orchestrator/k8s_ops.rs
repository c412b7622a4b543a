//! Spawning game servers as pods, each behind a load balancer of its own.

use vstd::prelude::*;

use crate::command::{single, CommandView};
use crate::constants::DEFAULT_CAPACITY;
use crate::fields::{entry, field, fields_of, lemma_server_field_names};
use crate::game::server::net::{
    heartbeat, law_heartbeat, law_self_registration, lemma_not_written, lemma_self_fields,
    self_fields, self_registration,
};
use crate::game::server::{
    are_set_by, is_configured, law_environment_is_obeyed, lemma_variable_names, ServerConfig,
    ServerVars,
};
use crate::ident::{is_hex, is_uuid_text, new_uuid};
use crate::orchestrator::redis_ops::{
    field_update, law_register_then_list, law_remove_server, lemma_distinct_writes,
    register_server, registration, removal, remove_server, set_field, set_standby,
};
use crate::orchestrator::spawn::{
    commands_run, is_outcome, PodManifest, PodManifestView, SecretMount, SecretMountView,
    ServiceManifest, ServiceManifestView, SpawnAction, SpawnActionView, SpawnEvent,
    SpawnEventView,
};
use crate::redis_keys::{
    active_servers_key_text, law_key_kinds_disjoint, server_key_text, standby_server_key_text,
};
use crate::store::{law_after_append, law_after_two, Store};
use crate::text::{decimal, opt_text, or_default, pairs, text_or, u16_text, u32_text};

verus! {

/// Seconds that a started server has to report that it is ready.
pub const SPAWN_TIMEOUT_SECS: u64 = 120;

/// Seconds between two looks at a service without a public address.
pub const LB_POLL_INTERVAL_SECS: u64 = 5;

/// Milliseconds that a load balancer has to get its public address. Azure
/// typically provisions one within 60 to 90 s; 3 min is a safe ceiling.
pub const LB_POLL_TIMEOUT_MS: u64 = 180_000;

/// All dynamically spawned game servers listen on this port (each gets its own
/// public IP).
pub const QUIC_PORT: u16 = 7000;

// ---------------------------------------------------------------------------
// Config helpers
// ---------------------------------------------------------------------------
/// The namespace of game servers, from `K8S_NAMESPACE`.
pub fn namespace(var: Option<String>) -> (res: String)
    ensures
        res@ == text_or(var, "extraction-mmo"@),
{
    or_default(var, "extraction-mmo")
}

/// The image of game servers, from `GAME_IMAGE`.
pub fn game_image(var: Option<String>) -> (res: String)
    ensures
        res@ == text_or(var, "extractionmmoacr.azurecr.io/game-server:latest"@),
{
    or_default(var, "extractionmmoacr.azurecr.io/game-server:latest")
}

/// The secret with the certificates, from `CERT_SECRET_NAME`.
pub fn cert_secret_name(var: Option<String>) -> (res: String)
    ensures
        res@ == text_or(var, "extraction-mmo-certs"@),
{
    or_default(var, "extraction-mmo-certs")
}

/// Settings of a spawn.
#[derive(Debug, Clone, PartialEq, Eq)]
pub struct ClusterConfig {
    pub namespace: String,
    pub image: String,
    pub cert_secret: String,
    pub redis_url: String,
    pub gatekeeper_addr: String,
}

/// The view of a `ClusterConfig`.
pub struct ClusterConfigView {
    pub namespace: Seq<char>,
    pub image: Seq<char>,
    pub cert_secret: Seq<char>,
    pub redis_url: Seq<char>,
    pub gatekeeper_addr: Seq<char>,
}

impl View for ClusterConfig {
    type V = ClusterConfigView;

    open spec fn view(&self) -> ClusterConfigView {
        ClusterConfigView {
            namespace: self.namespace@,
            image: self.image@,
            cert_secret: self.cert_secret@,
            redis_url: self.redis_url@,
            gatekeeper_addr: self.gatekeeper_addr@,
        }
    }
}

impl ClusterConfig {
    /// Reads the settings, with defaults for what is not set.
    pub fn from_vars(
        k8s_namespace: Option<String>,
        image: Option<String>,
        cert_secret: Option<String>,
        redis_url: Option<String>,
        gatekeeper_addr: Option<String>,
    ) -> (res: ClusterConfig)
        ensures
            res@ == (ClusterConfigView {
                namespace: text_or(k8s_namespace, "extraction-mmo"@),
                image: text_or(image, "extractionmmoacr.azurecr.io/game-server:latest"@),
                cert_secret: text_or(cert_secret, "extraction-mmo-certs"@),
                redis_url: text_or(redis_url, "redis://redis:6379"@),
                gatekeeper_addr: text_or(gatekeeper_addr, "gatekeeper-quic:3001"@),
            }),
    {
        ClusterConfig {
            namespace: namespace(k8s_namespace),
            image: game_image(image),
            cert_secret: cert_secret_name(cert_secret),
            redis_url: or_default(redis_url, "redis://redis:6379"),
            gatekeeper_addr: or_default(gatekeeper_addr, "gatekeeper-quic:3001"),
        }
    }
}

// ---------------------------------------------------------------------------
// Manifests
// ---------------------------------------------------------------------------
/// The name of a server's pod and service: names must be DNS-safe, so the first
/// eight hexadecimal digits of the id stand for it.
pub open spec fn short_name(server_id: Seq<char>) -> Seq<char> {
    "game-"@ + server_id.subrange(0, 8)
}

/// The name of a server's pod and service.
pub fn pod_name(server_id: &str) -> (res: String)
    requires
        server_id@.len() >= 8,
        forall|i: int| 0 <= i < 8 ==> (#[trigger] server_id@[i]) as u32 <= 0x7f,
    ensures
        res@ == short_name(server_id@),
{
    "game-".to_owned().concat(server_id.substring_char(0, 8))
}

/// An environment variable of a container.
pub fn env_var(name: &str, value: &str) -> (res: (String, String))
    ensures
        res.0@ == name@,
        res.1@ == value@,
{
    entry(name, value)
}

/// The labels shared by pod and service.
pub open spec fn labels(name: Seq<char>, server_id: Seq<char>) -> Seq<(Seq<char>, Seq<char>)> {
    seq![
        ("app"@, name),
        ("extraction-mmo/role"@, "game-server"@),
        ("extraction-mmo/server-id"@, server_id),
    ]
}

fn make_labels(name: &str, server_id: &str) -> (res: Vec<(String, String)>)
    ensures
        pairs(res@) == labels(name@, server_id@),
{
    let mut res: Vec<(String, String)> = Vec::new();
    res.push(entry("app", name));
    res.push(entry("extraction-mmo/role", "game-server"));
    res.push(entry("extraction-mmo/server-id", server_id));
    assert(pairs(res@) =~= labels(name@, server_id@));
    res
}

/// The service in front of a server's pod, found by the `app` label.
pub open spec fn service_manifest(
    config: ClusterConfigView,
    name: Seq<char>,
    server_id: Seq<char>,
) -> ServiceManifestView {
    ServiceManifestView {
        name,
        namespace: Some(config.namespace),
        labels: labels(name, server_id),
        service_type: "LoadBalancer"@,
        selector: seq![("app"@, name)],
        port: QUIC_PORT as int,
        target_port: QUIC_PORT as int,
    }
}

fn make_service(config: &ClusterConfig, name: &str, server_id: &str) -> (res: ServiceManifest)
    ensures
        res@ == service_manifest(config@, name@, server_id@),
{
    let mut selector: Vec<(String, String)> = Vec::new();
    selector.push(entry("app", name));
    assert(pairs(selector@) =~= seq![("app"@, name@)]);
    ServiceManifest {
        name: name.to_owned(),
        namespace: Some(config.namespace.clone()),
        labels: make_labels(name, server_id),
        service_type: "LoadBalancer".to_owned(),
        selector,
        port: QUIC_PORT,
        target_port: QUIC_PORT,
    }
}

/// The pod of a server.
pub open spec fn pod_manifest(
    config: ClusterConfigView,
    name: Seq<char>,
    server_id: Seq<char>,
) -> PodManifestView {
    PodManifestView {
        name,
        namespace: Some(config.namespace),
        labels: labels(name, server_id),
        container_name: "game-server"@,
        image: config.image,
        udp_port: None,
        env: seq![
            ("SERVER_ID"@, server_id),
            ("QUIC_PORT"@, decimal(QUIC_PORT as nat)),
            ("PUBLIC_ADDR"@, "pending"@),
            ("MAX_PLAYERS"@, decimal(DEFAULT_CAPACITY as nat)),
            ("REDIS_URL"@, config.redis_url),
            ("GATEKEEPER_ADDR"@, config.gatekeeper_addr),
        ],
        restart_policy: None,
        secret_mount: Some(
            SecretMountView {
                volume: "certs"@,
                secret: config.cert_secret,
                mount_path: "/certs"@,
                read_only: true,
            },
        ),
    }
}

fn make_pod(config: &ClusterConfig, name: &str, server_id: &str) -> (res: PodManifest)
    ensures
        res@ == pod_manifest(config@, name@, server_id@),
{
    let mut env: Vec<(String, String)> = Vec::new();
    env.push(env_var("SERVER_ID", server_id));
    env.push(env_var("QUIC_PORT", u16_text(QUIC_PORT).as_str()));
    env.push(env_var("PUBLIC_ADDR", "pending"));
    env.push(env_var("MAX_PLAYERS", u32_text(DEFAULT_CAPACITY).as_str()));
    env.push(env_var("REDIS_URL", config.redis_url.as_str()));
    env.push(env_var("GATEKEEPER_ADDR", config.gatekeeper_addr.as_str()));
    assert(pairs(env@) =~= pod_manifest(config@, name@, server_id@).env);
    PodManifest {
        name: name.to_owned(),
        namespace: Some(config.namespace.clone()),
        labels: make_labels(name, server_id),
        container_name: "game-server".to_owned(),
        image: config.image.clone(),
        udp_port: None,
        env,
        restart_policy: None,
        secret_mount: Some(
            SecretMount {
                volume: "certs".to_owned(),
                secret: config.cert_secret.clone(),
                mount_path: "/certs".to_owned(),
                read_only: true,
            },
        ),
    }
}

/// Delete the Pod and Service for a game server: what to do, in order. Failures
/// are ignored, as either may already be gone.
pub fn remove_server_k8s(name: &str, ns: &str) -> (res: (SpawnAction, SpawnAction))
    ensures
        res.0@ == (SpawnActionView::DeletePod { name: name@, namespace: Some(ns@) }),
        res.1@ == (SpawnActionView::DeleteService { name: name@, namespace: Some(ns@) }),
{
    (
        SpawnAction::DeletePod { name: name.to_owned(), namespace: Some(ns.to_owned()) },
        SpawnAction::DeleteService { name: name.to_owned(), namespace: Some(ns.to_owned()) },
    )
}

// ---------------------------------------------------------------------------
// Waiting for the public address
// ---------------------------------------------------------------------------
/// The message of a service that got no public address in time.
pub open spec fn lb_timeout_message(name: Seq<char>) -> Seq<char> {
    "Timed out waiting for LoadBalancer IP on Service "@ + name
}

/// A wait for the public address of a service, with a deadline in milliseconds
/// on a clock that the caller reads.
#[derive(Debug, Clone, PartialEq, Eq)]
pub struct LbWait {
    pub name: String,
    pub deadline_ms: u64,
}

/// Poll the service's first ingress until it has an address.
pub fn wait_for_lb_ip(name: String, now_ms: u64) -> (res: LbWait)
    requires
        now_ms + LB_POLL_TIMEOUT_MS <= u64::MAX,
    ensures
        res.name@ == name@,
        res.deadline_ms == now_ms + LB_POLL_TIMEOUT_MS,
{
    LbWait { name, deadline_ms: now_ms + LB_POLL_TIMEOUT_MS }
}

impl LbWait {
    /// Whether to give up at a given time: the message to give up with, from
    /// the deadline on. Before it the service is read.
    pub fn check(&self, now_ms: u64) -> (res: Result<(), String>)
        ensures
            (match res {
                Ok(_) => now_ms < self.deadline_ms,
                Err(message) => now_ms >= self.deadline_ms && message@ == lb_timeout_message(
                    self.name@,
                ),
            }),
    {
        if now_ms >= self.deadline_ms {
            Err(
                "Timed out waiting for LoadBalancer IP on Service ".to_owned().concat(
                    self.name.as_str(),
                ),
            )
        } else {
            Ok(())
        }
    }

    /// The address of the service's first ingress, if that ends the wait; an
    /// empty one does not.
    pub fn assigned(&self, first_ingress_ip: Option<String>) -> (res: Option<String>)
        ensures
            opt_text(res) == (match opt_text(first_ingress_ip) {
                Some(ip) => if ip.len() == 0 {
                    None
                } else {
                    Some(ip)
                },
                None => None,
            }),
    {
        match first_ingress_ip {
            Some(ip) => if ip.as_str().is_empty() {
                None
            } else {
                Some(ip)
            },
            None => None,
        }
    }
}

// ---------------------------------------------------------------------------
// Spawning a pod behind a load balancer
// ---------------------------------------------------------------------------
/// How far a spawn is: what it waits for.
#[derive(Debug, Clone, PartialEq, Eq)]
pub enum ClusterStage {
    CreatingService,
    Registering,
    CreatingPod,
    AwaitingAddress,
    Publishing { public_ip: String },
    Waiting { public_ip: String },
    Confirming,
    Tagging,
    DeletingPod { reason: String },
    DeletingService { reason: String },
    Removing { reason: String },
    Ended,
}

/// The view of a `ClusterStage`.
pub enum ClusterStageView {
    CreatingService,
    Registering,
    CreatingPod,
    AwaitingAddress,
    Publishing { public_ip: Seq<char> },
    Waiting { public_ip: Seq<char> },
    Confirming,
    Tagging,
    DeletingPod { reason: Seq<char> },
    DeletingService { reason: Seq<char> },
    Removing { reason: Seq<char> },
    Ended,
}

impl View for ClusterStage {
    type V = ClusterStageView;

    open spec fn view(&self) -> ClusterStageView {
        match self {
            ClusterStage::CreatingService => ClusterStageView::CreatingService,
            ClusterStage::Registering => ClusterStageView::Registering,
            ClusterStage::CreatingPod => ClusterStageView::CreatingPod,
            ClusterStage::AwaitingAddress => ClusterStageView::AwaitingAddress,
            ClusterStage::Publishing { public_ip } => ClusterStageView::Publishing {
                public_ip: public_ip@,
            },
            ClusterStage::Waiting { public_ip } => ClusterStageView::Waiting {
                public_ip: public_ip@,
            },
            ClusterStage::Confirming => ClusterStageView::Confirming,
            ClusterStage::Tagging => ClusterStageView::Tagging,
            ClusterStage::DeletingPod { reason } => ClusterStageView::DeletingPod {
                reason: reason@,
            },
            ClusterStage::DeletingService { reason } => ClusterStageView::DeletingService {
                reason: reason@,
            },
            ClusterStage::Removing { reason } => ClusterStageView::Removing { reason: reason@ },
            ClusterStage::Ended => ClusterStageView::Ended,
        }
    }
}

/// The spawn of a pod behind a load balancer.
#[derive(Debug, Clone, PartialEq, Eq)]
pub struct ClusterSpawn {
    pub server_id: String,
    pub name: String,
    pub standby: bool,
    pub config: ClusterConfig,
    pub stage: ClusterStage,
}

/// The view of a `ClusterSpawn`.
pub struct ClusterSpawnView {
    pub server_id: Seq<char>,
    pub name: Seq<char>,
    pub standby: bool,
    pub config: ClusterConfigView,
    pub stage: ClusterStageView,
}

impl View for ClusterSpawn {
    type V = ClusterSpawnView;

    open spec fn view(&self) -> ClusterSpawnView {
        ClusterSpawnView {
            server_id: self.server_id@,
            name: self.name@,
            standby: self.standby,
            config: self.config@,
            stage: self.stage@,
        }
    }
}

/// Whether a spawn at some stage takes in an event.
pub open spec fn cluster_admits(stage: ClusterStageView, event: SpawnEventView) -> bool {
    match stage {
        ClusterStageView::Ended => false,
        ClusterStageView::CreatingService => event is ServiceCreated || event is Failed,
        ClusterStageView::AwaitingAddress => event is LoadBalancerIp || event is Failed,
        _ => event is Done || event is Failed,
    }
}

/// The first action of a spawn.
pub open spec fn cluster_first_action(spawn: ClusterSpawnView) -> SpawnActionView {
    SpawnActionView::CreateService(service_manifest(spawn.config, spawn.name, spawn.server_id))
}

/// The registration of a server, under the address that the cluster gave its
/// service.
pub open spec fn cluster_registration(
    spawn: ClusterSpawnView,
    cluster_ip: Option<Seq<char>>,
) -> Seq<CommandView> {
    registration(
        spawn.server_id,
        spawn.name,
        "pending"@,
        match cluster_ip {
            Some(ip) => ip,
            None => ""@,
        },
        QUIC_PORT as nat,
        DEFAULT_CAPACITY as nat,
    )
}

/// The next stage of a spawn and its next action. The server registers itself
/// while it starts, under a placeholder for its address, so the public address
/// is written once more when it is ready. A server that does not become ready
/// loses its pod, its service and its entry; any other failure ends the spawn at
/// once.
pub open spec fn cluster_step(spawn: ClusterSpawnView, event: SpawnEventView) -> (
    ClusterSpawnView,
    SpawnActionView,
) {
    let id = spawn.server_id;
    let name = spawn.name;
    let ns = Some(spawn.config.namespace);
    let (stage, action) = match (spawn.stage, event) {
        (ClusterStageView::Waiting { public_ip: _ }, SpawnEventView::Failed(reason)) => (
            ClusterStageView::DeletingPod { reason },
            SpawnActionView::DeletePod { name, namespace: ns },
        ),
        (ClusterStageView::DeletingPod { reason }, _) => (
            ClusterStageView::DeletingService { reason },
            SpawnActionView::DeleteService { name, namespace: ns },
        ),
        (ClusterStageView::DeletingService { reason }, _) => (
            ClusterStageView::Removing { reason },
            SpawnActionView::Run(removal(id)),
        ),
        (_, SpawnEventView::Failed(reason)) => (
            ClusterStageView::Ended,
            SpawnActionView::Failed(reason),
        ),
        (
            ClusterStageView::CreatingService,
            SpawnEventView::ServiceCreated { node_port: _, cluster_ip },
        ) => (
            ClusterStageView::Registering,
            SpawnActionView::Run(cluster_registration(spawn, cluster_ip)),
        ),
        (ClusterStageView::Registering, _) => (
            ClusterStageView::CreatingPod,
            SpawnActionView::CreatePod(pod_manifest(spawn.config, name, id)),
        ),
        (ClusterStageView::CreatingPod, _) => (
            ClusterStageView::AwaitingAddress,
            SpawnActionView::AwaitLoadBalancer {
                service: name,
                namespace: spawn.config.namespace,
            },
        ),
        (ClusterStageView::AwaitingAddress, SpawnEventView::LoadBalancerIp(ip)) => (
            ClusterStageView::Publishing { public_ip: ip },
            SpawnActionView::Run(seq![field_update(id, "address"@, ip)]),
        ),
        (ClusterStageView::Publishing { public_ip }, _) => (
            ClusterStageView::Waiting { public_ip },
            SpawnActionView::AwaitReady { server_id: id, timeout_secs: SPAWN_TIMEOUT_SECS as int },
        ),
        (ClusterStageView::Waiting { public_ip }, _) => (
            ClusterStageView::Confirming,
            SpawnActionView::Run(seq![field_update(id, "address"@, public_ip)]),
        ),
        (ClusterStageView::Confirming, _) => if spawn.standby {
            (
                ClusterStageView::Tagging,
                SpawnActionView::Run(
                    seq![CommandView::SetValue { key: standby_server_key_text(), value: id }],
                ),
            )
        } else {
            (ClusterStageView::Ended, SpawnActionView::Spawned(id))
        },
        (ClusterStageView::Tagging, _) => (ClusterStageView::Ended, SpawnActionView::Spawned(id)),
        (ClusterStageView::Removing { reason }, _) => (
            ClusterStageView::Ended,
            SpawnActionView::Failed(reason),
        ),
        (_, _) => (spawn.stage, cluster_first_action(spawn)),
    };
    (ClusterSpawnView { stage, ..spawn }, action)
}

/// Spawn a new game-server Pod + LoadBalancer Service, with a fresh id: the
/// state to go on from and the first action.
///
/// Flow:
/// 1. Create the Service (LoadBalancer, UDP 7000): its cluster address is
///    assigned immediately.
/// 2. Register a placeholder with that address as `internal_addr`.
/// 3. Create the Pod.
/// 4. Wait until the external address is assigned.
/// 5. Update the `address` field with it.
/// 6. Wait for the game server to self-report `status=ready`, and update
///    `address` again, since the server has written a placeholder meanwhile.
pub fn spawn_server(config: ClusterConfig, is_standby: bool) -> (res: (ClusterSpawn, SpawnAction))
    ensures
        is_uuid_text(res.0@.server_id),
        res.0@ == (ClusterSpawnView {
            server_id: res.0@.server_id,
            name: short_name(res.0@.server_id),
            standby: is_standby,
            config: config@,
            stage: ClusterStageView::CreatingService,
        }),
        res.1@ == cluster_first_action(res.0@),
{
    let server_id = new_uuid();
    let name = pod_name(server_id.as_str());
    let first = SpawnAction::CreateService(
        make_service(&config, name.as_str(), server_id.as_str()),
    );
    let spawn = ClusterSpawn {
        server_id,
        name,
        standby: is_standby,
        config,
        stage: ClusterStage::CreatingService,
    };
    (spawn, first)
}

impl ClusterSpawn {
    /// Takes in how the last action came out, and gives the next one.
    pub fn step(self, event: SpawnEvent) -> (res: (ClusterSpawn, SpawnAction))
        requires
            cluster_admits(self@.stage, event@),
        ensures
            (res.0@, res.1@) == cluster_step(self@, event@),
    {
        let ClusterSpawn { server_id, name, standby, config, stage } = self;
        let cleanup = remove_server_k8s(name.as_str(), config.namespace.as_str());
        let (stage, action) = match (stage, event) {
            (ClusterStage::Waiting { public_ip: _ }, SpawnEvent::Failed(reason)) => (
                ClusterStage::DeletingPod { reason },
                cleanup.0,
            ),
            (ClusterStage::DeletingPod { reason }, _) => (
                ClusterStage::DeletingService { reason },
                cleanup.1,
            ),
            (ClusterStage::DeletingService { reason }, _) => (
                ClusterStage::Removing { reason },
                SpawnAction::Run(remove_server(server_id.as_str())),
            ),
            (_, SpawnEvent::Failed(reason)) => (ClusterStage::Ended, SpawnAction::Failed(reason)),
            (
                ClusterStage::CreatingService,
                SpawnEvent::ServiceCreated { node_port: _, cluster_ip },
            ) => {
                let internal_addr = or_default(cluster_ip, "");
                (
                    ClusterStage::Registering,
                    SpawnAction::Run(
                        register_server(
                            server_id.as_str(),
                            name.as_str(),
                            "pending",
                            internal_addr.as_str(),
                            QUIC_PORT,
                            DEFAULT_CAPACITY,
                        ),
                    ),
                )
            },
            (ClusterStage::Registering, _) => (
                ClusterStage::CreatingPod,
                SpawnAction::CreatePod(make_pod(&config, name.as_str(), server_id.as_str())),
            ),
            (ClusterStage::CreatingPod, _) => (
                ClusterStage::AwaitingAddress,
                SpawnAction::AwaitLoadBalancer {
                    service: name.clone(),
                    namespace: config.namespace.clone(),
                },
            ),
            (ClusterStage::AwaitingAddress, SpawnEvent::LoadBalancerIp(ip)) => {
                let publish = single(set_field(server_id.as_str(), "address", ip.as_str()));
                (ClusterStage::Publishing { public_ip: ip }, SpawnAction::Run(publish))
            },
            (ClusterStage::Publishing { public_ip }, _) => (
                ClusterStage::Waiting { public_ip },
                SpawnAction::AwaitReady {
                    server_id: server_id.clone(),
                    timeout_secs: SPAWN_TIMEOUT_SECS,
                },
            ),
            (ClusterStage::Waiting { public_ip }, _) => (
                ClusterStage::Confirming,
                SpawnAction::Run(
                    single(set_field(server_id.as_str(), "address", public_ip.as_str())),
                ),
            ),
            (ClusterStage::Confirming, _) => if standby {
                (
                    ClusterStage::Tagging,
                    SpawnAction::Run(single(set_standby(server_id.as_str()))),
                )
            } else {
                (ClusterStage::Ended, SpawnAction::Spawned(server_id.clone()))
            },
            (ClusterStage::Tagging, _) => (
                ClusterStage::Ended,
                SpawnAction::Spawned(server_id.clone()),
            ),
            (ClusterStage::Removing { reason }, _) => (
                ClusterStage::Ended,
                SpawnAction::Failed(reason),
            ),
            (stage, _) => {
                let again = SpawnAction::CreateService(
                    make_service(&config, name.as_str(), server_id.as_str()),
                );
                (stage, again)
            },
        };
        (ClusterSpawn { server_id, name, standby, config, stage }, action)
    }
}

// ---------------------------------------------------------------------------
// Laws
// ---------------------------------------------------------------------------
/// The name of a spawned server's pod and service is DNS-safe: thirteen
/// lower-case letters, digits and hyphens, a letter first and a letter or digit
/// last.
pub proof fn law_pod_name_is_dns_safe(server_id: Seq<char>)
    requires
        is_uuid_text(server_id),
    ensures
        ({
            let name = short_name(server_id);
            &&& name.len() == 13
            &&& name[0] == 'g'
            &&& is_hex(name[12])
            &&& forall|i: int|
                0 <= i < 13 ==> ('a' <= #[trigger] name[i] && name[i] <= 'z') || is_hex(name[i])
                    || name[i] == '-'
        }),
{
    reveal_strlit("game-");
    let name = short_name(server_id);
    assert forall|i: int| 0 <= i < 13 implies ('a' <= #[trigger] name[i] && name[i] <= 'z')
        || is_hex(name[i]) || name[i] == '-' by {
        if i >= 5 {
            assert(name[i] == server_id[i - 5]);
        }
    }
    assert(name[12] == server_id[7]);
}

/// A pod that is created starts as the server that was registered: what the game
/// server reads from the pod's environment is the id of the spawn, the port that
/// its service passes traffic to, and the default capacity. Its public address is
/// not known yet. So its registration as ready writes the very hash whose status
/// the spawn waits for.
pub proof fn law_cluster_pod_runs_the_server(
    store: Store,
    config: ClusterConfigView,
    name: Seq<char>,
    server_id: Seq<char>,
    vars: ServerVars,
    cfg: ServerConfig,
)
    requires
        are_set_by(vars, fields_of(pod_manifest(config, name, server_id).env)),
        is_configured(cfg, vars),
    ensures
        cfg.server_id@ == server_id,
        cfg.quic_port == service_manifest(config, name, server_id).target_port,
        cfg.public_addr@ == "pending"@,
        cfg.max_players == 128,
        cfg.redis_url@ == config.redis_url,
        cfg.gatekeeper_addr@ == config.gatekeeper_addr,
        field(
            store.after_all(self_registration(cfg, "ready"@)).hash("server:"@ + server_id),
            "status"@,
        ) == Some("ready"@),
{
    let env = pod_manifest(config, name, server_id).env;
    lemma_variable_names();
    lemma_distinct_writes(env, 0);
    lemma_distinct_writes(env, 1);
    lemma_distinct_writes(env, 2);
    lemma_distinct_writes(env, 3);
    lemma_distinct_writes(env, 4);
    lemma_distinct_writes(env, 5);
    law_environment_is_obeyed(
        fields_of(env),
        vars,
        cfg,
        server_id,
        "pending"@,
        7000,
        128,
        config.redis_url,
        config.gatekeeper_addr,
    );
    let list = self_registration(cfg, "ready"@);
    law_self_registration(cfg, "ready"@);
    assert(list =~= seq![list[0], list[1]]);
    law_after_two(store, list[0], list[1]);
    lemma_self_fields(cfg, "ready"@);
}

/// A service leads to its server's pod: both have one name and namespace, what
/// the service selects by is a label of the pod, and players reach it on port
/// 7000. The pod finds the certificates where the server looks for them.
pub proof fn law_cluster_service_leads_to_pod(
    config: ClusterConfigView,
    name: Seq<char>,
    server_id: Seq<char>,
)
    ensures
        ({
            let pod = pod_manifest(config, name, server_id);
            let service = service_manifest(config, name, server_id);
            &&& pod.name == name && service.name == name
            &&& pod.namespace == Some(config.namespace) && service.namespace == pod.namespace
            &&& pod.container_name == "game-server"@
            &&& pod.image == config.image
            &&& pod.udp_port is None
            &&& pod.restart_policy is None
            &&& pod.secret_mount == Some(
                SecretMountView {
                    volume: "certs"@,
                    secret: config.cert_secret,
                    mount_path: "/certs"@,
                    read_only: true,
                },
            )
            &&& service.service_type == "LoadBalancer"@
            &&& service.selector == seq![("app"@, name)]
            &&& pod.labels.contains(service.selector[0])
            &&& pod.labels == service.labels
            &&& pod.labels == seq![
                ("app"@, name),
                ("extraction-mmo/role"@, "game-server"@),
                ("extraction-mmo/server-id"@, server_id),
            ]
            &&& service.port == 7000 && service.target_port == 7000
            &&& lb_timeout_message(name)
                == "Timed out waiting for LoadBalancer IP on Service "@ + name
        }),
{
    assert(pod_manifest(config, name, server_id).labels[0] == service_manifest(
        config,
        name,
        server_id,
    ).selector[0]);
}

/// Two servers whose ids differ in the first eight digits have pods and services
/// of different names.
pub proof fn law_pod_names_distinct(a: Seq<char>, b: Seq<char>)
    requires
        a.len() >= 8,
        b.len() >= 8,
    ensures
        short_name(a) == short_name(b) <==> forall|i: int| 0 <= i < 8 ==> #[trigger] a[i] == b[i],
        short_name(a).len() == 13,
{
    reveal_strlit("game-");
    let (x, y) = (short_name(a), short_name(b));
    if forall|i: int| 0 <= i < 8 ==> #[trigger] a[i] == b[i] {
        assert(a.subrange(0, 8) =~= b.subrange(0, 8));
    }
    if x == y {
        assert forall|i: int| 0 <= i < 8 implies #[trigger] a[i] == b[i] by {
            assert(x[i + 5] == a[i] && y[i + 5] == b[i]);
        }
    }
}

/// The spawn of a pod behind a load balancer, action by action, where all goes
/// well.
pub proof fn law_cluster_steps(
    spawn: ClusterSpawnView,
    node_port: Option<i32>,
    cluster_ip: Option<Seq<char>>,
    public_ip: Seq<char>,
)
    ensures
        ({
            let at = |stage: ClusterStageView| ClusterSpawnView { stage, ..spawn };
            let id = spawn.server_id;
            let name = spawn.name;
            let done = SpawnEventView::Done;
            let publish = SpawnActionView::Run(
                seq![
                    CommandView::HSet {
                        key: "server:"@ + id,
                        fields: seq![("address"@, public_ip)],
                    },
                ],
            );
            &&& cluster_first_action(spawn) == SpawnActionView::CreateService(
                service_manifest(spawn.config, name, id),
            )
            &&& cluster_step(
                at(ClusterStageView::CreatingService),
                SpawnEventView::ServiceCreated { node_port, cluster_ip },
            ) == (
                at(ClusterStageView::Registering),
                SpawnActionView::Run(
                    registration(
                        id,
                        name,
                        "pending"@,
                        match cluster_ip {
                            Some(ip) => ip,
                            None => ""@,
                        },
                        7000,
                        128,
                    ),
                ),
            )
            &&& cluster_step(at(ClusterStageView::Registering), done) == (
                at(ClusterStageView::CreatingPod),
                SpawnActionView::CreatePod(pod_manifest(spawn.config, name, id)),
            )
            &&& cluster_step(at(ClusterStageView::CreatingPod), done) == (
                at(ClusterStageView::AwaitingAddress),
                SpawnActionView::AwaitLoadBalancer {
                    service: name,
                    namespace: spawn.config.namespace,
                },
            )
            &&& cluster_step(
                at(ClusterStageView::AwaitingAddress),
                SpawnEventView::LoadBalancerIp(public_ip),
            ) == (at(ClusterStageView::Publishing { public_ip }), publish)
            &&& cluster_step(at(ClusterStageView::Publishing { public_ip }), done) == (
                at(ClusterStageView::Waiting { public_ip }),
                SpawnActionView::AwaitReady { server_id: id, timeout_secs: 120 },
            )
            &&& cluster_step(at(ClusterStageView::Waiting { public_ip }), done) == (
                at(ClusterStageView::Confirming),
                publish,
            )
            &&& cluster_step(at(ClusterStageView::Confirming), done) == if spawn.standby {
                (
                    at(ClusterStageView::Tagging),
                    SpawnActionView::Run(
                        seq![CommandView::SetValue { key: "servers:standby"@, value: id }],
                    ),
                )
            } else {
                (at(ClusterStageView::Ended), SpawnActionView::Spawned(id))
            }
            &&& cluster_step(at(ClusterStageView::Tagging), done) == (
                at(ClusterStageView::Ended),
                SpawnActionView::Spawned(id),
            )
        }),
{
}

/// A spawn ends with the reason of any failure but that of the wait. A pod that
/// does not become ready is deleted first, then its service and the entry of the
/// server, whatever comes of either deletion. Which events a spawn takes in is
/// what it asked for, or a failure.
pub proof fn law_cluster_failures(
    spawn: ClusterSpawnView,
    reason: Seq<char>,
    later: SpawnEventView,
    public_ip: Seq<char>,
)
    ensures
        ({
            let at = |stage: ClusterStageView| ClusterSpawnView { stage, ..spawn };
            let name = spawn.name;
            let ns = Some(spawn.config.namespace);
            let failed = SpawnEventView::Failed(reason);
            &&& !(spawn.stage is Waiting) && !(spawn.stage is DeletingPod) && !(spawn.stage
                is DeletingService) ==> cluster_step(spawn, failed) == (
                at(ClusterStageView::Ended),
                SpawnActionView::Failed(reason),
            )
            &&& cluster_step(at(ClusterStageView::Waiting { public_ip }), failed) == (
                at(ClusterStageView::DeletingPod { reason }),
                SpawnActionView::DeletePod { name, namespace: ns },
            )
            &&& cluster_step(at(ClusterStageView::DeletingPod { reason }), later) == (
                at(ClusterStageView::DeletingService { reason }),
                SpawnActionView::DeleteService { name, namespace: ns },
            )
            &&& cluster_step(at(ClusterStageView::DeletingService { reason }), later) == (
                at(ClusterStageView::Removing { reason }),
                SpawnActionView::Run(removal(spawn.server_id)),
            )
            &&& cluster_step(at(ClusterStageView::Removing { reason }), SpawnEventView::Done) == (
                at(ClusterStageView::Ended),
                SpawnActionView::Failed(reason),
            )
            &&& cluster_admits(spawn.stage, later) <==> !(spawn.stage is Ended) && (later is Failed
                || if spawn.stage is CreatingService {
                later is ServiceCreated
            } else if spawn.stage is AwaitingAddress {
                later is LoadBalancerIp
            } else {
                later is Done
            })
        }),
{
}

/// Whoever carries out the action that a spawn gave, and hands back how it came
/// out, always hands back an event that the spawn takes in.
pub proof fn law_cluster_takes_outcomes(
    spawn: ClusterSpawnView,
    event: SpawnEventView,
    outcome: SpawnEventView,
)
    requires
        cluster_admits(spawn.stage, event),
    ensures
        ({
            let (after, action) = cluster_step(spawn, event);
            cluster_admits(after.stage, outcome) == is_outcome(action, outcome)
        }),
        spawn.stage == ClusterStageView::CreatingService ==> cluster_admits(spawn.stage, outcome)
            == is_outcome(cluster_first_action(spawn), outcome),
{
}

/// The state of a spawn after a list of events, and the actions it gave.
#[verifier::opaque]
pub open spec fn cluster_trace(spawn: ClusterSpawnView, events: Seq<SpawnEventView>) -> (
    ClusterSpawnView,
    Seq<SpawnActionView>,
)
    decreases events.len(),
{
    if events.len() == 0 {
        (spawn, Seq::empty())
    } else {
        let (before, given) = cluster_trace(spawn, events.drop_last());
        let (after, action) = cluster_step(before, events.last());
        (after, given.push(action))
    }
}

proof fn lemma_cluster_push(
    spawn: ClusterSpawnView,
    events: Seq<SpawnEventView>,
    event: SpawnEventView,
    before: ClusterSpawnView,
    given: Seq<SpawnActionView>,
    after: ClusterSpawnView,
    action: SpawnActionView,
)
    requires
        cluster_trace(spawn, events) == (before, given),
        cluster_step(before, event) == (after, action),
    ensures
        cluster_trace(spawn, events.push(event)) == (after, given.push(action)),
{
    reveal(cluster_trace);
    assert(events.push(event).drop_last() =~= events);
}

proof fn lemma_cluster_start(spawn: ClusterSpawnView)
    ensures
        cluster_trace(spawn, Seq::empty()) == (spawn, Seq::<SpawnActionView>::empty()),
{
    reveal(cluster_trace);
}

/// How the actions come out, up to the wait for the server.
pub open spec fn cluster_events_to_wait(
    node_port: Option<i32>,
    cluster_ip: Option<Seq<char>>,
    public_ip: Seq<char>,
) -> Seq<SpawnEventView> {
    seq![
        SpawnEventView::ServiceCreated { node_port, cluster_ip },
        SpawnEventView::Done,
        SpawnEventView::Done,
        SpawnEventView::LoadBalancerIp(public_ip),
        SpawnEventView::Done,
    ]
}

/// The actions up to the wait, after the service was created: the server is
/// registered, its pod created, the public address awaited and written.
pub open spec fn cluster_actions_to_wait(
    spawn: ClusterSpawnView,
    cluster_ip: Option<Seq<char>>,
    public_ip: Seq<char>,
) -> Seq<SpawnActionView> {
    let id = spawn.server_id;
    seq![
        SpawnActionView::Run(cluster_registration(spawn, cluster_ip)),
        SpawnActionView::CreatePod(pod_manifest(spawn.config, spawn.name, id)),
        SpawnActionView::AwaitLoadBalancer {
            service: spawn.name,
            namespace: spawn.config.namespace,
        },
        SpawnActionView::Run(seq![field_update(id, "address"@, public_ip)]),
        SpawnActionView::AwaitReady { server_id: id, timeout_secs: SPAWN_TIMEOUT_SECS as int },
    ]
}

spec fn cluster_at(spawn: ClusterSpawnView, stage: ClusterStageView) -> ClusterSpawnView {
    ClusterSpawnView { stage, ..spawn }
}

proof fn lemma_cluster_reaches_wait(
    spawn: ClusterSpawnView,
    node_port: Option<i32>,
    cluster_ip: Option<Seq<char>>,
    public_ip: Seq<char>,
)
    requires
        spawn.stage == ClusterStageView::CreatingService,
    ensures
        cluster_trace(spawn, cluster_events_to_wait(node_port, cluster_ip, public_ip)) == (
            cluster_at(spawn, ClusterStageView::Waiting { public_ip }),
            cluster_actions_to_wait(spawn, cluster_ip, public_ip),
        ),
{
    let e = cluster_events_to_wait(node_port, cluster_ip, public_ip);
    let a = cluster_actions_to_wait(spawn, cluster_ip, public_ip);
    let s1 = cluster_at(spawn, ClusterStageView::Registering);
    let s2 = cluster_at(spawn, ClusterStageView::CreatingPod);
    let s3 = cluster_at(spawn, ClusterStageView::AwaitingAddress);
    let s4 = cluster_at(spawn, ClusterStageView::Publishing { public_ip });
    let s5 = cluster_at(spawn, ClusterStageView::Waiting { public_ip });
    lemma_cluster_start(spawn);
    assert(e.take(0) =~= Seq::empty() && a.take(0) =~= Seq::empty());
    assert(e.take(1) =~= e.take(0).push(e[0]) && a.take(1) =~= a.take(0).push(a[0]));
    assert(e.take(2) =~= e.take(1).push(e[1]) && a.take(2) =~= a.take(1).push(a[1]));
    assert(e.take(3) =~= e.take(2).push(e[2]) && a.take(3) =~= a.take(2).push(a[2]));
    assert(e.take(4) =~= e.take(3).push(e[3]) && a.take(4) =~= a.take(3).push(a[3]));
    assert(e =~= e.take(4).push(e[4]) && a =~= a.take(4).push(a[4]));
    lemma_cluster_push(spawn, e.take(0), e[0], spawn, a.take(0), s1, a[0]);
    lemma_cluster_push(spawn, e.take(1), e[1], s1, a.take(1), s2, a[1]);
    lemma_cluster_push(spawn, e.take(2), e[2], s2, a.take(2), s3, a[2]);
    lemma_cluster_push(spawn, e.take(3), e[3], s3, a.take(3), s4, a[3]);
    lemma_cluster_push(spawn, e.take(4), e[4], s4, a.take(4), s5, a[4]);
}

/// Where every action succeeds, the spawn registers the server, creates its
/// pod, waits for the public address, writes it, waits for the server, writes the
/// address again, tags the server if it is a standby, and ends with its id.
pub proof fn law_cluster_spawn_succeeds(
    spawn: ClusterSpawnView,
    node_port: Option<i32>,
    cluster_ip: Option<Seq<char>>,
    public_ip: Seq<char>,
)
    requires
        spawn.stage == ClusterStageView::CreatingService,
    ensures
        ({
            let id = spawn.server_id;
            let events = cluster_events_to_wait(node_port, cluster_ip, public_ip).push(
                SpawnEventView::Done,
            ).push(SpawnEventView::Done);
            let given = cluster_actions_to_wait(spawn, cluster_ip, public_ip).push(
                SpawnActionView::Run(seq![field_update(id, "address"@, public_ip)]),
            );
            if spawn.standby {
                cluster_trace(spawn, events.push(SpawnEventView::Done)).1 == given.push(
                    SpawnActionView::Run(
                        seq![CommandView::SetValue { key: standby_server_key_text(), value: id }],
                    ),
                ).push(SpawnActionView::Spawned(id))
            } else {
                cluster_trace(spawn, events).1 == given.push(SpawnActionView::Spawned(id))
            }
        }),
{
    let id = spawn.server_id;
    let e5 = cluster_events_to_wait(node_port, cluster_ip, public_ip);
    let a5 = cluster_actions_to_wait(spawn, cluster_ip, public_ip);
    let s5 = cluster_at(spawn, ClusterStageView::Waiting { public_ip });
    let ended = cluster_at(spawn, ClusterStageView::Ended);
    let spawned = SpawnActionView::Spawned(id);
    lemma_cluster_reaches_wait(spawn, node_port, cluster_ip, public_ip);
    let s6 = cluster_at(spawn, ClusterStageView::Confirming);
    let confirm = SpawnActionView::Run(seq![field_update(id, "address"@, public_ip)]);
    let e6 = e5.push(SpawnEventView::Done);
    let a6 = a5.push(confirm);
    lemma_cluster_push(spawn, e5, SpawnEventView::Done, s5, a5, s6, confirm);
    if spawn.standby {
        let s7 = cluster_at(spawn, ClusterStageView::Tagging);
        let tag = SpawnActionView::Run(
            seq![CommandView::SetValue { key: standby_server_key_text(), value: id }],
        );
        let e7 = e6.push(SpawnEventView::Done);
        lemma_cluster_push(spawn, e6, SpawnEventView::Done, s6, a6, s7, tag);
        lemma_cluster_push(spawn, e7, SpawnEventView::Done, s7, a6.push(tag), ended, spawned);
    } else {
        lemma_cluster_push(spawn, e6, SpawnEventView::Done, s6, a6, ended, spawned);
    }
}

/// Whether a command is one that can reach a server's hash while the server
/// starts, after its registration: the server registers itself, under any
/// status, or sends a heartbeat, or its spawn writes the public address.
pub open spec fn is_startup_write(
    command: CommandView,
    cfg: ServerConfig,
    public_ip: Seq<char>,
) -> bool {
    let id = cfg.server_id@;
    ||| exists|status: Seq<char>| #[trigger] self_registration(cfg, status).contains(command)
    ||| exists|connected: nat, now_secs: nat| command == #[trigger] heartbeat(
        id,
        connected,
        now_secs,
    )
    ||| command == field_update(id, "address"@, public_ip)
}

/// The store at the end of a spawn, from what it held when the server was found
/// ready: the public address is written, and a standby is tagged.
pub open spec fn cluster_finish(
    store: Store,
    spawn: ClusterSpawnView,
    public_ip: Seq<char>,
) -> Store {
    let id = spawn.server_id;
    let confirmed = store.after(field_update(id, "address"@, public_ip));
    if spawn.standby {
        confirmed.after(CommandView::SetValue { key: standby_server_key_text(), value: id })
    } else {
        confirmed
    }
}

/// Whatever the server wrote about itself while it started, and in whatever
/// order with the first write of the address: once it was found ready and the
/// spawn has ended, the store gives its public address, the port that all
/// spawned servers listen on, the cluster's address for health checks, the name
/// of its pod, and the status `ready`.
pub proof fn law_cluster_publication_wins(
    store: Store,
    spawn: ClusterSpawnView,
    cluster_ip: Option<Seq<char>>,
    public_ip: Seq<char>,
    cfg: ServerConfig,
    startup: Seq<CommandView>,
)
    requires
        cfg.server_id@ == spawn.server_id,
        cfg.quic_port == QUIC_PORT,
        forall|i: int|
            0 <= i < startup.len() ==> is_startup_write(#[trigger] startup[i], cfg, public_ip),
        field(
            store.after_all(cluster_registration(spawn, cluster_ip)).after_all(startup).hash(
                server_key_text(spawn.server_id),
            ),
            "status"@,
        ) == Some("ready"@),
    ensures
        ({
            let id = spawn.server_id;
            let found = store.after_all(cluster_registration(spawn, cluster_ip)).after_all(startup);
            let hash = cluster_finish(found, spawn, public_ip).hash(server_key_text(id));
            &&& field(hash, "address"@) == Some(public_ip)
            &&& field(hash, "quic_port"@) == Some(decimal(QUIC_PORT as nat))
            &&& field(hash, "internal_addr"@) == Some(
                match cluster_ip {
                    Some(ip) => ip,
                    None => ""@,
                },
            )
            &&& field(hash, "container_id"@) == Some(spawn.name)
            &&& field(hash, "status"@) == Some("ready"@)
        }),
{
    let id = spawn.server_id;
    let key = server_key_text(id);
    let noted = store.after_all(cluster_registration(spawn, cluster_ip));
    let internal_addr = match cluster_ip {
        Some(ip) => ip,
        None => ""@,
    };
    law_register_then_list(
        store,
        id,
        spawn.name,
        "pending"@,
        internal_addr,
        QUIC_PORT as nat,
        DEFAULT_CAPACITY as nat,
    );
    lemma_startup_keeps_instance(noted, cfg, public_ip, startup);
    let found = noted.after_all(startup);
    lemma_field_update(found, id, "address"@, public_ip);
    lemma_server_field_names();
    law_key_kinds_disjoint(id, id);
}

proof fn lemma_field_update(store: Store, id: Seq<char>, name: Seq<char>, value: Seq<char>)
    ensures
        store.after(field_update(id, name, value)).hash(server_key_text(id)) == store.hash(
            server_key_text(id),
        ).insert(name, value),
{
    let w = seq![(name, value)];
    assert(w.drop_last() =~= Seq::empty());
    assert(fields_of(w.drop_last()) =~= Map::empty());
    assert(fields_of(w) =~= Map::empty().insert(name, value));
    let hash = store.hash(server_key_text(id));
    assert(hash.union_prefer_right(fields_of(w)) =~= hash.insert(name, value));
}

/// What a server starts with keeps the port that its pod is given, and what the
/// orchestrator noted about its instance.
proof fn lemma_startup_keeps_instance(
    store: Store,
    cfg: ServerConfig,
    public_ip: Seq<char>,
    startup: Seq<CommandView>,
)
    requires
        field(store.hash(server_key_text(cfg.server_id@)), "quic_port"@) == Some(
            decimal(cfg.quic_port as nat),
        ),
        forall|i: int|
            0 <= i < startup.len() ==> is_startup_write(#[trigger] startup[i], cfg, public_ip),
    ensures
        ({
            let key = server_key_text(cfg.server_id@);
            let before = store.hash(key);
            let after = store.after_all(startup).hash(key);
            &&& field(after, "quic_port"@) == field(before, "quic_port"@)
            &&& field(after, "internal_addr"@) == field(before, "internal_addr"@)
            &&& field(after, "container_id"@) == field(before, "container_id"@)
        }),
    decreases startup.len(),
{
    if startup.len() > 0 {
        let rest = startup.drop_last();
        let last = startup.last();
        assert forall|i: int| 0 <= i < rest.len() implies is_startup_write(
            #[trigger] rest[i],
            cfg,
            public_ip,
        ) by {
            assert(rest[i] == startup[i]);
        }
        assert(is_startup_write(startup[startup.len() - 1], cfg, public_ip));
        lemma_startup_keeps_instance(store, cfg, public_ip, rest);
        lemma_startup_step(store.after_all(rest), cfg, public_ip, last);
    }
}

proof fn lemma_startup_step(
    store: Store,
    cfg: ServerConfig,
    public_ip: Seq<char>,
    command: CommandView,
)
    requires
        field(store.hash(server_key_text(cfg.server_id@)), "quic_port"@) == Some(
            decimal(cfg.quic_port as nat),
        ),
        is_startup_write(command, cfg, public_ip),
    ensures
        ({
            let key = server_key_text(cfg.server_id@);
            let before = store.hash(key);
            let after = store.after(command).hash(key);
            &&& field(after, "quic_port"@) == field(before, "quic_port"@)
            &&& field(after, "internal_addr"@) == field(before, "internal_addr"@)
            &&& field(after, "container_id"@) == field(before, "container_id"@)
        }),
{
    let id = cfg.server_id@;
    lemma_server_field_names();
    if command == field_update(id, "address"@, public_ip) {
        lemma_field_update(store, id, "address"@, public_ip);
    } else if exists|connected: nat, now_secs: nat|
        command == #[trigger] heartbeat(id, connected, now_secs) {
        let (connected, now_secs) = choose|connected: nat, now_secs: nat|
            command == #[trigger] heartbeat(id, connected, now_secs);
        law_heartbeat(store, id, connected, now_secs);
        let hash = store.hash(server_key_text(id));
        assert(field(hash, "quic_port"@) == field(
            store.after(command).hash(server_key_text(id)),
            "quic_port"@,
        ));
    } else {
        let status = choose|status: Seq<char>| #[trigger]
            self_registration(cfg, status).contains(command);
        let list = self_registration(cfg, status);
        let i = choose|i: int| 0 <= i < list.len() && list[i] == command;
        if i == 0 {
            lemma_self_fields(cfg, status);
            lemma_not_written(self_fields(cfg, status), "container_id"@);
            lemma_not_written(self_fields(cfg, status), "internal_addr"@);
        }
    }
}

/// A server that does not become ready is cleaned up: its pod and its service
/// are deleted, and in the end the store has neither its entry nor its
/// membership of the active set. The spawn fails with the reason of the wait,
/// however the deletions came out.
pub proof fn law_cluster_failed_spawn_cleans_up(
    store: Store,
    spawn: ClusterSpawnView,
    node_port: Option<i32>,
    cluster_ip: Option<Seq<char>>,
    public_ip: Seq<char>,
    reason: Seq<char>,
    pod_outcome: SpawnEventView,
    service_outcome: SpawnEventView,
)
    requires
        spawn.stage == ClusterStageView::CreatingService,
    ensures
        ({
            let id = spawn.server_id;
            let ns = Some(spawn.config.namespace);
            let events = cluster_events_to_wait(node_port, cluster_ip, public_ip).push(
                SpawnEventView::Failed(reason),
            ).push(pod_outcome).push(service_outcome).push(SpawnEventView::Done);
            let given = cluster_trace(spawn, events).1;
            let after = store.after_all(commands_run(given));
            &&& given == cluster_actions_to_wait(spawn, cluster_ip, public_ip).push(
                SpawnActionView::DeletePod { name: spawn.name, namespace: ns },
            ).push(SpawnActionView::DeleteService { name: spawn.name, namespace: ns }).push(
                SpawnActionView::Run(removal(id)),
            ).push(SpawnActionView::Failed(reason))
            &&& after.hash(server_key_text(id)) == Map::<Seq<char>, Seq<char>>::empty()
            &&& !after.members(active_servers_key_text()).contains(id)
        }),
{
    let id = spawn.server_id;
    let ns = Some(spawn.config.namespace);
    let e5 = cluster_events_to_wait(node_port, cluster_ip, public_ip);
    let e6 = e5.push(SpawnEventView::Failed(reason));
    let e7 = e6.push(pod_outcome);
    let e8 = e7.push(service_outcome);
    let a5 = cluster_actions_to_wait(spawn, cluster_ip, public_ip);
    let delete_pod = SpawnActionView::DeletePod { name: spawn.name, namespace: ns };
    let delete_service = SpawnActionView::DeleteService { name: spawn.name, namespace: ns };
    let remove = SpawnActionView::Run(removal(id));
    let failed = SpawnActionView::Failed(reason);
    let s5 = cluster_at(spawn, ClusterStageView::Waiting { public_ip });
    let s6 = cluster_at(spawn, ClusterStageView::DeletingPod { reason });
    let s7 = cluster_at(spawn, ClusterStageView::DeletingService { reason });
    let s8 = cluster_at(spawn, ClusterStageView::Removing { reason });
    let s9 = cluster_at(spawn, ClusterStageView::Ended);
    let a6 = a5.push(delete_pod);
    let a7 = a6.push(delete_service);
    let a8 = a7.push(remove);
    lemma_cluster_reaches_wait(spawn, node_port, cluster_ip, public_ip);
    lemma_cluster_push(spawn, e5, SpawnEventView::Failed(reason), s5, a5, s6, delete_pod);
    lemma_cluster_push(spawn, e6, pod_outcome, s6, a6, s7, delete_service);
    lemma_cluster_push(spawn, e7, service_outcome, s7, a7, s8, remove);
    lemma_cluster_push(spawn, e8, SpawnEventView::Done, s8, a8, s9, failed);
    assert(a8.drop_last() =~= a7);
    assert(a8.push(failed).drop_last() =~= a8);
    assert(commands_run(a8) == commands_run(a7) + removal(id));
    assert(commands_run(a8.push(failed)) == commands_run(a8));
    law_after_append(store, commands_run(a7), removal(id));
    law_remove_server(store.after_all(commands_run(a7)), id, id);
}

} // verus!
