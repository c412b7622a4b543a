//! What starting a game server asks of the outside, and what comes back.
//!
//! A spawn is a state machine: each step takes the outcome of the last action
//! and gives the next one. The machines are in `docker_ops` and `k8s_ops`.

use vstd::prelude::*;

use crate::command::{commands, CommandView, RedisCommand};
use crate::orchestrator::redis_ops::{infos, ServerInfo, ServerInfoView};
use crate::text::{opt_text, pairs, texts};

verus! {

// ---------------------------------------------------------------------------
// Manifests
// ---------------------------------------------------------------------------
/// A Docker container to create.
#[derive(Debug, Clone, PartialEq, Eq)]
pub struct ContainerSpec {
    pub name: String,
    pub image: String,
    /// `NAME=value` settings.
    pub env: Vec<String>,
    /// The exposed port, as `port/protocol`.
    pub port_key: String,
    /// Address and port of the host that the exposed port is bound to.
    pub host_ip: String,
    pub host_port: String,
    pub network: String,
    /// Name of the container inside the network.
    pub alias: String,
    pub hostname: String,
    pub labels: Vec<(String, String)>,
}

/// The view of a `ContainerSpec`.
pub struct ContainerSpecView {
    pub name: Seq<char>,
    pub image: Seq<char>,
    pub env: Seq<Seq<char>>,
    pub port_key: Seq<char>,
    pub host_ip: Seq<char>,
    pub host_port: Seq<char>,
    pub network: Seq<char>,
    pub alias: Seq<char>,
    pub hostname: Seq<char>,
    pub labels: Seq<(Seq<char>, Seq<char>)>,
}

impl View for ContainerSpec {
    type V = ContainerSpecView;

    open spec fn view(&self) -> ContainerSpecView {
        ContainerSpecView {
            name: self.name@,
            image: self.image@,
            env: texts(self.env@),
            port_key: self.port_key@,
            host_ip: self.host_ip@,
            host_port: self.host_port@,
            network: self.network@,
            alias: self.alias@,
            hostname: self.hostname@,
            labels: pairs(self.labels@),
        }
    }
}

/// A secret mounted into a pod as a volume.
#[derive(Debug, Clone, PartialEq, Eq)]
pub struct SecretMount {
    pub volume: String,
    pub secret: String,
    pub mount_path: String,
    pub read_only: bool,
}

/// The view of a `SecretMount`.
pub struct SecretMountView {
    pub volume: Seq<char>,
    pub secret: Seq<char>,
    pub mount_path: Seq<char>,
    pub read_only: bool,
}

impl View for SecretMount {
    type V = SecretMountView;

    open spec fn view(&self) -> SecretMountView {
        SecretMountView {
            volume: self.volume@,
            secret: self.secret@,
            mount_path: self.mount_path@,
            read_only: self.read_only,
        }
    }
}

/// A pod with one container to create.
#[derive(Debug, Clone, PartialEq, Eq)]
pub struct PodManifest {
    pub name: String,
    /// `None` for the client's own namespace.
    pub namespace: Option<String>,
    pub labels: Vec<(String, String)>,
    pub container_name: String,
    pub image: String,
    /// The UDP port that the container declares, if any.
    pub udp_port: Option<u16>,
    pub env: Vec<(String, String)>,
    pub restart_policy: Option<String>,
    pub secret_mount: Option<SecretMount>,
}

/// The view of a `PodManifest`.
pub struct PodManifestView {
    pub name: Seq<char>,
    pub namespace: Option<Seq<char>>,
    pub labels: Seq<(Seq<char>, Seq<char>)>,
    pub container_name: Seq<char>,
    pub image: Seq<char>,
    pub udp_port: Option<u16>,
    pub env: Seq<(Seq<char>, Seq<char>)>,
    pub restart_policy: Option<Seq<char>>,
    pub secret_mount: Option<SecretMountView>,
}

impl View for PodManifest {
    type V = PodManifestView;

    open spec fn view(&self) -> PodManifestView {
        PodManifestView {
            name: self.name@,
            namespace: opt_text(self.namespace),
            labels: pairs(self.labels@),
            container_name: self.container_name@,
            image: self.image@,
            udp_port: self.udp_port,
            env: pairs(self.env@),
            restart_policy: opt_text(self.restart_policy),
            secret_mount: match self.secret_mount {
                Some(mount) => Some(mount@),
                None => None,
            },
        }
    }
}

/// A service with one UDP port to create.
#[derive(Debug, Clone, PartialEq, Eq)]
pub struct ServiceManifest {
    pub name: String,
    /// `None` for the client's own namespace.
    pub namespace: Option<String>,
    pub labels: Vec<(String, String)>,
    pub service_type: String,
    pub selector: Vec<(String, String)>,
    pub port: u16,
    pub target_port: u16,
}

/// The view of a `ServiceManifest`.
pub struct ServiceManifestView {
    pub name: Seq<char>,
    pub namespace: Option<Seq<char>>,
    pub labels: Seq<(Seq<char>, Seq<char>)>,
    pub service_type: Seq<char>,
    pub selector: Seq<(Seq<char>, Seq<char>)>,
    pub port: int,
    pub target_port: int,
}

impl View for ServiceManifest {
    type V = ServiceManifestView;

    open spec fn view(&self) -> ServiceManifestView {
        ServiceManifestView {
            name: self.name@,
            namespace: opt_text(self.namespace),
            labels: pairs(self.labels@),
            service_type: self.service_type@,
            selector: pairs(self.selector@),
            port: self.port as int,
            target_port: self.target_port as int,
        }
    }
}

// ---------------------------------------------------------------------------
// Actions and their outcomes
// ---------------------------------------------------------------------------
/// What a spawn does next.
#[derive(Debug, Clone, PartialEq, Eq)]
pub enum SpawnAction {
    /// Reads all active servers from the store.
    ListServers,
    /// Runs commands in order, until one fails.
    Run(Vec<RedisCommand>),
    CreateContainer(ContainerSpec),
    StartContainer(String),
    /// Stops and removes a container.
    StopContainer(String),
    CreatePod(PodManifest),
    CreateService(ServiceManifest),
    DeletePod { name: String, namespace: Option<String> },
    DeleteService { name: String, namespace: Option<String> },
    /// Waits for the public address of a service.
    AwaitLoadBalancer { service: String, namespace: String },
    /// Waits until the server reports that it is ready.
    AwaitReady { server_id: String, timeout_secs: u64 },
    /// The server runs; its id.
    Spawned(String),
    /// The spawn failed; the reason.
    Failed(String),
}

/// The view of a `SpawnAction`.
pub enum SpawnActionView {
    ListServers,
    Run(Seq<CommandView>),
    CreateContainer(ContainerSpecView),
    StartContainer(Seq<char>),
    StopContainer(Seq<char>),
    CreatePod(PodManifestView),
    CreateService(ServiceManifestView),
    DeletePod { name: Seq<char>, namespace: Option<Seq<char>> },
    DeleteService { name: Seq<char>, namespace: Option<Seq<char>> },
    AwaitLoadBalancer { service: Seq<char>, namespace: Seq<char> },
    AwaitReady { server_id: Seq<char>, timeout_secs: int },
    Spawned(Seq<char>),
    Failed(Seq<char>),
}

impl View for SpawnAction {
    type V = SpawnActionView;

    open spec fn view(&self) -> SpawnActionView {
        match self {
            SpawnAction::ListServers => SpawnActionView::ListServers,
            SpawnAction::Run(list) => SpawnActionView::Run(commands(list@)),
            SpawnAction::CreateContainer(c) => SpawnActionView::CreateContainer(c@),
            SpawnAction::StartContainer(id) => SpawnActionView::StartContainer(id@),
            SpawnAction::StopContainer(id) => SpawnActionView::StopContainer(id@),
            SpawnAction::CreatePod(p) => SpawnActionView::CreatePod(p@),
            SpawnAction::CreateService(s) => SpawnActionView::CreateService(s@),
            SpawnAction::DeletePod { name, namespace } => SpawnActionView::DeletePod {
                name: name@,
                namespace: opt_text(*namespace),
            },
            SpawnAction::DeleteService { name, namespace } => SpawnActionView::DeleteService {
                name: name@,
                namespace: opt_text(*namespace),
            },
            SpawnAction::AwaitLoadBalancer { service, namespace } => {
                SpawnActionView::AwaitLoadBalancer { service: service@, namespace: namespace@ }
            },
            SpawnAction::AwaitReady { server_id, timeout_secs } => SpawnActionView::AwaitReady {
                server_id: server_id@,
                timeout_secs: *timeout_secs as int,
            },
            SpawnAction::Spawned(id) => SpawnActionView::Spawned(id@),
            SpawnAction::Failed(reason) => SpawnActionView::Failed(reason@),
        }
    }
}

/// A list of actions.
pub open spec fn spawn_actions(v: Seq<SpawnAction>) -> Seq<SpawnActionView> {
    v.map_values(|a: SpawnAction| a@)
}

/// How an action came out.
#[derive(Debug, Clone, PartialEq, Eq)]
pub enum SpawnEvent {
    /// The active servers.
    Servers(Vec<ServerInfo>),
    /// The action succeeded, with nothing to report.
    Done,
    /// The id of the created container.
    ContainerCreated(String),
    /// What the cluster assigned to the created service.
    ServiceCreated { node_port: Option<i32>, cluster_ip: Option<String> },
    /// The public address of the service.
    LoadBalancerIp(String),
    /// The action failed; the reason.
    Failed(String),
}

/// The view of a `SpawnEvent`.
pub enum SpawnEventView {
    Servers(Seq<ServerInfoView>),
    Done,
    ContainerCreated(Seq<char>),
    ServiceCreated { node_port: Option<i32>, cluster_ip: Option<Seq<char>> },
    LoadBalancerIp(Seq<char>),
    Failed(Seq<char>),
}

impl View for SpawnEvent {
    type V = SpawnEventView;

    open spec fn view(&self) -> SpawnEventView {
        match self {
            SpawnEvent::Servers(list) => SpawnEventView::Servers(infos(list@)),
            SpawnEvent::Done => SpawnEventView::Done,
            SpawnEvent::ContainerCreated(id) => SpawnEventView::ContainerCreated(id@),
            SpawnEvent::ServiceCreated { node_port, cluster_ip } => SpawnEventView::ServiceCreated {
                node_port: *node_port,
                cluster_ip: opt_text(*cluster_ip),
            },
            SpawnEvent::LoadBalancerIp(ip) => SpawnEventView::LoadBalancerIp(ip@),
            SpawnEvent::Failed(reason) => SpawnEventView::Failed(reason@),
        }
    }
}

/// What a spawn does and takes in means what it says: names, ids and numbers are
/// read as they stand.
pub proof fn law_spawn_messages(
    text: String,
    namespace: Option<String>,
    ns: String,
    timeout_secs: u64,
    node_port: Option<i32>,
    list: Vec<RedisCommand>,
)
    ensures
        SpawnAction::ListServers@ == SpawnActionView::ListServers,
        SpawnAction::Run(list)@ == SpawnActionView::Run(commands(list@)),
        SpawnAction::StartContainer(text)@ == SpawnActionView::StartContainer(text@),
        SpawnAction::StopContainer(text)@ == SpawnActionView::StopContainer(text@),
        (SpawnAction::DeletePod { name: text, namespace })@ == (SpawnActionView::DeletePod {
            name: text@,
            namespace: opt_text(namespace),
        }),
        (SpawnAction::DeleteService { name: text, namespace })@ == (SpawnActionView::DeleteService {
            name: text@,
            namespace: opt_text(namespace),
        }),
        (SpawnAction::AwaitLoadBalancer { service: text, namespace: ns })@ == (
        SpawnActionView::AwaitLoadBalancer { service: text@, namespace: ns@ }),
        (SpawnAction::AwaitReady { server_id: text, timeout_secs })@ == (
        SpawnActionView::AwaitReady { server_id: text@, timeout_secs: timeout_secs as int }),
        SpawnAction::Spawned(text)@ == SpawnActionView::Spawned(text@),
        SpawnAction::Failed(text)@ == SpawnActionView::Failed(text@),
        SpawnEvent::Done@ == SpawnEventView::Done,
        SpawnEvent::ContainerCreated(text)@ == SpawnEventView::ContainerCreated(text@),
        (SpawnEvent::ServiceCreated { node_port, cluster_ip: namespace })@ == (
        SpawnEventView::ServiceCreated { node_port, cluster_ip: opt_text(namespace) }),
        SpawnEvent::LoadBalancerIp(text)@ == SpawnEventView::LoadBalancerIp(text@),
        SpawnEvent::Failed(text)@ == SpawnEventView::Failed(text@),
{
}

/// What is created is what the manifests say, read as they stand.
pub proof fn law_manifests(
    container: ContainerSpec,
    pod: PodManifest,
    service: ServiceManifest,
    mount: SecretMount,
)
    ensures
        SpawnAction::CreateContainer(container)@ == SpawnActionView::CreateContainer(
            ContainerSpecView {
                name: container.name@,
                image: container.image@,
                env: texts(container.env@),
                port_key: container.port_key@,
                host_ip: container.host_ip@,
                host_port: container.host_port@,
                network: container.network@,
                alias: container.alias@,
                hostname: container.hostname@,
                labels: pairs(container.labels@),
            },
        ),
        pod@.name == pod.name@ && pod@.namespace == opt_text(pod.namespace) && pod@.labels == pairs(
            pod.labels@,
        ) && pod@.container_name == pod.container_name@ && pod@.image == pod.image@
            && pod@.udp_port == pod.udp_port && pod@.env == pairs(pod.env@) && pod@.restart_policy
            == opt_text(pod.restart_policy),
        SpawnAction::CreatePod(pod)@ == SpawnActionView::CreatePod(pod@),
        service@.name == service.name@ && service@.namespace == opt_text(service.namespace)
            && service@.labels == pairs(service.labels@) && service@.service_type
            == service.service_type@ && service@.selector == pairs(service.selector@)
            && service@.port == service.port && service@.target_port == service.target_port,
        SpawnAction::CreateService(service)@ == SpawnActionView::CreateService(service@),
        mount@.volume == mount.volume@ && mount@.secret == mount.secret@ && mount@.mount_path
            == mount.mount_path@ && mount@.read_only == mount.read_only,
{
}

/// Whether an event is an outcome that an action can have: any action can fail;
/// a finished spawn has no outcome.
pub open spec fn is_outcome(action: SpawnActionView, event: SpawnEventView) -> bool {
    match action {
        SpawnActionView::Spawned(_) => false,
        SpawnActionView::Failed(_) => false,
        SpawnActionView::ListServers => event is Servers || event is Failed,
        SpawnActionView::CreateContainer(_) => event is ContainerCreated || event is Failed,
        SpawnActionView::CreateService(_) => event is ServiceCreated || event is Failed,
        SpawnActionView::AwaitLoadBalancer { service: _, namespace: _ } => event is LoadBalancerIp
            || event is Failed,
        _ => event is Done || event is Failed,
    }
}

/// The commands that a list of actions runs.
pub open spec fn commands_run(list: Seq<SpawnActionView>) -> Seq<CommandView>
    decreases list.len(),
{
    if list.len() == 0 {
        Seq::empty()
    } else {
        let rest = commands_run(list.drop_last());
        match list.last() {
            SpawnActionView::Run(more) => rest + more,
            _ => rest,
        }
    }
}

} // verus!
