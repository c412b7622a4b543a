use extraction_mmo::command::RedisCommand;
use extraction_mmo::fields::Fields;
use extraction_mmo::game::server::net;
use extraction_mmo::game::server::ServerConfig;
use extraction_mmo::orchestrator::docker_ops::{
    self, pick_free_port, port_range, stop_container, DockerStage, NodeStage, SpawnConfig,
    SpawnVars, StopStep,
};
use extraction_mmo::orchestrator::k8s_ops::{
    self, pod_name, remove_server_k8s, wait_for_lb_ip, ClusterConfig, ClusterStage,
};
use extraction_mmo::orchestrator::redis_ops::{
    register_server, remove_server, set_field, set_standby, ServerInfo,
};
use extraction_mmo::orchestrator::spawn::{SpawnAction, SpawnEvent};

fn no_vars() -> SpawnVars {
    SpawnVars {
        public_addr: None,
        redis_url: None,
        gatekeeper_addr: None,
        game_image: None,
        game_network: None,
        port_range_start: None,
        port_range_end: None,
    }
}

fn server_on(port: u16) -> ServerInfo {
    ServerInfo {
        id: format!("s{port}"),
        container_id: String::new(),
        address: String::new(),
        internal_addr: String::new(),
        quic_port: port,
        player_count: 0,
        capacity: 128,
        status: "ready".to_string(),
    }
}

fn text(s: &str) -> String {
    s.to_string()
}

fn pair(k: &str, v: &str) -> (String, String) {
    (k.to_string(), v.to_string())
}

fn looks_like_a_uuid(id: &str) -> bool {
    let b = id.as_bytes();
    b.len() == 36
        && b.iter().enumerate().all(|(i, c)| match i {
            8 | 13 | 18 | 23 => *c == b'-',
            14 => *c == b'4',
            19 => matches!(*c, b'8' | b'9' | b'a' | b'b'),
            _ => c.is_ascii_digit() || (b'a'..=b'f').contains(c),
        })
}

#[test]
fn settings_have_defaults() {
    let config = SpawnConfig::from_vars(no_vars());
    assert_eq!(config.public_addr, "localhost");
    assert_eq!(config.redis_url, "redis://redis:6379");
    assert_eq!(config.gatekeeper_addr, "gatekeeper:3001");
    assert_eq!(config.image, "game-server:latest");
    assert_eq!(config.network, "game-net");
    assert_eq!((config.first_port, config.last_port), (7000, 7100));
    assert_eq!(port_range(Some(text("7050")), Some(text("nine"))), (7050, 7100));
}

#[test]
fn the_lowest_free_port_is_picked() {
    assert_eq!(pick_free_port(7000, 7100, &vec![]), Ok(7000));
    let used = vec![server_on(7001), server_on(7000), server_on(7003)];
    assert_eq!(pick_free_port(7000, 7100, &used), Ok(7002));
    assert_eq!(pick_free_port(65535, 65535, &vec![]), Ok(65535));
}

#[test]
fn a_full_range_has_no_free_port() {
    let used = vec![server_on(7000), server_on(7001)];
    assert_eq!(
        pick_free_port(7000, 7001, &used),
        Err(text("No free QUIC port in range 7000–7001"))
    );
    assert!(pick_free_port(7001, 7000, &vec![]).is_err());
    assert!(pick_free_port(65535, 65535, &vec![server_on(65535)]).is_err());
}

#[test]
fn a_container_is_removed_only_once_stopped() {
    assert_eq!(stop_container(StopStep::Stop, true), StopStep::Remove);
    assert_eq!(stop_container(StopStep::Stop, false), StopStep::Failed);
    assert_eq!(stop_container(StopStep::Remove, true), StopStep::Stopped);
    assert_eq!(stop_container(StopStep::Remove, false), StopStep::Failed);
}

#[test]
fn a_container_spawn_runs_through() {
    let (spawn, first) = docker_ops::spawn_server(SpawnConfig::from_vars(no_vars()), true);
    assert_eq!(first, SpawnAction::ListServers);
    let id = spawn.server_id.clone();
    assert!(looks_like_a_uuid(&id), "{id}");
    let name = format!("game-{id}");

    let (spawn, action) = spawn.step(SpawnEvent::Servers(vec![server_on(7000)]));
    assert_eq!(
        action,
        SpawnAction::Run(register_server(&id, "", "localhost", &name, 7001, 128))
    );
    let (spawn, action) = spawn.step(SpawnEvent::Done);
    let spec = match action {
        SpawnAction::CreateContainer(spec) => spec,
        other => panic!("{other:?}"),
    };
    assert_eq!(spec.name, name);
    assert_eq!(spec.image, "game-server:latest");
    assert_eq!(
        spec.env,
        vec![
            format!("SERVER_ID={id}"),
            text("QUIC_PORT=7001"),
            text("PUBLIC_ADDR=localhost"),
            text("MAX_PLAYERS=128"),
            text("REDIS_URL=redis://redis:6379"),
            text("GATEKEEPER_ADDR=gatekeeper:3001"),
        ]
    );
    assert_eq!(spec.port_key, "7001/udp");
    assert_eq!((spec.host_ip, spec.host_port), (text("0.0.0.0"), text("7001")));
    assert_eq!((spec.network, spec.alias, spec.hostname), (text("game-net"), name.clone(), name));
    assert_eq!(
        spec.labels,
        vec![
            pair("extraction-mmo.role", "game-server"),
            pair("extraction-mmo.server-id", &id),
            pair("com.docker.compose.project", "extraction-mmo"),
            pair("com.docker.compose.service", "game-server"),
        ]
    );
    let (spawn, action) = spawn.step(SpawnEvent::ContainerCreated(text("c9")));
    assert_eq!(action, SpawnAction::Run(vec![set_field(&id, "container_id", "c9")]));
    let (spawn, action) = spawn.step(SpawnEvent::Done);
    assert_eq!(action, SpawnAction::StartContainer(text("c9")));
    let (spawn, action) = spawn.step(SpawnEvent::Done);
    assert_eq!(action, SpawnAction::AwaitReady { server_id: id.clone(), timeout_secs: 30 });
    let (spawn, action) = spawn.step(SpawnEvent::Done);
    assert_eq!(action, SpawnAction::Run(vec![set_standby(&id)]));
    let (spawn, action) = spawn.step(SpawnEvent::Done);
    assert_eq!(action, SpawnAction::Spawned(id));
    assert_eq!(spawn.stage, DockerStage::Ended);
}

#[test]
fn an_ordinary_container_spawn_is_not_tagged() {
    let (mut spawn, _) = docker_ops::spawn_server(SpawnConfig::from_vars(no_vars()), false);
    spawn.stage = DockerStage::Waiting { container_id: text("c") };
    let id = spawn.server_id.clone();
    assert_eq!(spawn.step(SpawnEvent::Done).1, SpawnAction::Spawned(id));
}

#[test]
fn a_container_that_does_not_become_ready_is_cleaned_up() {
    let (mut spawn, _) = docker_ops::spawn_server(SpawnConfig::from_vars(no_vars()), true);
    let id = spawn.server_id.clone();
    spawn.stage = DockerStage::Waiting { container_id: text("c9") };
    let (spawn, action) = spawn.step(SpawnEvent::Failed(text("slow")));
    assert_eq!(action, SpawnAction::StopContainer(text("c9")));
    let (spawn, action) = spawn.step(SpawnEvent::Failed(text("cannot stop")));
    assert_eq!(action, SpawnAction::Run(remove_server(&id)));
    let (_, action) = spawn.clone().step(SpawnEvent::Done);
    assert_eq!(action, SpawnAction::Failed(text("slow")));
    let (_, action) = spawn.step(SpawnEvent::Failed(text("store gone")));
    assert_eq!(action, SpawnAction::Failed(text("store gone")));
}

#[test]
fn an_early_failure_ends_a_container_spawn() {
    let (spawn, _) = docker_ops::spawn_server(SpawnConfig::from_vars(no_vars()), true);
    let (_, action) = spawn.clone().step(SpawnEvent::Failed(text("no store")));
    assert_eq!(action, SpawnAction::Failed(text("no store")));
    let mut full = spawn;
    full.config.last_port = 7000;
    let (full, action) = full.step(SpawnEvent::Servers(vec![server_on(7000)]));
    assert_eq!(action, SpawnAction::Failed(text("No free QUIC port in range 7000–7000")));
    assert_eq!(full.stage, DockerStage::Ended);
}

#[test]
fn a_node_port_spawn_runs_through() {
    let vars = SpawnVars { public_addr: Some(text("1.2.3.4")), ..no_vars() };
    let (spawn, first) = docker_ops::spawn_server_k8s(SpawnConfig::from_vars(vars), true);
    assert_eq!(first, SpawnAction::ListServers);
    let id = spawn.server_id.clone();
    assert!(looks_like_a_uuid(&id), "{id}");
    let name = format!("game-{id}");
    let (spawn, action) = spawn.step(SpawnEvent::Servers(vec![]));
    assert_eq!(action, SpawnAction::Run(register_server(&id, "", "1.2.3.4", &name, 0, 128)));
    let (spawn, action) = spawn.step(SpawnEvent::Done);
    let pod = match action {
        SpawnAction::CreatePod(pod) => pod,
        other => panic!("{other:?}"),
    };
    assert_eq!((&pod.name, &pod.container_name, &pod.namespace), (&name, &name, &None));
    assert_eq!(pod.udp_port, Some(7000));
    assert_eq!(pod.restart_policy, Some(text("Never")));
    assert_eq!(pod.secret_mount, None);
    assert_eq!(pod.env[1], pair("QUIC_PORT", "7000"));
    assert_eq!(pod.env[2], pair("PUBLIC_ADDR", "1.2.3.4"));
    assert_eq!(pod.env.len(), 6);
    let (spawn, action) = spawn.step(SpawnEvent::Done);
    let service = match action {
        SpawnAction::CreateService(service) => service,
        other => panic!("{other:?}"),
    };
    assert_eq!(service.service_type, "NodePort");
    assert_eq!(service.selector, vec![pair("extraction-mmo.server-id", &id)]);
    assert_eq!((service.port, service.target_port), (7000, 7000));
    let created = SpawnEvent::ServiceCreated { node_port: Some(31234), cluster_ip: None };
    let (spawn, action) = spawn.step(created);
    assert_eq!(action, SpawnAction::Run(vec![set_field(&id, "container_id", &name)]));
    let (spawn, action) = spawn.step(SpawnEvent::Done);
    assert_eq!(action, SpawnAction::AwaitReady { server_id: id.clone(), timeout_secs: 30 });
    let (spawn, action) = spawn.step(SpawnEvent::Done);
    assert_eq!(
        action,
        SpawnAction::Run(vec![RedisCommand::HSet {
            key: format!("server:{id}"),
            fields: vec![pair("address", "localhost"), pair("quic_port", "31234")],
        }])
    );
    let (_, action) = spawn.step(SpawnEvent::Done);
    assert_eq!(action, SpawnAction::Spawned(id));
}

#[test]
fn a_service_without_node_port_fails_the_spawn() {
    let (mut spawn, _) = docker_ops::spawn_server_k8s(SpawnConfig::from_vars(no_vars()), false);
    spawn.stage = NodeStage::CreatingService;
    let (_, action) = spawn.step(SpawnEvent::ServiceCreated { node_port: None, cluster_ip: None });
    assert_eq!(
        action,
        SpawnAction::Failed(text("Failed to get assigned NodePort for game server"))
    );
}

#[test]
fn a_pod_that_does_not_become_ready_is_cleaned_up() {
    let (mut spawn, _) = docker_ops::spawn_server_k8s(SpawnConfig::from_vars(no_vars()), false);
    let id = spawn.server_id.clone();
    spawn.stage = NodeStage::Waiting { node_port: 31000 };
    let (spawn, action) = spawn.step(SpawnEvent::Failed(text("slow")));
    assert_eq!(action, SpawnAction::DeletePod { name: format!("game-{id}"), namespace: None });
    let (spawn, action) = spawn.step(SpawnEvent::Failed(text("no such pod")));
    assert_eq!(action, SpawnAction::DeleteService { name: format!("game-{id}"), namespace: None });
    let (spawn, action) = spawn.step(SpawnEvent::Done);
    assert_eq!(action, SpawnAction::Run(remove_server(&id)));
    let (_, action) = spawn.step(SpawnEvent::Done);
    assert_eq!(
        action,
        SpawnAction::Failed(text("Game server pod failed to become ready: slow"))
    );
}

fn cluster_config() -> ClusterConfig {
    ClusterConfig::from_vars(None, None, None, None, None)
}

#[test]
fn cluster_settings_have_defaults() {
    let config = cluster_config();
    assert_eq!(config.namespace, "extraction-mmo");
    assert_eq!(config.image, "extractionmmoacr.azurecr.io/game-server:latest");
    assert_eq!(config.cert_secret, "extraction-mmo-certs");
    assert_eq!(config.redis_url, "redis://redis:6379");
    assert_eq!(config.gatekeeper_addr, "gatekeeper-quic:3001");
    assert_eq!(k8s_ops::namespace(Some(text("ns"))), "ns");
    assert_eq!(k8s_ops::game_image(Some(text("img"))), "img");
    assert_eq!(k8s_ops::cert_secret_name(Some(text("sec"))), "sec");
}

#[test]
fn pod_names_are_short() {
    assert_eq!(pod_name("0a1b2c3d-rest"), "game-0a1b2c3d");
}

#[test]
fn a_cluster_spawn_runs_through() {
    let (spawn, first) = k8s_ops::spawn_server(cluster_config(), true);
    let id = spawn.server_id.clone();
    assert!(looks_like_a_uuid(&id), "{id}");
    let name = format!("game-{}", &id[..8]);
    let service = match first {
        SpawnAction::CreateService(service) => service,
        other => panic!("{other:?}"),
    };
    assert_eq!(service.name, name);
    assert_eq!(service.namespace, Some(text("extraction-mmo")));
    assert_eq!(service.service_type, "LoadBalancer");
    assert_eq!(service.selector, vec![pair("app", &name)]);
    assert_eq!(
        service.labels,
        vec![
            pair("app", &name),
            pair("extraction-mmo/role", "game-server"),
            pair("extraction-mmo/server-id", &id),
        ]
    );
    let created =
        SpawnEvent::ServiceCreated { node_port: None, cluster_ip: Some(text("10.0.0.7")) };
    let (spawn, action) = spawn.step(created);
    assert_eq!(
        action,
        SpawnAction::Run(register_server(&id, &name, "pending", "10.0.0.7", 7000, 128))
    );
    let (spawn, action) = spawn.step(SpawnEvent::Done);
    let pod = match action {
        SpawnAction::CreatePod(pod) => pod,
        other => panic!("{other:?}"),
    };
    assert_eq!(pod.container_name, "game-server");
    assert_eq!(pod.udp_port, None);
    assert_eq!(pod.env[2], pair("PUBLIC_ADDR", "pending"));
    let mount = pod.secret_mount.unwrap();
    assert_eq!((mount.volume, mount.mount_path), (text("certs"), text("/certs")));
    assert_eq!((mount.secret, mount.read_only), (text("extraction-mmo-certs"), true));
    let (spawn, action) = spawn.step(SpawnEvent::Done);
    assert_eq!(
        action,
        SpawnAction::AwaitLoadBalancer { service: name, namespace: text("extraction-mmo") }
    );
    let (spawn, action) = spawn.step(SpawnEvent::LoadBalancerIp(text("20.1.2.3")));
    assert_eq!(action, SpawnAction::Run(vec![set_field(&id, "address", "20.1.2.3")]));
    let (spawn, action) = spawn.step(SpawnEvent::Done);
    assert_eq!(action, SpawnAction::AwaitReady { server_id: id.clone(), timeout_secs: 120 });
    let (spawn, action) = spawn.step(SpawnEvent::Done);
    assert_eq!(action, SpawnAction::Run(vec![set_field(&id, "address", "20.1.2.3")]));
    let (spawn, action) = spawn.step(SpawnEvent::Done);
    assert_eq!(action, SpawnAction::Run(vec![set_standby(&id)]));
    let (_, action) = spawn.step(SpawnEvent::Done);
    assert_eq!(action, SpawnAction::Spawned(id));
}

#[test]
fn a_late_registration_does_not_hide_the_public_address() {
    let (mut spawn, _) = k8s_ops::spawn_server(cluster_config(), false);
    let id = spawn.server_id.clone();
    let mut hash = Fields::new(vec![]);
    let mut write = |list: Vec<RedisCommand>| {
        for command in list {
            if let RedisCommand::HSet { fields, .. } = command {
                for (k, v) in fields {
                    hash.set(k, v);
                }
            }
        }
    };
    let mut event =
        SpawnEvent::ServiceCreated { node_port: None, cluster_ip: Some(text("10.0.0.7")) };
    loop {
        let (next, action) = spawn.step(event);
        spawn = next;
        event = match action {
            SpawnAction::Run(list) => {
                write(list);
                SpawnEvent::Done
            }
            SpawnAction::CreatePod(_) => SpawnEvent::Done,
            SpawnAction::AwaitLoadBalancer { .. } => SpawnEvent::LoadBalancerIp(text("20.1.2.3")),
            SpawnAction::AwaitReady { .. } => {
                let cfg = ServerConfig {
                    server_id: id.clone(),
                    public_addr: text("pending"),
                    quic_port: 7000,
                    max_players: 128,
                    redis_url: text(""),
                    gatekeeper_addr: text(""),
                };
                write(net::register_server(&cfg, "starting"));
                write(net::register_server(&cfg, "ready"));
                write(vec![net::redis_heartbeat(&id, 0, 5)]);
                SpawnEvent::Done
            }
            SpawnAction::Spawned(_) => break,
            other => panic!("{other:?}"),
        };
    }
    assert_eq!(hash.text("address"), "20.1.2.3");
    assert_eq!(hash.text("quic_port"), "7000");
    assert_eq!(hash.text("internal_addr"), "10.0.0.7");
    assert_eq!(hash.text("container_id"), format!("game-{}", &id[..8]));
    assert_eq!(hash.text("status"), "ready");
}

#[test]
fn a_service_without_cluster_address_registers_an_empty_one() {
    let (spawn, _) = k8s_ops::spawn_server(cluster_config(), false);
    let (id, name) = (spawn.server_id.clone(), spawn.name.clone());
    let (_, action) = spawn.step(SpawnEvent::ServiceCreated { node_port: None, cluster_ip: None });
    assert_eq!(action, SpawnAction::Run(register_server(&id, &name, "pending", "", 7000, 128)));
}

#[test]
fn a_cluster_spawn_that_times_out_is_cleaned_up() {
    let (mut spawn, _) = k8s_ops::spawn_server(cluster_config(), true);
    let (id, name) = (spawn.server_id.clone(), spawn.name.clone());
    spawn.stage = ClusterStage::Waiting { public_ip: text("20.1.2.3") };
    let (delete_pod, delete_service) = remove_server_k8s(&name, "extraction-mmo");
    let (spawn, action) = spawn.step(SpawnEvent::Failed(text("slow")));
    assert_eq!(action, delete_pod);
    let (spawn, action) = spawn.step(SpawnEvent::Failed(text("gone already")));
    assert_eq!(action, delete_service);
    let (spawn, action) = spawn.step(SpawnEvent::Done);
    assert_eq!(action, SpawnAction::Run(remove_server(&id)));
    let (_, action) = spawn.step(SpawnEvent::Done);
    assert_eq!(action, SpawnAction::Failed(text("slow")));
}

#[test]
fn a_cluster_spawn_without_public_address_fails() {
    let (mut spawn, _) = k8s_ops::spawn_server(cluster_config(), true);
    spawn.stage = ClusterStage::AwaitingAddress;
    let (spawn, action) = spawn.step(SpawnEvent::Failed(text("waiting for LoadBalancer IP")));
    assert_eq!(action, SpawnAction::Failed(text("waiting for LoadBalancer IP")));
    assert_eq!(spawn.stage, ClusterStage::Ended);
}

#[test]
fn a_public_address_is_awaited_for_three_minutes() {
    let wait = wait_for_lb_ip(text("game-1"), 500);
    assert_eq!(wait.check(180_499), Ok(()));
    assert_eq!(
        wait.check(180_500),
        Err(text("Timed out waiting for LoadBalancer IP on Service game-1"))
    );
    assert_eq!(wait.assigned(None), None);
    assert_eq!(wait.assigned(Some(String::new())), None);
    assert_eq!(wait.assigned(Some(text("20.1.2.3"))), Some(text("20.1.2.3")));
}
