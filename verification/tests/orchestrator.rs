use std::collections::{BTreeSet, HashMap};

use extraction_mmo::command::RedisCommand;
use extraction_mmo::fields::Fields;
use extraction_mmo::orchestrator::health::{
    find_first, pick_address, run_health_checks, MissedPings, Ping, MAX_MISSED_PINGS,
};
use extraction_mmo::orchestrator::poll::{
    run_poll_cycle, run_startup, PollAction, DRAIN_DELAY_SECS,
};
use extraction_mmo::game::server::net;
use extraction_mmo::game::server::ServerConfig;
use extraction_mmo::orchestrator::redis_ops::{
    get_standby, list_active_servers, parse_server, register_server, remove_server, set_field,
    set_standby, set_status, standby_query, wait_for_ready, ReadyStep, ServerInfo,
    CLEAR_IF_SCRIPT,
};
use extraction_mmo::orchestrator::spawn::SpawnAction;

/// A small store that carries out the writing commands.
#[derive(Default)]
struct MemoryStore {
    hashes: HashMap<String, Vec<(String, String)>>,
    active: BTreeSet<String>,
    texts: HashMap<String, String>,
}

impl MemoryStore {
    fn run(&mut self, command: &RedisCommand) {
        match command {
            RedisCommand::HSet { key, fields } => {
                self.hashes.entry(key.clone()).or_default().extend(fields.iter().cloned());
            }
            RedisCommand::SAdd { key, member } => {
                assert_eq!(key, "servers:active");
                self.active.insert(member.clone());
            }
            RedisCommand::SRem { key, member } => {
                assert_eq!(key, "servers:active");
                self.active.remove(member);
            }
            RedisCommand::Del { key } => {
                self.hashes.remove(key);
            }
            RedisCommand::SetValue { key, value } => {
                self.texts.insert(key.clone(), value.clone());
            }
            RedisCommand::Eval { script, key, arg } => {
                assert_eq!(script, CLEAR_IF_SCRIPT);
                if self.texts.get(key) == Some(arg) {
                    self.texts.remove(key);
                }
            }
            other => panic!("unexpected command {other:?}"),
        }
    }

    fn run_all(&mut self, list: &[RedisCommand]) {
        for c in list {
            self.run(c);
        }
    }

    /// Registers a server and lets it report that it is ready.
    fn start(&mut self, id: &str, address: &str, quic_port: u16, capacity: u32) {
        self.run_all(&register_server(id, "c1", address, "game-s1", quic_port, capacity));
        let cfg = ServerConfig {
            server_id: id.to_string(),
            public_addr: address.to_string(),
            quic_port,
            max_players: capacity,
            redis_url: String::new(),
            gatekeeper_addr: String::new(),
        };
        self.run_all(&net::register_server(&cfg, "starting"));
        assert!(!self.active.contains(id));
        self.run_all(&net::register_server(&cfg, "ready"));
    }

    fn servers(&self) -> Vec<ServerInfo> {
        let replies: Vec<(String, Fields)> = self
            .active
            .iter()
            .map(|id| {
                let entries = self.hashes.get(&format!("server:{id}")).cloned().unwrap_or_default();
                (id.clone(), Fields::new(entries))
            })
            .collect();
        list_active_servers(&replies)
    }
}

fn server(id: &str, player_count: u32, capacity: u32, status: &str) -> ServerInfo {
    ServerInfo {
        id: id.to_string(),
        container_id: String::new(),
        address: "localhost".to_string(),
        internal_addr: format!("game-{id}"),
        quic_port: 7000,
        player_count,
        capacity,
        status: status.to_string(),
    }
}

#[test]
fn a_registered_server_reads_back_and_is_not_active_yet() {
    let mut store = MemoryStore::default();
    store.run_all(&register_server("s1", "c1", "1.2.3.4", "game-s1", 7005, 64));
    assert_eq!(store.servers(), vec![]);
    let fields = Fields::new(store.hashes["server:s1"].clone());
    assert_eq!(
        parse_server("s1".to_string(), &fields),
        ServerInfo {
            id: "s1".to_string(),
            container_id: "c1".to_string(),
            address: "1.2.3.4".to_string(),
            internal_addr: "game-s1".to_string(),
            quic_port: 7005,
            player_count: 0,
            capacity: 64,
            status: "starting".to_string(),
        }
    );
}

#[test]
fn a_server_is_listed_once_it_is_ready() {
    let mut store = MemoryStore::default();
    store.start("s1", "1.2.3.4", 7005, 64);
    assert_eq!(
        store.servers(),
        vec![ServerInfo {
            id: "s1".to_string(),
            container_id: "c1".to_string(),
            address: "1.2.3.4".to_string(),
            internal_addr: "game-s1".to_string(),
            quic_port: 7005,
            player_count: 0,
            capacity: 64,
            status: "ready".to_string(),
        }]
    );
}

#[test]
fn registration_writes_the_fields_in_order() {
    let list = register_server("s1", "c1", "addr", "int", 7005, 64);
    let names: Vec<String> = match &list[0] {
        RedisCommand::HSet { key, fields } => {
            assert_eq!(key, "server:s1");
            fields.iter().map(|f| f.0.clone()).collect()
        }
        other => panic!("{other:?}"),
    };
    assert_eq!(
        names,
        vec![
            "container_id", "address", "internal_addr", "quic_port", "capacity", "player_count",
            "status"
        ]
    );
    assert_eq!(list.len(), 1);
}

#[test]
fn a_removed_server_is_gone() {
    let mut store = MemoryStore::default();
    store.start("s1", "a", 1, 2);
    store.start("s2", "a", 1, 2);
    store.run(&set_standby("s1"));
    store.run_all(&remove_server("s1"));
    let ids: Vec<String> = store.servers().into_iter().map(|s| s.id).collect();
    assert_eq!(ids, vec!["s2"]);
    assert!(!store.hashes.contains_key("server:s1"));
    assert_eq!(store.texts.get("servers:standby"), None);
}

#[test]
fn a_removal_leaves_another_standby_alone() {
    let mut store = MemoryStore::default();
    store.start("s2", "a", 1, 2);
    store.run(&set_standby("s2"));
    store.run_all(&remove_server("s1"));
    assert_eq!(store.texts["servers:standby"], "s2");
    assert_eq!(store.servers().len(), 1);
    assert_eq!(
        remove_server("s1"),
        vec![
            RedisCommand::Del { key: "server:s1".to_string() },
            RedisCommand::SRem { key: "servers:active".to_string(), member: "s1".to_string() },
            RedisCommand::Eval {
                script: CLEAR_IF_SCRIPT.to_string(),
                key: "servers:standby".to_string(),
                arg: "s1".to_string(),
            },
        ]
    );
    assert_eq!(
        CLEAR_IF_SCRIPT,
        "\nif redis.call('GET', KEYS[1]) == ARGV[1] then return redis.call('DEL', KEYS[1]) end\nreturn 0\n"
    );
}

#[test]
fn a_status_is_read_back_and_nothing_else_changes() {
    let mut store = MemoryStore::default();
    store.start("s1", "a", 1, 2);
    let before = store.servers().remove(0);
    store.run(&set_status("s1", "draining"));
    let after = store.servers().remove(0);
    assert_eq!(after, ServerInfo { status: "draining".to_string(), ..before });
}

#[test]
fn missing_fields_have_defaults() {
    let replies = vec![
        ("empty".to_string(), Fields::new(vec![])),
        (
            "bare".to_string(),
            Fields::new(vec![("address".to_string(), "host".to_string())]),
        ),
        (
            "odd".to_string(),
            Fields::new(vec![
                ("quic_port".to_string(), "port".to_string()),
                ("player_count".to_string(), "-3".to_string()),
                ("capacity".to_string(), "9999999999".to_string()),
                ("internal_addr".to_string(), String::new()),
            ]),
        ),
    ];
    let servers = list_active_servers(&replies);
    assert_eq!(servers.len(), 2);
    assert_eq!(servers[0].id, "bare");
    assert_eq!(servers[0].internal_addr, "host");
    assert_eq!(servers[0].capacity, 128);
    assert_eq!(servers[0].status, "");
    assert_eq!(servers[1].internal_addr, "");
    assert_eq!((servers[1].quic_port, servers[1].player_count, servers[1].capacity), (0, 0, 128));
}

#[test]
fn an_empty_standby_is_none() {
    assert_eq!(get_standby(None), None);
    assert_eq!(get_standby(Some(String::new())), None);
    assert_eq!(get_standby(Some("s1".to_string())), Some("s1".to_string()));
    assert_eq!(standby_query(), RedisCommand::GetValue { key: "servers:standby".to_string() });
    assert_eq!(
        set_standby("s1"),
        RedisCommand::SetValue { key: "servers:standby".to_string(), value: "s1".to_string() }
    );
    assert_eq!(
        set_field("s1", "address", "x"),
        RedisCommand::HSet {
            key: "server:s1".to_string(),
            fields: vec![("address".to_string(), "x".to_string())],
        }
    );
}

#[test]
fn waiting_for_ready_polls_until_the_deadline() {
    let wait = wait_for_ready("s1".to_string(), 1_000, 30_000);
    let read = RedisCommand::HGet { key: "server:s1".to_string(), field: "status".to_string() };
    assert_eq!(wait.next(1_000), ReadyStep::SleepThenRead(2, read.clone()));
    assert_eq!(wait.next(30_999), ReadyStep::SleepThenRead(2, read));
    assert_eq!(
        wait.next(31_000),
        ReadyStep::TimedOut("Timed out waiting for server s1 to become ready".to_string())
    );
    assert!(wait.is_ready(&Some("ready".to_string())));
    assert!(!wait.is_ready(&Some("starting".to_string())));
    assert!(!wait.is_ready(&None));
}

#[test]
fn without_servers_a_standby_is_spawned() {
    assert_eq!(run_poll_cycle(&vec![]), vec![PollAction::Spawn { standby: true }]);
    assert_eq!(
        run_poll_cycle(&vec![server("a", 3, 128, "ready")]),
        vec![PollAction::Spawn { standby: true }]
    );
}

#[test]
fn under_load_without_an_idle_server_one_is_spawned() {
    let plan = vec![PollAction::Spawn { standby: false }];
    assert_eq!(run_poll_cycle(&vec![server("a", 109, 128, "ready")]), plan);
    assert_eq!(run_poll_cycle(&vec![server("a", 85, 100, "ready")]), plan);
    assert_eq!(run_poll_cycle(&vec![server("a", 17, 20, "ready")]), plan);
    assert_eq!(run_poll_cycle(&vec![server("a", 1, 0, "ready")]), plan);
    assert_eq!(
        run_poll_cycle(&vec![server("a", 84, 100, "ready")]),
        vec![PollAction::Spawn { standby: true }]
    );
    assert_eq!(
        run_poll_cycle(&vec![server("a", 108, 128, "ready")]),
        vec![PollAction::Spawn { standby: true }]
    );
}

#[test]
fn an_idle_server_becomes_the_standby_and_stops_scaling() {
    let plan = run_poll_cycle(&vec![server("full", 128, 128, "ready"), server("idle", 0, 128, "ready")]);
    assert_eq!(plan, vec![PollAction::Run(set_standby("idle"))]);
}

#[test]
fn surplus_idle_servers_are_drained_and_stopped_later() {
    let noted = ServerInfo { container_id: "pod-d".to_string(), ..server("d", 0, 128, "ready") };
    let plan = run_poll_cycle(&vec![
        server("gone", 0, 128, "draining"),
        server("a", 0, 128, "ready"),
        server("b", 5, 128, "ready"),
        server("c", 0, 128, "starting"),
        noted,
    ]);
    let stop = |name: &str, id: &str| {
        vec![
            SpawnAction::DeletePod { name: name.to_string(), namespace: None },
            SpawnAction::DeleteService { name: name.to_string(), namespace: None },
            SpawnAction::Run(remove_server(id)),
        ]
    };
    assert_eq!(
        plan,
        vec![
            PollAction::Run(set_standby("a")),
            PollAction::Run(set_status("c", "draining")),
            PollAction::RunLater { after_secs: DRAIN_DELAY_SECS, actions: stop("game-c", "c") },
            PollAction::Run(set_status("d", "draining")),
            PollAction::RunLater { after_secs: 30, actions: stop("pod-d", "d") },
        ]
    );
}

#[test]
fn one_cycle_settles_the_idle_servers() {
    let mut store = MemoryStore::default();
    for id in ["a", "b", "c"] {
        store.start(id, "addr", 7000, 128);
    }
    for action in run_poll_cycle(&store.servers()) {
        if let PollAction::Run(c) = action {
            store.run(&c);
        }
    }
    assert_eq!(store.texts["servers:standby"], "a");
    assert_eq!(run_poll_cycle(&store.servers()), vec![PollAction::Run(set_standby("a"))]);
}

#[test]
fn a_stopped_server_is_gone() {
    let mut store = MemoryStore::default();
    store.start("a", "addr", 7000, 128);
    store.start("b", "addr", 7001, 128);
    for action in run_poll_cycle(&store.servers()) {
        match action {
            PollAction::Run(c) => store.run(&c),
            PollAction::RunLater { actions, .. } => {
                for stop in actions {
                    if let SpawnAction::Run(list) = stop {
                        store.run_all(&list);
                    }
                }
            }
            other => panic!("{other:?}"),
        }
    }
    let ids: Vec<String> = store.servers().into_iter().map(|s| s.id).collect();
    assert_eq!(ids, vec!["a"]);
    assert!(!store.hashes.contains_key("server:b"));
    assert_eq!(store.texts["servers:standby"], "a");
}

#[test]
fn at_startup_a_standby_is_spawned_unless_there_is_one() {
    assert_eq!(run_startup(&None), Some(PollAction::Spawn { standby: true }));
    assert_eq!(run_startup(&Some("s".to_string())), None);
}

#[test]
fn starting_and_draining_servers_are_not_pinged() {
    let pings = run_health_checks(&vec![
        server("a", 0, 128, "ready"),
        server("b", 0, 128, "starting"),
        server("c", 0, 128, "draining"),
        server("d", 0, 128, ""),
    ]);
    assert_eq!(
        pings,
        vec![
            Ping { server_id: "a".to_string(), addr: "game-a:7000".to_string() },
            Ping { server_id: "d".to_string(), addr: "game-d:7000".to_string() },
        ]
    );
}

#[test]
fn two_missed_pings_in_a_row_drain_a_server() {
    let mut missed = MissedPings::new();
    assert_eq!(MAX_MISSED_PINGS, 2);
    assert_eq!(missed.record("a", false), None);
    assert_eq!(missed.record("b", false), None);
    assert_eq!(missed.record("a", false), Some(set_status("a", "draining")));
    assert_eq!(missed.missed("a"), 2);
    assert_eq!(missed.missed("b"), 1);
}

#[test]
fn an_answered_ping_starts_the_count_anew() {
    let mut missed = MissedPings::new();
    assert_eq!(missed.record("a", false), None);
    assert_eq!(missed.record("a", true), None);
    assert_eq!(missed.missed("a"), 0);
    assert_eq!(missed.record("a", false), None);
    assert_eq!(missed.record("a", false), Some(set_status("a", "draining")));
    assert_eq!(missed.record("a", false), Some(set_status("a", "draining")));
}

#[test]
fn an_ipv4_address_is_preferred() {
    assert_eq!(pick_address(&vec![]), None);
    assert_eq!(pick_address(&vec![false, true, true]), Some(1));
    assert_eq!(pick_address(&vec![false, false]), Some(0));
    assert_eq!(find_first(&vec![false, false]), None);
    assert_eq!(find_first(&vec![true]), Some(0));
}
