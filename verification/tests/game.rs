use extraction_mmo::command::RedisCommand;
use extraction_mmo::constants::INTEREST_RADIUS_TILES;
use extraction_mmo::fields::Fields;
use extraction_mmo::game::client::input::{send_input, MoveKeys};
use extraction_mmo::game::client::interpolation::{spawn_remote_players, RemotePlayer};
use extraction_mmo::game::client::login::{
    gatekeeper_url, handle_join_button, handle_text_input, poll_join_task, status_error,
    GatekeeperUrl, JoinOutcome, JoinPress, KeyPress, NameBuffer,
};
use extraction_mmo::game::client::{GameSession, GameState};
use extraction_mmo::game::server::net::{
    bind_quic_endpoint, handle_connection, redis_heartbeat, register_server, setup, ConnAction,
    ConnEvent, ConnStage, ConnectedPlayers, EntityIds, PlayerConnection, SetupStep, SimCommand,
};
use extraction_mmo::game::server::simulation::{
    apply_player_inputs, broadcast_position_snapshots, despawn_players, process_net_commands,
    DespawnPlayer, PlayerInputBuffer, PlayerMove, PlayerPosition, TickCounter, TILE_PARTS,
};
use extraction_mmo::game::server::{ServerConfig, ServerVars};
use extraction_mmo::gatekeeper::join::JoinResponse;
use extraction_mmo::gatekeeper::quic_validator::answer_bytes;
use extraction_mmo::gatekeeper::redis_ops::{find_server_for_join, take_slot};
use extraction_mmo::packets::{
    PlayerInput, Point, PositionBatch, PositionSnapshot, Single, ValidateToken,
};
use extraction_mmo::wire::{decode_auth_ack, encode_validate_token};

fn single(x: f32) -> Single {
    Single { bits: x.to_bits() }
}

fn point(x: f32, y: f32) -> Point {
    Point { x: single(x), y: single(y) }
}

fn no_vars() -> ServerVars {
    ServerVars {
        server_id: None,
        public_addr: None,
        quic_port: None,
        max_players: None,
        redis_url: None,
        gatekeeper_addr: None,
    }
}

fn config() -> ServerConfig {
    ServerConfig::from_env(ServerVars {
        server_id: Some("srv".to_string()),
        public_addr: Some("1.2.3.4".to_string()),
        quic_port: Some("7010".to_string()),
        max_players: Some("16".to_string()),
        ..no_vars()
    })
}

fn pair(k: &str, v: &str) -> (String, String) {
    (k.to_string(), v.to_string())
}

#[test]
fn server_configuration_has_defaults() {
    let cfg = ServerConfig::from_env(no_vars());
    assert_eq!(cfg.server_id.len(), 36);
    assert_ne!(cfg.server_id, ServerConfig::from_env(no_vars()).server_id);
    assert_eq!(cfg.public_addr, "localhost");
    assert_eq!((cfg.quic_port, cfg.max_players), (7000, 128));
    assert_eq!(cfg.redis_url, "redis://redis:6379");
    assert_eq!(cfg.gatekeeper_addr, "gatekeeper:3001");
    assert_eq!(config().server_id, "srv");
}

#[test]
fn a_ready_server_registers_and_joins_the_active_set() {
    let fields = |status: &str| {
        vec![
            pair("address", "1.2.3.4"),
            pair("quic_port", "7010"),
            pair("player_count", "0"),
            pair("capacity", "16"),
            pair("status", status),
        ]
    };
    assert_eq!(
        register_server(&config(), "starting"),
        vec![RedisCommand::HSet { key: "server:srv".to_string(), fields: fields("starting") }]
    );
    assert_eq!(
        register_server(&config(), "ready"),
        vec![
            RedisCommand::HSet { key: "server:srv".to_string(), fields: fields("ready") },
            RedisCommand::SAdd { key: "servers:active".to_string(), member: "srv".to_string() },
        ]
    );
}

#[test]
fn a_ready_server_is_found_by_joining_players() {
    let hash = |status: &str| match register_server(&config(), status).remove(0) {
        RedisCommand::HSet { fields, .. } => Fields::new(fields),
        other => panic!("{other:?}"),
    };
    let found = find_server_for_join(&vec![("srv".to_string(), hash("ready"))]).unwrap();
    assert_eq!(found.address, "1.2.3.4");
    assert_eq!((found.quic_port, found.capacity), (7010, 16));
    assert_eq!(find_server_for_join(&vec![("srv".to_string(), hash("starting"))]), None);
}

#[test]
fn a_heartbeat_updates_the_player_count() {
    let mut hash = match register_server(&config(), "ready").remove(0) {
        RedisCommand::HSet { fields, .. } => Fields::new(fields),
        other => panic!("{other:?}"),
    };
    let before = find_server_for_join(&vec![("srv".to_string(), hash.clone())]);
    for (connected, found) in [(3, before.clone()), (16, None), (15, before)] {
        if let RedisCommand::HSet { fields, .. } = redis_heartbeat("srv", connected, 99) {
            for (k, v) in fields {
                hash.set(k, v);
            }
        }
        assert_eq!(hash.number_u32("player_count", 0), connected);
        assert_eq!(find_server_for_join(&vec![("srv".to_string(), hash.clone())]), found);
    }
}

#[test]
fn registering_keeps_what_is_noted_about_the_instance() {
    let mut hash = Fields::new(vec![
        pair("container_id", "c1"),
        pair("internal_addr", "game-srv"),
        pair("status", "starting"),
    ]);
    if let RedisCommand::HSet { fields, .. } = register_server(&config(), "ready").remove(0) {
        for (k, v) in fields {
            hash.set(k, v);
        }
    }
    assert_eq!(hash.text("container_id"), "c1");
    assert_eq!(hash.text("internal_addr"), "game-srv");
    assert_eq!(hash.text("status"), "ready");
}

#[test]
fn a_departure_undoes_a_reservation() {
    let mut hash = Fields::new(vec![pair("status", "ready"), pair("player_count", "6")]);
    assert!(take_slot(&mut hash, 16));
    let conn = PlayerConnection {
        entity_id: 1,
        server_id: "srv".to_string(),
        stage: ConnStage::Playing,
    };
    for action in conn.step(ConnEvent::Failed).1 {
        if let ConnAction::Run(RedisCommand::HIncrBy { field, by, .. }) = action {
            let count: i64 = hash.text(&field).parse().unwrap();
            hash.set(field, (count + by).to_string());
        }
    }
    assert_eq!(hash.text("player_count"), "6");
}

#[test]
fn a_heartbeat_writes_players_and_time() {
    assert_eq!(
        redis_heartbeat("srv", 7, 1234),
        RedisCommand::HSet {
            key: "server:srv".to_string(),
            fields: vec![pair("player_count", "7"), pair("heartbeat", "1234")],
        }
    );
}

#[test]
fn a_server_is_ready_only_once_it_accepts_players() {
    let cfg = config();
    assert_eq!(
        setup(&cfg),
        vec![
            SetupStep::Run(register_server(&cfg, "starting")),
            SetupStep::Bind("0.0.0.0:7010".to_string()),
            SetupStep::Accept,
            SetupStep::Run(register_server(&cfg, "ready")),
            SetupStep::Heartbeat,
        ]
    );
}

#[test]
fn the_endpoint_has_a_certificate_for_localhost() {
    let made = bind_quic_endpoint().unwrap();
    assert!(made.cert_der.windows(9).any(|w| w == b"localhost"));
    assert_eq!(made.key_der[0], 0x30);
    assert_ne!(made.cert_der, made.key_der);
    let provider = std::sync::Arc::new(rustls::crypto::ring::default_provider());
    let key = rustls::pki_types::PrivateKeyDer::Pkcs8(made.key_der.into());
    assert!(rustls::ServerConfig::builder_with_provider(provider)
        .with_safe_default_protocol_versions()
        .unwrap()
        .with_no_client_auth()
        .with_single_cert(vec![made.cert_der.into()], key)
        .is_ok());
}

#[test]
fn entity_ids_start_at_one() {
    let mut ids = EntityIds::new();
    assert_eq!((ids.allocate(), ids.allocate(), ids.allocate()), (1, 2, 3));
}

#[test]
fn connections_come_and_go() {
    let mut players: ConnectedPlayers<String> = ConnectedPlayers::new();
    players.join(1, "a".to_string());
    players.join(2, "b".to_string());
    players.join(1, "c".to_string());
    players.leave(1);
    assert_eq!(players.connections, vec![(2, "b".to_string())]);
    players.leave(7);
    assert_eq!(players.connections.len(), 1);
}

/// What the gatekeeper answers about a session.
fn answer(session: Option<(&str, u32)>) -> Vec<u8> {
    let fields = match session {
        Some((server_id, player_id)) => Fields::new(vec![
            pair("server_id", server_id),
            pair("player_id", &player_id.to_string()),
        ]),
        None => Fields::new(vec![]),
    };
    answer_bytes(&fields)
}

fn authenticating() -> PlayerConnection {
    handle_connection(&mut EntityIds::new(), "srv".to_string())
}

#[test]
fn a_connection_is_authenticated_plays_and_leaves() {
    let mut ids = EntityIds::new();
    let conn = handle_connection(&mut ids, "srv".to_string());
    assert_eq!(conn.entity_id, 1);
    let data = encode_validate_token(&ValidateToken { token: "tok".to_string() });
    let (conn, actions) = conn.step(ConnEvent::AuthData(data.clone()));
    assert_eq!(actions, vec![ConnAction::AskGatekeeper(data)]);
    let (conn, actions) = conn.step(ConnEvent::Verdict(answer(Some(("srv", 7)))));
    match &actions[0] {
        ConnAction::SendAck(ack) => assert_eq!(decode_auth_ack(ack).unwrap().entity_id, 1),
        other => panic!("{other:?}"),
    }
    assert_eq!(actions.len(), 1);
    let (conn, actions) = conn.step(ConnEvent::AckSent);
    assert_eq!(
        actions,
        vec![
            ConnAction::AddConnection,
            ConnAction::Notify(SimCommand::PlayerJoined {
                entity_id: 1,
                display_name: "tok".to_string(),
            }),
        ]
    );
    let input = PlayerInput { dx: single(0.5), dy: single(-1.0) };
    let (conn, actions) = conn.step(ConnEvent::Datagram(Some(input)));
    assert_eq!(
        actions,
        vec![ConnAction::Notify(SimCommand::PlayerInput {
            entity_id: 1,
            dx: single(0.5),
            dy: single(-1.0),
        })]
    );
    let (conn, actions) = conn.step(ConnEvent::Datagram(None));
    assert_eq!(actions, vec![]);
    let (conn, actions) = conn.step(ConnEvent::Failed);
    assert_eq!(
        actions,
        vec![
            ConnAction::RemoveConnection,
            ConnAction::Notify(SimCommand::PlayerLeft { entity_id: 1 }),
            ConnAction::Run(RedisCommand::HIncrBy {
                key: "server:srv".to_string(),
                field: "player_count".to_string(),
                by: -1,
            }),
        ]
    );
    assert_eq!(conn.stage, ConnStage::Ended);
}

#[test]
fn a_request_without_token_is_turned_away() {
    for data in [vec![0xff, 0xff, 0xff], vec![]] {
        let (conn, actions) = authenticating().step(ConnEvent::AuthData(data));
        assert_eq!((conn.stage, actions), (ConnStage::Ended, vec![]));
    }
}

#[test]
fn a_token_that_is_not_valid_is_turned_away() {
    for verdict in [answer(None), vec![0xff, 0xff, 0xff], vec![]] {
        let data = encode_validate_token(&ValidateToken { token: "tok".to_string() });
        let (conn, actions) = authenticating().step(ConnEvent::AuthData(data.clone()));
        assert_eq!(conn.stage, ConnStage::Validating { token: "tok".to_string() });
        assert_eq!(actions, vec![ConnAction::AskGatekeeper(data)]);
        let (conn, actions) = conn.step(ConnEvent::Verdict(verdict));
        assert_eq!((conn.stage, actions), (ConnStage::Ended, vec![]));
    }
}

#[test]
fn a_connection_that_fails_early_leaves_no_trace() {
    let mut ids = EntityIds::new();
    let conn = handle_connection(&mut ids, "srv".to_string());
    let (ended, actions) = conn.clone().step(ConnEvent::Failed);
    assert_eq!((ended.stage, actions), (ConnStage::Ended, vec![]));
    let data = encode_validate_token(&ValidateToken { token: "tok".to_string() });
    let (validating, _) = conn.step(ConnEvent::AuthData(data));
    let (ended, actions) = validating.clone().step(ConnEvent::Failed);
    assert_eq!((ended.stage, actions), (ConnStage::Ended, vec![]));
    let (acking, _) = validating.step(ConnEvent::Verdict(answer(Some(("srv", 1)))));
    let (ended, actions) = acking.step(ConnEvent::Failed);
    assert_eq!((ended.stage, actions), (ConnStage::Ended, vec![]));
}

#[test]
fn commands_become_players_and_inputs() {
    let mut buf = PlayerInputBuffer::new();
    buf.0.insert(9, point(1.0, 1.0));
    let (spawns, despawns) = process_net_commands(
        &mut buf,
        &vec![
            SimCommand::PlayerJoined { entity_id: 1, display_name: "a".to_string() },
            SimCommand::PlayerInput { entity_id: 1, dx: single(1.0), dy: single(0.0) },
            SimCommand::PlayerInput { entity_id: 2, dx: single(1.0), dy: single(0.0) },
            SimCommand::PlayerInput { entity_id: 1, dx: single(0.0), dy: single(-1.0) },
            SimCommand::PlayerLeft { entity_id: 2 },
        ],
    );
    assert_eq!(spawns.len(), 1);
    assert_eq!((spawns[0].entity_id, spawns[0].display_name.as_str()), (1, "a"));
    assert_eq!(spawns[0].position, point(0.0, 0.0));
    assert_eq!(despawns, vec![DespawnPlayer { entity_id: 2 }]);
    assert_eq!(buf.0.len(), 1);
    assert_eq!(buf.0[&1], point(0.0, -1.0));
    process_net_commands(&mut buf, &vec![]);
    assert!(buf.0.is_empty());
}

#[test]
fn the_first_player_with_the_id_is_taken_out() {
    let gone = |entity_id| DespawnPlayer { entity_id };
    assert_eq!(despawn_players(&vec![gone(5), gone(9), gone(3)], &vec![3, 5, 5]), vec![1, 0]);
    assert_eq!(despawn_players(&vec![], &vec![1]), Vec::<usize>::new());
}

#[test]
fn buffered_inputs_push_and_jump() {
    let samples = [
        0.0f32,
        -0.0,
        1.0,
        -1.0,
        0.5,
        0.500_000_06,
        0.499_999_97,
        f32::INFINITY,
        f32::NEG_INFINITY,
        f32::NAN,
        -f32::NAN,
        f32::MIN_POSITIVE,
        1.0e-45,
        f32::MAX,
        100.0,
        -100.0,
        1.000_000_1,
        -1.000_000_1,
        0.999_999_94,
        -0.25,
    ];
    for x in samples {
        for y in samples {
            let mut buf = PlayerInputBuffer::new();
            buf.0.insert(3, point(x, y));
            for grounded in [false, true] {
                let moved = apply_player_inputs(&buf, 3, grounded);
                let normal = x.clamp(-1.0, 1.0);
                let pushed = if normal.is_nan() || normal == 0.0 { None } else { Some(single(normal)) };
                assert_eq!(moved.push, pushed);
                assert_eq!(moved.jump, y > 0.5 && grounded);
            }
            assert_eq!(
                apply_player_inputs(&buf, 4, true),
                PlayerMove { push: None, jump: false }
            );
        }
    }
}

fn player_at(entity_id: u32, tile_x: i32, tile_y: i32) -> PlayerPosition {
    PlayerPosition { entity_id, position: point(entity_id as f32, -2.0), tile_x, tile_y }
}

fn ids_in(batch: &Option<PositionBatch>) -> Vec<u32> {
    batch.iter().flat_map(|b| b.snapshots.iter().map(|s| s.entity_id)).collect()
}

#[test]
fn snapshots_are_batched_each_tick() {
    let mut tick = TickCounter(0);
    assert_eq!(broadcast_position_snapshots(&mut tick, &vec![], &vec![4]), vec![None]);
    assert_eq!(tick, TickCounter(1));
    let batches = broadcast_position_snapshots(&mut tick, &vec![player_at(4, 0, 0)], &vec![4, 9]);
    assert_eq!(
        batches,
        vec![
            Some(PositionBatch {
                tick: 2,
                snapshots: vec![PositionSnapshot {
                    entity_id: 4,
                    x: single(4.0),
                    y: single(-2.0),
                    vx: single(0.0),
                    vy: single(0.0),
                }],
            }),
            None,
        ]
    );
    let mut last = TickCounter(u32::MAX);
    broadcast_position_snapshots(&mut last, &vec![], &vec![]);
    assert_eq!(last, TickCounter(0));
}

#[test]
fn only_players_within_the_radius_are_sent() {
    assert_eq!((INTEREST_RADIUS_TILES, TILE_PARTS), (32, 256));
    let players = vec![
        player_at(1, 0, 0),
        player_at(2, 32 * 256, 0),
        player_at(3, 32 * 256 + 1, 0),
        player_at(4, 23 * 256, 23 * 256),
        player_at(5, i32::MIN, i32::MAX),
    ];
    let mut tick = TickCounter(0);
    let batches = broadcast_position_snapshots(&mut tick, &players, &vec![1, 2, 3, 5]);
    assert_eq!(ids_in(&batches[0]), vec![1, 2]);
    assert_eq!(ids_in(&batches[1]), vec![1, 2, 3, 4]);
    assert_eq!(ids_in(&batches[2]), vec![2, 3, 4]);
    assert_eq!(ids_in(&batches[3]), vec![5]);
}

fn no_keys() -> MoveKeys {
    MoveKeys {
        arrow_left: false,
        key_a: false,
        arrow_right: false,
        key_d: false,
        arrow_up: false,
        key_w: false,
        arrow_down: false,
        key_s: false,
    }
}

#[test]
fn keys_push_the_axes() {
    let moved = |keys: MoveKeys| {
        send_input(keys).map(|i| (f32::from_bits(i.dx.bits), f32::from_bits(i.dy.bits)))
    };
    assert_eq!(moved(no_keys()), None);
    assert_eq!(moved(MoveKeys { key_a: true, ..no_keys() }), Some((-1.0, 0.0)));
    assert_eq!(moved(MoveKeys { arrow_right: true, key_w: true, ..no_keys() }), Some((1.0, 1.0)));
    assert_eq!(moved(MoveKeys { arrow_down: true, key_s: true, ..no_keys() }), Some((0.0, -1.0)));
}

#[test]
fn opposite_keys_cancel() {
    assert_eq!(send_input(MoveKeys { arrow_left: true, key_d: true, ..no_keys() }), None);
    let all = MoveKeys {
        arrow_left: true,
        key_a: true,
        arrow_right: true,
        key_d: true,
        arrow_up: true,
        key_w: true,
        arrow_down: true,
        key_s: true,
    };
    assert_eq!(send_input(all), None);
}

fn snap(entity_id: u32, x: f32, y: f32) -> PositionSnapshot {
    PositionSnapshot { entity_id, x: single(x), y: single(y), vx: single(0.0), vy: single(0.0) }
}

#[test]
fn each_new_entity_appears_once() {
    let batches = vec![
        PositionBatch { tick: 1, snapshots: vec![snap(1, 0.0, 0.0), snap(2, 1.0, 1.0)] },
        PositionBatch { tick: 2, snapshots: vec![snap(2, 5.0, 5.0), snap(3, 2.0, 2.0)] },
    ];
    let new = spawn_remote_players(&batches, &vec![1], Some(3));
    let ids: Vec<(u32, bool)> = new.iter().map(|n| (n.remote.entity_id, n.is_me)).collect();
    assert_eq!(ids, vec![(2, false), (3, true)]);
    assert_eq!(new[0].remote.target, point(1.0, 1.0));
    assert_eq!(new[0].remote.prev, point(1.0, 1.0));
    assert_eq!(spawn_remote_players(&vec![], &vec![], None), vec![]);
}

#[test]
fn a_remote_player_follows_snapshots_that_moved() {
    let start = RemotePlayer { entity_id: 1, target: point(0.0, 0.0), prev: point(0.0, 0.0) };
    let mut remote = start;
    remote.retarget(&snap(2, 9.0, 9.0), true);
    remote.retarget(&snap(1, 0.01, 0.0), false);
    assert_eq!(remote, start);
    remote.retarget(&snap(1, 3.0, 4.0), true);
    assert_eq!((remote.target, remote.prev), (point(3.0, 4.0), point(0.0, 0.0)));
}

#[test]
fn the_name_field_takes_printable_text() {
    let mut name = NameBuffer::default();
    assert_eq!(name.0, "Player1");
    assert_eq!(name.shown(), "Player1_");
    let key = |s: &str| KeyPress::Character(s.to_string());
    assert_eq!(
        handle_text_input(&mut name, &vec![KeyPress::Backspace, key("X"), key("é\u{7}!")]),
        Some("PlayerXé!_".to_string())
    );
    assert_eq!(name.0, "PlayerXé!");
    assert_eq!(handle_text_input(&mut name, &vec![key("\u{1b}"), KeyPress::Other]), None);
    let mut empty = NameBuffer(String::new());
    assert_eq!(
        handle_text_input(&mut empty, &vec![KeyPress::Backspace]),
        Some("_".to_string())
    );
    assert_eq!(empty.0, "");
}

#[test]
fn a_backspace_undoes_a_character() {
    let mut name = NameBuffer("ab".to_string());
    handle_text_input(
        &mut name,
        &vec![KeyPress::Character("ü".to_string()), KeyPress::Backspace],
    );
    assert_eq!(name.0, "ab");
}

#[test]
fn the_join_button_sends_the_trimmed_name() {
    let name = NameBuffer("  Ann ".to_string());
    assert_eq!(handle_join_button(false, &name, None), JoinPress::Ignored);
    assert_eq!(
        handle_join_button(true, &name, None),
        JoinPress::Send {
            url: "http://localhost:3000/join".to_string(),
            display_name: "Ann".to_string(),
        }
    );
    let url = GatekeeperUrl("http://g:1".to_string());
    assert_eq!(
        handle_join_button(true, &name, Some(url)),
        JoinPress::Send {
            url: "http://g:1/join".to_string(),
            display_name: "Ann".to_string(),
        }
    );
    assert_eq!(
        handle_join_button(true, &NameBuffer(" ".to_string()), None),
        JoinPress::Refused("Name cannot be empty".to_string())
    );
}

#[test]
fn the_gatekeeper_url_has_a_default() {
    assert_eq!(gatekeeper_url(None).0, "http://20.104.144.109:3000");
    assert_eq!(gatekeeper_url(Some("http://x".to_string())).0, "http://x");
}

#[test]
fn a_join_answer_starts_the_session() {
    let response = JoinResponse {
        token: "t".to_string(),
        server_addr: "a".to_string(),
        quic_port: 7,
    };
    assert_eq!(
        poll_join_task(Ok(response)),
        JoinOutcome::Connect(GameSession {
            token: "t".to_string(),
            server_addr: "a".to_string(),
            quic_port: 7,
        })
    );
    assert_eq!(
        poll_join_task(Err(status_error("503 Service Unavailable"))),
        JoinOutcome::Failed("Join failed: Server returned 503 Service Unavailable".to_string())
    );
    assert_eq!(GameState::default(), GameState::Login);
}
