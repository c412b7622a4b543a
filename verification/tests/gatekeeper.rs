use std::sync::Arc;

use extraction_mmo::command::RedisCommand;
use extraction_mmo::fields::Fields;
use extraction_mmo::gatekeeper::cert_manager::{
    create_cert_secret, ensure_certs, first_run, generate_certs, load_from_secret, namespace,
    secret_name, CertsStep, GatekeeperCerts, GenerateError, SecretLookup,
};
use extraction_mmo::gatekeeper::join::{
    handler, valid_name, JoinAction, JoinError, JoinEvent, JoinFlow, JoinRequest,
};
use extraction_mmo::gatekeeper::quic_validator::{
    answer_bytes, ended_cleanly, handle_stream, validation_response, AcceptError, LISTEN_ADDR,
    MAX_REQUEST_BYTES,
};
use extraction_mmo::gatekeeper::redis_ops::{
    find_server_for_join, next_player_id, player_id_from_counter, reserve_slot, session_query,
    slot_reserved, store_session, take_slot, validate_token, ServerInfo, RESERVE_SLOT_SCRIPT,
};
use extraction_mmo::packets::{TokenInvalid, TokenValid, ValidateToken, ValidationResponse};
use extraction_mmo::wire::{
    decode_validation_response, encode_validate_token, encode_validation_response, Malformed,
};

fn fields(list: &[(&str, &str)]) -> Fields {
    Fields::new(list.iter().map(|(k, v)| (k.to_string(), v.to_string())).collect())
}

fn reply(id: &str, status: &str, players: &str, capacity: &str) -> (String, Fields) {
    let f = fields(&[
        ("status", status),
        ("player_count", players),
        ("capacity", capacity),
        ("address", "host"),
        ("quic_port", "7003"),
    ]);
    (id.to_string(), f)
}

fn request(name: &str) -> JoinRequest {
    JoinRequest { display_name: name.to_string() }
}

#[test]
fn the_fullest_server_with_room_is_found() {
    let replies = vec![
        reply("full", "ready", "128", "128"),
        reply("a", "ready", "3", "128"),
        reply("b", "ready", "90", "128"),
        reply("c", "ready", "90", "128"),
        reply("starting", "starting", "100", "128"),
        ("gone".to_string(), fields(&[])),
    ];
    assert_eq!(
        find_server_for_join(&replies),
        Some(ServerInfo {
            id: "b".to_string(),
            address: "host".to_string(),
            quic_port: 7003,
            capacity: 128,
        })
    );
}

#[test]
fn no_server_is_found_when_all_are_full_or_not_ready() {
    assert_eq!(find_server_for_join(&vec![]), None);
    let replies =
        vec![reply("a", "ready", "2", "2"), reply("b", "draining", "0", "2"), reply("c", "", "0", "2")];
    assert_eq!(find_server_for_join(&replies), None);
}

#[test]
fn an_empty_server_is_the_last_resort() {
    let replies = vec![reply("idle", "ready", "0", "4"), reply("busy", "ready", "3", "4")];
    assert_eq!(find_server_for_join(&replies).unwrap().id, "busy");
    let replies = vec![reply("idle", "ready", "0", "4"), reply("full", "ready", "4", "4")];
    assert_eq!(find_server_for_join(&replies).unwrap().id, "idle");
}

#[test]
fn neighbouring_players_have_different_ids() {
    assert_ne!(player_id_from_counter(41), player_id_from_counter(42));
    let wrap = i64::from(u32::MAX);
    assert_ne!(player_id_from_counter(wrap), player_id_from_counter(wrap + 1));
}

#[test]
fn later_players_have_greater_ids() {
    for n in [0, 1, 41, i64::from(u32::MAX) - 1] {
        assert!(player_id_from_counter(n) < player_id_from_counter(n + 1));
    }
}

#[test]
fn a_draining_server_gets_no_players() {
    let mut f = reply("s", "ready", "1", "4").1;
    f.set("status".to_string(), "draining".to_string());
    assert_eq!(find_server_for_join(&vec![("s".to_string(), f.clone())]), None);
    assert!(!take_slot(&mut f, 4));
    assert_eq!(f.text("player_count"), "1");
}

#[test]
fn a_bare_ready_server_has_defaults() {
    let replies = vec![("a".to_string(), fields(&[("status", "ready")]))];
    let found = find_server_for_join(&replies).unwrap();
    assert_eq!((found.address.as_str(), found.quic_port, found.capacity), ("", 0, 128));
}

#[test]
fn a_reservation_runs_the_script_on_the_server() {
    assert_eq!(
        reserve_slot("s1", 64),
        RedisCommand::Eval {
            script: RESERVE_SLOT_SCRIPT.to_string(),
            key: "server:s1".to_string(),
            arg: "64".to_string(),
        }
    );
    assert!(RESERVE_SLOT_SCRIPT.starts_with("\nlocal status = redis.call('HGET', KEYS[1], 'status')\n"));
    assert!(RESERVE_SLOT_SCRIPT.ends_with("redis.call('HINCRBY', KEYS[1], 'player_count', 1)\nreturn 1\n"));
    assert!(slot_reserved(1));
    assert!(!slot_reserved(0));
    assert!(!slot_reserved(2));
}

#[test]
fn as_many_reservations_succeed_as_there_is_room() {
    for (players, capacity, tries, wanted) in [(2, 5, 2, 2), (2, 5, 9, 3), (5, 5, 4, 0)] {
        let mut f = reply("s", "ready", &players.to_string(), "9").1;
        let won = (0..tries).filter(|_| take_slot(&mut f, capacity)).count();
        assert_eq!(won, wanted);
        assert_eq!(f.text("player_count"), (players + wanted).to_string());
    }
}

#[test]
fn slots_are_taken_up_to_the_capacity() {
    let mut f = fields(&[("status", "ready")]);
    assert!(take_slot(&mut f, 2));
    assert!(take_slot(&mut f, 2));
    assert_eq!(f.text("player_count"), "2");
    assert!(!take_slot(&mut f, 2));
    assert_eq!(f.text("player_count"), "2");
    f.set("status".to_string(), "draining".to_string());
    assert!(!take_slot(&mut f, 5));
    let mut negative = fields(&[("status", "ready"), ("player_count", "-1")]);
    assert!(take_slot(&mut negative, 1));
    assert_eq!(negative.text("player_count"), "0");
}

#[test]
fn player_ids_come_from_the_counter() {
    assert_eq!(
        next_player_id(),
        RedisCommand::Incr { key: "player:id_counter".to_string(), by: 1 }
    );
    for n in [0, 1, 7, i64::from(u32::MAX), i64::from(u32::MAX) + 1, i64::MAX, -1, i64::MIN] {
        assert_eq!(player_id_from_counter(n), n as u32);
    }
}

#[test]
fn a_session_is_stored_for_an_hour() {
    let list = store_session("tok", "srv", 42, 1_700_000_000);
    assert_eq!(
        list,
        vec![
            RedisCommand::HSet {
                key: "session:tok".to_string(),
                fields: vec![
                    ("server_id".to_string(), "srv".to_string()),
                    ("player_id".to_string(), "42".to_string()),
                    ("expires_at".to_string(), "1700003600".to_string()),
                ],
            },
            RedisCommand::Expire { key: "session:tok".to_string(), seconds: 3600 },
        ]
    );
}

#[test]
fn a_stored_session_validates_its_token() {
    let written = match &store_session("tok", "srv", 42, 0)[0] {
        RedisCommand::HSet { key, fields } => {
            assert_eq!(session_query("tok"), RedisCommand::HGetAll { key: key.clone() });
            Fields::new(fields.clone())
        }
        other => panic!("{other:?}"),
    };
    assert_eq!(validate_token(&written), Some(("srv".to_string(), 42)));
}

#[test]
fn sessions_are_kept_apart() {
    let key = |command: &RedisCommand| match command {
        RedisCommand::HSet { key, .. } => key.clone(),
        RedisCommand::Expire { key, .. } => key.clone(),
        other => panic!("{other:?}"),
    };
    for command in store_session("one", "srv", 1, 0) {
        assert_ne!(session_query("two"), RedisCommand::HGetAll { key: key(&command) });
        assert_eq!(session_query("one"), RedisCommand::HGetAll { key: key(&command) });
    }
}

#[test]
fn a_token_without_session_is_invalid() {
    assert_eq!(validate_token(&fields(&[])), None);
    assert_eq!(validate_token(&fields(&[("player_id", "4")])), None);
    assert_eq!(
        validate_token(&fields(&[("server_id", "s"), ("player_id", "x")])),
        Some(("s".to_string(), 0))
    );
}

#[test]
fn names_are_limited_by_their_bytes() {
    assert!(valid_name("a"));
    assert!(valid_name(&"x".repeat(32)));
    assert!(!valid_name(&"x".repeat(33)));
    assert!(valid_name(&format!("  {}  ", "x".repeat(32))));
    assert!(valid_name(&"é".repeat(16)));
    assert!(!valid_name(&"é".repeat(17)));
    assert!(!valid_name(""));
    assert!(!valid_name(" \t\n"));
}

#[test]
fn a_bad_name_is_turned_down_at_once() {
    assert_eq!(handler(&request("  ")), Err(JoinError::BadRequest));
    assert_eq!(JoinError::BadRequest.status(), 400);
    assert_eq!(JoinError::ServiceUnavailable.status(), 503);
    assert_eq!(JoinError::InternalServerError.status(), 500);
}

#[test]
fn a_join_request_runs_through() {
    let (flow, action) = handler(&request("bot_001")).unwrap();
    assert_eq!(action, JoinAction::Connect);
    let (flow, action) = flow.step(JoinEvent::Done);
    assert_eq!(action, JoinAction::ListServers);
    let (flow, action) = flow.step(JoinEvent::Servers(vec![reply("s1", "ready", "1", "9")]));
    assert_eq!(action, JoinAction::Query(reserve_slot("s1", 9)));
    let (flow, action) = flow.step(JoinEvent::Reply { number: 1, now_secs: 0 });
    assert_eq!(action, JoinAction::Query(next_player_id()));
    let (flow, action) = flow.step(JoinEvent::Reply { number: 5, now_secs: 100 });
    let token = match &flow {
        JoinFlow::Storing { token, .. } => token.clone(),
        other => panic!("{other:?}"),
    };
    assert_eq!(token.len(), 36);
    assert_eq!(action, JoinAction::Run(store_session(&token, "s1", 5, 100)));
    let (flow, action) = flow.step(JoinEvent::Done);
    match action {
        JoinAction::Respond(response) => {
            assert_eq!(response.token, token);
            assert_eq!((response.server_addr.as_str(), response.quic_port), ("host", 7003));
        }
        other => panic!("{other:?}"),
    }
    assert_eq!(flow, JoinFlow::Ended);
}

#[test]
fn a_join_takes_one_slot_on_the_fullest_server() {
    let mut servers = vec![
        reply("idle", "ready", "0", "9"),
        reply("busy", "ready", "8", "9"),
        reply("full", "ready", "9", "9"),
    ];
    for (server, counts) in [("busy", ["0", "9", "9"]), ("idle", ["1", "9", "9"])] {
        let (flow, action) = JoinFlow::Finding.step(JoinEvent::Servers(servers.clone()));
        assert_eq!(action, JoinAction::Query(reserve_slot(server, 9)));
        let chosen = servers.iter_mut().find(|s| s.0 == server).unwrap();
        assert!(take_slot(&mut chosen.1, 9));
        let (_, action) = flow.step(JoinEvent::Reply { number: 1, now_secs: 0 });
        assert_eq!(action, JoinAction::Query(next_player_id()));
        let now: Vec<String> = servers.iter().map(|s| s.1.text("player_count")).collect();
        assert_eq!(now, counts);
    }
}

#[test]
fn two_players_get_different_tokens() {
    let server = ServerInfo {
        id: "s".to_string(),
        address: "a".to_string(),
        quic_port: 1,
        capacity: 2,
    };
    let flow = JoinFlow::Counting { server };
    let reply = JoinEvent::Reply { number: 1, now_secs: 0 };
    assert_ne!(flow.clone().step(reply.clone()).0, flow.step(reply).0);
}

#[test]
fn join_failures_have_their_status() {
    let unavailable = JoinAction::Reject(JoinError::ServiceUnavailable);
    let internal = JoinAction::Reject(JoinError::InternalServerError);
    let server = ServerInfo {
        id: "s".to_string(),
        address: "a".to_string(),
        quic_port: 1,
        capacity: 2,
    };
    assert_eq!(JoinFlow::Connecting.step(JoinEvent::Failed).1, unavailable);
    assert_eq!(JoinFlow::Finding.step(JoinEvent::Failed).1, unavailable);
    assert_eq!(JoinFlow::Finding.step(JoinEvent::Servers(vec![])).1, unavailable);
    let reserving = JoinFlow::Reserving { server: server.clone() };
    assert_eq!(reserving.clone().step(JoinEvent::Failed).1, unavailable);
    assert_eq!(reserving.step(JoinEvent::Reply { number: 0, now_secs: 0 }).1, unavailable);
    let counting = JoinFlow::Counting { server: server.clone() };
    assert_eq!(counting.step(JoinEvent::Failed).1, internal);
    let storing = JoinFlow::Storing { server, token: "t".to_string() };
    assert_eq!(storing.step(JoinEvent::Failed).1, internal);
}

#[test]
fn a_validation_request_is_looked_up_and_answered() {
    assert_eq!(LISTEN_ADDR, "0.0.0.0:3001");
    assert_eq!(MAX_REQUEST_BYTES, 4096);
    let data = encode_validate_token(&ValidateToken { token: "tok".to_string() });
    assert_eq!(handle_stream(&data), Ok(session_query("tok")));
    let session = fields(&[("server_id", "srv"), ("player_id", "9")]);
    assert_eq!(
        validation_response(&session),
        ValidationResponse::Valid(TokenValid { server_id: "srv".to_string(), player_id: 9 })
    );
    let read: Result<(String, u32), ()> = bitcode::decode(&answer_bytes(&session)).unwrap();
    assert_eq!(read, Ok(("srv".to_string(), 9)));
}

#[test]
fn an_unknown_token_is_refused_and_garbage_is_not_looked_up() {
    assert_eq!(
        validation_response(&fields(&[])),
        ValidationResponse::Invalid(TokenInvalid)
    );
    let read: Result<(String, u32), ()> = bitcode::decode(&answer_bytes(&fields(&[]))).unwrap();
    assert_eq!(read, Err(()));
    assert_eq!(handle_stream(&[0xff, 0xff, 0xff]), Err(Malformed));
}

#[test]
fn an_answer_is_read_back_as_it_was_written() {
    let valid =
        ValidationResponse::Valid(TokenValid { server_id: "srv".to_string(), player_id: 9 });
    let invalid = ValidationResponse::Invalid(TokenInvalid);
    for response in [valid, invalid] {
        let data = encode_validation_response(&response);
        assert_eq!(decode_validation_response(&data), Ok(response));
    }
    assert_eq!(decode_validation_response(&[]), Err(Malformed));
    assert_eq!(decode_validation_response(&[0xff, 0xff, 0xff]), Err(Malformed));
}

#[test]
fn closed_connections_end_cleanly() {
    assert!(ended_cleanly(AcceptError::ApplicationClosed));
    assert!(ended_cleanly(AcceptError::LocallyClosed));
    assert!(!ended_cleanly(AcceptError::Other));
}

#[test]
fn certificate_settings_have_defaults() {
    assert_eq!(namespace(None), "extraction-mmo");
    assert_eq!(secret_name(None), "extraction-mmo-certs");
    assert_eq!(secret_name(Some("mine".to_string())), "mine");
}

fn contains(haystack: &[u8], needle: &[u8]) -> bool {
    haystack.windows(needle.len()).any(|w| w == needle)
}

fn loads_into_tls(cert_der: Vec<u8>, key_der: Vec<u8>) -> bool {
    let provider = Arc::new(rustls::crypto::ring::default_provider());
    let key = rustls::pki_types::PrivateKeyDer::Pkcs8(key_der.into());
    rustls::ServerConfig::builder_with_provider(provider)
        .with_safe_default_protocol_versions()
        .unwrap()
        .with_no_client_auth()
        .with_single_cert(vec![cert_der.into()], key)
        .is_ok()
}

#[test]
fn generated_certificates_are_usable() {
    let (ca_pem, leaf_der, leaf_key) = generate_certs().unwrap();
    assert!(ca_pem.starts_with("-----BEGIN CERTIFICATE-----"));
    for name in ["gatekeeper", "gatekeeper-quic", "localhost"] {
        assert!(contains(&leaf_der, name.as_bytes()), "{name}");
    }
    assert!(!contains(&leaf_der, b"extraction-mmo-ca"));
    assert!(loads_into_tls(leaf_der.clone(), leaf_key));
    let (_, other_der, other_key) = generate_certs().unwrap();
    assert_ne!(leaf_der, other_der);
    assert!(!loads_into_tls(leaf_der, other_key));
}

#[test]
fn the_first_run_makes_certificates_and_later_runs_load_them() {
    let (secret, certs) = match ensure_certs(&SecretLookup::ApiError(404), "sec", "ns") {
        CertsStep::Create { secret, certs } => (secret, certs),
        other => panic!("{other:?}"),
    };
    assert_eq!((secret.name.as_str(), secret.namespace.as_str()), ("sec", "ns"));
    let names: Vec<String> = secret.data.iter().map(|e| e.0.clone()).collect();
    assert_eq!(names, vec!["ca.crt", "tls.crt", "tls.key"]);
    assert!(secret.data[0].1.starts_with(b"-----BEGIN CERTIFICATE-----"));
    match ensure_certs(&SecretLookup::Found(Some(secret.data)), "sec", "ns") {
        CertsStep::Use(loaded) => assert_eq!(loaded, certs),
        other => panic!("{other:?}"),
    }
}

#[test]
fn an_unusable_secret_is_reported() {
    let fail = |lookup: SecretLookup| match ensure_certs(&lookup, "sec", "ns") {
        CertsStep::Fail(reason) => reason,
        other => panic!("{other:?}"),
    };
    assert_eq!(fail(SecretLookup::Found(None)), "Secret sec has no data field");
    assert_eq!(fail(SecretLookup::Found(Some(vec![]))), "Secret sec missing tls.crt");
    assert_eq!(
        fail(SecretLookup::Found(Some(vec![("tls.crt".to_string(), vec![1])]))),
        "Secret sec missing tls.key"
    );
    assert_eq!(fail(SecretLookup::ApiError(403)), "GET Secret sec");
    assert_eq!(fail(SecretLookup::Unreachable), "GET Secret sec");
}

#[test]
fn a_first_run_without_certificates_fails() {
    assert_eq!(
        first_run(Err(GenerateError::CaKey), "n", "ns"),
        CertsStep::Fail("generate TLS certs".to_string())
    );
    let made = Ok(("PEM".to_string(), vec![1], vec![2]));
    match first_run(made, "n", "ns") {
        CertsStep::Create { secret, certs } => {
            assert_eq!(certs, GatekeeperCerts { cert_der: vec![1], key_der: vec![2] });
            assert_eq!(secret, create_cert_secret("n", "ns", "PEM", &certs));
        }
        other => panic!("{other:?}"),
    }
}

#[test]
fn a_secret_holds_what_it_is_made_from() {
    let certs = GatekeeperCerts { cert_der: vec![1, 2], key_der: vec![3] };
    let secret = create_cert_secret("n", "ns", "PEM", &certs);
    assert_eq!(
        secret.data,
        vec![
            ("ca.crt".to_string(), b"PEM".to_vec()),
            ("tls.crt".to_string(), vec![1, 2]),
            ("tls.key".to_string(), vec![3]),
        ]
    );
    assert_eq!(load_from_secret(&Some(secret.data), "n"), Ok(certs));
}
