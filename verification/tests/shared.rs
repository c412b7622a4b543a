use extraction_mmo::command::{active_servers_query, server_query, single, RedisCommand};
use extraction_mmo::constants::{
    DEFAULT_CAPACITY, INTEREST_RADIUS_TILES, SPAWN_THRESHOLD_PERCENT, TICK_RATE_HZ,
};
use extraction_mmo::fields::{entry, Fields};
use extraction_mmo::packets::{
    AuthAck, Point, Single, TokenInvalid, TokenValid, ValidateToken, ValidationResponse,
};
use extraction_mmo::redis_keys::{active_servers_key, server_key, session_key, standby_server_key};
use extraction_mmo::wire::{
    decode_auth_ack, decode_validate_token, encode_auth_ack, encode_validate_token,
    encode_validation_response, Malformed,
};

fn fields(list: &[(&str, &str)]) -> Fields {
    Fields::new(list.iter().map(|(k, v)| (k.to_string(), v.to_string())).collect())
}

#[test]
fn constants_are_the_protocol_values() {
    assert_eq!(TICK_RATE_HZ, 30);
    assert_eq!(DEFAULT_CAPACITY, 128);
    assert_eq!(SPAWN_THRESHOLD_PERCENT, 85);
    assert_eq!(INTEREST_RADIUS_TILES, 32);
}

#[test]
fn keys_have_their_prefixes() {
    assert_eq!(server_key("abc"), "server:abc");
    assert_eq!(session_key("tok"), "session:tok");
    assert_eq!(active_servers_key(), "servers:active");
    assert_eq!(standby_server_key(), "servers:standby");
}

#[test]
fn keys_of_different_kinds_differ() {
    assert_ne!(server_key("a"), server_key("b"));
    assert_ne!(session_key("a"), session_key("b"));
    assert_ne!(server_key("s:active"), active_servers_key());
    assert_ne!(server_key("x"), session_key("x"));
}

#[test]
fn queries_name_their_keys() {
    assert_eq!(
        active_servers_query(),
        RedisCommand::SMembers { key: "servers:active".to_string() }
    );
    assert_eq!(server_query("a"), RedisCommand::HGetAll { key: "server:a".to_string() });
    let del = RedisCommand::Del { key: "k".to_string() };
    assert_eq!(single(del.clone()), vec![del]);
}

#[test]
fn fields_hold_the_last_value_of_each_name() {
    let mut f = fields(&[("a", "1"), ("b", "2"), ("a", "3")]);
    assert_eq!(f.get("a"), Some("3".to_string()));
    assert_eq!(f.get("b"), Some("2".to_string()));
    assert_eq!(f.get("c"), None);
    assert!(!f.is_empty());
    assert!(fields(&[]).is_empty());
    f.set("c".to_string(), "x".to_string());
    assert_eq!(f.text("c"), "x");
    assert_eq!(f.text("d"), "");
    assert_eq!(entry("n", "v"), ("n".to_string(), "v".to_string()));
}

#[test]
fn number_fields_fall_back() {
    let f = fields(&[("port", "7001"), ("big", "70000"), ("bad", "x")]);
    assert_eq!(f.number_u16("port", 1), 7001);
    assert_eq!(f.number_u16("big", 1), 1);
    assert_eq!(f.number_u32("big", 1), 70000);
    assert_eq!(f.number_u32("bad", 9), 9);
    assert_eq!(f.number_u32("none", 9), 9);
}

#[test]
fn unit_singles_are_floats() {
    assert_eq!(f32::from_bits(Single::unit(-1).bits), -1.0);
    assert_eq!(f32::from_bits(Single::unit(0).bits), 0.0);
    assert_eq!(f32::from_bits(Single::unit(1).bits), 1.0);
    assert_eq!(Point::zero(), Point { x: Single { bits: 0 }, y: Single { bits: 0 } });
}

#[test]
fn token_packets_read_back() {
    for token in ["", "tok", "8b1f2a0e-1111-4222-8333-944455556666", "schlüssel"] {
        let packet = ValidateToken { token: token.to_string() };
        let data = encode_validate_token(&packet);
        assert_eq!(data, bitcode::encode(token));
        assert_ne!(data, token.as_bytes().to_vec());
        assert_eq!(decode_validate_token(&data), Ok(packet));
    }
}

#[test]
fn acknowledgements_read_back() {
    for entity_id in [0, 1, 255, 256, u32::MAX] {
        let data = encode_auth_ack(&AuthAck { entity_id });
        assert_eq!(data, bitcode::encode(&entity_id));
        assert_eq!(decode_auth_ack(&data), Ok(AuthAck { entity_id }));
    }
}

#[test]
fn bytes_that_are_no_packet_are_malformed() {
    assert_eq!(decode_validate_token(&[0xff, 0xff, 0xff]), Err(Malformed));
    assert_eq!(decode_auth_ack(&[]), Err(Malformed));
    let long = [7u8; 40];
    assert_eq!(decode_auth_ack(&long), Err(Malformed));
}

#[test]
fn validation_responses_are_told_apart() {
    let valid = encode_validation_response(&ValidationResponse::Valid(TokenValid {
        server_id: "srv".to_string(),
        player_id: 7,
    }));
    let invalid = encode_validation_response(&ValidationResponse::Invalid(TokenInvalid));
    let read: Result<(String, u32), ()> = bitcode::decode(&valid).unwrap();
    assert_eq!(read, Ok(("srv".to_string(), 7)));
    let read: Result<(String, u32), ()> = bitcode::decode(&invalid).unwrap();
    assert_eq!(read, Err(()));
}
