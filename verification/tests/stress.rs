use extraction_mmo::gatekeeper::join::JoinResponse;
use extraction_mmo::packets::{AuthAck, ValidateToken};
use extraction_mmo::stress::{
    bot_name, gatekeeper_arg, players_arg, simulate_player, BotAction, BotEvent, BotStage, Tally,
    PLAY_MS, STAGGER_MS, TICK_MS, TURN_TICKS,
};
use extraction_mmo::wire::{encode_auth_ack, encode_validate_token};

fn text(s: &str) -> String {
    s.to_string()
}

fn joined() -> BotEvent {
    BotEvent::Joined(JoinResponse {
        token: text("tok"),
        server_addr: text("host"),
        quic_port: 7000,
    })
}

#[test]
fn arguments_have_defaults() {
    assert_eq!(players_arg(None), 10);
    assert_eq!(players_arg(Some(text("25"))), 25);
    assert_eq!(players_arg(Some(text("many"))), 10);
    assert_eq!(gatekeeper_arg(None), "http://localhost:3000");
    assert_eq!(gatekeeper_arg(Some(text("http://g"))), "http://g");
    assert_eq!((STAGGER_MS, TICK_MS, PLAY_MS, TURN_TICKS), (50, 33, 10_000, 30));
}

#[test]
fn bots_are_numbered() {
    assert_eq!(bot_name(0), "bot_000");
    assert_eq!(bot_name(12), "bot_012");
    assert_eq!(bot_name(1234), "bot_1234");
}

#[test]
fn a_bot_joins_plays_and_leaves() {
    let (bot, action) = simulate_player(text("bot_001"), text("http://g"));
    assert_eq!(
        action,
        BotAction::Join { url: text("http://g/join"), display_name: text("bot_001") }
    );
    let (bot, action) = bot.step(joined());
    assert_eq!(action, BotAction::Resolve(text("host:7000")));
    let (bot, action) = bot.step(BotEvent::Addresses(vec![false, true]));
    assert_eq!(action, BotAction::Connect(1));
    let (bot, action) = bot.step(BotEvent::Connected);
    let token = encode_validate_token(&ValidateToken { token: text("tok") });
    assert_eq!(action, BotAction::Authenticate(token));
    let data = encode_auth_ack(&AuthAck { entity_id: 13 });
    let (bot, action) = bot.step(BotEvent::Acknowledged { data, now_ms: 100 });
    assert_eq!(action, BotAction::AwaitTick);
    assert_eq!(bot, BotStage::Waiting { dir: 5, ticks: 0, deadline_ms: 10_100 });
    let (bot, action) = bot.step(BotEvent::Ticked { now_ms: 133 });
    match action {
        BotAction::SendInput(input) => {
            assert_eq!(f32::from_bits(input.dx.bits), -1.0);
            assert_eq!(f32::from_bits(input.dy.bits), 1.0);
        }
        other => panic!("{other:?}"),
    }
    let (bot, action) = bot.step(BotEvent::Sent);
    assert_eq!(action, BotAction::AwaitTick);
    let (bot, action) = bot.step(BotEvent::Ticked { now_ms: 10_100 });
    assert_eq!(action, BotAction::Close);
    assert_eq!(bot, BotStage::Ended);
}

#[test]
fn a_bot_turns_through_all_directions() {
    let mut bot = BotStage::Waiting { dir: 6, ticks: 0, deadline_ms: 1_000_000 };
    let mut inputs = Vec::new();
    for tick in 0..270u64 {
        let (sending, action) = bot.step(BotEvent::Ticked { now_ms: tick * TICK_MS });
        match action {
            BotAction::SendInput(input) => {
                inputs.push((f32::from_bits(input.dx.bits), f32::from_bits(input.dy.bits)))
            }
            other => panic!("{other:?}"),
        }
        bot = sending.step(BotEvent::Sent).0;
    }
    let turns: Vec<usize> = (1..inputs.len()).filter(|&i| inputs[i] != inputs[i - 1]).collect();
    assert_eq!(turns, vec![29, 59, 89, 119, 149, 179, 209, 239, 269]);
    let seen: Vec<(f32, f32)> = inputs.iter().copied().step_by(30).collect();
    assert_eq!(
        seen,
        vec![
            (1.0, -1.0),
            (-1.0, -1.0),
            (1.0, 0.0),
            (-1.0, 0.0),
            (0.0, 1.0),
            (0.0, -1.0),
            (1.0, 1.0),
            (-1.0, 1.0),
            (1.0, -1.0),
        ]
    );
}

#[test]
fn a_bot_fails_with_a_reason() {
    let fail = |stage: BotStage, event: BotEvent| match stage.step(event).1 {
        BotAction::Fail(reason) => reason,
        other => panic!("{other:?}"),
    };
    assert_eq!(
        fail(BotStage::Joining, BotEvent::Refused(text("503 Service Unavailable"))),
        "/join returned 503 Service Unavailable"
    );
    assert_eq!(fail(BotStage::Joining, BotEvent::Failed(text("/join request"))), "/join request");
    assert_eq!(
        fail(BotStage::Resolving { token: text("t") }, BotEvent::Addresses(vec![false])),
        "no IPv4 addr"
    );
    let garbage = BotEvent::Acknowledged { data: vec![], now_ms: 0 };
    assert_eq!(fail(BotStage::Authenticating, garbage), "decode AuthAck");
}

#[test]
fn a_bot_whose_inputs_do_not_get_through_ends_well() {
    let sending = BotStage::Sending { dir: 0, ticks: 3, deadline_ms: 10 };
    let (bot, action) = sending.step(BotEvent::Failed(text("closed")));
    assert_eq!((bot, action), (BotStage::Ended, BotAction::Close));
}

#[test]
fn bots_are_counted() {
    let mut tally = Tally::new();
    tally.record(true);
    tally.record(true);
    tally.record(false);
    assert_eq!(tally, Tally { connected: 2, failed: 1 });
    let mut last = Tally { connected: u32::MAX, failed: 0 };
    last.record(true);
    assert_eq!(last.connected, 0);
}
