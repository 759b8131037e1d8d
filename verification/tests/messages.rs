//! The handshake of two players, and what a reader of messages passes on.
use misterdrillerterm::agreement::{
    BattleConfig, ErrorKind, Expected, NetAction, NetError, PROTOCOL_VERSION,
};
use misterdrillerterm::messages::{
    answer_hello, hello, pass_on, run_client_handshake, run_host_handshake, ClientStage,
    GameMessage, HandshakeResult, NetworkEvent,
};
use misterdrillerterm::settings::Settings;

fn test_config() -> BattleConfig {
    BattleConfig::from_settings(&Settings::default(), 500)
}

/// Lets a host and a client shake hands.
fn run_handshake(config: BattleConfig) -> (HandshakeResult, HandshakeResult) {
    let reply = run_host_handshake(&hello("client"), "host", config).unwrap();
    let mut stage = ClientStage::AwaitHello;
    for msg in reply.sends {
        stage = run_client_handshake(stage, msg).unwrap();
    }
    match stage {
        ClientStage::Done(result) => (reply.result, result),
        other => panic!("{other:?}"),
    }
}

#[test]
fn the_handshake_leaves_both_sides_with_the_same_config_and_seed() {
    let config = test_config();

    let (host, client) = run_handshake(config);

    assert_eq!(host.config, config);
    assert_eq!(client.config, config);
    assert_eq!(host.seed, client.seed);
    assert!(host.ai_seeds.is_empty());
    assert_eq!(client.ai_seeds, host.ai_seeds);
}

#[test]
fn the_handshake_exchanges_the_display_names() {
    let (host, client) = run_handshake(test_config());

    assert_eq!(host.opponent_name, "client");
    assert_eq!(client.opponent_name, "host");
}

#[test]
fn the_host_rejects_a_first_message_that_is_not_hello() {
    let err = run_host_handshake(&GameMessage::Bye, "host", test_config()).unwrap_err();

    assert_eq!(err.kind(), ErrorKind::InvalidData);
    assert_eq!(err, NetError::UnexpectedMessage { expected: Expected::Hello });
}

#[test]
fn the_client_rejects_a_reply_that_is_not_hello() {
    let err = run_client_handshake(ClientStage::AwaitHello, GameMessage::Bye).unwrap_err();

    assert_eq!(err.kind(), ErrorKind::InvalidData);
}

#[test]
fn the_client_rejects_a_config_step_that_is_not_start_config() {
    let stage = run_client_handshake(ClientStage::AwaitHello, hello("host")).unwrap();
    let msg = GameMessage::SeedAgree { seed: 1, ai_seeds: Vec::new() };

    let err = run_client_handshake(stage, msg).unwrap_err();

    assert_eq!(err.kind(), ErrorKind::InvalidData);
}

#[test]
fn the_client_rejects_a_seed_step_that_is_no_seed() {
    let stage = run_client_handshake(ClientStage::AwaitHello, hello("host")).unwrap();
    let config = GameMessage::StartConfig(Box::new(test_config()));
    let stage = run_client_handshake(stage, config).unwrap();

    let err = run_client_handshake(stage, GameMessage::Heartbeat).unwrap_err();

    assert_eq!(err.kind(), ErrorKind::InvalidData);
}

#[test]
fn the_host_rejects_a_hello_with_a_different_protocol_version() {
    let stranger = GameMessage::Hello {
        name: "client".to_string(),
        protocol_version: PROTOCOL_VERSION + 1,
    };

    let err = run_host_handshake(&stranger, "host", test_config()).unwrap_err();

    assert_eq!(err.kind(), ErrorKind::InvalidData);
}

#[test]
fn the_client_rejects_a_hello_with_a_different_protocol_version() {
    let stranger = GameMessage::Hello {
        name: "host".to_string(),
        protocol_version: PROTOCOL_VERSION + 1,
    };

    let err = run_client_handshake(ClientStage::AwaitHello, stranger).unwrap_err();

    assert_eq!(err.kind(), ErrorKind::InvalidData);
}

#[test]
fn the_answer_to_a_hello_is_a_hello_the_settings_and_the_seed() {
    let reply = answer_hello(&hello("client"), "host", test_config(), 77).unwrap();

    assert_eq!(
        reply.sends,
        vec![
            hello("host"),
            GameMessage::StartConfig(Box::new(test_config())),
            GameMessage::SeedAgree { seed: 77, ai_seeds: Vec::new() },
        ]
    );
    assert_eq!(reply.result.seed, 77);
}

#[test]
fn two_handshakes_draw_two_seeds() {
    let seeds: Vec<u64> = (0..4)
        .map(|_| run_host_handshake(&hello("client"), "host", test_config()).unwrap().result.seed)
        .collect();

    assert!(seeds.iter().any(|&seed| seed != seeds[0]));
}

#[test]
fn the_receiver_thread_forwards_messages_in_order_and_stops_after_bye() {
    let drill = GameMessage::Input { action: NetAction::Drill, proxy_for: None };

    for (msg, last) in [(GameMessage::Heartbeat, false), (drill, false), (GameMessage::Bye, true)] {
        let (event, stops) = pass_on(Ok(msg.clone()));
        assert!(matches!(event, NetworkEvent::Message(passed) if passed == msg));
        assert_eq!(stops, last);
    }
}

#[test]
fn the_receiver_thread_reports_a_closed_connection_as_disconnected() {
    assert!(matches!(pass_on(Err(NetError::Truncated)), (NetworkEvent::Disconnected, true)));
}
