use pubsub_broker::{
    BrokerAction, BrokerCommand, Config, Message, RoutingTable, ServerConfig, Session,
    SessionEvent, broker_step, decode_message, encode_message, frame_message, frame_payload_len,
    session_step,
};

fn publish(topic: &str, message: &str) -> BrokerCommand {
    BrokerCommand::Publish { topic: topic.to_string(), message: message.to_string() }
}

#[test]
fn second_subscribe_to_bound_topic_is_rejected() {
    let mut table = RoutingTable::new();
    assert!(table.bind("x".to_string(), 1));
    assert!(!table.bind("x".to_string(), 2));
    assert_eq!(table.lookup(&"x".to_string()), Some(1));
}

#[test]
fn concurrent_consume_binds_exactly_one() {
    // Two connections race to consume the same topic; the broker serializes
    // the commands, so exactly one wins and the other is rejected.
    let mut a = Session::new(1);
    let mut b = Session::new(2);
    let ea = session_step(
        &mut a,
        SessionEvent::PeerMessage { message: Message::Consume { topic: "x".to_string() } },
    );
    let eb = session_step(
        &mut b,
        SessionEvent::PeerMessage { message: Message::Consume { topic: "x".to_string() } },
    );
    let mut table = RoutingTable::new();
    assert!(matches!(broker_step(&mut table, ea.to_broker.unwrap()), BrokerAction::NoDelivery));
    assert!(matches!(broker_step(&mut table, eb.to_broker.unwrap()), BrokerAction::NoDelivery));
    assert_eq!(table.lookup(&"x".to_string()), Some(1));
    // No double delivery: a publish reaches only the winner.
    match broker_step(&mut table, publish("x", "payload")) {
        BrokerAction::Deliver { subscriber, .. } => assert_eq!(subscriber, 1),
        BrokerAction::NoDelivery => panic!("expected a delivery"),
    }
}

#[test]
fn publish_to_unbound_topic_is_a_no_op() {
    let mut table = RoutingTable::new();
    assert!(matches!(broker_step(&mut table, publish("nowhere", "m")), BrokerAction::NoDelivery));
    // No binding was created by the miss: a later subscribe still succeeds.
    assert!(table.bind("nowhere".to_string(), 9));
}

#[test]
fn publish_is_delivered_to_the_bound_subscriber_only() {
    let mut table = RoutingTable::new();
    assert!(table.bind("news".to_string(), 1));
    assert!(table.bind("other".to_string(), 2));
    match broker_step(&mut table, publish("news", "hello")) {
        BrokerAction::Deliver { subscriber, topic, message } => {
            assert_eq!(subscriber, 1);
            assert_eq!(topic, "news");
            assert_eq!(message, "hello");
        },
        BrokerAction::NoDelivery => panic!("expected a delivery"),
    }
}

#[test]
fn consume_then_publish_delivers_between_clients() {
    // Client A consumes "news"; client B publishes to it; A, and only A,
    // gets the payload, forwarded to its peer as a Deliver message.
    let mut broker = RoutingTable::new();
    let mut client_a = Session::new(10);
    let mut client_b = Session::new(20);

    let ea = session_step(
        &mut client_a,
        SessionEvent::PeerMessage { message: Message::Consume { topic: "news".to_string() } },
    );
    broker_step(&mut broker, ea.to_broker.unwrap());

    let eb = session_step(
        &mut client_b,
        SessionEvent::PeerMessage {
            message: Message::Publish { topic: "news".to_string(), message: "hello".to_string() },
        },
    );
    assert!(eb.send_peer.is_none());
    match broker_step(&mut broker, eb.to_broker.unwrap()) {
        BrokerAction::Deliver { subscriber, topic, message } => {
            assert_eq!(subscriber, 10);
            let ed = session_step(&mut client_a, SessionEvent::Delivery { topic, message });
            match ed.send_peer {
                Some(Message::Deliver { topic, message }) => {
                    assert_eq!(topic, "news");
                    assert_eq!(message, "hello");
                },
                _ => panic!("expected a Deliver to the peer"),
            }
        },
        BrokerAction::NoDelivery => panic!("expected a delivery"),
    }
}

#[test]
fn clean_disconnect_releases_every_subscription() {
    let mut broker = RoutingTable::new();
    let mut session = Session::new(5);
    for topic in ["a", "b"] {
        let e = session_step(
            &mut session,
            SessionEvent::PeerMessage { message: Message::Consume { topic: topic.to_string() } },
        );
        broker_step(&mut broker, e.to_broker.unwrap());
    }
    assert_eq!(broker.lookup(&"a".to_string()), Some(5));
    assert_eq!(broker.lookup(&"b".to_string()), Some(5));

    let closing = session_step(&mut session, SessionEvent::PeerClosed);
    assert!(closing.stop);
    broker_step(&mut broker, closing.to_broker.unwrap());

    assert!(matches!(broker_step(&mut broker, publish("a", "m")), BrokerAction::NoDelivery));
    assert!(matches!(broker_step(&mut broker, publish("b", "m")), BrokerAction::NoDelivery));
}

#[test]
fn topic_can_be_rebound_after_disconnect() {
    // A subscribes to "news" and disconnects; B's subscribe then succeeds.
    let mut broker = RoutingTable::new();
    let mut a = Session::new(1);
    let e = session_step(
        &mut a,
        SessionEvent::PeerMessage { message: Message::Consume { topic: "news".to_string() } },
    );
    broker_step(&mut broker, e.to_broker.unwrap());
    let bye = session_step(&mut a, SessionEvent::PeerClosed);
    broker_step(&mut broker, bye.to_broker.unwrap());

    let mut b = Session::new(2);
    let e2 = session_step(
        &mut b,
        SessionEvent::PeerMessage { message: Message::Consume { topic: "news".to_string() } },
    );
    broker_step(&mut broker, e2.to_broker.unwrap());
    assert_eq!(broker.lookup(&"news".to_string()), Some(2));
}

#[test]
fn duplicate_consume_from_one_session_is_rejected_but_harmless() {
    let mut broker = RoutingTable::new();
    let mut session = Session::new(6);
    for _ in 0..2 {
        let e = session_step(
            &mut session,
            SessionEvent::PeerMessage { message: Message::Consume { topic: "x".to_string() } },
        );
        broker_step(&mut broker, e.to_broker.unwrap());
    }
    assert_eq!(broker.lookup(&"x".to_string()), Some(6));
    // The duplicate in the subscription list does not disturb the release.
    let bye = session_step(&mut session, SessionEvent::PeerClosed);
    broker_step(&mut broker, bye.to_broker.unwrap());
    assert_eq!(broker.lookup(&"x".to_string()), None);
}

#[test]
fn disconnect_without_subscriptions_has_no_effect_on_the_table() {
    let mut broker = RoutingTable::new();
    assert!(broker.bind("kept".to_string(), 8));
    let mut session = Session::new(9);
    let bye = session_step(&mut session, SessionEvent::PeerClosed);
    assert!(bye.stop);
    broker_step(&mut broker, bye.to_broker.unwrap());
    assert_eq!(broker.lookup(&"kept".to_string()), Some(8));
}

#[test]
fn unsubscribe_of_unbound_topic_is_a_no_op() {
    let mut table = RoutingTable::new();
    assert!(table.bind("kept".to_string(), 4));
    let cmd = BrokerCommand::Unsubscribe { topics: vec!["ghost".to_string()] };
    assert!(matches!(broker_step(&mut table, cmd), BrokerAction::NoDelivery));
    assert_eq!(table.lookup(&"kept".to_string()), Some(4));
    assert_eq!(table.lookup(&"ghost".to_string()), None);
}

#[test]
fn transport_error_releases_subscriptions_too() {
    let mut broker = RoutingTable::new();
    let mut session = Session::new(7);
    let e = session_step(
        &mut session,
        SessionEvent::PeerMessage { message: Message::Consume { topic: "t".to_string() } },
    );
    broker_step(&mut broker, e.to_broker.unwrap());
    let err = session_step(&mut session, SessionEvent::PeerTransportError);
    assert!(err.stop);
    broker_step(&mut broker, err.to_broker.unwrap());
    assert_eq!(broker.lookup(&"t".to_string()), None);
}

#[test]
fn session_ignores_noise_and_decode_errors() {
    let mut session = Session::new(1);
    for event in [
        SessionEvent::PeerMessage { message: Message::Ping },
        SessionEvent::PeerMessage { message: Message::Pong },
        SessionEvent::PeerMessage {
            message: Message::Deliver { topic: "t".to_string(), message: "m".to_string() },
        },
        SessionEvent::PeerDecodeError,
    ] {
        let e = session_step(&mut session, event);
        assert!(e.send_peer.is_none());
        assert!(e.to_broker.is_none());
        assert!(!e.stop);
    }
}

#[test]
fn closed_delivery_channel_stops_the_session_and_releases_its_topics() {
    let mut broker = RoutingTable::new();
    let mut session = Session::new(1);
    let e = session_step(
        &mut session,
        SessionEvent::PeerMessage { message: Message::Consume { topic: "t".to_string() } },
    );
    broker_step(&mut broker, e.to_broker.unwrap());
    assert_eq!(broker.lookup(&"t".to_string()), Some(1));

    let bye = session_step(&mut session, SessionEvent::DeliveryChannelClosed);
    assert!(bye.stop);
    assert!(bye.send_peer.is_none());
    broker_step(&mut broker, bye.to_broker.expect("the exit must release the bindings"));
    assert_eq!(broker.lookup(&"t".to_string()), None);
}

#[test]
fn publish_round_trips_through_the_codec() {
    let m = Message::Publish { topic: "t".to_string(), message: "m".to_string() };
    let bytes = encode_message(&m);
    match decode_message(&bytes) {
        Some(Message::Publish { topic, message }) => {
            assert_eq!(topic, "t");
            assert_eq!(message, "m");
        },
        _ => panic!("expected the same Publish back"),
    }
}

#[test]
fn every_message_kind_round_trips() {
    let cases = vec![
        Message::Ping,
        Message::Pong,
        Message::Consume { topic: "a topic".to_string() },
        Message::Publish { topic: String::new(), message: String::new() },
        Message::Deliver { topic: "t\u{00e9}l\u{00e9}".to_string(), message: "p\u{0430}y".to_string() },
    ];
    for m in cases {
        let bytes = encode_message(&m);
        let back = decode_message(&bytes).expect("decode of an encoding");
        match (&m, &back) {
            (Message::Ping, Message::Ping) => {},
            (Message::Pong, Message::Pong) => {},
            (Message::Consume { topic: t1 }, Message::Consume { topic: t2 }) => {
                assert_eq!(t1, t2)
            },
            (
                Message::Publish { topic: t1, message: m1 },
                Message::Publish { topic: t2, message: m2 },
            ) => {
                assert_eq!(t1, t2);
                assert_eq!(m1, m2);
            },
            (
                Message::Deliver { topic: t1, message: m1 },
                Message::Deliver { topic: t2, message: m2 },
            ) => {
                assert_eq!(t1, t2);
                assert_eq!(m1, m2);
            },
            _ => panic!("kind changed in the round trip"),
        }
    }
}

#[test]
fn decode_rejects_malformed_payloads() {
    assert!(decode_message(&vec![]).is_none());
    // Unknown tag.
    assert!(decode_message(&vec![99]).is_none());
    // A Consume cut off before its length prefix is complete.
    let mut bytes = encode_message(&Message::Consume { topic: "abc".to_string() });
    bytes.truncate(5);
    assert!(decode_message(&bytes).is_none());
    // A field length pointing past the end.
    let mut long = encode_message(&Message::Consume { topic: "abc".to_string() });
    long.truncate(long.len() - 1);
    assert!(decode_message(&long).is_none());
    // Trailing bytes after a complete message.
    let mut trailing = encode_message(&Message::Ping);
    trailing.push(0);
    assert!(decode_message(&trailing).is_none());
    // A field that is not valid UTF-8.
    let mut invalid = vec![3u8]; // Consume
    invalid.extend_from_slice(&2u64.to_le_bytes());
    invalid.extend_from_slice(&[0xff, 0xfe]);
    assert!(decode_message(&invalid).is_none());
}

#[test]
fn decoded_bytes_reencode_to_themselves() {
    // Build a Consume frame by hand: tag, length prefix, UTF-8 bytes.
    let topic = "news";
    let mut bytes = vec![3u8];
    bytes.extend_from_slice(&(topic.len() as u64).to_le_bytes());
    bytes.extend_from_slice(topic.as_bytes());
    let decoded = decode_message(&bytes).expect("a well-formed Consume");
    match &decoded {
        Message::Consume { topic } => assert_eq!(topic, "news"),
        _ => panic!("expected a Consume"),
    }
    assert_eq!(encode_message(&decoded), bytes);
}

#[test]
fn frame_carries_its_payload_length() {
    let m = Message::Publish { topic: "topic".to_string(), message: "some message".to_string() };
    let frame = frame_message(&m);
    let payload = encode_message(&m);
    assert_eq!(frame.len(), 8 + payload.len());
    let header: Vec<u8> = frame[..8].to_vec();
    assert_eq!(frame_payload_len(&header), Some(payload.len() as u64));
    assert_eq!(&frame[8..], &payload[..]);
    assert_eq!(frame_payload_len(&vec![0u8; 7]), None);
}

#[test]
fn socket_address_joins_host_and_port() {
    let config = Config {
        server: ServerConfig {
            host: "localhost".to_string(),
            port: 1234,
            message_buffer_size: 16,
        },
    };
    assert_eq!(config.get_socket_address(), "localhost:1234");
    let edge = Config {
        server: ServerConfig { host: "0.0.0.0".to_string(), port: 0, message_buffer_size: 1 },
    };
    assert_eq!(edge.get_socket_address(), "0.0.0.0:0");
    let max = Config {
        server: ServerConfig { host: "h".to_string(), port: 65535, message_buffer_size: 1 },
    };
    assert_eq!(max.get_socket_address(), "h:65535");
}
