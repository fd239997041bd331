use mqtt_broker::broker::{
    frame_awaits_puback, frame_remaining, packet_action, read_chunk_size, set_flag, Broker, Connection,
    PacketAction, SessionState,
};
use mqtt_broker::mqtt_factory;
use mqtt_broker::subscriptions::{
    remove_duplicates_and_wild_cards, resolve_subscribe, resolve_unsubscribe, wild_card_topics,
};
use mqtt_broker::user_qos::{contains_user, find_userqos, remove_from_qos, replace_qos, suback_ret_code};
use mqtt_broker::{
    new_mqtt_header, new_topic_filter, new_topic_filter_by_hex, Connect, ConnectAcknowledgeFlags,
    ConnectFlag, ConnectReturnCode, ConnectReturnCodes, Mqtt5ReturnCodes, MqttHeader, PacketType,
    PayloadConnect, Publish, PublishFlag, Suback, SubackReturnCode, Subscribe, TopicFilter, UserQos,
    Unsubscribe, WildCard,
};

fn connect_packet(client: &str, clean: bool, will: Option<(&str, &str)>) -> Connect {
    let (wt, wm) = match will {
        Some((t, m)) => (t.to_string(), m.to_string()),
        None => (String::new(), String::new()),
    };
    let flags = ConnectFlag::new(Some(clean), Some(will.is_some()), None, None, None, None, None)
        .ok()
        .unwrap();
    let payload = PayloadConnect::new(client.to_string(), wt, wm, String::new(), String::new(), 10)
        .ok()
        .unwrap();
    Connect::new(flags, payload).ok().unwrap()
}

fn publish_packet(topic: &str, payload: &str, qos1: bool, retain: bool) -> Publish {
    let flags = PublishFlag::new(Some(retain), Some(qos1), None, None).ok().unwrap();
    let filter = new_topic_filter(topic.to_string()).ok().unwrap();
    Publish::new(flags, filter, payload.to_string()).ok().unwrap()
}

fn subscribe_packet(topic: &str, qos: u8) -> Subscribe {
    let mut filters = vec![TopicFilter::from_topic(topic.to_string(), Some(qos)).ok().unwrap()];
    Subscribe::new(&mut filters).ok().unwrap()
}

fn decode_publish(frame: Vec<u8>) -> Publish {
    mqtt_factory::new_publish(MqttHeader::new(frame).ok().unwrap()).ok().unwrap()
}

#[test]
fn wildcard_matches_glob() {
    assert!(WildCard::new("cat*dog").matches("cat_x_dog"));
    assert!(!WildCard::new("cat*dog").matches("cats"));
    assert!(WildCard::new("cat*dog").matches("catdog"));
    assert!(WildCard::new("sensors/*").matches("sensors/temp"));
    assert!(WildCard::new("*").matches(""));
    assert!(WildCard::new("a*b*c").matches("axxbyyc"));
    assert!(!WildCard::new("a*b*c").matches("axxbyy"));
}

#[test]
fn wildcard_literal_matches_only_itself() {
    assert!(WildCard::new("a/b").matches("a/b"));
    assert!(!WildCard::new("a/b").matches("a/bc"));
    assert!(!WildCard::new("a/b").matches("a/"));
    assert!(WildCard::new("").matches(""));
    assert!(!WildCard::new("").matches("x"));
}

#[test]
fn qos_two_flags_are_rejected() {
    assert_eq!(
        PublishFlag::new(None, Some(true), Some(true), None).err(),
        Some(Mqtt5ReturnCodes::MqttRcProtocolError)
    );
    assert_eq!(PublishFlag::new_by_hex(0x06).err(), Some(Mqtt5ReturnCodes::MqttRcProtocolError));
    assert_eq!(
        ConnectFlag::new(None, None, Some(true), Some(true), None, None, None).err(),
        Some(Mqtt5ReturnCodes::MqttRcProtocolError)
    );
    assert_eq!(ConnectFlag::new_by_hex(0x18).err(), Some(Mqtt5ReturnCodes::MqttRcProtocolError));
    assert_eq!(ConnectFlag::new_by_hex(0x01).err(), Some(Mqtt5ReturnCodes::MqttRcProtocolError));
}

#[test]
fn flags_round_trip() {
    let f = ConnectFlag::new(Some(true), Some(true), Some(true), None, Some(true), Some(true), Some(true))
        .ok()
        .unwrap();
    assert_eq!(f.hex_value(), 0xEE);
    let g = ConnectFlag::new_by_hex(f.hex_value()).ok().unwrap();
    assert!(g.get_clean_session() && g.get_will_flag() && g.get_will_qos1() && !g.get_will_qos2());
    assert!(g.get_will_retain() && g.get_password_flag() && g.get_username_flag());
    let p = PublishFlag::new(Some(true), None, Some(true), Some(true)).ok().unwrap();
    assert_eq!(p.hex_value(), 0x0D);
    let q = PublishFlag::new_by_hex(0x3D).ok().unwrap();
    assert!(q.get_retain());
    assert_eq!(q.get_qos(), 2);
    assert_eq!(q.hex_value(), 0x0D);
}

#[test]
fn set_qos_updates_flags() {
    let mut p = PublishFlag::new(Some(true), None, None, None).ok().unwrap();
    assert_eq!(p.set_qos(1).hex_value(), 0x03);
    assert_eq!(p.get_qos(), 1);
    assert_eq!(p.set_qos(0).hex_value(), 0x01);
    assert_eq!(p.set_qos(7).hex_value(), 0x01);
}

#[test]
fn return_codes_bytes() {
    assert_eq!(ConnectReturnCodes::new(ConnectReturnCode::BadUserNameOrPassword).hex_value(), 0x14);
    assert_eq!(ConnectReturnCodes::new(ConnectReturnCode::CloseConnection).hex_value(), 0x16);
    let c = ConnectReturnCodes::new_by_hex(0x12);
    assert!(!c.is_accepted());
    assert_eq!(c.get_reason(), 2);
    assert!(ConnectReturnCodes::new_by_hex(0).is_accepted());
}

#[test]
fn connect_round_trip() {
    let flags = ConnectFlag::new(Some(false), Some(true), Some(true), None, Some(true), Some(true), Some(true))
        .ok()
        .unwrap();
    let payload = PayloadConnect::new(
        "client-1".to_string(),
        "status/X".to_string(),
        "offline".to_string(),
        "user".to_string(),
        "secret".to_string(),
        300,
    )
    .ok()
    .unwrap();
    let connect = Connect::new(flags, payload).ok().unwrap();
    let decoded = mqtt_factory::new_connect(MqttHeader::new(connect.get_data()).ok().unwrap())
        .ok()
        .unwrap();
    let p = decoded.get_payload();
    assert_eq!(p.get_client_identifier(), "client-1");
    assert_eq!(p.get_will_topic(), "status/X");
    assert_eq!(p.get_will_message(), "offline");
    assert_eq!(p.get_username(), "user");
    assert_eq!(p.get_password(), "secret");
    assert_eq!(p.get_keep_alive(), 300);
    assert_eq!(decoded.get_connect_flags().hex_value(), flags.hex_value());
}

#[test]
fn connect_encode_errors() {
    let no_clean = ConnectFlag::new(None, None, None, None, None, None, None).ok().unwrap();
    let empty_id = PayloadConnect::new(String::new(), String::new(), String::new(), String::new(), String::new(), 0)
        .ok()
        .unwrap();
    assert_eq!(Connect::new(no_clean, empty_id).err(), Some(Mqtt5ReturnCodes::MqttRcProtocolError));
    let will_without_flag =
        PayloadConnect::new("c".to_string(), "t".to_string(), "m".to_string(), String::new(), String::new(), 0)
            .ok()
            .unwrap();
    assert_eq!(
        Connect::new(no_clean, will_without_flag).err(),
        Some(Mqtt5ReturnCodes::MqttRcProtocolError)
    );
    let user_without_flag =
        PayloadConnect::new("c".to_string(), String::new(), String::new(), "u".to_string(), String::new(), 0)
            .ok()
            .unwrap();
    assert_eq!(
        Connect::new(no_clean, user_without_flag).err(),
        Some(Mqtt5ReturnCodes::MqttRcProtocolError)
    );
    let long_id = PayloadConnect::new("x".repeat(26), String::new(), String::new(), String::new(), String::new(), 0);
    assert_eq!(long_id.err(), Some(Mqtt5ReturnCodes::MqttRcProtocolError));
    let too_long = PayloadConnect::new("c".to_string(), String::new(), String::new(), "u".repeat(250), String::new(), 0);
    assert_eq!(too_long.err(), Some(Mqtt5ReturnCodes::MqttPacketInvalidSize));
}

#[test]
fn connect_decode_size_mismatch() {
    let header = MqttHeader::new(vec![0x10, 20, 4, 0]).ok().unwrap();
    assert_eq!(mqtt_factory::new_connect(header).err(), Some(Mqtt5ReturnCodes::MqttPacketInvalidSize));
}

#[test]
fn header_rejects_unknown_kind() {
    assert_eq!(MqttHeader::new(vec![0x00, 0x00]).err(), Some(Mqtt5ReturnCodes::MqttRcProtocolError));
    assert_eq!(MqttHeader::new(vec![0xF0, 0x00]).err(), Some(Mqtt5ReturnCodes::MqttRcProtocolError));
    assert_eq!(MqttHeader::new(vec![0x30]).err(), Some(Mqtt5ReturnCodes::MqttRcProtocolError));
    let h = new_mqtt_header(vec![0xE0, 0]).ok().unwrap();
    assert_eq!(h.get_control_packet_type(), PacketType::DISCONNECT);
    assert_eq!(h.get_remaining_length(), 0);
}

#[test]
fn publish_round_trip_and_length() {
    let p = publish_packet("a/b", "hello", true, true);
    let data = p.get_data();
    assert_eq!(data[1] as usize, 5 + 2 + 5);
    assert_eq!(data.len(), 14);
    let q = decode_publish(data.clone());
    assert_eq!(q.get_topic().get_topic(), "a/b");
    assert_eq!(q.get_payload(), "hello");
    assert_eq!(q.get_flags().get_qos(), 1);
    assert!(q.get_flags().get_retain());
    assert_eq!(q.get_data(), data);
    let qos0_publish = publish_packet("a/b", "hello", false, false);
    assert_eq!(qos0_publish.get_data()[1], 10);
}

#[test]
fn publish_too_long_is_rejected() {
    let flags = PublishFlag::new(None, None, None, None).ok().unwrap();
    let filter = new_topic_filter("t".to_string()).ok().unwrap();
    assert_eq!(
        Publish::new(flags, filter, "x".repeat(253)).err(),
        Some(Mqtt5ReturnCodes::MqttPacketInvalidSize)
    );
}

#[test]
fn publish_decode_errors() {
    let bad_size = MqttHeader::new(vec![0x30, 9, 0, 1, b'a']).ok().unwrap();
    assert_eq!(mqtt_factory::new_publish(bad_size).err(), Some(Mqtt5ReturnCodes::MqttPacketInvalidSize));
    let bad_qos = MqttHeader::new(vec![0x36, 3, 0, 1, b'a']).ok().unwrap();
    assert_eq!(mqtt_factory::new_publish(bad_qos).err(), Some(Mqtt5ReturnCodes::MqttRcProtocolError));
    let bad_topic = MqttHeader::new(vec![0x30, 3, 0, 1, 0xFF]).ok().unwrap();
    assert_eq!(mqtt_factory::new_publish(bad_topic).err(), Some(Mqtt5ReturnCodes::MqttRcTopicFilterInvalid));
}

#[test]
fn topic_filter_checks() {
    let t = new_topic_filter_by_hex(vec![0, 3, 0xC3, 0xB1, b'x']).ok().unwrap();
    assert_eq!(t.get_topic(), "ñx");
    assert_eq!(t.get_length(), 3);
    assert_eq!(
        new_topic_filter_by_hex(vec![0, 2, 0xFF, 0xFE]).err(),
        Some(Mqtt5ReturnCodes::MqttRcTopicFilterInvalid)
    );
    assert_eq!(new_topic_filter_by_hex(vec![0, 5, b'a']).err(), Some(Mqtt5ReturnCodes::MqttPacketInvalidSize));
    assert_eq!(
        TopicFilter::new(0, 1, vec![0, 1, b'a'], None, "b".to_string()).err(),
        Some(Mqtt5ReturnCodes::MqttRcTopicNameInvalid)
    );
    assert_eq!(
        TopicFilter::new(0, 1, vec![0, 1, b'a'], Some(3), "a".to_string()).err(),
        Some(Mqtt5ReturnCodes::MqttRcProtocolError)
    );
    assert_eq!(new_topic_filter("ñ".to_string()).ok().unwrap().get_filter().clone(), vec![0, 2, 0xC3, 0xB1]);
}

#[test]
fn subscribe_encode_errors() {
    let mut empty: Vec<TopicFilter> = vec![];
    assert_eq!(Subscribe::new(&mut empty).err(), Some(Mqtt5ReturnCodes::MqttRcProtocolError));
    let mut high = vec![TopicFilter::from_topic("a".to_string(), Some(2)).ok().unwrap()];
    assert_eq!(Subscribe::new(&mut high).err(), Some(Mqtt5ReturnCodes::MqttRcProtocolError));
    let mut empty_unsub: Vec<TopicFilter> = vec![];
    assert_eq!(Unsubscribe::new(&mut empty_unsub).err(), Some(Mqtt5ReturnCodes::MqttRcProtocolError));
    let mut big: Vec<TopicFilter> = vec![];
    for _ in 0..3 {
        big.push(TopicFilter::from_topic("x".repeat(100), Some(0)).ok().unwrap());
    }
    assert_eq!(Subscribe::new(&mut big).err(), Some(Mqtt5ReturnCodes::MqttPacketInvalidSize));
}

#[test]
fn subscribe_round_trip() {
    let mut filters = vec![
        TopicFilter::from_topic("a/b".to_string(), Some(1)).ok().unwrap(),
        TopicFilter::from_topic("c".to_string(), Some(0)).ok().unwrap(),
    ];
    let s = Subscribe::new(&mut filters).ok().unwrap();
    assert_eq!(s.get_data(), vec![0x82, 12, 0, 0, 0, 3, b'a', b'/', b'b', 1, 0, 1, b'c', 0]);
    let d = mqtt_factory::new_subscribe(MqttHeader::new(s.get_data()).ok().unwrap()).ok().unwrap();
    let topics = d.get_topics();
    assert_eq!(topics.len(), 2);
    assert_eq!(topics[0].get_topic(), "a/b");
    assert_eq!(topics[0].get_qos(), 1);
    assert_eq!(topics[1].get_topic(), "c");
    let u = Unsubscribe::new(&mut filters).ok().unwrap();
    assert_eq!(u.get_data(), vec![0xA2, 10, 0, 0, 0, 3, b'a', b'/', b'b', 0, 1, b'c']);
    let d = mqtt_factory::new_unsubscribe(MqttHeader::new(u.get_data()).ok().unwrap()).ok().unwrap();
    assert_eq!(d.get_topic_filters()[1].get_topic(), "c");
}

#[test]
fn suback_decode_rejects_other_codes() {
    let header = MqttHeader::new(vec![0x90, 3, 0, 0, 2]).ok().unwrap();
    assert_eq!(mqtt_factory::new_suback(header).err(), Some(Mqtt5ReturnCodes::MqttRcProtocolError));
    let header = MqttHeader::new(vec![0x90, 2, 0, 0]).ok().unwrap();
    assert_eq!(mqtt_factory::new_suback(header).err(), Some(Mqtt5ReturnCodes::MqttPacketInvalidSize));
    let s = Suback::new(vec![SubackReturnCode::MaxQoS1]);
    assert_eq!(s.get_data(), vec![0x90, 3, 0, 0, 1]);
    let d = mqtt_factory::new_suback(MqttHeader::new(s.get_data()).ok().unwrap()).ok().unwrap();
    assert_eq!(d.get_return_codes(), vec![SubackReturnCode::MaxQoS1]);
}

#[test]
fn connack_round_trip() {
    let c = mqtt_broker::new_connack(
        ConnectAcknowledgeFlags::Sp1,
        ConnectReturnCodes::new(ConnectReturnCode::IdentifierRejected),
    );
    assert_eq!(c.get_data(), vec![0x20, 2, 1, 0x12]);
    let d = mqtt_factory::new_connack(MqttHeader::new(c.get_data()).ok().unwrap()).ok().unwrap();
    assert_eq!(d.get_connect_acknowledge_flags(), ConnectAcknowledgeFlags::Sp1);
    assert_eq!(d.get_connect_return_codes().get_reason(), 2);
    let short = MqttHeader::new(vec![0x20, 1, 0]).ok().unwrap();
    assert_eq!(mqtt_factory::new_connack(short).err(), Some(Mqtt5ReturnCodes::MqttRcProtocolError));
}

#[test]
fn user_qos_list_operations() {
    let list = vec![UserQos::new("a".to_string(), 0), UserQos::new("b".to_string(), 1)];
    assert!(contains_user(&list, &"b".to_string()));
    assert!(!contains_user(&list, &"c".to_string()));
    let replaced = replace_qos(list, "a".to_string(), 1);
    assert_eq!(replaced[0].get_qos(), 1);
    assert_eq!(find_userqos(&replaced, &"b".to_string()).ok().unwrap().get_qos(), 1);
    assert_eq!(find_userqos(&replaced, &"z".to_string()).err(), Some(false));
    let target = UserQos::new("a".to_string(), 1);
    let removed = remove_from_qos(replaced, &target);
    assert_eq!(removed.len(), 1);
    assert_eq!(removed[0].get_user(), "b");
    assert_eq!(suback_ret_code(0), SubackReturnCode::MaxQoS0);
    assert_eq!(suback_ret_code(1), SubackReturnCode::MaxQoS1);
    assert_eq!(suback_ret_code(2), SubackReturnCode::Failure);
}

#[test]
fn subscription_is_idempotent() {
    let mut broker = Broker::new();
    broker.subscriptions.ensure_topic(&"t".to_string());
    let a = "a".to_string();
    let out = resolve_subscribe(&mut broker.subscriptions, &subscribe_packet("t", 0), &a);
    assert_eq!(out.return_codes, vec![SubackReturnCode::MaxQoS0]);
    assert_eq!(out.new_topics, vec!["t".to_string()]);
    let out = resolve_subscribe(&mut broker.subscriptions, &subscribe_packet("t", 1), &a);
    assert_eq!(out.return_codes, vec![SubackReturnCode::MaxQoS1]);
    assert!(out.new_topics.is_empty());
    let subs = broker.subscriptions.subscribers_of(&"t".to_string());
    assert_eq!(subs.len(), 1);
    assert_eq!(subs[0].get_qos(), 1);
}

#[test]
fn subscribe_to_unknown_topic_fails() {
    let mut broker = Broker::new();
    let out = resolve_subscribe(&mut broker.subscriptions, &subscribe_packet("nowhere", 0), &"a".to_string());
    assert_eq!(out.return_codes, vec![SubackReturnCode::Failure]);
    assert!(broker.subscriptions.subscribers_of(&"nowhere".to_string()).is_empty());
}

#[test]
fn wildcard_expansion_and_dedup() {
    let mut broker = Broker::new();
    for t in ["s/a", "s/b", "x"] {
        broker.subscriptions.ensure_topic(&t.to_string());
    }
    let found = wild_card_topics("s/*".to_string(), &broker.subscriptions, 1);
    assert_eq!(found.len(), 2);
    assert_eq!(found[0].get_topic(), "s/a");
    assert_eq!(found[1].get_qos(), 1);
    let mut all = vec![TopicFilter::from_topic("s/*".to_string(), Some(0)).ok().unwrap()];
    all.push(TopicFilter::from_topic("x".to_string(), Some(0)).ok().unwrap());
    all.push(TopicFilter::from_topic("x".to_string(), Some(1)).ok().unwrap());
    let unique = remove_duplicates_and_wild_cards(all);
    assert_eq!(unique.len(), 1);
    assert_eq!(unique[0].get_qos(), 0);
    let out = resolve_subscribe(&mut broker.subscriptions, &subscribe_packet("s/*", 1), &"c".to_string());
    assert_eq!(out.return_codes, vec![SubackReturnCode::MaxQoS1, SubackReturnCode::MaxQoS1]);
    let mut filters = vec![TopicFilter::from_topic("s/*".to_string(), None).ok().unwrap()];
    let unsub = Unsubscribe::new(&mut filters).ok().unwrap();
    let left = resolve_unsubscribe(&mut broker.subscriptions, &unsub, &"c".to_string());
    assert_eq!(left, vec!["s/a".to_string(), "s/b".to_string()]);
    assert!(broker.subscriptions.subscribers_of(&"s/a".to_string()).is_empty());
}

#[test]
fn retained_replay_on_subscribe() {
    let mut broker = Broker::new();
    let p = publish_packet("T", "kept", false, true);
    assert!(!broker.accept_publish(&p));
    let second = publish_packet("T", "also", true, true);
    assert!(broker.accept_publish(&second));
    let client = "newcomer".to_string();
    let out = resolve_subscribe(&mut broker.subscriptions, &subscribe_packet("T", 1), &client);
    assert_eq!(out.new_topics, vec!["T".to_string()]);
    let frames = broker.retained_publishes(&"T".to_string(), &client).ok().unwrap();
    assert_eq!(frames.len(), 2);
    let first = decode_publish(frames[0].clone());
    assert_eq!(first.get_payload(), "kept");
    assert_eq!(first.get_flags().get_qos(), 1);
    assert_eq!(decode_publish(frames[1].clone()).get_payload(), "also");
    let none = broker.retained_publishes(&"T".to_string(), &"other".to_string()).ok().unwrap();
    assert!(none.is_empty());
}

#[test]
fn offline_queue_is_replayed_and_cleared() {
    let mut broker = Broker::new();
    let first = broker.resolve_connect(&connect_packet("sub", true, None), 1);
    assert!(first.accepted);
    broker.subscriptions.ensure_topic(&"q".to_string());
    let _ = resolve_subscribe(&mut broker.subscriptions, &subscribe_packet("q", 1), &"sub".to_string());
    let p = publish_packet("q", "while away", true, false);
    let deliveries = broker.dispatch(&p, &vec![]);
    assert!(deliveries.is_empty());
    let back = broker.resolve_connect(&connect_packet("sub", false, None), 2);
    assert!(back.accepted);
    assert_eq!(back.acknowledge_flags, ConnectAcknowledgeFlags::Sp1);
    assert_eq!(back.queued.len(), 1);
    let replay = decode_publish(back.queued[0].clone());
    assert_eq!(replay.get_payload(), "while away");
    assert_eq!(replay.get_flags().get_qos(), 1);
    let again = broker.resolve_connect(&connect_packet("sub", false, None), 3);
    assert!(again.queued.is_empty());
}

#[test]
fn unknown_client_without_clean_session_is_rejected() {
    let mut broker = Broker::new();
    let out = broker.resolve_connect(&connect_packet("ghost", false, None), 1);
    assert!(!out.accepted);
    assert_eq!(out.return_code, ConnectReturnCode::IdentifierRejected);
    assert_eq!(out.acknowledge_flags, ConnectAcknowledgeFlags::Sp0);
    assert_eq!(out.read_timeout_secs, 15);
}

#[test]
fn credentials_are_checked() {
    let mut broker = Broker::new();
    broker.credentials.add("user".to_string(), "pw".to_string());
    let flags = ConnectFlag::new(Some(true), None, None, None, None, Some(true), Some(true)).ok().unwrap();
    let good = PayloadConnect::new("c".to_string(), String::new(), String::new(), "user".to_string(), "pw".to_string(), 0)
        .ok()
        .unwrap();
    let bad = PayloadConnect::new("c".to_string(), String::new(), String::new(), "user".to_string(), "no".to_string(), 0)
        .ok()
        .unwrap();
    let out = broker.resolve_connect(&Connect::new(flags, bad).ok().unwrap(), 1);
    assert_eq!(out.return_code, ConnectReturnCode::BadUserNameOrPassword);
    assert!(!out.accepted);
    let out = broker.resolve_connect(&Connect::new(flags, good).ok().unwrap(), 1);
    assert_eq!(out.return_code, ConnectReturnCode::ConnectionAccepted);
    assert_eq!(out.client, "c");
    let pw_only = ConnectFlag::new(Some(true), None, None, None, None, Some(true), None).ok().unwrap();
    let p = PayloadConnect::new("d".to_string(), String::new(), String::new(), String::new(), "pw".to_string(), 0)
        .ok()
        .unwrap();
    let out = broker.resolve_connect(&Connect::new(pw_only, p).ok().unwrap(), 2);
    assert_eq!(out.return_code, ConnectReturnCode::InvalidProtocol);
}

#[test]
fn end_to_end_sensor_reading() {
    let mut broker = Broker::new();
    let a = broker.resolve_connect(&connect_packet("A", true, None), 1);
    let b = broker.resolve_connect(&connect_packet("B", true, None), 2);
    assert!(a.accepted && b.accepted);
    let warmup = publish_packet("sensors/temp", "20.0", false, false);
    broker.accept_publish(&warmup);
    let out = resolve_subscribe(&mut broker.subscriptions, &subscribe_packet("sensors/*", 0), &"A".to_string());
    assert_eq!(out.return_codes, vec![SubackReturnCode::MaxQoS0]);
    let p = publish_packet("sensors/temp", "21.5", false, false);
    assert!(!broker.accept_publish(&p));
    let live = vec![
        Connection { conn: 1, client: "A".to_string() },
        Connection { conn: 2, client: "B".to_string() },
    ];
    let deliveries = broker.dispatch(&p, &live);
    assert_eq!(deliveries.len(), 1);
    assert_eq!(deliveries[0].conn, 1);
    assert!(!deliveries[0].await_puback);
    let got = decode_publish(deliveries[0].frame.clone());
    assert_eq!(got.get_topic().get_topic(), "sensors/temp");
    assert_eq!(got.get_payload(), "21.5");
}

#[test]
fn qos_is_downgraded_for_qos_zero_subscriber() {
    let mut broker = Broker::new();
    broker.subscriptions.ensure_topic(&"d".to_string());
    let _ = resolve_subscribe(&mut broker.subscriptions, &subscribe_packet("d", 0), &"s0".to_string());
    let _ = resolve_subscribe(&mut broker.subscriptions, &subscribe_packet("d", 1), &"s1".to_string());
    let p = publish_packet("d", "m", true, false);
    let live = vec![
        Connection { conn: 7, client: "s0".to_string() },
        Connection { conn: 8, client: "s1".to_string() },
    ];
    let deliveries = broker.dispatch(&p, &live);
    assert_eq!(deliveries.len(), 2);
    assert_eq!(decode_publish(deliveries[0].frame.clone()).get_flags().get_qos(), 0);
    assert!(!deliveries[0].await_puback);
    assert_eq!(deliveries[1].frame, p.get_data());
    assert!(deliveries[1].await_puback);
}

#[test]
fn last_will_reaches_subscriber() {
    let mut broker = Broker::new();
    let c = connect_packet("X", true, Some(("status/X", "offline")));
    let out = broker.resolve_connect(&c, 1);
    assert!(out.accepted);
    let will = broker.handle_last_will(&c);
    assert!(!will.is_empty());
    let _ = resolve_subscribe(&mut broker.subscriptions, &subscribe_packet("status/X", 0), &"W".to_string());
    let p = broker.resolve_last_will(will).unwrap();
    let deliveries = broker.dispatch(&p, &vec![Connection { conn: 2, client: "W".to_string() }]);
    assert_eq!(deliveries.len(), 1);
    assert_eq!(decode_publish(deliveries[0].frame.clone()).get_payload(), "offline");
    let plain = connect_packet("Y", true, None);
    assert!(broker.handle_last_will(&plain).is_empty());
    assert!(broker.resolve_last_will(vec![]).is_none());
}

#[test]
fn frame_reader_helpers() {
    assert_eq!(frame_remaining(&vec![0, 0]).err(), Some(Mqtt5ReturnCodes::MqttRcUnspecified));
    assert_eq!(frame_remaining(&vec![0x30, 17]).ok(), Some(17));
    assert_eq!(frame_remaining(&vec![0xF0, 1]).err(), Some(Mqtt5ReturnCodes::MqttRcProtocolError));
    assert_eq!(read_chunk_size(5000), 1024);
    assert_eq!(read_chunk_size(12), 12);
    assert_eq!(set_flag(1).ok().unwrap().hex_value(), 0x02);
    assert_eq!(set_flag(2).err(), Some(Mqtt5ReturnCodes::MqttRcTopicFilterInvalid));
    assert_eq!(Mqtt5ReturnCodes::MqttPacketInvalidSize.code(), 149);
}

#[test]
fn packet_actions_follow_session_state() {
    assert_eq!(packet_action(SessionState::Unauthenticated, PacketType::PUBLISH), PacketAction::CloseNotAuthorized);
    assert_eq!(packet_action(SessionState::Unauthenticated, PacketType::CONNECT), PacketAction::HandleConnect);
    assert_eq!(packet_action(SessionState::Connected, PacketType::SUBSCRIBE), PacketAction::HandleSubscribe);
    assert_eq!(packet_action(SessionState::Connected, PacketType::PINGREQ), PacketAction::SendPingresp);
    assert_eq!(packet_action(SessionState::Connected, PacketType::DISCONNECT), PacketAction::CloseGracefully);
    assert_eq!(packet_action(SessionState::Connected, PacketType::PUBREC), PacketAction::Ignore);
}

#[test]
fn queued_frame_acknowledgement() {
    assert!(frame_awaits_puback(&publish_packet("t", "m", true, false).get_data()));
    assert!(!frame_awaits_puback(&publish_packet("t", "m", false, false).get_data()));
    assert!(!frame_awaits_puback(&vec![0x30]));
}

#[test]
fn user_qos_equality() {
    assert!(UserQos::new("a".to_string(), 1) == UserQos::new("a".to_string(), 1));
    assert!(UserQos::new("a".to_string(), 1) != UserQos::new("a".to_string(), 0));
    assert!(UserQos::new("a".to_string(), 1) != UserQos::new("b".to_string(), 1));
}

#[test]
fn refused_clean_session_still_tears_down() {
    let mut broker = Broker::new();
    broker.credentials.add("user".to_string(), "pw".to_string());
    assert!(broker.resolve_connect(&connect_packet("c", true, None), 1).accepted);
    broker.subscriptions.ensure_topic(&"t".to_string());
    let _ = resolve_subscribe(&mut broker.subscriptions, &subscribe_packet("t", 1), &"c".to_string());
    let _ = broker.dispatch(&publish_packet("t", "m", true, false), &vec![]);
    let flags = ConnectFlag::new(Some(true), None, None, None, None, Some(true), Some(true)).ok().unwrap();
    let bad = PayloadConnect::new("c".to_string(), String::new(), String::new(), "user".to_string(), "no".to_string(), 0)
        .ok()
        .unwrap();
    let out = broker.resolve_connect(&Connect::new(flags, bad).ok().unwrap(), 2);
    assert!(!out.accepted);
    assert_eq!(out.return_code, ConnectReturnCode::BadUserNameOrPassword);
    assert!(broker.subscriptions.subscribers_of(&"t".to_string()).is_empty());
    assert!(broker.queues.queued_for(&"c".to_string()).is_empty());
    assert_eq!(broker.sessions.client_of(1), Some("c".to_string()));
    assert_eq!(broker.sessions.client_of(2), None);
}

#[test]
fn retained_message_too_long_for_qos1_is_skipped() {
    let mut broker = Broker::new();
    broker.accept_publish(&publish_packet("T", &"x".repeat(252), false, true));
    broker.accept_publish(&publish_packet("T", "short", false, true));
    let client = "s".to_string();
    let _ = resolve_subscribe(&mut broker.subscriptions, &subscribe_packet("T", 1), &client);
    let frames = broker.retained_publishes(&"T".to_string(), &client).ok().unwrap();
    assert_eq!(frames.len(), 1);
    assert_eq!(decode_publish(frames[0].clone()).get_payload(), "short");
}
