use mqtt_broker::constants::{
    LENGTH_LSB_CONNECT, LENGTH_MSB_CONNECT, PACKET_FLAGS_CONNACK, PACKET_FLAGS_CONNECT,
    PROTOCOL_NAME_M, PROTOCOL_NAME_Q, PROTOCOL_NAME_T, PROTOCOL_VERSION,
    REMAINING_LENGTH_CONNACK, SUBACK_PACKET_FLAGS, SUBSCRIBE_PACKET_FLAGS,
    UNSUBSCRIBE_PACKET_FLAGS,
};
use mqtt_broker::mqtt_factory;
use mqtt_broker::{
    Connack, Connect, ConnectAcknowledgeFlags, ConnectFlag, ConnectReturnCode, ConnectReturnCodes,
    Disconnect, MqttHeader, PacketType, PayloadConnect, Pingreq, Pingresp, Puback, Publish,
    PublishFlag, Suback, SubackReturnCode, Subscribe, TopicFilter, Unsuback, Unsubscribe,
};

fn topic_filters_with_qos(filters: Vec<TopicFilter>) -> Vec<u8> {
    let mut ret: Vec<u8> = vec![];
    for filter in filters {
        let mut f: Vec<u8> = filter.get_filter().clone();
        ret.append(&mut f);
        ret.push(filter.get_qos())
    }
    ret
}

fn topic_filters(filters: Vec<TopicFilter>) -> Vec<u8> {
    let mut ret: Vec<u8> = vec![];
    for filter in filters {
        let mut f: Vec<u8> = filter.get_filter().clone();
        ret.append(&mut f);
    }
    ret
}

#[test]
fn create_connect_flag() {
    assert_eq!(
        ConnectFlag::new(None, None, Option::from(true), None, Option::from(true), None, None)
            .ok()
            .unwrap()
            .hex_value(),
        0x28
    );
}

#[test]
fn create_connect_flag_invalid_qos() {
    assert!(ConnectFlag::new(
        None,
        None,
        Option::from(true),
        Option::from(true),
        Option::from(true),
        None,
        None
    )
    .is_err());
}

#[test]
fn create_connect_flag_invalid_qos_hex() {
    assert!(ConnectFlag::new_by_hex(0x1C).is_err());
}

#[test]
fn create_connect_payload() {
    let connect_flag = ConnectFlag::new(
        Option::from(true),
        Option::from(true),
        None,
        None,
        None,
        Option::from(true),
        Option::from(true),
    );
    let payload_connect = PayloadConnect::new(
        "42".to_string(),
        "a topic√±".to_string(),
        "".to_string(),
        "user".to_string(),
        "pass".to_string(),
        60,
    );
    if payload_connect.is_err() {
        panic!("{:?}", payload_connect.err())
    }
    let payload_struct = payload_connect.ok().unwrap().clone();
    let payload = payload_struct.get_data().clone();
    let payload_size = payload.len();
    let connect_flag_struct = connect_flag.ok().unwrap();
    let connect_flag_hex = connect_flag_struct.hex_value();
    let mut vector = vec![
        (PacketType::CONNECT.code() << 4) | PACKET_FLAGS_CONNECT,
        8 + payload_size as u8,
        LENGTH_LSB_CONNECT,
        LENGTH_MSB_CONNECT,
        PROTOCOL_NAME_M,
        PROTOCOL_NAME_Q,
        PROTOCOL_NAME_T,
        PROTOCOL_NAME_T,
        PROTOCOL_VERSION,
        connect_flag_hex,
    ];
    vector.append(&mut payload.clone());
    let connect = Connect::new(connect_flag_struct, payload_struct);
    assert_eq!(connect.ok().unwrap().get_data(), vector.clone())
}

#[test]
fn create_connect_payload_hex() {
    let connect_flag = ConnectFlag::new(
        Option::from(true),
        Option::from(true),
        None,
        None,
        None,
        Option::from(true),
        Option::from(true),
    );
    let payload_connect = PayloadConnect::new(
        "42".to_string(),
        "a topic".to_string(),
        "mess".to_string(),
        "user".to_string(),
        "pass".to_string(),
        60,
    );
    if payload_connect.is_err() {
        panic!("{:?}", payload_connect.err())
    }
    let payload_struct = payload_connect.ok().unwrap().clone();
    let payload = payload_struct.get_data().clone();
    let payload_size = payload.len();
    let connect_flag_struct = connect_flag.ok().unwrap();
    let connect_flag_hex = connect_flag_struct.hex_value();
    let mut vector = vec![
        (PacketType::CONNECT.code() << 4) | PACKET_FLAGS_CONNECT,
        8 + payload_size as u8,
        LENGTH_LSB_CONNECT,
        LENGTH_MSB_CONNECT,
        PROTOCOL_NAME_M,
        PROTOCOL_NAME_Q,
        PROTOCOL_NAME_T,
        PROTOCOL_NAME_T,
        PROTOCOL_VERSION,
        connect_flag_hex,
    ];
    vector.append(&mut payload.clone());
    let connect = mqtt_factory::new_connect(MqttHeader::new(vector.clone()).ok().unwrap());
    assert_eq!(connect.ok().unwrap().get_data(), vector.clone())
}

#[test]
fn create_connack() {
    let connect_return_code = ConnectReturnCodes::new(ConnectReturnCode::ConnectionAccepted);
    let connack = Connack::new(ConnectAcknowledgeFlags::Sp0, connect_return_code);
    assert_eq!(
        connack.get_data(),
        vec![
            (PacketType::CONNACK.code() << 4) | PACKET_FLAGS_CONNACK,
            2,
            ConnectAcknowledgeFlags::Sp0.code(),
            connect_return_code.hex_value()
        ]
    )
}

#[test]
fn is_connect() {
    let header = MqttHeader::new(vec![0x10, 0x0]).ok().unwrap();
    assert_eq!(header.get_control_packet_type().code(), PacketType::CONNECT.code())
}

#[test]
fn is_connack() {
    let header = MqttHeader::new(vec![0x20, 0x0]).ok().unwrap();
    assert_eq!(header.get_control_packet_type().code(), PacketType::CONNACK.code())
}

#[test]
fn create_new_connect() {
    let connect_flag = ConnectFlag::new(Option::from(true), None, None, None, None, None, None);
    let connect_flag_struct = connect_flag.ok().unwrap();
    let connect_flag_hex = connect_flag_struct.hex_value();
    let payload = PayloadConnect::new(
        "42".to_string(),
        "".to_string(),
        "".to_string(),
        "".to_string(),
        "".to_string(),
        60,
    );
    if payload.is_err() {
        panic!("{:?}", payload.err())
    }
    let payload = payload.ok().unwrap();
    let mut data = vec![
        (PacketType::CONNECT.code() << 4) | PACKET_FLAGS_CONNECT,
        8 + payload.get_data().len() as u8,
        LENGTH_LSB_CONNECT,
        LENGTH_MSB_CONNECT,
        PROTOCOL_NAME_M,
        PROTOCOL_NAME_Q,
        PROTOCOL_NAME_T,
        PROTOCOL_NAME_T,
        PROTOCOL_VERSION,
        connect_flag_hex,
    ];
    data.append(&mut payload.get_data().clone());
    let header = MqttHeader::new(data);
    let connect = mqtt_factory::new_connect(header.ok().unwrap()).ok().unwrap();
    let valid_connect = Connect::new(connect_flag_struct, payload.clone());
    assert_eq!(valid_connect.ok().unwrap().get_data(), connect.get_data())
}

#[test]
fn create_new_connack() {
    let header = MqttHeader::new(vec![
        PacketType::CONNACK.code() << 4 | PACKET_FLAGS_CONNACK,
        REMAINING_LENGTH_CONNACK,
        0x0,
        0x0,
    ]);
    let connack = mqtt_factory::new_connack(header.ok().unwrap()).ok().unwrap();
    let connect_return_code = ConnectReturnCodes::new(ConnectReturnCode::ConnectionAccepted);
    let valid_connack = Connack::new(ConnectAcknowledgeFlags::Sp0, connect_return_code);
    assert_eq!(valid_connack.get_data(), connack.get_data());
}

#[test]
fn create_new_publish() {
    let flag = PublishFlag::new(None, Option::from(true), None, None).ok().unwrap();
    let filter = TopicFilter::new(
        0,
        4,
        vec![0, 4, b'a', b'/', b'b', b'y'],
        None,
        "a/by".to_string(),
    )
    .ok()
    .unwrap();
    let valid_publish = Publish::new(flag, filter.clone(), "payloadasd".to_string()).ok().unwrap();
    let mut data = vec![PacketType::PUBLISH.code() << 4 | flag.hex_value(), 18];
    data.append(&mut filter.get_filter().clone());
    data.push(0);
    data.push(0);
    data.append(&mut "payloadasd".to_string().into_bytes());
    let header = MqttHeader::new(data).ok().unwrap();
    let publish = mqtt_factory::new_publish(header).ok().unwrap();
    assert_eq!(publish.get_data(), valid_publish.get_data())
}

#[test]
fn create_new_puback() {
    let valid_puback = Puback::new();
    let puback = Puback::new();
    assert_eq!(puback.get_data(), valid_puback.get_data())
}

#[test]
fn create_new_unsubscribe() {
    let filter = TopicFilter::new(
        0,
        4,
        vec![0, 4, b'a', b'/', b'b', b'y'],
        None,
        "a/by".to_string(),
    )
    .ok()
    .unwrap();
    let mut filters = vec![];
    filters.push(filter.clone());
    filters.push(filter.clone());
    filters.push(filter.clone());
    filters.push(filter.clone());
    let remaining_length: u8 = (4 + 2) * 4 + 2;
    let valid_unsubscribe = Unsubscribe::new(&mut filters).ok().unwrap();
    let mut data = vec![
        PacketType::UNSUSCRIBE.code() << 4 | UNSUBSCRIBE_PACKET_FLAGS,
        remaining_length,
        0,
        0,
    ];
    let mut tp_filters = topic_filters(filters);
    data.append(&mut tp_filters);
    let header = MqttHeader::new(data).ok().unwrap();
    let unsubscribe = mqtt_factory::new_unsubscribe(header).ok().unwrap();
    assert_eq!(unsubscribe.get_data(), valid_unsubscribe.get_data())
}

#[test]
fn create_new_subscribe() {
    let filter = TopicFilter::new(
        0,
        4,
        vec![0, 4, b'a', b'/', b'b', b'y'],
        Option::from(0u8),
        "a/by".to_string(),
    )
    .ok()
    .unwrap();
    let mut filters = vec![];
    filters.push(filter.clone());
    filters.push(filter.clone());
    filters.push(filter.clone());
    filters.push(filter.clone());
    let remaining_length: u8 = (4 + 3) * 4 + 2;
    let valid_subscribe = Subscribe::new(&mut filters).ok().unwrap();
    let mut data = vec![
        PacketType::SUBSCRIBE.code() << 4 | SUBSCRIBE_PACKET_FLAGS,
        remaining_length,
        0,
        0,
    ];
    let mut tp_filters = topic_filters_with_qos(filters);
    data.append(&mut tp_filters);
    let header = MqttHeader::new(data).ok().unwrap();
    let subscribe = mqtt_factory::new_subscribe(header).ok().unwrap();
    assert_eq!(subscribe.get_data(), valid_subscribe.get_data())
}

#[test]
fn create_new_suback() {
    let data = vec![
        PacketType::SUBACK.code() << 4 | SUBACK_PACKET_FLAGS,
        3 * 3,
        0,
        1,
        SubackReturnCode::MaxQoS0.code(),
        0,
        1,
        SubackReturnCode::MaxQoS1.code(),
        0,
        1,
        SubackReturnCode::Failure.code(),
    ];
    let valid_suback = Suback::new(vec![
        SubackReturnCode::MaxQoS0,
        SubackReturnCode::MaxQoS1,
        SubackReturnCode::Failure,
    ]);
    let header = MqttHeader::new(data).ok().unwrap();
    let suback = mqtt_factory::new_suback(header).ok().unwrap();
    assert_eq!(suback.get_data(), valid_suback.get_data())
}

#[test]
fn create_new_unsuback() {
    let valid_unsuback = Unsuback::new();
    let unsuback = mqtt_factory::new_unsuback();
    assert_eq!(unsuback.get_data(), valid_unsuback.get_data())
}

#[test]
fn create_new_pingresp() {
    let valid_pingresp = Pingresp::new();
    let pingresp = mqtt_factory::new_pingresp();
    assert_eq!(pingresp.get_data(), valid_pingresp.get_data())
}

#[test]
fn create_new_pingreq() {
    let valid_pingreq = Pingreq::new();
    let pingreq = mqtt_factory::new_pingreq();
    assert_eq!(pingreq.get_data(), valid_pingreq.get_data())
}

#[test]
fn create_new_disconnect() {
    let valid_disconnect = Disconnect::new();
    let disconnect = mqtt_factory::new_disconnect();
    assert_eq!(disconnect.get_data(), valid_disconnect.get_data())
}

#[test]
fn test_sample_server() {
    assert_eq!(1, 1)
}

#[test]
fn publish_test() {
    let flags = mqtt_broker::new_publish_packet_flags(Option::from(true), Option::from(true), None, None)
        .ok()
        .unwrap();
    let topic = mqtt_broker::new_topic_filter("topic_sample".to_string()).ok().unwrap();
    let flags = flags.hex_value();
    let mut data = vec![PacketType::PUBLISH.code() << 4 | flags, 28];
    data.append(&mut topic.get_filter().clone());
    data.append(&mut "sample message".to_string().into_bytes());
}
