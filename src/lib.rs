//! An MQTT-family broker core: the wire codec for every control packet and
//! the broker's subscription, session and dispatch logic.

pub mod bits;
mod text;
pub mod error;
pub mod constants;
pub mod connect_flag;
pub mod publish_flag;
pub mod return_codes;
pub mod topic_filter;
pub mod payload_connect;
pub mod header;
pub mod control;
pub mod connect;
pub mod publish;
pub mod subscribe;
pub mod suback;
pub mod mqtt_factory;
pub mod wildcard;
pub mod user_qos;
pub mod registry;
pub mod subscriptions;
pub mod store;
pub mod session;
pub mod broker;
pub mod laws;

pub use crate::connect::Connect;
pub use crate::connect_flag::ConnectFlag;
pub use crate::constants::{ConnectAcknowledgeFlags, ConnectReturnCode, PacketType, SubackReturnCode};
pub use crate::control::{Connack, Disconnect, Pingreq, Pingresp, Puback, Unsuback};
pub use crate::error::{Mqtt5ReturnCodes, MqttError};
pub use crate::header::MqttHeader;
pub use crate::payload_connect::PayloadConnect;
pub use crate::publish::Publish;
pub use crate::publish_flag::PublishFlag;
pub use crate::return_codes::ConnectReturnCodes;
pub use crate::suback::Suback;
pub use crate::subscribe::{Subscribe, Unsubscribe};
pub use crate::topic_filter::TopicFilter;
pub use crate::wildcard::WildCard;
pub use crate::user_qos::UserQos;

use crate::connect::{connect_check, connect_decode, connect_wire, ConnectView};
use crate::connect_flag::connect_flag_wf;
use crate::constants::connect_reason_value;
use crate::control::{connack_wire, ConnackView};
use crate::header::{header_decode, MqttHeaderView};
use crate::mqtt_factory::connack_decode;
use crate::payload_connect::{payload_wire, PayloadConnectView, MAX_CLIENT_ID_BYTES, MAX_CONNECT_PAYLOAD};
use crate::publish::{publish_decode, publish_remaining_length, publish_wire, PublishView};
use crate::publish_flag::{publish_flag_qos, publish_flag_wf};
use crate::return_codes::return_code_byte;
use crate::suback::{suback_decode, suback_wire, SubackView, MAX_SUBACK_CODES};
use crate::subscribe::{
    filter_views, filters_decode, filters_wire, subscribe_check, unsubscribe_check, FiltersPacketView,
};
use crate::topic_filter::{
    topic_filter_decode, TopicFilterView, NO_QOS,
};
use vstd::prelude::*;
use vstd::utf8::encode_utf8;

verus! {

/// Reads the fixed header of a frame.
pub fn new_mqtt_header(data: Vec<u8>) -> (r: Result<MqttHeader, Mqtt5ReturnCodes>)
    ensures
        match r {
            Ok(h) => header_decode(data@) == Ok::<MqttHeaderView, Mqtt5ReturnCodes>(h@),
            Err(e) => header_decode(data@) == Err::<MqttHeaderView, Mqtt5ReturnCodes>(e),
        },
{
    MqttHeader::new(data)
}

/// Builds CONNECT flags; both will-QoS bits set is a protocol error.
pub fn new_connect_flag(
    clean_session: Option<bool>,
    will_flag: Option<bool>,
    will_qosb1: Option<bool>,
    will_qosb2: Option<bool>,
    will_retain: Option<bool>,
    password_flag: Option<bool>,
    username_flag: Option<bool>,
) -> (r: Result<ConnectFlag, Mqtt5ReturnCodes>)
    ensures
        (will_qosb1 == Some(true) && will_qosb2 == Some(true)) <==> r is Err,
        r is Err ==> r->Err_0 == Mqtt5ReturnCodes::MqttRcProtocolError,
        r is Ok ==> {
            let v = r->Ok_0@;
            &&& v.clean_session == (clean_session == Some(true))
            &&& v.will_flag == (will_flag == Some(true))
            &&& v.will_qos1 == (will_qosb1 == Some(true))
            &&& v.will_qos2 == (will_qosb2 == Some(true))
            &&& v.will_retain == (will_retain == Some(true))
            &&& v.password_flag == (password_flag == Some(true))
            &&& v.username_flag == (username_flag == Some(true))
            &&& connect_flag_wf(v)
        },
{
    ConnectFlag::new(
        clean_session,
        will_flag,
        will_qosb1,
        will_qosb2,
        will_retain,
        password_flag,
        username_flag,
    )
}

/// Builds a CONNECT payload.
pub fn new_payload_connect(
    client_identifier: String,
    will_topic: String,
    will_message: String,
    username: String,
    password: String,
    keep_alive: u16,
) -> (r: Result<PayloadConnect, Mqtt5ReturnCodes>)
    ensures
        encode_utf8(client_identifier@).len() > MAX_CLIENT_ID_BYTES ==> r == Err::<
            PayloadConnect,
            Mqtt5ReturnCodes,
        >(Mqtt5ReturnCodes::MqttRcProtocolError),
        r is Ok <==> encode_utf8(client_identifier@).len() <= MAX_CLIENT_ID_BYTES && payload_wire(
            client_identifier@,
            will_topic@,
            will_message@,
            username@,
            password@,
            keep_alive,
        ).len() <= MAX_CONNECT_PAYLOAD,
        r is Err && encode_utf8(client_identifier@).len() <= MAX_CLIENT_ID_BYTES ==> r->Err_0
            == Mqtt5ReturnCodes::MqttPacketInvalidSize,
        r is Ok ==> r->Ok_0@ == (PayloadConnectView {
            client_identifier: client_identifier@,
            will_topic: will_topic@,
            will_message: will_message@,
            username: username@,
            password: password@,
            keep_alive,
            data: payload_wire(
                client_identifier@,
                will_topic@,
                will_message@,
                username@,
                password@,
                keep_alive,
            ),
        }),
{
    PayloadConnect::new(client_identifier, will_topic, will_message, username, password, keep_alive)
}

/// Builds a CONNECT from its flags and payload.
pub fn new_connect(connect_flag: ConnectFlag, payload_connect: PayloadConnect) -> (r: Result<
    Connect,
    Mqtt5ReturnCodes,
>)
    ensures
        match connect_check(connect_flag@, payload_connect@) {
            Some(e) => r == Err::<Connect, Mqtt5ReturnCodes>(e),
            None => r is Ok && r->Ok_0@ == (ConnectView {
                flags: connect_flag@,
                payload: payload_connect@,
                data: connect_wire(connect_flag@.byte, payload_connect@.data),
            }),
        },
{
    Connect::new(connect_flag, payload_connect)
}

/// Decodes a CONNECT frame.
pub fn new_connect_by_hex(data: MqttHeader) -> (r: Result<Connect, Mqtt5ReturnCodes>)
    ensures
        match r {
            Ok(c) => connect_decode(data@.data) == Ok::<ConnectView, Mqtt5ReturnCodes>(c@),
            Err(e) => connect_decode(data@.data) == Err::<ConnectView, Mqtt5ReturnCodes>(e),
        },
{
    mqtt_factory::new_connect(data)
}

/// The CONNACK return code for an acceptance or refusal reason.
pub fn new_connect_return_code(reject_reason: ConnectReturnCode) -> (r: ConnectReturnCodes)
    ensures
        r@.reason == connect_reason_value(reject_reason),
        r@.byte == return_code_byte(connect_reason_value(reject_reason)),
        r@.accepted == (reject_reason == ConnectReturnCode::ConnectionAccepted),
{
    ConnectReturnCodes::new(reject_reason)
}

/// Builds a CONNACK.
pub fn new_connack(connect_acknowledge_flags: ConnectAcknowledgeFlags, connect_return_code: ConnectReturnCodes) -> (r:
    Connack)
    ensures
        r@.flags == connect_acknowledge_flags,
        r@.return_codes == connect_return_code@,
        r@.data == connack_wire(connect_acknowledge_flags, connect_return_code@.byte),
{
    Connack::new(connect_acknowledge_flags, connect_return_code)
}

/// Decodes a CONNACK frame.
pub fn new_connack_by_hex(data: MqttHeader) -> (r: Result<Connack, Mqtt5ReturnCodes>)
    ensures
        match r {
            Ok(c) => connack_decode(data@.data) == Ok::<ConnackView, Mqtt5ReturnCodes>(c@),
            Err(e) => connack_decode(data@.data) == Err::<ConnackView, Mqtt5ReturnCodes>(e),
        },
{
    mqtt_factory::new_connack(data)
}

/// Builds PUBLISH flags; both QoS bits set is a protocol error.
pub fn new_publish_packet_flags(
    retain: Option<bool>,
    qosb1: Option<bool>,
    qosb2: Option<bool>,
    dup_flag: Option<bool>,
) -> (r: Result<PublishFlag, Mqtt5ReturnCodes>)
    ensures
        (qosb1 == Some(true) && qosb2 == Some(true)) <==> r is Err,
        r is Err ==> r->Err_0 == Mqtt5ReturnCodes::MqttRcProtocolError,
        r is Ok ==> {
            let v = r->Ok_0@;
            &&& v.retain == (retain == Some(true))
            &&& v.qos1 == (qosb1 == Some(true))
            &&& v.qos2 == (qosb2 == Some(true))
            &&& v.dup_flag == (dup_flag == Some(true))
            &&& publish_flag_wf(v)
        },
{
    PublishFlag::new(retain, qosb1, qosb2, dup_flag)
}

/// A topic filter for `topic`, without a requested QoS.
pub fn new_topic_filter(topic: String) -> (r: Result<TopicFilter, Mqtt5ReturnCodes>)
    ensures
        encode_utf8(topic@).len() < 65536 <==> r is Ok,
        r is Err ==> r->Err_0 == Mqtt5ReturnCodes::MqttPacketInvalidSize,
        r is Ok ==> r->Ok_0@.topic == topic@ && r->Ok_0@.qos == NO_QOS,
{
    TopicFilter::from_topic(topic, None)
}

/// Reads a topic filter from its wire bytes, without a requested QoS.
pub fn new_topic_filter_by_hex(data: Vec<u8>) -> (r: Result<TopicFilter, Mqtt5ReturnCodes>)
    ensures
        data@.len() < 2 ==> r == Err::<TopicFilter, Mqtt5ReturnCodes>(
            Mqtt5ReturnCodes::MqttPacketInvalidSize,
        ),
        data@.len() >= 2 ==> match r {
            Ok(t) => topic_filter_decode(data@[0], data@[1], data@, None) == Ok::<
                TopicFilterView,
                Mqtt5ReturnCodes,
            >(t@),
            Err(e) => topic_filter_decode(data@[0], data@[1], data@, None) == Err::<
                TopicFilterView,
                Mqtt5ReturnCodes,
            >(e),
        },
{
    if data.len() < 2 {
        return Err(Mqtt5ReturnCodes::MqttPacketInvalidSize);
    }
    let msb = data[0];
    let lsb = data[1];
    TopicFilter::new_by_hex(msb, lsb, data, None)
}

/// Reads a topic filter from its wire bytes, with a requested QoS.
pub fn new_topic_filter_with_qos_by_hex(data: Vec<u8>, qos: u8) -> (r: Result<TopicFilter, Mqtt5ReturnCodes>)
    ensures
        data@.len() < 2 ==> r == Err::<TopicFilter, Mqtt5ReturnCodes>(
            Mqtt5ReturnCodes::MqttPacketInvalidSize,
        ),
        data@.len() >= 2 ==> match r {
            Ok(t) => topic_filter_decode(data@[0], data@[1], data@, Some(qos)) == Ok::<
                TopicFilterView,
                Mqtt5ReturnCodes,
            >(t@),
            Err(e) => topic_filter_decode(data@[0], data@[1], data@, Some(qos)) == Err::<
                TopicFilterView,
                Mqtt5ReturnCodes,
            >(e),
        },
{
    if data.len() < 2 {
        return Err(Mqtt5ReturnCodes::MqttPacketInvalidSize);
    }
    let msb = data[0];
    let lsb = data[1];
    TopicFilter::new_by_hex(msb, lsb, data, Some(qos))
}

/// A topic filter for `topic` with a requested QoS (at most 2).
pub fn new_topic_filter_with_qos(topic: String, qos: u8) -> (r: Result<TopicFilter, Mqtt5ReturnCodes>)
    ensures
        encode_utf8(topic@).len() >= 65536 ==> r == Err::<TopicFilter, Mqtt5ReturnCodes>(
            Mqtt5ReturnCodes::MqttPacketInvalidSize,
        ),
        encode_utf8(topic@).len() < 65536 && qos > 2 ==> r == Err::<TopicFilter, Mqtt5ReturnCodes>(
            Mqtt5ReturnCodes::MqttRcProtocolError,
        ),
        encode_utf8(topic@).len() < 65536 && qos <= 2 ==> r is Ok,
        r is Ok ==> r->Ok_0@.topic == topic@ && r->Ok_0@.qos == qos,
{
    TopicFilter::from_topic(topic, Some(qos))
}

/// Builds a PUBLISH.
pub fn new_publish(publish_packet_flags: PublishFlag, publish_topic: TopicFilter, payload: String) -> (r: Result<
    Publish,
    Mqtt5ReturnCodes,
>)
    ensures
        publish_remaining_length(
            publish_flag_qos(publish_packet_flags@),
            publish_topic@.filter,
            encode_utf8(payload@),
        ) > 255 ==> r == Err::<Publish, Mqtt5ReturnCodes>(Mqtt5ReturnCodes::MqttPacketInvalidSize),
        publish_remaining_length(
            publish_flag_qos(publish_packet_flags@),
            publish_topic@.filter,
            encode_utf8(payload@),
        ) <= 255 ==> r is Ok && r->Ok_0@ == (PublishView {
            flags: publish_packet_flags@,
            topic: publish_topic@,
            payload: payload@,
            data: publish_wire(publish_packet_flags@, publish_topic@.filter, encode_utf8(payload@)),
        }),
{
    Publish::new(publish_packet_flags, publish_topic, payload)
}

/// Builds a PUBACK.
pub fn new_puback() -> (r: Puback)
    ensures
        r@ == seq![0x40u8, 2u8, 0u8, 0u8],
{
    Puback::new()
}

/// Decodes a PUBLISH frame.
pub fn new_publish_by_hex(data: MqttHeader) -> (r: Result<Publish, Mqtt5ReturnCodes>)
    ensures
        match r {
            Ok(p) => publish_decode(data@.data) == Ok::<PublishView, Mqtt5ReturnCodes>(p@),
            Err(e) => publish_decode(data@.data) == Err::<PublishView, Mqtt5ReturnCodes>(e),
        },
{
    mqtt_factory::new_publish(data)
}

/// Builds a SUBSCRIBE.
pub fn new_subscribe(topic_filters: Vec<TopicFilter>) -> (r: Result<Subscribe, Mqtt5ReturnCodes>)
    ensures
        match subscribe_check(filter_views(topic_filters@)) {
            Some(e) => r == Err::<Subscribe, Mqtt5ReturnCodes>(e),
            None => r is Ok && r->Ok_0@ == (FiltersPacketView {
                topics: filter_views(topic_filters@),
                data: filters_wire(filter_views(topic_filters@), true),
            }),
        },
{
    let mut topic_filters = topic_filters;
    Subscribe::new(&mut topic_filters)
}

/// Decodes a SUBSCRIBE frame.
pub fn new_subscribe_by_hex(data: MqttHeader) -> (r: Result<Subscribe, Mqtt5ReturnCodes>)
    ensures
        match r {
            Ok(s) => filters_decode(data@.data, true) == Ok::<FiltersPacketView, Mqtt5ReturnCodes>(s@),
            Err(e) => filters_decode(data@.data, true) == Err::<FiltersPacketView, Mqtt5ReturnCodes>(e),
        },
{
    mqtt_factory::new_subscribe(data)
}

/// Builds a SUBACK.
pub fn new_suback(suback_ret_codes: Vec<SubackReturnCode>) -> (r: Suback)
    requires
        suback_ret_codes@.len() <= MAX_SUBACK_CODES,
    ensures
        r@.codes == suback_ret_codes@,
        r@.data == suback_wire(suback_ret_codes@),
{
    Suback::new(suback_ret_codes)
}

/// Decodes a SUBACK frame.
pub fn new_suback_by_hex(data: MqttHeader) -> (r: Result<Suback, Mqtt5ReturnCodes>)
    ensures
        match r {
            Ok(s) => suback_decode(data@.data) == Ok::<SubackView, Mqtt5ReturnCodes>(s@),
            Err(e) => suback_decode(data@.data) == Err::<SubackView, Mqtt5ReturnCodes>(e),
        },
{
    mqtt_factory::new_suback(data)
}

/// Builds an UNSUBSCRIBE.
pub fn new_unsubscribe(topic_filters: Vec<TopicFilter>) -> (r: Result<Unsubscribe, Mqtt5ReturnCodes>)
    ensures
        match unsubscribe_check(filter_views(topic_filters@)) {
            Some(e) => r == Err::<Unsubscribe, Mqtt5ReturnCodes>(e),
            None => r is Ok && r->Ok_0@ == (FiltersPacketView {
                topics: filter_views(topic_filters@),
                data: filters_wire(filter_views(topic_filters@), false),
            }),
        },
{
    let mut topic_filters = topic_filters;
    Unsubscribe::new(&mut topic_filters)
}

/// Decodes an UNSUBSCRIBE frame.
pub fn new_unsubscribe_by_hex(data: MqttHeader) -> (r: Result<Unsubscribe, Mqtt5ReturnCodes>)
    ensures
        match r {
            Ok(s) => filters_decode(data@.data, false) == Ok::<FiltersPacketView, Mqtt5ReturnCodes>(s@),
            Err(e) => filters_decode(data@.data, false) == Err::<FiltersPacketView, Mqtt5ReturnCodes>(e),
        },
{
    mqtt_factory::new_unsubscribe(data)
}

/// Builds an UNSUBACK.
pub fn new_unsuback() -> (r: Unsuback)
    ensures
        r@ == seq![0xB0u8, 2u8, 0u8, 0u8],
{
    Unsuback::new()
}

/// An UNSUBACK read from the wire: it carries nothing.
pub fn new_unsuback_by_hex() -> (r: Unsuback)
    ensures
        r@ == seq![0xB0u8, 2u8, 0u8, 0u8],
{
    mqtt_factory::new_unsuback()
}

/// A PINGRESP read from the wire: it carries nothing.
pub fn new_pingresp_by_hex() -> (r: Pingresp)
    ensures
        r@ == seq![0xD0u8, 0u8],
{
    mqtt_factory::new_pingresp()
}

/// A PINGREQ read from the wire: it carries nothing.
pub fn new_pingreq_by_hex() -> (r: Pingreq)
    ensures
        r@ == seq![0xC0u8, 0u8],
{
    mqtt_factory::new_pingreq()
}

/// Builds a PINGRESP.
pub fn new_pingresp() -> (r: Pingresp)
    ensures
        r@ == seq![0xD0u8, 0u8],
{
    Pingresp::new()
}

/// Builds a PINGREQ.
pub fn new_pingreq() -> (r: Pingreq)
    ensures
        r@ == seq![0xC0u8, 0u8],
{
    Pingreq::new()
}

/// Builds a DISCONNECT.
pub fn new_disconnect() -> (r: Disconnect)
    ensures
        r@ == seq![0xE0u8, 0u8],
{
    Disconnect::new()
}

/// A DISCONNECT read from the wire: it carries nothing.
pub fn new_disconnect_by_hex() -> (r: Disconnect)
    ensures
        r@ == seq![0xE0u8, 0u8],
{
    mqtt_factory::new_disconnect()
}

} // verus!
