//! The PUBLISH packet.

use crate::error::Mqtt5ReturnCodes;
use crate::header::MqttHeader;
use crate::publish_flag::{
    lemma_publish_flag_round_trip, publish_flag_byte, publish_flag_decode, publish_flag_qos,
    publish_flag_wf, PublishFlag, PublishFlagView,
};
use crate::text::{copy_bytes, copy_string, push_all, slice_bytes, string_bytes, string_from_utf8};
use crate::topic_filter::{
    lemma_topic_wire, lemma_topic_wire_decode, topic_filter_decode, topic_filter_wf, TopicFilter, TopicFilterView, NO_QOS,
};
use vstd::prelude::*;
use vstd::utf8::{decode_utf8, encode_utf8, valid_utf8};

verus! {

/// What a PUBLISH holds.
pub struct PublishView {
    pub flags: PublishFlagView,
    pub topic: TopicFilterView,
    pub payload: Seq<char>,
    pub data: Seq<u8>,
}

/// The bytes between the topic and the message: a zero packet identifier
/// for QoS 1, nothing otherwise.
pub open spec fn packet_id_wire(qos: u8) -> Seq<u8> {
    if qos == 1 {
        seq![0u8, 0u8]
    } else {
        Seq::empty()
    }
}

/// The remaining length of a PUBLISH: topic with its prefix, packet
/// identifier for QoS 1, and the message.
pub open spec fn publish_remaining_length(qos: u8, filter: Seq<u8>, message: Seq<u8>) -> int {
    filter.len() + packet_id_wire(qos).len() + message.len() as int
}

/// The PUBLISH frame.
pub open spec fn publish_wire(flags: PublishFlagView, filter: Seq<u8>, message: Seq<u8>) -> Seq<u8> {
    seq![
        (0x30 + flags.byte) as u8,
        publish_remaining_length(publish_flag_qos(flags), filter, message) as u8,
    ] + filter + packet_id_wire(publish_flag_qos(flags)) + message
}

/// What decoding a PUBLISH frame yields. The packet identifier of a QoS 1
/// message is skipped, and the message must be UTF-8.
pub open spec fn publish_decode(d: Seq<u8>) -> Result<PublishView, Mqtt5ReturnCodes> {
    if d.len() <= 2 || d[1] + 2 != d.len() {
        Err(Mqtt5ReturnCodes::MqttPacketInvalidSize)
    } else {
        match publish_flag_decode(d[0] % 16) {
            Err(e) => Err(e),
            Ok(f) => if d.len() < 4 || 4 + d[2] * 256 + d[3] > d.len() {
                Err(Mqtt5ReturnCodes::MqttPacketInvalidSize)
            } else {
                let tend = 4 + d[2] * 256 + d[3];
                match topic_filter_decode(d[2], d[3], d.subrange(2, tend), None) {
                    Err(e) => Err(e),
                    Ok(t) => {
                        let pstart = tend + packet_id_wire(publish_flag_qos(f)).len();
                        if pstart > d.len() {
                            Err(Mqtt5ReturnCodes::MqttPacketInvalidSize)
                        } else if !valid_utf8(d.subrange(pstart, d.len() as int)) {
                            Err(Mqtt5ReturnCodes::MqttRcProtocolError)
                        } else {
                            let m = decode_utf8(d.subrange(pstart, d.len() as int));
                            Ok(
                                PublishView {
                                    flags: f,
                                    topic: t,
                                    payload: m,
                                    data: publish_wire(f, t.filter, encode_utf8(m)),
                                },
                            )
                        }
                    },
                }
            },
        }
    }
}

/// A PUBLISH packet.
pub struct Publish {
    publish_packet_flags: PublishFlag,
    topic_filter: TopicFilter,
    payload: String,
    data: Vec<u8>,
}

impl View for Publish {
    type V = PublishView;

    closed spec fn view(&self) -> PublishView {
        PublishView {
            flags: self.publish_packet_flags@,
            topic: self.topic_filter@,
            payload: self.payload@,
            data: self.data@,
        }
    }
}

impl Clone for Publish {
    fn clone(&self) -> (r: Self)
        ensures
            r@ == self@,
    {
        proof {
            use_type_invariant(self);
        }
        Publish {
            publish_packet_flags: self.publish_packet_flags,
            topic_filter: self.topic_filter.clone(),
            payload: copy_string(&self.payload),
            data: copy_bytes(&self.data),
        }
    }
}

/// A well-formed PUBLISH.
pub open spec fn publish_wf(v: PublishView) -> bool {
    &&& publish_flag_wf(v.flags)
    &&& topic_filter_wf(v.topic)
    &&& publish_remaining_length(publish_flag_qos(v.flags), v.topic.filter, encode_utf8(v.payload))
        <= 255
    &&& v.data == publish_wire(v.flags, v.topic.filter, encode_utf8(v.payload))
}

/// Decoding a well-formed PUBLISH gives its flags, topic and message back;
/// the topic comes back without a requested QoS.
pub proof fn lemma_publish_round_trip(v: PublishView)
    requires
        publish_wf(v),
    ensures
        publish_decode(v.data) == Ok::<PublishView, Mqtt5ReturnCodes>(
            PublishView { topic: TopicFilterView { qos: NO_QOS, ..v.topic }, ..v },
        ),
{
    let d = v.data;
    let f = v.flags;
    let t = v.topic;
    let m = encode_utf8(v.payload);
    let pid = packet_id_wire(publish_flag_qos(f));
    lemma_publish_flag_round_trip(f);
    lemma_topic_wire(t.topic);
    lemma_topic_wire_decode(t.topic, None);
    assert((0x30 + f.byte) as u8 % 16 == f.byte);
    let tend = 2 + t.filter.len() as int;
    assert(d.subrange(2, tend) =~= t.filter);
    assert(t.filter[0] == t.msb && t.filter[1] == t.lsb);
    let pstart = tend + pid.len() as int;
    assert(d.subrange(pstart, d.len() as int) =~= m);
    vstd::utf8::encode_utf8_valid_utf8(v.payload);
    vstd::utf8::encode_utf8_decode_utf8(v.payload);
}

impl Publish {
    #[verifier::type_invariant]
    pub open spec fn inv(self) -> bool {
        publish_wf(self@)
    }

    /// Builds a PUBLISH; one whose remaining length would pass 255 does not
    /// fit a frame.
    pub fn new(publish_packet_flags: PublishFlag, publish_topic: TopicFilter, payload: String) -> (r: Result<
        Self,
        Mqtt5ReturnCodes,
    >)
        ensures
            publish_remaining_length(
                publish_flag_qos(publish_packet_flags@),
                publish_topic@.filter,
                encode_utf8(payload@),
            ) > 255 ==> r == Err::<Self, Mqtt5ReturnCodes>(Mqtt5ReturnCodes::MqttPacketInvalidSize),
            publish_remaining_length(
                publish_flag_qos(publish_packet_flags@),
                publish_topic@.filter,
                encode_utf8(payload@),
            ) <= 255 ==> r is Ok && r->Ok_0@ == (PublishView {
                flags: publish_packet_flags@,
                topic: publish_topic@,
                payload: payload@,
                data: publish_wire(publish_packet_flags@, publish_topic@.filter, encode_utf8(payload@)),
            }),
    {
        let flag_byte = publish_packet_flags.hex_value();
        let qos = publish_packet_flags.get_qos();
        let filter = publish_topic.get_filter();
        let message = string_bytes(&payload);
        let id_len: usize = if qos == 1 {
            2
        } else {
            0
        };
        if filter.len() > 255 || message.len() > 255 || filter.len() + id_len + message.len() > 255 {
            return Err(Mqtt5ReturnCodes::MqttPacketInvalidSize);
        }
        let remaining_length = (filter.len() + id_len + message.len()) as u8;
        let mut data: Vec<u8> = vec![0x30u8 + flag_byte, remaining_length];
        push_all(&mut data, filter);
        if qos == 1 {
            data.push(0);
            data.push(0);
        }
        push_all(&mut data, &message);
        assert(data@ =~= publish_wire(publish_packet_flags@, publish_topic@.filter, encode_utf8(payload@)));
        Ok(Publish { publish_packet_flags, topic_filter: publish_topic, payload, data })
    }

    pub fn get_data(&self) -> (r: Vec<u8>)
        ensures
            r@ == self@.data,
            publish_wf(self@),
    {
        proof {
            use_type_invariant(self);
        }
        copy_bytes(&self.data)
    }

    pub fn get_flags(&self) -> (r: PublishFlag)
        ensures
            r@ == self@.flags,
    {
        self.publish_packet_flags
    }

    pub fn get_topic(&self) -> (r: TopicFilter)
        ensures
            r@ == self@.topic,
    {
        self.topic_filter.clone()
    }

    pub fn get_payload(&self) -> (r: String)
        ensures
            r@ == self@.payload,
    {
        copy_string(&self.payload)
    }

    /// Sets the QoS to 0 or 1 and re-encodes the frame; a level above 1, or
    /// a frame that would no longer fit, leaves the packet as it is. Returns
    /// the packet as it stands afterwards.
    pub fn set_qos_flag(&mut self, qos: u8) -> (r: Self)
        ensures
            r@ == final(self)@,
            final(self)@.topic == old(self)@.topic,
            final(self)@.payload == old(self)@.payload,
            final(self)@.data == publish_wire(
                final(self)@.flags,
                final(self)@.topic.filter,
                encode_utf8(final(self)@.payload),
            ),
            final(self)@.flags == old(self)@.flags || (qos <= 1 && publish_flag_qos(final(self)@.flags)
                == qos),
            qos == 0 ==> publish_flag_qos(final(self)@.flags) == 0,
            qos == 0 ==> final(self)@.flags == (PublishFlagView {
                byte: publish_flag_byte(old(self)@.flags.retain, false, false, old(self)@.flags.dup_flag),
                qos1: false,
                qos2: false,
                ..old(self)@.flags
            }),
            qos > 1 ==> final(self)@ == old(self)@,
    {
        proof {
            use_type_invariant(&*self);
        }
        if qos <= 1 {
            let mut flags = self.publish_packet_flags;
            flags.set_qos(qos);
            match Publish::new(flags, self.topic_filter.clone(), copy_string(&self.payload)) {
                Ok(p) => {
                    *self = p;
                },
                Err(_) => {},
            }
        }
        self.clone()
    }
}

/// Decodes a PUBLISH frame.
pub fn decode_publish(header: MqttHeader) -> (r: Result<Publish, Mqtt5ReturnCodes>)
    ensures
        match r {
            Ok(p) => publish_decode(header@.data) == Ok::<PublishView, Mqtt5ReturnCodes>(p@),
            Err(e) => publish_decode(header@.data) == Err::<PublishView, Mqtt5ReturnCodes>(e),
        },
{
    let data = header.into_data();
    let n = data.len();
    if n <= 2 || data[1] as usize + 2 != n {
        return Err(Mqtt5ReturnCodes::MqttPacketInvalidSize);
    }
    let flags = match PublishFlag::new_by_hex(data[0] % 16) {
        Ok(f) => f,
        Err(e) => {
            return Err(e);
        },
    };
    if n < 4 || 4 + data[2] as usize * 256 + data[3] as usize > n {
        return Err(Mqtt5ReturnCodes::MqttPacketInvalidSize);
    }
    let tend = 4 + data[2] as usize * 256 + data[3] as usize;
    let topic_data = slice_bytes(&data, 2, tend);
    let topic = match TopicFilter::new_by_hex(data[2], data[3], topic_data, None) {
        Ok(t) => t,
        Err(e) => {
            return Err(e);
        },
    };
    let pstart = if flags.get_qos() == 1 {
        tend + 2
    } else {
        tend
    };
    if pstart > n {
        return Err(Mqtt5ReturnCodes::MqttPacketInvalidSize);
    }
    let message = match string_from_utf8(slice_bytes(&data, pstart, n)) {
        Some(m) => m,
        None => {
            return Err(Mqtt5ReturnCodes::MqttRcProtocolError);
        },
    };
    proof {
        vstd::utf8::decode_utf8_encode_utf8(data@.subrange(pstart as int, n as int));
        use_type_invariant(&topic);
        lemma_topic_wire(topic@.topic);
    }
    match Publish::new(flags, topic, message) {
        Ok(p) => Ok(p),
        Err(e) => Err(e),
    }
}

} // verus!
