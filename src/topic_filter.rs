//! Topic filters: a topic string carried with a two-byte length prefix.

use crate::error::Mqtt5ReturnCodes;
use crate::text::{copy_bytes, copy_string, same_string, slice_bytes, string_bytes, string_from_utf8};
use vstd::prelude::*;
use vstd::utf8::{decode_utf8, encode_utf8, valid_utf8};

verus! {

/// What a topic filter holds.
pub struct TopicFilterView {
    pub topic: Seq<char>,
    pub msb: u8,
    pub lsb: u8,
    pub filter: Seq<u8>,
    pub qos: u8,
}

/// The QoS stored for a filter that was given none.
pub const NO_QOS: u8 = 3;

/// The length prefix `[msb, lsb]` agrees with the bytes that follow it.
pub open spec fn filter_size_ok(msb: u8, lsb: u8, filter: Seq<u8>) -> bool {
    &&& filter.len() >= 2
    &&& filter[0] == msb
    &&& filter[1] == lsb
    &&& filter.len() == 2 + 256 * msb + lsb
}

/// The wire form of a topic: its UTF-8 length as two bytes, then the bytes.
#[verifier::opaque]
pub open spec fn topic_wire(topic: Seq<char>) -> Seq<u8> {
    let n = encode_utf8(topic).len();
    seq![(n / 256) as u8, (n % 256) as u8] + encode_utf8(topic)
}

/// The shape of a topic's wire form.
pub proof fn lemma_topic_wire(topic: Seq<char>)
    ensures
        topic_wire(topic).len() == 2 + encode_utf8(topic).len(),
        topic_wire(topic)[0] == (encode_utf8(topic).len() / 256) as u8,
        topic_wire(topic)[1] == (encode_utf8(topic).len() % 256) as u8,
        topic_wire(topic).skip(2) == encode_utf8(topic),
        topic_wire(topic) == seq![
            (encode_utf8(topic).len() / 256) as u8,
            (encode_utf8(topic).len() % 256) as u8,
        ] + encode_utf8(topic),
{
    reveal(topic_wire);
    assert(topic_wire(topic).skip(2) =~= encode_utf8(topic));
}

/// A well-formed topic filter.
pub open spec fn topic_filter_wf(v: TopicFilterView) -> bool {
    &&& filter_size_ok(v.msb, v.lsb, v.filter)
    &&& v.filter == seq![v.msb, v.lsb] + encode_utf8(v.topic)
    &&& v.filter == topic_wire(v.topic)
    &&& v.qos <= 3
}

/// What reading a length-prefixed topic yields, with an optional QoS.
pub open spec fn topic_filter_decode(msb: u8, lsb: u8, filter: Seq<u8>, qos: Option<u8>) -> Result<
    TopicFilterView,
    Mqtt5ReturnCodes,
> {
    if !filter_size_ok(msb, lsb, filter) {
        Err(Mqtt5ReturnCodes::MqttPacketInvalidSize)
    } else if !valid_utf8(filter.skip(2)) {
        Err(Mqtt5ReturnCodes::MqttRcTopicFilterInvalid)
    } else if qos is Some && qos->Some_0 > 2 {
        Err(Mqtt5ReturnCodes::MqttRcProtocolError)
    } else {
        Ok(
            TopicFilterView {
                topic: decode_utf8(filter.skip(2)),
                msb,
                lsb,
                filter,
                qos: match qos {
                    Some(q) => q,
                    None => NO_QOS,
                },
            },
        )
    }
}

/// As `topic_filter_decode`, where the topic that the bytes must hold is
/// given too.
pub open spec fn topic_filter_check(
    msb: u8,
    lsb: u8,
    filter: Seq<u8>,
    qos: Option<u8>,
    topic: Seq<char>,
) -> Result<TopicFilterView, Mqtt5ReturnCodes> {
    if !filter_size_ok(msb, lsb, filter) {
        Err(Mqtt5ReturnCodes::MqttPacketInvalidSize)
    } else if !valid_utf8(filter.skip(2)) {
        Err(Mqtt5ReturnCodes::MqttRcTopicFilterInvalid)
    } else if decode_utf8(filter.skip(2)) != topic {
        Err(Mqtt5ReturnCodes::MqttRcTopicNameInvalid)
    } else {
        topic_filter_decode(msb, lsb, filter, qos)
    }
}

/// A decoded topic filter is well formed.
pub proof fn lemma_topic_filter_decode_wf(msb: u8, lsb: u8, filter: Seq<u8>, qos: Option<u8>)
    requires
        topic_filter_decode(msb, lsb, filter, qos) is Ok,
    ensures
        topic_filter_wf(topic_filter_decode(msb, lsb, filter, qos)->Ok_0),
{
    let b = filter.skip(2);
    vstd::utf8::decode_utf8_encode_utf8(b);
    assert(filter =~= seq![msb, lsb] + b);
    lemma_topic_wire(decode_utf8(b));
}

/// The bytes of a topic filter's wire form read back as the same topic.
pub proof fn lemma_topic_wire_decode(topic: Seq<char>, qos: Option<u8>)
    requires
        encode_utf8(topic).len() < 65536,
        qos is Some ==> qos->Some_0 <= 2,
    ensures
        ({
            let w = topic_wire(topic);
            topic_filter_decode(w[0], w[1], w, qos) == Ok::<TopicFilterView, Mqtt5ReturnCodes>(
                TopicFilterView {
                    topic,
                    msb: w[0],
                    lsb: w[1],
                    filter: w,
                    qos: match qos {
                        Some(q) => q,
                        None => NO_QOS,
                    },
                },
            )
        }),
{
    lemma_topic_wire(topic);
    vstd::utf8::encode_utf8_valid_utf8(topic);
    vstd::utf8::encode_utf8_decode_utf8(topic);
}

/// A topic string with its two-byte length prefix, and the QoS requested for
/// it (`NO_QOS` when none was given).
pub struct TopicFilter {
    topic: String,
    length_msb: u8,
    length_lsb: u8,
    filter: Vec<u8>,
    qos: u8,
}

impl View for TopicFilter {
    type V = TopicFilterView;

    closed spec fn view(&self) -> TopicFilterView {
        TopicFilterView {
            topic: self.topic@,
            msb: self.length_msb,
            lsb: self.length_lsb,
            filter: self.filter@,
            qos: self.qos,
        }
    }
}

impl Clone for TopicFilter {
    fn clone(&self) -> (r: Self)
        ensures
            r@ == self@,
    {
        proof {
            use_type_invariant(self);
        }
        TopicFilter {
            topic: copy_string(&self.topic),
            length_msb: self.length_msb,
            length_lsb: self.length_lsb,
            filter: copy_bytes(&self.filter),
            qos: self.qos,
        }
    }
}

impl TopicFilter {
    #[verifier::type_invariant]
    pub open spec fn inv(self) -> bool {
        topic_filter_wf(self@)
    }

    /// Builds a filter from its length prefix, its wire bytes and the topic
    /// they must hold.
    pub fn new(length_msb: u8, length_lsb: u8, filter: Vec<u8>, qos: Option<u8>, topic: String) -> (r:
        Result<Self, Mqtt5ReturnCodes>)
        ensures
            match r {
                Ok(t) => topic_filter_check(length_msb, length_lsb, filter@, qos, topic@) == Ok::<
                    TopicFilterView,
                    Mqtt5ReturnCodes,
                >(t@),
                Err(e) => topic_filter_check(length_msb, length_lsb, filter@, qos, topic@) == Err::<
                    TopicFilterView,
                    Mqtt5ReturnCodes,
                >(e),
            },
    {
        let ghost f = filter@;
        let mut t = match Self::new_by_hex(length_msb, length_lsb, filter, None) {
            Ok(t) => t,
            Err(e) => {
                return Err(e);
            },
        };
        if !same_string(&t.topic, &topic) {
            return Err(Mqtt5ReturnCodes::MqttRcTopicNameInvalid);
        }
        match qos {
            Some(q) => {
                if q > 2 {
                    return Err(Mqtt5ReturnCodes::MqttRcProtocolError);
                }
                proof {
                    use_type_invariant(&t);
                }
                t.qos = q;
            },
            None => {},
        }
        proof {
            lemma_topic_filter_decode_wf(length_msb, length_lsb, f, qos);
        }
        Ok(t)
    }

    /// Reads a filter from its length prefix and wire bytes.
    pub fn new_by_hex(length_msb: u8, length_lsb: u8, filter: Vec<u8>, qos: Option<u8>) -> (r: Result<
        Self,
        Mqtt5ReturnCodes,
    >)
        ensures
            match r {
                Ok(t) => topic_filter_decode(length_msb, length_lsb, filter@, qos) == Ok::<
                    TopicFilterView,
                    Mqtt5ReturnCodes,
                >(t@),
                Err(e) => topic_filter_decode(length_msb, length_lsb, filter@, qos) == Err::<
                    TopicFilterView,
                    Mqtt5ReturnCodes,
                >(e),
            },
    {
        let n = filter.len();
        if n < 2 || filter[0] != length_msb || filter[1] != length_lsb || n != 2 + 256
            * (length_msb as usize) + length_lsb as usize {
            return Err(Mqtt5ReturnCodes::MqttPacketInvalidSize);
        }
        let body = slice_bytes(&filter, 2, n);
        assert(body@ =~= filter@.skip(2));
        let topic = match string_from_utf8(body) {
            Some(s) => s,
            None => {
                return Err(Mqtt5ReturnCodes::MqttRcTopicFilterInvalid);
            },
        };
        let q: u8 = match qos {
            Some(q) => {
                if q > 2 {
                    return Err(Mqtt5ReturnCodes::MqttRcProtocolError);
                }
                q
            },
            None => NO_QOS,
        };
        proof {
            lemma_topic_filter_decode_wf(length_msb, length_lsb, filter@, qos);
        }
        Ok(TopicFilter { topic, length_msb, length_lsb, filter, qos: q })
    }

    /// The filter's wire bytes: the length prefix, then the topic.
    pub fn get_filter(&self) -> (r: &Vec<u8>)
        ensures
            r@ == self@.filter,
            topic_filter_wf(self@),
    {
        proof {
            use_type_invariant(self);
        }
        &self.filter
    }

    /// The low byte of the length prefix.
    pub fn get_length(&self) -> (r: u8)
        ensures
            r == self@.lsb,
    {
        self.length_lsb
    }

    pub fn get_qos(&self) -> (r: u8)
        ensures
            r == self@.qos,
    {
        self.qos
    }

    pub fn get_topic(&self) -> (r: String)
        ensures
            r@ == self@.topic,
    {
        copy_string(&self.topic)
    }

    /// A filter for `topic`, with the length prefix computed from its bytes;
    /// a topic of 65536 bytes or more does not fit the prefix.
    pub fn from_topic(topic: String, qos: Option<u8>) -> (r: Result<Self, Mqtt5ReturnCodes>)
        ensures
            encode_utf8(topic@).len() >= 65536 ==> r == Err::<Self, Mqtt5ReturnCodes>(
                Mqtt5ReturnCodes::MqttPacketInvalidSize,
            ),
            encode_utf8(topic@).len() < 65536 && qos is Some && qos->Some_0 > 2 ==> r == Err::<
                Self,
                Mqtt5ReturnCodes,
            >(Mqtt5ReturnCodes::MqttRcProtocolError),
            encode_utf8(topic@).len() < 65536 && (qos is Some ==> qos->Some_0 <= 2) ==> r is Ok,
            r is Ok ==> r->Ok_0@.topic == topic@ && r->Ok_0@.qos == (match qos {
                Some(q) => q,
                None => NO_QOS,
            }),
    {
        let bytes = string_bytes(&topic);
        let n = bytes.len();
        if n >= 65536 {
            return Err(Mqtt5ReturnCodes::MqttPacketInvalidSize);
        }
        match qos {
            Some(q) => {
                if q > 2 {
                    return Err(Mqtt5ReturnCodes::MqttRcProtocolError);
                }
            },
            None => {},
        }
        let msb = (n / 256) as u8;
        let lsb = (n % 256) as u8;
        let mut data: Vec<u8> = vec![msb, lsb];
        crate::text::push_all(&mut data, &bytes);
        proof {
            lemma_topic_wire(topic@);
            assert(data@ =~= topic_wire(topic@));
            lemma_topic_wire_decode(topic@, qos);
        }
        Self::new(msb, lsb, data, qos, topic)
    }
}

} // verus!
