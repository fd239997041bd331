//! SUBSCRIBE, UNSUBSCRIBE and SUBACK: packets that carry lists.

use crate::error::Mqtt5ReturnCodes;
use crate::header::MqttHeader;
use crate::text::{copy_bytes, push_all, slice_bytes};
use crate::topic_filter::{
    lemma_topic_wire, lemma_topic_wire_decode, topic_filter_decode, topic_filter_wf, TopicFilter,
    TopicFilterView, NO_QOS,
};
use vstd::prelude::*;

verus! {

/// The views of a list of topic filters.
pub open spec fn filter_views(ts: Seq<TopicFilter>) -> Seq<TopicFilterView> {
    ts.map_values(|t: TopicFilter| t@)
}

/// One entry of a SUBSCRIBE (the filter and its QoS byte) or of an
/// UNSUBSCRIBE (the filter alone).
pub open spec fn filter_entry(t: TopicFilterView, with_qos: bool) -> Seq<u8> {
    if with_qos {
        t.filter.push(t.qos)
    } else {
        t.filter
    }
}

/// The entries of a list of filters, one after the other.
pub open spec fn filters_body(ts: Seq<TopicFilterView>, with_qos: bool) -> Seq<u8>
    decreases ts.len(),
{
    if ts.len() == 0 {
        Seq::empty()
    } else {
        filters_body(ts.drop_last(), with_qos) + filter_entry(ts.last(), with_qos)
    }
}

/// A SUBSCRIBE (`with_qos`) or UNSUBSCRIBE frame: the fixed header, a zero
/// packet identifier, then the entries.
pub open spec fn filters_wire(ts: Seq<TopicFilterView>, with_qos: bool) -> Seq<u8> {
    seq![
        if with_qos { 0x82u8 } else { 0xA2u8 },
        (filters_body(ts, with_qos).len() + 2) as u8,
        0u8,
        0u8,
    ] + filters_body(ts, with_qos)
}

/// Reads the entries from `pos` to the end of `d`.
pub open spec fn parse_filters(d: Seq<u8>, pos: int, with_qos: bool) -> Result<
    Seq<TopicFilterView>,
    Mqtt5ReturnCodes,
>
    decreases d.len() - pos,
{
    if pos < 0 || pos >= d.len() {
        Ok(Seq::empty())
    } else if pos + 2 > d.len() {
        Err(Mqtt5ReturnCodes::MqttPacketInvalidSize)
    } else {
        let end = pos + 2 + d[pos] * 256 + d[pos + 1];
        let next = if with_qos {
            end + 1
        } else {
            end
        };
        if next > d.len() {
            Err(Mqtt5ReturnCodes::MqttPacketInvalidSize)
        } else {
            match topic_filter_decode(
                d[pos],
                d[pos + 1],
                d.subrange(pos, end),
                if with_qos {
                    Some(d[end])
                } else {
                    None
                },
            ) {
                Err(e) => Err(e),
                Ok(t) => match parse_filters(d, next, with_qos) {
                    Err(e) => Err(e),
                    Ok(rest) => Ok(seq![t] + rest),
                },
            }
        }
    }
}

/// `acc` put in front of what `r` read.
pub open spec fn prepend(acc: Seq<TopicFilterView>, r: Result<Seq<TopicFilterView>, Mqtt5ReturnCodes>) -> Result<
    Seq<TopicFilterView>,
    Mqtt5ReturnCodes,
> {
    match r {
        Ok(s) => Ok(acc + s),
        Err(e) => Err(e),
    }
}

/// Why a SUBSCRIBE of these filters cannot be sent, if it cannot: a QoS
/// above 1, an empty list, or a frame too long.
pub open spec fn subscribe_check(ts: Seq<TopicFilterView>) -> Option<Mqtt5ReturnCodes> {
    if exists|i: int| 0 <= i < ts.len() && ts[i].qos > 1 {
        Some(Mqtt5ReturnCodes::MqttRcProtocolError)
    } else if ts.len() == 0 {
        Some(Mqtt5ReturnCodes::MqttRcProtocolError)
    } else if filters_body(ts, true).len() + 2 > 255 {
        Some(Mqtt5ReturnCodes::MqttPacketInvalidSize)
    } else {
        None
    }
}

/// Why an UNSUBSCRIBE of these filters cannot be sent, if it cannot.
pub open spec fn unsubscribe_check(ts: Seq<TopicFilterView>) -> Option<Mqtt5ReturnCodes> {
    if ts.len() == 0 {
        Some(Mqtt5ReturnCodes::MqttRcProtocolError)
    } else if filters_body(ts, false).len() + 2 > 255 {
        Some(Mqtt5ReturnCodes::MqttPacketInvalidSize)
    } else {
        None
    }
}

/// What a SUBSCRIBE or UNSUBSCRIBE holds.
pub struct FiltersPacketView {
    pub topics: Seq<TopicFilterView>,
    pub data: Seq<u8>,
}

/// What decoding a SUBSCRIBE (`with_qos`) or UNSUBSCRIBE frame yields.
pub open spec fn filters_decode(d: Seq<u8>, with_qos: bool) -> Result<FiltersPacketView, Mqtt5ReturnCodes> {
    if d.len() < 4 || d[1] + 2 != d.len() {
        Err(Mqtt5ReturnCodes::MqttPacketInvalidSize)
    } else {
        match parse_filters(d, 4, with_qos) {
            Err(e) => Err(e),
            Ok(ts) => match (if with_qos {
                subscribe_check(ts)
            } else {
                unsubscribe_check(ts)
            }) {
                Some(e) => Err(e),
                None => Ok(FiltersPacketView { topics: ts, data: filters_wire(ts, with_qos) }),
            },
        }
    }
}

/// The entries of a list can be read from the front too.
pub proof fn lemma_body_front(ts: Seq<TopicFilterView>, with_qos: bool)
    requires
        ts.len() > 0,
    ensures
        filters_body(ts, with_qos) == filter_entry(ts[0], with_qos) + filters_body(
            ts.drop_first(),
            with_qos,
        ),
    decreases ts.len(),
{
    reveal_with_fuel(filters_body, 2);
    if ts.len() == 1 {
        assert(ts.drop_last() =~= Seq::<TopicFilterView>::empty());
        assert(ts.drop_first() =~= Seq::<TopicFilterView>::empty());
        assert(filters_body(ts.drop_last(), with_qos) =~= Seq::<u8>::empty());
        assert(filters_body(ts.drop_first(), with_qos) =~= Seq::<u8>::empty());
        assert(filters_body(ts, with_qos) =~= filter_entry(ts[0], with_qos));
        assert(filter_entry(ts[0], with_qos) + Seq::<u8>::empty() =~= filter_entry(ts[0], with_qos));
    } else {
        lemma_body_front(ts.drop_last(), with_qos);
        assert(ts.drop_last().drop_first() =~= ts.drop_first().drop_last());
        assert(ts.drop_first().last() == ts.last());
        assert(filters_body(ts, with_qos) =~= filter_entry(ts[0], with_qos) + filters_body(
            ts.drop_first(),
            with_qos,
        ));
    }
}

/// Entries written from `pos` to the end of `d` read back as the same
/// filters.
pub proof fn lemma_parse_filters(d: Seq<u8>, pos: int, ts: Seq<TopicFilterView>, with_qos: bool)
    requires
        0 <= pos <= d.len(),
        d.subrange(pos, d.len() as int) == filters_body(ts, with_qos),
        forall|i: int| 0 <= i < ts.len() ==> #[trigger] topic_filter_wf(ts[i]),
        forall|i: int| 0 <= i < ts.len() ==> (if with_qos {
            #[trigger] ts[i].qos <= 2
        } else {
            ts[i].qos == NO_QOS
        }),
    ensures
        parse_filters(d, pos, with_qos) == Ok::<Seq<TopicFilterView>, Mqtt5ReturnCodes>(ts),
    decreases ts.len(),
{
    if ts.len() == 0 {
        assert(d.subrange(pos, d.len() as int).len() == 0);
        assert(pos == d.len());
        assert(ts =~= Seq::<TopicFilterView>::empty());
    } else {
        lemma_body_front(ts, with_qos);
        let t = ts[0];
        assert(topic_filter_wf(t));
        let e = filter_entry(t, with_qos);
        let flen = t.filter.len() as int;
        lemma_topic_wire(t.topic);
        let end = pos + flen;
        let whole = d.subrange(pos, d.len() as int);
        assert(whole == e + filters_body(ts.drop_first(), with_qos));
        assert(whole.len() == e.len() + filters_body(ts.drop_first(), with_qos).len());
        assert(flen >= 2);
        assert(e.len() >= flen);
        assert(flen == 2 + t.msb * 256 + t.lsb);
        assert(e.subrange(0, flen) =~= t.filter);
        assert(whole.subrange(0, e.len() as int) =~= e);
        assert(d.subrange(pos, end) =~= t.filter) by {
            assert(d.subrange(pos, end) =~= whole.subrange(0, flen));
            assert(whole.subrange(0, flen) =~= e.subrange(0, flen));
        }
        assert(d[pos] == t.msb);
        assert(d[pos + 1] == t.lsb);
        let next = pos + e.len();
        assert(next == (if with_qos {
            end + 1
        } else {
            end
        }));
        if with_qos {
            assert(d[end] == t.qos) by {
                assert(whole[flen] == e[flen]);
            }
            lemma_topic_wire_decode(t.topic, Some(t.qos));
        } else {
            lemma_topic_wire_decode(t.topic, None);
        }
        let rest = ts.drop_first();
        assert(d.subrange(next, d.len() as int) =~= filters_body(rest, with_qos)) by {
            assert(d.subrange(next, d.len() as int) =~= whole.subrange(e.len() as int, whole.len() as int));
            assert(whole.subrange(e.len() as int, whole.len() as int) =~= filters_body(rest, with_qos));
        }
        assert forall|i: int| 0 <= i < rest.len() implies #[trigger] topic_filter_wf(rest[i]) by {
            assert(rest[i] == ts[i + 1]);
        }
        assert forall|i: int| 0 <= i < rest.len() implies (if with_qos {
            #[trigger] rest[i].qos <= 2
        } else {
            rest[i].qos == NO_QOS
        }) by {
            assert(rest[i] == ts[i + 1]);
        }
        lemma_parse_filters(d, next, rest, with_qos);
        assert(seq![t] + rest =~= ts);
        assert(topic_filter_decode(
            d[pos],
            d[pos + 1],
            d.subrange(pos, end),
            if with_qos {
                Some(d[end])
            } else {
                None
            },
        ) == Ok::<TopicFilterView, Mqtt5ReturnCodes>(t));
    }
}

/// Decoding a SUBSCRIBE built from filters gives the same filters back.
pub proof fn lemma_subscribe_round_trip(ts: Seq<TopicFilterView>)
    requires
        forall|i: int| 0 <= i < ts.len() ==> #[trigger] topic_filter_wf(ts[i]),
        subscribe_check(ts) is None,
    ensures
        filters_decode(filters_wire(ts, true), true) == Ok::<FiltersPacketView, Mqtt5ReturnCodes>(
            FiltersPacketView { topics: ts, data: filters_wire(ts, true) },
        ),
{
    let d = filters_wire(ts, true);
    assert(d.subrange(4, d.len() as int) =~= filters_body(ts, true));
    lemma_parse_filters(d, 4, ts, true);
}

/// Decoding an UNSUBSCRIBE built from filters gives the same topics back,
/// each without a requested QoS.
pub proof fn lemma_unsubscribe_round_trip(ts: Seq<TopicFilterView>)
    requires
        forall|i: int| 0 <= i < ts.len() ==> #[trigger] topic_filter_wf(ts[i]),
        forall|i: int| 0 <= i < ts.len() ==> #[trigger] ts[i].qos == NO_QOS,
        unsubscribe_check(ts) is None,
    ensures
        filters_decode(filters_wire(ts, false), false) == Ok::<FiltersPacketView, Mqtt5ReturnCodes>(
            FiltersPacketView { topics: ts, data: filters_wire(ts, false) },
        ),
{
    let d = filters_wire(ts, false);
    assert(d.subrange(4, d.len() as int) =~= filters_body(ts, false));
    lemma_parse_filters(d, 4, ts, false);
}

/// Builds the frame of a SUBSCRIBE (`with_qos`) or UNSUBSCRIBE, refusing
/// what the checks refuse.
fn encode_filters(topic_filters: &Vec<TopicFilter>, with_qos: bool) -> (r: Result<Vec<u8>, Mqtt5ReturnCodes>)
    ensures
        match (if with_qos {
            subscribe_check(filter_views(topic_filters@))
        } else {
            unsubscribe_check(filter_views(topic_filters@))
        }) {
            Some(e) => r == Err::<Vec<u8>, Mqtt5ReturnCodes>(e),
            None => r is Ok && r->Ok_0@ == filters_wire(filter_views(topic_filters@), with_qos),
        },
{
    let ghost vs = filter_views(topic_filters@);
    let n = topic_filters.len();
    if with_qos {
        let mut i: usize = 0;
        while i < n
            invariant
                n == topic_filters@.len(),
                vs == filter_views(topic_filters@),
                i <= n,
                with_qos,
                forall|j: int| 0 <= j < i ==> vs[j].qos <= 1,
            decreases n - i,
        {
            if topic_filters[i].get_qos() > 1 {
                assert(vs[i as int].qos > 1);
                return Err(Mqtt5ReturnCodes::MqttRcProtocolError);
            }
            i = i + 1;
        }
    }
    if n == 0 {
        return Err(Mqtt5ReturnCodes::MqttRcProtocolError);
    }
    assert(with_qos ==> !(exists|i: int| 0 <= i < vs.len() && vs[i].qos > 1));
    let mut body: Vec<u8> = Vec::new();
    let mut i: usize = 0;
    while i < n
        invariant
            n == topic_filters@.len(),
            vs == filter_views(topic_filters@),
            i <= n,
            body@ == filters_body(vs.take(i as int), with_qos),
            body@.len() <= 253,
            with_qos ==> forall|j: int| 0 <= j < n ==> vs[j].qos <= 1,
        decreases n - i,
    {
        let f = topic_filters[i].get_filter();
        let extra: usize = if with_qos {
            1
        } else {
            0
        };
        if f.len() > 255 || body.len() + f.len() + extra > 253 {
            proof {
                lemma_body_prefix_len(vs, i as int + 1, n as int, with_qos);
                assert(vs.take(i as int + 1).drop_last() =~= vs.take(i as int));
                assert(vs.take(i as int + 1).last() == vs[i as int]);
            }
            return Err(Mqtt5ReturnCodes::MqttPacketInvalidSize);
        }
        push_all(&mut body, f);
        if with_qos {
            body.push(topic_filters[i].get_qos());
        }
        proof {
            assert(vs.take(i as int + 1).drop_last() =~= vs.take(i as int));
            assert(vs.take(i as int + 1).last() == topic_filters@[i as int]@);
        }
        i = i + 1;
        assert(body@ =~= filters_body(vs.take(i as int), with_qos));
    }
    assert(vs.take(n as int) =~= vs);
    let head: u8 = if with_qos {
        0x82
    } else {
        0xA2
    };
    let mut data: Vec<u8> = vec![head, (body.len() + 2) as u8, 0u8, 0u8];
    push_all(&mut data, &body);
    assert(data@ =~= filters_wire(vs, with_qos));
    Ok(data)
}

/// The entries of a prefix are no longer than those of the whole list.
proof fn lemma_body_prefix_len(vs: Seq<TopicFilterView>, i: int, n: int, with_qos: bool)
    requires
        0 <= i <= n == vs.len(),
    ensures
        filters_body(vs.take(i), with_qos).len() <= filters_body(vs, with_qos).len(),
    decreases n - i,
{
    if i < n {
        lemma_body_prefix_len(vs, i + 1, n, with_qos);
        assert(vs.take(i + 1).drop_last() =~= vs.take(i));
    } else {
        assert(vs.take(i) =~= vs);
    }
}

/// Reads the entries of a SUBSCRIBE (`with_qos`) or UNSUBSCRIBE frame.
fn read_topic_filters(data: &Vec<u8>, with_qos: bool) -> (r: Result<Vec<TopicFilter>, Mqtt5ReturnCodes>)
    requires
        data@.len() >= 4,
    ensures
        match r {
            Ok(ts) => parse_filters(data@, 4, with_qos) == Ok::<
                Seq<TopicFilterView>,
                Mqtt5ReturnCodes,
            >(filter_views(ts@)),
            Err(e) => parse_filters(data@, 4, with_qos) == Err::<Seq<TopicFilterView>, Mqtt5ReturnCodes>(
                e,
            ),
        },
{
    let ghost d = data@;
    let n = data.len();
    let mut filters: Vec<TopicFilter> = Vec::new();
    let mut pos: usize = 4;
    while pos < n
        invariant
            d == data@,
            n == d.len(),
            4 <= pos <= n,
            parse_filters(d, 4, with_qos) == prepend(
                filter_views(filters@),
                parse_filters(d, pos as int, with_qos),
            ),
        decreases n - pos,
    {
        if n - pos < 2 {
            return Err(Mqtt5ReturnCodes::MqttPacketInvalidSize);
        }
        let len = data[pos] as usize * 256 + data[pos + 1] as usize;
        let extra: usize = if with_qos {
            1
        } else {
            0
        };
        if len + extra > n - pos - 2 {
            return Err(Mqtt5ReturnCodes::MqttPacketInvalidSize);
        }
        let end = pos + 2 + len;
        let next = end + extra;
        let qos = if with_qos {
            Some(data[end])
        } else {
            None
        };
        let t = match TopicFilter::new_by_hex(data[pos], data[pos + 1], slice_bytes(data, pos, end), qos) {
            Ok(t) => t,
            Err(e) => {
                return Err(e);
            },
        };
        let ghost before = filter_views(filters@);
        filters.push(t);
        proof {
            assert(filter_views(filters@) =~= before.push(t@));
            match parse_filters(d, next as int, with_qos) {
                Ok(rest) => {
                    assert(before + (seq![t@] + rest) =~= before.push(t@) + rest);
                },
                Err(_) => {},
            }
        }
        pos = next;
    }
    proof {
        assert(filter_views(filters@) + Seq::<TopicFilterView>::empty() =~= filter_views(filters@));
    }
    Ok(filters)
}

/// Copies a list of topic filters.
fn copy_filters(ts: &Vec<TopicFilter>) -> (r: Vec<TopicFilter>)
    ensures
        filter_views(r@) == filter_views(ts@),
{
    let mut r: Vec<TopicFilter> = Vec::new();
    let mut i: usize = 0;
    while i < ts.len()
        invariant
            i <= ts@.len(),
            filter_views(r@) == filter_views(ts@).take(i as int),
        decreases ts.len() - i,
    {
        let t = ts[i].clone();
        let ghost before = filter_views(r@);
        r.push(t);
        assert(filter_views(r@) =~= before.push(t@));
        i = i + 1;
        assert(filter_views(r@) =~= filter_views(ts@).take(i as int));
    }
    assert(filter_views(ts@).take(ts@.len() as int) =~= filter_views(ts@));
    r
}

/// A SUBSCRIBE packet.
pub struct Subscribe {
    topic_filters: Vec<TopicFilter>,
    data: Vec<u8>,
}

impl View for Subscribe {
    type V = FiltersPacketView;

    closed spec fn view(&self) -> FiltersPacketView {
        FiltersPacketView { topics: filter_views(self.topic_filters@), data: self.data@ }
    }
}

impl Subscribe {
    #[verifier::type_invariant]
    pub open spec fn inv(self) -> bool {
        &&& subscribe_check(self@.topics) is None
        &&& self@.data == filters_wire(self@.topics, true)
    }

    /// Builds a SUBSCRIBE of the given filters, each with its requested QoS.
    pub fn new(topic_filters: &mut Vec<TopicFilter>) -> (r: Result<Self, Mqtt5ReturnCodes>)
        ensures
            final(topic_filters)@ == old(topic_filters)@,
            match subscribe_check(filter_views(old(topic_filters)@)) {
                Some(e) => r == Err::<Self, Mqtt5ReturnCodes>(e),
                None => r is Ok && r->Ok_0@ == (FiltersPacketView {
                    topics: filter_views(old(topic_filters)@),
                    data: filters_wire(filter_views(old(topic_filters)@), true),
                }),
            },
    {
        let data = match encode_filters(topic_filters, true) {
            Ok(d) => d,
            Err(e) => {
                return Err(e);
            },
        };
        Ok(Subscribe { topic_filters: copy_filters(topic_filters), data })
    }

    pub fn get_data(&self) -> (r: Vec<u8>)
        ensures
            r@ == self@.data,
    {
        copy_bytes(&self.data)
    }

    pub fn get_topics(&self) -> (r: Vec<TopicFilter>)
        ensures
            filter_views(r@) == self@.topics,
    {
        copy_filters(&self.topic_filters)
    }
}

/// An UNSUBSCRIBE packet.
pub struct Unsubscribe {
    topic_filters: Vec<TopicFilter>,
    data: Vec<u8>,
}

impl View for Unsubscribe {
    type V = FiltersPacketView;

    closed spec fn view(&self) -> FiltersPacketView {
        FiltersPacketView { topics: filter_views(self.topic_filters@), data: self.data@ }
    }
}

impl Unsubscribe {
    #[verifier::type_invariant]
    pub open spec fn inv(self) -> bool {
        &&& unsubscribe_check(self@.topics) is None
        &&& self@.data == filters_wire(self@.topics, false)
    }

    /// Builds an UNSUBSCRIBE of the given filters.
    pub fn new(topic_filters: &mut Vec<TopicFilter>) -> (r: Result<Self, Mqtt5ReturnCodes>)
        ensures
            final(topic_filters)@ == old(topic_filters)@,
            match unsubscribe_check(filter_views(old(topic_filters)@)) {
                Some(e) => r == Err::<Self, Mqtt5ReturnCodes>(e),
                None => r is Ok && r->Ok_0@ == (FiltersPacketView {
                    topics: filter_views(old(topic_filters)@),
                    data: filters_wire(filter_views(old(topic_filters)@), false),
                }),
            },
    {
        let data = match encode_filters(topic_filters, false) {
            Ok(d) => d,
            Err(e) => {
                return Err(e);
            },
        };
        Ok(Unsubscribe { topic_filters: copy_filters(topic_filters), data })
    }

    pub fn get_data(&self) -> (r: Vec<u8>)
        ensures
            r@ == self@.data,
    {
        copy_bytes(&self.data)
    }

    pub fn get_topic_filters(&self) -> (r: Vec<TopicFilter>)
        ensures
            filter_views(r@) == self@.topics,
    {
        copy_filters(&self.topic_filters)
    }
}

/// Reads the entries of a SUBSCRIBE frame, each with its QoS byte.
pub fn topic_filters_with_qos(data: &Vec<u8>) -> (r: Result<Vec<TopicFilter>, Mqtt5ReturnCodes>)
    requires
        data@.len() >= 4,
    ensures
        match r {
            Ok(ts) => parse_filters(data@, 4, true) == Ok::<Seq<TopicFilterView>, Mqtt5ReturnCodes>(
                filter_views(ts@),
            ),
            Err(e) => parse_filters(data@, 4, true) == Err::<Seq<TopicFilterView>, Mqtt5ReturnCodes>(e),
        },
{
    read_topic_filters(data, true)
}

/// Reads the entries of an UNSUBSCRIBE frame.
pub fn topic_filters(data: &Vec<u8>) -> (r: Result<Vec<TopicFilter>, Mqtt5ReturnCodes>)
    requires
        data@.len() >= 4,
    ensures
        match r {
            Ok(ts) => parse_filters(data@, 4, false) == Ok::<Seq<TopicFilterView>, Mqtt5ReturnCodes>(
                filter_views(ts@),
            ),
            Err(e) => parse_filters(data@, 4, false) == Err::<Seq<TopicFilterView>, Mqtt5ReturnCodes>(e),
        },
{
    read_topic_filters(data, false)
}

/// Decodes a SUBSCRIBE frame.
pub fn decode_subscribe(header: MqttHeader) -> (r: Result<Subscribe, Mqtt5ReturnCodes>)
    ensures
        match r {
            Ok(s) => filters_decode(header@.data, true) == Ok::<FiltersPacketView, Mqtt5ReturnCodes>(s@),
            Err(e) => filters_decode(header@.data, true) == Err::<FiltersPacketView, Mqtt5ReturnCodes>(e),
        },
{
    let data = header.into_data();
    if data.len() < 4 || data[1] as usize + 2 != data.len() {
        return Err(Mqtt5ReturnCodes::MqttPacketInvalidSize);
    }
    let mut filters = match topic_filters_with_qos(&data) {
        Ok(f) => f,
        Err(e) => {
            return Err(e);
        },
    };
    Subscribe::new(&mut filters)
}

/// Decodes an UNSUBSCRIBE frame.
pub fn decode_unsubscribe(header: MqttHeader) -> (r: Result<Unsubscribe, Mqtt5ReturnCodes>)
    ensures
        match r {
            Ok(s) => filters_decode(header@.data, false) == Ok::<FiltersPacketView, Mqtt5ReturnCodes>(s@),
            Err(e) => filters_decode(header@.data, false) == Err::<FiltersPacketView, Mqtt5ReturnCodes>(e),
        },
{
    let data = header.into_data();
    if data.len() < 4 || data[1] as usize + 2 != data.len() {
        return Err(Mqtt5ReturnCodes::MqttPacketInvalidSize);
    }
    let mut filters = match topic_filters(&data) {
        Ok(f) => f,
        Err(e) => {
            return Err(e);
        },
    };
    Unsubscribe::new(&mut filters)
}

} // verus!
