//! Properties that relate several operations of the library.

use crate::bits::has_bit;
use crate::broker::is_live;
use crate::connect_flag::connect_flag_decode;
use crate::error::Mqtt5ReturnCodes;
use crate::publish_flag::publish_flag_decode;
use crate::store::QueueView;
use crate::store::queued_of;
use crate::user_qos::{first_user_index, has_user, upserted, users_unique, UserQosView};
use crate::connect_flag::ConnectFlagView;
use crate::publish_flag::PublishFlagView;
use crate::broker::{
    all_deliveries, deliveries_for, frame_for, packet_action_spec, qos_flags, replay_frames, will_flags,
    ConnectionView, DeliveryView, PacketAction, SessionState,
};
use crate::connect_flag::connect_flag_wf;
use crate::constants::PacketType;
use crate::publish::publish_wf;
use crate::publish_flag::lemma_publish_flag_round_trip;
use crate::registry::{table_topics, table_wf, SubscriptionView};
use crate::subscriptions::{dedup, expand_all, filter_pairs, has_star, newly_subscribed, resolve, subscribed};
use crate::publish::{lemma_publish_round_trip, publish_decode, publish_remaining_length, publish_wire, PublishView};
use crate::publish_flag::publish_flag_qos;
use crate::store::{retained_of, RetainedView};
use crate::topic_filter::{lemma_topic_wire, topic_wire, TopicFilterView, NO_QOS};
use vstd::prelude::*;
use vstd::utf8::encode_utf8;

verus! {

/// A CONNECT flags byte with both will-QoS bits set, or a PUBLISH flags
/// nibble with both QoS bits set, never decodes: it is a protocol error,
/// not a clamped QoS.
pub proof fn lemma_qos_bits_rejected(b: u8)
    ensures
        has_bit(b, 8) && has_bit(b, 16) ==> connect_flag_decode(b) == Err::<ConnectFlagView, Mqtt5ReturnCodes>(
            Mqtt5ReturnCodes::MqttRcProtocolError,
        ),
        has_bit(b, 2) && has_bit(b, 4) ==> publish_flag_decode(b) == Err::<PublishFlagView, Mqtt5ReturnCodes>(
            Mqtt5ReturnCodes::MqttRcProtocolError,
        ),
{
}

/// Subscribing a client twice to the same topic, with any two QoS values,
/// leaves exactly one entry for it, holding the latest QoS.
pub proof fn lemma_subscribe_twice(
    before: Seq<UserQosView>,
    middle: Seq<UserQosView>,
    after: Seq<UserQosView>,
    user: Seq<char>,
    first_qos: u8,
    second_qos: u8,
)
    requires
        users_unique(before),
        upserted(before, middle, user, first_qos),
        upserted(middle, after, user, second_qos),
    ensures
        exists|j: int|
            0 <= j < after.len() && after[j] == (UserQosView { user, qos: second_qos }) && forall|k: int|
                0 <= k < after.len() && k != j ==> #[trigger] after[k].user != user,
{
    crate::registry::lemma_upsert_unique(before, middle, user, first_qos);
    crate::registry::lemma_upsert_unique(middle, after, user, second_qos);
    assert(has_user(middle, user));
    let j = choose|j: int| first_user_index(middle, user, j) && after == middle.update(j, UserQosView { user, qos: second_qos });
    assert(after[j] == (UserQosView { user, qos: second_qos }));
    assert forall|k: int| 0 <= k < after.len() && k != j implies #[trigger] after[k].user != user by {
        if k < j {
            assert(after[k].user != after[j].user);
        } else {
            assert(after[j].user != after[k].user);
        }
    }
}

/// A QoS 1 PUBLISH dispatched while its subscriber has no live connection
/// is queued for it; the subscriber's next accepted CONNECT without a clean
/// session hands back its queue, that frame last, as a QoS 1 PUBLISH (so a
/// PUBACK is awaited), and leaves the queue empty. The hypotheses are what
/// `dispatch` and `resolve_connect` ensure.
pub proof fn lemma_offline_queue_replay(
    queues_before: Seq<QueueView>,
    queues_dispatched: Seq<QueueView>,
    queues_connected: Seq<QueueView>,
    subscribers: Seq<UserQosView>,
    live: Seq<crate::broker::ConnectionView>,
    publish: PublishView,
    client: Seq<char>,
    clean_session: bool,
    accepted: bool,
    replayed: Seq<Seq<u8>>,
)
    requires
        publish_wf(publish),
        publish_flag_qos(publish.flags) == 1,
        has_user(subscribers, client),
        !is_live(live, client),
        queued_of(queues_dispatched, client) == (if has_user(subscribers, client) && !is_live(live, client) {
            queued_of(queues_before, client).push(publish.data)
        } else {
            queued_of(queues_before, client)
        }),
        accepted,
        !clean_session,
        replayed == (if accepted && !clean_session {
            queued_of(queues_dispatched, client)
        } else {
            Seq::empty()
        }),
        (accepted || clean_session) ==> queued_of(queues_connected, client) == Seq::<Seq<u8>>::empty(),
    ensures
        replayed == queued_of(queues_before, client).push(publish.data),
        crate::header::header_decode(replayed.last()) is Ok,
        publish_decode(replayed.last()) is Ok,
        publish_flag_qos(publish_decode(replayed.last())->Ok_0.flags) == 1,
        queued_of(queues_connected, client).len() == 0,
{
    lemma_publish_round_trip(publish);
    lemma_publish_flag_round_trip(publish.flags);
    let d = publish.data;
    assert(d[0] == (0x30 + publish.flags.byte) as u8);
    assert(d[0] / 16 == 3);
}

/// A subscriber with a live connection gets a published message on it: the
/// deliveries of `dispatch` hold one for that connection, and for a QoS 0
/// message its frame is the published frame, which reads back as the same
/// topic and payload.
pub proof fn lemma_live_subscriber_receives(
    subscribers: Seq<UserQosView>,
    live: Seq<ConnectionView>,
    publish: PublishView,
    si: int,
    ci: int,
)
    requires
        publish_wf(publish),
        0 <= si < subscribers.len(),
        0 <= ci < live.len(),
        live[ci].client == subscribers[si].user,
    ensures
        exists|d: int|
            0 <= d < all_deliveries(subscribers, live, publish).len() && #[trigger] all_deliveries(
                subscribers,
                live,
                publish,
            )[d] == (DeliveryView {
                conn: live[ci].conn,
                frame: frame_for(publish, subscribers[si].qos),
                await_puback: publish_flag_qos(publish.flags) != 0 && subscribers[si].qos == 1,
            }),
        publish_flag_qos(publish.flags) == 0 ==> frame_for(publish, subscribers[si].qos) == publish.data,
        publish_decode(publish.data) is Ok,
        publish_decode(publish.data)->Ok_0.topic.topic == publish.topic.topic,
        publish_decode(publish.data)->Ok_0.payload == publish.payload,
{
    lemma_deliveries_for_contains(subscribers[si], live, publish, ci);
    let inner = deliveries_for(subscribers[si], live, publish);
    let e = choose|e: int|
        0 <= e < inner.len() && inner[e] == (DeliveryView {
            conn: live[ci].conn,
            frame: frame_for(publish, subscribers[si].qos),
            await_puback: publish_flag_qos(publish.flags) != 0 && subscribers[si].qos == 1,
        });
    lemma_all_deliveries_contains(subscribers, live, publish, si, e);
    let d = choose|d: int|
        0 <= d < all_deliveries(subscribers, live, publish).len() && all_deliveries(subscribers, live, publish)[d]
            == inner[e];
    assert(all_deliveries(subscribers, live, publish)[d] == inner[e]);
    lemma_publish_round_trip(publish);
}

/// The deliveries to one subscriber hold one for each live connection of
/// its client.
proof fn lemma_deliveries_for_contains(s: UserQosView, live: Seq<ConnectionView>, p: PublishView, ci: int)
    requires
        0 <= ci < live.len(),
        live[ci].client == s.user,
    ensures
        exists|e: int|
            0 <= e < deliveries_for(s, live, p).len() && deliveries_for(s, live, p)[e] == (DeliveryView {
                conn: live[ci].conn,
                frame: frame_for(p, s.qos),
                await_puback: publish_flag_qos(p.flags) != 0 && s.qos == 1,
            }),
    decreases live.len(),
{
    let target = DeliveryView {
        conn: live[ci].conn,
        frame: frame_for(p, s.qos),
        await_puback: publish_flag_qos(p.flags) != 0 && s.qos == 1,
    };
    if ci == live.len() - 1 {
        let r = deliveries_for(s, live, p);
        assert(r[r.len() - 1] == target);
    } else {
        lemma_deliveries_for_contains(s, live.drop_last(), p, ci);
        let prev = deliveries_for(s, live.drop_last(), p);
        let e = choose|e: int| 0 <= e < prev.len() && prev[e] == target;
        let r = deliveries_for(s, live, p);
        assert(r[e] == target);
    }
}

/// The deliveries to all subscribers hold those to each one of them.
proof fn lemma_all_deliveries_contains(
    subs: Seq<UserQosView>,
    live: Seq<ConnectionView>,
    p: PublishView,
    si: int,
    e: int,
)
    requires
        0 <= si < subs.len(),
        0 <= e < deliveries_for(subs[si], live, p).len(),
    ensures
        exists|d: int|
            0 <= d < all_deliveries(subs, live, p).len() && all_deliveries(subs, live, p)[d] == deliveries_for(
                subs[si],
                live,
                p,
            )[e],
    decreases subs.len(),
{
    let all = all_deliveries(subs, live, p);
    let prev = all_deliveries(subs.drop_last(), live, p);
    assert(all == prev + deliveries_for(subs.last(), live, p));
    if si == subs.len() - 1 {
        assert(subs.last() == subs[si]);
        assert(all[prev.len() + e] == deliveries_for(subs[si], live, p)[e]);
    } else {
        assert(subs.drop_last()[si] == subs[si]);
        lemma_all_deliveries_contains(subs.drop_last(), live, p, si, e);
        let d = choose|d: int| 0 <= d < prev.len() && prev[d] == deliveries_for(subs.drop_last()[si], live, p)[e];
        assert(all[d] == prev[d]);
    }
}

/// A last will reaches its topic's subscribers only when the connection
/// ends without a DISCONNECT: a DISCONNECT closes the connection gracefully,
/// and the will frame that `handle_last_will` records reads back as a
/// PUBLISH of the will message on the will topic, with the will's retain
/// flag and QoS.
pub proof fn lemma_last_will_frame(f: ConnectFlagView, will_topic: Seq<char>, will_message: Seq<char>)
    requires
        connect_flag_wf(f),
        encode_utf8(will_topic).len() < 65536,
        publish_remaining_length(
            publish_flag_qos(will_flags(f)),
            topic_wire(will_topic),
            encode_utf8(will_message),
        ) <= 255,
    ensures
        packet_action_spec(SessionState::Connected, PacketType::DISCONNECT) == PacketAction::CloseGracefully,
        ({
            let frame = publish_wire(will_flags(f), topic_wire(will_topic), encode_utf8(will_message));
            &&& publish_decode(frame) is Ok
            &&& publish_decode(frame)->Ok_0.topic.topic == will_topic
            &&& publish_decode(frame)->Ok_0.payload == will_message
            &&& publish_decode(frame)->Ok_0.flags == will_flags(f)
        }),
{
    let w = topic_wire(will_topic);
    lemma_topic_wire(will_topic);
    let n = encode_utf8(will_topic).len();
    assert(n == 256 * (n / 256) + n % 256);
    let t = TopicFilterView { topic: will_topic, msb: w[0], lsb: w[1], filter: w, qos: NO_QOS };
    assert(w =~= seq![t.msb, t.lsb] + encode_utf8(will_topic));
    let frame = publish_wire(will_flags(f), w, encode_utf8(will_message));
    let v = PublishView { flags: will_flags(f), topic: t, payload: will_message, data: frame };
    lemma_publish_round_trip(v);
}

/// A message published with the retain flag is replayed to a client that
/// then subscribes to its topic: the replay is that of the messages
/// retained before, followed by a frame that carries the new message on
/// that topic at the subscriber's QoS.
pub proof fn lemma_retained_replay(
    retained_before: Seq<RetainedView>,
    retained_after: Seq<RetainedView>,
    topic: Seq<char>,
    message: Seq<char>,
    qos: u8,
    frames: Seq<Seq<u8>>,
)
    requires
        retained_of(retained_after, topic) == retained_of(retained_before, topic).push(message),
        qos <= 1,
        encode_utf8(topic).len() < 65536,
        publish_remaining_length(qos, topic_wire(topic), encode_utf8(message)) <= 255,
        frames == replay_frames(retained_of(retained_after, topic), qos, topic),
    ensures
        frames == replay_frames(retained_of(retained_before, topic), qos, topic).push(frames.last()),
        publish_decode(frames.last()) is Ok,
        publish_decode(frames.last())->Ok_0.payload == message,
        publish_decode(frames.last())->Ok_0.topic.topic == topic,
        publish_flag_qos(publish_decode(frames.last())->Ok_0.flags) == qos,
{
    let after = retained_of(retained_after, topic);
    assert(after.drop_last() =~= retained_of(retained_before, topic));
    let w = topic_wire(topic);
    lemma_topic_wire(topic);
    let n = encode_utf8(topic).len();
    assert(n == 256 * (n / 256) + n % 256);
    let t = TopicFilterView { topic, msb: w[0], lsb: w[1], filter: w, qos: NO_QOS };
    assert(w =~= seq![t.msb, t.lsb] + encode_utf8(topic));
    let frame = publish_wire(qos_flags(qos), w, encode_utf8(message));
    let v = PublishView { flags: qos_flags(qos), topic: t, payload: message, data: frame };
    assert(frames.last() == frame);
    lemma_publish_round_trip(v);
}

/// A one-filter request without a pattern resolves to that filter alone.
pub proof fn lemma_resolve_single(f: TopicFilterView, keys: Seq<Seq<char>>, with_qos: bool)
    requires
        !has_star(f.topic),
    ensures
        resolve(seq![f], keys, with_qos) == seq![(f.topic, f.qos)],
{
    let ps = filter_pairs(seq![f]);
    assert(ps =~= seq![(f.topic, f.qos)]);
    assert(ps.drop_last() =~= Seq::<(Seq<char>, u8)>::empty());
    assert(ps.last() == (f.topic, f.qos));
    assert(expand_all(ps.drop_last(), keys, with_qos) =~= Seq::<(Seq<char>, u8)>::empty());
    assert(expand_all(ps, keys, with_qos) =~= Seq::<(Seq<char>, u8)>::empty());
    let all = ps + expand_all(ps, keys, with_qos);
    assert(all =~= seq![(f.topic, f.qos)]);
    assert(all.drop_last() =~= Seq::<(Seq<char>, u8)>::empty());
    assert(dedup(all.drop_last()) =~= Seq::<(Seq<char>, u8)>::empty());
    assert(dedup(all) =~= seq![(f.topic, f.qos)]);
}

/// Two SUBSCRIBE requests of one client for the same known topic (no
/// pattern), with any two QoS values, leave exactly one entry for the client
/// under that topic, holding the second QoS; and the second request
/// subscribes it to nothing new. The hypotheses are what `resolve_subscribe`
/// ensures of each call.
pub proof fn lemma_subscribe_twice_resolved(
    before: Seq<SubscriptionView>,
    middle: Seq<SubscriptionView>,
    after: Seq<SubscriptionView>,
    first: TopicFilterView,
    second: TopicFilterView,
    user: Seq<char>,
    k: int,
)
    requires
        table_wf(before),
        first.topic == second.topic,
        !has_star(first.topic),
        0 <= k < before.len(),
        before[k].topic == first.topic,
        middle.len() == before.len(),
        forall|j: int| 0 <= j < before.len() ==> #[trigger] middle[j].topic == before[j].topic,
        forall|j: int, i: int|
            0 <= j < before.len() && 0 <= i < resolve(seq![first], table_topics(before), true).len() && #[trigger] resolve(
                seq![first],
                table_topics(before),
                true,
            )[i].0 == #[trigger] before[j].topic ==> upserted(
                before[j].subscribers,
                middle[j].subscribers,
                user,
                resolve(seq![first], table_topics(before), true)[i].1,
            ),
        table_wf(middle),
        after.len() == middle.len(),
        forall|j: int|
            0 <= j < middle.len() ==> #[trigger] after[j].topic == middle[j].topic,
        forall|j: int, i: int|
            0 <= j < middle.len() && 0 <= i < resolve(seq![second], table_topics(middle), true).len()
                && #[trigger] resolve(seq![second], table_topics(middle), true)[i].0 == #[trigger] middle[j].topic
                ==> upserted(
                middle[j].subscribers,
                after[j].subscribers,
                user,
                resolve(seq![second], table_topics(middle), true)[i].1,
            ),
    ensures
        exists|m: int|
            0 <= m < after[k].subscribers.len() && after[k].subscribers[m] == (UserQosView {
                user,
                qos: second.qos,
            }) && forall|o: int|
                0 <= o < after[k].subscribers.len() && o != m ==> #[trigger] after[k].subscribers[o].user
                    != user,
        newly_subscribed(resolve(seq![second], table_topics(middle), true), middle, user).len() == 0,
{
    lemma_resolve_single(first, table_topics(before), true);
    lemma_resolve_single(second, table_topics(middle), true);
    let r1 = resolve(seq![first], table_topics(before), true);
    let r2 = resolve(seq![second], table_topics(middle), true);
    assert(r1[0].0 == before[k].topic);
    assert(r2[0].0 == middle[k].topic);
    assert(upserted(before[k].subscribers, middle[k].subscribers, user, first.qos));
    assert(upserted(middle[k].subscribers, after[k].subscribers, user, second.qos));
    assert(users_unique(before[k].subscribers));
    lemma_subscribe_twice(
        before[k].subscribers,
        middle[k].subscribers,
        after[k].subscribers,
        user,
        first.qos,
        second.qos,
    );
    crate::registry::lemma_upsert_unique(before[k].subscribers, middle[k].subscribers, user, first.qos);
    assert(middle[k].topic == second.topic);
    assert(has_user(middle[k].subscribers, user));
    assert(subscribed(middle, second.topic, user));
    assert(r2.drop_last() =~= Seq::<(Seq<char>, u8)>::empty());
    assert(r2.last().0 == second.topic);
    assert(newly_subscribed(r2.drop_last(), middle, user) =~= Seq::<Seq<char>>::empty());
}

} // verus!
