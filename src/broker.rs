//! The broker's decisions: CONNECT handling, accepting and dispatching
//! PUBLISH packets, retained replay and the last will.

use crate::connect::Connect;
use crate::constants::{ConnectAcknowledgeFlags, ConnectReturnCode, PacketType};
use crate::connect_flag::ConnectFlagView;
use crate::error::Mqtt5ReturnCodes;
use crate::payload_connect::PayloadConnectView;
use crate::publish::{publish_remaining_length, publish_wire, Publish, PublishView};
use crate::publish_flag::{publish_flag_byte, publish_flag_qos, PublishFlag, PublishFlagView};
use crate::registry::{has_topic, SubscriptionTable, SubscriptionView};
use crate::session::{has_client, password_of, sessions_without, Credentials, SessionView, Sessions};
use crate::store::{queued_of, retained_of, OfflineQueues, RetainedStore};
use crate::text::{copy_bytes, copy_string, same_string};
use crate::topic_filter::{topic_wire, TopicFilter};
use crate::user_qos::{has_user, qos_views, user_removed, users_unique, UserQosView};
use vstd::prelude::*;
use vstd::utf8::encode_utf8;

verus! {

/// The return code a CONNECT earns from the credentials alone.
pub open spec fn auth_code(f: ConnectFlagView, p: PayloadConnectView, creds: Seq<(Seq<char>, Seq<char>)>) -> ConnectReturnCode {
    if f.password_flag && f.username_flag {
        if password_of(creds, p.username) == Some(p.password) {
            ConnectReturnCode::ConnectionAccepted
        } else {
            ConnectReturnCode::BadUserNameOrPassword
        }
    } else if f.username_flag {
        if password_of(creds, p.username) is Some {
            ConnectReturnCode::ConnectionAccepted
        } else {
            ConnectReturnCode::BadUserNameOrPassword
        }
    } else if f.password_flag {
        ConnectReturnCode::InvalidProtocol
    } else {
        ConnectReturnCode::ConnectionAccepted
    }
}

/// The return code of a CONNECT: a client without a clean session must
/// already have a session, then the credentials decide.
pub open spec fn connect_code(
    sessions: Seq<SessionView>,
    f: ConnectFlagView,
    p: PayloadConnectView,
    creds: Seq<(Seq<char>, Seq<char>)>,
) -> ConnectReturnCode {
    if !f.clean_session && !has_client(sessions, p.client_identifier) {
        ConnectReturnCode::IdentifierRejected
    } else {
        auth_code(f, p, creds)
    }
}

/// The read timeout, in seconds, for a keep-alive: one and a half times it,
/// none (zero) for zero.
pub open spec fn read_timeout(keep_alive: u16) -> u64 {
    (keep_alive + keep_alive / 2) as u64
}

/// The outcome of a CONNECT.
pub struct ConnectOutcome {
    pub acknowledge_flags: ConnectAcknowledgeFlags,
    pub return_code: ConnectReturnCode,
    pub accepted: bool,
    pub client: String,
    pub read_timeout_secs: u64,
    pub queued: Vec<Vec<u8>>,
}

/// A live connection and the client it speaks for.
pub struct Connection {
    pub conn: u32,
    pub client: String,
}

/// What a live connection holds.
pub struct ConnectionView {
    pub conn: u32,
    pub client: Seq<char>,
}

/// The views of the live connections.
pub open spec fn connection_views(l: Seq<Connection>) -> Seq<ConnectionView> {
    l.map_values(|c: Connection| ConnectionView { conn: c.conn, client: c.client@ })
}

/// One frame to write to one connection.
pub struct Delivery {
    pub conn: u32,
    pub frame: Vec<u8>,
    pub await_puback: bool,
}

/// What a delivery holds.
pub struct DeliveryView {
    pub conn: u32,
    pub frame: Seq<u8>,
    pub await_puback: bool,
}

/// The views of the deliveries.
pub open spec fn delivery_views(l: Seq<Delivery>) -> Seq<DeliveryView> {
    l.map_values(|d: Delivery| DeliveryView { conn: d.conn, frame: d.frame@, await_puback: d.await_puback })
}

/// The frame of a PUBLISH sent at QoS 0.
pub open spec fn downgraded(p: PublishView) -> Seq<u8> {
    publish_wire(
        PublishFlagView {
            byte: publish_flag_byte(p.flags.retain, false, false, p.flags.dup_flag),
            qos1: false,
            qos2: false,
            ..p.flags
        },
        p.topic.filter,
        encode_utf8(p.payload),
    )
}

/// The frame a subscriber gets: as published when the message is at QoS 0
/// or the subscriber asked for QoS 1; otherwise (a message above QoS 0 for a
/// subscriber that asked for any QoS other than 1, 0 included) it goes at
/// QoS 0.
pub open spec fn frame_for(p: PublishView, sub_qos: u8) -> Seq<u8> {
    if publish_flag_qos(p.flags) == 0 || sub_qos == 1 {
        p.data
    } else {
        downgraded(p)
    }
}

/// The deliveries to one subscriber: one per live connection of its client.
pub open spec fn deliveries_for(s: UserQosView, live: Seq<ConnectionView>, p: PublishView) -> Seq<DeliveryView>
    decreases live.len(),
{
    if live.len() == 0 {
        Seq::empty()
    } else if live.last().client == s.user {
        deliveries_for(s, live.drop_last(), p).push(
            DeliveryView {
                conn: live.last().conn,
                frame: frame_for(p, s.qos),
                await_puback: publish_flag_qos(p.flags) != 0 && s.qos == 1,
            },
        )
    } else {
        deliveries_for(s, live.drop_last(), p)
    }
}

/// The deliveries to all subscribers, subscriber by subscriber.
pub open spec fn all_deliveries(subs: Seq<UserQosView>, live: Seq<ConnectionView>, p: PublishView) -> Seq<
    DeliveryView,
>
    decreases subs.len(),
{
    if subs.len() == 0 {
        Seq::empty()
    } else {
        all_deliveries(subs.drop_last(), live, p) + deliveries_for(subs.last(), live, p)
    }
}

/// Whether a client has a live connection.
pub open spec fn is_live(live: Seq<ConnectionView>, client: Seq<char>) -> bool {
    exists|i: int| 0 <= i < live.len() && #[trigger] live[i].client == client
}

/// The subscribers of a topic; none when it is unknown.
pub open spec fn subscribers_in(v: Seq<SubscriptionView>, topic: Seq<char>) -> Seq<UserQosView> {
    if has_topic(v, topic) {
        v[choose|i: int| 0 <= i < v.len() && #[trigger] v[i].topic == topic].subscribers
    } else {
        Seq::empty()
    }
}

/// The frame of a PUBLISH sent at QoS 0.
fn downgrade(publish: &Publish) -> (r: Vec<u8>)
    ensures
        r@ == downgraded(publish@),
{
    let mut p = publish.clone();
    let _ = p.set_qos_flag(0);
    p.get_data()
}

/// The flags of a replayed retained message at QoS `q` (0 or 1).
pub open spec fn qos_flags(q: u8) -> PublishFlagView {
    PublishFlagView {
        byte: publish_flag_byte(false, q == 1, false, false),
        retain: false,
        qos1: q == 1,
        qos2: false,
        dup_flag: false,
    }
}

/// The replay of retained messages at QoS `q` on `topic`: one frame per
/// message that fits a frame, oldest first.
pub open spec fn replay_frames(msgs: Seq<Seq<char>>, q: u8, topic: Seq<char>) -> Seq<Seq<u8>>
    decreases msgs.len(),
{
    if msgs.len() == 0 {
        Seq::empty()
    } else if publish_remaining_length(q, topic_wire(topic), encode_utf8(msgs.last())) <= 255 {
        replay_frames(msgs.drop_last(), q, topic).push(
            publish_wire(qos_flags(q), topic_wire(topic), encode_utf8(msgs.last())),
        )
    } else {
        replay_frames(msgs.drop_last(), q, topic)
    }
}

/// The flags of a last-will PUBLISH: the will's retain and QoS bits.
pub open spec fn will_flags(f: ConnectFlagView) -> PublishFlagView {
    PublishFlagView {
        byte: publish_flag_byte(f.will_retain, f.will_qos1, f.will_qos2, false),
        retain: f.will_retain,
        qos1: f.will_qos1,
        qos2: f.will_qos2,
        dup_flag: false,
    }
}

/// PUBLISH flags for a subscriber's QoS: 0, or 1; anything else has no
/// flags.
pub fn set_flag(qos: u8) -> (r: Result<PublishFlag, Mqtt5ReturnCodes>)
    ensures
        qos <= 1 ==> r is Ok && r->Ok_0@ == qos_flags(qos),
        qos > 1 ==> r == Err::<PublishFlag, Mqtt5ReturnCodes>(Mqtt5ReturnCodes::MqttRcTopicFilterInvalid),
{
    if qos > 1 {
        return Err(Mqtt5ReturnCodes::MqttRcTopicFilterInvalid);
    }
    PublishFlag::new(None, Some(qos == 1), None, None)
}

/// Largest read, in bytes, while a frame's remaining bytes come in.
pub const READ_CHUNK: usize = 1024;

/// How many bytes follow the two-byte start of a frame. Two zero bytes are
/// a spurious frame; a start whose high nibble names no packet kind is a
/// protocol error.
pub fn frame_remaining(prefix: &Vec<u8>) -> (r: Result<usize, Mqtt5ReturnCodes>)
    requires
        prefix@.len() == 2,
    ensures
        prefix@[0] == 0 && prefix@[1] == 0 ==> r == Err::<usize, Mqtt5ReturnCodes>(
            Mqtt5ReturnCodes::MqttRcUnspecified,
        ),
        !(prefix@[0] == 0 && prefix@[1] == 0) ==> match crate::header::header_decode(prefix@) {
            Ok(h) => r == Ok::<usize, Mqtt5ReturnCodes>(h.remaining_length as usize),
            Err(e) => r == Err::<usize, Mqtt5ReturnCodes>(e),
        },
{
    if prefix[0] == 0 && prefix[1] == 0 {
        return Err(Mqtt5ReturnCodes::MqttRcUnspecified);
    }
    match crate::header::MqttHeader::new(copy_bytes(prefix)) {
        Ok(h) => Ok(h.get_remaining_length() as usize),
        Err(e) => Err(e),
    }
}

/// The size of the next read while `remaining` bytes of a frame are still
/// to come.
pub fn read_chunk_size(remaining: usize) -> (r: usize)
    ensures
        r == (if remaining < READ_CHUNK {
            remaining
        } else {
            READ_CHUNK
        }),
{
    if remaining < READ_CHUNK {
        remaining
    } else {
        READ_CHUNK
    }
}

/// Appends the message of a PUBLISH to its topic's retained messages when
/// its retain flag is set; leaves the store alone otherwise.
pub fn write_retain(retained: &mut RetainedStore, flags: PublishFlag, topic: &TopicFilter, publish: &Publish)
    requires
        old(retained).wf(),
    ensures
        final(retained).wf(),
        flags@.retain ==> retained_of(final(retained)@, topic@.topic) == retained_of(
            old(retained)@,
            topic@.topic,
        ).push(publish@.payload),
        forall|t: Seq<char>| (t != topic@.topic || !flags@.retain) ==> retained_of(final(retained)@, t)
            == retained_of(old(retained)@, t),
{
    if flags.get_retain() {
        retained.retain(&topic.get_topic(), publish.get_payload());
    }
}

/// Where a connection stands.
#[derive(Clone, Copy, Debug, PartialEq, Eq, Structural)]
pub enum SessionState {
    Unauthenticated,
    Connected,
}

/// What to do with a packet that arrived on a connection.
#[derive(Clone, Copy, Debug, PartialEq, Eq, Structural)]
pub enum PacketAction {
    HandleConnect,
    HandlePublish,
    HandleSubscribe,
    HandleUnsubscribe,
    SendPingresp,
    CloseGracefully,
    Ignore,
    CloseNotAuthorized,
}

/// The action for a packet kind in a connection state: before a CONNECT
/// has been accepted, anything but a CONNECT closes the connection; a
/// DISCONNECT closes it without the will; kinds the broker does not serve
/// are ignored.
pub open spec fn packet_action_spec(state: SessionState, kind: PacketType) -> PacketAction {
    if state == SessionState::Unauthenticated && kind != PacketType::CONNECT {
        PacketAction::CloseNotAuthorized
    } else {
        match kind {
            PacketType::CONNECT => PacketAction::HandleConnect,
            PacketType::PUBLISH => PacketAction::HandlePublish,
            PacketType::SUBSCRIBE => PacketAction::HandleSubscribe,
            PacketType::UNSUSCRIBE => PacketAction::HandleUnsubscribe,
            PacketType::PINGREQ => PacketAction::SendPingresp,
            PacketType::DISCONNECT => PacketAction::CloseGracefully,
            _ => PacketAction::Ignore,
        }
    }
}

/// The action for a packet kind in a connection state.
pub fn packet_action(state: SessionState, kind: PacketType) -> (r: PacketAction)
    ensures
        r == packet_action_spec(state, kind),
{
    if state == SessionState::Unauthenticated && kind != PacketType::CONNECT {
        return PacketAction::CloseNotAuthorized;
    }
    match kind {
        PacketType::CONNECT => PacketAction::HandleConnect,
        PacketType::PUBLISH => PacketAction::HandlePublish,
        PacketType::SUBSCRIBE => PacketAction::HandleSubscribe,
        PacketType::UNSUSCRIBE => PacketAction::HandleUnsubscribe,
        PacketType::PINGREQ => PacketAction::SendPingresp,
        PacketType::DISCONNECT => PacketAction::CloseGracefully,
        _ => PacketAction::Ignore,
    }
}

/// Whether sending a queued frame calls for a PUBACK: it is a PUBLISH that
/// reads back at QoS 1.
pub fn frame_awaits_puback(frame: &Vec<u8>) -> (r: bool)
    ensures
        r == (crate::header::header_decode(frame@) is Ok && crate::publish::publish_decode(frame@) is Ok
            && publish_flag_qos(crate::publish::publish_decode(frame@)->Ok_0.flags) == 1),
{
    let header = match crate::header::MqttHeader::new(copy_bytes(frame)) {
        Ok(h) => h,
        Err(_) => {
            return false;
        },
    };
    match crate::publish::decode_publish(header) {
        Ok(p) => p.get_flags().get_qos() == 1,
        Err(_) => false,
    }
}

/// The broker's state.
pub struct Broker {
    pub subscriptions: SubscriptionTable,
    pub retained: RetainedStore,
    pub queues: OfflineQueues,
    pub sessions: Sessions,
    pub credentials: Credentials,
}

impl Broker {
    /// Every part is well formed.
    pub open spec fn wf(&self) -> bool {
        &&& self.subscriptions.wf()
        &&& self.retained.wf()
        &&& self.queues.wf()
        &&& self.sessions.wf()
        &&& self.credentials.wf()
    }

    /// A broker with nothing stored.
    pub fn new() -> (r: Self)
        ensures
            r.wf(),
            r.subscriptions@.len() == 0,
            r.retained@.len() == 0,
            r.queues@.len() == 0,
            r.sessions@.len() == 0,
            r.credentials@.len() == 0,
    {
        Broker {
            subscriptions: SubscriptionTable::new(),
            retained: RetainedStore::new(),
            queues: OfflineQueues::new(),
            sessions: Sessions::new(),
            credentials: Credentials::new(),
        }
    }

    /// Handles a CONNECT on connection `conn`. A clean-session CONNECT
    /// first tears down the client's prior state, whatever the outcome: the
    /// client leaves every topic and its queue is emptied. Then the
    /// credentials decide. A refused CONNECT registers no session. An
    /// accepted one registers the session (dropping any other of that
    /// connection or client) and, without a clean session, hands back the
    /// client's queued frames for replay and empties its queue.
    pub fn resolve_connect(&mut self, connect: &Connect, conn: u32) -> (r: ConnectOutcome)
        requires
            old(self).wf(),
        ensures
            final(self).wf(),
            ({
                let f = connect@.flags;
                let p = connect@.payload;
                let id = p.client_identifier;
                let code = connect_code(old(self).sessions@, f, p, old(self).credentials@);
                &&& r.return_code == code
                &&& r.accepted == (code == ConnectReturnCode::ConnectionAccepted)
                &&& r.acknowledge_flags == (if r.accepted && !f.clean_session {
                    ConnectAcknowledgeFlags::Sp1
                } else {
                    ConnectAcknowledgeFlags::Sp0
                })
                &&& r.read_timeout_secs == read_timeout(p.keep_alive)
                &&& final(self).credentials@ == old(self).credentials@
                &&& final(self).retained@ == old(self).retained@
                &&& r.queued@.map_values(|x: Vec<u8>| x@) == (if r.accepted && !f.clean_session {
                    queued_of(old(self).queues@, id)
                } else {
                    Seq::empty()
                })
                &&& !r.accepted ==> {
                    &&& r.client@.len() == 0
                    &&& final(self).sessions@ == old(self).sessions@
                }
                &&& r.accepted ==> {
                    &&& r.client@ == id
                    &&& final(self).sessions@ == sessions_without(old(self).sessions@, conn, id).push(
                        SessionView { conn, client: id },
                    )
                }
                &&& (r.accepted || f.clean_session) ==> {
                    &&& queued_of(final(self).queues@, id) == Seq::<Seq<u8>>::empty()
                    &&& forall|c: Seq<char>| c != id ==> queued_of(final(self).queues@, c) == queued_of(
                        old(self).queues@,
                        c,
                    )
                }
                &&& !(r.accepted || f.clean_session) ==> final(self).queues@ == old(self).queues@
                &&& !f.clean_session ==> final(self).subscriptions@ == old(self).subscriptions@
                &&& f.clean_session ==> {
                    &&& final(self).subscriptions@.len() == old(self).subscriptions@.len()
                    &&& forall|k: int| 0 <= k < old(self).subscriptions@.len() ==> {
                        &&& #[trigger] final(self).subscriptions@[k].topic == old(self).subscriptions@[k].topic
                        &&& user_removed(
                            old(self).subscriptions@[k].subscribers,
                            final(self).subscriptions@[k].subscribers,
                            id,
                        )
                    }
                }
            }),
    {
        let flags = connect.get_connect_flags();
        let payload = connect.get_payload();
        let client = copy_string(payload.get_client_identifier());
        let keep_alive = payload.get_keep_alive();
        let timeout: u64 = keep_alive as u64 + (keep_alive / 2) as u64;
        let clean = flags.get_clean_session();
        if !clean && !self.sessions.contains_client(&client) {
            return ConnectOutcome {
                acknowledge_flags: ConnectAcknowledgeFlags::Sp0,
                return_code: ConnectReturnCode::IdentifierRejected,
                accepted: false,
                client: String::new(),
                read_timeout_secs: timeout,
                queued: Vec::new(),
            };
        }
        if clean {
            let _ = self.subscriptions.remove_client(&client);
            let _ = self.queues.take(&client);
        }
        let code = self.check_credentials(flags, &payload);
        if code != ConnectReturnCode::ConnectionAccepted {
            return ConnectOutcome {
                acknowledge_flags: ConnectAcknowledgeFlags::Sp0,
                return_code: code,
                accepted: false,
                client: String::new(),
                read_timeout_secs: timeout,
                queued: Vec::new(),
            };
        }
        self.sessions.register(conn, &client);
        let acknowledge_flags = if clean {
            ConnectAcknowledgeFlags::Sp0
        } else {
            ConnectAcknowledgeFlags::Sp1
        };
        let queued = if clean {
            Vec::new()
        } else {
            self.queues.take(&client)
        };
        ConnectOutcome {
            acknowledge_flags,
            return_code: code,
            accepted: true,
            client,
            read_timeout_secs: timeout,
            queued,
        }
    }

    /// The return code that the credentials earn.
    fn check_credentials(&self, flags: crate::connect_flag::ConnectFlag, payload: &crate::payload_connect::PayloadConnect) -> (r:
        ConnectReturnCode)
        requires
            self.wf(),
        ensures
            r == auth_code(flags@, payload@, self.credentials@),
    {
        let pf = flags.get_password_flag();
        let uf = flags.get_username_flag();
        if pf && uf {
            match self.credentials.password_for(payload.get_username()) {
                Some(p) => {
                    if same_string(&p, payload.get_password()) {
                        ConnectReturnCode::ConnectionAccepted
                    } else {
                        ConnectReturnCode::BadUserNameOrPassword
                    }
                },
                None => ConnectReturnCode::BadUserNameOrPassword,
            }
        } else if uf {
            match self.credentials.password_for(payload.get_username()) {
                Some(_) => ConnectReturnCode::ConnectionAccepted,
                None => ConnectReturnCode::BadUserNameOrPassword,
            }
        } else if pf {
            ConnectReturnCode::InvalidProtocol
        } else {
            ConnectReturnCode::ConnectionAccepted
        }
    }

    /// Accepts a PUBLISH from a client: a retained message is appended to
    /// its topic's retained messages, and the topic becomes known. Returns
    /// whether a PUBACK is owed (QoS 1).
    pub fn accept_publish(&mut self, publish: &Publish) -> (r: bool)
        requires
            old(self).wf(),
        ensures
            final(self).wf(),
            r == (publish_flag_qos(publish@.flags) == 1),
            publish@.flags.retain ==> retained_of(final(self).retained@, publish@.topic.topic) == retained_of(
                old(self).retained@,
                publish@.topic.topic,
            ).push(publish@.payload),
            forall|t: Seq<char>| (t != publish@.topic.topic || !publish@.flags.retain) ==> retained_of(
                final(self).retained@,
                t,
            ) == retained_of(old(self).retained@, t),
            has_topic(old(self).subscriptions@, publish@.topic.topic) ==> final(self).subscriptions@ == old(
                self,
            ).subscriptions@,
            !has_topic(old(self).subscriptions@, publish@.topic.topic) ==> final(self).subscriptions@ == old(
                self,
            ).subscriptions@.push(SubscriptionView { topic: publish@.topic.topic, subscribers: Seq::empty() }),
            final(self).queues@ == old(self).queues@,
            final(self).sessions@ == old(self).sessions@,
    {
        let flags = publish.get_flags();
        let topic_filter = publish.get_topic();
        write_retain(&mut self.retained, flags, &topic_filter, publish);
        self.subscriptions.ensure_topic(&topic_filter.get_topic());
        flags.get_qos() == 1
    }

    /// Fans a PUBLISH out. Each subscriber of its topic gets the frame on
    /// every live connection of its client: a message above QoS 0 goes at
    /// QoS 0 to a subscriber that asked for any QoS other than 1, and a
    /// PUBACK is awaited when the message is above QoS 0 and the subscriber
    /// asked for QoS 1. A subscriber without a live connection has the frame
    /// appended to its offline queue.
    pub fn dispatch(&mut self, publish: &Publish, live: &Vec<Connection>) -> (r: Vec<Delivery>)
        requires
            old(self).wf(),
        ensures
            final(self).wf(),
            ({
                let subs = subscribers_in(old(self).subscriptions@, publish@.topic.topic);
                let lv = connection_views(live@);
                &&& delivery_views(r@) == all_deliveries(subs, lv, publish@)
                &&& forall|c: Seq<char>| #[trigger] queued_of(final(self).queues@, c) == (if has_user(subs, c)
                    && !is_live(lv, c) {
                    queued_of(old(self).queues@, c).push(publish@.data)
                } else {
                    queued_of(old(self).queues@, c)
                })
            }),
            final(self).subscriptions@ == old(self).subscriptions@,
            final(self).retained@ == old(self).retained@,
            final(self).sessions@ == old(self).sessions@,
    {
        let ghost old_q = self.queues@;
        let ghost old_subs = self.subscriptions@;
        let ghost old_ret = self.retained@;
        let ghost old_ses = self.sessions@;
        let ghost lv = connection_views(live@);
        let topic = publish.get_topic().get_topic();
        let subscribers = self.subscriptions.subscribers_of(&topic);
        let ghost subs = qos_views(subscribers@);
        proof {
            match self.subscriptions.position_spec(topic@) {
                Some(i) => {
                    assert(subs == self.subscriptions@[i].subscribers);
                    assert(users_unique(subs));
                },
                None => {
                    assert(subs =~= Seq::<UserQosView>::empty());
                },
            }
            assert(subs == subscribers_in(self.subscriptions@, topic@));
        }
        let data = publish.get_data();
        let qos = publish.get_flags().get_qos();
        let mut out: Vec<Delivery> = Vec::new();
        let mut i: usize = 0;
        while i < subscribers.len()
            invariant
                self.wf(),
                self.subscriptions@ == old_subs,
                self.retained@ == old_ret,
                self.sessions@ == old_ses,
                subs == qos_views(subscribers@),
                users_unique(subs),
                lv == connection_views(live@),
                data@ == publish@.data,
                qos == publish_flag_qos(publish@.flags),
                i <= subs.len(),
                delivery_views(out@) == all_deliveries(subs.take(i as int), lv, publish@),
                forall|c: Seq<char>| #[trigger] queued_of(self.queues@, c) == (if has_user(subs.take(i as int), c)
                    && !is_live(lv, c) {
                    queued_of(old_q, c).push(publish@.data)
                } else {
                    queued_of(old_q, c)
                }),
            decreases subscribers.len() - i,
        {
            let s = &subscribers[i];
            let user = s.get_user();
            let sub_qos = s.get_qos();
            let ghost sv = subs[i as int];
            proof {
                assert(subs.take(i as int + 1).drop_last() =~= subs.take(i as int));
                assert(subs.take(i as int + 1).last() == sv);
            }
            let frame = if qos == 0 || sub_qos == 1 {
                copy_bytes(&data)
            } else {
                downgrade(publish)
            };
            let mut found = false;
            let mut j: usize = 0;
            while j < live.len()
                invariant
                    lv == connection_views(live@),
                    j <= lv.len(),
                    sv.user == user@,
                    sv.qos == sub_qos,
                    frame@ == frame_for(publish@, sub_qos),
                    qos == publish_flag_qos(publish@.flags),
                    found == is_live(lv.take(j as int), user@),
                    delivery_views(out@) == all_deliveries(subs.take(i as int), lv, publish@) + deliveries_for(
                        sv,
                        lv.take(j as int),
                        publish@,
                    ),
                decreases live.len() - j,
            {
                proof {
                    assert(lv.take(j as int + 1).drop_last() =~= lv.take(j as int));
                    assert(lv.take(j as int + 1).last() == lv[j as int]);
                }
                let c = &live[j];
                let ghost before = delivery_views(out@);
                if same_string(&c.client, &user) {
                    found = true;
                    out.push(Delivery { conn: c.conn, frame: copy_bytes(&frame), await_puback: qos != 0 && sub_qos == 1 });
                    proof {
                        assert(delivery_views(out@) =~= before.push(DeliveryView {
                            conn: c.conn,
                            frame: frame@,
                            await_puback: qos != 0 && sub_qos == 1,
                        }));
                        assert(lv.take(j as int + 1)[j as int].client == user@);
                    }
                } else {
                    proof {
                        if is_live(lv.take(j as int + 1), user@) {
                            let m = choose|m: int| 0 <= m < lv.take(j as int + 1).len() && #[trigger] lv.take(j as int + 1)[m].client == user@;
                            assert(lv.take(j as int)[m].client == user@);
                        }
                    }
                }
                j = j + 1;
            }
            proof {
                assert(lv.take(lv.len() as int) =~= lv);
            }
            if !found {
                let ghost mid = self.queues@;
                self.queues.enqueue(&user, copy_bytes(&data));
                proof {
                    assert(!has_user(subs.take(i as int), user@)) by {
                        if has_user(subs.take(i as int), user@) {
                            let m = choose|m: int| 0 <= m < subs.take(i as int).len() && #[trigger] subs.take(i as int)[m].user == user@;
                            assert(subs[m].user == subs[i as int].user);
                        }
                    }
                }
            }
            proof {
                assert forall|c: Seq<char>| has_user(subs.take(i as int + 1), c) == (has_user(subs.take(i as int), c) || c == sv.user) by {
                    if has_user(subs.take(i as int + 1), c) {
                        let m = choose|m: int| 0 <= m < subs.take(i as int + 1).len() && #[trigger] subs.take(i as int + 1)[m].user == c;
                        if m < i {
                            assert(subs.take(i as int)[m].user == c);
                        }
                    }
                    if has_user(subs.take(i as int), c) {
                        let m = choose|m: int| 0 <= m < subs.take(i as int).len() && #[trigger] subs.take(i as int)[m].user == c;
                        assert(subs.take(i as int + 1)[m].user == c);
                    }
                    if c == sv.user {
                        assert(subs.take(i as int + 1)[i as int].user == c);
                    }
                }
            }
            i = i + 1;
        }
        proof {
            assert(subs.take(subs.len() as int) =~= subs);
        }
        out
    }

    /// The frames that replay the retained messages of `topic` to a new
    /// subscriber `user`, at the QoS it subscribed with, oldest first; a
    /// message that does not fit a frame at that QoS is left out. A topic
    /// too long for a filter, or a QoS above 1, is an error; a client not
    /// subscribed gets nothing.
    pub fn retained_publishes(&self, topic: &String, user: &String) -> (r: Result<Vec<Vec<u8>>, Mqtt5ReturnCodes>)
        requires
            self.wf(),
        ensures
            ({
                let msgs = retained_of(self.retained@, topic@);
                let subs = subscribers_in(self.subscriptions@, topic@);
                if encode_utf8(topic@).len() >= 65536 {
                    r == Err::<Vec<Vec<u8>>, Mqtt5ReturnCodes>(Mqtt5ReturnCodes::MqttPacketInvalidSize)
                } else if !has_user(subs, user@) {
                    r is Ok && r->Ok_0@.len() == 0
                } else {
                    let q = subs[choose|j: int| crate::user_qos::first_user_index(subs, user@, j)].qos;
                    if q > 1 {
                        r == Err::<Vec<Vec<u8>>, Mqtt5ReturnCodes>(Mqtt5ReturnCodes::MqttRcTopicFilterInvalid)
                    } else {
                        r is Ok && r->Ok_0@.map_values(|f: Vec<u8>| f@) == replay_frames(msgs, q, topic@)
                    }
                }
            }),
    {
        let messages = self.retained.retained_for(topic);
        let ghost msgs = messages@.map_values(|m: String| m@);
        let subscribers = self.subscriptions.subscribers_of(topic);
        let ghost subs = qos_views(subscribers@);
        proof {
            match self.subscriptions.position_spec(topic@) {
                Some(i) => {
                    assert(subs == self.subscriptions@[i].subscribers);
                },
                None => {
                    assert(subs =~= Seq::<UserQosView>::empty());
                },
            }
            assert(subs == subscribers_in(self.subscriptions@, topic@));
        }
        let tf = match TopicFilter::from_topic(copy_string(topic), None) {
            Ok(t) => t,
            Err(e) => {
                return Err(e);
            },
        };
        proof {
            crate::topic_filter::lemma_topic_wire(topic@);
        }
        let j = match crate::user_qos::user_position(&subscribers, user) {
            Some(j) => j,
            None => {
                return Ok(Vec::new());
            },
        };
        let q = subscribers[j].get_qos();
        assert(has_user(subs, user@)) by {
            assert(subs[j as int].user == user@);
        }
        proof {
            let c = choose|c: int| crate::user_qos::first_user_index(subs, user@, c);
            if c != j {
                if c < j {
                    assert(subs[c].user == user@);
                } else {
                    assert(subs[j as int].user == user@);
                }
            }
        }
        let flags = match set_flag(q) {
            Ok(f) => f,
            Err(e) => {
                return Err(e);
            },
        };
        proof {
            use_type_invariant(&tf);
        }
        let ghost cj = choose|c: int| crate::user_qos::first_user_index(subs, user@, c);
        let mut frames: Vec<Vec<u8>> = Vec::new();
        let mut i: usize = 0;
        while i < messages.len()
            invariant
                msgs == messages@.map_values(|m: String| m@),
                msgs == retained_of(self.retained@, topic@),
                subs == subscribers_in(self.subscriptions@, topic@),
                encode_utf8(topic@).len() < 65536,
                has_user(subs, user@),
                cj == choose|c: int| crate::user_qos::first_user_index(subs, user@, c),
                q == subs[cj].qos,
                i <= msgs.len(),
                q <= 1,
                flags@ == qos_flags(q),
                tf@.filter == topic_wire(topic@),
                frames@.map_values(|f: Vec<u8>| f@) == replay_frames(msgs.take(i as int), q, topic@),
            decreases messages.len() - i,
        {
            let m = copy_string(&messages[i]);
            assert(msgs[i as int] == m@);
            proof {
                assert(msgs.take(i as int + 1).drop_last() =~= msgs.take(i as int));
                assert(msgs.take(i as int + 1).last() == m@);
                assert(publish_flag_qos(flags@) == q);
            }
            match Publish::new(flags, tf.clone(), m) {
                Ok(p) => {
                    let ghost before = frames@.map_values(|f: Vec<u8>| f@);
                    let d = p.get_data();
                    frames.push(d);
                    assert(frames@.map_values(|f: Vec<u8>| f@) =~= before.push(d@));
                },
                Err(_) => {},
            }
            i = i + 1;
        }
        assert(msgs.take(msgs.len() as int) =~= msgs);
        Ok(frames)
    }

    /// Records the last will of an accepted CONNECT: its topic becomes
    /// known, and the PUBLISH frame to send should the connection end
    /// without a DISCONNECT is returned (empty when there is no will, or
    /// when it does not fit a frame).
    pub fn handle_last_will(&mut self, connect: &Connect) -> (r: Vec<u8>)
        requires
            old(self).wf(),
        ensures
            final(self).wf(),
            final(self).retained@ == old(self).retained@,
            final(self).queues@ == old(self).queues@,
            final(self).sessions@ == old(self).sessions@,
            !connect@.flags.will_flag ==> r@.len() == 0 && final(self).subscriptions@ == old(self).subscriptions@,
            connect@.flags.will_flag ==> {
                let wt = connect@.payload.will_topic;
                let frame = publish_wire(
                    will_flags(connect@.flags),
                    topic_wire(wt),
                    encode_utf8(connect@.payload.will_message),
                );
                &&& has_topic(old(self).subscriptions@, wt) ==> final(self).subscriptions@ == old(self).subscriptions@
                &&& !has_topic(old(self).subscriptions@, wt) ==> final(self).subscriptions@ == old(
                    self,
                ).subscriptions@.push(SubscriptionView { topic: wt, subscribers: Seq::empty() })
                &&& publish_remaining_length(
                    publish_flag_qos(will_flags(connect@.flags)),
                    topic_wire(wt),
                    encode_utf8(connect@.payload.will_message),
                ) <= 255 ==> r@ == frame
                &&& r@.len() == 0 || r@ == frame
            },
    {
        let flags = connect.get_connect_flags();
        if !flags.get_will_flag() {
            return Vec::new();
        }
        let payload = connect.get_payload();
        let topic = copy_string(payload.get_will_topic());
        let _ = payload.get_data();
        proof {
            crate::payload_connect::lemma_topic_len_fits(payload@);
        }
        let tf = match TopicFilter::from_topic(copy_string(&topic), None) {
            Ok(t) => t,
            Err(_) => {
                return Vec::new();
            },
        };
        proof {
            crate::topic_filter::lemma_topic_wire(topic@);
            use_type_invariant(&tf);
        }
        self.subscriptions.ensure_topic(&topic);
        let _ = flags.hex_value();
        let pflags = match PublishFlag::new(
            Some(flags.get_will_retain()),
            Some(flags.get_will_qos1()),
            Some(flags.get_will_qos2()),
            Some(false),
        ) {
            Ok(f) => f,
            Err(_) => {
                return Vec::new();
            },
        };
        match Publish::new(pflags, tf, copy_string(payload.get_will_message())) {
            Ok(p) => p.get_data(),
            Err(_) => Vec::new(),
        }
    }

    /// Turns a stored last-will frame into the PUBLISH to dispatch once its
    /// connection has ended without a DISCONNECT; a retained will is
    /// appended to its topic's retained messages. An empty or unreadable
    /// frame gives nothing.
    pub fn resolve_last_will(&mut self, data: Vec<u8>) -> (r: Option<Publish>)
        requires
            old(self).wf(),
        ensures
            final(self).wf(),
            final(self).subscriptions@ == old(self).subscriptions@,
            final(self).queues@ == old(self).queues@,
            final(self).sessions@ == old(self).sessions@,
            match r {
                Some(p) => {
                    &&& data@.len() > 0
                    &&& crate::header::header_decode(data@) is Ok
                    &&& crate::publish::publish_decode(data@) == Ok::<PublishView, Mqtt5ReturnCodes>(p@)
                    &&& p@.flags.retain ==> retained_of(final(self).retained@, p@.topic.topic) == retained_of(
                        old(self).retained@,
                        p@.topic.topic,
                    ).push(p@.payload)
                    &&& forall|t: Seq<char>| (t != p@.topic.topic || !p@.flags.retain) ==> retained_of(
                        final(self).retained@,
                        t,
                    ) == retained_of(old(self).retained@, t)
                },
                None => {
                    &&& data@.len() == 0 || crate::header::header_decode(data@) is Err
                        || crate::publish::publish_decode(data@) is Err
                    &&& final(self).retained@ == old(self).retained@
                },
            },
    {
        if data.len() == 0 {
            return None;
        }
        let ghost d = data@;
        let header = match crate::header::MqttHeader::new(data) {
            Ok(h) => h,
            Err(_) => {
                return None;
            },
        };
        let publish = match crate::publish::decode_publish(header) {
            Ok(p) => p,
            Err(_) => {
                return None;
            },
        };
        write_retain(&mut self.retained, publish.get_flags(), &publish.get_topic(), &publish);
        Some(publish)
    }
}

} // verus!
