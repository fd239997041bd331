//! The CONNECT payload: keep-alive, client identifier, will, credentials.

use crate::connect_flag::{ConnectFlag, ConnectFlagView};
use crate::error::Mqtt5ReturnCodes;
use crate::text::{copy_bytes, copy_string, push_all, slice_bytes, string_bytes, string_from_utf8};
use crate::topic_filter::{lemma_topic_wire, topic_wire};
use vstd::prelude::*;
use vstd::utf8::{decode_utf8, encode_scalar, encode_utf8, valid_utf8};

verus! {

/// Longest client identifier, in bytes.
pub const MAX_CLIENT_ID_BYTES: usize = 25;

/// Longest payload that fits a one-byte remaining length after the CONNECT
/// variable header.
pub const MAX_CONNECT_PAYLOAD: usize = 247;

/// What a CONNECT payload holds.
pub struct PayloadConnectView {
    pub client_identifier: Seq<char>,
    pub will_topic: Seq<char>,
    pub will_message: Seq<char>,
    pub username: Seq<char>,
    pub password: Seq<char>,
    pub keep_alive: u16,
    pub data: Seq<u8>,
}

/// A length-prefixed string that is left out when empty.
pub open spec fn optional_wire(s: Seq<char>) -> Seq<u8> {
    if s.len() == 0 {
        Seq::empty()
    } else {
        topic_wire(s)
    }
}

/// The payload bytes: keep-alive (big-endian), the client identifier, then
/// each of the other strings that is not empty.
pub open spec fn payload_wire(
    client_identifier: Seq<char>,
    will_topic: Seq<char>,
    will_message: Seq<char>,
    username: Seq<char>,
    password: Seq<char>,
    keep_alive: u16,
) -> Seq<u8> {
    seq![(keep_alive / 256) as u8, (keep_alive % 256) as u8] + topic_wire(client_identifier)
        + optional_wire(will_topic) + optional_wire(will_message) + optional_wire(username)
        + optional_wire(password)
}

/// Reads a length-prefixed UTF-8 string at `pos`: the string and the
/// position after it.
pub open spec fn read_field(d: Seq<u8>, pos: int) -> Option<(Seq<char>, int)> {
    if 0 <= pos && pos + 2 <= d.len() {
        let n = d[pos] as int * 256 + d[pos + 1] as int;
        let end = pos + 2 + n;
        if end <= d.len() && valid_utf8(d.subrange(pos + 2, end)) {
            Some((decode_utf8(d.subrange(pos + 2, end)), end))
        } else {
            None
        }
    } else {
        None
    }
}

/// Reads a non-empty field when `present`, else yields the empty string.
pub open spec fn read_optional(d: Seq<u8>, pos: int, present: bool) -> Option<(Seq<char>, int)> {
    if present {
        match read_field(d, pos) {
            Some((s, end)) => if s.len() > 0 {
                Some((s, end))
            } else {
                None
            },
            None => None,
        }
    } else {
        Some((Seq::empty(), pos))
    }
}

/// What decoding a CONNECT payload under the given flags yields: the fields
/// that the flags announce, in order, and nothing after them.
pub open spec fn payload_decode(d: Seq<u8>, f: ConnectFlagView) -> Option<PayloadConnectView> {
    if d.len() < 2 || d.len() > MAX_CONNECT_PAYLOAD {
        None
    } else {
        let keep_alive = (d[0] as int * 256 + d[1] as int) as u16;
        match read_field(d, 2) {
            None => None,
            Some((cid, end1)) => if encode_utf8(cid).len() > MAX_CLIENT_ID_BYTES {
                None
            } else {
                match read_optional(d, end1, f.will_flag) {
                    None => None,
                    Some((wt, end2)) => match read_optional(d, end2, f.will_flag) {
                        None => None,
                        Some((wm, end3)) => match read_optional(d, end3, f.username_flag) {
                            None => None,
                            Some((un, end4)) => match read_optional(d, end4, f.password_flag) {
                                None => None,
                                Some((pw, end5)) => if end5 == d.len() {
                                    Some(
                                        PayloadConnectView {
                                            client_identifier: cid,
                                            will_topic: wt,
                                            will_message: wm,
                                            username: un,
                                            password: pw,
                                            keep_alive,
                                            data: d,
                                        },
                                    )
                                } else {
                                    None
                                },
                            },
                        },
                    },
                }
            },
        }
    }
}

/// The flags announce exactly the strings that are present, so that the
/// payload can be read back under them.
pub open spec fn flags_match_payload(f: ConnectFlagView, p: PayloadConnectView) -> bool {
    &&& f.will_flag ==> p.will_topic.len() > 0 && p.will_message.len() > 0
    &&& !f.will_flag ==> p.will_topic.len() == 0 && p.will_message.len() == 0
    &&& f.username_flag <==> p.username.len() > 0
    &&& f.password_flag <==> p.password.len() > 0
}

/// A well-formed payload: its bytes are the wire form of its fields.
pub open spec fn payload_wf(p: PayloadConnectView) -> bool {
    &&& encode_utf8(p.client_identifier).len() <= MAX_CLIENT_ID_BYTES
    &&& p.data == payload_wire(
        p.client_identifier,
        p.will_topic,
        p.will_message,
        p.username,
        p.password,
        p.keep_alive,
    )
    &&& p.data.len() <= MAX_CONNECT_PAYLOAD
}

/// A string encodes to no bytes exactly when it is empty.
pub proof fn lemma_encode_empty(s: Seq<char>)
    ensures
        (encode_utf8(s).len() == 0) == (s.len() == 0),
{
    if s.len() > 0 {
        assert(encode_scalar(s[0] as u32).len() >= 1);
    }
}

/// A field that reads back is the wire form of what was read.
pub proof fn lemma_read_field_wire(d: Seq<u8>, pos: int)
    requires
        read_field(d, pos) is Some,
    ensures
        d.subrange(pos, read_field(d, pos)->Some_0.1) == topic_wire(read_field(d, pos)->Some_0.0),
{
    let n = d[pos] as int * 256 + d[pos + 1] as int;
    let b = d.subrange(pos + 2, pos + 2 + n);
    vstd::utf8::decode_utf8_encode_utf8(b);
    assert(encode_utf8(decode_utf8(b)) == b);
    lemma_topic_wire(decode_utf8(b));
    assert(d.subrange(pos, pos + 2 + n) =~= seq![d[pos], d[pos + 1]] + b);
}

/// An optional field that reads back is the wire form of what was read.
pub proof fn lemma_read_optional_wire(d: Seq<u8>, pos: int, present: bool)
    requires
        read_optional(d, pos, present) is Some,
        0 <= pos <= d.len(),
    ensures
        d.subrange(pos, read_optional(d, pos, present)->Some_0.1) == optional_wire(
            read_optional(d, pos, present)->Some_0.0,
        ),
        pos <= read_optional(d, pos, present)->Some_0.1 <= d.len(),
        present <==> read_optional(d, pos, present)->Some_0.0.len() > 0,
{
    if present {
        lemma_read_field_wire(d, pos);
    } else {
        assert(d.subrange(pos, pos) =~= Seq::<u8>::empty());
    }
}

/// A payload that decodes is well formed, and its flags announce exactly its
/// strings.
pub proof fn lemma_payload_decode_wf(d: Seq<u8>, f: ConnectFlagView)
    requires
        payload_decode(d, f) is Some,
    ensures
        payload_wf(payload_decode(d, f)->Some_0),
        flags_match_payload(f, payload_decode(d, f)->Some_0),
{
    let p = payload_decode(d, f)->Some_0;
    let (cid, end1) = read_field(d, 2)->Some_0;
    lemma_read_field_wire(d, 2);
    let (wt, end2) = read_optional(d, end1, f.will_flag)->Some_0;
    lemma_read_optional_wire(d, end1, f.will_flag);
    let (wm, end3) = read_optional(d, end2, f.will_flag)->Some_0;
    lemma_read_optional_wire(d, end2, f.will_flag);
    let (un, end4) = read_optional(d, end3, f.username_flag)->Some_0;
    lemma_read_optional_wire(d, end3, f.username_flag);
    let (pw, end5) = read_optional(d, end4, f.password_flag)->Some_0;
    lemma_read_optional_wire(d, end4, f.password_flag);
    assert(d =~= d.subrange(0, 2) + d.subrange(2, end1) + d.subrange(end1, end2) + d.subrange(end2, end3)
        + d.subrange(end3, end4) + d.subrange(end4, end5));
    assert(d.subrange(0, 2) =~= seq![(p.keep_alive / 256) as u8, (p.keep_alive % 256) as u8]);
}

/// A field whose wire form stands at `pos` reads back as the same string.
pub proof fn lemma_read_field(d: Seq<u8>, pos: int, s: Seq<char>)
    requires
        encode_utf8(s).len() < 65536,
        0 <= pos,
        pos + topic_wire(s).len() as int <= d.len(),
        d.subrange(pos, pos + topic_wire(s).len() as int) == topic_wire(s),
    ensures
        read_field(d, pos) == Some((s, pos + topic_wire(s).len() as int)),
{
    let n = encode_utf8(s).len() as int;
    let w = topic_wire(s);
    lemma_topic_wire(s);
    assert(d[pos] == w[0]);
    assert(d[pos + 1] == w[1]);
    assert(d.subrange(pos + 2, pos + 2 + n) =~= w.subrange(2, 2 + n));
    assert(w.subrange(2, 2 + n) =~= encode_utf8(s));
    vstd::utf8::encode_utf8_valid_utf8(s);
    vstd::utf8::encode_utf8_decode_utf8(s);
}

/// A field that is left out, or whose wire form stands at `pos`, reads back
/// as the same string.
pub proof fn lemma_read_optional(d: Seq<u8>, pos: int, s: Seq<char>, present: bool)
    requires
        encode_utf8(s).len() < 65536,
        present <==> s.len() > 0,
        0 <= pos,
        pos + optional_wire(s).len() as int <= d.len(),
        d.subrange(pos, pos + optional_wire(s).len() as int) == optional_wire(s),
    ensures
        read_optional(d, pos, present) == Some((s, pos + optional_wire(s).len() as int)),
{
    if present {
        lemma_read_field(d, pos, s);
    } else {
        assert(s =~= Seq::<char>::empty());
    }
}

/// Decoding the bytes of a well-formed payload, under flags that announce
/// exactly its strings, gives the payload back.
#[verifier::rlimit(80)]
pub proof fn lemma_payload_round_trip(p: PayloadConnectView, f: ConnectFlagView)
    requires
        payload_wf(p),
        flags_match_payload(f, p),
    ensures
        payload_decode(p.data, f) == Some(p),
{
    let ka = seq![(p.keep_alive / 256) as u8, (p.keep_alive % 256) as u8];
    let w0 = topic_wire(p.client_identifier);
    let w1 = optional_wire(p.will_topic);
    let w2 = optional_wire(p.will_message);
    let w3 = optional_wire(p.username);
    let w4 = optional_wire(p.password);
    let d = p.data;
    assert(d =~= ka + w0 + w1 + w2 + w3 + w4);
    assert(w0.len() <= d.len());
    assert(w1.len() <= d.len());
    assert(w2.len() <= d.len());
    assert(w3.len() <= d.len());
    assert(w4.len() <= d.len());
    lemma_encode_len_bound(p.client_identifier, w0);
    lemma_optional_len_bound(p.will_topic, w1);
    lemma_optional_len_bound(p.will_message, w2);
    lemma_optional_len_bound(p.username, w3);
    lemma_optional_len_bound(p.password, w4);
    let q1 = 2 + w0.len() as int;
    let q2 = q1 + w1.len() as int;
    let q3 = q2 + w2.len() as int;
    let q4 = q3 + w3.len() as int;
    let q5 = q4 + w4.len() as int;
    assert(d.subrange(2, q1) =~= w0);
    assert(d.subrange(q1, q2) =~= w1);
    assert(d.subrange(q2, q3) =~= w2);
    assert(d.subrange(q3, q4) =~= w3);
    assert(d.subrange(q4, q5) =~= w4);
    lemma_read_field(d, 2, p.client_identifier);
    lemma_read_optional(d, q1, p.will_topic, f.will_flag);
    lemma_read_optional(d, q2, p.will_message, f.will_flag);
    lemma_read_optional(d, q3, p.username, f.username_flag);
    lemma_read_optional(d, q4, p.password, f.password_flag);
    assert((d[0] as int * 256 + d[1] as int) as u16 == p.keep_alive);
}

/// The wire form of a string is two bytes longer than its encoding.
proof fn lemma_encode_len_bound(s: Seq<char>, w: Seq<u8>)
    requires
        w == topic_wire(s),
        w.len() <= MAX_CONNECT_PAYLOAD,
    ensures
        encode_utf8(s).len() < 65536,
{
    lemma_topic_wire(s);
}

/// The same for a string that may be left out.
proof fn lemma_optional_len_bound(s: Seq<char>, w: Seq<u8>)
    requires
        w == optional_wire(s),
        w.len() <= MAX_CONNECT_PAYLOAD,
    ensures
        encode_utf8(s).len() < 65536,
        s.len() == 0 ==> encode_utf8(s).len() == 0,
{
    lemma_encode_empty(s);
    lemma_topic_wire(s);
}

/// Every string of a well-formed payload fits a length prefix.
pub proof fn lemma_topic_len_fits(p: PayloadConnectView)
    requires
        payload_wf(p),
    ensures
        encode_utf8(p.will_topic).len() < 65536,
        encode_utf8(p.client_identifier).len() < 65536,
{
    lemma_topic_wire(p.client_identifier);
    lemma_topic_wire(p.will_topic);
    lemma_encode_empty(p.will_topic);
}

/// The payload of a CONNECT packet.
pub struct PayloadConnect {
    client_identifier: String,
    will_topic: String,
    will_message: String,
    username: String,
    password: String,
    keep_alive: u16,
    data: Vec<u8>,
}

impl View for PayloadConnect {
    type V = PayloadConnectView;

    closed spec fn view(&self) -> PayloadConnectView {
        PayloadConnectView {
            client_identifier: self.client_identifier@,
            will_topic: self.will_topic@,
            will_message: self.will_message@,
            username: self.username@,
            password: self.password@,
            keep_alive: self.keep_alive,
            data: self.data@,
        }
    }
}

impl Clone for PayloadConnect {
    fn clone(&self) -> (r: Self)
        ensures
            r@ == self@,
    {
        proof {
            use_type_invariant(self);
        }
        PayloadConnect {
            client_identifier: copy_string(&self.client_identifier),
            will_topic: copy_string(&self.will_topic),
            will_message: copy_string(&self.will_message),
            username: copy_string(&self.username),
            password: copy_string(&self.password),
            keep_alive: self.keep_alive,
            data: copy_bytes(&self.data),
        }
    }
}

/// Appends `bytes` with its two-byte length prefix.
fn push_field(bytes: &Vec<u8>, data: &mut Vec<u8>)
    requires
        bytes@.len() < 65536,
    ensures
        final(data)@ == old(data)@ + seq![(bytes@.len() / 256) as u8, (bytes@.len() % 256) as u8]
            + bytes@,
{
    let n = bytes.len();
    data.push((n / 256) as u8);
    data.push((n % 256) as u8);
    push_all(data, bytes);
    assert(final(data)@ =~= old(data)@ + seq![(n / 256) as u8, (n % 256) as u8] + bytes@);
}

impl PayloadConnect {
    #[verifier::type_invariant]
    pub open spec fn inv(self) -> bool {
        payload_wf(self@)
    }

    /// Builds a payload. A client identifier over 25 bytes is a protocol
    /// error; a payload over 247 bytes does not fit a frame.
    #[verifier::rlimit(80)]
    pub fn new(
        client_identifier: String,
        will_topic: String,
        will_message: String,
        username: String,
        password: String,
        keep_alive: u16,
    ) -> (r: Result<Self, Mqtt5ReturnCodes>)
        ensures
            encode_utf8(client_identifier@).len() > MAX_CLIENT_ID_BYTES ==> r == Err::<
                Self,
                Mqtt5ReturnCodes,
            >(Mqtt5ReturnCodes::MqttRcProtocolError),
            encode_utf8(client_identifier@).len() <= MAX_CLIENT_ID_BYTES && payload_wire(
                client_identifier@,
                will_topic@,
                will_message@,
                username@,
                password@,
                keep_alive,
            ).len() > MAX_CONNECT_PAYLOAD ==> r == Err::<Self, Mqtt5ReturnCodes>(
                Mqtt5ReturnCodes::MqttPacketInvalidSize,
            ),
            r is Ok <==> encode_utf8(client_identifier@).len() <= MAX_CLIENT_ID_BYTES && payload_wire(
                client_identifier@,
                will_topic@,
                will_message@,
                username@,
                password@,
                keep_alive,
            ).len() <= MAX_CONNECT_PAYLOAD,
            r is Ok ==> r->Ok_0@ == (PayloadConnectView {
                client_identifier: client_identifier@,
                will_topic: will_topic@,
                will_message: will_message@,
                username: username@,
                password: password@,
                keep_alive,
                data: payload_wire(
                    client_identifier@,
                    will_topic@,
                    will_message@,
                    username@,
                    password@,
                    keep_alive,
                ),
            }),
    {
        let cid = string_bytes(&client_identifier);
        if cid.len() > MAX_CLIENT_ID_BYTES {
            return Err(Mqtt5ReturnCodes::MqttRcProtocolError);
        }
        let wt = string_bytes(&will_topic);
        let wm = string_bytes(&will_message);
        let un = string_bytes(&username);
        let pw = string_bytes(&password);
        let ghost wire = payload_wire(
            client_identifier@,
            will_topic@,
            will_message@,
            username@,
            password@,
            keep_alive,
        );
        proof {
            lemma_encode_empty(will_topic@);
            lemma_encode_empty(will_message@);
            lemma_encode_empty(username@);
            lemma_encode_empty(password@);
            lemma_topic_wire(client_identifier@);
            lemma_topic_wire(will_topic@);
            lemma_topic_wire(will_message@);
            lemma_topic_wire(username@);
            lemma_topic_wire(password@);
        }
        if wt.len() > MAX_CONNECT_PAYLOAD || wm.len() > MAX_CONNECT_PAYLOAD || un.len()
            > MAX_CONNECT_PAYLOAD || pw.len() > MAX_CONNECT_PAYLOAD {
            return Err(Mqtt5ReturnCodes::MqttPacketInvalidSize);
        }
        let total = 4 + cid.len() + Self::field_size(&wt) + Self::field_size(&wm)
            + Self::field_size(&un) + Self::field_size(&pw);
        if total > MAX_CONNECT_PAYLOAD {
            return Err(Mqtt5ReturnCodes::MqttPacketInvalidSize);
        }
        let mut data: Vec<u8> = vec![(keep_alive / 256) as u8, (keep_alive % 256) as u8];
        push_field(&cid, &mut data);
        Self::add_to_payload(&wt, &mut data);
        Self::add_to_payload(&wm, &mut data);
        Self::add_to_payload(&un, &mut data);
        Self::add_to_payload(&pw, &mut data);
        assert(data@ =~= wire);
        Ok(
            PayloadConnect {
                client_identifier,
                will_topic,
                will_message,
                username,
                password,
                keep_alive,
                data,
            },
        )
    }

    /// The size that `add_to_payload` adds for `bytes`.
    fn field_size(bytes: &Vec<u8>) -> (r: usize)
        requires
            bytes@.len() <= MAX_CONNECT_PAYLOAD,
        ensures
            r == (if bytes@.len() == 0 {
                0
            } else {
                bytes@.len() + 2
            }),
    {
        if bytes.len() == 0 {
            0
        } else {
            bytes.len() + 2
        }
    }

    /// Appends a length-prefixed field when it is not empty.
    fn add_to_payload(bytes: &Vec<u8>, data: &mut Vec<u8>)
        requires
            bytes@.len() < 65536,
        ensures
            bytes@.len() == 0 ==> final(data)@ == old(data)@,
            bytes@.len() > 0 ==> final(data)@ == old(data)@ + seq![
                (bytes@.len() / 256) as u8,
                (bytes@.len() % 256) as u8,
            ] + bytes@,
    {
        if bytes.len() > 0 {
            push_field(bytes, data);
        }
    }

    /// Reads the length-prefixed string at `pos`.
    fn read_string(data: &Vec<u8>, pos: usize) -> (r: Option<(String, usize)>)
        ensures
            match r {
                Some((s, end)) => read_field(data@, pos as int) == Some((s@, end as int)),
                None => read_field(data@, pos as int) is None,
            },
    {
        if pos > data.len() || data.len() - pos < 2 {
            return None;
        }
        let n = data[pos] as usize * 256 + data[pos + 1] as usize;
        if n > data.len() - pos - 2 {
            return None;
        }
        let end = pos + 2 + n;
        let body = slice_bytes(data, pos + 2, end);
        match string_from_utf8(body) {
            Some(s) => Some((s, end)),
            None => None,
        }
    }

    /// Reads the string at `pos` when `present`, else yields an empty one.
    fn read_optional_string(data: &Vec<u8>, pos: usize, present: bool) -> (r: Option<(String, usize)>)
        ensures
            match r {
                Some((s, end)) => read_optional(data@, pos as int, present) == Some((s@, end as int)),
                None => read_optional(data@, pos as int, present) is None,
            },
    {
        if present {
            match Self::read_string(data, pos) {
                Some((s, end)) => {
                    if s.as_str().is_empty() {
                        None
                    } else {
                        Some((s, end))
                    }
                },
                None => None,
            }
        } else {
            Some((String::new(), pos))
        }
    }

    /// Decodes a CONNECT payload under the flags that announce its fields.
    /// Anything that does not read back is a protocol error.
    pub fn new_by_hex(data: Vec<u8>, connect_flags: ConnectFlag) -> (r: Result<Self, Mqtt5ReturnCodes>)
        ensures
            match r {
                Ok(p) => payload_decode(data@, connect_flags@) == Some(p@),
                Err(e) => payload_decode(data@, connect_flags@) is None && e
                    == Mqtt5ReturnCodes::MqttRcProtocolError,
            },
    {
        let ghost d = data@;
        let ghost f = connect_flags@;
        if data.len() < 2 || data.len() > MAX_CONNECT_PAYLOAD {
            return Err(Mqtt5ReturnCodes::MqttRcProtocolError);
        }
        let keep_alive = (data[0] as u16) * 256 + data[1] as u16;
        let (client_identifier, end1) = match Self::read_string(&data, 2) {
            Some(x) => x,
            None => {
                return Err(Mqtt5ReturnCodes::MqttRcProtocolError);
            },
        };
        let cid = string_bytes(&client_identifier);
        if cid.len() > MAX_CLIENT_ID_BYTES {
            return Err(Mqtt5ReturnCodes::MqttRcProtocolError);
        }
        let will = connect_flags.get_will_flag();
        let (will_topic, end2) = match Self::read_optional_string(&data, end1, will) {
            Some(x) => x,
            None => {
                return Err(Mqtt5ReturnCodes::MqttRcProtocolError);
            },
        };
        let (will_message, end3) = match Self::read_optional_string(&data, end2, will) {
            Some(x) => x,
            None => {
                return Err(Mqtt5ReturnCodes::MqttRcProtocolError);
            },
        };
        let (username, end4) = match Self::read_optional_string(
            &data,
            end3,
            connect_flags.get_username_flag(),
        ) {
            Some(x) => x,
            None => {
                return Err(Mqtt5ReturnCodes::MqttRcProtocolError);
            },
        };
        let (password, end5) = match Self::read_optional_string(
            &data,
            end4,
            connect_flags.get_password_flag(),
        ) {
            Some(x) => x,
            None => {
                return Err(Mqtt5ReturnCodes::MqttRcProtocolError);
            },
        };
        if end5 != data.len() {
            return Err(Mqtt5ReturnCodes::MqttRcProtocolError);
        }
        let ghost v = PayloadConnectView {
            client_identifier: client_identifier@,
            will_topic: will_topic@,
            will_message: will_message@,
            username: username@,
            password: password@,
            keep_alive,
            data: d,
        };
        proof {
            assert(payload_decode(d, f) == Some(v));
            lemma_payload_decode_wf(d, f);
        }
        Ok(
            PayloadConnect {
                client_identifier,
                will_topic,
                will_message,
                username,
                password,
                keep_alive,
                data,
            },
        )
    }

    /// The payload bytes.
    pub fn get_data(&self) -> (r: &Vec<u8>)
        ensures
            r@ == self@.data,
            payload_wf(self@),
    {
        proof {
            use_type_invariant(self);
        }
        &self.data
    }

    pub fn get_client_identifier(&self) -> (r: &String)
        ensures
            r@ == self@.client_identifier,
    {
        &self.client_identifier
    }

    pub fn get_will_topic(&self) -> (r: &String)
        ensures
            r@ == self@.will_topic,
    {
        &self.will_topic
    }

    pub fn get_will_message(&self) -> (r: &String)
        ensures
            r@ == self@.will_message,
    {
        &self.will_message
    }

    pub fn get_username(&self) -> (r: &String)
        ensures
            r@ == self@.username,
    {
        &self.username
    }

    pub fn get_password(&self) -> (r: &String)
        ensures
            r@ == self@.password,
    {
        &self.password
    }

    pub fn get_keep_alive(&self) -> (r: u16)
        ensures
            r == self@.keep_alive,
    {
        self.keep_alive
    }
}

} // verus!
