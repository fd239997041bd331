//! The CONNECT packet.

use crate::connect_flag::{connect_flag_decode, connect_flag_wf, lemma_connect_flag_round_trip, ConnectFlag, ConnectFlagView};
use crate::error::Mqtt5ReturnCodes;
use crate::header::MqttHeader;
use crate::payload_connect::{
    flags_match_payload, lemma_payload_round_trip, payload_decode,
    payload_wf, PayloadConnect, PayloadConnectView,
};
use crate::text::{push_all, slice_bytes};
use vstd::prelude::*;

verus! {

/// What a CONNECT holds.
pub struct ConnectView {
    pub flags: ConnectFlagView,
    pub payload: PayloadConnectView,
    pub data: Seq<u8>,
}

/// The CONNECT frame: the fixed header, the protocol name and level, the
/// flags byte, then the payload.
pub open spec fn connect_wire(flag_byte: u8, payload: Seq<u8>) -> Seq<u8> {
    seq![0x10u8, (8 + payload.len()) as u8, 4u8, 0u8, 0x4du8, 0x51u8, 0x54u8, 0x54u8, 4u8, flag_byte]
        + payload
}

/// Why a CONNECT with these flags and payload cannot be sent, if it cannot:
/// an empty client identifier needs a clean session, and the will and the
/// credentials need their flags.
pub open spec fn connect_check(f: ConnectFlagView, p: PayloadConnectView) -> Option<Mqtt5ReturnCodes> {
    if p.client_identifier.len() == 0 && !f.clean_session {
        Some(Mqtt5ReturnCodes::MqttRcProtocolError)
    } else if (p.will_topic.len() > 0 || p.will_message.len() > 0) && !f.will_flag {
        Some(Mqtt5ReturnCodes::MqttRcProtocolError)
    } else if p.username.len() > 0 && !f.username_flag {
        Some(Mqtt5ReturnCodes::MqttRcProtocolError)
    } else if p.password.len() > 0 && !f.password_flag {
        Some(Mqtt5ReturnCodes::MqttRcProtocolError)
    } else {
        None
    }
}

/// What decoding a CONNECT frame yields.
pub open spec fn connect_decode(d: Seq<u8>) -> Result<ConnectView, Mqtt5ReturnCodes> {
    if d.len() <= 2 || d[1] + 2 != d.len() || d.len() < 10 {
        Err(Mqtt5ReturnCodes::MqttPacketInvalidSize)
    } else {
        match connect_flag_decode(d[9]) {
            Err(_) => Err(Mqtt5ReturnCodes::MqttRcProtocolError),
            Ok(f) => match payload_decode(d.skip(10), f) {
                None => Err(Mqtt5ReturnCodes::MqttRcProtocolError),
                Some(p) => match connect_check(f, p) {
                    Some(e) => Err(e),
                    None => Ok(ConnectView { flags: f, payload: p, data: connect_wire(f.byte, p.data) }),
                },
            },
        }
    }
}

/// A CONNECT packet.
pub struct Connect {
    connect_flag: ConnectFlag,
    payload: PayloadConnect,
    data: Vec<u8>,
}

impl View for Connect {
    type V = ConnectView;

    closed spec fn view(&self) -> ConnectView {
        ConnectView { flags: self.connect_flag@, payload: self.payload@, data: self.data@ }
    }
}

impl Clone for Connect {
    fn clone(&self) -> (r: Self)
        ensures
            r@ == self@,
    {
        proof {
            use_type_invariant(self);
        }
        Connect { connect_flag: self.connect_flag, payload: self.payload.clone(), data: self.data.clone() }
    }
}

/// Decoding a CONNECT built from flags and a payload that announce the same
/// strings gives the same flags and payload back.
pub proof fn lemma_connect_round_trip(f: ConnectFlagView, p: PayloadConnectView)
    requires
        connect_flag_wf(f),
        payload_wf(p),
        flags_match_payload(f, p),
        connect_check(f, p) is None,
    ensures
        connect_decode(connect_wire(f.byte, p.data)) == Ok::<ConnectView, Mqtt5ReturnCodes>(
            ConnectView { flags: f, payload: p, data: connect_wire(f.byte, p.data) },
        ),
{
    let d = connect_wire(f.byte, p.data);
    lemma_connect_flag_round_trip(f);
    lemma_payload_round_trip(p, f);
    assert(d.skip(10) =~= p.data);
}

impl Connect {
    #[verifier::type_invariant]
    pub open spec fn inv(self) -> bool {
        &&& connect_flag_wf(self@.flags)
        &&& payload_wf(self@.payload)
        &&& connect_check(self@.flags, self@.payload) is None
        &&& self@.data == connect_wire(self@.flags.byte, self@.payload.data)
    }

    /// Builds a CONNECT from its flags and payload.
    pub fn new(connect_flag: ConnectFlag, payload_connect: PayloadConnect) -> (r: Result<Self, Mqtt5ReturnCodes>)
        ensures
            match connect_check(connect_flag@, payload_connect@) {
                Some(e) => r == Err::<Self, Mqtt5ReturnCodes>(e),
                None => r is Ok && r->Ok_0@ == (ConnectView {
                    flags: connect_flag@,
                    payload: payload_connect@,
                    data: connect_wire(connect_flag@.byte, payload_connect@.data),
                }),
            },
    {
        let flag_byte = connect_flag.hex_value();
        let payload = payload_connect.get_data();
        let remaining_length = (8 + payload.len()) as u8;
        let mut data: Vec<u8> = vec![0x10u8, remaining_length, 4u8, 0u8, 0x4du8, 0x51u8, 0x54u8, 0x54u8, 4u8, flag_byte];
        push_all(&mut data, payload);
        if payload_connect.get_client_identifier().as_str().is_empty() && !connect_flag.get_clean_session() {
            return Err(Mqtt5ReturnCodes::MqttRcProtocolError);
        }
        if (!payload_connect.get_will_topic().as_str().is_empty()
            || !payload_connect.get_will_message().as_str().is_empty())
            && !connect_flag.get_will_flag() {
            return Err(Mqtt5ReturnCodes::MqttRcProtocolError);
        }
        if !payload_connect.get_username().as_str().is_empty() && !connect_flag.get_username_flag() {
            return Err(Mqtt5ReturnCodes::MqttRcProtocolError);
        }
        if !payload_connect.get_password().as_str().is_empty() && !connect_flag.get_password_flag() {
            return Err(Mqtt5ReturnCodes::MqttRcProtocolError);
        }
        assert(data@ =~= connect_wire(flag_byte, payload@));
        Ok(Connect { connect_flag, payload: payload_connect, data })
    }

    pub fn get_data(&self) -> (r: Vec<u8>)
        ensures
            r@ == self@.data,
    {
        self.data.clone()
    }

    pub fn get_connect_flags(&self) -> (r: ConnectFlag)
        ensures
            r@ == self@.flags,
    {
        self.connect_flag
    }

    pub fn get_payload(&self) -> (r: PayloadConnect)
        ensures
            r@ == self@.payload,
    {
        self.payload.clone()
    }
}

/// Decodes a CONNECT frame.
pub fn decode_connect(header: MqttHeader) -> (r: Result<Connect, Mqtt5ReturnCodes>)
    ensures
        match r {
            Ok(c) => connect_decode(header@.data) == Ok::<ConnectView, Mqtt5ReturnCodes>(c@),
            Err(e) => connect_decode(header@.data) == Err::<ConnectView, Mqtt5ReturnCodes>(e),
        },
{
    let data = header.into_data();
    let n = data.len();
    if n <= 2 || data[1] as usize + 2 != n || n < 10 {
        return Err(Mqtt5ReturnCodes::MqttPacketInvalidSize);
    }
    let connect_flag = match ConnectFlag::new_by_hex(data[9]) {
        Ok(f) => f,
        Err(_) => {
            return Err(Mqtt5ReturnCodes::MqttRcProtocolError);
        },
    };
    let body = slice_bytes(&data, 10, n);
    assert(body@ =~= data@.skip(10));
    let payload = match PayloadConnect::new_by_hex(body, connect_flag) {
        Ok(p) => p,
        Err(_) => {
            return Err(Mqtt5ReturnCodes::MqttRcProtocolError);
        },
    };
    Connect::new(connect_flag, payload)
}

} // verus!
