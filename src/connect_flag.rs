//! The CONNECT flags byte.

use crate::bits::{has_bit, lemma_pack8, lemma_unpack8, pick};
use crate::error::Mqtt5ReturnCodes;
use vstd::prelude::*;

verus! {

/// The meaning of a CONNECT flags byte.
pub struct ConnectFlagView {
    pub byte: u8,
    pub clean_session: bool,
    pub will_flag: bool,
    pub will_qos1: bool,
    pub will_qos2: bool,
    pub will_retain: bool,
    pub password_flag: bool,
    pub username_flag: bool,
}

/// The byte that carries the given flags; the reserved bit 0 stays clear.
pub open spec fn connect_flag_byte(
    clean_session: bool,
    will_flag: bool,
    will_qos1: bool,
    will_qos2: bool,
    will_retain: bool,
    password_flag: bool,
    username_flag: bool,
) -> u8 {
    pick(false, 1) | pick(clean_session, 2) | pick(will_flag, 4) | pick(will_qos1, 8) | pick(
        will_qos2,
        16,
    ) | pick(will_retain, 32) | pick(password_flag, 64) | pick(username_flag, 128)
}

/// What decoding a CONNECT flags byte yields: a protocol error when the
/// reserved bit is set or both will-QoS bits are set.
pub open spec fn connect_flag_decode(b: u8) -> Result<ConnectFlagView, Mqtt5ReturnCodes> {
    if has_bit(b, 1) || (has_bit(b, 8) && has_bit(b, 16)) {
        Err(Mqtt5ReturnCodes::MqttRcProtocolError)
    } else {
        Ok(
            ConnectFlagView {
                byte: b,
                clean_session: has_bit(b, 2),
                will_flag: has_bit(b, 4),
                will_qos1: has_bit(b, 8),
                will_qos2: has_bit(b, 16),
                will_retain: has_bit(b, 32),
                password_flag: has_bit(b, 64),
                username_flag: has_bit(b, 128),
            },
        )
    }
}

/// A well-formed flags value: the byte carries exactly the flags, and the
/// will-QoS is not 2.
pub open spec fn connect_flag_wf(v: ConnectFlagView) -> bool {
    &&& v.byte == connect_flag_byte(
        v.clean_session,
        v.will_flag,
        v.will_qos1,
        v.will_qos2,
        v.will_retain,
        v.password_flag,
        v.username_flag,
    )
    &&& !(v.will_qos1 && v.will_qos2)
}

/// The flags byte of a CONNECT packet.
#[derive(Clone, Copy, Debug)]
pub struct ConnectFlag {
    byte: u8,
    reserved: bool,
    clean_session: bool,
    will_flag: bool,
    will_qosb1: bool,
    will_qosb2: bool,
    will_retain: bool,
    password_flag: bool,
    username_flag: bool,
}

impl View for ConnectFlag {
    type V = ConnectFlagView;

    closed spec fn view(&self) -> ConnectFlagView {
        ConnectFlagView {
            byte: self.byte,
            clean_session: self.clean_session,
            will_flag: self.will_flag,
            will_qos1: self.will_qosb1,
            will_qos2: self.will_qosb2,
            will_retain: self.will_retain,
            password_flag: self.password_flag,
            username_flag: self.username_flag,
        }
    }
}

/// Decoding the byte of well-formed flags gives the same flags back.
pub proof fn lemma_connect_flag_round_trip(v: ConnectFlagView)
    requires
        connect_flag_wf(v),
    ensures
        connect_flag_decode(v.byte) == Ok::<ConnectFlagView, Mqtt5ReturnCodes>(v),
{
    lemma_pack8(
        pick(false, 1),
        pick(v.clean_session, 2),
        pick(v.will_flag, 4),
        pick(v.will_qos1, 8),
        pick(v.will_qos2, 16),
        pick(v.will_retain, 32),
        pick(v.password_flag, 64),
        pick(v.username_flag, 128),
    );
}

impl ConnectFlag {
    #[verifier::type_invariant]
    pub open spec fn inv(self) -> bool {
        connect_flag_wf(self@)
    }

    /// Builds the flags from optional bits (an absent bit is clear). Both
    /// will-QoS bits set is a protocol error.
    pub fn new(
        clean_session: Option<bool>,
        will_flag: Option<bool>,
        will_qos1: Option<bool>,
        will_qos2: Option<bool>,
        will_retain: Option<bool>,
        password_flag: Option<bool>,
        username_flag: Option<bool>,
    ) -> (r: Result<Self, Mqtt5ReturnCodes>)
        ensures
            (will_qos1 == Some(true) && will_qos2 == Some(true)) <==> r is Err,
            r is Err ==> r->Err_0 == Mqtt5ReturnCodes::MqttRcProtocolError,
            r is Ok ==> {
                let v = r->Ok_0@;
                &&& v.clean_session == (clean_session == Some(true))
                &&& v.will_flag == (will_flag == Some(true))
                &&& v.will_qos1 == (will_qos1 == Some(true))
                &&& v.will_qos2 == (will_qos2 == Some(true))
                &&& v.will_retain == (will_retain == Some(true))
                &&& v.password_flag == (password_flag == Some(true))
                &&& v.username_flag == (username_flag == Some(true))
                &&& connect_flag_wf(v)
            },
    {
        let q1 = unwrap_flag(will_qos1);
        let q2 = unwrap_flag(will_qos2);
        if q1 && q2 {
            return Err(Mqtt5ReturnCodes::MqttRcProtocolError);
        }
        Ok(
            Self::to_hex(
                unwrap_flag(clean_session),
                unwrap_flag(will_flag),
                q1,
                q2,
                unwrap_flag(will_retain),
                unwrap_flag(password_flag),
                unwrap_flag(username_flag),
            ),
        )
    }

    /// Decodes a flags byte received in a CONNECT packet.
    pub fn new_by_hex(hex: u8) -> (r: Result<Self, Mqtt5ReturnCodes>)
        ensures
            match r {
                Ok(f) => connect_flag_decode(hex) == Ok::<ConnectFlagView, Mqtt5ReturnCodes>(f@),
                Err(e) => connect_flag_decode(hex) == Err::<ConnectFlagView, Mqtt5ReturnCodes>(e),
            },
    {
        Self::to_bin(hex)
    }

    /// Packs the flags into their byte.
    fn to_hex(
        clean_session: bool,
        will_flag: bool,
        will_qos1: bool,
        will_qos2: bool,
        will_retain: bool,
        password_flag: bool,
        username_flag: bool,
    ) -> (r: Self)
        requires
            !(will_qos1 && will_qos2),
        ensures
            r@.clean_session == clean_session,
            r@.will_flag == will_flag,
            r@.will_qos1 == will_qos1,
            r@.will_qos2 == will_qos2,
            r@.will_retain == will_retain,
            r@.password_flag == password_flag,
            r@.username_flag == username_flag,
            connect_flag_wf(r@),
    {
        let byte: u8 = (if clean_session { 2u8 } else { 0u8 }) | (if will_flag { 4u8 } else { 0u8 })
            | (if will_qos1 { 8u8 } else { 0u8 }) | (if will_qos2 { 16u8 } else { 0u8 }) | (
        if will_retain {
            32u8
        } else {
            0u8
        }) | (if password_flag { 64u8 } else { 0u8 }) | (if username_flag { 128u8 } else { 0u8 });
        assert(byte == connect_flag_byte(
            clean_session,
            will_flag,
            will_qos1,
            will_qos2,
            will_retain,
            password_flag,
            username_flag,
        )) by {
            assert(0u8 | pick(clean_session, 2) == pick(clean_session, 2)) by (bit_vector);
        }
        ConnectFlag {
            byte,
            reserved: false,
            clean_session,
            will_flag,
            will_qosb1: will_qos1,
            will_qosb2: will_qos2,
            will_retain,
            password_flag,
            username_flag,
        }
    }

    /// Unpacks a flags byte, rejecting the reserved bit and a will-QoS of 2.
    fn to_bin(byte: u8) -> (r: Result<Self, Mqtt5ReturnCodes>)
        ensures
            match r {
                Ok(f) => connect_flag_decode(byte) == Ok::<ConnectFlagView, Mqtt5ReturnCodes>(f@),
                Err(e) => connect_flag_decode(byte) == Err::<ConnectFlagView, Mqtt5ReturnCodes>(e),
            },
    {
        proof {
            lemma_unpack8(byte);
        }
        let reserved = byte & 1 != 0;
        let will_qosb1 = byte & 8 != 0;
        let will_qosb2 = byte & 16 != 0;
        if reserved || (will_qosb1 && will_qosb2) {
            return Err(Mqtt5ReturnCodes::MqttRcProtocolError);
        }
        let f = ConnectFlag {
            byte,
            reserved: false,
            clean_session: byte & 2 != 0,
            will_flag: byte & 4 != 0,
            will_qosb1,
            will_qosb2,
            will_retain: byte & 32 != 0,
            password_flag: byte & 64 != 0,
            username_flag: byte & 128 != 0,
        };
        Ok(f)
    }

    pub fn get_clean_session(&self) -> (r: bool)
        ensures
            r == self@.clean_session,
    {
        self.clean_session
    }

    pub fn get_will_flag(&self) -> (r: bool)
        ensures
            r == self@.will_flag,
    {
        self.will_flag
    }

    pub fn get_will_qos1(&self) -> (r: bool)
        ensures
            r == self@.will_qos1,
    {
        self.will_qosb1
    }

    pub fn get_will_qos2(&self) -> (r: bool)
        ensures
            r == self@.will_qos2,
    {
        self.will_qosb2
    }

    pub fn get_will_retain(&self) -> (r: bool)
        ensures
            r == self@.will_retain,
    {
        self.will_retain
    }

    pub fn get_password_flag(&self) -> (r: bool)
        ensures
            r == self@.password_flag,
    {
        self.password_flag
    }

    pub fn get_username_flag(&self) -> (r: bool)
        ensures
            r == self@.username_flag,
    {
        self.username_flag
    }

    /// The flags byte, as sent on the wire.
    pub fn hex_value(&self) -> (r: u8)
        ensures
            r == self@.byte,
            connect_flag_wf(self@),
    {
        proof {
            use_type_invariant(self);
        }
        self.byte
    }
}

/// An absent flag counts as clear.
fn unwrap_flag(b: Option<bool>) -> (r: bool)
    ensures
        r == (b == Some(true)),
{
    match b {
        Some(x) => x,
        None => false,
    }
}

} // verus!
