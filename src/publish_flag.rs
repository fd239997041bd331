//! The PUBLISH flags nibble.

use crate::bits::{has_bit, lemma_pack4, pick};
use crate::error::Mqtt5ReturnCodes;
use vstd::prelude::*;

verus! {

/// The meaning of a PUBLISH flags nibble.
pub struct PublishFlagView {
    pub byte: u8,
    pub retain: bool,
    pub qos1: bool,
    pub qos2: bool,
    pub dup_flag: bool,
}

/// The nibble that carries the given flags.
pub open spec fn publish_flag_byte(retain: bool, qos1: bool, qos2: bool, dup_flag: bool) -> u8 {
    pick(retain, 1) | pick(qos1, 2) | pick(qos2, 4) | pick(dup_flag, 8)
}

/// A well-formed flags value: the nibble carries exactly the flags and the
/// QoS is not 2.
pub open spec fn publish_flag_wf(v: PublishFlagView) -> bool {
    &&& v.byte == publish_flag_byte(v.retain, v.qos1, v.qos2, v.dup_flag)
    &&& !(v.qos1 && v.qos2)
}

/// What decoding the low nibble of `b` yields: a protocol error when both
/// QoS bits are set. The high nibble is not looked at.
pub open spec fn publish_flag_decode(b: u8) -> Result<PublishFlagView, Mqtt5ReturnCodes> {
    if has_bit(b, 2) && has_bit(b, 4) {
        Err(Mqtt5ReturnCodes::MqttRcProtocolError)
    } else {
        Ok(
            PublishFlagView {
                byte: publish_flag_byte(has_bit(b, 1), has_bit(b, 2), has_bit(b, 4), has_bit(b, 8)),
                retain: has_bit(b, 1),
                qos1: has_bit(b, 2),
                qos2: has_bit(b, 4),
                dup_flag: has_bit(b, 8),
            },
        )
    }
}

/// The QoS level that well-formed flags stand for.
pub open spec fn publish_flag_qos(v: PublishFlagView) -> u8 {
    if v.qos1 {
        1
    } else if v.qos2 {
        2
    } else {
        0
    }
}

/// Decoding the nibble of well-formed flags gives the same flags back.
pub proof fn lemma_publish_flag_round_trip(v: PublishFlagView)
    requires
        publish_flag_wf(v),
    ensures
        publish_flag_decode(v.byte) == Ok::<PublishFlagView, Mqtt5ReturnCodes>(v),
        v.byte < 16,
{
    lemma_pack4(pick(v.retain, 1), pick(v.qos1, 2), pick(v.qos2, 4), pick(v.dup_flag, 8));
}

/// The flags nibble of a PUBLISH packet.
#[derive(Clone, Copy, Debug)]
pub struct PublishFlag {
    byte: u8,
    retain: bool,
    qosb1: bool,
    qosb2: bool,
    dup_flag: bool,
}

impl View for PublishFlag {
    type V = PublishFlagView;

    closed spec fn view(&self) -> PublishFlagView {
        PublishFlagView {
            byte: self.byte,
            retain: self.retain,
            qos1: self.qosb1,
            qos2: self.qosb2,
            dup_flag: self.dup_flag,
        }
    }
}

impl PublishFlag {
    #[verifier::type_invariant]
    pub open spec fn inv(self) -> bool {
        publish_flag_wf(self@)
    }

    /// Builds the flags from optional bits (an absent bit is clear). Both
    /// QoS bits set is a protocol error.
    pub fn new(retain: Option<bool>, qos1: Option<bool>, qos2: Option<bool>, dup_flag: Option<bool>) -> (r:
        Result<Self, Mqtt5ReturnCodes>)
        ensures
            (qos1 == Some(true) && qos2 == Some(true)) <==> r is Err,
            r is Err ==> r->Err_0 == Mqtt5ReturnCodes::MqttRcProtocolError,
            r is Ok ==> {
                let v = r->Ok_0@;
                &&& v.retain == (retain == Some(true))
                &&& v.qos1 == (qos1 == Some(true))
                &&& v.qos2 == (qos2 == Some(true))
                &&& v.dup_flag == (dup_flag == Some(true))
                &&& publish_flag_wf(v)
            },
    {
        Self::to_hex(flag_of(retain), flag_of(qos1), flag_of(qos2), flag_of(dup_flag))
    }

    /// Decodes the low nibble of a PUBLISH packet's first byte.
    pub fn new_by_hex(hex: u8) -> (r: Result<Self, Mqtt5ReturnCodes>)
        ensures
            match r {
                Ok(f) => publish_flag_decode(hex) == Ok::<PublishFlagView, Mqtt5ReturnCodes>(f@),
                Err(e) => publish_flag_decode(hex) == Err::<PublishFlagView, Mqtt5ReturnCodes>(e),
            },
    {
        Self::to_bin(hex)
    }

    /// Packs the flags into their nibble, refusing a QoS of 2.
    fn to_hex(retain: bool, qos1: bool, qos2: bool, dup_flag: bool) -> (r: Result<Self, Mqtt5ReturnCodes>)
        ensures
            (qos1 && qos2) <==> r is Err,
            r is Err ==> r->Err_0 == Mqtt5ReturnCodes::MqttRcProtocolError,
            r is Ok ==> r->Ok_0@ == (PublishFlagView {
                byte: publish_flag_byte(retain, qos1, qos2, dup_flag),
                retain,
                qos1,
                qos2,
                dup_flag,
            }),
    {
        if qos1 && qos2 {
            return Err(Mqtt5ReturnCodes::MqttRcProtocolError);
        }
        let byte: u8 = (if retain { 1u8 } else { 0u8 }) | (if qos1 { 2u8 } else { 0u8 }) | (if qos2 {
            4u8
        } else {
            0u8
        }) | (if dup_flag { 8u8 } else { 0u8 });
        Ok(PublishFlag { byte, retain, qosb1: qos1, qosb2: qos2, dup_flag })
    }

    /// Unpacks the low nibble of `byte`.
    fn to_bin(byte: u8) -> (r: Result<Self, Mqtt5ReturnCodes>)
        ensures
            match r {
                Ok(f) => publish_flag_decode(byte) == Ok::<PublishFlagView, Mqtt5ReturnCodes>(f@),
                Err(e) => publish_flag_decode(byte) == Err::<PublishFlagView, Mqtt5ReturnCodes>(e),
            },
    {
        Self::to_hex(byte & 1 != 0, byte & 2 != 0, byte & 4 != 0, byte & 8 != 0)
    }

    /// Sets the QoS to 0 or 1; any other level leaves the flags as they are.
    /// Returns the flags as they stand afterwards.
    pub fn set_qos(&mut self, qos: u8) -> (r: Self)
        ensures
            r@ == final(self)@,
            qos == 0 ==> final(self)@ == (PublishFlagView {
                byte: publish_flag_byte(old(self)@.retain, false, false, old(self)@.dup_flag),
                qos1: false,
                qos2: false,
                ..old(self)@
            }),
            qos == 1 ==> final(self)@ == (PublishFlagView {
                byte: publish_flag_byte(old(self)@.retain, true, false, old(self)@.dup_flag),
                qos1: true,
                qos2: false,
                ..old(self)@
            }),
            qos > 1 ==> final(self)@ == old(self)@,
    {
        if qos == 0 || qos == 1 {
            match Self::to_hex(self.retain, qos == 1, false, self.dup_flag) {
                Ok(p) => {
                    *self = p;
                },
                Err(_) => {},
            }
        }
        *self
    }

    /// The flags nibble, as sent on the wire.
    pub fn hex_value(&self) -> (r: u8)
        ensures
            r == self@.byte,
            r < 16,
            publish_flag_wf(self@),
    {
        proof {
            use_type_invariant(self);
            lemma_publish_flag_round_trip(self@);
        }
        self.byte
    }

    pub fn get_retain(&self) -> (r: bool)
        ensures
            r == self@.retain,
    {
        self.retain
    }

    /// The QoS level: 0 with neither bit, 1 with the first bit, 2 with the
    /// second alone.
    pub fn get_qos(&self) -> (r: u8)
        ensures
            r == publish_flag_qos(self@),
            r <= 1 <==> !self@.qos2,
    {
        proof {
            use_type_invariant(self);
        }
        if self.qosb1 {
            1
        } else if self.qosb2 {
            2
        } else {
            0
        }
    }
}

/// An absent flag counts as clear.
fn flag_of(b: Option<bool>) -> (r: bool)
    ensures
        r == (b == Some(true)),
{
    match b {
        Some(x) => x,
        None => false,
    }
}

} // verus!
