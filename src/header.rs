//! The fixed header of a frame: packet kind and remaining length.

use crate::constants::{packet_type_of, PacketType};
use crate::error::Mqtt5ReturnCodes;
use vstd::prelude::*;

verus! {

/// What a frame's fixed header says.
pub struct MqttHeaderView {
    pub packet_type: PacketType,
    pub remaining_length: u8,
    pub data: Seq<u8>,
}

/// What reading the fixed header of `d` yields: a protocol error when the
/// frame is shorter than two bytes or its high nibble names no packet kind.
pub open spec fn header_decode(d: Seq<u8>) -> Result<MqttHeaderView, Mqtt5ReturnCodes> {
    if d.len() < 2 {
        Err(Mqtt5ReturnCodes::MqttRcProtocolError)
    } else {
        match packet_type_of(d[0] / 16) {
            None => Err(Mqtt5ReturnCodes::MqttRcProtocolError),
            Some(t) => Ok(MqttHeaderView { packet_type: t, remaining_length: d[1], data: d }),
        }
    }
}

/// A frame whose fixed header has been read.
#[derive(Debug)]
pub struct MqttHeader {
    control_packet_type: PacketType,
    remaining_length: u8,
    data: Vec<u8>,
}

impl View for MqttHeader {
    type V = MqttHeaderView;

    closed spec fn view(&self) -> MqttHeaderView {
        MqttHeaderView {
            packet_type: self.control_packet_type,
            remaining_length: self.remaining_length,
            data: self.data@,
        }
    }
}

impl MqttHeader {
    #[verifier::type_invariant]
    pub open spec fn inv(self) -> bool {
        header_decode(self@.data) == Ok::<MqttHeaderView, Mqtt5ReturnCodes>(self@)
    }

    /// Reads the fixed header of a frame.
    pub fn new(data: Vec<u8>) -> (r: Result<Self, Mqtt5ReturnCodes>)
        ensures
            match r {
                Ok(h) => header_decode(data@) == Ok::<MqttHeaderView, Mqtt5ReturnCodes>(h@),
                Err(e) => header_decode(data@) == Err::<MqttHeaderView, Mqtt5ReturnCodes>(e),
            },
    {
        check_packet_type(data)
    }

    pub fn get_control_packet_type(&self) -> (r: PacketType)
        ensures
            r == self@.packet_type,
    {
        self.control_packet_type
    }

    pub fn get_remaining_length(&self) -> (r: u8)
        ensures
            r == self@.remaining_length,
    {
        self.remaining_length
    }

    /// The whole frame.
    pub fn get_data(&self) -> (r: &Vec<u8>)
        ensures
            r@ == self@.data,
            header_decode(self@.data) == Ok::<MqttHeaderView, Mqtt5ReturnCodes>(self@),
    {
        proof {
            use_type_invariant(self);
        }
        &self.data
    }

    /// Gives the frame back.
    pub fn into_data(self) -> (r: Vec<u8>)
        ensures
            r@ == self@.data,
            header_decode(r@) == Ok::<MqttHeaderView, Mqtt5ReturnCodes>(self@),
    {
        proof {
            use_type_invariant(&self);
        }
        self.data
    }
}

/// The packet kind named by a nibble.
fn packet_type_from_nibble(n: u8) -> (r: Option<PacketType>)
    ensures
        r == packet_type_of(n),
{
    if n == 1 {
        Some(PacketType::CONNECT)
    } else if n == 2 {
        Some(PacketType::CONNACK)
    } else if n == 3 {
        Some(PacketType::PUBLISH)
    } else if n == 4 {
        Some(PacketType::PUBACK)
    } else if n == 5 {
        Some(PacketType::PUBREC)
    } else if n == 6 {
        Some(PacketType::PUBREL)
    } else if n == 7 {
        Some(PacketType::PUBCOMP)
    } else if n == 8 {
        Some(PacketType::SUBSCRIBE)
    } else if n == 9 {
        Some(PacketType::SUBACK)
    } else if n == 10 {
        Some(PacketType::UNSUSCRIBE)
    } else if n == 11 {
        Some(PacketType::UNSUBACK)
    } else if n == 12 {
        Some(PacketType::PINGREQ)
    } else if n == 13 {
        Some(PacketType::PINGRESP)
    } else if n == 14 {
        Some(PacketType::DISCONNECT)
    } else {
        None
    }
}

/// Reads the packet kind and remaining length of a frame.
pub fn check_packet_type(data: Vec<u8>) -> (r: Result<MqttHeader, Mqtt5ReturnCodes>)
    ensures
        match r {
            Ok(h) => header_decode(data@) == Ok::<MqttHeaderView, Mqtt5ReturnCodes>(h@),
            Err(e) => header_decode(data@) == Err::<MqttHeaderView, Mqtt5ReturnCodes>(e),
        },
{
    if data.len() < 2 {
        return Err(Mqtt5ReturnCodes::MqttRcProtocolError);
    }
    match packet_type_from_nibble(data[0] / 16) {
        None => Err(Mqtt5ReturnCodes::MqttRcProtocolError),
        Some(t) => {
            let remaining_length = data[1];
            Ok(MqttHeader { control_packet_type: t, remaining_length, data })
        },
    }
}

} // verus!
