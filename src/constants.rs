//! Packet kinds, fixed header values and the enumerations carried on the wire.

use vstd::prelude::*;

verus! {

/// The control packet kinds, numbered by the high nibble of the first frame byte.
#[allow(non_camel_case_types, clippy::upper_case_acronyms)]
#[derive(Clone, Copy, Debug, PartialEq, Eq, Structural)]
pub enum PacketType {
    CONNECT,
    CONNACK,
    PUBLISH,
    PUBACK,
    PUBREC,
    PUBREL,
    PUBCOMP,
    SUBSCRIBE,
    SUBACK,
    UNSUSCRIBE,
    UNSUBACK,
    PINGREQ,
    PINGRESP,
    DISCONNECT,
}

/// The nibble that stands for a packet kind.
pub open spec fn packet_type_value(t: PacketType) -> u8 {
    match t {
        PacketType::CONNECT => 1,
        PacketType::CONNACK => 2,
        PacketType::PUBLISH => 3,
        PacketType::PUBACK => 4,
        PacketType::PUBREC => 5,
        PacketType::PUBREL => 6,
        PacketType::PUBCOMP => 7,
        PacketType::SUBSCRIBE => 8,
        PacketType::SUBACK => 9,
        PacketType::UNSUSCRIBE => 10,
        PacketType::UNSUBACK => 11,
        PacketType::PINGREQ => 12,
        PacketType::PINGRESP => 13,
        PacketType::DISCONNECT => 14,
    }
}

/// The packet kind of a nibble, if the nibble names one.
pub open spec fn packet_type_of(n: u8) -> Option<PacketType> {
    if n == 1 {
        Some(PacketType::CONNECT)
    } else if n == 2 {
        Some(PacketType::CONNACK)
    } else if n == 3 {
        Some(PacketType::PUBLISH)
    } else if n == 4 {
        Some(PacketType::PUBACK)
    } else if n == 5 {
        Some(PacketType::PUBREC)
    } else if n == 6 {
        Some(PacketType::PUBREL)
    } else if n == 7 {
        Some(PacketType::PUBCOMP)
    } else if n == 8 {
        Some(PacketType::SUBSCRIBE)
    } else if n == 9 {
        Some(PacketType::SUBACK)
    } else if n == 10 {
        Some(PacketType::UNSUSCRIBE)
    } else if n == 11 {
        Some(PacketType::UNSUBACK)
    } else if n == 12 {
        Some(PacketType::PINGREQ)
    } else if n == 13 {
        Some(PacketType::PINGRESP)
    } else if n == 14 {
        Some(PacketType::DISCONNECT)
    } else {
        None
    }
}

impl PacketType {
    /// The nibble that stands for this packet kind.
    pub fn code(&self) -> (r: u8)
        ensures
            r == packet_type_value(*self),
            1 <= r <= 14,
            packet_type_of(r) == Some(*self),
    {
        match self {
            PacketType::CONNECT => 1,
            PacketType::CONNACK => 2,
            PacketType::PUBLISH => 3,
            PacketType::PUBACK => 4,
            PacketType::PUBREC => 5,
            PacketType::PUBREL => 6,
            PacketType::PUBCOMP => 7,
            PacketType::SUBSCRIBE => 8,
            PacketType::SUBACK => 9,
            PacketType::UNSUSCRIBE => 10,
            PacketType::UNSUBACK => 11,
            PacketType::PINGREQ => 12,
            PacketType::PINGRESP => 13,
            PacketType::DISCONNECT => 14,
        }
    }
}

pub const PACKET_FLAGS_CONNECT: u8 = 0x00;
pub const LENGTH_MSB_CONNECT: u8 = 0x00;
pub const LENGTH_LSB_CONNECT: u8 = 0x04;
pub const PROTOCOL_NAME_M: u8 = 0x4d;
pub const PROTOCOL_NAME_Q: u8 = 0x51;
pub const PROTOCOL_NAME_T: u8 = 0x54;
pub const PROTOCOL_VERSION: u8 = 0x04;
pub const PACKET_FLAGS_CONNACK: u8 = 0x00;
pub const REMAINING_LENGTH_CONNACK: u8 = 0x02;
pub const PUBACK_PACKET_FLAGS: u8 = 0x00;
pub const PUBACK_REMAINING_LENGTH: u8 = 0x02;
pub const SUBSCRIBE_PACKET_FLAGS: u8 = 0x02;
pub const SUBACK_PACKET_FLAGS: u8 = 0x00;
pub const UNSUBSCRIBE_PACKET_FLAGS: u8 = 0x02;
pub const UNSUBACK_PACKET_FLAGS: u8 = 0x00;
pub const UNSUBACK_REMAINING_LENGTH: u8 = 0x02;
pub const PINGREQ_PACKET_FLAGS: u8 = 0x00;
pub const PINGREQ_REMAINING_LENGTH: u8 = 0x00;
pub const PINGRESP_PACKET_FLAGS: u8 = 0x00;
pub const PINGRESP_REMAINING_LENGTH: u8 = 0x00;
pub const DISCONNECT_PACKET_FLAGS: u8 = 0x00;
pub const DISCONNECT_REMAINING_LENGTH: u8 = 0x00;

/// The session-present flag of a CONNACK.
#[derive(Clone, Copy, Debug, PartialEq, Eq, Structural)]
pub enum ConnectAcknowledgeFlags {
    Sp0,
    Sp1,
}

impl ConnectAcknowledgeFlags {
    /// The byte that stands for this flag.
    pub fn code(&self) -> (r: u8)
        ensures
            r == (if *self == ConnectAcknowledgeFlags::Sp0 { 0u8 } else { 1u8 }),
    {
        match self {
            ConnectAcknowledgeFlags::Sp0 => 0,
            ConnectAcknowledgeFlags::Sp1 => 1,
        }
    }
}

/// Why a connection was accepted or refused.
#[derive(Clone, Copy, Debug, PartialEq, Eq, Structural)]
pub enum ConnectReturnCode {
    ConnectionAccepted,
    InvalidProtocol,
    IdentifierRejected,
    ServerUnavailable,
    BadUserNameOrPassword,
    NotAuthorized,
    CloseConnection,
}

/// The reason number of a return code.
pub open spec fn connect_reason_value(c: ConnectReturnCode) -> u8 {
    match c {
        ConnectReturnCode::ConnectionAccepted => 0,
        ConnectReturnCode::InvalidProtocol => 1,
        ConnectReturnCode::IdentifierRejected => 2,
        ConnectReturnCode::ServerUnavailable => 3,
        ConnectReturnCode::BadUserNameOrPassword => 4,
        ConnectReturnCode::NotAuthorized => 5,
        ConnectReturnCode::CloseConnection => 6,
    }
}

impl ConnectReturnCode {
    /// The reason number of this return code.
    pub fn code(&self) -> (r: u8)
        ensures
            r == connect_reason_value(*self),
    {
        match self {
            ConnectReturnCode::ConnectionAccepted => 0,
            ConnectReturnCode::InvalidProtocol => 1,
            ConnectReturnCode::IdentifierRejected => 2,
            ConnectReturnCode::ServerUnavailable => 3,
            ConnectReturnCode::BadUserNameOrPassword => 4,
            ConnectReturnCode::NotAuthorized => 5,
            ConnectReturnCode::CloseConnection => 6,
        }
    }
}

/// The per-filter outcome of a SUBSCRIBE.
#[derive(Clone, Copy, Debug, PartialEq, Eq, Structural)]
pub enum SubackReturnCode {
    Failure,
    MaxQoS0,
    MaxQoS1,
    MaxQoS2,
}

/// The byte that stands for a SUBACK return code.
pub open spec fn suback_code_value(c: SubackReturnCode) -> u8 {
    match c {
        SubackReturnCode::Failure => 0x80,
        SubackReturnCode::MaxQoS0 => 0,
        SubackReturnCode::MaxQoS1 => 1,
        SubackReturnCode::MaxQoS2 => 2,
    }
}

/// The SUBACK return code of a byte, if the byte names one.
pub open spec fn suback_code_of(b: u8) -> Option<SubackReturnCode> {
    if b == 0x80 {
        Some(SubackReturnCode::Failure)
    } else if b == 0 {
        Some(SubackReturnCode::MaxQoS0)
    } else if b == 1 {
        Some(SubackReturnCode::MaxQoS1)
    } else if b == 2 {
        Some(SubackReturnCode::MaxQoS2)
    } else {
        None
    }
}

impl SubackReturnCode {
    /// The byte that stands for this return code.
    pub fn code(&self) -> (r: u8)
        ensures
            r == suback_code_value(*self),
            suback_code_of(r) == Some(*self),
    {
        match self {
            SubackReturnCode::Failure => 0x80,
            SubackReturnCode::MaxQoS0 => 0,
            SubackReturnCode::MaxQoS1 => 1,
            SubackReturnCode::MaxQoS2 => 2,
        }
    }
}

} // verus!
