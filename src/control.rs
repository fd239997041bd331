//! Packets of fixed shape: CONNACK, PUBACK, UNSUBACK, PINGREQ, PINGRESP and
//! DISCONNECT.

use crate::constants::{ConnectAcknowledgeFlags, PacketType};
use crate::return_codes::{ConnectReturnCodes, ConnectReturnCodesView};
use vstd::prelude::*;

verus! {

/// The byte of a session-present flag.
pub open spec fn ack_flag_byte(f: ConnectAcknowledgeFlags) -> u8 {
    match f {
        ConnectAcknowledgeFlags::Sp0 => 0,
        ConnectAcknowledgeFlags::Sp1 => 1,
    }
}

/// What a CONNACK holds.
pub struct ConnackView {
    pub flags: ConnectAcknowledgeFlags,
    pub return_codes: ConnectReturnCodesView,
    pub data: Seq<u8>,
}

/// The CONNACK frame: the CONNACK nibble, remaining length two, the flag,
/// the code.
pub open spec fn connack_wire(f: ConnectAcknowledgeFlags, code: u8) -> Seq<u8> {
    seq![0x20, 2, ack_flag_byte(f), code]
}

/// A CONNACK packet.
pub struct Connack {
    connect_acknowledge_flags: ConnectAcknowledgeFlags,
    connect_return_codes: ConnectReturnCodes,
    data: Vec<u8>,
}

impl View for Connack {
    type V = ConnackView;

    closed spec fn view(&self) -> ConnackView {
        ConnackView {
            flags: self.connect_acknowledge_flags,
            return_codes: self.connect_return_codes@,
            data: self.data@,
        }
    }
}

impl Connack {
    #[verifier::type_invariant]
    pub open spec fn inv(self) -> bool {
        self@.data == connack_wire(self@.flags, self@.return_codes.byte)
    }

    pub fn new(connect_acknowledge_flags: ConnectAcknowledgeFlags, connect_return_codes: ConnectReturnCodes) -> (r:
        Self)
        ensures
            r@.flags == connect_acknowledge_flags,
            r@.return_codes == connect_return_codes@,
            r@.data == connack_wire(connect_acknowledge_flags, connect_return_codes@.byte),
    {
        let data = vec![0x20u8, 2u8, connect_acknowledge_flags.code(), connect_return_codes.hex_value()];
        Connack { connect_acknowledge_flags, connect_return_codes, data }
    }

    pub fn get_data(&self) -> (r: Vec<u8>)
        ensures
            r@ == self@.data,
            r@ == connack_wire(self@.flags, self@.return_codes.byte),
    {
        proof {
            use_type_invariant(self);
        }
        self.data.clone()
    }

    pub fn get_packet_type(&self) -> (r: PacketType)
        ensures
            r == PacketType::CONNACK,
    {
        PacketType::CONNACK
    }

    pub fn get_connack_packet_flags(&self) -> (r: u8)
        ensures
            r == 0,
    {
        0
    }

    pub fn get_remaining_length(&self) -> (r: u8)
        ensures
            r == 2,
    {
        2
    }

    pub fn get_connect_acknowledge_flags(&self) -> (r: ConnectAcknowledgeFlags)
        ensures
            r == self@.flags,
    {
        self.connect_acknowledge_flags
    }

    pub fn get_connect_return_codes(&self) -> (r: ConnectReturnCodes)
        ensures
            r@ == self@.return_codes,
    {
        self.connect_return_codes
    }
}

/// A PUBACK packet; the packet identifier is not used and is sent as zero.
pub struct Puback {
    data: Vec<u8>,
}

impl View for Puback {
    type V = Seq<u8>;

    closed spec fn view(&self) -> Seq<u8> {
        self.data@
    }
}

impl Puback {
    #[verifier::type_invariant]
    pub open spec fn inv(self) -> bool {
        self@ == seq![0x40u8, 2u8, 0u8, 0u8]
    }

    pub fn new() -> (r: Self)
        ensures
            r@ == seq![0x40u8, 2u8, 0u8, 0u8],
    {
        Puback { data: vec![0x40u8, 2u8, 0u8, 0u8] }
    }

    pub fn get_data(&self) -> (r: Vec<u8>)
        ensures
            r@ == seq![0x40u8, 2u8, 0u8, 0u8],
    {
        proof {
            use_type_invariant(self);
        }
        self.data.clone()
    }
}

/// An UNSUBACK packet; the packet identifier is sent as zero.
pub struct Unsuback {
    data: Vec<u8>,
}

impl View for Unsuback {
    type V = Seq<u8>;

    closed spec fn view(&self) -> Seq<u8> {
        self.data@
    }
}

impl Unsuback {
    #[verifier::type_invariant]
    pub open spec fn inv(self) -> bool {
        self@ == seq![0xB0u8, 2u8, 0u8, 0u8]
    }

    pub fn new() -> (r: Self)
        ensures
            r@ == seq![0xB0u8, 2u8, 0u8, 0u8],
    {
        Unsuback { data: vec![0xB0u8, 2u8, 0u8, 0u8] }
    }

    pub fn get_data(&self) -> (r: Vec<u8>)
        ensures
            r@ == seq![0xB0u8, 2u8, 0u8, 0u8],
    {
        proof {
            use_type_invariant(self);
        }
        self.data.clone()
    }
}

/// A PINGREQ packet.
pub struct Pingreq {
    data: Vec<u8>,
}

impl View for Pingreq {
    type V = Seq<u8>;

    closed spec fn view(&self) -> Seq<u8> {
        self.data@
    }
}

impl Pingreq {
    #[verifier::type_invariant]
    pub open spec fn inv(self) -> bool {
        self@ == seq![0xC0u8, 0u8]
    }

    pub fn new() -> (r: Self)
        ensures
            r@ == seq![0xC0u8, 0u8],
    {
        Pingreq { data: vec![0xC0u8, 0u8] }
    }

    pub fn get_data(&self) -> (r: Vec<u8>)
        ensures
            r@ == seq![0xC0u8, 0u8],
    {
        proof {
            use_type_invariant(self);
        }
        self.data.clone()
    }
}

/// A PINGRESP packet.
pub struct Pingresp {
    data: Vec<u8>,
}

impl View for Pingresp {
    type V = Seq<u8>;

    closed spec fn view(&self) -> Seq<u8> {
        self.data@
    }
}

impl Pingresp {
    #[verifier::type_invariant]
    pub open spec fn inv(self) -> bool {
        self@ == seq![0xD0u8, 0u8]
    }

    pub fn new() -> (r: Self)
        ensures
            r@ == seq![0xD0u8, 0u8],
    {
        Pingresp { data: vec![0xD0u8, 0u8] }
    }

    pub fn get_data(&self) -> (r: Vec<u8>)
        ensures
            r@ == seq![0xD0u8, 0u8],
    {
        proof {
            use_type_invariant(self);
        }
        self.data.clone()
    }
}

/// A DISCONNECT packet.
pub struct Disconnect {
    data: Vec<u8>,
}

impl View for Disconnect {
    type V = Seq<u8>;

    closed spec fn view(&self) -> Seq<u8> {
        self.data@
    }
}

impl Disconnect {
    #[verifier::type_invariant]
    pub open spec fn inv(self) -> bool {
        self@ == seq![0xE0u8, 0u8]
    }

    pub fn new() -> (r: Self)
        ensures
            r@ == seq![0xE0u8, 0u8],
    {
        Disconnect { data: vec![0xE0u8, 0u8] }
    }

    pub fn get_data(&self) -> (r: Vec<u8>)
        ensures
            r@ == seq![0xE0u8, 0u8],
    {
        proof {
            use_type_invariant(self);
        }
        self.data.clone()
    }
}

} // verus!
