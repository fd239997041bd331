//! Decoders: from a frame whose fixed header has been read to a packet.

use crate::constants::ConnectAcknowledgeFlags;
use crate::control::{connack_wire, Connack, ConnackView, Disconnect, Pingreq, Pingresp, Unsuback};
use crate::error::Mqtt5ReturnCodes;
use crate::header::MqttHeader;
use crate::return_codes::{reason_of_byte, ConnectReturnCodes, ConnectReturnCodesView};
use vstd::prelude::*;

pub use crate::connect::decode_connect as new_connect;
pub use crate::header::check_packet_type;
pub use crate::publish::decode_publish as new_publish;
pub use crate::suback::decode_suback as new_suback;
pub use crate::subscribe::decode_subscribe as new_subscribe;
pub use crate::subscribe::decode_unsubscribe as new_unsubscribe;
pub use crate::subscribe::{topic_filters, topic_filters_with_qos};

verus! {

/// What decoding a CONNACK frame yields: a protocol error unless it has
/// four bytes. A flag byte other than 1 reads as no session present.
pub open spec fn connack_decode(d: Seq<u8>) -> Result<ConnackView, Mqtt5ReturnCodes> {
    if d.len() != 4 {
        Err(Mqtt5ReturnCodes::MqttRcProtocolError)
    } else {
        let f = if d[2] == 1 {
            ConnectAcknowledgeFlags::Sp1
        } else {
            ConnectAcknowledgeFlags::Sp0
        };
        Ok(
            ConnackView {
                flags: f,
                return_codes: ConnectReturnCodesView {
                    byte: d[3],
                    accepted: d[3] == 0,
                    reason: reason_of_byte(d[3]),
                },
                data: connack_wire(f, d[3]),
            },
        )
    }
}

/// Decoding a CONNACK gives its flag and return code back.
pub proof fn lemma_connack_round_trip(f: ConnectAcknowledgeFlags, code: u8)
    ensures
        connack_decode(connack_wire(f, code)) is Ok,
        connack_decode(connack_wire(f, code))->Ok_0.flags == f,
        connack_decode(connack_wire(f, code))->Ok_0.return_codes.byte == code,
{
}

/// Decodes a CONNACK frame.
pub fn new_connack(header: MqttHeader) -> (r: Result<Connack, Mqtt5ReturnCodes>)
    ensures
        match r {
            Ok(c) => connack_decode(header@.data) == Ok::<ConnackView, Mqtt5ReturnCodes>(c@),
            Err(e) => connack_decode(header@.data) == Err::<ConnackView, Mqtt5ReturnCodes>(e),
        },
{
    let data = header.get_data();
    if data.len() != 4 {
        return Err(Mqtt5ReturnCodes::MqttRcProtocolError);
    }
    let flags = if data[2] == 1 {
        ConnectAcknowledgeFlags::Sp1
    } else {
        ConnectAcknowledgeFlags::Sp0
    };
    Ok(Connack::new(flags, ConnectReturnCodes::new_by_hex(data[3])))
}

/// An UNSUBACK carries nothing to read.
pub fn new_unsuback() -> (r: Unsuback)
    ensures
        r@ == seq![0xB0u8, 2u8, 0u8, 0u8],
{
    Unsuback::new()
}

/// A PINGRESP carries nothing to read.
pub fn new_pingresp() -> (r: Pingresp)
    ensures
        r@ == seq![0xD0u8, 0u8],
{
    Pingresp::new()
}

/// A PINGREQ carries nothing to read.
pub fn new_pingreq() -> (r: Pingreq)
    ensures
        r@ == seq![0xC0u8, 0u8],
{
    Pingreq::new()
}

/// A DISCONNECT carries nothing to read.
pub fn new_disconnect() -> (r: Disconnect)
    ensures
        r@ == seq![0xE0u8, 0u8],
{
    Disconnect::new()
}

} // verus!
