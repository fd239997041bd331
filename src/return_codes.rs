//! The CONNACK return code byte.

use crate::constants::{connect_reason_value, ConnectReturnCode};
use vstd::prelude::*;

verus! {

/// The meaning of a CONNACK return code byte.
pub struct ConnectReturnCodesView {
    pub byte: u8,
    pub accepted: bool,
    pub reason: u8,
}

/// The byte sent for a reason number: zero when accepted, else `0x10` plus
/// the reason.
pub open spec fn return_code_byte(reason: u8) -> u8 {
    if reason == 0 {
        0
    } else if reason <= 5 {
        (0x10 + reason) as u8
    } else {
        0x16
    }
}

/// The reason number read back from a return code byte: zero for the zero
/// byte, the low nibble when it names a refusal, else the close-connection
/// reason.
pub open spec fn reason_of_byte(b: u8) -> u8 {
    if b == 0 {
        0
    } else if 1 <= b % 16 <= 5 {
        b % 16
    } else {
        6
    }
}

/// The return code of a CONNACK packet.
#[derive(Clone, Copy, Debug)]
pub struct ConnectReturnCodes {
    byte: u8,
    accepted: bool,
    reason: u8,
}

impl View for ConnectReturnCodes {
    type V = ConnectReturnCodesView;

    closed spec fn view(&self) -> ConnectReturnCodesView {
        ConnectReturnCodesView { byte: self.byte, accepted: self.accepted, reason: self.reason }
    }
}

impl ConnectReturnCodes {
    /// The return code for a given acceptance or refusal reason.
    pub fn new(rejected_reason: ConnectReturnCode) -> (r: Self)
        ensures
            r@.reason == connect_reason_value(rejected_reason),
            r@.byte == return_code_byte(connect_reason_value(rejected_reason)),
            r@.accepted == (rejected_reason == ConnectReturnCode::ConnectionAccepted),
    {
        Self::to_hex(rejected_reason.code())
    }

    /// Reads a return code byte received in a CONNACK.
    pub fn new_by_hex(hex: u8) -> (r: Self)
        ensures
            r@.byte == hex,
            r@.accepted == (hex == 0),
            r@.reason == reason_of_byte(hex),
    {
        Self::to_bin(hex)
    }

    fn to_hex(reason: u8) -> (r: Self)
        requires
            reason <= 6,
        ensures
            r@.reason == reason,
            r@.byte == return_code_byte(reason),
            r@.accepted == (reason == 0),
    {
        let byte: u8 = if reason == 0 {
            0
        } else if reason <= 5 {
            0x10 + reason
        } else {
            0x16
        };
        ConnectReturnCodes { byte, accepted: reason == 0, reason }
    }

    fn to_bin(byte: u8) -> (r: Self)
        ensures
            r@.byte == byte,
            r@.accepted == (byte == 0),
            r@.reason == reason_of_byte(byte),
    {
        if byte == 0 {
            return ConnectReturnCodes { byte, accepted: true, reason: 0 };
        }
        let low = byte % 16;
        let reason: u8 = if 1 <= low && low <= 5 {
            low
        } else {
            6
        };
        ConnectReturnCodes { byte, accepted: false, reason }
    }

    /// The byte, as sent on the wire.
    pub fn hex_value(&self) -> (r: u8)
        ensures
            r == self@.byte,
    {
        self.byte
    }

    pub fn is_accepted(&self) -> (r: bool)
        ensures
            r == self@.accepted,
    {
        self.accepted
    }

    pub fn get_reason(&self) -> (r: u8)
        ensures
            r == self@.reason,
    {
        self.reason
    }
}

} // verus!
