//! The SUBACK packet.

use crate::constants::{suback_code_of, suback_code_value, SubackReturnCode};
use crate::error::Mqtt5ReturnCodes;
use crate::header::MqttHeader;
use crate::text::copy_bytes;
use vstd::prelude::*;

verus! {

/// Most return codes that a SUBACK can carry: three bytes each in a
/// one-byte remaining length.
pub const MAX_SUBACK_CODES: usize = 85;

/// One triple per return code: a zero packet identifier, then the code.
pub open spec fn suback_body(cs: Seq<SubackReturnCode>) -> Seq<u8>
    decreases cs.len(),
{
    if cs.len() == 0 {
        Seq::empty()
    } else {
        suback_body(cs.drop_last()) + seq![0u8, 0u8, suback_code_value(cs.last())]
    }
}

/// The SUBACK frame.
pub open spec fn suback_wire(cs: Seq<SubackReturnCode>) -> Seq<u8> {
    seq![0x90u8, (3 * cs.len()) as u8] + suback_body(cs)
}

/// The return codes that a SUBACK may carry: granted QoS 0 or 1, or failure.
pub open spec fn suback_code_allowed(b: u8) -> bool {
    b == 0 || b == 1 || b == 0x80
}

/// What a SUBACK holds.
pub struct SubackView {
    pub codes: Seq<SubackReturnCode>,
    pub data: Seq<u8>,
}

/// What decoding a SUBACK frame yields: the code byte of each triple after
/// the header; any byte other than QoS 0, QoS 1 or failure is a protocol
/// error.
pub open spec fn suback_decode(d: Seq<u8>) -> Result<SubackView, Mqtt5ReturnCodes> {
    if d.len() < 2 || d[1] + 2 != d.len() || (d.len() - 2) % 3 != 0 {
        Err(Mqtt5ReturnCodes::MqttPacketInvalidSize)
    } else {
        let m = (d.len() - 2) / 3;
        if exists|k: int| 0 <= k < m && !suback_code_allowed(#[trigger] d[4 + 3 * k]) {
            Err(Mqtt5ReturnCodes::MqttRcProtocolError)
        } else {
            let cs = Seq::new(m as nat, |k: int| suback_code_of(d[4 + 3 * k])->Some_0);
            Ok(SubackView { codes: cs, data: suback_wire(cs) })
        }
    }
}

/// The body holds three bytes per code, the code last.
pub proof fn lemma_suback_body(cs: Seq<SubackReturnCode>)
    ensures
        suback_body(cs).len() == 3 * cs.len(),
        forall|k: int|
            0 <= k < cs.len() ==> suback_body(cs)[3 * k + 2] == suback_code_value(#[trigger] cs[k]),
    decreases cs.len(),
{
    if cs.len() > 0 {
        lemma_suback_body(cs.drop_last());
        let b = suback_body(cs);
        let p = suback_body(cs.drop_last());
        assert forall|k: int| 0 <= k < cs.len() implies b[3 * k + 2] == suback_code_value(
            #[trigger] cs[k],
        ) by {
            if k < cs.len() - 1 {
                assert(cs.drop_last()[k] == cs[k]);
                assert(b[3 * k + 2] == p[3 * k + 2]);
            }
        }
    }
}

/// Decoding a SUBACK whose codes are all allowed gives the same codes back.
pub proof fn lemma_suback_round_trip(cs: Seq<SubackReturnCode>)
    requires
        cs.len() <= MAX_SUBACK_CODES,
        forall|k: int| 0 <= k < cs.len() ==> #[trigger] cs[k] != SubackReturnCode::MaxQoS2,
    ensures
        suback_decode(suback_wire(cs)) == Ok::<SubackView, Mqtt5ReturnCodes>(
            SubackView { codes: cs, data: suback_wire(cs) },
        ),
{
    let d = suback_wire(cs);
    lemma_suback_body(cs);
    let m = cs.len() as int;
    assert(d.len() == 2 + 3 * m);
    assert((d.len() - 2) / 3 == m) by (nonlinear_arith)
        requires
            d.len() == 2 + 3 * m,
    ;
    assert forall|k: int| 0 <= k < m implies d[4 + 3 * k] == suback_code_value(cs[k]) by {
        assert(d[4 + 3 * k] == suback_body(cs)[3 * k + 2]);
    }
    assert forall|k: int| 0 <= k < m implies suback_code_allowed(#[trigger] d[4 + 3 * k]) by {
        assert(d[4 + 3 * k] == suback_code_value(cs[k]));
    }
    let decoded = Seq::new(m as nat, |k: int| suback_code_of(d[4 + 3 * k])->Some_0);
    assert(decoded =~= cs) by {
        assert forall|k: int| 0 <= k < m implies decoded[k] == cs[k] by {
            assert(d[4 + 3 * k] == suback_code_value(cs[k]));
        }
    }
}

/// A SUBACK packet.
pub struct Suback {
    suback_return_codes: Vec<SubackReturnCode>,
    data: Vec<u8>,
}

impl View for Suback {
    type V = SubackView;

    closed spec fn view(&self) -> SubackView {
        SubackView { codes: self.suback_return_codes@, data: self.data@ }
    }
}

impl Suback {
    #[verifier::type_invariant]
    pub open spec fn inv(self) -> bool {
        &&& self@.codes.len() <= MAX_SUBACK_CODES
        &&& self@.data == suback_wire(self@.codes)
    }

    /// Builds a SUBACK carrying one return code per requested filter.
    pub fn new(suback_return_codes: Vec<SubackReturnCode>) -> (r: Self)
        requires
            suback_return_codes@.len() <= MAX_SUBACK_CODES,
        ensures
            r@.codes == suback_return_codes@,
            r@.data == suback_wire(suback_return_codes@),
    {
        let n = suback_return_codes.len();
        let mut data: Vec<u8> = vec![0x90u8, (3 * n) as u8];
        let mut i: usize = 0;
        while i < n
            invariant
                n == suback_return_codes@.len() <= MAX_SUBACK_CODES,
                i <= n,
                data@ == seq![0x90u8, (3 * n) as u8] + suback_body(suback_return_codes@.take(i as int)),
            decreases n - i,
        {
            data.push(0);
            data.push(0);
            data.push(suback_return_codes[i].code());
            proof {
                let cs = suback_return_codes@;
                assert(cs.take(i as int + 1).drop_last() =~= cs.take(i as int));
                assert(cs.take(i as int + 1).last() == cs[i as int]);
            }
            i = i + 1;
            assert(data@ =~= seq![0x90u8, (3 * n) as u8] + suback_body(suback_return_codes@.take(i as int)));
        }
        assert(suback_return_codes@.take(n as int) =~= suback_return_codes@);
        Suback { suback_return_codes, data }
    }

    pub fn get_data(&self) -> (r: Vec<u8>)
        ensures
            r@ == self@.data,
    {
        copy_bytes(&self.data)
    }

    pub fn get_return_codes(&self) -> (r: Vec<SubackReturnCode>)
        ensures
            r@ == self@.codes,
    {
        let mut r: Vec<SubackReturnCode> = Vec::new();
        let mut i: usize = 0;
        while i < self.suback_return_codes.len()
            invariant
                i <= self@.codes.len(),
                r@ == self@.codes.take(i as int),
            decreases self@.codes.len() - i,
        {
            r.push(self.suback_return_codes[i]);
            i = i + 1;
            assert(r@ =~= self@.codes.take(i as int));
        }
        assert(self@.codes.take(self@.codes.len() as int) =~= self@.codes);
        r
    }
}

/// The return code that an allowed byte stands for.
fn suback_code_from_byte(b: u8) -> (r: Option<SubackReturnCode>)
    ensures
        suback_code_allowed(b) ==> r == suback_code_of(b),
        !suback_code_allowed(b) ==> r is None,
{
    if b == 0x80 {
        Some(SubackReturnCode::Failure)
    } else if b == 0 {
        Some(SubackReturnCode::MaxQoS0)
    } else if b == 1 {
        Some(SubackReturnCode::MaxQoS1)
    } else {
        None
    }
}

/// Decodes a SUBACK frame.
pub fn decode_suback(header: MqttHeader) -> (r: Result<Suback, Mqtt5ReturnCodes>)
    ensures
        match r {
            Ok(s) => suback_decode(header@.data) == Ok::<SubackView, Mqtt5ReturnCodes>(s@),
            Err(e) => suback_decode(header@.data) == Err::<SubackView, Mqtt5ReturnCodes>(e),
        },
{
    let data = header.into_data();
    let ghost d = data@;
    let n = data.len();
    if n < 2 || data[1] as usize + 2 != n || (n - 2) % 3 != 0 {
        return Err(Mqtt5ReturnCodes::MqttPacketInvalidSize);
    }
    let m = (n - 2) / 3;
    assert(m <= MAX_SUBACK_CODES);
    let mut codes: Vec<SubackReturnCode> = Vec::new();
    let mut k: usize = 0;
    while k < m
        invariant
            d == data@,
            d == header@.data,
            n == d.len(),
            m == (n - 2) / 3,
            (n - 2) % 3 == 0,
            n >= 2,
            d[1] + 2 == n,
            k <= m,
            forall|j: int| 0 <= j < k ==> suback_code_allowed(#[trigger] d[4 + 3 * j]),
            codes@ == Seq::new(k as nat, |j: int| suback_code_of(d[4 + 3 * j])->Some_0),
        decreases m - k,
    {
        assert(4 + 3 * k < n) by (nonlinear_arith)
            requires
                k < m,
                m == (n - 2) / 3,
                (n - 2) % 3 == 0,
                n >= 2,
        ;
        match suback_code_from_byte(data[4 + 3 * k]) {
            Some(c) => {
                codes.push(c);
            },
            None => {
                assert(!suback_code_allowed(d[4 + 3 * (k as int)]));
                assert(0 <= k < (d.len() - 2) / 3);

                return Err(Mqtt5ReturnCodes::MqttRcProtocolError);
            },
        }
        k = k + 1;
        assert(codes@ =~= Seq::new(k as nat, |j: int| suback_code_of(d[4 + 3 * j])->Some_0));
    }
    Ok(Suback::new(codes))
}

} // verus!
