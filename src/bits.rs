//! Facts about packing single bits into a byte.

use vstd::prelude::*;

verus! {

/// `w` when the condition holds, else zero.
pub open spec fn pick(c: bool, w: u8) -> u8 {
    if c {
        w
    } else {
        0
    }
}

/// Whether any bit of the mask `w` is set in `b`.
pub open spec fn has_bit(b: u8, w: u8) -> bool {
    b & w != 0
}

/// Joining eight single-bit values and masking one bit gives that value back.
pub proof fn lemma_pack8(x0: u8, x1: u8, x2: u8, x3: u8, x4: u8, x5: u8, x6: u8, x7: u8)
    requires
        x0 == 0 || x0 == 1,
        x1 == 0 || x1 == 2,
        x2 == 0 || x2 == 4,
        x3 == 0 || x3 == 8,
        x4 == 0 || x4 == 16,
        x5 == 0 || x5 == 32,
        x6 == 0 || x6 == 64,
        x7 == 0 || x7 == 128,
    ensures
        (x0 | x1 | x2 | x3 | x4 | x5 | x6 | x7) & 1 == x0,
        (x0 | x1 | x2 | x3 | x4 | x5 | x6 | x7) & 2 == x1,
        (x0 | x1 | x2 | x3 | x4 | x5 | x6 | x7) & 4 == x2,
        (x0 | x1 | x2 | x3 | x4 | x5 | x6 | x7) & 8 == x3,
        (x0 | x1 | x2 | x3 | x4 | x5 | x6 | x7) & 16 == x4,
        (x0 | x1 | x2 | x3 | x4 | x5 | x6 | x7) & 32 == x5,
        (x0 | x1 | x2 | x3 | x4 | x5 | x6 | x7) & 64 == x6,
        (x0 | x1 | x2 | x3 | x4 | x5 | x6 | x7) & 128 == x7,
{
    assert((x0 | x1 | x2 | x3 | x4 | x5 | x6 | x7) & 1 == x0 && (x0 | x1 | x2 | x3 | x4 | x5 | x6
        | x7) & 2 == x1 && (x0 | x1 | x2 | x3 | x4 | x5 | x6 | x7) & 4 == x2 && (x0 | x1 | x2 | x3
        | x4 | x5 | x6 | x7) & 8 == x3 && (x0 | x1 | x2 | x3 | x4 | x5 | x6 | x7) & 16 == x4 && (x0
        | x1 | x2 | x3 | x4 | x5 | x6 | x7) & 32 == x5 && (x0 | x1 | x2 | x3 | x4 | x5 | x6 | x7)
        & 64 == x6 && (x0 | x1 | x2 | x3 | x4 | x5 | x6 | x7) & 128 == x7) by (bit_vector)
        requires
            x0 == 0 || x0 == 1,
            x1 == 0 || x1 == 2,
            x2 == 0 || x2 == 4,
            x3 == 0 || x3 == 8,
            x4 == 0 || x4 == 16,
            x5 == 0 || x5 == 32,
            x6 == 0 || x6 == 64,
            x7 == 0 || x7 == 128,
    ;
}

/// Joining four low single-bit values and masking one bit gives that value back.
pub proof fn lemma_pack4(x0: u8, x1: u8, x2: u8, x3: u8)
    requires
        x0 == 0 || x0 == 1,
        x1 == 0 || x1 == 2,
        x2 == 0 || x2 == 4,
        x3 == 0 || x3 == 8,
    ensures
        (x0 | x1 | x2 | x3) & 1 == x0,
        (x0 | x1 | x2 | x3) & 2 == x1,
        (x0 | x1 | x2 | x3) & 4 == x2,
        (x0 | x1 | x2 | x3) & 8 == x3,
        (x0 | x1 | x2 | x3) < 16,
{
    assert((x0 | x1 | x2 | x3) & 1 == x0 && (x0 | x1 | x2 | x3) & 2 == x1 && (x0 | x1 | x2 | x3) & 4
        == x2 && (x0 | x1 | x2 | x3) & 8 == x3 && (x0 | x1 | x2 | x3) < 16) by (bit_vector)
        requires
            x0 == 0 || x0 == 1,
            x1 == 0 || x1 == 2,
            x2 == 0 || x2 == 4,
            x3 == 0 || x3 == 8,
    ;
}

/// A byte is the join of its eight bits, each of which is zero or its weight.
pub proof fn lemma_unpack8(b: u8)
    ensures
        b == (b & 1) | (b & 2) | (b & 4) | (b & 8) | (b & 16) | (b & 32) | (b & 64) | (b & 128),
        b & 1 == 0 || b & 1 == 1,
        b & 2 == 0 || b & 2 == 2,
        b & 4 == 0 || b & 4 == 4,
        b & 8 == 0 || b & 8 == 8,
        b & 16 == 0 || b & 16 == 16,
        b & 32 == 0 || b & 32 == 32,
        b & 64 == 0 || b & 64 == 64,
        b & 128 == 0 || b & 128 == 128,
{
    assert(b == (b & 1) | (b & 2) | (b & 4) | (b & 8) | (b & 16) | (b & 32) | (b & 64) | (b & 128)
        && (b & 1 == 0 || b & 1 == 1) && (b & 2 == 0 || b & 2 == 2) && (b & 4 == 0 || b & 4 == 4)
        && (b & 8 == 0 || b & 8 == 8) && (b & 16 == 0 || b & 16 == 16) && (b & 32 == 0 || b & 32
        == 32) && (b & 64 == 0 || b & 64 == 64) && (b & 128 == 0 || b & 128 == 128))
        by (bit_vector);
}

} // verus!
