//! Conversion codes and the raw samples they stand for.

use vstd::prelude::*;

verus! {

/// Smallest raw sample: -2^23.
pub const RAW_MIN: i32 = -8_388_608;

/// Largest raw sample: 2^23 - 1.
pub const RAW_MAX: i32 = 8_388_607;

/// One more than the largest 24-bit code: 2^24.
pub const CODE_SPAN: u32 = 0x100_0000;

/// Whether `v` lies in the range of a 24-bit two's-complement number.
pub open spec fn in_raw_range(v: int) -> bool {
    RAW_MIN <= v <= RAW_MAX
}

/// The number that a 24-bit two's-complement code stands for.
pub open spec fn signed_value(code: int) -> int {
    if code >= 0x80_0000 {
        code - 0x100_0000
    } else {
        code
    }
}

/// The code that bits form when the most significant one comes first.
pub open spec fn code_of_bits(bits: Seq<bool>) -> nat
    decreases bits.len(),
{
    if bits.len() == 0 {
        0
    } else {
        2 * code_of_bits(bits.drop_last()) + if bits.last() { 1nat } else { 0nat }
    }
}

/// Sign-extends a 24-bit code: a code with bit 23 set is negative.
pub fn decode(code: u32) -> (sample: i32)
    requires
        code < 0x100_0000,
    ensures
        sample == signed_value(code as int),
        in_raw_range(sample as int),
{
    if code >= 0x80_0000 {
        (code as i32) - 0x100_0000
    } else {
        code as i32
    }
}

/// Appends one received bit below the bits already in `code`, keeping 24.
pub fn shift_in(code: u32, bit: bool) -> (next: u32)
    requires
        code < 0x100_0000,
    ensures
        next == (2 * code + if bit { 1int } else { 0int }) % 0x100_0000,
        next < 0x100_0000,
{
    let low: u32 = if bit { 1 } else { 0 };
    let next: u32 = ((code << 1) | low) & 0xFF_FFFF;
    assert(next == (2 * code + low) % 0x100_0000 && next < 0x100_0000) by (bit_vector)
        requires
            code < 0x100_0000,
            low <= 1,
            next == ((code << 1) | low) & 0xFF_FFFF,
    ;
    next
}

/// Assembles a code from three received bytes, the most significant first.
pub fn code_from_bytes(high: u8, mid: u8, low: u8) -> (code: u32)
    ensures
        code == high * 0x1_0000 + mid * 0x100 + low,
        code < 0x100_0000,
{
    (high as u32) * 0x1_0000 + (mid as u32) * 0x100 + (low as u32)
}

/// The raw sample that three received bytes hold, the most significant first.
pub fn sample_from_bytes(high: u8, mid: u8, low: u8) -> (sample: i32)
    ensures
        sample == signed_value(high * 0x1_0000 + mid * 0x100 + low),
        in_raw_range(sample as int),
{
    decode(code_from_bytes(high, mid, low))
}

} // verus!
