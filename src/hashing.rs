use vstd::prelude::*;

verus! {

/// The low 32 bits of `h`, read as a two's-complement signed integer.
pub open spec fn low_word_signed(h: u64) -> int {
    let low = h as int % 0x1_0000_0000;
    if low < 0x8000_0000 {
        low
    } else {
        low - 0x1_0000_0000
    }
}

/// The host hash code of a 64-bit native hash: its low 32 bits, read as a
/// signed integer.
pub fn hash_code(h: u64) -> (r: i32)
    ensures
        r as int == low_word_signed(h),
{
    let low = h & 0xFFFF_FFFF;
    assert(low == h % 0x1_0000_0000) by (bit_vector)
        requires
            low == h & 0xFFFF_FFFF,
    ;
    if low < 0x8000_0000 {
        low as i32
    } else {
        let neg = low as i64 - 0x1_0000_0000;
        neg as i32
    }
}

} // verus!
