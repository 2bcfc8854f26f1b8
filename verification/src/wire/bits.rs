//! Single bits and bit fields of numbers.

use vstd::prelude::*;

verus! {

/// Whether the bit of weight `weight` (a power of two) is set in `raw`.
pub open spec fn has_bit(raw: int, weight: int) -> bool {
    raw / weight % 2 == 1
}

/// `raw` with the bit of weight `weight` (a power of two) set or cleared.
pub open spec fn with_bit(raw: int, weight: int, value: bool) -> int {
    if value == has_bit(raw, weight) {
        raw
    } else if value {
        raw + weight
    } else {
        raw - weight
    }
}

/// Whether `weight` is the weight of a bit of a 16-bit number.
pub open spec fn is_weight16(weight: int) -> bool {
    ||| weight == 0x1
    ||| weight == 0x2
    ||| weight == 0x4
    ||| weight == 0x8
    ||| weight == 0x10
    ||| weight == 0x20
    ||| weight == 0x40
    ||| weight == 0x80
    ||| weight == 0x100
    ||| weight == 0x200
    ||| weight == 0x400
    ||| weight == 0x800
    ||| weight == 0x1000
    ||| weight == 0x2000
    ||| weight == 0x4000
    ||| weight == 0x8000
}

spec fn weight_u16(w: u16) -> bool {
    w == 0x1 || w == 0x2 || w == 0x4 || w == 0x8 || w == 0x10 || w == 0x20 || w == 0x40 || w == 0x80
        || w == 0x100 || w == 0x200 || w == 0x400 || w == 0x800 || w == 0x1000 || w == 0x2000 || w
        == 0x4000 || w == 0x8000
}

/// The machine operations that test, set and clear a bit.
pub(crate) proof fn lemma_bit_u16(raw: u16, w: u16)
    requires
        is_weight16(w as int),
    ensures
        (raw & w != 0) <==> has_bit(raw as int, w as int),
        (raw | w) == with_bit(raw as int, w as int, true),
        (raw & !w) == with_bit(raw as int, w as int, false),
{
    assert((raw & w != 0) <==> (raw / w) % 2 == 1) by (bit_vector)
        requires
            weight_u16(w),
    ;
    assert((raw | w) == if (raw / w) % 2 == 1 {
        raw as int
    } else {
        raw + w
    }) by (bit_vector)
        requires
            weight_u16(w),
    ;
    assert((raw & !w) == if (raw / w) % 2 == 1 {
        raw - w
    } else {
        raw as int
    }) by (bit_vector)
        requires
            weight_u16(w),
    ;
}

/// A bit reads back the value it was given, and giving it a value leaves every other bit of
/// the number unchanged.
pub proof fn law_with_bit(raw: int, w: int, value: bool, other: int)
    requires
        0 <= raw < 0x1_0000,
        is_weight16(w),
        is_weight16(other),
    ensures
        0 <= with_bit(raw, w, value) < 0x1_0000,
        has_bit(with_bit(raw, w, value), w) == value,
        other != w ==> has_bit(with_bit(raw, w, value), other) == has_bit(raw, other),
{
    let r = raw as u16;
    let x = w as u16;
    let o = other as u16;
    lemma_bit_u16(r, x);
    lemma_bit_u16(r | x, x);
    lemma_bit_u16(r & !x, x);
    lemma_bit_u16(r | x, o);
    lemma_bit_u16(r & !x, o);
    lemma_bit_u16(r, o);
    assert(((r | x) & x != 0) && ((r & !x) & x == 0)) by (bit_vector)
        requires
            weight_u16(x),
    ;
    assert(o != x ==> ((r | x) & o == r & o) && ((r & !x) & o == r & o)) by (bit_vector)
        requires
            weight_u16(x),
            weight_u16(o),
    ;
}

} // verus!
