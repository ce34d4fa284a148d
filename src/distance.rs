//! Hit distances as the 64 bits of an IEEE 754 double (as `to_bits` gives
//! them), and their order.
//!
//! A distance is compared as the hardware compares doubles with `<=`: a NaN
//! is comparable with nothing, and the two zeros are equal.
use vstd::prelude::*;

verus! {

/// The sign bit.
pub const SIGN: u64 = 0x8000_0000_0000_0000;

/// The exponent bits.
pub const EXPONENT: u64 = 0x7ff0_0000_0000_0000;

/// The fraction bits.
pub const FRACTION: u64 = 0x000f_ffff_ffff_ffff;

/// The bits of a NaN: every exponent bit set and a fraction other than zero.
pub open spec fn is_nan(b: u64) -> bool {
    b & EXPONENT == EXPONENT && b & FRACTION != 0
}

/// The sign bit is set: the number is negative or minus zero.
pub open spec fn is_negative(b: u64) -> bool {
    b & SIGN != 0
}

/// The absolute value's bits, which order as the absolute values do.
pub open spec fn magnitude(b: u64) -> u64 {
    b & !SIGN
}

/// `a <= b` on the doubles that the bits stand for.
pub open spec fn float_le(a: u64, b: u64) -> bool {
    &&& !is_nan(a)
    &&& !is_nan(b)
    &&& {
        ||| magnitude(a) == 0 && magnitude(b) == 0
        ||| is_negative(a) && !is_negative(b)
        ||| !is_negative(a) && !is_negative(b) && magnitude(a) <= magnitude(b)
        ||| is_negative(a) && is_negative(b) && magnitude(a) >= magnitude(b)
    }
}

/// The order key of a distance's bits, if it is no NaN: both zeros share one
/// key, negative numbers are put below the others, and their order reversed.
pub open spec fn key_of(b: u64) -> Option<u64> {
    if is_nan(b) {
        None
    } else if magnitude(b) == 0 {
        Some(SIGN)
    } else if is_negative(b) {
        Some(!b)
    } else {
        Some(b | SIGN)
    }
}

/// The order key of a distance, `None` for a NaN.
pub fn order_key(b: u64) -> (r: Option<u64>)
    ensures
        r == key_of(b),
{
    if b & EXPONENT == EXPONENT && b & FRACTION != 0 {
        None
    } else if b & !SIGN == 0 {
        Some(SIGN)
    } else if b & SIGN != 0 {
        Some(!b)
    } else {
        Some(b | SIGN)
    }
}

/// Keys order the distances that have them as `<=` does: of two distances
/// that are not NaN, the first is at most the second exactly when its key is.
pub proof fn lemma_key_order(a: u64, b: u64)
    requires
        !is_nan(a),
        !is_nan(b),
    ensures
        key_of(a)->0 <= key_of(b)->0 <==> float_le(a, b),
{
    let ka = key_of(a)->0;
    let kb = key_of(b)->0;
    assert(ka <= kb <==> {
        ||| a & !SIGN == 0 && b & !SIGN == 0
        ||| a & SIGN != 0 && b & SIGN == 0
        ||| a & SIGN == 0 && b & SIGN == 0 && a & !SIGN <= b & !SIGN
        ||| a & SIGN != 0 && b & SIGN != 0 && a & !SIGN >= b & !SIGN
    }) by (bit_vector)
        requires
            ka == (if a & !SIGN == 0 {
                SIGN
            } else if a & SIGN != 0 {
                !a
            } else {
                a | SIGN
            }),
            kb == (if b & !SIGN == 0 {
                SIGN
            } else if b & SIGN != 0 {
                !b
            } else {
                b | SIGN
            }),
    ;
}

} // verus!
