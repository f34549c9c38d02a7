use vstd::prelude::*;

verus! {

/// Key of every NaN: greater than the key of every value that is not NaN.
pub const NAN_KEY: u32 = 0xFFFF_FFFF;

/// The bit pattern of an `f32` is a NaN.
pub open spec fn bits_is_nan(bits: u32) -> bool {
    (bits & 0x7FFF_FFFFu32) > 0x7F80_0000u32
}

/// The bit pattern of an `f32` has its sign bit set.
pub open spec fn bits_is_negative(bits: u32) -> bool {
    bits >= 0x8000_0000u32
}

/// The magnitude (all bits but the sign) of an `f32` bit pattern.
pub open spec fn bits_magnitude(bits: u32) -> u32 {
    bits & 0x7FFF_FFFFu32
}

/// IEEE-754 `a < b` for two `f32` values that are not NaN, given by their bit
/// patterns: sign-magnitude order in which `-0.0` and `+0.0` are equal.
pub open spec fn bits_less_than(a: u32, b: u32) -> bool {
    if !bits_is_negative(a) && !bits_is_negative(b) {
        bits_magnitude(a) < bits_magnitude(b)
    } else if bits_is_negative(a) && bits_is_negative(b) {
        bits_magnitude(a) > bits_magnitude(b)
    } else if bits_is_negative(a) {
        !(bits_magnitude(a) == 0 && bits_magnitude(b) == 0)
    } else {
        false
    }
}

/// The order key of an `f32` bit pattern.
pub open spec fn float_key_of(bits: u32) -> u32 {
    if bits_is_nan(bits) {
        NAN_KEY
    } else if bits_magnitude(bits) == 0 {
        0x8000_0000u32
    } else if bits_is_negative(bits) {
        !bits
    } else {
        bits | 0x8000_0000u32
    }
}

/// Maps the bit pattern of an `f32` to an unsigned key whose integer order
/// is the float order of the values.
pub fn float_key(bits: u32) -> (key: u32)
    ensures
        key == float_key_of(bits),
{
    let magnitude = bits & 0x7FFF_FFFF;
    if magnitude > 0x7F80_0000 {
        NAN_KEY
    } else if magnitude == 0 {
        0x8000_0000
    } else if bits >= 0x8000_0000 {
        !bits
    } else {
        bits | 0x8000_0000
    }
}

/// For values that are not NaN, keys compare as the values do; exactly the
/// NaNs have the key `NAN_KEY`, which is above every other key.
pub proof fn lemma_float_key_order(a: u32, b: u32)
    ensures
        !bits_is_nan(a) && !bits_is_nan(b) ==> (bits_less_than(a, b) <==> float_key_of(a)
            < float_key_of(b)),
        bits_is_nan(a) <==> float_key_of(a) == NAN_KEY,
        !bits_is_nan(a) ==> float_key_of(a) < NAN_KEY,
{
    assert(!bits_is_nan(a) && !bits_is_nan(b) ==> (bits_less_than(a, b) <==> float_key_of(a)
        < float_key_of(b))) by (bit_vector);
    assert(bits_is_nan(a) <==> float_key_of(a) == NAN_KEY) by (bit_vector);
    assert(!bits_is_nan(a) ==> float_key_of(a) < NAN_KEY) by (bit_vector);
}

} // verus!
