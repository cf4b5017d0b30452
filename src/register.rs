//! The 4-bit delay field of a 32-bit pin configuration register.
use vstd::prelude::*;

use crate::delay::{convert_from_bits, convert_to_bits, delay_of, encoding_of, is_decodable, is_valid_delay};
use crate::error::Error;

verus! {

/// Largest bit offset of a 4-bit field within a 32-bit word.
pub const MAX_FIELD_OFFSET: u32 = 28;

/// The 4-bit field at `offset` of `word`.
pub open spec fn field_of(word: u32, offset: u32) -> u32 {
    (word >> offset) & 0xF
}

/// The bits of `word` outside the 4-bit field at `offset`.
pub open spec fn outside_field(word: u32, offset: u32) -> u32 {
    word & !(0xFu32 << offset)
}

/// Reads the 4-bit field at `offset`.
pub fn get_field(word: u32, offset: u32) -> (r: u32)
    requires
        offset <= MAX_FIELD_OFFSET,
    ensures
        r == field_of(word, offset),
        r < 16,
{
    let r = (word >> offset) & 0xF;
    assert(((word >> offset) & 0xF) < 16) by (bit_vector);
    r
}

/// Writes `bits` into the 4-bit field at `offset`, keeping the other bits.
pub fn set_field(word: u32, offset: u32, bits: u32) -> (r: u32)
    requires
        offset <= MAX_FIELD_OFFSET,
        bits < 16,
    ensures
        field_of(r, offset) == bits,
        outside_field(r, offset) == outside_field(word, offset),
{
    let r = (word & !(0xFu32 << offset)) | (bits << offset);
    assert(((((word & !(0xFu32 << offset)) | (bits << offset)) >> offset) & 0xF) == bits) by (bit_vector)
        requires
            offset <= 28,
            bits < 16,
    ;
    assert((((word & !(0xFu32 << offset)) | (bits << offset)) & !(0xFu32 << offset)) == (word & !(0xFu32
        << offset))) by (bit_vector)
        requires
            offset <= 28,
            bits < 16,
    ;
    r
}

/// The delay, in picoseconds, that the field at `offset` holds.
pub fn delay_in_word(word: u32, offset: u32) -> (r: Result<u32, Error>)
    requires
        offset <= MAX_FIELD_OFFSET,
    ensures
        r is Ok <==> is_decodable(field_of(word, offset)),
        r matches Ok(ps) ==> ps == delay_of(field_of(word, offset)),
        r matches Err(e) ==> e == Error::InvalidDelay,
{
    convert_from_bits(get_field(word, offset))
}

/// `word` with the field at `offset` set to the encoding of the delay `ps`.
pub fn word_with_delay(word: u32, offset: u32, ps: u32) -> (r: Result<u32, Error>)
    requires
        offset <= MAX_FIELD_OFFSET,
    ensures
        r is Ok <==> is_valid_delay(ps),
        r matches Ok(w) ==> field_of(w, offset) == encoding_of(ps) && outside_field(w, offset)
            == outside_field(word, offset) && delay_of(field_of(w, offset)) == ps,
        r matches Err(e) ==> e == Error::InvalidDelay,
{
    let bits = convert_to_bits(ps)?;
    proof {
        crate::delay::lemma_round_trip(0, ps);
    }
    Ok(set_field(word, offset, bits))
}

} // verus!
