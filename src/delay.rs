//! The delay domain: legal delays, in picoseconds, and their 4-bit encoding.
use vstd::prelude::*;

use crate::error::Error;

verus! {

/// Number of legal delay settings.
pub const DELAY_COUNT: usize = 14;

/// Largest delay, in picoseconds.
pub const MAX_DELAY_PS: u32 = 3250;

/// A delay (in picoseconds) that the hardware can be set to: 0, 300, or a
/// multiple of 250 from 500 to 3250.
pub open spec fn is_valid_delay(ps: u32) -> bool {
    ps == 300 || (ps % 250 == 0 && ps <= 3250 && ps != 250)
}

/// The encoding of a valid delay.
pub open spec fn encoding_of(ps: u32) -> u32 {
    if ps == 300 {
        1
    } else {
        ps / 250
    }
}

/// A register field value that reads back as a delay.
pub open spec fn is_decodable(bits: u32) -> bool {
    bits <= 16
}

/// The delay, in picoseconds, that a decodable field value stands for.
pub open spec fn delay_of(bits: u32) -> u32 {
    if bits == 0 {
        0
    } else if bits == 1 {
        300
    } else if bits <= 12 {
        (250 * bits) as u32
    } else {
        3250
    }
}

/// The legal delays in ascending order.
pub open spec fn domain() -> Seq<u32> {
    Seq::new(DELAY_COUNT as nat, |i: int| delay_of(i as u32))
}

/// Encodes a delay in picoseconds into its 4-bit register value.
pub fn convert_to_bits(ps: u32) -> (r: Result<u32, Error>)
    ensures
        r is Ok <==> is_valid_delay(ps),
        r matches Ok(bits) ==> bits == encoding_of(ps) && bits < 16,
        r matches Err(e) ==> e == Error::InvalidDelay,
{
    if ps == 300 {
        Ok(1)
    } else if ps % 250 == 0 && ps <= MAX_DELAY_PS && ps != 250 {
        Ok(ps / 250)
    } else {
        Err(Error::InvalidDelay)
    }
}

/// Decodes a register field value into a delay in picoseconds. The values
/// 13 to 16 all read as 3250.
pub fn convert_from_bits(bits: u32) -> (r: Result<u32, Error>)
    ensures
        r is Ok <==> is_decodable(bits),
        r matches Ok(ps) ==> ps == delay_of(bits),
        r matches Err(e) ==> e == Error::InvalidDelay,
{
    if bits == 0 {
        Ok(0)
    } else if bits == 1 {
        Ok(300)
    } else if bits <= 12 {
        Ok(250 * bits)
    } else if bits <= 16 {
        Ok(MAX_DELAY_PS)
    } else {
        Err(Error::InvalidDelay)
    }
}

/// The legal delays, in picoseconds, in ascending order.
pub fn valid_values() -> (r: Vec<u32>)
    ensures
        r@ == domain(),
{
    let mut r: Vec<u32> = Vec::new();
    let mut i: u32 = 0;
    while i < DELAY_COUNT as u32
        invariant
            i <= DELAY_COUNT,
            r@ == domain().subrange(0, i as int),
        decreases DELAY_COUNT - i,
    {
        let ps = if i == 0 {
            0
        } else if i == 1 {
            300
        } else {
            250 * i
        };
        r.push(ps);
        assert(r@ =~= domain().subrange(0, i + 1));
        i = i + 1;
    }
    assert(r@ =~= domain());
    r
}

/// The legal delays, in picoseconds, in descending order.
pub fn reversed_valid_values() -> (r: Vec<u32>)
    ensures
        r@ == domain().reverse(),
{
    let values = valid_values();
    let mut r: Vec<u32> = Vec::new();
    let mut i: usize = values.len();
    while i > 0
        invariant
            i <= values.len(),
            values@ == domain(),
            r@ == domain().reverse().subrange(0, DELAY_COUNT - i),
        decreases i,
    {
        i = i - 1;
        r.push(values[i]);
        assert(r@ =~= domain().reverse().subrange(0, DELAY_COUNT - i));
    }
    assert(r@ =~= domain().reverse());
    r
}

/// Every field value from 0 to 13 decodes to a valid delay that encodes back
/// to it; 14, 15 and 16 decode to 3250, which encodes to 13; every valid delay
/// decodes back from its encoding.
pub proof fn lemma_round_trip(bits: u32, ps: u32)
    ensures
        bits < DELAY_COUNT ==> is_valid_delay(delay_of(bits)) && encoding_of(delay_of(bits)) == bits,
        DELAY_COUNT <= bits <= 16 ==> delay_of(bits) == MAX_DELAY_PS && encoding_of(delay_of(bits)) == 13,
        is_valid_delay(ps) ==> is_decodable(encoding_of(ps)) && delay_of(encoding_of(ps)) == ps,
{
}

/// The delays that encoding rejects: 250, anything above 3250, and anything
/// that is not a multiple of 250 besides 300.
pub proof fn lemma_rejected(ps: u32)
    ensures
        !is_valid_delay(ps) <==> (ps == 250 || ps > MAX_DELAY_PS || (ps % 250 != 0 && ps != 300)),
        !is_valid_delay(250),
{
}

} // verus!
