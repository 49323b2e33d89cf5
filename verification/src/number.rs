//! Integers of any size, as the resolver hands them over in number literals
//! and array dimensions.

use num_bigint::BigInt;
use num_traits::ToPrimitive;
use vstd::prelude::*;

use crate::text::signed_decimal;

verus! {

/// An integer of any size, held as its two's-complement bytes with the most
/// significant byte first. No bytes at all stand for zero, and leading bytes
/// that only repeat the sign are allowed.
#[derive(Clone, Debug)]
pub struct Number {
    pub bytes: Vec<u8>,
}

/// The bytes read as one natural number in base 256, most significant first.
pub open spec fn magnitude(bytes: Seq<u8>) -> nat
    decreases bytes.len(),
{
    if bytes.len() == 0 {
        0
    } else {
        magnitude(bytes.drop_last()) * 256 + bytes.last() as nat
    }
}

/// 256 to the power `n`.
pub open spec fn radix_power(n: nat) -> nat
    decreases n,
{
    if n == 0 {
        1
    } else {
        256 * radix_power((n - 1) as nat)
    }
}

/// The integer that the bytes write in two's complement: negative exactly when
/// the top bit of the first byte is set.
pub open spec fn twos_complement(bytes: Seq<u8>) -> int {
    if bytes.len() > 0 && bytes[0] >= 128 {
        magnitude(bytes) - radix_power(bytes.len())
    } else {
        magnitude(bytes) as int
    }
}

/// The position that an integer names, where it names one: itself, if it is
/// not negative and fits a machine word.
pub open spec fn as_index(v: int) -> Option<usize> {
    if 0 <= v <= usize::MAX {
        Some(v as usize)
    } else {
        None
    }
}

impl View for Number {
    type V = int;

    open spec fn view(&self) -> int {
        twos_complement(self.bytes@)
    }
}

/// `BigInt::from_signed_bytes_be` reads the bytes as a two's-complement
/// integer, and `BigInt::to_str_radix` writes that integer in the radix given.
/// Claimed for radix ten only: the result is the decimal numeral, with a minus
/// sign in front of a negative integer and the single digit `0` for zero.
#[verifier::external_body]
fn signed_bytes_in_radix(bytes: &Vec<u8>, radix: u32) -> (out: String)
    requires
        radix == 10,
    ensures
        out@ == signed_decimal(twos_complement(bytes@)),
{
    BigInt::from_signed_bytes_be(bytes).to_str_radix(radix)
}

/// `BigInt::from_signed_bytes_be` reads the bytes as a two's-complement
/// integer, and `ToPrimitive::to_usize` gives that integer as a machine word
/// where it is not negative and fits, and nothing otherwise.
#[verifier::external_body]
fn signed_bytes_to_usize(bytes: &Vec<u8>) -> (out: Option<usize>)
    ensures
        out == as_index(twos_complement(bytes@)),
{
    BigInt::from_signed_bytes_be(bytes).to_usize()
}

impl Number {
    /// Writes the integer in decimal.
    pub fn to_decimal(&self) -> (out: String)
        ensures
            out@ == signed_decimal(self@),
    {
        signed_bytes_in_radix(&self.bytes, 10)
    }

    /// The integer as a position, where it is one.
    pub fn to_index(&self) -> (out: Option<usize>)
        ensures
            out == as_index(self@),
    {
        signed_bytes_to_usize(&self.bytes)
    }
}

} // verus!
