//! The calls into `num-bigint` and `rand`.
//!
//! Nothing in this file is proved: each function hands byte strings to the
//! outside crate and states, over the numbers that the byte strings denote,
//! what that crate documents of the result.

use crate::encoding::be_value;
use crate::zkp::is_token_char;
use num_bigint::{BigUint, RandBigInt};
use rand::distributions::{Alphanumeric, DistString};
use vstd::arithmetic::power::pow;
use vstd::prelude::*;

verus! {

/// `BigUint::modpow`, on numbers read with `BigUint::from_bytes_be` and
/// written with `BigUint::to_bytes_be`. The claim is the documented one:
/// the result is `base ^ exponent` reduced modulo `modulus`; a zero modulus
/// makes the outside function panic and is excluded.
#[verifier::external_body]
pub(crate) fn modpow_bytes(base: &[u8], exponent: &[u8], modulus: &[u8]) -> (out: Vec<u8>)
    requires
        be_value(modulus@) > 0,
    ensures
        be_value(out@) == pow(be_value(base@) as int, be_value(exponent@)) % (be_value(
            modulus@,
        ) as int),
{
    let base = BigUint::from_bytes_be(base);
    let exponent = BigUint::from_bytes_be(exponent);
    let modulus = BigUint::from_bytes_be(modulus);
    base.modpow(&exponent, &modulus).to_bytes_be()
}

/// The product of two `BigUint`s (`*` on references), on numbers read with
/// `BigUint::from_bytes_be` and written with `BigUint::to_bytes_be`.
#[verifier::external_body]
pub(crate) fn mul_bytes(left: &[u8], right: &[u8]) -> (out: Vec<u8>)
    ensures
        be_value(out@) == be_value(left@) * be_value(right@),
{
    let left = BigUint::from_bytes_be(left);
    let right = BigUint::from_bytes_be(right);
    (&left * &right).to_bytes_be()
}

/// The difference of two `BigUint`s (`-` on references), on numbers read
/// with `BigUint::from_bytes_be` and written with `BigUint::to_bytes_be`.
/// The outside subtraction panics when the result would be negative, so
/// that case is excluded.
#[verifier::external_body]
pub(crate) fn sub_bytes(left: &[u8], right: &[u8]) -> (out: Vec<u8>)
    requires
        be_value(left@) >= be_value(right@),
    ensures
        be_value(out@) == be_value(left@) - be_value(right@),
{
    let left = BigUint::from_bytes_be(left);
    let right = BigUint::from_bytes_be(right);
    (&left - &right).to_bytes_be()
}

/// `RandBigInt::gen_biguint_below` on `rand::thread_rng()`. The result is
/// random; all that is claimed is that it lies below the bound. A zero
/// bound makes the outside function panic and is excluded.
#[verifier::external_body]
pub(crate) fn random_below_bytes(bound: &[u8]) -> (out: Vec<u8>)
    requires
        be_value(bound@) > 0,
    ensures
        be_value(out@) < be_value(bound@),
{
    let bound = BigUint::from_bytes_be(bound);
    rand::thread_rng().gen_biguint_below(&bound).to_bytes_be()
}

/// `DistString::sample_string` of `rand::distributions::Alphanumeric` on
/// `rand::thread_rng()`. The result is random; all that is claimed is its
/// length and that every character is an ASCII letter or digit.
#[verifier::external_body]
pub(crate) fn random_alphanumeric(len: usize) -> (out: String)
    ensures
        out@.len() == len,
        forall|i: int| 0 <= i < out@.len() ==> is_token_char(#[trigger] out@[i]),
{
    Alphanumeric.sample_string(&mut rand::thread_rng(), len)
}

} // verus!
