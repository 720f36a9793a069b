//! Natural numbers of any size.

use crate::backend::{modpow_bytes, mul_bytes, random_below_bytes, sub_bytes};
use crate::encoding::{
    be_bytes, be_value, is_minimal, lemma_encode_decode, lemma_first_difference,
    lemma_minimal_positive, lemma_shorter_is_smaller, lemma_skip_zeros, lemma_value_digits,
};
use vstd::arithmetic::power::pow;
use vstd::prelude::*;

verus! {

/// A natural number of any size, held as its digits in base 256, most
/// significant first and without a leading zero.
#[derive(Debug)]
pub struct BigNat {
    digits: Vec<u8>,
}

impl View for BigNat {
    type V = nat;

    /// The number itself.
    closed spec fn view(&self) -> nat {
        be_value(self.digits@)
    }
}

impl Clone for BigNat {
    fn clone(&self) -> (copy: Self)
        ensures
            copy@ == self@,
    {
        proof {
            use_type_invariant(self);
        }
        let digits = self.digits.clone();
        assert(digits@ =~= self.digits@);
        BigNat { digits }
    }
}

impl BigNat {
    #[verifier::type_invariant]
    spec fn well_formed(&self) -> bool {
        is_minimal(self.digits@)
    }

    /// Reads a number from big-endian bytes. Every byte string is a number:
    /// the empty one is zero, and leading zero bytes are allowed.
    pub fn from_bytes_be(bytes: &[u8]) -> (n: BigNat)
        ensures
            n@ == be_value(bytes@),
    {
        let mut start: usize = 0;
        while start < bytes.len() && bytes[start] == 0
            invariant
                start <= bytes.len(),
                forall|j: int| 0 <= j < start ==> bytes@[j] == 0,
            decreases bytes.len() - start,
        {
            start += 1;
        }
        let mut digits: Vec<u8> = Vec::new();
        let mut i: usize = start;
        while i < bytes.len()
            invariant
                start <= i <= bytes.len(),
                digits@ == bytes@.subrange(start as int, i as int),
            decreases bytes.len() - i,
        {
            digits.push(bytes[i]);
            i += 1;
        }
        proof {
            lemma_skip_zeros(bytes@, start as int);
        }
        BigNat { digits }
    }

    /// Writes the number as big-endian bytes without leading zeros; zero is
    /// written as one zero byte. Reading the bytes gives the number back.
    pub fn to_bytes_be(&self) -> (out: Vec<u8>)
        ensures
            out@ == be_bytes(self@),
            be_value(out@) == self@,
    {
        proof {
            use_type_invariant(self);
            lemma_value_digits(self.digits@);
            lemma_encode_decode(self@);
        }
        if self.digits.len() == 0 {
            let mut out: Vec<u8> = Vec::new();
            out.push(0u8);
            assert(out@ =~= seq![0u8]);
            out
        } else {
            proof {
                lemma_minimal_positive(self.digits@);
            }
            let out = self.digits.clone();
            assert(out@ =~= self.digits@);
            out
        }
    }

    /// Whether the number is zero.
    pub fn is_zero(&self) -> (zero: bool)
        ensures
            zero == (self@ == 0),
    {
        proof {
            use_type_invariant(self);
            if self.digits@.len() > 0 {
                lemma_minimal_positive(self.digits@);
            }
        }
        self.digits.len() == 0
    }

    /// Whether two numbers are the same.
    pub fn equals(&self, other: &BigNat) -> (same: bool)
        ensures
            same == (self@ == other@),
    {
        !self.less_than(other) && !other.less_than(self)
    }

    /// The number `v`.
    pub fn from_u8(v: u8) -> (n: BigNat)
        ensures
            n@ == v,
    {
        let mut digits: Vec<u8> = Vec::new();
        if v != 0 {
            digits.push(v);
            assert(digits@.drop_last().len() == 0);
            assert(be_value(digits@.drop_last()) == 0);
        }
        BigNat { digits }
    }

    /// The number zero.
    pub fn zero() -> (n: BigNat)
        ensures
            n@ == 0,
    {
        BigNat::from_u8(0)
    }

    /// The number one.
    pub fn one() -> (n: BigNat)
        ensures
            n@ == 1,
    {
        BigNat::from_u8(1)
    }

    /// Whether this number is smaller than the other.
    pub fn less_than(&self, other: &BigNat) -> (less: bool)
        ensures
            less == (self@ < other@),
    {
        proof {
            use_type_invariant(self);
            use_type_invariant(other);
        }
        if self.digits.len() != other.digits.len() {
            proof {
                if self.digits.len() < other.digits.len() {
                    lemma_shorter_is_smaller(self.digits@, other.digits@);
                } else {
                    lemma_shorter_is_smaller(other.digits@, self.digits@);
                }
            }
            return self.digits.len() < other.digits.len();
        }
        let mut i: usize = 0;
        while i < self.digits.len()
            invariant
                i <= self.digits.len(),
                self.digits.len() == other.digits.len(),
                forall|j: int| 0 <= j < i ==> self.digits@[j] == other.digits@[j],
            decreases self.digits.len() - i,
        {
            if self.digits[i] != other.digits[i] {
                proof {
                    if self.digits[i as int] < other.digits[i as int] {
                        lemma_first_difference(self.digits@, other.digits@, i as int);
                    } else {
                        lemma_first_difference(other.digits@, self.digits@, i as int);
                    }
                }
                return self.digits[i] < other.digits[i];
            }
            i += 1;
        }
        assert(self.digits@ =~= other.digits@);
        false
    }

    /// `self ^ exponent` reduced modulo `modulus`.
    pub fn modpow(&self, exponent: &BigNat, modulus: &BigNat) -> (power: BigNat)
        requires
            modulus@ > 0,
        ensures
            power@ == pow(self@ as int, exponent@) % (modulus@ as int),
    {
        let raw = modpow_bytes(
            self.digits.as_slice(),
            exponent.digits.as_slice(),
            modulus.digits.as_slice(),
        );
        BigNat::from_bytes_be(raw.as_slice())
    }

    /// The product of two numbers.
    pub fn multiply(&self, other: &BigNat) -> (product: BigNat)
        ensures
            product@ == self@ * other@,
    {
        let raw = mul_bytes(self.digits.as_slice(), other.digits.as_slice());
        BigNat::from_bytes_be(raw.as_slice())
    }

    /// `self - other`, or `None` where `other` is the larger.
    pub fn checked_sub(&self, other: &BigNat) -> (difference: Option<BigNat>)
        ensures
            match difference {
                Some(d) => self@ >= other@ && d@ == self@ - other@,
                None => self@ < other@,
            },
    {
        if self.less_than(other) {
            None
        } else {
            let raw = sub_bytes(self.digits.as_slice(), other.digits.as_slice());
            Some(BigNat::from_bytes_be(raw.as_slice()))
        }
    }

    /// A random number below `bound`, which must not be zero. Two calls may
    /// give different numbers.
    pub(crate) fn random_below(bound: &BigNat) -> (n: BigNat)
        requires
            bound@ > 0,
        ensures
            n@ < bound@,
    {
        let raw = random_below_bytes(bound.digits.as_slice());
        BigNat::from_bytes_be(raw.as_slice())
    }
}

} // verus!
