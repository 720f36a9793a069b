//! The Chaum-Pedersen proof over a prime-order group: commitments, the
//! response to a challenge, and the verifier's check.

use crate::backend::random_alphanumeric;
use crate::bignat::BigNat;
use crate::constants::{STANDARD_ALPHA, STANDARD_BETA, STANDARD_P, STANDARD_Q};
use crate::encoding::be_value;
use vstd::arithmetic::div_mod::{
    lemma_fundamental_div_mod, lemma_fundamental_div_mod_converse, lemma_mod_bound,
    lemma_mul_mod_noop,
};
use vstd::arithmetic::power::{lemma_pow1, pow};
use vstd::prelude::*;

verus! {

/// The description of the group that the proof works in: the modulus `p`,
/// the order `q` of the subgroup, and two generators of that subgroup.
pub struct GroupParameters {
    pub p: nat,
    pub q: nat,
    pub alpha: nat,
    pub beta: nat,
}

/// `base ^ exponent` reduced modulo `modulus`.
pub open spec fn power_mod(base: nat, exponent: nat, modulus: nat) -> nat {
    (pow(base as int, exponent) % (modulus as int)) as nat
}

/// The characters that a random token is drawn from: the ASCII letters and
/// digits.
pub open spec fn is_token_char(c: char) -> bool {
    ('a' <= c && c <= 'z') || ('A' <= c && c <= 'Z') || ('0' <= c && c <= '9')
}

/// A token of `size` characters, each an ASCII letter or digit.
pub open spec fn is_token(token: Seq<char>, size: nat) -> bool {
    &&& token.len() == size
    &&& forall|i: int| 0 <= i < token.len() ==> is_token_char(#[trigger] token[i])
}

/// Fermat's test of `n` to one base: `n` is the base itself, or
/// `base ^ (n - 1)` is one modulo `n`.
pub open spec fn fermat_passes(n: nat, base: nat) -> bool {
    n == base || power_mod(base, (n - 1) as nat, n) == 1
}

/// The screen that the modulus and the order of a group must pass: the
/// number is more than one and passes Fermat's test to the bases 2, 3, 5
/// and 7. By Fermat's little theorem every prime passes. A composite
/// number that passes is a pseudoprime to all four bases at once; the
/// smallest is 29341. So the screen turns away a group that was mistyped
/// or made up carelessly, and is no proof that a number is prime.
pub open spec fn prime_screen(n: nat) -> bool {
    &&& n > 1
    &&& fermat_passes(n, 2)
    &&& fermat_passes(n, 3)
    &&& fermat_passes(n, 5)
    &&& fermat_passes(n, 7)
}

impl GroupParameters {
    /// What is checked of a group before it is used: the modulus and the
    /// order pass the screen for primes, both generators lie strictly
    /// between one and `p`, and their `q`-th power is one modulo `p`. That
    /// nobody knows the logarithm of one generator to the base of the
    /// other is not checked: it is left to whoever chooses the group.
    pub open spec fn valid(self) -> bool {
        &&& prime_screen(self.p)
        &&& prime_screen(self.q)
        &&& 1 < self.alpha < self.p
        &&& 1 < self.beta < self.p
        &&& power_mod(self.alpha, self.q, self.p) == 1
        &&& power_mod(self.beta, self.q, self.p) == 1
    }

    /// The pair `(alpha ^ exponent mod p, beta ^ exponent mod p)`: the
    /// commitment to a secret, or the first message of a proof.
    pub open spec fn pair(self, exponent: nat) -> (nat, nat) {
        (power_mod(self.alpha, exponent, self.p), power_mod(self.beta, exponent, self.p))
    }

    /// The response `(k - c * x) mod q`, which lies in `[0, q)` also where
    /// `c * x` exceeds `k`.
    pub open spec fn response(self, k: nat, c: nat, x: nat) -> nat {
        ((k - c * x) % (self.q as int)) as nat
    }

    /// The verifier's check: both `r1 == alpha^s * y1^c mod p` and
    /// `r2 == beta^s * y2^c mod p`.
    pub open spec fn accepts(self, r1: nat, r2: nat, y1: nat, y2: nat, c: nat, s: nat) -> bool {
        &&& r1 == (pow(self.alpha as int, s) * pow(y1 as int, c)) % (self.p as int)
        &&& r2 == (pow(self.beta as int, s) * pow(y2 as int, c)) % (self.p as int)
    }
}

/// The group that `ZKP::get_constants` returns.
pub open spec fn standard_group() -> GroupParameters {
    GroupParameters {
        p: be_value(STANDARD_P@),
        q: be_value(STANDARD_Q@),
        alpha: be_value(STANDARD_ALPHA@),
        beta: be_value(STANDARD_BETA@),
    }
}

/// Fermat's test of `n` to the base `base`, for `n > 1` and its predecessor.
fn fermat_test(n: &BigNat, predecessor: &BigNat, base: u8) -> (ok: bool)
    requires
        n@ > 1,
        predecessor@ == n@ - 1,
    ensures
        ok == fermat_passes(n@, base as nat),
{
    let base = BigNat::from_u8(base);
    if n.equals(&base) {
        return true;
    }
    base.modpow(predecessor, n).equals(&BigNat::one())
}

/// Whether `n` passes the screen for primes.
pub fn passes_prime_screen(n: &BigNat) -> (ok: bool)
    ensures
        ok == prime_screen(n@),
{
    let one = BigNat::one();
    if !one.less_than(n) {
        return false;
    }
    let predecessor = n.checked_sub(&one).unwrap();
    fermat_test(n, &predecessor, 2) && fermat_test(n, &predecessor, 3) && fermat_test(
        n,
        &predecessor,
        5,
    ) && fermat_test(n, &predecessor, 7)
}

/// A validated group together with the operations of the proof.
pub struct ZKP {
    p: BigNat,
    q: BigNat,
    alpha: BigNat,
    beta: BigNat,
}

impl View for ZKP {
    type V = GroupParameters;

    closed spec fn view(&self) -> GroupParameters {
        GroupParameters { p: self.p@, q: self.q@, alpha: self.alpha@, beta: self.beta@ }
    }
}

impl ZKP {
    #[verifier::type_invariant]
    spec fn well_formed(&self) -> bool {
        self@.valid()
    }

    /// Checks a group and takes it into use. The group is refused exactly
    /// where it is not `valid`.
    pub fn new(alpha: BigNat, beta: BigNat, p: BigNat, q: BigNat) -> (zkp: Option<ZKP>)
        ensures
            match zkp {
                Some(z) => z@ == (GroupParameters { p: p@, q: q@, alpha: alpha@, beta: beta@ })
                    && z@.valid(),
                None => !(GroupParameters { p: p@, q: q@, alpha: alpha@, beta: beta@ }).valid(),
            },
    {
        let one = BigNat::one();
        if !passes_prime_screen(&p) || !passes_prime_screen(&q) {
            return None;
        }
        if !one.less_than(&alpha) || !alpha.less_than(&p) {
            return None;
        }
        if !one.less_than(&beta) || !beta.less_than(&p) {
            return None;
        }
        let alpha_q = alpha.modpow(&q, &p);
        let beta_q = beta.modpow(&q, &p);
        if !alpha_q.equals(&one) || !beta_q.equals(&one) {
            return None;
        }
        Some(ZKP { p, q, alpha, beta })
    }

    /// The numbers of the standard group, in the order `(alpha, beta, p, q)`.
    pub fn get_constants() -> (constants: (BigNat, BigNat, BigNat, BigNat))
        ensures
            constants.0@ == standard_group().alpha,
            constants.1@ == standard_group().beta,
            constants.2@ == standard_group().p,
            constants.3@ == standard_group().q,
    {
        (
            BigNat::from_bytes_be(STANDARD_ALPHA.as_slice()),
            BigNat::from_bytes_be(STANDARD_BETA.as_slice()),
            BigNat::from_bytes_be(STANDARD_P.as_slice()),
            BigNat::from_bytes_be(STANDARD_Q.as_slice()),
        )
    }

    /// The modulus.
    pub fn p(&self) -> (p: &BigNat)
        ensures
            p@ == self@.p,
            self@.valid(),
    {
        proof {
            use_type_invariant(self);
        }
        &self.p
    }

    /// The order of the subgroup.
    pub fn q(&self) -> (q: &BigNat)
        ensures
            q@ == self@.q,
            self@.valid(),
    {
        proof {
            use_type_invariant(self);
        }
        &self.q
    }

    /// The first generator.
    pub fn alpha(&self) -> (alpha: &BigNat)
        ensures
            alpha@ == self@.alpha,
            self@.valid(),
    {
        proof {
            use_type_invariant(self);
        }
        &self.alpha
    }

    /// The second generator.
    pub fn beta(&self) -> (beta: &BigNat)
        ensures
            beta@ == self@.beta,
            self@.valid(),
    {
        proof {
            use_type_invariant(self);
        }
        &self.beta
    }

    /// Raises both generators to `exponent`.
    pub fn compute_pair(&self, exponent: &BigNat) -> (pair: (BigNat, BigNat))
        ensures
            (pair.0@, pair.1@) == self@.pair(exponent@),
    {
        proof {
            use_type_invariant(self);
        }
        (self.alpha.modpow(exponent, &self.p), self.beta.modpow(exponent, &self.p))
    }

    /// The prover's response to the challenge `c`, from the exponent `k` of
    /// its first message and the secret `x`.
    pub fn solve(&self, k: &BigNat, c: &BigNat, x: &BigNat) -> (s: BigNat)
        ensures
            s@ == self@.response(k@, c@, x@),
            s@ < self@.q,
    {
        proof {
            use_type_invariant(self);
        }
        let ghost q = self.q@ as int;
        let one = BigNat::one();
        let cx = c.multiply(x);
        if !k.less_than(&cx) {
            let d = k.checked_sub(&cx).unwrap();
            proof {
                lemma_pow1(d@ as int);
                lemma_mod_bound(d@ as int, q);
            }
            d.modpow(&one, &self.q)
        } else {
            let d = cx.checked_sub(k).unwrap();
            let m = d.modpow(&one, &self.q);
            proof {
                lemma_pow1(d@ as int);
                lemma_mod_bound(d@ as int, q);
                lemma_fundamental_div_mod(d@ as int, q);
                let t = (d@ as int) / q;
                let r = (d@ as int) % q;
                if r == 0 {
                    assert(-(d@ as int) == (-t) * q + 0) by (nonlinear_arith)
                        requires
                            d@ as int == q * t + 0,
                    ;
                    lemma_fundamental_div_mod_converse(-(d@ as int), q, -t, 0);
                } else {
                    assert(-(d@ as int) == (-t - 1) * q + (q - r)) by (nonlinear_arith)
                        requires
                            d@ as int == q * t + r,
                    ;
                    lemma_fundamental_div_mod_converse(-(d@ as int), q, -t - 1, q - r);
                }
            }
            if m.is_zero() {
                m
            } else {
                self.q.checked_sub(&m).unwrap()
            }
        }
    }

    /// The verifier's check of the response `s` to the challenge `c`, for the
    /// commitment `(y1, y2)` and the first message `(r1, r2)`.
    pub fn verify(
        &self,
        r1: &BigNat,
        r2: &BigNat,
        y1: &BigNat,
        y2: &BigNat,
        c: &BigNat,
        s: &BigNat,
    ) -> (ok: bool)
        ensures
            ok == self@.accepts(r1@, r2@, y1@, y2@, c@, s@),
    {
        proof {
            use_type_invariant(self);
        }
        let left1 = self.combine(&self.alpha, y1, c, s);
        let left2 = self.combine(&self.beta, y2, c, s);
        let cond1 = r1.equals(&left1);
        let cond2 = r2.equals(&left2);
        cond1 && cond2
    }

    /// `generator^s * y^c mod p`.
    fn combine(&self, generator: &BigNat, y: &BigNat, c: &BigNat, s: &BigNat) -> (v: BigNat)
        ensures
            v@ == (pow(generator@ as int, s@) * pow(y@ as int, c@)) % (self@.p as int),
    {
        proof {
            use_type_invariant(self);
        }
        let one = BigNat::one();
        let gs = generator.modpow(s, &self.p);
        let yc = y.modpow(c, &self.p);
        let product = gs.multiply(&yc);
        proof {
            lemma_pow1(product@ as int);
            lemma_mul_mod_noop(pow(generator@ as int, s@), pow(y@ as int, c@), self.p@ as int);
        }
        product.modpow(&one, &self.p)
    }

    /// A random number in `[0, bound)`, for a bound that is not zero. Two
    /// calls may give different numbers.
    pub fn generate_random_number_below(bound: &BigNat) -> (n: BigNat)
        requires
            bound@ > 0,
        ensures
            n@ < bound@,
    {
        BigNat::random_below(bound)
    }

    /// A random token of `size` ASCII letters and digits. Two calls may give
    /// different tokens.
    pub fn generate_random_string(size: usize) -> (token: String)
        ensures
            is_token(token@, size as nat),
    {
        random_alphanumeric(size)
    }
}

} // verus!
