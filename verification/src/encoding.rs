//! Big-endian byte strings as natural numbers.

use vstd::arithmetic::power::pow;
use vstd::prelude::*;

verus! {

/// The natural number that a big-endian byte string denotes. The empty
/// string denotes zero and leading zero bytes do not change the value.
pub open spec fn be_value(bytes: Seq<u8>) -> nat
    decreases bytes.len(),
{
    if bytes.len() == 0 {
        0
    } else {
        be_value(bytes.drop_last()) * 256 + bytes.last() as nat
    }
}

/// A byte string without a leading zero byte. Every natural number has
/// exactly one such string; that of zero is empty.
pub open spec fn is_minimal(bytes: Seq<u8>) -> bool {
    bytes.len() == 0 || bytes[0] != 0
}

/// The digits of `v` in base 256, most significant first, without a
/// leading zero.
pub open spec fn be_digits(v: nat) -> Seq<u8>
    decreases v,
{
    if v == 0 {
        Seq::empty()
    } else {
        be_digits(v / 256).push((v % 256) as u8)
    }
}

/// The byte string that carries `v` between client and server: its digits,
/// and a single zero byte for zero.
pub open spec fn be_bytes(v: nat) -> Seq<u8> {
    if v == 0 {
        seq![0u8]
    } else {
        be_digits(v)
    }
}

/// The digits of a number denote that number.
pub proof fn lemma_digits_value(v: nat)
    ensures
        be_value(be_digits(v)) == v,
        is_minimal(be_digits(v)),
        v > 0 ==> be_digits(v).len() > 0,
    decreases v,
{
    if v > 0 {
        lemma_digits_value(v / 256);
        let d = be_digits(v / 256);
        let s = d.push((v % 256) as u8);
        assert(s.drop_last() =~= d);
        assert(s.last() == (v % 256) as u8);
        if v / 256 > 0 {
            assert(s[0] == d[0]);
        }
    }
}

/// A minimal byte string is the digits of its value.
pub proof fn lemma_value_digits(bytes: Seq<u8>)
    requires
        is_minimal(bytes),
    ensures
        be_digits(be_value(bytes)) == bytes,
    decreases bytes.len(),
{
    if bytes.len() > 0 {
        let front = bytes.drop_last();
        let v = be_value(bytes);
        assert(v == be_value(front) * 256 + bytes.last() as nat);
        if front.len() > 0 {
            assert(front[0] == bytes[0]);
            lemma_value_digits(front);
            lemma_minimal_positive(front);
        } else {
            assert(be_value(front) == 0);
            assert(bytes.last() == bytes[0]);
        }
        assert(v > 0);
        assert(v / 256 == be_value(front) && v % 256 == bytes.last() as nat);
        lemma_value_digits(front);
        assert(be_digits(v) == be_digits(v / 256).push((v % 256) as u8));
        assert(front.push(bytes.last()) =~= bytes);
    }
}

/// A non-empty minimal byte string denotes a positive number.
pub proof fn lemma_minimal_positive(bytes: Seq<u8>)
    requires
        is_minimal(bytes),
        bytes.len() > 0,
    ensures
        be_value(bytes) > 0,
    decreases bytes.len(),
{
    let front = bytes.drop_last();
    if front.len() > 0 {
        assert(front[0] == bytes[0]);
        lemma_minimal_positive(front);
    } else {
        assert(bytes.last() == bytes[0]);
    }
}

/// Leading zero bytes do not count: if the first `skip` bytes are zero, the
/// rest denotes the same number.
pub proof fn lemma_skip_zeros(bytes: Seq<u8>, skip: int)
    requires
        0 <= skip <= bytes.len(),
        forall|j: int| 0 <= j < skip ==> bytes[j] == 0,
    ensures
        be_value(bytes) == be_value(bytes.subrange(skip, bytes.len() as int)),
    decreases bytes.len(),
{
    let n = bytes.len() as int;
    if n > 0 {
        let front = bytes.drop_last();
        if skip == n {
            lemma_skip_zeros(front, n - 1);
            assert(front.subrange(n - 1, n - 1).len() == 0);
            assert(bytes.subrange(n, n).len() == 0);
            assert(bytes.last() == 0);
        } else {
            lemma_skip_zeros(front, skip);
            let rest = bytes.subrange(skip, n);
            assert(rest.drop_last() =~= front.subrange(skip, n - 1));
            assert(rest.last() == bytes.last());
        }
    } else {
        assert(bytes.subrange(skip, n) =~= bytes);
    }
}

/// A string of `n` bytes denotes a number below `256^n`.
pub proof fn lemma_value_upper(bytes: Seq<u8>)
    ensures
        be_value(bytes) < pow(256, bytes.len()),
    decreases bytes.len(),
{
    reveal(pow);
    if bytes.len() > 0 {
        lemma_value_upper(bytes.drop_last());
        assert(pow(256, bytes.len()) == 256 * pow(256, (bytes.len() - 1) as nat));
    }
}

/// A minimal string of `n > 0` bytes denotes a number of at least
/// `256^(n-1)`.
pub proof fn lemma_value_lower(bytes: Seq<u8>)
    requires
        is_minimal(bytes),
        bytes.len() > 0,
    ensures
        be_value(bytes) >= pow(256, (bytes.len() - 1) as nat),
    decreases bytes.len(),
{
    reveal(pow);
    let front = bytes.drop_last();
    if front.len() > 0 {
        assert(front[0] == bytes[0]);
        lemma_value_lower(front);
        assert(pow(256, (bytes.len() - 1) as nat) == 256 * pow(256, (front.len() - 1) as nat));
    } else {
        assert(bytes.last() == bytes[0]);
        assert(pow(256, 0) == 1);
    }
}

/// Of two minimal strings the shorter denotes the smaller number.
pub proof fn lemma_shorter_is_smaller(a: Seq<u8>, b: Seq<u8>)
    requires
        is_minimal(b),
        a.len() < b.len(),
    ensures
        be_value(a) < be_value(b),
{
    lemma_value_upper(a);
    lemma_value_lower(b);
    if a.len() < b.len() - 1 {
        vstd::arithmetic::power::lemma_pow_increases(256, a.len(), (b.len() - 1) as nat);
    }
}

/// Strings of one length are ordered by the first byte in which they differ.
pub proof fn lemma_first_difference(a: Seq<u8>, b: Seq<u8>, at: int)
    requires
        a.len() == b.len(),
        0 <= at < a.len(),
        forall|j: int| 0 <= j < at ==> a[j] == b[j],
        a[at] < b[at],
    ensures
        be_value(a) < be_value(b),
    decreases a.len(),
{
    let fa = a.drop_last();
    let fb = b.drop_last();
    if at == a.len() - 1 {
        assert(fa =~= fb);
    } else {
        lemma_first_difference(fa, fb, at);
    }
}

/// Writing a number as bytes and reading the bytes gives the number back,
/// for every number.
pub proof fn lemma_encode_decode(v: nat)
    ensures
        be_value(be_bytes(v)) == v,
{
    if v == 0 {
        let z = seq![0u8];
        assert(z.drop_last().len() == 0);
        assert(be_value(z.drop_last()) == 0);
        assert(z.last() == 0u8);
    } else {
        lemma_digits_value(v);
    }
}

} // verus!
