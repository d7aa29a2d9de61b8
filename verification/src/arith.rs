//! Arbitrary-precision natural numbers for the RSA group layer.
//!
//! A [`BigNat`] holds the little-endian base-2^32 digits of a natural
//! number in a plain vector, so that every arithmetic contract can be
//! stated over the mathematical value of those digits.  The ring
//! operations themselves are carried out by `num_bigint`, behind small
//! trusted wrappers whose contracts state the exact arithmetic result.

use vstd::prelude::*;
use vstd::arithmetic::div_mod::{
    lemma_div_decreases, lemma_fundamental_div_mod, lemma_mod_multiples_vanish,
    lemma_mul_mod_noop_general,
};
use vstd::arithmetic::power::{
    lemma_pow0, lemma_pow1, lemma_pow_adds, lemma_pow_mod_noop, lemma_pow_multiplies,
    lemma_square_is_pow2, pow,
};
use vstd::arithmetic::power2::pow2;

verus! {

/// The natural number denoted by a little-endian sequence of base-2^32 digits.
pub open spec fn limbs_value(s: Seq<u32>) -> nat
    decreases s.len(),
{
    if s.len() == 0 {
        0
    } else {
        (s[0] as nat) + 0x1_0000_0000nat * limbs_value(s.drop_first())
    }
}

/// An arbitrary-precision natural number: little-endian base-2^32 digits.
///
/// Any digit vector is meaningful; the value it denotes is `limbs_value`.
/// The wrappers in this module always return vectors without a leading
/// (most-significant) zero digit, but nothing below depends on that.
#[derive(Debug, PartialEq, Eq)]
pub struct BigNat {
    pub limbs: Vec<u32>,
}

impl View for BigNat {
    type V = nat;

    open spec fn view(&self) -> nat {
        limbs_value(self.limbs@)
    }
}

impl Clone for BigNat {
    fn clone(&self) -> (r: Self)
        ensures
            r@ == self@,
    {
        let limbs = self.limbs.clone();
        assert(limbs@ =~= self.limbs@);
        BigNat { limbs }
    }
}

impl BigNat {
    /// The number zero.
    pub fn zero() -> (r: BigNat)
        ensures
            r@ == 0,
    {
        BigNat { limbs: Vec::new() }
    }

    /// Embed a machine word.
    pub fn from_u32(x: u32) -> (r: BigNat)
        ensures
            r@ == x,
    {
        if x == 0 {
            BigNat { limbs: Vec::new() }
        } else {
            let mut limbs: Vec<u32> = Vec::new();
            limbs.push(x);
            proof {
                assert(limbs@.drop_first() =~= Seq::<u32>::empty());
                assert(limbs_value(Seq::<u32>::empty()) == 0);
                assert(limbs_value(limbs@) == x);
            }
            BigNat { limbs }
        }
    }

    /// Embed a double machine word.
    pub fn from_u64(x: u64) -> (r: BigNat)
        ensures
            r@ == x,
    {
        proof {
            assert((x & 0xffff_ffff) <= 0xffff_ffffu64 && (x >> 32) <= 0xffff_ffffu64 && x == (x
                & 0xffff_ffff) + 0x1_0000_0000u64 * (x >> 32)) by (bit_vector);
        }
        let lo = (x & 0xffff_ffff) as u32;
        let hi = (x >> 32) as u32;
        if hi == 0 {
            Self::from_u32(lo)
        } else {
            let mut limbs: Vec<u32> = Vec::new();
            limbs.push(lo);
            limbs.push(hi);
            proof {
                let tail = limbs@.drop_first();
                assert(tail.drop_first() =~= Seq::<u32>::empty());
                assert(limbs_value(Seq::<u32>::empty()) == 0);
                assert(limbs_value(tail) == hi);
                assert(limbs_value(limbs@) == lo + 0x1_0000_0000nat * (hi as nat));
            }
            BigNat { limbs }
        }
    }
}

/// The value of a digit sequence is even or odd as its lowest digit is.
proof fn lemma_limbs_value_parity(s: Seq<u32>)
    ensures
        limbs_value(s) % 2 == (if s.len() == 0 {
            0nat
        } else {
            (s[0] % 2) as nat
        }),
{
    if s.len() > 0 {
        let rest = limbs_value(s.drop_first());
        assert(0x1_0000_0000nat * rest == 2 * (0x8000_0000nat * rest)) by (nonlinear_arith);
        lemma_mod_multiples_vanish((0x8000_0000nat * rest) as int, s[0] as int, 2);
    }
}

impl BigNat {
    /// Whether the denoted number is odd.
    pub fn is_odd(&self) -> (r: bool)
        ensures
            r <==> self@ % 2 == 1,
    {
        proof {
            lemma_limbs_value_parity(self.limbs@);
        }
        if self.limbs.len() == 0 {
            false
        } else {
            self.limbs[0] % 2 == 1
        }
    }
}

/// `pow(b, e)` reduced modulo `m`: what modular exponentiation returns.
pub open spec fn pow_mod_spec(b: nat, e: nat, m: nat) -> int {
    pow(b as int, e) % (m as int)
}

/// Modular exponentiation by square-and-multiply.  The result is the
/// same as reducing the full power `b^e`, whatever the bit-length of
/// the exponent.
pub fn pow_mod(b: &BigNat, e: &BigNat, m: &BigNat) -> (r: BigNat)
    requires
        m@ >= 2,
    ensures
        r@ == pow_mod_spec(b@, e@, m@),
    decreases e@,
{
    let zero = BigNat::zero();
    let one = BigNat::from_u32(1);
    if big_eq(e, &zero) {
        let r = big_rem(&one, m);
        proof {
            lemma_pow0(b@ as int);
        }
        r
    } else if big_eq(e, &one) {
        let r = big_rem(b, m);
        proof {
            lemma_pow1(b@ as int);
        }
        r
    } else {
        let two = BigNat::from_u32(2);
        let e_half = big_div(e, &two);
        proof {
            lemma_div_decreases(e@ as int, 2);
        }
        let sq = big_rem(&big_mul(b, b), m);
        let rec = pow_mod(&sq, &e_half, m);
        proof {
            let bi = b@ as int;
            let mi = m@ as int;
            let h = e@ / 2;
            lemma_square_is_pow2(bi);
            lemma_pow_mod_noop(bi * bi, h, mi);
            lemma_pow_multiplies(bi, 2, h);
            lemma_fundamental_div_mod(e@ as int, 2);
            assert(rec@ == pow(bi, (2 * h) as nat) % mi);
        }
        if e.is_odd() {
            let br = big_rem(b, m);
            let r = big_rem(&big_mul(&rec, &br), m);
            proof {
                let bi = b@ as int;
                let mi = m@ as int;
                let h = e@ / 2;
                lemma_mul_mod_noop_general(pow(bi, (2 * h) as nat), bi, mi);
                lemma_pow1(bi);
                lemma_pow_adds(bi, (2 * h) as nat, 1);
                assert(e@ == 2 * h + 1);
            }
            r
        } else {
            proof {
                assert(e@ == 2 * (e@ / 2));
            }
            rec
        }
    }
}

/// The greatest common divisor, by Euclid's recursion.
pub open spec fn gcd_spec(a: nat, b: nat) -> nat
    decreases b,
{
    if b == 0 {
        a
    } else {
        gcd_spec(b, a % b)
    }
}

/// Whether two naturals share no factor beyond 1.
pub open spec fn coprime(a: nat, b: nat) -> bool {
    gcd_spec(a, b) == 1
}

/// Euclid's algorithm on [`BigNat`] values.
pub fn gcd(a: &BigNat, b: &BigNat) -> (r: BigNat)
    ensures
        r@ == gcd_spec(a@, b@),
    decreases b@,
{
    let zero = BigNat::zero();
    if big_eq(b, &zero) {
        a.clone()
    } else {
        let rest = big_rem(a, b);
        gcd(b, &rest)
    }
}

/// `2^k` as a machine word, for the loop bounds of the delay function.
pub fn pow2_u64(k: u64) -> (r: u64)
    requires
        k <= 62,
    ensures
        r == pow2(k as nat),
{
    let mut r: u64 = 1;
    let mut i: u64 = 0;
    proof {
        vstd::arithmetic::power2::lemma2_to64();
        vstd::arithmetic::power2::lemma2_to64_rest();
    }
    while i < k
        invariant
            i <= k <= 62,
            r == pow2(i as nat),
        decreases k - i,
    {
        proof {
            vstd::arithmetic::power2::lemma_pow2_strictly_increases(i as nat, 63);
            vstd::arithmetic::power2::lemma2_to64_rest();
            vstd::arithmetic::power2::lemma_pow2_unfold((i + 1) as nat);
        }
        r = r * 2;
        i = i + 1;
    }
    r
}

/// Relies on `num_primes::Generator::new_prime`: it draws random
/// candidates from `[0, 2^bits)` until its primality filter accepts
/// one.  That filter rejects zero, one, two and every even candidate,
/// so each returned value is odd and at least 3; primality itself is
/// only probabilistic and no contract of this crate depends on it.
/// The call does not return for `bits < 2` (no candidate can pass),
/// and its Miller-Rabin step aborts on the candidate 3 (it samples
/// from the empty range `[2, 2)`), an event of probability about
/// `2^(2-bits)` per draw.  The precondition keeps to sizes at which
/// that event is negligible — the 512-bit floor below which setup
/// refuses to generate a modulus anyway.
#[verifier::external_body]
pub(crate) fn generate_prime(bits: usize) -> (r: BigNat)
    requires
        bits >= 512,
    ensures
        r@ % 2 == 1,
        3 <= r@ < pow2(bits as nat),
{
    let p = num_primes::Generator::new_prime(bits);
    BigNat { limbs: num_bigint::BigUint::from_bytes_le(&p.to_bytes_le()).to_u32_digits() }
}

/// Relies on `num_bigint::BigUint`'s multiplication: the result denotes
/// the product of the two argument values.
#[verifier::external_body]
pub(crate) fn big_mul(a: &BigNat, b: &BigNat) -> (r: BigNat)
    ensures
        r@ == a@ * b@,
{
    let x = num_bigint::BigUint::from_slice(&a.limbs) * num_bigint::BigUint::from_slice(&b.limbs);
    BigNat { limbs: x.to_u32_digits() }
}

/// Relies on `num_bigint::BigUint`'s division, which truncates towards
/// zero; on naturals that is Euclidean division.  Division by zero
/// panics in `num_bigint`, hence the precondition.
#[verifier::external_body]
pub(crate) fn big_div(a: &BigNat, b: &BigNat) -> (r: BigNat)
    requires
        b@ != 0,
    ensures
        r@ == a@ / b@,
{
    let x = num_bigint::BigUint::from_slice(&a.limbs) / num_bigint::BigUint::from_slice(&b.limbs);
    BigNat { limbs: x.to_u32_digits() }
}

/// Relies on `num_bigint::BigUint`'s remainder: the Euclidean remainder
/// of the two values.  Remainder by zero panics, hence the precondition.
#[verifier::external_body]
pub(crate) fn big_rem(a: &BigNat, b: &BigNat) -> (r: BigNat)
    requires
        b@ != 0,
    ensures
        r@ == a@ % b@,
{
    let x = num_bigint::BigUint::from_slice(&a.limbs) % num_bigint::BigUint::from_slice(&b.limbs);
    BigNat { limbs: x.to_u32_digits() }
}

/// Relies on `num_bigint::BigUint`'s subtraction, which panics on
/// underflow, hence the precondition.
#[verifier::external_body]
pub(crate) fn big_sub(a: &BigNat, b: &BigNat) -> (r: BigNat)
    requires
        b@ <= a@,
    ensures
        r@ == a@ - b@,
{
    let x = num_bigint::BigUint::from_slice(&a.limbs) - num_bigint::BigUint::from_slice(&b.limbs);
    BigNat { limbs: x.to_u32_digits() }
}

/// Relies on `num_bigint::BigUint`'s equality, which compares the
/// denoted numbers (`from_slice` normalises the digit vectors).
#[verifier::external_body]
pub(crate) fn big_eq(a: &BigNat, b: &BigNat) -> (r: bool)
    ensures
        r <==> a@ == b@,
{
    num_bigint::BigUint::from_slice(&a.limbs) == num_bigint::BigUint::from_slice(&b.limbs)
}

/// Relies on `num_bigint::BigUint`'s ordering, which orders by the
/// denoted numbers.
#[verifier::external_body]
pub(crate) fn big_lt(a: &BigNat, b: &BigNat) -> (r: bool)
    ensures
        r <==> a@ < b@,
{
    num_bigint::BigUint::from_slice(&a.limbs) < num_bigint::BigUint::from_slice(&b.limbs)
}

} // verus!
