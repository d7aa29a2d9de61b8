//! The RSA semigroup: multiplication and exponentiation modulo a
//! public modulus.

use vstd::prelude::*;
use vstd::arithmetic::div_mod::lemma_mul_mod_noop_general;
use vstd::arithmetic::power::{lemma_pow_adds, pow};

use crate::arith::{big_eq, big_lt, big_mul, big_rem, pow_mod, pow_mod_spec, BigNat};
use crate::errors::VdfError;

verus! {

/// The multiplicative semigroup of integers modulo `modulus`, with a
/// distinguished generator.
pub struct RsaGroup {
    pub generator: BigNat,
    pub modulus: BigNat,
}

impl RsaGroup {
    /// What every group operation relies on: a modulus of at least 2.
    pub open spec fn wf(&self) -> bool {
        self.modulus@ >= 2
    }

    /// Builds the group, rejecting a modulus that is not an odd integer
    /// greater than 1 and a zero generator.  Coprimality of generator
    /// and modulus is a trust assumption on the caller: checking it is
    /// advisory and this implementation skips it.
    pub fn new(generator: BigNat, modulus: BigNat) -> (r: Result<RsaGroup, VdfError>)
        ensures
            r matches Ok(g) ==> g.generator@ == generator@ && g.modulus@ == modulus@ && g.wf()
                && g.modulus@ % 2 == 1,
            r matches Err(e) ==> e == VdfError::InvalidGroupParameters,
            (r matches Ok(g)) <==> (modulus@ > 1 && modulus@ % 2 == 1 && generator@ != 0),
    {
        let one = BigNat::from_u32(1);
        let zero = BigNat::zero();
        if !big_lt(&one, &modulus) {
            return Err(VdfError::InvalidGroupParameters);
        }
        if !modulus.is_odd() {
            return Err(VdfError::InvalidGroupParameters);
        }
        if big_eq(&generator, &zero) {
            return Err(VdfError::InvalidGroupParameters);
        }
        Ok(RsaGroup { generator, modulus })
    }

    /// The semigroup operation: `(a * b) mod modulus`.
    pub fn operate(&self, a: &BigNat, b: &BigNat) -> (r: BigNat)
        requires
            self.wf(),
        ensures
            r@ == (a@ * b@) % self.modulus@,
    {
        big_rem(&big_mul(a, b), &self.modulus)
    }

    /// Binary (square-and-multiply) exponentiation:
    /// `base^exponent mod modulus`.
    pub fn power(&self, base: &BigNat, exponent: &BigNat) -> (r: BigNat)
        requires
            self.wf(),
        ensures
            r@ == pow_mod_spec(base@, exponent@, self.modulus@),
    {
        pow_mod(base, exponent, &self.modulus)
    }
}

/// The result of `e` successive semigroup operations with `x`,
/// starting from the identity.
pub open spec fn iterated_operate(x: nat, e: nat, n: nat) -> int
    decreases e,
{
    if e == 0 {
        1int % (n as int)
    } else {
        (iterated_operate(x, (e - 1) as nat, n) * x) % (n as int)
    }
}

/// Law: binary exponentiation returns exactly what repeated semigroup
/// operations return, whatever the bit-length of the exponent.
pub proof fn lemma_power_is_iterated_operate(x: nat, e: nat, n: nat)
    requires
        n >= 2,
    ensures
        pow_mod_spec(x, e, n) == iterated_operate(x, e, n),
    decreases e,
{
    let xi = x as int;
    let ni = n as int;
    if e == 0 {
        vstd::arithmetic::power::lemma_pow0(xi);
    } else {
        lemma_power_is_iterated_operate(x, (e - 1) as nat, n);
        lemma_mul_mod_noop_general(pow(xi, (e - 1) as nat), xi, ni);
        lemma_pow_adds(xi, (e - 1) as nat, 1);
        vstd::arithmetic::power::lemma_pow1(xi);
    }
}

/// The semigroup operation is commutative.
pub proof fn lemma_operate_commutative(g: &RsaGroup, a: nat, b: nat)
    requires
        g.wf(),
    ensures
        (a * b) % g.modulus@ == (b * a) % g.modulus@,
{
}

/// The semigroup operation is associative: reducing after each step
/// changes nothing.
pub proof fn lemma_operate_associative(g: &RsaGroup, a: nat, b: nat, c: nat)
    requires
        g.wf(),
    ensures
        (((a * b) % g.modulus@) * c) % g.modulus@ == (a * ((b * c) % g.modulus@)) % g.modulus@,
{
    let n = g.modulus@ as int;
    lemma_mul_mod_noop_general((a * b) as int, c as int, n);
    lemma_mul_mod_noop_general(a as int, (b * c) as int, n);
    vstd::arithmetic::mul::lemma_mul_is_associative(a as int, b as int, c as int);
}

/// `1 mod N` is the identity of the semigroup operation.
pub proof fn lemma_operate_identity(g: &RsaGroup, a: nat)
    requires
        g.wf(),
    ensures
        ((1nat % g.modulus@) * a) % g.modulus@ == a % g.modulus@,
{
    let n = g.modulus@ as int;
    lemma_mul_mod_noop_general(1, a as int, n);
}

/// Law: powers of a common base compose additively in the exponent.
/// Operating on `power(x, a)` and `power(x, b)` yields exactly
/// `power(x, a + b)`, for every base and pair of exponents.
pub proof fn lemma_power_homomorphism(g: &RsaGroup, x: nat, a: nat, b: nat)
    requires
        g.wf(),
    ensures
        (pow_mod_spec(x, a, g.modulus@) * pow_mod_spec(x, b, g.modulus@)) % (g.modulus@ as int)
            == pow_mod_spec(x, (a + b) as nat, g.modulus@),
{
    let n = g.modulus@ as int;
    lemma_pow_adds(x as int, a, b);
    lemma_mul_mod_noop_general(pow(x as int, a), pow(x as int, b), n);
}

} // verus!
