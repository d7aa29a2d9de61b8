//! A time-lock delay function and a succinct proof of exponentiation
//! over an RSA-type group.
//!
//! The crate has three layers.  [`group::RsaGroup`] is the multiplicative
//! semigroup modulo a public modulus, with verified square-and-multiply
//! exponentiation.  [`TrapdoorVDF`] evaluates the delay function
//! `base^(t_b^(2^t)) mod N` either honestly, by sequential powering, or
//! quickly with the secret group order as a trapdoor.  [`zkp`] and
//! [`rsa_proof`] carry the proof-of-exponentiation argument that such a
//! result is correct, with its lazy-reduction fold.

use vstd::prelude::*;
use vstd::arithmetic::div_mod::{
    lemma_fundamental_div_mod, lemma_fundamental_div_mod_converse_mod, lemma_mul_mod_noop_general,
    lemma_small_mod,
};
use vstd::arithmetic::power::{
    lemma1_pow, lemma_pow1, lemma_pow_adds, lemma_pow_mod_noop, lemma_pow_multiplies,
    lemma_pow_positive, pow,
};
use vstd::arithmetic::power2::pow2;

use crate::arith::{
    big_eq, big_mul, big_rem, big_sub, coprime, gcd, pow2_u64, pow_mod, pow_mod_spec, BigNat,
    generate_prime,
};
use crate::errors::VdfError;
use crate::group::RsaGroup;

pub mod arith;
pub mod errors;
pub mod group;
pub mod rsa_proof;
pub mod zkp;

verus! {

/// The smallest modulus size considered safe to generate: two random
/// prime factors of at least 512 bits each.
pub const MIN_MODULUS_BITS: usize = 1024;

/// Explicit evaluator configuration.  `time_base` is the base of the
/// exponent tower (2 in the standard delay function) and
/// `max_time_parameter` the cap that the time parameter is clamped to.
pub struct VdfConfig {
    pub time_base: u64,
    pub max_time_parameter: u64,
}

impl VdfConfig {
    /// A positive tower base, and a cap small enough that the number
    /// of sequential steps, `2^t`, fits a machine word.
    pub open spec fn wf(&self) -> bool {
        1 <= self.time_base && self.max_time_parameter <= 62
    }
}

/// The time parameter actually evaluated: requests above the cap are
/// clamped to the cap, and silently yield the cap's result.
pub open spec fn clamped_time(t: u64, max: u64) -> nat {
    if t <= max {
        t as nat
    } else {
        max as nat
    }
}

/// The delay exponent for time parameter `t`: `tb^(2^t)`.
pub open spec fn delay_exponent(tb: nat, t: nat) -> nat {
    pow(tb as int, pow2(t)) as nat
}

/// The delay function evaluator.  In the `Honest` state (`trapdoor`
/// is 1) only the slow sequential path is sound; in the `Trapdoored`
/// state `trapdoor` holds the secret group order `phi(N)`, which lets
/// [`TrapdoorVDF::eval_with_trapdoor`] shortcut the tower by Euler's
/// theorem.  A slow-path prover must never transmit a trapdoored
/// state: revealing the order forfeits the delay guarantee.
pub struct TrapdoorVDF {
    pub group: RsaGroup,
    pub trapdoor: BigNat,
    pub config: VdfConfig,
}

/// What a trapdoor order hint promises: raising any base coprime to
/// the modulus to it yields 1.  This is the trust assumption placed on
/// whoever constructed the state — the crate performs no runtime check
/// of it — and it is exactly what the fast path's soundness rests on.
pub open spec fn order_annihilates(phi: nat, n: nat) -> bool {
    forall|b: nat| coprime(b, n) ==> #[trigger] pow_mod_spec(b, phi, n) == 1
}

impl TrapdoorVDF {
    /// Structural validity: a usable group, a usable configuration,
    /// and a nonzero order hint.
    pub open spec fn wf(&self) -> bool {
        &&& self.group.wf()
        &&& self.config.wf()
        &&& self.trapdoor@ >= 1
    }

    /// Whether the state carries a (claimed) group order.
    pub open spec fn is_trapdoored(&self) -> bool {
        self.trapdoor@ != 1
    }

    /// The honest-evaluator state: a public group, no order hint.
    pub fn setup(generator: BigNat, modulus: BigNat, config: VdfConfig) -> (r: Result<
        TrapdoorVDF,
        VdfError,
    >)
        requires
            config.wf(),
        ensures
            (r matches Ok(v)) <==> (modulus@ > 1 && modulus@ % 2 == 1 && generator@ != 0),
            r matches Ok(v) ==> v.wf() && !v.is_trapdoored() && v.group.modulus@ == modulus@
                && v.group.generator@ == generator@ && v.config == config,
            r matches Err(e) ==> e == VdfError::InvalidGroupParameters,
    {
        let group = match RsaGroup::new(generator, modulus) {
            Ok(g) => g,
            Err(e) => { return Err(e) },
        };
        Ok(TrapdoorVDF { group, trapdoor: BigNat::from_u32(1), config })
    }

    /// The trapdoored state: the modulus is the product of two fresh
    /// random primes of `modulus_bits / 2` bits, and the order hint is
    /// its Euler totient `(p - 1) * (q - 1)`.  The factors themselves
    /// do not outlive this call; only the modulus and the totient
    /// persist in the returned state.
    pub fn setup_with_random(generator: BigNat, modulus_bits: usize, config: VdfConfig) -> (r:
        Result<TrapdoorVDF, VdfError>)
        requires
            config.wf(),
        ensures
            (r matches Err(e) && e == VdfError::PrimeGenerationError) <==> modulus_bits
                < MIN_MODULUS_BITS,
            modulus_bits >= MIN_MODULUS_BITS ==> ((r matches Ok(v)) <==> generator@ != 0),
            r matches Err(e) ==> e == VdfError::PrimeGenerationError || e
                == VdfError::InvalidGroupParameters,
            r matches Ok(v) ==> v.wf() && v.is_trapdoored() && v.group.generator@ == generator@
                && v.config == config && v.group.modulus@ % 2 == 1 && trapdoor_totient_shape(
                v.group.modulus@,
                v.trapdoor@,
                (modulus_bits / 2) as nat,
            ),
    {
        if modulus_bits < MIN_MODULUS_BITS {
            return Err(VdfError::PrimeGenerationError);
        }
        let half_bits = modulus_bits / 2;
        let p = generate_prime(half_bits);
        let q = generate_prime(half_bits);
        let modulus = big_mul(&p, &q);
        let one = BigNat::from_u32(1);
        let p1 = big_sub(&p, &one);
        let q1 = big_sub(&q, &one);
        let phi = big_mul(&p1, &q1);
        proof {
            lemma_odd_times_odd_is_odd(p@, q@);
            assert(p@ * q@ >= 3 * 3 && (p@ - 1) * (q@ - 1) >= 2 * 2) by (nonlinear_arith)
                requires
                    p@ >= 3,
                    q@ >= 3,
            ;
        }
        let group = match RsaGroup::new(generator, modulus) {
            Ok(g) => g,
            Err(e) => { return Err(e) },
        };
        proof {
            assert(group.modulus@ == p@ * q@ && phi@ == (p@ - 1) * (q@ - 1));
            assert(trapdoor_totient_shape(group.modulus@, phi@, (modulus_bits / 2) as nat));
        }
        Ok(TrapdoorVDF { group, trapdoor: phi, config })
    }

    /// Honest sequential evaluation of `base^(tb^(2^t)) mod N`, as
    /// `2^t` successive `tb`-th powers, each depending on the one
    /// before — the delay primitive.  A time parameter above the
    /// configured cap is clamped to the cap.
    pub fn eval(&self, base: &BigNat, time: u64) -> (r: BigNat)
        requires
            self.wf(),
        ensures
            r@ == pow_mod_spec(
                base@,
                delay_exponent(
                    self.config.time_base as nat,
                    clamped_time(time, self.config.max_time_parameter),
                ),
                self.group.modulus@,
            ),
    {
        let k = if time <= self.config.max_time_parameter {
            time
        } else {
            self.config.max_time_parameter
        };
        let steps = pow2_u64(k);
        let tb = BigNat::from_u64(self.config.time_base);
        let ghost tbi = self.config.time_base as int;
        let ghost ni = self.group.modulus@ as int;
        let mut s = big_rem(base, &self.group.modulus);
        proof {
            lemma_pow1(base@ as int);
            assert(pow(tbi, 0) == 1) by {
                vstd::arithmetic::power::lemma_pow0(tbi);
            }
        }
        let mut i: u64 = 0;
        while i < steps
            invariant
                i <= steps,
                self.wf(),
                tb@ == self.config.time_base,
                tbi == self.config.time_base as int,
                ni == self.group.modulus@ as int,
                s@ == pow_mod_spec(base@, pow(self.config.time_base as int, i as nat) as nat, self.group.modulus@),
                pow(self.config.time_base as int, i as nat) >= 1,
            decreases steps - i,
        {
            let ghost e_i = pow(tbi, i as nat) as nat;
            let ghost s_prev = s@;
            s = if self.config.time_base == 2 {
                // The standard delay function: a sequential squaring.
                self.group.operate(&s, &s)
            } else {
                self.group.power(&s, &tb)
            };
            proof {
                if self.config.time_base == 2 {
                    vstd::arithmetic::power::lemma_square_is_pow2(s_prev as int);
                }
                assert(s@ == pow(s_prev as int, self.config.time_base as nat) % ni);
                lemma_pow_positive(tbi, (i + 1) as nat);
                lemma_pow_mod_noop(pow(base@ as int, e_i), self.config.time_base as nat, ni);
                lemma_pow_multiplies(base@ as int, e_i, self.config.time_base as nat);
                lemma_pow1(tbi);
                lemma_pow_adds(tbi, i as nat, 1);
            }
            i = i + 1;
        }
        proof {
            lemma_pow_positive(tbi, pow2(k as nat));
        }
        s
    }
}

impl TrapdoorVDF {
    /// Fast evaluation with the secret group order: the tower exponent
    /// `tb^(2^t)` is reduced modulo the order hint, then a single
    /// exponentiation is performed.  Valid only in the trapdoored
    /// state.  A base sharing a factor with the modulus is rejected,
    /// since Euler reduction is unsound for it.
    pub fn eval_with_trapdoor(&self, base: &BigNat, time: u64) -> (r: Result<BigNat, VdfError>)
        requires
            self.wf(),
            self.is_trapdoored(),
        ensures
            (r matches Ok(y)) <==> coprime(base@, self.group.modulus@),
            r matches Err(e) ==> e == VdfError::NonCoprimeBase,
            r matches Ok(y) ==> y@ == pow_mod_spec(
                base@,
                delay_exponent(
                    self.config.time_base as nat,
                    clamped_time(time, self.config.max_time_parameter),
                ) % self.trapdoor@,
                self.group.modulus@,
            ),
    {
        let one = BigNat::from_u32(1);
        let g = gcd(base, &self.group.modulus);
        if !big_eq(&g, &one) {
            return Err(VdfError::NonCoprimeBase);
        }
        let k = if time <= self.config.max_time_parameter {
            time
        } else {
            self.config.max_time_parameter
        };
        let steps = pow2_u64(k);
        let tb = BigNat::from_u64(self.config.time_base);
        let tower = BigNat::from_u64(steps);
        let reduced = pow_mod(&tb, &tower, &self.trapdoor);
        proof {
            lemma_pow_positive(self.config.time_base as int, pow2(k as nat));
        }
        Ok(pow_mod(base, &reduced, &self.group.modulus))
    }
}

/// Euler reduction: if raising `b` to `phi` yields 1 modulo `n`, then
/// exponents of `b` can be reduced modulo `phi` without changing the
/// result modulo `n`.
proof fn lemma_euler_reduction(b: nat, e: nat, phi: nat, n: nat)
    requires
        n >= 2,
        phi >= 1,
        pow_mod_spec(b, phi, n) == 1,
    ensures
        pow_mod_spec(b, e, n) == pow_mod_spec(b, e % phi, n),
{
    let bi = b as int;
    let ni = n as int;
    let q = e / phi;
    let r = e % phi;
    lemma_fundamental_div_mod(e as int, phi as int);
    assert(e == phi * q + r);
    lemma_pow_adds(bi, (phi * q) as nat, r);
    lemma_pow_multiplies(bi, phi, q);
    lemma_mul_mod_noop_general(pow(bi, (phi * q) as nat), pow(bi, r), ni);
    lemma_pow_mod_noop(pow(bi, phi), q, ni);
    lemma1_pow(q);
    lemma_small_mod(1, n);
    assert(pow(bi, (phi * q) as nat) % ni == 1);
    assert(pow(bi, e) % ni == (1 * (pow(bi, r) % ni)) % ni);
    lemma_mul_mod_noop_general(1, pow(bi, r), ni);
}

/// Law (fast/slow equivalence): on a valid trapdoored state whose
/// order hint truly annihilates the units of the group — the trust
/// assumption a trapdoored setup carries — the fast path computes the
/// same value as honest sequential evaluation, for every base coprime
/// to the modulus and every time parameter.
pub proof fn lemma_trapdoor_equivalence(v: &TrapdoorVDF, b: nat, t: u64)
    requires
        v.wf(),
        v.is_trapdoored(),
        coprime(b, v.group.modulus@),
        order_annihilates(v.trapdoor@, v.group.modulus@),
    ensures
        pow_mod_spec(
            b,
            delay_exponent(v.config.time_base as nat, clamped_time(t, v.config.max_time_parameter)),
            v.group.modulus@,
        ) == pow_mod_spec(
            b,
            delay_exponent(v.config.time_base as nat, clamped_time(t, v.config.max_time_parameter))
                % v.trapdoor@,
            v.group.modulus@,
        ),
{
    let e = delay_exponent(v.config.time_base as nat, clamped_time(t, v.config.max_time_parameter));
    assert(pow_mod_spec(b, v.trapdoor@, v.group.modulus@) == 1);
    lemma_euler_reduction(b, e, v.trapdoor@, v.group.modulus@);
}

/// A delay-function statement: the claim that `result` is the delay
/// function of `base` at time parameter `time_parameter` over
/// `modulus`.  Produced by evaluation; consumed by the
/// proof-of-exponentiation layer as its public statement.
pub struct DelayStatement {
    pub base: BigNat,
    pub time_parameter: u64,
    pub modulus: BigNat,
    pub result: BigNat,
}

impl DelayStatement {
    /// The claim the statement represents, under a given evaluator
    /// configuration.
    pub open spec fn claims(&self, config: VdfConfig) -> bool {
        self.result@ == pow_mod_spec(
            self.base@,
            delay_exponent(
                config.time_base as nat,
                clamped_time(self.time_parameter, config.max_time_parameter),
            ),
            self.modulus@,
        )
    }
}

impl TrapdoorVDF {
    /// Evaluates honestly and packages base, time parameter, modulus
    /// and result as a statement whose claim is established.
    pub fn eval_statement(&self, base: &BigNat, time: u64) -> (r: DelayStatement)
        requires
            self.wf(),
        ensures
            r.base@ == base@,
            r.time_parameter == time,
            r.modulus@ == self.group.modulus@,
            r.claims(self.config),
    {
        let result = self.eval(base, time);
        DelayStatement {
            base: base.clone(),
            time_parameter: time,
            modulus: self.group.modulus.clone(),
            result,
        }
    }
}

/// The product of two odd naturals is odd.
proof fn lemma_odd_times_odd_is_odd(p: nat, q: nat)
    requires
        p % 2 == 1,
        q % 2 == 1,
    ensures
        (p * q) % 2 == 1,
{
    let a = p / 2;
    let b = q / 2;
    lemma_fundamental_div_mod(p as int, 2);
    lemma_fundamental_div_mod(q as int, 2);
    assert(p * q == 2 * (2 * a * b + a + b) + 1) by (nonlinear_arith)
        requires
            p == 2 * a + 1,
            q == 2 * b + 1,
    ;
    lemma_fundamental_div_mod_converse_mod((p * q) as int, 2, (2 * a * b + a + b) as int, 1);
}

/// The shape that [`TrapdoorVDF::setup_with_random`] guarantees of a
/// generated state: the modulus is a product of two odd factors of at
/// most `half_bits` bits, at least 3 each, and the order hint is the
/// totient formula over the same two factors.
pub open spec fn trapdoor_totient_shape(n: nat, phi: nat, half_bits: nat) -> bool {
    exists|p: nat, q: nat|
        {
            &&& p % 2 == 1
            &&& q % 2 == 1
            &&& 3 <= p < pow2(half_bits)
            &&& 3 <= q < pow2(half_bits)
            &&& n == #[trigger] (p * q)
            &&& phi == (p - 1) * (q - 1)
        }
}

} // verus!
