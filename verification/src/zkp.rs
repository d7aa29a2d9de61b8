//! The proof-of-exponentiation argument.
//!
//! The statement is `result == base^(e_1 * ... * e_k) mod N`.  The
//! prover materialises the proof element `pi = base^(prod / l) mod N`
//! for a challenge `l`; prover and verifier fold the factors' reduced
//! representations into the residue `prod mod l` without ever building
//! the full product; and the verifier checks the single identity
//! `result == pi^l * base^residue mod N`.

use vstd::prelude::*;
use vstd::arithmetic::div_mod::{
    lemma_fundamental_div_mod, lemma_mul_mod_noop_general, lemma_small_mod,
};
use vstd::arithmetic::power::{lemma_pow_adds, lemma_pow_mod_noop, lemma_pow_multiplies, pow};

use crate::arith::{big_div, big_eq, big_lt, big_mul, big_rem, pow_mod_spec, BigNat};
use crate::errors::VdfError;
use crate::group::RsaGroup;

verus! {

/// A natural number paired with a copy that may already have been
/// reduced modulo a challenge, so that later folds reuse the reduction
/// instead of redoing it.
pub struct Reduced {
    pub raw: BigNat,
    pub reduced: BigNat,
}

impl Clone for Reduced {
    fn clone(&self) -> (r: Self)
        ensures
            r.raw@ == self.raw@,
            r.reduced@ == self.reduced@,
    {
        Reduced { raw: self.raw.clone(), reduced: self.reduced.clone() }
    }
}

impl Reduced {
    /// The pair is meaningful for challenge `l` when both components
    /// agree modulo `l`; the consuming protocol relies on exactly this.
    pub open spec fn consistent(&self, l: nat) -> bool {
        self.reduced@ % l == self.raw@ % l
    }

    /// Pair a raw value with an explicitly supplied reduction.
    pub fn new(raw: BigNat, reduced: BigNat) -> (r: Self)
        ensures
            r.raw == raw,
            r.reduced == reduced,
    {
        Self { raw, reduced }
    }

    /// The unreduced pair, used before any challenge exists.
    pub fn from_raw(raw: BigNat) -> (r: Self)
        ensures
            r.raw@ == raw@,
            r.reduced@ == raw@,
            forall|l: nat| r.consistent(l),
    {
        Self { reduced: raw.clone(), raw }
    }

    /// Reduce a raw value against a fixed challenge.
    pub fn bind_to_challenge(raw: BigNat, challenge: &BigNat) -> (r: Self)
        requires
            challenge@ != 0,
        ensures
            r.raw@ == raw@,
            r.reduced@ == raw@ % challenge@,
            r.consistent(challenge@),
    {
        let reduced = big_rem(&raw, challenge);
        proof {
            vstd::arithmetic::div_mod::lemma_mod_twice(raw@ as int, challenge@ as int);
        }
        Self { raw, reduced }
    }
}

/// The values denoted by a sequence of numbers.
pub open spec fn values_of(s: Seq<BigNat>) -> Seq<nat> {
    s.map_values(|x: BigNat| x@)
}

/// The raw components of a factor list.
pub open spec fn raw_values(s: Seq<Reduced>) -> Seq<nat> {
    s.map_values(|r: Reduced| r.raw@)
}

/// The reduced components of a factor list.
pub open spec fn reduced_values(s: Seq<Reduced>) -> Seq<nat> {
    s.map_values(|r: Reduced| r.reduced@)
}

/// The product of a sequence of naturals; 1 for the empty sequence.
pub open spec fn prod_seq(s: Seq<nat>) -> nat
    decreases s.len(),
{
    if s.len() == 0 {
        1
    } else {
        prod_seq(s.drop_last()) * s.last()
    }
}

/// The left fold `((1 * r_1) mod l * r_2) mod l ...` of the lazy
/// reduction; 1 for the empty sequence.
pub open spec fn fold_residue(s: Seq<nat>, l: nat) -> nat
    decreases s.len(),
{
    if s.len() == 0 {
        1
    } else {
        (fold_residue(s.drop_last(), l) * s.last()) % l
    }
}

/// What the verifier computes and compares against the claimed result:
/// `pi^l * x^residue mod n`, with `pi = x^(prod(raws)/l) mod n` and the
/// residue folded from the reduced components.
pub open spec fn poe_verifier_value(x: nat, raws: Seq<nat>, reds: Seq<nat>, l: nat, n: nat) -> int {
    let ni = n as int;
    ((pow(pow_mod_spec(x, prod_seq(raws) / l, n), l) % ni) * (pow(
        x as int,
        fold_residue(reds, l),
    ) % ni)) % ni
}

/// Law (reduction fold correctness): for every factor list whose
/// reduced components agree with the raw ones modulo `l > 1`, the
/// lazily folded residue equals the product of the raw factors reduced
/// directly.
pub proof fn lemma_fold_residue_matches_product(raws: Seq<nat>, reds: Seq<nat>, l: nat)
    requires
        l >= 2,
        raws.len() == reds.len(),
        forall|i: int| 0 <= i < raws.len() ==> reds[i] % l == raws[i] % l,
    ensures
        fold_residue(reds, l) == prod_seq(raws) % l,
    decreases raws.len(),
{
    if raws.len() == 0 {
        lemma_small_mod(1, l);
    } else {
        let rf = raws.drop_last();
        let df = reds.drop_last();
        let li = l as int;
        lemma_fold_residue_matches_product(rf, df, l);
        let p = prod_seq(rf) as int;
        lemma_mul_mod_noop_general(p, reds.last() as int, li);
        lemma_mul_mod_noop_general(p, raws.last() as int, li);
        assert((p * (reds.last() % l)) % li == (p * (raws.last() % l)) % li);
    }
}

/// Law (reduction fold correctness), phrased over the carriers
/// themselves: folding the `reduced` components of a factor list that
/// is consistent for a challenge `l > 1` equals reducing the product
/// of its `raw` components directly.
pub proof fn lemma_factor_fold_matches_product(fs: Seq<Reduced>, l: nat)
    requires
        l >= 2,
        forall|i: int| 0 <= i < fs.len() ==> #[trigger] fs[i].consistent(l),
    ensures
        fold_residue(reduced_values(fs), l) == prod_seq(raw_values(fs)) % l,
{
    assert forall|i: int| 0 <= i < fs.len() implies reduced_values(fs)[i] % l == raw_values(fs)[i]
        % l by {
        assert(fs[i].consistent(l));
    }
    lemma_fold_residue_matches_product(raw_values(fs), reduced_values(fs), l);
}

/// Law (verification value): for consistent factor lists and a
/// challenge greater than 1, the verifier's value is exactly the full
/// power `x^(prod(raws)) mod n` — so an honestly computed result always
/// passes, and any other value always fails.
pub proof fn lemma_poe_verifier_value(x: nat, raws: Seq<nat>, reds: Seq<nat>, l: nat, n: nat)
    requires
        n >= 2,
        l >= 2,
        raws.len() == reds.len(),
        forall|i: int| 0 <= i < raws.len() ==> reds[i] % l == raws[i] % l,
    ensures
        poe_verifier_value(x, raws, reds, l, n) == pow_mod_spec(x, prod_seq(raws), n),
{
    let xi = x as int;
    let ni = n as int;
    let e = prod_seq(raws);
    let q = e / l;
    let r = e % l;
    lemma_fold_residue_matches_product(raws, reds, l);
    lemma_fundamental_div_mod(e as int, l as int);
    assert(e == l * q + r);
    lemma_pow_mod_noop(pow(xi, q), l, ni);
    lemma_pow_multiplies(xi, q, l);
    lemma_mul_mod_noop_general(pow(xi, (q * l) as nat), pow(xi, r), ni);
    lemma_pow_adds(xi, (q * l) as nat, r);
    assert(q * l + r == e) by (nonlinear_arith)
        requires
            e == l * q + r,
    ;
}

/// The prover's element: `b^(prod(xs) / l) mod N`, the quotient power
/// of the full product by the challenge.  An empty factor list has
/// product 1.
pub fn base_to_product(g: &RsaGroup, b: &BigNat, l: &BigNat, xs: &Vec<BigNat>) -> (r: BigNat)
    requires
        g.wf(),
        l@ != 0,
    ensures
        r@ == pow_mod_spec(b@, prod_seq(values_of(xs@)) / l@, g.modulus@),
{
    let mut acc = BigNat::from_u32(1);
    let mut i: usize = 0;
    while i < xs.len()
        invariant
            i <= xs.len(),
            acc@ == prod_seq(values_of(xs@.take(i as int))),
        decreases xs.len() - i,
    {
        acc = big_mul(&acc, &xs[i]);
        proof {
            let prev = values_of(xs@.take(i as int));
            let cur = values_of(xs@.take(i + 1));
            assert(cur.drop_last() =~= prev);
            assert(cur.last() == xs@[i as int]@);
        }
        i = i + 1;
    }
    proof {
        assert(xs@.take(xs@.len() as int) =~= xs@);
    }
    let q = big_div(&acc, l);
    g.power(b, &q)
}

/// The full protocol round: reject a degenerate challenge, build the
/// proof element from the raw factors, fold the residue from the
/// reduced ones, and check `result == pi^l * base^residue mod N`.
///
/// For a challenge greater than 1 and a factor list that is consistent
/// for it, acceptance is exactly `result == base^(prod of factors)
/// mod N`.
pub fn proof_of_exp(
    group: &RsaGroup,
    base: &BigNat,
    challenge: &BigNat,
    power_factors: &Vec<Reduced>,
    result: &BigNat,
) -> (r: Result<(), VdfError>)
    requires
        group.wf(),
    ensures
        (challenge@ <= 1) <==> r == Err::<(), VdfError>(VdfError::ChallengeTooSmall),
        challenge@ > 1 ==> ((r matches Ok(u)) <==> poe_verifier_value(
            base@,
            raw_values(power_factors@),
            reduced_values(power_factors@),
            challenge@,
            group.modulus@,
        ) == result@),
        challenge@ > 1 && (forall|i: int|
            0 <= i < power_factors@.len() ==> power_factors@[i].consistent(challenge@)) ==> ((
        r matches Ok(u)) <==> result@ == pow_mod_spec(
            base@,
            prod_seq(raw_values(power_factors@)),
            group.modulus@,
        )),
        r matches Err(e) ==> e == VdfError::ChallengeTooSmall || e == VdfError::ProofUnsatisfied,
{
    let one = BigNat::from_u32(1);
    if !big_lt(&one, challenge) {
        return Err(VdfError::ChallengeTooSmall);
    }
    let mut raws: Vec<BigNat> = Vec::new();
    let mut i: usize = 0;
    while i < power_factors.len()
        invariant
            i <= power_factors@.len(),
            values_of(raws@) =~= raw_values(power_factors@.take(i as int)),
        decreases power_factors@.len() - i,
    {
        let ghost prev_raws = raws@;
        raws.push(power_factors[i].raw.clone());
        proof {
            let cur = raw_values(power_factors@.take(i + 1));
            assert(values_of(prev_raws).len() == prev_raws.len());
            assert(raw_values(power_factors@.take(i as int)).len() == i as int);
            assert(prev_raws.len() == i as int);
            assert(raws@.len() == i + 1);
            assert(raws@ == prev_raws.push(raws@[i as int]));
            assert forall|k: int| 0 <= k < i + 1 implies values_of(raws@)[k] == cur[k] by {
                assert(values_of(raws@)[k] == raws@[k]@);
                assert(cur[k] == power_factors@.take(i + 1)[k].raw@);
                if k < i {
                    assert(raws@[k] == prev_raws[k]);
                    assert(values_of(prev_raws)[k] == prev_raws[k]@);
                    assert(raw_values(power_factors@.take(i as int))[k] == power_factors@.take(
                        i as int,
                    )[k].raw@);
                }
            }
            assert(values_of(raws@) =~= cur);
        }
        i = i + 1;
    }
    proof {
        assert(power_factors@.take(power_factors@.len() as int) =~= power_factors@);
        assert(values_of(raws@) =~= raw_values(power_factors@));
    }
    let pi = base_to_product(group, base, challenge, &raws);
    let mut residue = BigNat::from_u32(1);
    let mut j: usize = 0;
    while j < power_factors.len()
        invariant
            j <= power_factors@.len(),
            challenge@ > 1,
            residue@ == fold_residue(reduced_values(power_factors@.take(j as int)), challenge@),
        decreases power_factors@.len() - j,
    {
        residue = big_rem(&big_mul(&residue, &power_factors[j].reduced), challenge);
        proof {
            let prev = reduced_values(power_factors@.take(j as int));
            let cur = reduced_values(power_factors@.take(j + 1));
            assert(cur.drop_last() =~= prev);
            assert(cur.last() == power_factors@[j as int].reduced@);
        }
        j = j + 1;
    }
    proof {
        assert(power_factors@.take(power_factors@.len() as int) =~= power_factors@);
    }
    let ql = group.power(&pi, challenge);
    let br = group.power(base, &residue);
    let lhs = group.operate(&ql, &br);
    let ok = big_eq(&lhs, result);
    proof {
        if forall|i2: int|
            0 <= i2 < power_factors@.len() ==> power_factors@[i2].consistent(challenge@) {
            assert forall|i2: int| 0 <= i2 < power_factors@.len() implies reduced_values(
                power_factors@,
            )[i2] % challenge@ == raw_values(power_factors@)[i2] % challenge@ by {
                assert(power_factors@[i2].consistent(challenge@));
            }
            lemma_poe_verifier_value(
                base@,
                raw_values(power_factors@),
                reduced_values(power_factors@),
                challenge@,
                group.modulus@,
            );
        }
    }
    if ok {
        Ok(())
    } else {
        Err(VdfError::ProofUnsatisfied)
    }
}

} // verus!
