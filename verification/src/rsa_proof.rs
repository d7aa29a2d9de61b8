//! A complete proof-of-exponentiation instance over explicit inputs.
//!
//! [`PoE`] bundles the public statement — base, exponent factors,
//! challenge, modulus and (optionally) the claimed result — with the
//! dimensioning parameters that an external circuit layer would use to
//! allocate the same values, and runs the plain-arithmetic protocol of
//! [`crate::zkp`] over them.  When no result is supplied it is
//! recomputed from the factors by iterated modular exponentiation, so
//! an instance without a claimed result always verifies.

use vstd::prelude::*;
use vstd::arithmetic::power::{lemma_pow_mod_noop, lemma_pow_multiplies, pow};

use crate::arith::{pow_mod, pow_mod_spec, BigNat};
use crate::errors::VdfError;
use crate::group::RsaGroup;
use crate::zkp::{proof_of_exp, prod_seq, raw_values, values_of, Reduced};

verus! {

/// The public inputs of one proof instance.
pub struct PoEInputs {
    pub b: BigNat,
    pub exps: Vec<BigNat>,
    pub l: BigNat,
    pub m: BigNat,
    pub res: Option<BigNat>,
}

/// Dimensioning hints for the external circuit layer: the limb width
/// and the limb counts with which base and exponents would be
/// allocated there.  The plain-arithmetic protocol does not depend on
/// them.
pub struct PoEParams {
    pub limb_width: usize,
    pub n_limb_b: usize,
    pub n_limb_e: usize,
}

/// A proof-of-exponentiation instance: optional witness inputs plus
/// allocation parameters.
pub struct PoE {
    pub inputs: Option<PoEInputs>,
    pub params: PoEParams,
}

/// Iterated modular exponentiation: the result of raising `b` to each
/// exponent in turn, reducing after every step.  The empty chain is
/// `b` itself, unreduced.
pub open spec fn chain_pow(b: nat, es: Seq<nat>, m: nat) -> nat
    decreases es.len(),
{
    if es.len() == 0 {
        b
    } else {
        pow_mod_spec(chain_pow(b, es.drop_last(), m), es.last(), m) as nat
    }
}

/// A nonempty exponentiation chain computes the power of the product
/// of its exponents.
pub proof fn lemma_chain_pow_is_product_pow(b: nat, es: Seq<nat>, m: nat)
    requires
        m >= 2,
        es.len() >= 1,
    ensures
        chain_pow(b, es, m) == pow_mod_spec(b, prod_seq(es), m),
    decreases es.len(),
{
    let front = es.drop_last();
    if es.len() == 1 {
        assert(prod_seq(front) == 1);
        vstd::arithmetic::power::lemma_pow1(b as int);
        assert(prod_seq(es) == 1 * es.last());
    } else {
        lemma_chain_pow_is_product_pow(b, front, m);
        lemma_pow_mod_noop(pow(b as int, prod_seq(front)), es.last(), m as int);
        lemma_pow_multiplies(b as int, prod_seq(front), es.last());
    }
}

/// The value the instance claims: the supplied result, or the one
/// recomputed from the factors when none was supplied.
pub open spec fn target_value(inp: PoEInputs) -> nat {
    match inp.res {
        Some(y) => y@,
        None => chain_pow(inp.b@, values_of(inp.exps@), inp.m@),
    }
}

/// What the instance's modulus must satisfy to build the group: an odd
/// integer greater than 1.
pub open spec fn modulus_ok(m: nat) -> bool {
    m > 1 && m % 2 == 1
}

impl PoE {
    /// Runs the whole protocol round over the instance's inputs:
    /// rejects a missing witness, a malformed modulus and a degenerate
    /// challenge, and otherwise accepts exactly when the (supplied or
    /// recomputed) result equals `b^(prod of factors) mod m`.
    pub fn check(&self) -> (r: Result<(), VdfError>)
        ensures
            (self.inputs is None) <==> r == Err::<(), VdfError>(VdfError::MissingWitness),
            self.inputs is Some && !modulus_ok(self.inputs->0.m@) ==> r == Err::<(), VdfError>(
                VdfError::InvalidGroupParameters,
            ),
            self.inputs is Some && modulus_ok(self.inputs->0.m@) ==> ((self.inputs->0.l@ <= 1) <==> r
                == Err::<(), VdfError>(VdfError::ChallengeTooSmall)),
            self.inputs is Some && modulus_ok(self.inputs->0.m@) && self.inputs->0.l@ > 1 ==> ((
            r is Ok) <==> target_value(self.inputs->0) == pow_mod_spec(
                self.inputs->0.b@,
                prod_seq(values_of(self.inputs->0.exps@)),
                self.inputs->0.m@,
            )),
            self.inputs is Some && modulus_ok(self.inputs->0.m@) && self.inputs->0.l@ > 1
                && target_value(self.inputs->0) != pow_mod_spec(
                self.inputs->0.b@,
                prod_seq(values_of(self.inputs->0.exps@)),
                self.inputs->0.m@,
            ) ==> r == Err::<(), VdfError>(VdfError::ProofUnsatisfied),
            self.inputs is Some && modulus_ok(self.inputs->0.m@) && self.inputs->0.l@ > 1
                && self.inputs->0.res is None && self.inputs->0.exps@.len() >= 1 ==> r is Ok,
    {
        let inp = match &self.inputs {
            None => { return Err(VdfError::MissingWitness) },
            Some(inp) => inp,
        };
        let group = match RsaGroup::new(BigNat::from_u32(2), inp.m.clone()) {
            Ok(g) => g,
            Err(e) => { return Err(e) },
        };
        let mut factors: Vec<Reduced> = Vec::new();
        let mut i: usize = 0;
        while i < inp.exps.len()
            invariant
                i <= inp.exps@.len(),
                factors@.len() == i,
                forall|k: int|
                    0 <= k < i ==> #[trigger] factors@[k].raw@ == inp.exps@[k]@
                        && factors@[k].reduced@ == inp.exps@[k]@,
            decreases inp.exps@.len() - i,
        {
            factors.push(Reduced::from_raw(inp.exps[i].clone()));
            i = i + 1;
        }
        proof {
            assert(raw_values(factors@) =~= values_of(inp.exps@));
        }
        let res = match &inp.res {
            Some(y) => y.clone(),
            None => {
                let mut acc = inp.b.clone();
                let mut j: usize = 0;
                while j < inp.exps.len()
                    invariant
                        j <= inp.exps@.len(),
                        group.modulus@ == inp.m@,
                        group.wf(),
                        acc@ == chain_pow(inp.b@, values_of(inp.exps@.take(j as int)), inp.m@),
                    decreases inp.exps@.len() - j,
                {
                    acc = pow_mod(&acc, &inp.exps[j], &group.modulus);
                    proof {
                        let prev = values_of(inp.exps@.take(j as int));
                        let cur = values_of(inp.exps@.take(j + 1));
                        assert(cur.drop_last() =~= prev);
                        assert(cur.last() == inp.exps@[j as int]@);
                    }
                    j = j + 1;
                }
                proof {
                    assert(inp.exps@.take(inp.exps@.len() as int) =~= inp.exps@);
                }
                acc
            },
        };
        let r = proof_of_exp(&group, &inp.b, &inp.l, &factors, &res);
        proof {
            if inp.l@ > 1 {
                assert(forall|k: int|
                    0 <= k < factors@.len() ==> #[trigger] factors@[k].consistent(inp.l@));
                if inp.res matches None && inp.exps@.len() >= 1 {
                    lemma_chain_pow_is_product_pow(inp.b@, values_of(inp.exps@), inp.m@);
                }
            }
        }
        r
    }
}

} // verus!
