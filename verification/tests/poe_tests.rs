use vdf_snark::arith::BigNat;
use vdf_snark::errors::VdfError;
use vdf_snark::group::RsaGroup;
use vdf_snark::rsa_proof::{PoE, PoEInputs, PoEParams};
use vdf_snark::zkp::{base_to_product, proof_of_exp, Reduced};

fn bn(x: u32) -> BigNat {
    if x == 0 {
        BigNat { limbs: vec![] }
    } else {
        BigNat { limbs: vec![x] }
    }
}

fn params() -> PoEParams {
    PoEParams { limb_width: 4, n_limb_b: 2, n_limb_e: 1 }
}

fn poe(b: u32, exps: &[u32], l: u32, m: u32, res: Option<u32>) -> PoE {
    PoE {
        inputs: Some(PoEInputs {
            b: bn(b),
            exps: exps.iter().map(|e| bn(*e)).collect(),
            l: bn(l),
            m: bn(m),
            res: res.map(bn),
        }),
        params: params(),
    }
}

// `b^(prod(exps)) mod m` computed independently of the library.
fn honest_result(b: u32, exps: &[u32], m: u32) -> BigNat {
    let mut e = num_bigint::BigUint::from_slice(&[1]);
    for x in exps {
        e *= num_bigint::BigUint::from_slice(&[*x]);
    }
    let v = num_bigint::BigUint::from_slice(&[b])
        .modpow(&e, &num_bigint::BigUint::from_slice(&[m]));
    BigNat { limbs: v.to_u32_digits() }
}

#[test]
fn base_to_product_simple() {
    let b = bn(2);
    let l = bn(2);
    let xs = vec![bn(1), bn(1), bn(1)];

    let g = RsaGroup::new(bn(2), bn(17)).unwrap();
    let res = base_to_product(&g, &b, &l, &xs);
    assert_eq!(res, bn(1));
}

#[test]
fn base_to_product_empty_factor_list() {
    // An empty factor list has product 1: the quotient power is
    // b^(1 / l) = b^0 = 1 for any challenge above 1.
    let g = RsaGroup::new(bn(2), bn(143)).unwrap();
    let res = base_to_product(&g, &bn(7), &bn(3), &vec![]);
    assert_eq!(res, bn(1));
}

#[test]
fn base_to_product_quotient_exact() {
    // prod(xs) = 28, l = 5, so the proof element is 3^5 mod 143 = 100.
    let g = RsaGroup::new(bn(2), bn(143)).unwrap();
    let res = base_to_product(&g, &bn(3), &bn(5), &vec![bn(7), bn(4)]);
    assert_eq!(res, bn(100));
}

#[test]
fn proof_1_to_1() {
    // modulus 255, generator 2, base "1", factors ["1"], challenge
    // "15": result "1" proves and verifies.
    let instance = poe(1, &[1], 15, 255, Some(1));
    assert!(instance.check().is_ok());
}

#[test]
fn proof_1_to_1_wrong_result_fails() {
    // The same instance with result "2" must fail verification.
    let instance = poe(1, &[1], 15, 255, Some(2));
    assert!(matches!(instance.check(), Err(VdfError::ProofUnsatisfied)));
}

#[test]
fn poe_accepts_honest_results() {
    let cases: &[(u32, &[u32], u32, u32)] = &[
        (7, &[3, 5], 17, 255),
        (2, &[10, 11, 12], 13, 143),
        (5, &[], 7, 35),
        (9, &[1], 2, 15),
    ];
    for &(b, exps, l, m) in cases {
        let res = honest_result(b, exps, m);
        let instance = PoE {
            inputs: Some(PoEInputs {
                b: bn(b),
                exps: exps.iter().map(|e| bn(*e)).collect(),
                l: bn(l),
                m: bn(m),
                res: Some(res),
            }),
            params: params(),
        };
        assert!(instance.check().is_ok());
    }
}

#[test]
fn poe_recomputes_missing_result() {
    // With no claimed result the instance recomputes it honestly and
    // must accept.
    let instance = poe(7, &[3, 5], 17, 255, None);
    assert!(instance.check().is_ok());
}

#[test]
fn poe_rejects_forged_results() {
    // y' = y + 1 mod N must fail for every sampled challenge.
    let b = 7u32;
    let exps: &[u32] = &[3, 5];
    let m = 255u32;
    let honest = honest_result(b, exps, m);
    let forged = (num_bigint::BigUint::from_slice(&honest.limbs) + 1u32)
        % num_bigint::BigUint::from_slice(&[m]);
    let forged = BigNat { limbs: forged.to_u32_digits() };
    let mut failures: u32 = 0;
    for l in [2u32, 3, 5, 7, 11, 13, 17] {
        let instance = PoE {
            inputs: Some(PoEInputs {
                b: bn(b),
                exps: exps.iter().map(|e| bn(*e)).collect(),
                l: bn(l),
                m: bn(m),
                res: Some(forged.clone()),
            }),
            params: params(),
        };
        if matches!(instance.check(), Err(VdfError::ProofUnsatisfied)) {
            failures += 1;
        }
    }
    assert_eq!(failures, 7);
}

#[test]
fn poe_missing_witness() {
    let instance = PoE { inputs: None, params: params() };
    assert!(matches!(instance.check(), Err(VdfError::MissingWitness)));
}

#[test]
fn poe_rejects_degenerate_challenges() {
    for l in [0u32, 1] {
        let instance = poe(2, &[3], l, 255, None);
        assert!(matches!(instance.check(), Err(VdfError::ChallengeTooSmall)));
    }
}

#[test]
fn poe_rejects_modulus_one() {
    let instance = poe(2, &[3], 5, 1, None);
    assert!(matches!(instance.check(), Err(VdfError::InvalidGroupParameters)));
}

#[test]
fn proof_of_exp_with_bound_factors() {
    // Factors reduced against the challenge up front: the lazy fold
    // over the reduced copies must accept exactly the honest result.
    let g = RsaGroup::new(bn(2), bn(143)).unwrap();
    let l = bn(5);
    let factors = vec![
        Reduced::bind_to_challenge(bn(6), &l),
        Reduced::bind_to_challenge(bn(7), &l),
        Reduced::bind_to_challenge(bn(8), &l),
    ];
    // The reductions really happened.
    assert_eq!(factors[0].reduced, bn(1));
    assert_eq!(factors[1].reduced, bn(2));
    assert_eq!(factors[2].reduced, bn(3));
    let honest = honest_result(3, &[6, 7, 8], 143);
    assert!(proof_of_exp(&g, &bn(3), &l, &factors, &honest).is_ok());
    let forged = honest_result(3, &[6, 7, 8, 2], 143);
    assert!(matches!(
        proof_of_exp(&g, &bn(3), &l, &factors, &forged),
        Err(VdfError::ProofUnsatisfied)
    ));
}

#[test]
fn reduced_constructors() {
    let r = Reduced::from_raw(bn(42));
    assert_eq!(r.raw, bn(42));
    assert_eq!(r.reduced, bn(42));
    let r = Reduced::new(bn(42), bn(2));
    assert_eq!(r.raw, bn(42));
    assert_eq!(r.reduced, bn(2));
    let r = Reduced::bind_to_challenge(bn(42), &bn(5));
    assert_eq!(r.raw, bn(42));
    assert_eq!(r.reduced, bn(2));
}
