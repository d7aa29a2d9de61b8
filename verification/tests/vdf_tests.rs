use std::time::Instant;

use vdf_snark::arith::BigNat;
use vdf_snark::errors::VdfError;
use vdf_snark::group::RsaGroup;
use vdf_snark::zkp::base_to_product;
use vdf_snark::{TrapdoorVDF, VdfConfig};

// From https://en.wikipedia.org/wiki/RSA_numbers#RSA-2048
const RSA_2048: &str = "25195908475657893494027183240048398571429282126204032027777137836043662020707595556264018525880784406918290641249515082189298559149176184502808489120072844992687392807287776735971418347270261896375014971824691165077613379859095700097330459748808428401797429100642458691817195118746121515172654632282216869987549182422433637259085141865462043576798423387184774447920739934236584823824281198163815010674810451660377306056201619676256133844143603833904414952634432190114657544454178424020924616515723350778707749817125772467962926386356373289912154831438167899885040445364023527381951378636564391212010397122822120720357";

fn nat_dec(s: &str) -> BigNat {
    let n = num_bigint::BigUint::parse_bytes(s.as_bytes(), 10).unwrap();
    BigNat { limbs: n.to_u32_digits() }
}

fn dec_of(n: &BigNat) -> String {
    num_bigint::BigUint::from_slice(&n.limbs).to_string()
}

fn config() -> VdfConfig {
    VdfConfig { time_base: 2, max_time_parameter: 30 }
}

#[test]
fn lib_test_rsa_exponent() {
    let b = BigNat { limbs: vec![2] };
    let l = BigNat { limbs: vec![1] };
    let xs = vec![
        nat_dec("31937553987974094718323624043504205546834586774376973142156746177420677478688763299109194760111447891192360362820159149396249147942612451155969619775305163496407638473777556838684741069061351141275104169798848446335239243312484965159829326775977793454245590125242263267420883094097592918381012308862157981711929572365175824672174089740874967056535954189180093379786870545069569186432812295310881940305587888652601685710785451536880821959636231557861961996647312938583891145806865161362164404798306963474067144506909829836959487322752735917184127271661403524679313392947295519723541385106382901941073514681220701690463"),
        BigNat { limbs: vec![2048] },
    ];
    println!("xs'0 size: {}", xs[0].limbs.len());

    let g = RsaGroup::new(BigNat { limbs: vec![2] }, nat_dec(RSA_2048)).unwrap();
    let start = Instant::now();
    let res = base_to_product(&g, &b, &l, &xs);
    let duration = start.elapsed();
    println!("{:?} .. {}", duration, dec_of(&res));
}

#[test]
fn test_simple_trapdoor() {
    let p = nat_dec("11");
    let q = nat_dec("13");
    let n = num_bigint::BigUint::from_slice(&p.limbs) * num_bigint::BigUint::from_slice(&q.limbs);
    let totient = (num_bigint::BigUint::from_slice(&p.limbs) - 1u32)
        * (num_bigint::BigUint::from_slice(&q.limbs) - 1u32);

    println!("p : {}", dec_of(&p));
    println!("N : {}", n);

    let g = RsaGroup::new(BigNat { limbs: vec![2] }, BigNat { limbs: n.to_u32_digits() }).unwrap();
    let b = BigNat { limbs: vec![2] };
    let l = BigNat { limbs: vec![1] };
    let xs = vec![nat_dec("10297")];
    let res = base_to_product(&g, &b, &l, &xs);
    println!("xs : {:?}", &xs);
    println!("res : {}", dec_of(&res));

    println!("totient : {}", totient);

    let mut mod_xs = num_bigint::BigUint::from_slice(&[1]);
    for x in &xs {
        mod_xs *= num_bigint::BigUint::from_slice(&x.limbs);
        mod_xs %= &totient;
    }
    println!("mod_xs : {}", mod_xs);

    let xs_totient = vec![BigNat { limbs: mod_xs.to_u32_digits() }];
    let res_mod = base_to_product(&g, &b, &l, &xs_totient);
    println!("res_mod : {}", dec_of(&res_mod));
}

#[test]
fn trapdoor_test_test_rsa_exponent() {
    let vdf =
        TrapdoorVDF::setup(BigNat { limbs: vec![2] }, nat_dec(RSA_2048), config()).unwrap();
    let res = vdf.eval(&BigNat { limbs: vec![2] }, 12);
    println!("{}", dec_of(&res));
}

#[test]
fn power_of_sum_law_concrete() {
    // power(g, a) * power(g, b) mod N == power(g, a + b) mod N on
    // concrete values: 2^3 * 2^4 mod 35 == 2^7 mod 35 == 23.
    let g = RsaGroup::new(BigNat { limbs: vec![2] }, BigNat { limbs: vec![35] }).unwrap();
    let base = BigNat { limbs: vec![2] };
    let pa = g.power(&base, &BigNat { limbs: vec![3] });
    let pb = g.power(&base, &BigNat { limbs: vec![4] });
    let combined = g.operate(&pa, &pb);
    let direct = g.power(&base, &BigNat { limbs: vec![7] });
    assert_eq!(combined, direct);
    assert_eq!(combined, BigNat { limbs: vec![23] });
}

#[test]
fn fast_slow_equivalence_small() {
    // A trapdoored state over N = 143 = 11 * 13, phi = 120: the fast
    // path must agree with honest sequential evaluation for a coprime
    // base.
    let group = RsaGroup::new(BigNat { limbs: vec![2] }, BigNat { limbs: vec![143] }).unwrap();
    let vdf = TrapdoorVDF { group, trapdoor: BigNat { limbs: vec![120] }, config: config() };
    let base = BigNat { limbs: vec![2] };
    for t in 0..6u64 {
        let fast = vdf.eval_with_trapdoor(&base, t).unwrap();
        let slow = vdf.eval(&base, t);
        assert_eq!(fast, slow);
    }
}

#[test]
fn fast_slow_equivalence_random_modulus() {
    // Same law on a freshly generated trapdoored state.
    let vdf = TrapdoorVDF::setup_with_random(BigNat { limbs: vec![1337] }, 1024, config())
        .unwrap();
    let base = BigNat { limbs: vec![2] };
    let fast = vdf.eval_with_trapdoor(&base, 10).unwrap();
    let slow = vdf.eval(&base, 10);
    assert_eq!(fast, slow);
}

#[test]
fn trapdoor_eval_rejects_non_coprime_base() {
    let group = RsaGroup::new(BigNat { limbs: vec![2] }, BigNat { limbs: vec![143] }).unwrap();
    let vdf = TrapdoorVDF { group, trapdoor: BigNat { limbs: vec![120] }, config: config() };
    let base = BigNat { limbs: vec![11] };
    let r = vdf.eval_with_trapdoor(&base, 4);
    assert!(matches!(r, Err(VdfError::NonCoprimeBase)));
}

#[test]
fn eval_clamps_time_parameter() {
    let group = RsaGroup::new(BigNat { limbs: vec![2] }, BigNat { limbs: vec![143] }).unwrap();
    let vdf = TrapdoorVDF {
        group,
        trapdoor: BigNat { limbs: vec![1] },
        config: VdfConfig { time_base: 2, max_time_parameter: 4 },
    };
    let base = BigNat { limbs: vec![3] };
    let at_cap = vdf.eval(&base, 4);
    let above_cap = vdf.eval(&base, 40);
    assert_eq!(at_cap, above_cap);
}

#[test]
fn setup_rejects_bad_group_parameters() {
    // A modulus of 1 is rejected.
    let r = TrapdoorVDF::setup(BigNat { limbs: vec![2] }, BigNat { limbs: vec![1] }, config());
    assert!(matches!(r, Err(VdfError::InvalidGroupParameters)));
    // An even modulus is rejected.
    let r = TrapdoorVDF::setup(BigNat { limbs: vec![2] }, BigNat { limbs: vec![10] }, config());
    assert!(matches!(r, Err(VdfError::InvalidGroupParameters)));
    // A zero generator is rejected.
    let r = TrapdoorVDF::setup(BigNat { limbs: vec![] }, BigNat { limbs: vec![143] }, config());
    assert!(matches!(r, Err(VdfError::InvalidGroupParameters)));
}

#[test]
fn eval_statement_packages_result() {
    let group = RsaGroup::new(BigNat { limbs: vec![2] }, BigNat { limbs: vec![143] }).unwrap();
    let vdf = TrapdoorVDF { group, trapdoor: BigNat { limbs: vec![1] }, config: config() };
    let base = BigNat { limbs: vec![3] };
    let st = vdf.eval_statement(&base, 2);
    assert_eq!(st.base, base);
    assert_eq!(st.time_parameter, 2);
    assert_eq!(st.modulus, BigNat { limbs: vec![143] });
    // The claim: 3^(2^(2^2)) mod 143 = 3^16 mod 143.
    let expect = num_bigint::BigUint::from_slice(&[3])
        .modpow(&num_bigint::BigUint::from_slice(&[16]), &num_bigint::BigUint::from_slice(&[143]));
    assert_eq!(st.result, BigNat { limbs: expect.to_u32_digits() });
}

#[test]
fn setup_with_random_rejects_small_sizes() {
    let r = TrapdoorVDF::setup_with_random(BigNat { limbs: vec![2] }, 512, config());
    assert!(matches!(r, Err(VdfError::PrimeGenerationError)));
}

#[test]
fn trapdoor_setup_and_eval_full_size() {
    let setup_time = Instant::now();
    let vdf = TrapdoorVDF::setup_with_random(nat_dec("1337"), 2048, config()).unwrap();
    let setup_duration = setup_time.elapsed();

    let setup_trap = Instant::now();
    let res_eval_trapdoor = vdf.eval_with_trapdoor(&BigNat { limbs: vec![2] }, 20).unwrap();
    let trap_duration = setup_trap.elapsed();
    println!("eval_trap : {}", dec_of(&res_eval_trapdoor));
    println!("[Duration] setup:[{:?}], trap:[{:?}]", setup_duration, trap_duration);
}

#[test]
fn slow_eval_full_size() {
    let vdf = TrapdoorVDF::setup(BigNat { limbs: vec![2] }, nat_dec(RSA_2048), config()).unwrap();
    let t = Instant::now();
    let res = vdf.eval(&BigNat { limbs: vec![2] }, 17);
    println!("slow eval t=17: {:?} ({} limbs)", t.elapsed(), res.limbs.len());
}
