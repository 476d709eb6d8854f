use zk_gadgets::constants::{
    generate_circuit_generator, value_commitment_randomness_generator,
    value_commitment_value_generator, GeneratorTables, FIXED_BASE_CHUNKS_PER_GENERATOR,
};
use zk_gadgets::cs::{Assignment, ConstraintSystem, SynthesisError};
use zk_gadgets::curve::Point;
use zk_gadgets::encryption::Encryption;
use zk_gadgets::field::{EmbeddedScalar, Scalar};
use zk_gadgets::mimc7::{mimc7, mimc7_round, MIMC7_ROUNDS};
use zk_gadgets::mimc7_circuit::{mimc7_cs, MIMC7_VARS};
use zk_gadgets::pedersen::PedersenCommit;


fn fq(s: &Scalar) -> bls12_381::Scalar {
    bls12_381::Scalar::from_bytes(&s.bytes).unwrap()
}

fn lib(s: bls12_381::Scalar) -> Scalar {
    Scalar { bytes: s.to_bytes() }
}

fn sc(n: u64) -> Scalar {
    lib(bls12_381::Scalar::from(n))
}

fn es(n: u64) -> EmbeddedScalar {
    EmbeddedScalar { bytes: jubjub::Fr::from(n).to_bytes() }
}

fn point(p: jubjub::SubgroupPoint) -> Point {
    let (u, v) = affine(p);
    Point { u, v }
}

fn sub_point(p: &Point) -> jubjub::SubgroupPoint {
    jubjub::SubgroupPoint::from_raw_unchecked(fq(&p.u), fq(&p.v))
}

fn affine(p: jubjub::SubgroupPoint) -> (Scalar, Scalar) {
    let a = jubjub::AffinePoint::from(jubjub::ExtendedPoint::from(p));
    (lib(a.get_u()), lib(a.get_v()))
}

fn counting_constants() -> Vec<Scalar> {
    (0..MIMC7_ROUNDS as u64).map(|i| sc(i * 7 + 3)).collect()
}

fn reference_mimc7(xl: bls12_381::Scalar, xr: bls12_381::Scalar, cs: &[Scalar]) -> bls12_381::Scalar {
    let mut state = xl;
    for i in 0..MIMC7_ROUNDS {
        let c = if i == 0 { bls12_381::Scalar::zero() } else { fq(&cs[i]) };
        let x = state + xr + c;
        state = x * x * x * x * x * x * x;
    }
    state + xl + xr + xr
}

fn eval(lc: &zk_gadgets::cs::LinearCombination, cs: &ConstraintSystem) -> bls12_381::Scalar {
    let mut acc = bls12_381::Scalar::zero();
    for (v, c) in &lc.terms {
        acc += fq(c) * fq(cs.values[v.index].as_ref().unwrap());
    }
    acc
}

#[test]
fn assignment_get_resolves_or_reports_missing() {
    let some: Option<u32> = Some(5);
    let none: Option<u32> = None;
    assert_eq!(some.get(), Ok(&5));
    assert_eq!(none.get(), Err(SynthesisError::AssignmentMissing));
}

#[test]
fn mimc7_round_is_seventh_power() {
    let r = mimc7_round(sc(2), sc(3), &sc(4));
    assert_eq!(r, sc(4782969));
}

#[test]
fn mimc7_matches_reference() {
    let cs = counting_constants();
    let xl = sc(11);
    let xr = sc(29);
    assert_eq!(fq(&mimc7(xl, xr, &cs)), reference_mimc7(fq(&xl), fq(&xr), &cs));
}

#[test]
fn mimc7_degenerate_constants() {
    let zeros = vec![sc(0); MIMC7_ROUNDS];
    let r = mimc7(sc(1), sc(0), &zeros);
    assert_eq!(r, sc(2));
    let mut cs = ConstraintSystem::new();
    let out = mimc7_cs(&mut cs, Some(sc(1)), Some(sc(0)), &zeros);
    assert_eq!(out, Some(sc(2)));
    for i in 0..MIMC7_ROUNDS {
        assert_eq!(cs.values[1 + 3 + 5 * i + 4], Some(sc(1)));
    }
}

#[test]
fn mimc7_circuit_matches_native() {
    let consts = counting_constants();
    for (l, r) in [(0u64, 0u64), (1, 2), (987654321, 123456789)] {
        let xl = sc(l);
        let xr = sc(r);
        let mut cs = ConstraintSystem::new();
        let out = mimc7_cs(&mut cs, Some(xl), Some(xr), &consts);
        assert_eq!(out, Some(mimc7(xl, xr, &consts)));
        assert_eq!(cs.values.last().unwrap(), &out);
    }
}

#[test]
fn mimc7_circuit_constraints_hold() {
    let consts = counting_constants();
    let mut cs = ConstraintSystem::new();
    mimc7_cs(&mut cs, Some(sc(17)), Some(sc(4)), &consts);
    assert_eq!(cs.values.len(), 1 + MIMC7_VARS);
    assert_eq!(cs.constraints.len(), 5 * MIMC7_ROUNDS + 2);
    for c in &cs.constraints {
        assert_eq!(eval(&c.a, &cs) * eval(&c.b, &cs), eval(&c.c, &cs));
    }
    for i in 0..MIMC7_ROUNDS {
        let base = 1 + 3 + 5 * i;
        let x1 = fq(cs.values[base].as_ref().unwrap());
        let x7 = fq(cs.values[base + 4].as_ref().unwrap());
        assert_eq!(x7, x1.pow_vartime(&[7, 0, 0, 0]));
    }
}

#[test]
fn mimc7_circuit_shape_without_witness() {
    let consts = counting_constants();
    let mut setup = ConstraintSystem::new();
    let mut prove = ConstraintSystem::new();
    let none = mimc7_cs(&mut setup, None, None, &consts);
    let some = mimc7_cs(&mut prove, Some(sc(5)), Some(sc(6)), &consts);
    assert_eq!(none, None);
    assert!(some.is_some());
    assert_eq!(setup.values.len(), prove.values.len());
    assert_eq!(setup.constraints.len(), prove.constraints.len());
    for (x, y) in setup.constraints.iter().zip(prove.constraints.iter()) {
        assert_eq!(x.a.terms, y.a.terms);
        assert_eq!(x.b.terms, y.b.terms);
        assert_eq!(x.c.terms, y.c.terms);
    }
    assert!(setup.values[1..].iter().all(|v| v.is_none()));
    assert!(prove.values.iter().all(|v| v.is_some()));
}

#[test]
fn generator_table_shape_and_entries() {
    let g = value_commitment_value_generator();
    let table = generate_circuit_generator(g);
    assert_eq!(table.len(), FIXED_BASE_CHUNKS_PER_GENERATOR);
    let gp = sub_point(&g);
    let mut window_scale = jubjub::Fr::one();
    for (i, window) in table.iter().enumerate() {
        assert_eq!(window.len(), 8);
        assert_eq!(window[0], (sc(0), sc(1)));
        if i % 20 == 0 {
            for (k, entry) in window.iter().enumerate() {
                let expected = gp * (window_scale * jubjub::Fr::from(k as u64));
                assert_eq!(*entry, affine(expected));
            }
        }
        window_scale *= jubjub::Fr::from(8u64);
    }
}

#[test]
fn generator_table_digit_sum_is_scalar_multiple() {
    let g = value_commitment_randomness_generator();
    let tables = GeneratorTables::new();
    let table = &tables.randomness;
    let digits: Vec<u64> = (0..84u64).map(|i| (i * 5 + 3) % 8).collect();
    let mut sum = jubjub::ExtendedPoint::identity();
    let mut scalar = jubjub::Fr::zero();
    let mut scale = jubjub::Fr::one();
    for (i, d) in digits.iter().enumerate() {
        let (u, v) = table[i][*d as usize];
        sum += jubjub::ExtendedPoint::from(jubjub::AffinePoint::from_raw_unchecked(fq(&u), fq(&v)));
        scalar += scale * jubjub::Fr::from(*d);
        scale *= jubjub::Fr::from(8u64);
    }
    let expected = jubjub::ExtendedPoint::from(sub_point(&g) * scalar);
    assert_eq!(jubjub::AffinePoint::from(sum), jubjub::AffinePoint::from(expected));
}

#[test]
fn identity_point_is_zero_one() {
    let id = Point::identity();
    let g = sub_point(&value_commitment_value_generator());
    assert_eq!((id.u, id.v), affine(g - g));
    assert_eq!(id, Point { u: sc(0), v: sc(1) });
}

#[test]
fn pedersen_commit_seven_thirteen() {
    let opening = PedersenCommit {
        msg: es(7),
        rand: es(13),
    };
    let c = opening.commit();
    let gv = sub_point(&value_commitment_value_generator());
    let gr = sub_point(&value_commitment_randomness_generator());
    let expected = gv * jubjub::Fr::from(7u64) + gr * jubjub::Fr::from(13u64);
    assert_eq!((c.u, c.v), affine(expected));
    let other = PedersenCommit {
        msg: es(8),
        rand: es(13),
    };
    assert_ne!(other.commit(), c);
}

#[test]
fn encryption_round_trip_for_both_parties() {
    let g = value_commitment_value_generator();
    let user_secret = es(424242);
    let auditor_secret = es(777);
    let rand_k = es(31337);
    let msg = vec![sc(10), sc(0), sc(99999)];
    let enc = Encryption {
        msg: msg.clone(),
        user_key: point(sub_point(&g) * jubjub::Fr::from(424242u64)),
        auditor_key: point(sub_point(&g) * jubjub::Fr::from(777u64)),
        rand_r: es(5150),
        rand_k,
    };
    let consts = counting_constants();
    let pct = enc.encrypt(&consts);
    assert_eq!(pct.keys.len(), 3);
    assert_eq!(pct.ct.len(), msg.len());
    assert_ne!(pct.ct, msg);
    let k = point(sub_point(&g) * jubjub::Fr::from(31337u64));
    let k_user = pct.recover_anchor(1, &user_secret);
    let k_auditor = pct.recover_anchor(2, &auditor_secret);
    assert_eq!(k_user, k);
    assert_eq!(k_auditor, k);
    assert_eq!(pct.decrypt(&k_user, &consts), msg);
    assert_eq!(pct.decrypt(&k_auditor, &consts), msg);
    for (idx, e) in msg.iter().enumerate() {
        let input = fq(&k.u) + bls12_381::Scalar::from(idx as u64);
        let mask = reference_mimc7(input, input, &consts);
        assert_eq!(fq(&pct.ct[idx]), fq(e) + mask);
    }
}

#[test]
fn encryption_of_empty_message() {
    let g = value_commitment_value_generator();
    let enc = Encryption {
        msg: Vec::new(),
        user_key: g,
        auditor_key: g,
        rand_r: es(1),
        rand_k: es(2),
    };
    let pct = enc.encrypt(&counting_constants());
    assert!(pct.ct.is_empty());
    assert_eq!(pct.keys[0], g);
}
