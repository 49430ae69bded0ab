//! Tests of the minimal field element and the reduction boundary.

use arrabiata::commitment::PlainCommitter;
use arrabiata::field::{BigInt, Fp, F65521, SMALL_MODULUS};
use arrabiata::witness::CurveService;
use num_bigint::BigUint;
use std::marker::PhantomData;

type F = Fp<F65521, 1>;

fn f(v: u32) -> F {
    Fp(BigInt { limbs: vec![v] }, PhantomData)
}

#[test]
fn test_field_identities() {
    assert!(F::zero().is_zero());
    assert!(!F::zero().is_one());
    assert!(F::one().is_one());
    assert!(!F::one().is_zero());
}

#[test]
fn test_field_add_wraps() {
    let a = f(SMALL_MODULUS - 1);
    let b = f(2);
    let c = a.add(&b);
    assert_eq!(c, f(1));
    let mut d = f(40000);
    d.add_assign(&f(30000));
    assert_eq!(d, f(70000 - SMALL_MODULUS));
}

#[test]
fn test_field_mul_and_square() {
    let a = f(300);
    let b = f(400);
    // 120000 mod 65521 = 54479.
    assert_eq!(a.mul(&b), f(54479));
    let mut c = f(256);
    c.square_in_place();
    assert_eq!(c, f(65536 - SMALL_MODULUS));
}

#[test]
fn test_from_bigint_range() {
    let inside = BigInt::<1>::from_limbs(vec![SMALL_MODULUS - 1]);
    let r = F::from_bigint(inside).unwrap();
    assert_eq!(r, f(SMALL_MODULUS - 1));
    let outside = BigInt::<1>::from_limbs(vec![SMALL_MODULUS]);
    assert!(F::from_bigint(outside).is_none());
}

#[test]
fn test_reduce_boundary() {
    let srs: PlainCommitter<F65521, 1> = PlainCommitter::new();
    // A value below the modulus reduces to itself.
    let r = srs.reduce(&BigUint::from(65520u64)).unwrap();
    assert_eq!(r, f(65520));
    // Zero reduces to zero, with no digits at all.
    let r = srs.reduce(&BigUint::from(0u64)).unwrap();
    assert!(r.is_zero());
    // The modulus itself is out of range.
    assert!(srs.reduce(&BigUint::from(65521u64)).is_none());
    // So is a value needing more limbs than the field has.
    let huge = BigUint::from(1u64) << 77;
    assert!(srs.reduce(&huge).is_none());
}

#[test]
fn test_plain_commitment_is_evaluation_vector() {
    let srs: PlainCommitter<F65521, 1> = PlainCommitter::new();
    let evals = vec![f(3), f(1), f(4), f(1), f(5)];
    let comm = srs.commit_evaluations(&evals);
    assert_eq!(comm, evals);
    let blinder = srs.blinder_commitment();
    assert_eq!(blinder.len(), 1);
    assert!(blinder[0].is_one());
}
