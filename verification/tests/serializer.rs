//! Tests of the serializer's witness builder: column ownership, lookup
//! bookkeeping, limb extraction, and multiplicity padding.

use arrabiata::columns::TraceError;
use arrabiata::field::{BigInt, Fp, F65521, SMALL_MODULUS};
use arrabiata::serialization::{
    Column, LookupTable, WitnessBuilderEnv, N_LOOKUP_TABLES, SER_N_COLUMNS,
};
use std::marker::PhantomData;

fn f(v: u32) -> Fp<F65521, 1> {
    Fp(BigInt { limbs: vec![v] }, PhantomData)
}

#[test]
fn test_create_is_blank() {
    let env = WitnessBuilderEnv::create();
    assert_eq!(env.witness.cols.len(), SER_N_COLUMNS);
    for cell in &env.witness.cols {
        assert!(cell.is_zero());
    }
    assert_eq!(env.lookup_multiplicities.len(), N_LOOKUP_TABLES);
    assert_eq!(env.lookup_multiplicities[0].len(), 0x8000);
    assert_eq!(env.lookup_multiplicities[1].len(), 0x10);
    for table in &env.lookups {
        assert!(table.is_empty());
    }
}

#[test]
fn test_write_column_owns_only_witness_cells() {
    let mut env = WitnessBuilderEnv::create();
    env.write_column(Column::X(3), f(77)).unwrap();
    assert_eq!(env.witness.cols[3], f(77));
    for position in [
        Column::LookupPartialSum(0),
        Column::LookupMultiplicity(1),
        Column::LookupAggregation,
        Column::LookupFixedTable(0),
    ] {
        assert_eq!(
            env.write_column(position, f(1)).unwrap_err(),
            TraceError::TypeMismatch
        );
    }
}

#[test]
fn test_read_column_returns_written_value() {
    let mut env = WitnessBuilderEnv::create();
    env.write_column(Column::X(9), f(1234)).unwrap();
    assert_eq!(env.read_column(Column::X(9)), f(1234));
}

#[test]
fn test_copy() {
    let mut env = WitnessBuilderEnv::create();
    let x = f(555);
    let r = env.copy(&x, Column::X(1)).unwrap();
    assert_eq!(r, f(555));
    assert_eq!(env.witness.cols[1], f(555));
}

#[test]
fn test_add_constraint_checks_zero() {
    let mut env = WitnessBuilderEnv::create();
    assert!(env.add_constraint(f(0)).is_ok());
    assert_eq!(env.add_constraint(f(3)).unwrap_err(), TraceError::Soundness);
}

#[test]
fn test_lookup_bumps_multiplicity() {
    let mut env = WitnessBuilderEnv::create();
    env.lookup(LookupTable::RangeCheck4, &f(11)).unwrap();
    env.lookup(LookupTable::RangeCheck4, &f(11)).unwrap();
    env.lookup(LookupTable::RangeCheck15, &f(11)).unwrap();
    assert_eq!(env.lookup_multiplicities[1][11], f(2));
    assert_eq!(env.lookup_multiplicities[0][11], f(1));
    assert_eq!(env.lookups[1].len(), 2);
    assert_eq!(env.lookups[0].len(), 1);
    assert_eq!(env.lookups[1][0].numerator, f(1));
    assert_eq!(env.lookups[1][0].value, vec![f(11)]);
    // A value outside the table is a soundness failure.
    assert_eq!(
        env.lookup(LookupTable::RangeCheck4, &f(16)).unwrap_err(),
        TraceError::Soundness
    );
}

#[test]
fn test_reset_clears_lookups_keeps_multiplicities() {
    let mut env = WitnessBuilderEnv::create();
    env.lookup(LookupTable::RangeCheck4, &f(5)).unwrap();
    env.reset();
    assert!(env.lookups[0].is_empty());
    assert!(env.lookups[1].is_empty());
    assert_eq!(env.lookup_multiplicities[1][5], f(1));
}

#[test]
fn test_serializer_bitmask_be() {
    let mut env = WitnessBuilderEnv::create();
    let x = f(0xABCD);
    // Bits [4, 12) of 0xABCD are 0xBC.
    let r = env.bitmask_be(&x, 12, 4, Column::X(0)).unwrap();
    assert_eq!(r, f(0xBC));
    assert_eq!(env.witness.cols[0], f(0xBC));
    assert_eq!(
        env.bitmask_be(&x, 12, 4, Column::LookupAggregation).unwrap_err(),
        TraceError::TypeMismatch
    );
}

#[test]
fn test_get_lookup_multiplicities_padding() {
    let mut env = WitnessBuilderEnv::create();
    env.lookup(LookupTable::RangeCheck4, &f(7)).unwrap();
    let domain_size = 32usize;
    let m = env.get_lookup_multiplicities(domain_size, LookupTable::RangeCheck4);
    assert_eq!(m.len(), domain_size);
    // The accumulated counters come first.
    assert_eq!(m[7], f(1));
    assert_eq!(m[0], f(0));
    // Then the dummy value -1, repeated...
    let n_repeated = domain_size - 0x10 - 1;
    for i in 0x10..(domain_size - 1) {
        assert_eq!(m[i], f(SMALL_MODULUS - 1));
    }
    // ...and finally how many times it was repeated.
    assert_eq!(m[domain_size - 1], f(n_repeated as u32));
}

#[test]
fn test_get_lookup_multiplicities_exact_fit() {
    let env = WitnessBuilderEnv::create();
    let m = env.get_lookup_multiplicities(0x10, LookupTable::RangeCheck4);
    assert_eq!(m.len(), 0x10);
    for cell in &m {
        assert!(cell.is_zero());
    }
}
