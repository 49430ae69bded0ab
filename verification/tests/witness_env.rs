//! Tests of the trace-building environment: row lifecycle, gadget
//! primitives, instruction sequencing, and the per-iteration commitment
//! update.

use arrabiata::columns::{Column, TraceError};
use arrabiata::commitment::PlainCommitter;
use arrabiata::field::F65521;
use arrabiata::interpreter::Instruction;
use arrabiata::witness::{reduce_evaluations, Env, Sponge};
use arrabiata::{NUMBER_OF_COLUMNS, NUMBER_OF_PUBLIC_INPUTS};
use num_bigint::BigUint;

/// A deterministic sponge: squeezes a fixed seed, then successors.
struct CountingSponge {
    next: u64,
}

impl Sponge for CountingSponge {
    fn challenge(&mut self) -> BigUint {
        let v = self.next;
        self.next += 1;
        BigUint::from(v)
    }
}

type TestEnv = Env<CountingSponge, CountingSponge, PlainCommitter<F65521, 1>, PlainCommitter<F65521, 1>>;

fn make_env(srs_log2_size: usize, seed1: u64, seed2: u64) -> TestEnv {
    Env::new(
        srs_log2_size,
        BigUint::from(0u64),
        CountingSponge { next: seed1 },
        CountingSponge { next: seed2 },
        PlainCommitter::new(),
        PlainCommitter::new(),
    )
}

#[test]
fn test_new_env_is_blank() {
    let env = make_env(3, 1, 2);
    assert_eq!(env.domain_size, 8);
    assert_eq!(env.idx_var, 0);
    assert_eq!(env.idx_var_pi, 0);
    assert_eq!(env.current_row, 0);
    assert_eq!(env.current_iteration, 0);
    assert_eq!(env.current_instruction, Instruction::InitialDecomposition);
    assert_eq!(env.witness.len(), NUMBER_OF_COLUMNS);
    for col in &env.witness {
        assert_eq!(col.len(), 8);
        for cell in col {
            assert_eq!(*cell, BigUint::from(0u64));
        }
    }
    assert_eq!(env.previous_commitments_e1.len(), NUMBER_OF_COLUMNS);
    assert_eq!(env.previous_commitments_e2.len(), NUMBER_OF_COLUMNS);
}

#[test]
fn test_row_completeness() {
    let mut env = make_env(3, 1, 2);
    // Write a distinct value in each allocated column, then flush the row.
    let mut expected = Vec::new();
    for k in 0..NUMBER_OF_COLUMNS {
        let col = env.allocate().unwrap();
        let v = BigUint::from((100 + k) as u64);
        expected.push(v.clone());
        env.write_column(col, v).unwrap();
    }
    env.advance_row();
    // The flushed row holds exactly the values written before the call,
    // and the cursors read zero immediately after.
    for k in 0..NUMBER_OF_COLUMNS {
        assert_eq!(env.witness[k][0], expected[k]);
    }
    assert_eq!(env.idx_var, 0);
    assert_eq!(env.idx_var_pi, 0);
    assert_eq!(env.current_row, 1);
    // The row state is zeroed for the next row.
    for cell in &env.state {
        assert_eq!(*cell, BigUint::from(0u64));
    }
}

#[test]
fn test_column_capacity() {
    let mut env = make_env(3, 1, 2);
    // Allocating exactly the column budget succeeds.
    for k in 0..NUMBER_OF_COLUMNS {
        assert_eq!(env.allocate().unwrap(), Column::X(k));
    }
    // One more fails with a capacity error.
    assert_eq!(
        env.allocate().unwrap_err(),
        TraceError::Capacity { limit: NUMBER_OF_COLUMNS }
    );
}

#[test]
fn test_public_input_capacity() {
    let mut env = make_env(3, 1, 2);
    for k in 0..NUMBER_OF_PUBLIC_INPUTS {
        assert_eq!(env.allocate_public_input().unwrap(), Column::PublicInput(k));
    }
    assert_eq!(
        env.allocate_public_input().unwrap_err(),
        TraceError::Capacity { limit: NUMBER_OF_PUBLIC_INPUTS }
    );
}

#[test]
fn test_write_column_type_mismatch() {
    let mut env = make_env(3, 1, 2);
    let err = env
        .write_column(Column::PublicInput(0), BigUint::from(5u64))
        .unwrap_err();
    assert_eq!(err, TraceError::TypeMismatch);
    let err = env
        .write_public_input(Column::X(0), BigUint::from(5u64))
        .unwrap_err();
    assert_eq!(err, TraceError::TypeMismatch);
}

#[test]
fn test_assertion_gadgets() {
    let mut env = make_env(3, 1, 2);
    assert!(env.constrain_boolean(BigUint::from(0u64)).is_ok());
    assert!(env.constrain_boolean(BigUint::from(1u64)).is_ok());
    assert_eq!(
        env.constrain_boolean(BigUint::from(2u64)).unwrap_err(),
        TraceError::Soundness
    );
    assert!(env.assert_zero(BigUint::from(0u64)).is_ok());
    assert_eq!(
        env.assert_zero(BigUint::from(1u64)).unwrap_err(),
        TraceError::Soundness
    );
    assert!(env
        .assert_equal(BigUint::from(7u64), BigUint::from(7u64))
        .is_ok());
    assert_eq!(
        env.assert_equal(BigUint::from(7u64), BigUint::from(8u64))
            .unwrap_err(),
        TraceError::Soundness
    );
}

#[test]
fn test_range_check16() {
    let mut env = make_env(3, 1, 2);
    let col = env.allocate().unwrap();
    env.write_column(col, BigUint::from(65535u64)).unwrap();
    assert!(env.range_check16(col).is_ok());
    env.write_column(col, BigUint::from(65536u64)).unwrap();
    assert_eq!(env.range_check16(col).unwrap_err(), TraceError::Soundness);
    assert_eq!(
        env.range_check16(Column::PublicInput(0)).unwrap_err(),
        TraceError::TypeMismatch
    );
}

#[test]
fn test_square_writes_column() {
    let mut env = make_env(3, 1, 2);
    let col = env.allocate().unwrap();
    let r = env.square(col, BigUint::from(12u64)).unwrap();
    assert_eq!(r, BigUint::from(144u64));
    assert_eq!(env.state[0], BigUint::from(144u64));
}

#[test]
fn test_bitmask_be() {
    let mut env = make_env(3, 1, 2);
    let col = env.allocate().unwrap();
    let x = BigUint::from(0xABCD_1234u64);
    // Bits [8, 24) of 0xABCD1234 are 0xCD12.
    let r = env.bitmask_be(&x, 24, 8, col).unwrap();
    assert_eq!(r, BigUint::from(0xCD12u64));
    assert_eq!(env.state[0], BigUint::from(0xCD12u64));
    // The generic formula: (x >> lowest) & ((1 << (highest - lowest)) - 1).
    let r = env.bitmask_be(&x, 19, 5, col).unwrap();
    let expected = (0xABCD_1234u64 >> 5) & ((1u64 << 14) - 1);
    assert_eq!(r, BigUint::from(expected));
    // A window on a value wider than 64 bits.
    let big = BigUint::from(0x0123_4567_89AB_CDEFu64) << 70;
    let r = env.bitmask_be(&big, 80, 68, col).unwrap();
    // big >> 68 ends in ...CDEF << 2 = ...37BC; keep 12 bits.
    let expected = ((0x0123_4567_89AB_CDEFu128 << 2) & 0xFFF) as u64;
    assert_eq!(r, BigUint::from(expected));
}

#[test]
fn test_fetch_input_is_row_index() {
    let mut env = make_env(3, 1, 2);
    let col = env.allocate().unwrap();
    let r = env.fetch_input(col).unwrap();
    assert_eq!(r, BigUint::from(0u64));
    env.advance_row();
    let col = env.allocate().unwrap();
    let r = env.fetch_input(col).unwrap();
    assert_eq!(r, BigUint::from(1u64));
}

#[test]
fn test_coin_folding_combiner_even_uses_first_sponge() {
    let mut env = make_env(3, 41, 1000);
    let col = env.allocate().unwrap();
    let r = env.coin_folding_combiner(col).unwrap();
    // Even iteration: the first curve's sponge is squeezed.
    assert_eq!(r, BigUint::from(41u64));
    assert_eq!(env.r, BigUint::from(41u64));
    assert_eq!(env.state[0], BigUint::from(41u64));
    assert_eq!(env.sponge_e2.next, 1000);
    // Odd iteration: the second curve's sponge is squeezed.
    env.current_iteration = 1;
    let r = env.coin_folding_combiner(col).unwrap();
    assert_eq!(r, BigUint::from(1000u64));
    assert_eq!(env.sponge_e1.next, 42);
}

#[test]
fn test_combiner_chunks_roundtrip() {
    let mut env = make_env(3, 0x0123_4567_89AB_CDEFu64, 7);
    let col = env.allocate().unwrap();
    let r = env.coin_folding_combiner(col).unwrap();
    // Extract every 16-bit chunk and reassemble them little-to-big.
    let mut reassembled = BigUint::from(0u64);
    for i in 0..16u32 {
        let chunk = env
            .get_sixteen_bits_chunks_folding_combiner(col, i)
            .unwrap();
        reassembled += chunk << (16 * i);
    }
    assert_eq!(reassembled, r);
    assert_eq!(reassembled, BigUint::from(0x0123_4567_89AB_CDEFu64));
}

#[test]
fn test_instruction_cycle() {
    let mut env = make_env(3, 1, 2);
    assert_eq!(env.fetch_instruction(), Instruction::InitialDecomposition);
    // One initial transition plus sixteen chunk transitions close the cycle.
    for _ in 0..17 {
        let next = env.fetch_next_instruction();
        env.current_instruction = next;
    }
    assert_eq!(env.fetch_instruction(), Instruction::InitialDecomposition);
}

#[test]
fn test_instruction_transitions() {
    let mut env = make_env(3, 1, 2);
    let next = env.fetch_next_instruction();
    assert_eq!(next, Instruction::ChunkDecomposition(0));
    env.current_instruction = Instruction::ChunkDecomposition(7);
    assert_eq!(
        env.fetch_next_instruction(),
        Instruction::ChunkDecomposition(8)
    );
    env.current_instruction = Instruction::ChunkDecomposition(15);
    assert_eq!(
        env.fetch_next_instruction(),
        Instruction::InitialDecomposition
    );
    env.current_instruction = Instruction::PermutationRound(4);
    assert_eq!(
        env.fetch_next_instruction(),
        Instruction::PermutationRound(5)
    );
}

#[test]
fn test_curve_alternation() {
    let mut env = make_env(2, 1, 2);
    let before_e1 = env.previous_commitments_e1.clone();
    let before_e2 = env.previous_commitments_e2.clone();
    // Even iteration: only the first curve's previous commitments change.
    env.compute_and_update_previous_commitments().unwrap();
    assert_ne!(env.previous_commitments_e1, before_e1);
    assert_eq!(env.previous_commitments_e2, before_e2);
    // Odd iteration: only the second curve's previous commitments change.
    let after_e1 = env.previous_commitments_e1.clone();
    env.current_iteration = 1;
    env.compute_and_update_previous_commitments().unwrap();
    assert_eq!(env.previous_commitments_e1, after_e1);
    assert_ne!(env.previous_commitments_e2, before_e2);
}

#[test]
fn test_commitment_out_of_range_cell() {
    let mut env = make_env(2, 1, 2);
    // A witness value at least the modulus cannot be reduced.
    env.witness[3][2] = BigUint::from(65521u64);
    assert_eq!(
        env.compute_and_update_previous_commitments().unwrap_err(),
        TraceError::OutOfRange { column: 3, row: 2 }
    );
}

#[test]
fn test_compute_output_placeholder() {
    let mut env = make_env(3, 1, 2);
    env.compute_output();
    assert_eq!(env.zi, BigUint::from(42u64));
}

#[test]
fn test_reset_for_next_iteration() {
    let mut env = make_env(3, 1, 2);
    let col = env.allocate().unwrap();
    env.write_column(col, BigUint::from(9u64)).unwrap();
    env.advance_row();
    let col = env.allocate().unwrap();
    env.write_column(col, BigUint::from(10u64)).unwrap();
    env.reset_for_next_iteration();
    assert_eq!(env.current_row, 0);
    assert_eq!(env.idx_var, 0);
    assert_eq!(env.idx_var_pi, 0);
    for cell in &env.state {
        assert_eq!(*cell, BigUint::from(0u64));
    }
    // The witness table of the finished iteration is untouched by the reset.
    assert_eq!(env.witness[0][0], BigUint::from(9u64));
}

#[test]
fn test_accumulate_commitment_blinder_is_noop() {
    let mut env = make_env(3, 1, 2);
    let before = env.witness.clone();
    env.accumulate_commitment_blinder();
    assert_eq!(env.witness, before);
}

#[test]
fn test_end_to_end_scenario() {
    // Domain size 8, five private columns in use: each row writes its row
    // index squared into column 0.
    let mut env = make_env(3, 1, 2);
    for row in 0..8u64 {
        let col0 = env.allocate().unwrap();
        env.square(col0, BigUint::from(row)).unwrap();
        for _ in 1..5 {
            let col = env.allocate().unwrap();
            env.write_column(col, BigUint::from(0u64)).unwrap();
        }
        env.advance_row();
    }
    let expected: Vec<u64> = vec![0, 1, 4, 9, 16, 25, 36, 49];
    for row in 0..8 {
        assert_eq!(env.witness[0][row], BigUint::from(expected[row]));
    }
    // Committing and re-deriving the evaluation vector through the
    // reduction boundary reproduces the same eight values.
    let evals = reduce_evaluations(&env.srs_e1, &env.witness[0], 0).unwrap();
    assert_eq!(evals.len(), 8);
    for row in 0..8 {
        assert_eq!(evals[row].0.limbs[0] as u64, expected[row]);
    }
    env.compute_and_update_previous_commitments().unwrap();
    // With the plain committer the commitment is the evaluation vector.
    assert_eq!(env.previous_commitments_e1[0], evals);
}
