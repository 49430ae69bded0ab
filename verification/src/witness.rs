//! An environment shared between the folding instances: the column/row
//! witness store, the gadget primitives that populate it, and the
//! per-iteration commitment update that alternates between the two curves
//! of the cycle.
//!
//! The environment works over big unsigned integers to avoid performing a
//! reduction at every step; values are reduced into the active curve's
//! scalar field only at the commitment boundary.

use vstd::prelude::*;
use vstd::arithmetic::power2::pow2;

use num_bigint::BigUint;

use crate::columns::{Column, TraceError};
use crate::interpreter::{spec_transition, transition, Instruction};
use crate::value::{
    big_clone, big_eq, big_from_u64, big_lt, big_mul, big_rem, big_shr, big_value,
};
use crate::{NUMBER_OF_COLUMNS, NUMBER_OF_PUBLIC_INPUTS};

verus! {

/// The Fiat-Shamir sponge capability, one instance per curve.  Nothing is
/// promised of a squeezed challenge: the trace builder states what holds of
/// its own state whatever value comes back.
pub trait Sponge {
    /// Squeeze a verifier challenge out of the sponge.
    fn challenge(&mut self) -> BigUint;
}

/// The per-curve commitment collaborator: the scalar field's reduction
/// boundary together with the commitment over the fixed evaluation domain.
pub trait CurveService {
    /// An element of this curve's scalar field.
    type FieldEl;

    /// A polynomial commitment.
    type Comm;

    /// A point of the curve, as held by the accumulator.
    type Point;

    /// The modulus of the scalar field.
    spec fn modulus(&self) -> nat;

    /// The value a field element denotes.
    spec fn field_value(&self, f: Self::FieldEl) -> nat;

    /// The reduction boundary: projects an unreduced value into the scalar
    /// field, or reports that it is out of range.
    fn reduce(&self, v: &BigUint) -> (r: Option<Self::FieldEl>)
        ensures
            match r {
                Some(f) => big_value(*v) < self.modulus() && self.field_value(f) == big_value(
                    *v,
                ),
                None => big_value(*v) >= self.modulus(),
            };

    /// Commit to a vector of evaluations over the fixed domain.  What the
    /// commitment looks like is the collaborator's own business; the trace
    /// builder only guarantees what it feeds in.
    fn commit_evaluations(&self, evals: &Vec<Self::FieldEl>) -> Self::Comm;

    /// The blinder commitment seeding the previous-commitments vectors, so
    /// that no instance commits to the zero polynomial.
    fn blinder_commitment(&self) -> Self::Comm;

    /// The neutral point seeding the accumulator.
    fn zero_point(&self) -> Self::Point;
}

/// The values denoted by a sequence of big-integer cells.
pub open spec fn values_of(s: Seq<BigUint>) -> Seq<nat> {
    Seq::new(s.len(), |i: int| big_value(s[i]))
}

/// An environment that can be shared between the instances of the
/// incremental computation.  It holds the accumulators of both curves, the
/// in-progress row, the witness table of the current iteration, and the
/// sponges that simulate the verifier's messages.
pub struct Env<S1, S2, K1, K2> where S1: Sponge, S2: Sponge, K1: CurveService, K2: CurveService {
    /// Number of rows of the evaluation domain, shared by both curves.
    pub domain_size: usize,
    /// The commitment service of the first curve.
    pub srs_e1: K1,
    /// The commitment service of the second curve.
    pub srs_e2: K2,
    /// The running accumulator point of the first curve.
    pub ivc_accumulator_e1: K1::Point,
    /// The running accumulator point of the second curve.
    pub ivc_accumulator_e2: K2::Point,
    /// Commitments to the previous instance witnessed on the first curve.
    pub previous_commitments_e1: Vec<K1::Comm>,
    /// Commitments to the previous instance witnessed on the second curve.
    pub previous_commitments_e2: Vec<K2::Comm>,
    /// The index of the latest allocated private column in the current row.
    pub idx_var: usize,
    /// The index of the latest allocated public input in the current row.
    pub idx_var_pi: usize,
    /// Current processing row, used to build the witness.
    pub current_row: usize,
    /// State of the current row in the execution trace.
    pub state: Vec<BigUint>,
    /// The public inputs of the current row.
    pub public_state: Vec<BigUint>,
    /// The instruction the interpreter is currently building a gadget for.
    pub current_instruction: Instruction,
    /// The sponge of the first curve.
    pub sponge_e1: S1,
    /// The sponge of the second curve.
    pub sponge_e2: S2,
    /// The folding-iteration counter.
    pub current_iteration: u64,
    /// The previous iteration's hash, encoded in two chunks of 128 bits.
    pub previous_hash: [u128; 2],
    /// The last-derived folding combiner.
    pub r: BigUint,
    /// The witness of the current instance, one sequence of rows per column.
    /// The column-major layout lets each column be committed without
    /// reshuffling.
    pub witness: Vec<Vec<BigUint>>,
    /// Initial input of the computation.
    pub z0: BigUint,
    /// Current input of the computation.
    pub zi: BigUint,
}

impl<S1: Sponge, S2: Sponge, K1: CurveService, K2: CurveService> Env<S1, S2, K1, K2> {
    /// Shape invariant of the environment: the row state spans the column
    /// budgets, the witness table spans the evaluation domain, and the
    /// cursors stay within bounds.
    pub open spec fn wf(&self) -> bool {
        &&& self.state.len() == NUMBER_OF_COLUMNS
        &&& self.public_state.len() == NUMBER_OF_PUBLIC_INPUTS
        &&& self.witness.len() == NUMBER_OF_COLUMNS
        &&& forall|c: int|
            0 <= c < NUMBER_OF_COLUMNS ==> (#[trigger] self.witness@[c]).len()
                == self.domain_size
        &&& self.idx_var <= NUMBER_OF_COLUMNS
        &&& self.idx_var_pi <= NUMBER_OF_PUBLIC_INPUTS
        &&& self.current_row <= self.domain_size
        &&& self.current_instruction.wf()
    }

    /// The values of the in-progress row's private cells.
    pub open spec fn state_values(&self) -> Seq<nat> {
        values_of(self.state@)
    }

    /// The values of the in-progress row's public cells.
    pub open spec fn public_state_values(&self) -> Seq<nat> {
        values_of(self.public_state@)
    }

    /// The values of the witness table, per column and row.
    pub open spec fn witness_values(&self) -> Seq<Seq<nat>> {
        Seq::new(self.witness@.len(), |c: int| values_of(self.witness@[c]@))
    }

    /// Returns the next private-witness column of the current row, or a
    /// capacity error when the fixed column budget is exhausted.
    pub fn allocate(&mut self) -> (r: Result<Column, TraceError>)
        requires
            old(self).wf(),
        ensures
            final(self).wf(),
            old(self).idx_var < NUMBER_OF_COLUMNS ==> r == Ok::<Column, TraceError>(
                Column::X(old(self).idx_var),
            ) && *final(self) == (Env { idx_var: (old(self).idx_var + 1) as usize, ..*old(self) }),
            old(self).idx_var >= NUMBER_OF_COLUMNS ==> r == Err::<Column, TraceError>(
                TraceError::Capacity { limit: NUMBER_OF_COLUMNS },
            ) && *final(self) == *old(self),
    {
        if self.idx_var < NUMBER_OF_COLUMNS {
            let pos = Column::X(self.idx_var);
            self.idx_var = self.idx_var + 1;
            Ok(pos)
        } else {
            Err(TraceError::Capacity { limit: NUMBER_OF_COLUMNS })
        }
    }

    /// Returns the next public-input column of the current row, or a
    /// capacity error when the fixed public-input budget is exhausted.
    pub fn allocate_public_input(&mut self) -> (r: Result<Column, TraceError>)
        requires
            old(self).wf(),
        ensures
            final(self).wf(),
            old(self).idx_var_pi < NUMBER_OF_PUBLIC_INPUTS ==> r == Ok::<Column, TraceError>(
                Column::PublicInput(old(self).idx_var_pi),
            ) && *final(self) == (Env {
                idx_var_pi: (old(self).idx_var_pi + 1) as usize,
                ..*old(self)
            }),
            old(self).idx_var_pi >= NUMBER_OF_PUBLIC_INPUTS ==> r == Err::<Column, TraceError>(
                TraceError::Capacity { limit: NUMBER_OF_PUBLIC_INPUTS },
            ) && *final(self) == *old(self),
    {
        if self.idx_var_pi < NUMBER_OF_PUBLIC_INPUTS {
            let pos = Column::PublicInput(self.idx_var_pi);
            self.idx_var_pi = self.idx_var_pi + 1;
            Ok(pos)
        } else {
            Err(TraceError::Capacity { limit: NUMBER_OF_PUBLIC_INPUTS })
        }
    }

    /// Stores `v` in the private row-state cell addressed by `col` and hands
    /// the value back for chaining.  Only private witness columns are owned
    /// by this write path; any other column kind is a type mismatch.
    pub fn write_column(&mut self, col: Column, v: BigUint) -> (r: Result<BigUint, TraceError>)
        requires
            old(self).wf(),
            col matches Column::X(i) ==> i < NUMBER_OF_COLUMNS,
        ensures
            final(self).wf(),
            r.is_ok() <==> col.is_private(),
            col.is_private() ==> {
                &&& *final(self) == (Env { state: final(self).state, ..*old(self) })
                &&& final(self).state_values() == old(self).state_values().update(
                    col.index() as int,
                    big_value(v),
                )
                &&& (r matches Ok(w) ==> big_value(w) == big_value(v))
            },
            !col.is_private() ==> *final(self) == *old(self) && r == Err::<BigUint, TraceError>(
                TraceError::TypeMismatch,
            ),
    {
        match col {
            Column::X(idx) => {
                let returned = big_clone(&v);
                self.state[idx] = v;
                proof {
                    assert(self.state_values() =~= old(self).state_values().update(
                        idx as int,
                        big_value(v),
                    ));
                }
                Ok(returned)
            },
            _ => Err(TraceError::TypeMismatch),
        }
    }

    /// Stores `v` in the public-input cell addressed by `col`; rejects any
    /// column kind other than a public input.
    pub fn write_public_input(&mut self, col: Column, v: BigUint) -> (r: Result<
        BigUint,
        TraceError,
    >)
        requires
            old(self).wf(),
            col matches Column::PublicInput(i) ==> i < NUMBER_OF_PUBLIC_INPUTS,
        ensures
            final(self).wf(),
            r.is_ok() <==> col.is_public(),
            col.is_public() ==> {
                &&& *final(self) == (Env { public_state: final(self).public_state, ..*old(self) })
                &&& final(self).public_state_values() == old(self).public_state_values().update(
                    col.index() as int,
                    big_value(v),
                )
                &&& (r matches Ok(w) ==> big_value(w) == big_value(v))
            },
            !col.is_public() ==> *final(self) == *old(self) && r == Err::<BigUint, TraceError>(
                TraceError::TypeMismatch,
            ),
    {
        match col {
            Column::PublicInput(idx) => {
                let returned = big_clone(&v);
                self.public_state[idx] = v;
                proof {
                    assert(self.public_state_values() =~= old(self).public_state_values().update(
                        idx as int,
                        big_value(v),
                    ));
                }
                Ok(returned)
            },
            _ => Err(TraceError::TypeMismatch),
        }
    }

    /// Lifts a literal value into the variable domain, with no side effect.
    pub fn constant(&self, v: BigUint) -> (r: BigUint)
        ensures
            big_value(r) == big_value(v),
    {
        v
    }

    /// Local soundness check: the value must be boolean.
    pub fn constrain_boolean(&mut self, x: BigUint) -> (r: Result<(), TraceError>)
        requires
            old(self).wf(),
        ensures
            final(self).wf(),
            *final(self) == *old(self),
            r.is_ok() <==> big_value(x) < 2,
            !r.is_ok() ==> r == Err::<(), TraceError>(TraceError::Soundness),
    {
        let two = big_from_u64(2);
        if big_lt(&x, &two) {
            Ok(())
        } else {
            Err(TraceError::Soundness)
        }
    }

    /// Local soundness check: the value must be zero.
    pub fn assert_zero(&mut self, var: BigUint) -> (r: Result<(), TraceError>)
        requires
            old(self).wf(),
        ensures
            final(self).wf(),
            *final(self) == *old(self),
            r.is_ok() <==> big_value(var) == 0,
            !r.is_ok() ==> r == Err::<(), TraceError>(TraceError::Soundness),
    {
        let zero = big_from_u64(0);
        if big_eq(&var, &zero) {
            Ok(())
        } else {
            Err(TraceError::Soundness)
        }
    }

    /// Local soundness check: the two values must be equal.
    pub fn assert_equal(&mut self, x: BigUint, y: BigUint) -> (r: Result<(), TraceError>)
        requires
            old(self).wf(),
        ensures
            final(self).wf(),
            *final(self) == *old(self),
            r.is_ok() <==> big_value(x) == big_value(y),
            !r.is_ok() ==> r == Err::<(), TraceError>(TraceError::Soundness),
    {
        if big_eq(&x, &y) {
            Ok(())
        } else {
            Err(TraceError::Soundness)
        }
    }

    /// Soundness check bounding a decomposition limb: the value stored at
    /// the private column `col` must be strictly below `2^16`.
    pub fn range_check16(&mut self, col: Column) -> (r: Result<(), TraceError>)
        requires
            old(self).wf(),
            col matches Column::X(i) ==> i < NUMBER_OF_COLUMNS,
        ensures
            final(self).wf(),
            *final(self) == *old(self),
            r.is_ok() <==> col.is_private() && old(self).state_values()[col.index() as int]
                < pow2(16),
            !col.is_private() ==> r == Err::<(), TraceError>(TraceError::TypeMismatch),
            col.is_private() && old(self).state_values()[col.index() as int] >= pow2(16) ==> r
                == Err::<(), TraceError>(TraceError::Soundness),
    {
        match col {
            Column::X(idx) => {
                let bound = big_from_u64(65536);
                proof {
                    vstd::arithmetic::power2::lemma2_to64();
                }
                if big_lt(&self.state[idx], &bound) {
                    Ok(())
                } else {
                    Err(TraceError::Soundness)
                }
            },
            _ => Err(TraceError::TypeMismatch),
        }
    }

    /// Computes `x * x`, writes it to the private column `col`, and returns
    /// it.
    pub fn square(&mut self, col: Column, x: BigUint) -> (r: Result<BigUint, TraceError>)
        requires
            old(self).wf(),
            col matches Column::X(i) ==> i < NUMBER_OF_COLUMNS,
        ensures
            final(self).wf(),
            r.is_ok() <==> col.is_private(),
            col.is_private() ==> {
                &&& *final(self) == (Env { state: final(self).state, ..*old(self) })
                &&& final(self).state_values() == old(self).state_values().update(
                    col.index() as int,
                    big_value(x) * big_value(x),
                )
                &&& (r matches Ok(w) ==> big_value(w) == big_value(x) * big_value(x))
            },
            !col.is_private() ==> *final(self) == *old(self) && r == Err::<BigUint, TraceError>(
                TraceError::TypeMismatch,
            ),
    {
        let res = big_mul(&x, &x);
        self.write_column(col, res)
    }

    /// Extracts the bits `[lowest_bit, highest_bit)` of `x` (big-endian bit
    /// numbering), writes the extracted value to the private column `col`,
    /// and returns it.  The window is at most the fixed 16-bit limb
    /// granularity.  By itself this is shift-and-mask arithmetic: it does
    /// not prove the extracted value fits the claimed width, so a range
    /// check on the same column must follow for the trace to be sound.
    pub fn bitmask_be(
        &mut self,
        x: &BigUint,
        highest_bit: u32,
        lowest_bit: u32,
        col: Column,
    ) -> (r: Result<BigUint, TraceError>)
        requires
            old(self).wf(),
            lowest_bit <= highest_bit,
            highest_bit - lowest_bit <= 16,
            col matches Column::X(i) ==> i < NUMBER_OF_COLUMNS,
        ensures
            final(self).wf(),
            r.is_ok() <==> col.is_private(),
            col.is_private() ==> {
                &&& *final(self) == (Env { state: final(self).state, ..*old(self) })
                &&& final(self).state_values() == old(self).state_values().update(
                    col.index() as int,
                    bitmask_value(big_value(*x), highest_bit as nat, lowest_bit as nat),
                )
                &&& (r matches Ok(w) ==> big_value(w) == bitmask_value(
                    big_value(*x),
                    highest_bit as nat,
                    lowest_bit as nat,
                ))
            },
            !col.is_private() ==> *final(self) == *old(self) && r == Err::<BigUint, TraceError>(
                TraceError::TypeMismatch,
            ),
    {
        let diff = highest_bit - lowest_bit;
        proof {
            vstd::arithmetic::power2::lemma2_to64();
            vstd::arithmetic::power2::lemma_pow2_strictly_increases(diff as nat, 17);
            vstd::bits::lemma_u64_shl_is_mul(1u64, diff as u64);
            vstd::arithmetic::mul::lemma_mul_basics(pow2(diff as nat) as int);
            vstd::arithmetic::power2::lemma_pow2_pos(diff as nat);
        }
        let modulus = big_from_u64(1u64 << (diff as u64));
        let shifted = big_shr(x, lowest_bit);
        let res = big_rem(&shifted, &modulus);
        self.write_column(col, res)
    }

    /// Reads the next input value for the active gadget and writes it to
    /// the private column `col`.  The input source is a pluggable policy
    /// point; the current policy feeds the row index.
    pub fn fetch_input(&mut self, col: Column) -> (r: Result<BigUint, TraceError>)
        requires
            old(self).wf(),
            col matches Column::X(i) ==> i < NUMBER_OF_COLUMNS,
        ensures
            final(self).wf(),
            r.is_ok() <==> col.is_private(),
            col.is_private() ==> {
                &&& *final(self) == (Env { state: final(self).state, ..*old(self) })
                &&& final(self).state_values() == old(self).state_values().update(
                    col.index() as int,
                    old(self).current_row as nat,
                )
                &&& (r matches Ok(w) ==> big_value(w) == old(self).current_row as nat)
            },
            !col.is_private() ==> *final(self) == *old(self) && r == Err::<BigUint, TraceError>(
                TraceError::TypeMismatch,
            ),
    {
        let x = big_from_u64(self.current_row as u64);
        self.write_column(col, x)
    }

    /// The single commit point of a row: appends every row-state cell to
    /// the witness table at the current row index, advances the row index,
    /// resets both allocation cursors, and zeroes the row state.
    pub fn advance_row(&mut self)
        requires
            old(self).wf(),
            old(self).current_row < old(self).domain_size,
        ensures
            final(self).wf(),
            *final(self) == (Env {
                current_row: (old(self).current_row + 1) as usize,
                idx_var: 0usize,
                idx_var_pi: 0usize,
                state: final(self).state,
                witness: final(self).witness,
                ..*old(self)
            }),
            final(self).state_values() == Seq::new(NUMBER_OF_COLUMNS as nat, |i: int| 0nat),
            final(self).witness_values().len() == NUMBER_OF_COLUMNS,
            forall|c: int|
                0 <= c < NUMBER_OF_COLUMNS ==> #[trigger] final(self).witness_values()[c] == old(
                    self,
                ).witness_values()[c].update(
                    old(self).current_row as int,
                    old(self).state_values()[c],
                ),
    {
        let ghost pre = *self;
        let row = self.current_row;
        let mut i: usize = 0;
        while i < NUMBER_OF_COLUMNS
            invariant
                pre.wf(),
                i <= NUMBER_OF_COLUMNS,
                row == pre.current_row < pre.domain_size,
                *self == (Env { state: self.state, witness: self.witness, ..pre }),
                self.state.len() == NUMBER_OF_COLUMNS,
                self.witness.len() == NUMBER_OF_COLUMNS,
                forall|c: int|
                    0 <= c < NUMBER_OF_COLUMNS ==> (#[trigger] self.witness@[c]).len()
                        == pre.domain_size,
                forall|c: int| i <= c < NUMBER_OF_COLUMNS ==> self.state@[c] == pre.state@[c],
                forall|c: int| 0 <= c < i ==> big_value(#[trigger] self.state@[c]) == 0,
                forall|c: int| i <= c < NUMBER_OF_COLUMNS ==> self.witness@[c] == pre.witness@[c],
                forall|c: int|
                    0 <= c < i ==> values_of(#[trigger] self.witness@[c]@) == values_of(
                        pre.witness@[c]@,
                    ).update(row as int, big_value(pre.state@[c])),
            decreases NUMBER_OF_COLUMNS - i,
        {
            let v = big_clone(&self.state[i]);
            self.witness[i][row] = v;
            self.state[i] = big_from_u64(0);
            proof {
                assert(values_of(self.witness@[i as int]@) =~= values_of(
                    pre.witness@[i as int]@,
                ).update(row as int, big_value(pre.state@[i as int])));
            }
            i = i + 1;
        }
        self.current_row = row + 1;
        self.idx_var = 0;
        self.idx_var_pi = 0;
        proof {
            assert(self.state_values() =~= Seq::new(NUMBER_OF_COLUMNS as nat, |i: int| 0nat));
        }
    }

    /// Derives a folding challenge by squeezing the sponge of the curve
    /// whose turn it is this iteration (even iteration: first curve, odd:
    /// second), writes it into the private column `col`, and records it as
    /// the current combiner for subsequent chunked extraction.  The other
    /// curve's sponge is untouched.
    pub fn coin_folding_combiner(&mut self, col: Column) -> (r: Result<BigUint, TraceError>)
        requires
            old(self).wf(),
            col matches Column::X(i) ==> i < NUMBER_OF_COLUMNS,
        ensures
            final(self).wf(),
            r.is_ok() <==> col.is_private(),
            col.is_private() ==> {
                &&& *final(self) == (Env {
                    state: final(self).state,
                    r: final(self).r,
                    sponge_e1: final(self).sponge_e1,
                    sponge_e2: final(self).sponge_e2,
                    ..*old(self)
                })
                &&& final(self).state_values() == old(self).state_values().update(
                    col.index() as int,
                    big_value(final(self).r),
                )
                &&& (r matches Ok(w) ==> big_value(w) == big_value(final(self).r))
                &&& (active_curve(old(self).current_iteration) == 1 ==> final(self).sponge_e2
                    == old(self).sponge_e2)
                &&& (active_curve(old(self).current_iteration) == 2 ==> final(self).sponge_e1
                    == old(self).sponge_e1)
            },
            !col.is_private() ==> *final(self) == *old(self) && r == Err::<BigUint, TraceError>(
                TraceError::TypeMismatch,
            ),
    {
        match col {
            Column::X(idx) => {
                let chal = if self.current_iteration % 2 == 0 {
                    self.sponge_e1.challenge()
                } else {
                    self.sponge_e2.challenge()
                };
                let returned = big_clone(&chal);
                let stored = big_clone(&chal);
                self.state[idx] = stored;
                self.r = chal;
                proof {
                    assert(self.state_values() =~= old(self).state_values().update(
                        idx as int,
                        big_value(self.r),
                    ));
                }
                Ok(returned)
            },
            _ => Err(TraceError::TypeMismatch),
        }
    }

    /// Re-derives the `i`-th 16-bit big-endian chunk of the previously
    /// stored folding combiner and writes it to the private column `pos`.
    /// It assumes the combiner was already derived this iteration: calling
    /// it before `coin_folding_combiner` chunks a stale combiner.
    pub fn get_sixteen_bits_chunks_folding_combiner(&mut self, pos: Column, i: u32) -> (r: Result<
        BigUint,
        TraceError,
    >)
        requires
            old(self).wf(),
            i < 16,
            pos matches Column::X(j) ==> j < NUMBER_OF_COLUMNS,
        ensures
            final(self).wf(),
            r.is_ok() <==> pos.is_private(),
            pos.is_private() ==> {
                &&& *final(self) == (Env { state: final(self).state, ..*old(self) })
                &&& final(self).state_values() == old(self).state_values().update(
                    pos.index() as int,
                    bitmask_value(big_value(old(self).r), (16 * (i + 1)) as nat, (16 * i) as nat),
                )
                &&& (r matches Ok(w) ==> big_value(w) == bitmask_value(
                    big_value(old(self).r),
                    (16 * (i + 1)) as nat,
                    (16 * i) as nat,
                ))
            },
            !pos.is_private() ==> *final(self) == *old(self) && r == Err::<BigUint, TraceError>(
                TraceError::TypeMismatch,
            ),
    {
        let combiner = big_clone(&self.r);
        self.bitmask_be(&combiner, 16 * (i + 1), 16 * i, pos)
    }

    /// The instruction whose gadget the interpreter is currently building.
    pub fn fetch_instruction(&self) -> (r: Instruction)
        ensures
            r == self.current_instruction,
    {
        self.current_instruction
    }

    /// The successor of the current instruction under the sequencer's
    /// transition function.  The environment itself is left unchanged; the
    /// driver decides when to install the successor.
    pub fn fetch_next_instruction(&mut self) -> (r: Instruction)
        requires
            old(self).wf(),
            old(self).current_instruction.successor_fits(),
        ensures
            *final(self) == *old(self),
            r == spec_transition(old(self).current_instruction),
            r.wf(),
    {
        transition(self.current_instruction)
    }

    /// Computes the output of the application on the previous output.  The
    /// recursive step function is a pluggable policy point; the current
    /// policy stores a fixed constant.
    pub fn compute_output(&mut self)
        requires
            old(self).wf(),
        ensures
            final(self).wf(),
            *final(self) == (Env { zi: final(self).zi, ..*old(self) }),
            big_value(final(self).zi) == 42,
    {
        self.zi = big_from_u64(42);
    }

    /// The blinder used to commit, to avoid committing to the zero
    /// polynomial.  It is part of the instance; accumulating it into the
    /// running instance is the accumulation law's business, outside this
    /// core, which leaves the environment untouched.
    pub fn accumulate_commitment_blinder(&mut self)
        requires
            old(self).wf(),
        ensures
            *final(self) == *old(self),
    {
    }

    /// Resets the per-iteration state to begin the next iteration: the row
    /// index returns to the start of the domain, the row state is zeroed,
    /// and both allocation cursors are reset.
    pub fn reset_for_next_iteration(&mut self)
        requires
            old(self).wf(),
        ensures
            final(self).wf(),
            *final(self) == (Env {
                current_row: 0usize,
                idx_var: 0usize,
                idx_var_pi: 0usize,
                state: final(self).state,
                ..*old(self)
            }),
            final(self).state_values() == Seq::new(NUMBER_OF_COLUMNS as nat, |i: int| 0nat),
    {
        self.current_row = 0;
        let mut i: usize = 0;
        while i < NUMBER_OF_COLUMNS
            invariant
                i <= NUMBER_OF_COLUMNS,
                *self == (Env { current_row: 0usize, state: self.state, ..*old(self) }),
                self.state.len() == NUMBER_OF_COLUMNS,
                forall|c: int| 0 <= c < i ==> big_value(#[trigger] self.state@[c]) == 0,
            decreases NUMBER_OF_COLUMNS - i,
        {
            self.state[i] = big_from_u64(0);
            i = i + 1;
        }
        self.idx_var = 0;
        self.idx_var_pi = 0;
        proof {
            assert(self.state_values() =~= Seq::new(NUMBER_OF_COLUMNS as nat, |i: int| 0nat));
        }
    }
}

/// The bits `[lowest_bit, highest_bit)` of `x`, as an integer: shift the
/// low end away, keep the window.
pub open spec fn bitmask_value(x: nat, highest_bit: nat, lowest_bit: nat) -> nat {
    (x / pow2(lowest_bit)) % pow2((highest_bit - lowest_bit) as nat)
}

/// Binary digit `j` of `x`, little-endian bit numbering.
pub open spec fn bit_of(x: nat, j: nat) -> nat {
    (x / pow2(j)) % 2
}

/// Bitmask correctness against the reference bit slice: the extracted
/// window is bounded by its width, and its bit `j` is bit `lowest_bit + j`
/// of `x`, for every `j` inside the window.
pub proof fn lemma_bitmask_is_bit_slice(x: nat, highest_bit: nat, lowest_bit: nat, j: nat)
    requires
        lowest_bit <= highest_bit,
        j < highest_bit - lowest_bit,
    ensures
        bitmask_value(x, highest_bit, lowest_bit) < pow2((highest_bit - lowest_bit) as nat),
        bit_of(bitmask_value(x, highest_bit, lowest_bit), j) == bit_of(x, lowest_bit + j),
{
    let d = (highest_bit - lowest_bit) as nat;
    let a = x / pow2(lowest_bit);
    let bm = bitmask_value(x, highest_bit, lowest_bit);
    vstd::arithmetic::power2::lemma_pow2_pos(d);
    vstd::arithmetic::power2::lemma_pow2_pos(j);
    vstd::arithmetic::power2::lemma_pow2_pos((d - j) as nat);
    vstd::arithmetic::power2::lemma_pow2_pos((d - j - 1) as nat);
    vstd::arithmetic::power2::lemma_pow2_pos(lowest_bit);
    vstd::arithmetic::div_mod::lemma_mod_division_less_than_divisor(a as int, pow2(d) as int);
    // Split the window below and above bit j.
    vstd::arithmetic::power2::lemma_pow2_adds(j, (d - j) as nat);
    vstd::arithmetic::div_mod::lemma_mod_breakdown(
        a as int,
        pow2(j) as int,
        pow2((d - j) as nat) as int,
    );
    let q = (a as int / pow2(j) as int) % pow2((d - j) as nat) as int;
    let rem = a as int % pow2(j) as int;
    assert(bm == pow2(j) * q + rem);
    vstd::arithmetic::div_mod::lemma_mod_division_less_than_divisor(a as int, pow2(j) as int);
    vstd::arithmetic::div_mod::lemma_div_multiples_vanish_fancy(q, rem, pow2(j) as int);
    assert(bm as int / pow2(j) as int == q);
    // Reducing the window modulo 2 keeps the lowest bit.
    assert(pow2((d - j) as nat) == 2 * pow2((d - j - 1) as nat)) by {
        vstd::arithmetic::power2::lemma_pow2_adds(1, (d - j - 1) as nat);
        vstd::arithmetic::power2::lemma2_to64();
    }
    vstd::arithmetic::div_mod::lemma_mod_mod(
        a as int / pow2(j) as int,
        2,
        pow2((d - j - 1) as nat) as int,
    );
    assert(q % 2 == (a as int / pow2(j) as int) % 2);
    // Dividing twice by powers of two is dividing by their product.
    vstd::arithmetic::div_mod::lemma_div_denominator(x as int, pow2(lowest_bit) as int, pow2(
        j,
    ) as int);
    vstd::arithmetic::power2::lemma_pow2_adds(lowest_bit, j);
    assert(a as int / pow2(j) as int == x as int / pow2(lowest_bit + j) as int);
}

/// The `i`-th 16-bit chunk of a folding combiner, as re-derived by the
/// chunk-extraction gadget.
pub open spec fn combiner_chunk(r: nat, i: nat) -> nat {
    bitmask_value(r, 16 * (i + 1), 16 * i)
}

/// The low `k` 16-bit chunks of `r`, reassembled little-to-big.
pub open spec fn combiner_chunks_value(r: nat, k: nat) -> nat
    decreases k,
{
    if k == 0 {
        0
    } else {
        (combiner_chunks_value(r, (k - 1) as nat) + combiner_chunk(r, (k - 1) as nat) * pow2(
            16 * (k - 1) as nat,
        )) as nat
    }
}

proof fn lemma_combiner_chunks_partial(r: nat, k: nat)
    ensures
        combiner_chunks_value(r, k) == r % pow2(16 * k),
    decreases k,
{
    if k == 0 {
        assert(pow2(0) == 1) by {
            vstd::arithmetic::power2::lemma2_to64();
        }
    } else {
        let km = (k - 1) as nat;
        lemma_combiner_chunks_partial(r, km);
        let y = pow2(16 * km);
        let z = pow2(16);
        vstd::arithmetic::power2::lemma_pow2_pos(16 * km);
        vstd::arithmetic::power2::lemma_pow2_pos(16);
        vstd::arithmetic::power2::lemma_pow2_adds(16 * km, 16);
        vstd::arithmetic::div_mod::lemma_mod_breakdown(r as int, y as int, z as int);
        assert(combiner_chunk(r, km) == (r / y) % z);
        vstd::arithmetic::mul::lemma_mul_is_commutative(
            ((r / y) % z) as int,
            y as int,
        );
    }
}

/// Chunked-combiner round trip: deriving the 16-bit chunks of a combiner
/// and reassembling all `k` of them little-to-big reproduces the combiner
/// exactly, whenever it is below `2^(16 k)`.
pub proof fn lemma_combiner_chunks_reassemble(r: nat, k: nat)
    requires
        r < pow2(16 * k),
    ensures
        combiner_chunks_value(r, k) == r,
{
    lemma_combiner_chunks_partial(r, k);
    vstd::arithmetic::div_mod::lemma_small_mod(r, pow2(16 * k));
}

/// Which curve commits on the given iteration: the cycle alternates, even
/// iterations on the first curve, odd ones on the second.
pub open spec fn active_curve(iteration: u64) -> int {
    if iteration % 2 == 0 {
        1
    } else {
        2
    }
}

/// Consecutive iterations never commit on the same curve.
pub proof fn lemma_curve_alternation(iteration: u64)
    requires
        iteration < u64::MAX,
    ensures
        active_curve((iteration + 1) as u64) != active_curve(iteration),
{
}

/// Row completeness: a row flush — as `advance_row` performs it — stores
/// the in-progress row state at the flushed row index and leaves every
/// other row of every column unchanged; inducting over a run of flushes,
/// after the `(r+1)`-th flush the `r`-th row of the table holds exactly
/// the values written before it.
pub proof fn lemma_row_completeness(
    before: Seq<Seq<nat>>,
    after: Seq<Seq<nat>>,
    row_state: Seq<nat>,
    row: int,
)
    requires
        after.len() == before.len(),
        row_state.len() == before.len(),
        forall|c: int| 0 <= c < before.len() ==> 0 <= row < (#[trigger] before[c]).len(),
        forall|c: int|
            0 <= c < before.len() ==> #[trigger] after[c] == before[c].update(row, row_state[c]),
    ensures
        forall|c: int| 0 <= c < before.len() ==> #[trigger] after[c][row] == row_state[c],
        forall|c: int, r2: int|
            0 <= c < before.len() && 0 <= r2 < before[c].len() && r2 != row
                ==> #[trigger] after[c][r2] == before[c][r2],
{
}

/// Reduces one witness column into the scalar field of the active curve,
/// yielding the evaluation vector handed to the commitment service.  The
/// reduction fails, naming the offending cell, exactly when some value of
/// the column is not below the field's modulus.
pub fn reduce_evaluations<K: CurveService>(srs: &K, evals: &Vec<BigUint>, column: usize) -> (r:
    Result<Vec<K::FieldEl>, TraceError>)
    ensures
        r.is_ok() <==> (forall|i: int|
            0 <= i < evals@.len() ==> big_value(#[trigger] evals@[i]) < srs.modulus()),
        (r matches Ok(v) ==> {
            &&& v@.len() == evals@.len()
            &&& forall|i: int|
                0 <= i < evals@.len() ==> srs.field_value(#[trigger] v@[i]) == big_value(
                    evals@[i],
                )
        }),
        (r matches Err(e) ==> exists|i: int|
            0 <= i < evals@.len() && big_value(#[trigger] evals@[i]) >= srs.modulus() && e == (
            TraceError::OutOfRange { column, row: i as usize })),
{
    let mut out: Vec<K::FieldEl> = Vec::new();
    let n = evals.len();
    let mut i: usize = 0;
    while i < n
        invariant
            i <= n,
            n == evals@.len(),
            out@.len() == i,
            forall|j: int| 0 <= j < i ==> big_value(#[trigger] evals@[j]) < srs.modulus(),
            forall|j: int|
                0 <= j < i ==> srs.field_value(#[trigger] out@[j]) == big_value(evals@[j]),
        decreases n - i,
    {
        match srs.reduce(&evals[i]) {
            Some(f) => {
                out.push(f);
            },
            None => {
                return Err(TraceError::OutOfRange { column, row: i });
            },
        }
        i = i + 1;
    }
    Ok(out)
}

impl<S1: Sponge, S2: Sponge, K1: CurveService, K2: CurveService> Env<S1, S2, K1, K2> {
    /// Whether every cell of the witness table is representable in a scalar
    /// field with the given modulus.
    pub open spec fn witness_reducible(&self, modulus: nat) -> bool {
        forall|c: int, row: int|
            0 <= c < self.witness@.len() && 0 <= row < self.witness@[c]@.len() ==> big_value(
                #[trigger] self.witness@[c]@[row],
            ) < modulus
    }

    /// Computes the commitments to the current witness and updates the
    /// previous instance of the curve whose turn it is: one commitment per
    /// column, over the values reduced into that curve's scalar field.  The
    /// other curve's previous commitments are untouched, as is everything
    /// else; a cell too large for the active field aborts the run with its
    /// position, leaving the environment unchanged.
    pub fn compute_and_update_previous_commitments(&mut self) -> (r: Result<(), TraceError>)
        requires
            old(self).wf(),
        ensures
            final(self).wf(),
            active_curve(old(self).current_iteration) == 1 ==> {
                &&& (r.is_ok() <==> old(self).witness_reducible(old(self).srs_e1.modulus()))
                &&& (r.is_ok() ==> *final(self) == (Env {
                    previous_commitments_e1: final(self).previous_commitments_e1,
                    ..*old(self)
                }) && final(self).previous_commitments_e1@.len() == NUMBER_OF_COLUMNS)
            },
            active_curve(old(self).current_iteration) == 2 ==> {
                &&& (r.is_ok() <==> old(self).witness_reducible(old(self).srs_e2.modulus()))
                &&& (r.is_ok() ==> *final(self) == (Env {
                    previous_commitments_e2: final(self).previous_commitments_e2,
                    ..*old(self)
                }) && final(self).previous_commitments_e2@.len() == NUMBER_OF_COLUMNS)
            },
            !r.is_ok() ==> *final(self) == *old(self) && (r matches Err(e) ==> e matches
                TraceError::OutOfRange { .. }),
    {
        if self.current_iteration % 2 == 0 {
            let mut comms: Vec<K1::Comm> = Vec::new();
            let mut c: usize = 0;
            while c < NUMBER_OF_COLUMNS
                invariant
                    self.wf(),
                    *self == *old(self),
                    old(self).current_iteration % 2 == 0,
                    c <= NUMBER_OF_COLUMNS,
                    comms@.len() == c,
                    forall|cc: int, row: int|
                        0 <= cc < c && 0 <= row < self.witness@[cc]@.len() ==> big_value(
                            #[trigger] self.witness@[cc]@[row],
                        ) < self.srs_e1.modulus(),
                decreases NUMBER_OF_COLUMNS - c,
            {
                match reduce_evaluations(&self.srs_e1, &self.witness[c], c) {
                    Ok(evals) => {
                        let comm = self.srs_e1.commit_evaluations(&evals);
                        comms.push(comm);
                    },
                    Err(e) => {
                        proof {
                            let m = self.srs_e1.modulus();
                            let i = choose|i: int|
                                0 <= i < self.witness@[c as int]@.len() && big_value(
                                    #[trigger] self.witness@[c as int]@[i],
                                ) >= m && e == (TraceError::OutOfRange { column: c, row: i as usize });
                            assert(big_value(self.witness@[c as int]@[i]) >= m);
                            assert(!self.witness_reducible(m));
                        }
                        return Err(e);
                    },
                }
                c = c + 1;
            }
            self.previous_commitments_e1 = comms;
            Ok(())
        } else {
            let mut comms: Vec<K2::Comm> = Vec::new();
            let mut c: usize = 0;
            while c < NUMBER_OF_COLUMNS
                invariant
                    self.wf(),
                    *self == *old(self),
                    old(self).current_iteration % 2 != 0,
                    c <= NUMBER_OF_COLUMNS,
                    comms@.len() == c,
                    forall|cc: int, row: int|
                        0 <= cc < c && 0 <= row < self.witness@[cc]@.len() ==> big_value(
                            #[trigger] self.witness@[cc]@[row],
                        ) < self.srs_e2.modulus(),
                decreases NUMBER_OF_COLUMNS - c,
            {
                match reduce_evaluations(&self.srs_e2, &self.witness[c], c) {
                    Ok(evals) => {
                        let comm = self.srs_e2.commit_evaluations(&evals);
                        comms.push(comm);
                    },
                    Err(e) => {
                        proof {
                            let m = self.srs_e2.modulus();
                            let i = choose|i: int|
                                0 <= i < self.witness@[c as int]@.len() && big_value(
                                    #[trigger] self.witness@[c as int]@[i],
                                ) >= m && e == (TraceError::OutOfRange { column: c, row: i as usize });
                            assert(big_value(self.witness@[c as int]@[i]) >= m);
                            assert(!self.witness_reducible(m));
                        }
                        return Err(e);
                    },
                }
                c = c + 1;
            }
            self.previous_commitments_e2 = comms;
            Ok(())
        }
    }

    /// Creates a fresh environment over an evaluation domain of
    /// `2^srs_log2_size` rows: an all-zero row state and witness table, the
    /// cursors at the start, the sequencer on its initial instruction, and
    /// both previous-commitments vectors seeded with the curves' blinder
    /// commitments.
    pub fn new(
        srs_log2_size: usize,
        z0: BigUint,
        sponge_e1: S1,
        sponge_e2: S2,
        srs_e1: K1,
        srs_e2: K2,
    ) -> (r: Self)
        requires
            srs_log2_size < 32,
        ensures
            r.wf(),
            r.domain_size == pow2(srs_log2_size as nat),
            r.idx_var == 0 && r.idx_var_pi == 0 && r.current_row == 0,
            r.current_iteration == 0,
            r.current_instruction == Instruction::InitialDecomposition,
            r.state_values() == Seq::new(NUMBER_OF_COLUMNS as nat, |i: int| 0nat),
            r.public_state_values() == Seq::new(NUMBER_OF_PUBLIC_INPUTS as nat, |i: int| 0nat),
            forall|c: int, row: int|
                0 <= c < NUMBER_OF_COLUMNS && 0 <= row < r.domain_size ==> big_value(
                    #[trigger] r.witness@[c]@[row],
                ) == 0,
            r.previous_commitments_e1@.len() == NUMBER_OF_COLUMNS,
            r.previous_commitments_e2@.len() == NUMBER_OF_COLUMNS,
            big_value(r.r) == 0,
            r.previous_hash@[0] == 0 && r.previous_hash@[1] == 0,
            big_value(r.z0) == big_value(z0) && big_value(r.zi) == big_value(z0),
    {
        proof {
            vstd::arithmetic::power2::lemma2_to64();
            if srs_log2_size > 0 {
                vstd::arithmetic::power2::lemma_pow2_strictly_increases(
                    srs_log2_size as nat,
                    32,
                );
            }
            vstd::bits::lemma_usize_shl_is_mul(1usize, srs_log2_size);
            vstd::arithmetic::mul::lemma_mul_basics(pow2(srs_log2_size as nat) as int);
        }
        let domain_size = 1usize << srs_log2_size;

        let mut state: Vec<BigUint> = Vec::new();
        while state.len() < NUMBER_OF_COLUMNS
            invariant
                state@.len() <= NUMBER_OF_COLUMNS,
                forall|i: int| 0 <= i < state@.len() ==> big_value(#[trigger] state@[i]) == 0,
            decreases NUMBER_OF_COLUMNS - state.len(),
        {
            state.push(big_from_u64(0));
        }

        let mut public_state: Vec<BigUint> = Vec::new();
        while public_state.len() < NUMBER_OF_PUBLIC_INPUTS
            invariant
                public_state@.len() <= NUMBER_OF_PUBLIC_INPUTS,
                forall|i: int|
                    0 <= i < public_state@.len() ==> big_value(#[trigger] public_state@[i]) == 0,
            decreases NUMBER_OF_PUBLIC_INPUTS - public_state.len(),
        {
            public_state.push(big_from_u64(0));
        }

        let mut witness: Vec<Vec<BigUint>> = Vec::new();
        while witness.len() < NUMBER_OF_COLUMNS
            invariant
                witness@.len() <= NUMBER_OF_COLUMNS,
                forall|c: int|
                    0 <= c < witness@.len() ==> (#[trigger] witness@[c])@.len() == domain_size,
                forall|c: int, row: int|
                    0 <= c < witness@.len() && 0 <= row < domain_size ==> big_value(
                        #[trigger] witness@[c]@[row],
                    ) == 0,
            decreases NUMBER_OF_COLUMNS - witness.len(),
        {
            let mut column: Vec<BigUint> = Vec::new();
            while column.len() < domain_size
                invariant
                    column@.len() <= domain_size,
                    forall|i: int|
                        0 <= i < column@.len() ==> big_value(#[trigger] column@[i]) == 0,
                decreases domain_size - column.len(),
            {
                column.push(big_from_u64(0));
            }
            witness.push(column);
        }

        let mut previous_commitments_e1: Vec<K1::Comm> = Vec::new();
        while previous_commitments_e1.len() < NUMBER_OF_COLUMNS
            invariant
                previous_commitments_e1@.len() <= NUMBER_OF_COLUMNS,
            decreases NUMBER_OF_COLUMNS - previous_commitments_e1.len(),
        {
            previous_commitments_e1.push(srs_e1.blinder_commitment());
        }

        let mut previous_commitments_e2: Vec<K2::Comm> = Vec::new();
        while previous_commitments_e2.len() < NUMBER_OF_COLUMNS
            invariant
                previous_commitments_e2@.len() <= NUMBER_OF_COLUMNS,
            decreases NUMBER_OF_COLUMNS - previous_commitments_e2.len(),
        {
            previous_commitments_e2.push(srs_e2.blinder_commitment());
        }

        let ivc_accumulator_e1 = srs_e1.zero_point();
        let ivc_accumulator_e2 = srs_e2.zero_point();
        let zi = big_clone(&z0);
        let r = big_from_u64(0);

        let env = Env {
            domain_size,
            srs_e1,
            srs_e2,
            ivc_accumulator_e1,
            ivc_accumulator_e2,
            previous_commitments_e1,
            previous_commitments_e2,
            idx_var: 0,
            idx_var_pi: 0,
            current_row: 0,
            state,
            public_state,
            current_instruction: Instruction::InitialDecomposition,
            sponge_e1,
            sponge_e2,
            current_iteration: 0,
            previous_hash: [0, 0],
            r,
            witness,
            z0,
            zi,
        };
        proof {
            assert(env.state_values() =~= Seq::new(NUMBER_OF_COLUMNS as nat, |i: int| 0nat));
            assert(env.public_state_values() =~= Seq::new(
                NUMBER_OF_PUBLIC_INPUTS as nat,
                |i: int| 0nat,
            ));
        }
        env
    }
}

} // verus!
