//! The instruction sequencer: a tagged variant naming the gadget that is
//! active for the current row, together with its pure, total transition
//! function.
//!
//! Encoding the instruction as data lets an outer driver single-step the
//! trace builder one row at a time, querying which gadget is active without
//! re-entrant call stacks.

use vstd::prelude::*;

verus! {

/// The gadget being traced for the current row.
#[derive(Clone, Copy, Debug, PartialEq, Eq, Structural)]
pub enum Instruction {
    /// The first decomposition step of a value into 16-bit limbs.
    InitialDecomposition,
    /// The decomposition step for the chunk with the given index, in `0..16`.
    ChunkDecomposition(u32),
    /// A round of the hash permutation, with the round index.
    PermutationRound(u64),
}

impl Instruction {
    /// Chunk indices stay within one full sweep of sixteen 16-bit chunks.
    pub open spec fn wf(self) -> bool {
        match self {
            Instruction::InitialDecomposition => true,
            Instruction::ChunkDecomposition(i) => i < 16,
            Instruction::PermutationRound(_) => true,
        }
    }

    /// The machine limit on round counters: the successor of a permutation
    /// round must still fit in its counter.
    pub open spec fn successor_fits(self) -> bool {
        match self {
            Instruction::PermutationRound(i) => i < u64::MAX,
            _ => true,
        }
    }
}

/// The successor of an instruction: one initial step, sixteen chunk steps
/// closing back on the initial step, and unbounded permutation rounds.
pub open spec fn spec_transition(i: Instruction) -> Instruction {
    match i {
        Instruction::InitialDecomposition => Instruction::ChunkDecomposition(0),
        Instruction::ChunkDecomposition(i) => if i < 15 {
            Instruction::ChunkDecomposition((i + 1) as u32)
        } else {
            Instruction::InitialDecomposition
        },
        Instruction::PermutationRound(i) => Instruction::PermutationRound((i + 1) as u64),
    }
}

/// The instruction reached after `n` applications of the transition function.
pub open spec fn spec_transition_iter(i: Instruction, n: nat) -> Instruction
    decreases n,
{
    if n == 0 {
        i
    } else {
        spec_transition(spec_transition_iter(i, (n - 1) as nat))
    }
}

/// Every instruction has a defined successor, and the successor of a
/// well-formed instruction is well formed.
pub fn transition(i: Instruction) -> (r: Instruction)
    requires
        i.wf(),
        i.successor_fits(),
    ensures
        r == spec_transition(i),
        r.wf(),
{
    match i {
        Instruction::InitialDecomposition => Instruction::ChunkDecomposition(0),
        Instruction::ChunkDecomposition(i) => if i < 15 {
            Instruction::ChunkDecomposition(i + 1)
        } else {
            Instruction::InitialDecomposition
        },
        Instruction::PermutationRound(i) => Instruction::PermutationRound(i + 1),
    }
}

/// One initial transition followed by sixteen chunk transitions completes a
/// full decomposition cycle: seventeen steps return to the initial state.
pub proof fn lemma_instruction_cycle()
    ensures
        spec_transition_iter(Instruction::InitialDecomposition, 17)
            == Instruction::InitialDecomposition,
{
    reveal_with_fuel(spec_transition_iter, 18);
}

} // verus!
