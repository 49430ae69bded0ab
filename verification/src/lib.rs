//! Witness-construction core of a folding-based proof pipeline.
//!
//! The crate builds, row by row, the execution trace that an arithmetic
//! circuit must satisfy, while driving a two-curve accumulator across
//! successive folding iterations.  Witness cells are kept as unreduced
//! big integers; reduction into a concrete prime field happens only at
//! the commitment boundary.

use vstd::prelude::*;

pub mod columns;
pub mod commitment;
pub mod field;
pub mod interpreter;
pub mod serialization;
pub mod value;
pub mod witness;

verus! {

/// Number of private witness columns a row can hold.
pub const NUMBER_OF_COLUMNS: usize = 15;

/// Number of public-input columns a row can hold.
pub const NUMBER_OF_PUBLIC_INPUTS: usize = 17;

} // verus!
