//! Column identifiers of the witness trace, and the failure taxonomy of the
//! trace builder.

use vstd::prelude::*;

verus! {

/// Identifies a cell of the current trace row.
#[derive(Clone, Copy, Debug, PartialEq, Eq, Structural)]
pub enum Column {
    /// A private witness column.
    X(usize),
    /// A public-input column.
    PublicInput(usize),
}

impl Column {
    /// Whether the column addresses a private witness cell.
    pub open spec fn is_private(self) -> bool {
        self matches Column::X(_)
    }

    /// Whether the column addresses a public-input cell.
    pub open spec fn is_public(self) -> bool {
        self matches Column::PublicInput(_)
    }

    /// The index within the column's own kind.
    pub open spec fn index(self) -> usize {
        match self {
            Column::X(i) => i,
            Column::PublicInput(i) => i,
        }
    }
}

/// The failures a proving run can hit while building its trace.  None of
/// them is recovered or retried: each is surfaced to the driver as the
/// unambiguous end of the run.
#[derive(Clone, Copy, Debug, PartialEq, Eq, Structural)]
pub enum TraceError {
    /// The fixed column or public-input budget was exceeded; the circuit is
    /// mis-sized.
    Capacity { limit: usize },
    /// A write addressed a column kind that the generic write path does not
    /// own.
    TypeMismatch,
    /// A soundness assertion on row values does not hold: the trace cannot
    /// yield a valid proof.
    Soundness,
    /// A witness value was too large for the target field at commitment
    /// time.
    OutOfRange { column: usize, row: usize },
}

} // verus!
