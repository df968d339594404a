//! The error cases the library reports.
use vstd::prelude::*;

verus! {

/// Why a call could not produce a result.
#[derive(Clone, Copy, Debug, PartialEq, Eq)]
pub enum DpfError {
    /// The correction-word sequence and the query path describe different
    /// tree depths.
    InvalidInput,
    /// The entropy source failed while a root seed was being drawn.
    EntropyFailure,
}

} // verus!
