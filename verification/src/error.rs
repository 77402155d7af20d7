//! The error taxonomy: every variant marks a caller or configuration bug,
//! raised synchronously at the call that violates a precondition.

use vstd::prelude::*;

verus! {

/// A fatal usage or configuration error.
#[derive(Clone, Copy, Debug, PartialEq, Eq, Structural)]
pub enum PedersenError {
    /// Zero windows, zero window size, or a window shape beyond the
    /// supported capacity at setup.
    InvalidWindowConfiguration,
    /// An input bit sequence whose length does not match what the
    /// configuration requires.
    BitLengthMismatch,
    /// An attempt to read a concrete value out of a tagged value whose
    /// visibility is not `Constant`.
    IllegalMaterialization,
}

} // verus!
