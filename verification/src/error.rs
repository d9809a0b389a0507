//! The two ways in which sizes can fail to fit.

use vstd::prelude::*;

verus! {

/// Why a matrix or a gate was turned down.
#[derive(Clone, Copy, Debug, PartialEq, Eq, Structural)]
pub enum QuantumError {
    /// Two matrices, or a gate and a state vector, differ in size.
    DimensionMismatch,
    /// A gate meant for one qubit is not a 2 by 2 matrix.
    InvalidGateSize,
}

} // verus!
