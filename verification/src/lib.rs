//! A simulator of quantum circuits on a classical machine: complex matrices,
//! the gates built from them, and the register whose state they act on.

use vstd::prelude::*;

pub mod amplitude;
pub mod error;
pub mod gates;
pub mod gaussian;
pub mod matrix;
pub mod quantum_circuit;
pub mod quantum_register;
pub mod qubit;

verus! {

/// The sum of two sizes that fits a `usize`.
pub fn add(left: usize, right: usize) -> (sum: usize)
    requires
        left + right <= usize::MAX,
    ensures
        sum == left + right,
{
    left + right
}

} // verus!
