//! Circuits: gates in the order in which they are applied.

use crate::amplitude::Amplitude;
use crate::error::QuantumError;
use crate::gates::Gate;
use crate::matrix::Matrix;
use crate::quantum_register::{floor_log2, QuantumRegister};
use crate::qubit::Qubit;
use vstd::arithmetic::power2::pow2;
use vstd::prelude::*;

verus! {

/// What one gate makes of `state`: the product with its matrix, rescaled,
/// where the sizes fit, and `state` itself where they do not.
pub open spec fn stepped<T: Amplitude>(gate: Gate<T>, state: Seq<T>) -> Seq<T> {
    if crate::gates::fits(gate.matrix@, state.len()) {
        crate::amplitude::normalized(crate::gates::applied(gate.matrix@, state))
    } else {
        state
    }
}

/// The state after the first `n` of `gates` have acted on `state` in turn.
pub open spec fn ran<T: Amplitude>(gates: Seq<Gate<T>>, state: Seq<T>, n: nat) -> Seq<T>
    decreases n,
{
    if n == 0 {
        state
    } else {
        stepped(gates[n - 1], ran(gates, state, (n - 1) as nat))
    }
}

/// What applying `gate` to a state of `len` amplitudes reports.
pub open spec fn reported<T: Amplitude>(gate: Gate<T>, len: nat) -> Result<i32, QuantumError> {
    if crate::gates::fits(gate.matrix@, len) {
        Ok(1)
    } else {
        Err(QuantumError::DimensionMismatch)
    }
}

/// The matrix of the circuit that starts the search for an order, on twice
/// `half` qubits: Hadamard gates on the first half and the identity on the
/// second.
pub open spec fn order_finding_start<T: Amplitude>(half: nat, scale: T) -> Seq<Seq<T>> {
    crate::matrix::kronecker(
        crate::gates::hadamard_power(scale, crate::gates::width(half as int)),
        crate::matrix::identity(pow2(half)),
    )
}

/// A list of gates for a register of a given number of qubits. Gates are
/// only ever appended.
#[derive(Debug)]
pub struct QuantumCircuit<T: Amplitude> {
    gates: Vec<Gate<T>>,
    num_qubits: i32,
}

impl<T: Amplitude> QuantumCircuit<T> {
    /// The gates, in the order in which they are applied.
    pub closed spec fn gates(&self) -> Seq<Gate<T>> {
        self.gates@
    }

    /// The number of qubits that the circuit is meant for.
    pub closed spec fn qubits(&self) -> int {
        self.num_qubits as int
    }

    /// The circuit of one gate.
    pub fn new(gate: Gate<T>, num_qubits: i32) -> (circuit: Self)
        ensures
            circuit.gates() == seq![gate],
            circuit.qubits() == num_qubits,
    {
        let mut gates: Vec<Gate<T>> = Vec::new();
        gates.push(gate);
        QuantumCircuit { gates, num_qubits }
    }

    /// Appends a gate and hands the circuit back for the next one.
    pub fn add_gate(&mut self, gate: Gate<T>) -> (circuit: &mut QuantumCircuit<T>)
        ensures
            circuit.gates() == old(self).gates().push(gate),
            circuit.qubits() == old(self).qubits(),
            *final(self) == *final(circuit),
    {
        self.gates.push(gate);
        self
    }

    /// Applies the gates to `register` in their order. A gate whose size
    /// does not fit the register leaves the state as it is, and the run goes
    /// on with the next gate. The report holds what each gate's application
    /// returned.
    pub fn run(&self, register: &mut QuantumRegister<T>) -> (report: Vec<Result<i32, QuantumError>>)
        ensures
            final(register)@ == ran(self.gates(), old(register)@, self.gates().len()),
            final(register)@.len() == old(register)@.len(),
            old(register).is_unit() ==> final(register).is_unit(),
            report@.len() == self.gates().len(),
            forall|i: int|
                0 <= i < report@.len() ==> #[trigger] report@[i] == reported(
                    self.gates()[i],
                    old(register)@.len(),
                ),
    {
        let ghost before = register@;
        let mut report: Vec<Result<i32, QuantumError>> = Vec::new();
        let mut i: usize = 0;
        while i < self.gates.len()
            invariant
                i <= self.gates@.len(),
                register@ == ran(self.gates@, before, i as nat),
                register@.len() == before.len(),
                crate::amplitude::is_unit(before) ==> register.is_unit(),
                report@.len() == i,
                forall|a: int|
                    0 <= a < i ==> #[trigger] report@[a] == reported(self.gates@[a], before.len()),
            decreases self.gates@.len() - i,
        {
            let done = self.gates[i].apply(register);
            report.push(done);
            i += 1;
        }
        report
    }

    /// Applies the gates as `run` does, and records before each gate the
    /// marginal amplitudes of every qubit. The result holds these records
    /// and the report of the run.
    pub fn run_with_tracking(&self, register: &mut QuantumRegister<T>) -> (outcome: (
        Vec<Vec<Qubit<T>>>,
        Vec<Result<i32, QuantumError>>,
    ))
        ensures
            final(register)@ == ran(self.gates(), old(register)@, self.gates().len()),
            final(register)@.len() == old(register)@.len(),
            old(register).is_unit() ==> final(register).is_unit(),
            outcome.0@.len() == self.gates().len(),
            forall|i: int|
                0 <= i < outcome.0@.len() ==> (#[trigger] outcome.0@[i])@.len()
                    == crate::quantum_register::log2_floor(old(register)@.len()),
            forall|i: int, q: int|
                0 <= i < outcome.0@.len() && 0 <= q < outcome.0@[i]@.len()
                    ==> #[trigger] outcome.0@[i]@[q] == crate::quantum_register::marginal(
                    ran(self.gates(), old(register)@, i as nat),
                    q as nat,
                ),
            outcome.1@.len() == self.gates().len(),
            forall|i: int|
                0 <= i < outcome.1@.len() ==> #[trigger] outcome.1@[i] == reported(
                    self.gates()[i],
                    old(register)@.len(),
                ),
    {
        let ghost before = register@;
        let mut ret: Vec<Vec<Qubit<T>>> = Vec::new();
        let mut report: Vec<Result<i32, QuantumError>> = Vec::new();
        let mut i: usize = 0;
        while i < self.gates.len()
            invariant
                i <= self.gates@.len(),
                register@ == ran(self.gates@, before, i as nat),
                register@.len() == before.len(),
                crate::amplitude::is_unit(before) ==> register.is_unit(),
                ret@.len() == i,
                forall|a: int|
                    0 <= a < i ==> (#[trigger] ret@[a])@.len()
                        == crate::quantum_register::log2_floor(before.len()),
                forall|a: int, q: int|
                    0 <= a < i && 0 <= q < ret@[a]@.len() ==> #[trigger] ret@[a]@[q]
                        == crate::quantum_register::marginal(
                        ran(self.gates@, before, a as nat),
                        q as nat,
                    ),
                report@.len() == i,
                forall|a: int|
                    0 <= a < i ==> #[trigger] report@[a] == reported(self.gates@[a], before.len()),
            decreases self.gates@.len() - i,
        {
            ret.push(register.get_qubit_norms());
            let done = self.gates[i].apply(register);
            report.push(done);
            i += 1;
        }
        (ret, report)
    }

    /// The circuit that starts the search for the order of a number below
    /// `input`: on twice as many qubits as the logarithm of `input` to the
    /// base 2, rounded down, with Hadamard gates on the first half of them.
    pub fn order_finding(input: i32, scale: T) -> (circuit: Self)
        requires
            input >= 1,
            pow2(
                crate::quantum_register::log2_floor(input as nat) + crate::gates::width(
                    crate::quantum_register::log2_floor(input as nat) as int,
                ),
            ) <= usize::MAX,
        ensures
            circuit.qubits() == 2 * crate::quantum_register::log2_floor(input as nat),
            circuit.gates().len() == 1,
            circuit.gates()[0].matrix@ == order_finding_start(
                crate::quantum_register::log2_floor(input as nat),
                scale,
            ),
    {
        let half = floor_log2(input as usize);
        proof {
            crate::quantum_register::lemma_log2_floor_bound(input as nat);
            vstd::arithmetic::power2::lemma2_to64();
            if half >= 31 {
                if half > 31 {
                    vstd::arithmetic::power2::lemma_pow2_strictly_increases(31, half as nat);
                }
                assert(false);
            }
            let wide = crate::gates::width(half as int);
            vstd::arithmetic::power2::lemma_pow2_adds(half as nat, wide);
            vstd::arithmetic::power2::lemma_pow2_strictly_increases(half as nat, half as nat + wide);
            if half > 0 {
                vstd::arithmetic::power2::lemma_pow2_strictly_increases(wide, half as nat + wide);
            }
            assert(pow2(wide) * pow2(half as nat) == pow2(half as nat) * pow2(wide))
                by (nonlinear_arith);
        }
        let h: Gate<T> = Gate::new_multi_h(half as i32, scale);
        let identity: Matrix<T> = Matrix::new_identity(crate::gates::power_of_two(half as i32));
        let hadamard: Gate<T> = Gate::new_custom(h.matrix.tensor_product(&identity));
        let mut gates: Vec<Gate<T>> = Vec::new();
        gates.push(hadamard);
        QuantumCircuit { gates, num_qubits: 2 * (half as i32) }
    }
}

} // verus!
