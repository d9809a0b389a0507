//! Gates: the matrices that act on a register.

use crate::amplitude::Amplitude;
use crate::error::QuantumError;
use crate::matrix::Matrix;
use crate::quantum_register::QuantumRegister;
use vstd::arithmetic::power2::pow2;
use vstd::prelude::*;

verus! {

/// The 2 by 2 matrix with the rows `(a, b)` and `(c, d)`.
pub open spec fn two_by_two<T>(a: T, b: T, c: T, d: T) -> Seq<Seq<T>> {
    seq![seq![a, b], seq![c, d]]
}

/// The projector onto the state 0 of one qubit.
pub open spec fn projector_zero<T: Amplitude>() -> Seq<Seq<T>> {
    two_by_two(T::spec_one(), T::spec_zero(), T::spec_zero(), T::spec_zero())
}

/// The projector onto the state 1 of one qubit.
pub open spec fn projector_one<T: Amplitude>() -> Seq<Seq<T>> {
    two_by_two(T::spec_zero(), T::spec_zero(), T::spec_zero(), T::spec_one())
}

/// The Pauli X matrix.
pub open spec fn pauli_x<T: Amplitude>() -> Seq<Seq<T>> {
    two_by_two(T::spec_zero(), T::spec_one(), T::spec_one(), T::spec_zero())
}

/// The Pauli Y matrix.
pub open spec fn pauli_y<T: Amplitude>() -> Seq<Seq<T>> {
    two_by_two(
        T::spec_zero(),
        T::spec_imaginary().spec_negated(),
        T::spec_imaginary(),
        T::spec_zero(),
    )
}

/// The Pauli Z matrix.
pub open spec fn pauli_z<T: Amplitude>() -> Seq<Seq<T>> {
    two_by_two(T::spec_one(), T::spec_zero(), T::spec_zero(), T::spec_one().spec_negated())
}

/// The Hadamard matrix with the entries `scale` and `-scale`. It is unitary
/// where `scale` is the reciprocal of the square root of 2.
pub open spec fn hadamard<T: Amplitude>(scale: T) -> Seq<Seq<T>> {
    two_by_two(scale, scale, scale, scale.spec_negated())
}

/// The diagonal matrix of 1 and `factor`.
pub open spec fn phase_rotation<T: Amplitude>(factor: T) -> Seq<Seq<T>> {
    two_by_two(T::spec_one(), T::spec_zero(), T::spec_zero(), factor)
}

/// The controlled not of two qubits: the identity with its last two rows
/// swapped.
pub open spec fn cnot<T: Amplitude>() -> Seq<Seq<T>> {
    seq![
        seq![T::spec_one(), T::spec_zero(), T::spec_zero(), T::spec_zero()],
        seq![T::spec_zero(), T::spec_one(), T::spec_zero(), T::spec_zero()],
        seq![T::spec_zero(), T::spec_zero(), T::spec_zero(), T::spec_one()],
        seq![T::spec_zero(), T::spec_zero(), T::spec_one(), T::spec_zero()],
    ]
}

/// The factor that one branch of a controlled gate has at the qubit
/// `position`. In the branch with `lit` the control qubit is 1 and the
/// target gets `gate`; in the other the control qubit is 0 and the target is
/// left alone. At the control the factor is the projector of the branch.
pub open spec fn control_factor<T: Amplitude>(
    position: int,
    control: int,
    target: int,
    gate: Seq<Seq<T>>,
    lit: bool,
) -> Seq<Seq<T>> {
    if position == control {
        if lit {
            projector_one()
        } else {
            projector_zero()
        }
    } else if position == target && lit {
        gate
    } else {
        crate::matrix::identity(2)
    }
}

/// One branch of a controlled gate over the qubits `0` to `upto - 1`: the
/// Kronecker product of their factors, taken from the left.
pub open spec fn control_branch<T: Amplitude>(
    control: int,
    target: int,
    gate: Seq<Seq<T>>,
    lit: bool,
    upto: nat,
) -> Seq<Seq<T>>
    decreases upto,
{
    if upto <= 1 {
        control_factor(0, control, target, gate, lit)
    } else {
        crate::matrix::kronecker(
            control_branch(control, target, gate, lit, (upto - 1) as nat),
            control_factor(upto - 1, control, target, gate, lit),
        )
    }
}

/// The number of qubits that a gate built for `qubits` qubits acts on: at
/// least one.
pub open spec fn width(qubits: int) -> nat {
    if qubits < 1 {
        1
    } else {
        qubits as nat
    }
}

/// The matrix on `qubits` qubits that applies `gate` to the qubit `target`
/// where the qubit `control` is 1: the sum of its two branches.
pub open spec fn multi_controlled<T: Amplitude>(
    control: int,
    target: int,
    qubits: int,
    gate: Seq<Seq<T>>,
) -> Seq<Seq<T>> {
    crate::matrix::matrix_sum(
        control_branch(control, target, gate, false, width(qubits)),
        control_branch(control, target, gate, true, width(qubits)),
    )
}

/// The factor that a gate on one qubit, embedded among others, has at the
/// qubit `position`: `gate` at the target and the identity elsewhere.
pub open spec fn embed_factor<T: Amplitude>(position: int, target: int, gate: Seq<Seq<T>>) -> Seq<
    Seq<T>,
> {
    if position == target {
        gate
    } else {
        crate::matrix::identity(2)
    }
}

/// The matrix over the qubits `0` to `upto - 1` that applies `gate` to the
/// qubit `target` and leaves the others alone: the Kronecker product of the
/// factors, taken from the left.
pub open spec fn embedding<T: Amplitude>(target: int, gate: Seq<Seq<T>>, upto: nat) -> Seq<Seq<T>>
    decreases upto,
{
    if upto <= 1 {
        embed_factor(0, target, gate)
    } else {
        crate::matrix::kronecker(
            embedding(target, gate, (upto - 1) as nat),
            embed_factor(upto - 1, target, gate),
        )
    }
}

/// The Kronecker product of `upto` Hadamard matrices, taken from the left;
/// one matrix for `upto` below 2.
pub open spec fn hadamard_power<T: Amplitude>(scale: T, upto: nat) -> Seq<Seq<T>>
    decreases upto,
{
    if upto <= 1 {
        hadamard(scale)
    } else {
        crate::matrix::kronecker(hadamard_power(scale, (upto - 1) as nat), hadamard(scale))
    }
}

/// The `k` by `k` Fourier matrix over the root of unity `omega`. Row 0 and
/// column 0 hold `scale`. Every other entry `(i, j)` holds the power `j` of
/// the power `i` of `omega`, times `scale`. The matrix is unitary where
/// `omega` is a primitive root of unity of order `k` and `scale` the
/// reciprocal of the square root of `k`.
pub open spec fn fourier<T: Amplitude>(k: nat, omega: T, scale: T) -> Seq<Seq<T>> {
    Seq::new(k, |i: int| fourier_row(k, omega, scale, i))
}

/// Row `i` of the Fourier matrix.
pub open spec fn fourier_row<T: Amplitude>(k: nat, omega: T, scale: T, i: int) -> Seq<T> {
    Seq::new(
        k,
        |j: int|
            if i == 0 || j == 0 {
                scale
            } else {
                crate::amplitude::power(
                    crate::amplitude::power(omega, i as nat),
                    j as nat,
                ).spec_product(scale)
            },
    )
}

/// Whether the matrix `m` can act on a state of `len` amplitudes: it has
/// `len` rows of `len` entries each.
pub open spec fn fits<T>(m: Seq<Seq<T>>, len: nat) -> bool {
    &&& m.len() == len
    &&& forall|i: int| 0 <= i < m.len() ==> (#[trigger] m[i]).len() == len
}

/// The matrix `m` times the vector `state`: entry `i` is the sum over `j` of
/// `m[i][j] * state[j]`, added onto 0 by rising `j`.
pub open spec fn applied<T: Amplitude>(m: Seq<Seq<T>>, state: Seq<T>) -> Seq<T> {
    Seq::new(m.len(), |i: int| crate::amplitude::inner(m[i], state, m.len()))
}

/// A gate: a square matrix of amplitudes.
#[derive(Debug)]
pub struct Gate<T: Amplitude> {
    pub matrix: Matrix<T>,
}

/// The 2 by 2 matrix with the rows `(a, b)` and `(c, d)`.
fn matrix_two_by_two<T: Amplitude>(a: T, b: T, c: T, d: T) -> (m: Matrix<T>)
    ensures
        m@ == two_by_two(a, b, c, d),
        m.wf(),
        m@.len() == 2,
{
    let mut first: Vec<T> = Vec::new();
    first.push(a);
    first.push(b);
    let mut second: Vec<T> = Vec::new();
    second.push(c);
    second.push(d);
    let mut rows: Vec<Vec<T>> = Vec::new();
    rows.push(first);
    rows.push(second);
    let m = Matrix { rows };
    assert(m@[0] =~= seq![a, b]);
    assert(m@[1] =~= seq![c, d]);
    m
}

impl<T: Amplitude> Gate<T> {
    /// Whether the matrix is square.
    pub open spec fn wf(&self) -> bool {
        self.matrix.wf()
    }

    /// Whether this is a gate on one qubit: a 2 by 2 matrix.
    pub open spec fn single(&self) -> bool {
        self.matrix.wf() && self.matrix@.len() == 2
    }

    /// A gate with the matrix `matrix`.
    pub fn new_custom(matrix: Matrix<T>) -> (g: Self)
        ensures
            g.matrix == matrix,
    {
        Gate { matrix }
    }

    /// The identity on one qubit.
    pub fn new_identity() -> (g: Self)
        ensures
            g.matrix@ == crate::matrix::identity::<T>(2),
            g.single(),
    {
        Gate { matrix: Matrix::new_identity(2) }
    }

    /// The Pauli X gate, the not of one qubit.
    pub fn new_not() -> (g: Self)
        ensures
            g.matrix@ == pauli_x::<T>(),
            g.single(),
    {
        Gate { matrix: matrix_two_by_two(T::zero(), T::one(), T::one(), T::zero()) }
    }

    /// The Pauli Y gate.
    pub fn new_y() -> (g: Self)
        ensures
            g.matrix@ == pauli_y::<T>(),
            g.single(),
    {
        Gate {
            matrix: matrix_two_by_two(
                T::zero(),
                T::imaginary().negated(),
                T::imaginary(),
                T::zero(),
            ),
        }
    }

    /// The Pauli Z gate.
    pub fn new_z() -> (g: Self)
        ensures
            g.matrix@ == pauli_z::<T>(),
            g.single(),
    {
        Gate { matrix: matrix_two_by_two(T::one(), T::zero(), T::zero(), T::one().negated()) }
    }

    /// The Hadamard gate with the entries `scale` and `-scale`.
    pub fn new_h(scale: T) -> (g: Self)
        ensures
            g.matrix@ == hadamard(scale),
            g.single(),
    {
        Gate { matrix: matrix_two_by_two(scale, scale, scale, scale.negated()) }
    }

    /// The phase rotation that multiplies the state 1 by `factor`.
    pub fn new_phase_rotation(factor: T) -> (g: Self)
        ensures
            g.matrix@ == phase_rotation(factor),
            g.single(),
    {
        Gate { matrix: matrix_two_by_two(T::one(), T::zero(), T::zero(), factor) }
    }

    /// The controlled not of two qubits, with the first as control.
    pub fn new_cnot() -> (g: Self)
        ensures
            g.matrix@ == cnot::<T>(),
            g.wf(),
            g.matrix@.len() == 4,
    {
        let o = T::one();
        let z = T::zero();
        let mut rows: Vec<Vec<T>> = Vec::new();
        let mut row: Vec<T> = Vec::new();
        row.push(o);
        row.push(z);
        row.push(z);
        row.push(z);
        rows.push(row);
        let mut row: Vec<T> = Vec::new();
        row.push(z);
        row.push(o);
        row.push(z);
        row.push(z);
        rows.push(row);
        let mut row: Vec<T> = Vec::new();
        row.push(z);
        row.push(z);
        row.push(z);
        row.push(o);
        rows.push(row);
        let mut row: Vec<T> = Vec::new();
        row.push(z);
        row.push(z);
        row.push(o);
        row.push(z);
        rows.push(row);
        let matrix = Matrix::new(rows);
        assert(matrix@[0] =~= cnot::<T>()[0]);
        assert(matrix@[1] =~= cnot::<T>()[1]);
        assert(matrix@[2] =~= cnot::<T>()[2]);
        assert(matrix@[3] =~= cnot::<T>()[3]);
        Gate { matrix }
    }

    /// A gate on `num_qubits` qubits that applies `gate` to the qubit
    /// `target_qubit` where the qubit `control_qubit` is 1, and leaves the
    /// state alone where it is 0. Qubits are counted from 0. For fewer than
    /// two qubits the result acts on one.
    pub fn new_multi_controlled(
        control_qubit: i32,
        target_qubit: i32,
        num_qubits: i32,
        gate: Gate<T>,
    ) -> (g: Self)
        requires
            gate.single(),
            pow2(width(num_qubits as int)) <= usize::MAX,
        ensures
            g.matrix@ == multi_controlled(
                control_qubit as int,
                target_qubit as int,
                num_qubits as int,
                gate.matrix@,
            ),
            g.wf(),
            g.matrix@.len() == pow2(width(num_qubits as int)),
    {
        let identity: Matrix<T> = Matrix::new_identity(2);
        let zero_state_outer_product = matrix_two_by_two(
            T::one(),
            T::zero(),
            T::zero(),
            T::zero(),
        );
        let one_state_outer_product = matrix_two_by_two(
            T::zero(),
            T::zero(),
            T::zero(),
            T::one(),
        );
        let target_matrix: Matrix<T> = gate.matrix.clone();
        let ghost inner = gate.matrix@;
        let ghost c = control_qubit as int;
        let ghost t = target_qubit as int;

        let mut zero_condition_matrix: Matrix<T>;
        let mut one_condition_matrix: Matrix<T>;
        if control_qubit == 0 {
            zero_condition_matrix = zero_state_outer_product.clone();
            one_condition_matrix = one_state_outer_product.clone();
        } else if target_qubit == 0 {
            zero_condition_matrix = identity.clone();
            one_condition_matrix = gate.matrix.clone();
        } else {
            zero_condition_matrix = identity.clone();
            one_condition_matrix = identity.clone();
        }
        proof {
            vstd::arithmetic::power2::lemma2_to64();
        }

        let mut i: i32 = 1;
        while i < num_qubits
            invariant
                1 <= i,
                i <= num_qubits || i == 1,
                pow2(width(num_qubits as int)) <= usize::MAX,
                inner == gate.matrix@,
                gate.single(),
                c == control_qubit as int,
                t == target_qubit as int,
                identity@ == crate::matrix::identity::<T>(2),
                zero_state_outer_product@ == projector_zero::<T>(),
                one_state_outer_product@ == projector_one::<T>(),
                target_matrix@ == inner,
                identity.wf(),
                zero_state_outer_product.wf(),
                one_state_outer_product.wf(),
                target_matrix.wf(),
                identity@.len() == 2,
                zero_state_outer_product@.len() == 2,
                one_state_outer_product@.len() == 2,
                target_matrix@.len() == 2,
                zero_condition_matrix@ == control_branch(c, t, inner, false, i as nat),
                one_condition_matrix@ == control_branch(c, t, inner, true, i as nat),
                zero_condition_matrix.wf(),
                one_condition_matrix.wf(),
                zero_condition_matrix@.len() == pow2(i as nat),
                one_condition_matrix@.len() == pow2(i as nat),
            decreases num_qubits - i,
        {
            proof {
                vstd::arithmetic::power2::lemma_pow2_unfold((i + 1) as nat);
                if i + 1 < num_qubits {
                    vstd::arithmetic::power2::lemma_pow2_strictly_increases(
                        (i + 1) as nat,
                        num_qubits as nat,
                    );
                }
            }
            if i == control_qubit {
                zero_condition_matrix = zero_condition_matrix.tensor_product(
                    &zero_state_outer_product,
                );
                one_condition_matrix = one_condition_matrix.tensor_product(
                    &one_state_outer_product,
                );
            } else if i == target_qubit {
                zero_condition_matrix = zero_condition_matrix.tensor_product(&identity);
                one_condition_matrix = one_condition_matrix.tensor_product(&target_matrix);
            } else {
                zero_condition_matrix = zero_condition_matrix.tensor_product(&identity);
                one_condition_matrix = one_condition_matrix.tensor_product(&identity);
            }
            i += 1;
        }
        let total = Matrix::matrix_addition(zero_condition_matrix, one_condition_matrix);
        Gate { matrix: total.unwrap() }
    }

    /// The controlled not on `num_qubits` qubits with the given control and
    /// target.
    pub fn new_multi_cnot(control_qubit: i32, target_qubit: i32, num_qubits: i32) -> (g: Self)
        requires
            pow2(width(num_qubits as int)) <= usize::MAX,
        ensures
            g.matrix@ == multi_controlled(
                control_qubit as int,
                target_qubit as int,
                num_qubits as int,
                pauli_x::<T>(),
            ),
            g.wf(),
            g.matrix@.len() == pow2(width(num_qubits as int)),
    {
        Gate::new_multi_controlled(control_qubit, target_qubit, num_qubits, Gate::new_not())
    }

    /// A gate on `num_qubits` qubits that applies `gate`, a gate on one
    /// qubit, to the qubit `target_qubit` and leaves the others alone.
    /// A `gate` that is not 2 by 2 is turned down.
    pub fn multi_single_qubit_gate(target_qubit: i32, num_qubits: i32, gate: Gate<T>) -> (g:
        Result<Self, QuantumError>)
        requires
            pow2(width(num_qubits as int)) <= usize::MAX,
        ensures
            !gate.single() ==> g == Err::<Self, QuantumError>(QuantumError::InvalidGateSize),
            gate.single() ==> g is Ok && g->Ok_0.matrix@ == embedding(
                target_qubit as int,
                gate.matrix@,
                width(num_qubits as int),
            ) && g->Ok_0.wf() && g->Ok_0.matrix@.len() == pow2(width(num_qubits as int)),
    {
        if gate.matrix.rows.len() != 2 {
            return Err(QuantumError::InvalidGateSize);
        }
        if gate.matrix.rows[0].len() != 2 || gate.matrix.rows[1].len() != 2 {
            assert(gate.matrix@[0] == gate.matrix.rows@[0]@);
            assert(gate.matrix@[1] == gate.matrix.rows@[1]@);
            return Err(QuantumError::InvalidGateSize);
        }
        assert(gate.single()) by {
            assert forall|a: int| 0 <= a < 2 implies (#[trigger] gate.matrix@[a]).len() == 2 by {
            }
        }
        let ghost inner = gate.matrix@;
        let ghost t = target_qubit as int;
        let identity: Matrix<T> = Matrix::new_identity(2);
        let mut new_gate_matrix: Matrix<T> = if target_qubit == 0 {
            gate.matrix.clone()
        } else {
            Matrix::new_identity(2)
        };
        proof {
            vstd::arithmetic::power2::lemma2_to64();
        }
        let mut i: i32 = 1;
        while i < num_qubits
            invariant
                1 <= i,
                i <= num_qubits || i == 1,
                pow2(width(num_qubits as int)) <= usize::MAX,
                inner == gate.matrix@,
                gate.single(),
                t == target_qubit as int,
                identity@ == crate::matrix::identity::<T>(2),
                identity.wf(),
                identity@.len() == 2,
                new_gate_matrix@ == embedding(t, inner, i as nat),
                new_gate_matrix.wf(),
                new_gate_matrix@.len() == pow2(i as nat),
            decreases num_qubits - i,
        {
            proof {
                vstd::arithmetic::power2::lemma_pow2_unfold((i + 1) as nat);
                if i + 1 < num_qubits {
                    vstd::arithmetic::power2::lemma_pow2_strictly_increases(
                        (i + 1) as nat,
                        num_qubits as nat,
                    );
                }
            }
            if i == target_qubit {
                new_gate_matrix = new_gate_matrix.tensor_product(&gate.matrix);
            } else {
                new_gate_matrix = new_gate_matrix.tensor_product(&identity);
            }
            i += 1;
        }
        Ok(Gate { matrix: new_gate_matrix })
    }

    /// The Hadamard gate on each of `num_qubits` qubits, with the entries
    /// `scale` and `-scale` in each factor.
    pub fn new_multi_h(num_qubits: i32, scale: T) -> (g: Self)
        requires
            pow2(width(num_qubits as int)) <= usize::MAX,
        ensures
            g.matrix@ == hadamard_power(scale, width(num_qubits as int)),
            g.wf(),
            g.matrix@.len() == pow2(width(num_qubits as int)),
    {
        let h: Gate<T> = Gate::new_h(scale);
        let mut matrix: Matrix<T> = h.matrix.clone();
        proof {
            vstd::arithmetic::power2::lemma2_to64();
        }
        let mut i: i32 = 1;
        while i < num_qubits
            invariant
                1 <= i,
                i <= num_qubits || i == 1,
                pow2(width(num_qubits as int)) <= usize::MAX,
                h.matrix@ == hadamard(scale),
                h.single(),
                matrix@ == hadamard_power(scale, i as nat),
                matrix.wf(),
                matrix@.len() == pow2(i as nat),
            decreases num_qubits - i,
        {
            proof {
                vstd::arithmetic::power2::lemma_pow2_unfold((i + 1) as nat);
                if i + 1 < num_qubits {
                    vstd::arithmetic::power2::lemma_pow2_strictly_increases(
                        (i + 1) as nat,
                        num_qubits as nat,
                    );
                }
            }
            matrix = matrix.tensor_product(&h.matrix);
            i += 1;
        }
        Gate { matrix }
    }

    /// The quantum Fourier transform on `num_qubits` qubits over the root of
    /// unity `omega`, with each entry scaled by `scale`. The powers of
    /// `omega` are built up by repeated multiplication.
    #[verifier::loop_isolation(false)]
    pub fn new_qft(num_qubits: i32, omega: T, scale: T) -> (g: Self)
        requires
            0 <= num_qubits,
            pow2(num_qubits as nat) <= usize::MAX,
        ensures
            g.matrix@ == fourier(pow2(num_qubits as nat), omega, scale),
            g.wf(),
            g.matrix@.len() == pow2(num_qubits as nat),
    {
        let k = power_of_two(num_qubits);
        let mut rows: Vec<Vec<T>> = Vec::new();
        let mut step = T::one();
        let mut i: usize = 0;
        while i < k
            invariant
                i <= k,
                rows@.len() == i,
                step == crate::amplitude::power(omega, i as nat),
                forall|a: int|
                    0 <= a < i ==> (#[trigger] rows@[a])@ == fourier_row(k as nat, omega, scale, a),
            decreases k - i,
        {
            let mut row: Vec<T> = Vec::new();
            let mut cur = T::one();
            let mut j: usize = 0;
            while j < k
                invariant
                    j <= k,
                    row@.len() == j,
                    cur == crate::amplitude::power(step, j as nat),
                    forall|b: int|
                        0 <= b < j ==> #[trigger] row@[b] == fourier_row(
                            k as nat,
                            omega,
                            scale,
                            i as int,
                        )[b],
                decreases k - j,
            {
                if i == 0 || j == 0 {
                    row.push(scale);
                } else {
                    row.push(cur.product(scale));
                }
                cur = cur.product(step);
                j += 1;
            }
            rows.push(row);
            step = step.product(omega);
            i += 1;
        }
        let matrix = Matrix { rows };
        Gate { matrix }
    }

    /// The inverse of the quantum Fourier transform: its conjugate
    /// transpose.
    pub fn new_inverse_qft(num_qubits: i32, omega: T, scale: T) -> (g: Self)
        requires
            0 <= num_qubits,
            pow2(num_qubits as nat) <= usize::MAX,
        ensures
            g.matrix@ == crate::matrix::adjoint(fourier(pow2(num_qubits as nat), omega, scale)),
            g.wf(),
            g.matrix@.len() == pow2(num_qubits as nat),
    {
        let mut matrix: Matrix<T> = Gate::new_qft(num_qubits, omega, scale).matrix;
        matrix.conjugate_transpose();
        Gate { matrix }
    }

    /// Applies this gate to a register: the state becomes the product of the
    /// matrix and the state, rescaled. Where the matrix does not have as
    /// many rows and columns as the state has amplitudes, the register is
    /// left as it is.
    #[verifier::loop_isolation(false)]
    pub fn apply(&self, register: &mut QuantumRegister<T>) -> (done: Result<i32, QuantumError>)
        ensures
            !fits(self.matrix@, old(register)@.len()) ==> done == Err::<i32, QuantumError>(
                QuantumError::DimensionMismatch,
            ) && *final(register) == *old(register),
            fits(self.matrix@, old(register)@.len()) ==> done == Ok::<i32, QuantumError>(1)
                && final(register)@ == crate::amplitude::normalized(
                applied(self.matrix@, old(register)@),
            ) && final(register).is_unit(),
            final(register)@.len() == old(register)@.len(),
    {
        let len: usize = self.matrix.rows.len();
        if len != register.state.len() {
            return Err(QuantumError::DimensionMismatch);
        }
        let ghost before = register@;
        let mut new_state: Vec<T> = Vec::new();
        let mut i: usize = 0;
        while i < len
            invariant
                i <= len,
                register@ == before,
                *register == *old(register),
                new_state@.len() == i,
                forall|a: int| 0 <= a < i ==> (#[trigger] self.matrix@[a]).len() == len,
                forall|a: int|
                    0 <= a < i ==> #[trigger] new_state@[a] == crate::amplitude::inner(
                        self.matrix@[a],
                        before,
                        len as nat,
                    ),
            decreases len - i,
        {
            assert(self.matrix@[i as int] == self.matrix.rows@[i as int]@);
            if self.matrix.rows[i].len() != len {
                return Err(QuantumError::DimensionMismatch);
            }
            let mut new_val = T::zero();
            let mut j: usize = 0;
            while j < len
                invariant
                    j <= len,
                    register@ == before,
                    *register == *old(register),
                    new_val == crate::amplitude::inner(self.matrix@[i as int], before, j as nat),
                decreases len - j,
            {
                new_val = new_val.sum(self.matrix.rows[i][j].product(register.state[j]));
                j += 1;
            }
            new_state.push(new_val);
            i += 1;
        }
        assert(new_state@ =~= applied(self.matrix@, before));
        register.change_state(new_state);
        Ok(1)
    }
}

/// Two to the power of `exponent`.
pub fn power_of_two(exponent: i32) -> (k: usize)
    requires
        0 <= exponent,
        pow2(exponent as nat) <= usize::MAX,
    ensures
        k == pow2(exponent as nat),
{
    let mut k: usize = 1;
    let mut i: i32 = 0;
    proof {
        vstd::arithmetic::power2::lemma2_to64();
    }
    while i < exponent
        invariant
            0 <= i <= exponent,
            k == pow2(i as nat),
            pow2(exponent as nat) <= usize::MAX,
        decreases exponent - i,
    {
        proof {
            vstd::arithmetic::power2::lemma_pow2_unfold((i + 1) as nat);
            if i + 1 < exponent {
                vstd::arithmetic::power2::lemma_pow2_strictly_increases(
                    (i + 1) as nat,
                    exponent as nat,
                );
            }
        }
        k = k * 2;
        i += 1;
    }
    k
}

} // verus!
