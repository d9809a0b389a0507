use qsim::amplitude::{unit, Amplitude};
use qsim::error::QuantumError;
use qsim::gates::power_of_two;
use qsim::gaussian::Gaussian;
use qsim::matrix::filled;
use qsim::quantum_register::floor_log2;

type Matrix = qsim::matrix::Matrix<Gaussian>;
type Gate = qsim::gates::Gate<Gaussian>;
type Qubit = qsim::qubit::Qubit<Gaussian>;
type QuantumRegister = qsim::quantum_register::QuantumRegister<Gaussian>;
type QuantumCircuit = qsim::quantum_circuit::QuantumCircuit<Gaussian>;

fn g(re: i64, im: i64) -> Gaussian {
    Gaussian::new(re, im)
}

fn whole(rows: Vec<Vec<i64>>) -> Vec<Vec<Gaussian>> {
    rows.iter().map(|row| row.iter().map(|n| g(*n, 0)).collect()).collect()
}

fn state_of(entries: Vec<i64>) -> Vec<Gaussian> {
    entries.iter().map(|n| g(*n, 0)).collect()
}

fn amplitudes(qubit: &Qubit) -> (Gaussian, Gaussian) {
    (qubit.state.x, qubit.state.y)
}

#[test]
fn gaussian_arithmetic_is_exact() {
    let a = g(1, 2);
    let b = g(3, -1);
    assert_eq!(a.sum(b), g(4, 1));
    assert_eq!(a.product(b), g(5, 5));
    assert_eq!(a.negated(), g(-1, -2));
    assert_eq!(a.conjugate(), g(1, -2));
    assert_eq!(a.magnitude(), g(5, 0));
    assert_eq!(Gaussian::imaginary().product(Gaussian::imaginary()), g(-1, 0));
    assert!(g(2, 0).at_least(g(2, 7)));
    assert!(!g(1, 0).at_least(g(2, 0)));
    assert_eq!(Gaussian::zero(), g(0, 0));
    assert_eq!(Gaussian::one(), g(1, 0));
}

#[test]
fn gaussian_arithmetic_wraps() {
    assert_eq!(g(i64::MAX, 0).sum(g(1, 0)), g(i64::MIN, 0));
    assert_eq!(g(i64::MIN, 0).negated(), g(i64::MIN, 0));
    assert_eq!(g(1 << 32, 0).product(g(1 << 32, 0)), g(0, 0));
}

#[test]
fn gaussian_vectors_are_not_rescaled() {
    assert_eq!(unit(state_of(vec![3, 4])), state_of(vec![3, 4]));
    assert_eq!(filled(g(2, 1), 3), vec![g(2, 1), g(2, 1), g(2, 1)]);
}

#[test]
fn zero_and_identity_matrices() {
    let zero: Matrix = Matrix::new_zero(3);
    assert_eq!(zero.rows, whole(vec![vec![0, 0, 0], vec![0, 0, 0], vec![0, 0, 0]]));
    let identity: Matrix = Matrix::new_identity(3);
    assert_eq!(identity.rows, whole(vec![vec![1, 0, 0], vec![0, 1, 0], vec![0, 0, 1]]));
    let empty: Matrix = Matrix::new_identity(0);
    assert_eq!(empty.rows.len(), 0);
}

#[test]
fn matrix_product_is_rows_times_columns() {
    let a: Matrix = Matrix::new(vec![vec![g(1, 1), g(2, 0)], vec![g(3, 0), g(4, 0)]]);
    let b: Matrix = Matrix::new(vec![vec![g(1, -1), g(1, 0)], vec![g(1, 0), g(0, 0)]]);
    let product = a.matrix_multiplication(b);
    assert_eq!(product.rows, vec![vec![g(4, 0), g(1, 1)], vec![g(7, -3), g(3, 0)]]);
}

#[test]
fn scalar_multiplication_keeps_the_side_of_the_factor() {
    let mut matrix: Matrix = Matrix::new(whole(vec![vec![1, 2], vec![3, 4]]));
    let copy = matrix.scalar_multiplication_copy(g(0, 1));
    assert_eq!(copy.rows, vec![vec![g(0, 1), g(0, 2)], vec![g(0, 3), g(0, 4)]]);
    matrix.scalar_multiplication(g(2, 0));
    assert_eq!(matrix.rows, whole(vec![vec![2, 4], vec![6, 8]]));
    let same = matrix.clone();
    assert_eq!(same.rows, matrix.rows);
}

#[test]
fn matrix_addition_adds_entry_by_entry() {
    let a: Matrix = Matrix::new(whole(vec![vec![1, 2], vec![3, 4]]));
    let b: Matrix = Matrix::new(whole(vec![vec![10, 20], vec![30, 40]]));
    let sum = Matrix::matrix_addition(a, b).unwrap();
    assert_eq!(sum.rows, whole(vec![vec![11, 22], vec![33, 44]]));
    let a: Matrix = Matrix::new_zero(2);
    let b: Matrix = Matrix::new_zero(1);
    assert_eq!(Matrix::matrix_addition(a, b).err(), Some(QuantumError::DimensionMismatch));
}

#[test]
fn tensor_product_places_blocks() {
    let a: Matrix = Matrix::new(whole(vec![vec![1, 2], vec![3, 4]]));
    let b: Matrix = Matrix::new(whole(vec![vec![0, 5], vec![6, 7]]));
    let product = a.tensor_product(&b);
    assert_eq!(
        product.rows,
        whole(vec![
            vec![0, 5, 0, 10],
            vec![6, 7, 12, 14],
            vec![0, 15, 0, 20],
            vec![18, 21, 24, 28],
        ])
    );
    let c: Matrix = Matrix::new(whole(vec![vec![1, -1], vec![2, 3]]));
    let left = a.tensor_product(&b).tensor_product(&c);
    let right = a.tensor_product(&b.tensor_product(&c));
    assert_eq!(left.rows, right.rows);
    let empty: Matrix = Matrix::new_zero(0);
    assert_eq!(a.tensor_product(&empty).rows.len(), 0);
}

#[test]
fn conjugate_transpose_is_exact() {
    let mut matrix: Matrix = Matrix::new(vec![vec![g(1, 2), g(3, 4)], vec![g(5, 6), g(7, 8)]]);
    matrix.conjugate_transpose();
    assert_eq!(matrix.rows, vec![vec![g(1, -2), g(5, -6)], vec![g(3, -4), g(7, -8)]]);
}

#[test]
fn fixed_gates() {
    assert_eq!(Gate::new_identity().matrix.rows, whole(vec![vec![1, 0], vec![0, 1]]));
    assert_eq!(Gate::new_not().matrix.rows, whole(vec![vec![0, 1], vec![1, 0]]));
    assert_eq!(Gate::new_y().matrix.rows, vec![vec![g(0, 0), g(0, -1)], vec![g(0, 1), g(0, 0)]]);
    assert_eq!(Gate::new_z().matrix.rows, whole(vec![vec![1, 0], vec![0, -1]]));
    assert_eq!(Gate::new_h(g(1, 0)).matrix.rows, whole(vec![vec![1, 1], vec![1, -1]]));
    assert_eq!(
        Gate::new_phase_rotation(g(0, 1)).matrix.rows,
        vec![vec![g(1, 0), g(0, 0)], vec![g(0, 0), g(0, 1)]]
    );
    assert_eq!(
        Gate::new_cnot().matrix.rows,
        whole(vec![vec![1, 0, 0, 0], vec![0, 1, 0, 0], vec![0, 0, 0, 1], vec![0, 0, 1, 0]])
    );
    let custom = Gate::new_custom(Matrix::new(whole(vec![vec![4]])));
    assert_eq!(custom.matrix.rows, whole(vec![vec![4]]));
}

#[test]
fn controlled_not_of_two_qubits_is_the_fixed_matrix() {
    let gate: Gate = Gate::new_multi_cnot(0, 1, 2);
    assert_eq!(gate.matrix.rows, Gate::new_cnot().matrix.rows);
}

#[test]
fn controlled_gate_agrees_with_controlled_not() {
    let gate1: Gate = Gate::new_multi_controlled(0, 2, 3, Gate::new_not());
    let gate2: Gate = Gate::new_multi_cnot(0, 2, 3);
    assert_eq!(gate1.matrix.rows, gate2.matrix.rows);
    // rows 4 to 7, where the first qubit is 1, swap in pairs
    let mut expected = vec![vec![0i64; 8]; 8];
    for (row, column) in [(0, 0), (1, 1), (2, 2), (3, 3), (4, 5), (5, 4), (6, 7), (7, 6)] {
        expected[row][column] = 1;
    }
    assert_eq!(gate1.matrix.rows, whole(expected));
}

#[test]
fn controlled_gate_with_the_target_first() {
    // control 1, target 0: |01> and |11> swap, |00> and |10> stay
    let gate: Gate = Gate::new_multi_controlled(1, 0, 2, Gate::new_not());
    assert_eq!(
        gate.matrix.rows,
        whole(vec![vec![1, 0, 0, 0], vec![0, 0, 0, 1], vec![0, 0, 1, 0], vec![0, 1, 0, 0]])
    );
}

#[test]
fn controlled_gate_on_fewer_than_two_qubits_acts_on_one() {
    // with the control at 0 and no other qubit the two projectors add up
    let gate: Gate = Gate::new_multi_controlled(0, 1, 1, Gate::new_not());
    assert_eq!(gate.matrix.rows, whole(vec![vec![1, 0], vec![0, 1]]));
    let gate: Gate = Gate::new_multi_controlled(0, 1, -4, Gate::new_not());
    assert_eq!(gate.matrix.rows, whole(vec![vec![1, 0], vec![0, 1]]));
    // with the target at 0 and no control among the qubits: identity plus gate
    let gate: Gate = Gate::new_multi_controlled(5, 0, 1, Gate::new_not());
    assert_eq!(gate.matrix.rows, whole(vec![vec![1, 1], vec![1, 1]]));
}

#[test]
fn single_qubit_gate_is_embedded_at_its_target() {
    let first = Gate::multi_single_qubit_gate(0, 2, Gate::new_not()).unwrap();
    assert_eq!(
        first.matrix.rows,
        whole(vec![vec![0, 0, 1, 0], vec![0, 0, 0, 1], vec![1, 0, 0, 0], vec![0, 1, 0, 0]])
    );
    let second = Gate::multi_single_qubit_gate(1, 2, Gate::new_not()).unwrap();
    assert_eq!(
        second.matrix.rows,
        whole(vec![vec![0, 1, 0, 0], vec![1, 0, 0, 0], vec![0, 0, 0, 1], vec![0, 0, 1, 0]])
    );
    let none = Gate::multi_single_qubit_gate(7, 2, Gate::new_not()).unwrap();
    assert_eq!(none.matrix.rows, Matrix::new_identity(4).rows);
}

#[test]
fn single_qubit_embedding_rejects_other_sizes() {
    let large = Gate::multi_single_qubit_gate(0, 3, Gate::new_cnot());
    assert_eq!(large.err(), Some(QuantumError::InvalidGateSize));
    let small = Gate::multi_single_qubit_gate(0, 3, Gate::new_custom(Matrix::new_identity(1)));
    assert_eq!(small.err(), Some(QuantumError::InvalidGateSize));
    let ragged = Gate::new_custom(Matrix::new(whole(vec![vec![1, 0], vec![0]])));
    assert_eq!(
        Gate::multi_single_qubit_gate(0, 3, ragged).err(),
        Some(QuantumError::InvalidGateSize)
    );
}

#[test]
fn hadamard_on_two_qubits() {
    let gate: Gate = Gate::new_multi_h(2, g(1, 0));
    assert_eq!(
        gate.matrix.rows,
        whole(vec![vec![1, 1, 1, 1], vec![1, -1, 1, -1], vec![1, 1, -1, -1], vec![1, -1, -1, 1]])
    );
    assert_eq!(Gate::new_multi_h(0, g(1, 0)).matrix.rows, whole(vec![vec![1, 1], vec![1, -1]]));
}

#[test]
fn fourier_transform_over_the_imaginary_unit() {
    let qft: Gate = Gate::new_qft(2, g(0, 1), g(1, 0));
    let expected = vec![
        vec![g(1, 0), g(1, 0), g(1, 0), g(1, 0)],
        vec![g(1, 0), g(0, 1), g(-1, 0), g(0, -1)],
        vec![g(1, 0), g(-1, 0), g(1, 0), g(-1, 0)],
        vec![g(1, 0), g(0, -1), g(-1, 0), g(0, 1)],
    ];
    assert_eq!(qft.matrix.rows, expected);
    let inverse: Gate = Gate::new_inverse_qft(2, g(0, 1), g(1, 0));
    let expected = vec![
        vec![g(1, 0), g(1, 0), g(1, 0), g(1, 0)],
        vec![g(1, 0), g(0, -1), g(-1, 0), g(0, 1)],
        vec![g(1, 0), g(-1, 0), g(1, 0), g(-1, 0)],
        vec![g(1, 0), g(0, 1), g(-1, 0), g(0, -1)],
    ];
    assert_eq!(inverse.matrix.rows, expected);
    let scaled: Gate = Gate::new_qft(1, g(-1, 0), g(3, 0));
    assert_eq!(scaled.matrix.rows, whole(vec![vec![3, 3], vec![3, -3]]));
    let trivial: Gate = Gate::new_qft(0, g(1, 0), g(1, 0));
    assert_eq!(trivial.matrix.rows, whole(vec![vec![1]]));
}

#[test]
fn inverse_fourier_transform_undoes_the_transform_up_to_the_size() {
    let qft: Gate = Gate::new_qft(2, g(0, 1), g(1, 0));
    let inverse: Gate = Gate::new_inverse_qft(2, g(0, 1), g(1, 0));
    for index in 0..4 {
        let mut register: QuantumRegister = QuantumRegister::new_from_int(index, 4);
        assert_eq!(qft.apply(&mut register), Ok(1));
        assert_eq!(inverse.apply(&mut register), Ok(1));
        let mut expected = vec![g(0, 0); 4];
        expected[index] = g(4, 0);
        assert_eq!(register.state, expected);
    }
}

#[test]
fn power_of_two_and_logarithm() {
    assert_eq!(power_of_two(0), 1);
    assert_eq!(power_of_two(5), 32);
    assert_eq!(floor_log2(0), 0);
    assert_eq!(floor_log2(1), 0);
    assert_eq!(floor_log2(2), 1);
    assert_eq!(floor_log2(7), 2);
    assert_eq!(floor_log2(8), 3);
}

#[test]
fn qubits_of_a_basis_state() {
    let one = amplitudes(&Qubit::new_one_state());
    let zero = amplitudes(&Qubit::new_zero_state());
    assert_eq!(zero, (g(1, 0), g(0, 0)));
    assert_eq!(one, (g(0, 0), g(1, 0)));
    let states = |j: i32, n: i32| -> Vec<(Gaussian, Gaussian)> {
        Qubit::get_qubits_from_state(j, n).iter().map(amplitudes).collect()
    };
    assert_eq!(states(5, 3), vec![one, zero, one]);
    assert_eq!(states(5, 2), vec![one, zero]);
    assert_eq!(states(6, 5), vec![zero, one, one, zero, zero]);
    assert_eq!(states(0, 2), vec![zero, zero]);
    assert_eq!(states(-3, 2), vec![zero, zero]);
    assert_eq!(states(5, 0), vec![]);
    assert_eq!(states(5, -1), vec![one, zero, one]);
    assert_eq!(states(0, -1), vec![]);
    assert_eq!(states(i32::MAX, -7).len(), 31);
}

#[test]
fn controlled_not_takes_one_zero_to_one_one() {
    let mut register: QuantumRegister = QuantumRegister::new(Qubit::new_one_state());
    register.add(Qubit::new_zero_state());
    assert_eq!(register.state, state_of(vec![0, 0, 1, 0]));
    assert_eq!(Gate::new_multi_cnot(0, 1, 2).apply(&mut register), Ok(1));
    assert_eq!(register.state, state_of(vec![0, 0, 0, 1]));
}

#[test]
fn add_multiplies_each_entry_by_both_amplitudes() {
    let mut register: QuantumRegister = QuantumRegister::new_from_vec(state_of(vec![2, 3]));
    register.add(Qubit::new_from_vec(vec![g(5, 0), g(0, 7)]));
    assert_eq!(register.state, vec![g(10, 0), g(0, 14), g(15, 0), g(0, 21)]);
}

#[test]
fn apply_multiplies_the_state_by_the_matrix() {
    let gate = Gate::new_custom(Matrix::new(vec![vec![g(1, 0), g(0, 1)], vec![g(2, 0), g(3, 0)]]));
    let mut register: QuantumRegister = QuantumRegister::new_from_vec(vec![g(1, 1), g(2, 0)]);
    assert_eq!(gate.apply(&mut register), Ok(1));
    assert_eq!(register.state, vec![g(1, 3), g(8, 2)]);
    let mut short: QuantumRegister = QuantumRegister::new_from_vec(state_of(vec![1]));
    assert_eq!(gate.apply(&mut short), Err(QuantumError::DimensionMismatch));
    assert_eq!(short.state, state_of(vec![1]));
    let ragged = Gate::new_custom(Matrix::new(whole(vec![vec![1, 0], vec![0]])));
    let mut register: QuantumRegister = QuantumRegister::new_from_vec(state_of(vec![1, 2]));
    assert_eq!(ragged.apply(&mut register), Err(QuantumError::DimensionMismatch));
    assert_eq!(register.state, state_of(vec![1, 2]));
}

#[test]
fn measurement_finds_the_first_crossing() {
    // the masses are 0, 4, 25 and 1: the running mass is 0, 4, 29, 30
    let state = vec![g(0, 0), g(0, 2), g(3, 4), g(1, 0)];
    let register: QuantumRegister = QuantumRegister::new_from_vec(state.clone());
    assert_eq!(register.peak(g(0, 0)), 0);
    assert_eq!(register.peak(g(1, 0)), 1);
    assert_eq!(register.peak(g(4, 0)), 1);
    assert_eq!(register.peak(g(5, 0)), 2);
    assert_eq!(register.peak(g(30, 0)), 3);
    assert_eq!(register.peak(g(31, 0)), -1);
    assert_eq!(register.state, state);

    let mut register: QuantumRegister = QuantumRegister::new_from_vec(state.clone());
    assert_eq!(register.measure(g(31, 0)), -1);
    assert_eq!(register.state, state);
    assert_eq!(register.measure(g(5, 0)), 2);
    assert_eq!(register.state, state_of(vec![0, 0, 1, 0]));
    assert_eq!(register.measure(g(1, 0)), 2);
    assert_eq!(register.state, state_of(vec![0, 0, 1, 0]));
    // a sample of 0 is reached before any mass is added
    assert_eq!(register.measure(g(0, 0)), 0);
    assert_eq!(register.state, state_of(vec![1, 0, 0, 0]));
}

#[test]
fn qubit_takes_the_first_two_amplitudes() {
    let qubit: Qubit = Qubit::new_from_vec(state_of(vec![2, 5, 9]));
    assert_eq!(amplitudes(&qubit), (g(2, 0), g(5, 0)));
}

#[test]
fn qubit_measurement_compares_the_first_mass() {
    let mut qubit: Qubit = Qubit::new_from_vec(state_of(vec![2, 5]));
    assert_eq!(qubit.measure(g(4, 0)), 0);
    assert_eq!(amplitudes(&qubit), (g(1, 0), g(0, 0)));
    let mut qubit: Qubit = Qubit::new_from_vec(state_of(vec![2, 5]));
    assert_eq!(qubit.measure(g(5, 0)), 1);
    assert_eq!(amplitudes(&qubit), (g(0, 0), g(1, 0)));
}

#[test]
fn marginal_amplitudes_split_the_state_in_halves() {
    // the masses are 1, 4, 9 and 16
    let register: QuantumRegister = QuantumRegister::new_from_vec(state_of(vec![1, 2, 3, 4]));
    let qubits: Vec<(Gaussian, Gaussian)> =
        register.get_qubit_norms().iter().map(amplitudes).collect();
    assert_eq!(qubits, vec![(g(5, 0), g(25, 0)), (g(10, 0), g(20, 0))]);
    let odd: QuantumRegister = QuantumRegister::new_from_vec(state_of(vec![1, 2, 3]));
    let qubits: Vec<(Gaussian, Gaussian)> = odd.get_qubit_norms().iter().map(amplitudes).collect();
    // three amplitudes hold one qubit, and blocks of one entry alternate
    assert_eq!(qubits, vec![(g(10, 0), g(4, 0))]);
    let single: QuantumRegister = QuantumRegister::new_from_vec(state_of(vec![1]));
    assert_eq!(single.get_qubit_norms().len(), 0);
    let none: QuantumRegister = QuantumRegister::new_from_vec(vec![]);
    assert_eq!(none.get_qubit_norms().len(), 0);
}

#[test]
fn register_constructors() {
    let register: QuantumRegister = QuantumRegister::new_from_int(1, 3);
    assert_eq!(register.state, state_of(vec![0, 1, 0]));
    let register: QuantumRegister = QuantumRegister::new_empty(3);
    assert_eq!(register.state, state_of(vec![1, 1, 1]));
    let mut register: QuantumRegister = QuantumRegister::new_from_unit_vec(state_of(vec![4, 5]));
    assert_eq!(register.clone().state, state_of(vec![4, 5]));
    register.change_state(state_of(vec![6]));
    assert_eq!(register.state, state_of(vec![6]));
}

#[test]
fn circuit_runs_its_gates_in_order() {
    let mut circuit: QuantumCircuit = QuantumCircuit::new(Gate::new_multi_cnot(0, 1, 2), 2);
    circuit
        .add_gate(Gate::new_not())
        .add_gate(Gate::multi_single_qubit_gate(0, 2, Gate::new_not()).unwrap());
    let mut register: QuantumRegister = QuantumRegister::new_from_int(2, 4);
    let report = circuit.run(&mut register);
    assert_eq!(report, vec![Ok(1), Err(QuantumError::DimensionMismatch), Ok(1)]);
    // |10> goes to |11> and on to |01>
    assert_eq!(register.state, state_of(vec![0, 1, 0, 0]));

    let mut register: QuantumRegister = QuantumRegister::new_from_int(2, 4);
    let (snapshots, report) = circuit.run_with_tracking(&mut register);
    assert_eq!(report, vec![Ok(1), Err(QuantumError::DimensionMismatch), Ok(1)]);
    assert_eq!(register.state, state_of(vec![0, 1, 0, 0]));
    let seen: Vec<Vec<(Gaussian, Gaussian)>> =
        snapshots.iter().map(|qubits| qubits.iter().map(amplitudes).collect()).collect();
    let zero = (g(1, 0), g(0, 0));
    let one = (g(0, 0), g(1, 0));
    assert_eq!(seen, vec![vec![one, zero], vec![one, one], vec![one, one]]);
}

#[test]
fn order_finding_puts_hadamard_gates_on_the_first_half() {
    let circuit: QuantumCircuit = QuantumCircuit::order_finding(2, g(1, 0));
    let mut register: QuantumRegister = QuantumRegister::new_from_int(1, 4);
    assert_eq!(circuit.run(&mut register), vec![Ok(1)]);
    assert_eq!(register.state, state_of(vec![0, 1, 0, 1]));
}
