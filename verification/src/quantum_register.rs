//! The register: the joint state of the qubits composed so far.

use crate::amplitude::{unit, Amplitude};
use crate::matrix::filled;
use crate::qubit::Qubit;
use vstd::arithmetic::power2::pow2;
use vstd::prelude::*;

verus! {

/// The state `state` composed with one more qubit whose two amplitudes are
/// `qubit`, before it is rescaled: entry `i` is `state[i / 2] * qubit[i % 2]`.
pub open spec fn grown<T: Amplitude>(state: Seq<T>, qubit: Seq<T>) -> Seq<T> {
    Seq::new(2 * state.len(), |i: int| state[i / 2].spec_product(qubit[i % 2]))
}

/// The mass that the first `n` entries of `state` add up to: their
/// magnitudes, added onto 0 by rising index.
pub open spec fn mass<T: Amplitude>(state: Seq<T>, n: nat) -> T
    decreases n,
{
    if n == 0 {
        T::spec_zero()
    } else {
        mass(state, (n - 1) as nat).spec_sum(state[n - 1].spec_magnitude())
    }
}

/// Whether the running mass has reached `sample` once entry `i` is added.
pub open spec fn crossed<T: Amplitude>(state: Seq<T>, sample: T, i: int) -> bool {
    mass(state, (i + 1) as nat).spec_at_least(sample)
}

/// Whether `outcome` is what a measurement of `state` against `sample`
/// gives: the first index at which the running mass reaches the sample, or
/// -1 where it never does.
pub open spec fn is_outcome<T: Amplitude>(state: Seq<T>, sample: T, outcome: int) -> bool {
    &&& -1 <= outcome < state.len()
    &&& outcome >= 0 ==> crossed(state, sample, outcome)
    &&& forall|i: int|
        0 <= i < state.len() && (i < outcome || outcome == -1) ==> !#[trigger] crossed(
            state,
            sample,
            i,
        )
}

/// The state that a measurement with the result `outcome` leaves behind.
pub open spec fn collapsed<T: Amplitude>(state: Seq<T>, outcome: int) -> Seq<T> {
    if outcome >= 0 {
        crate::amplitude::normalized(crate::amplitude::basis(state.len(), outcome))
    } else {
        state
    }
}

/// The mass of the first `n` entries of `state` that lie in one half of
/// their block: entry `j` counts where `(j / divider) % 2` is 1 if `upper`,
/// and where it is 0 if not.
pub open spec fn branch_mass<T: Amplitude>(
    state: Seq<T>,
    divider: int,
    upper: bool,
    n: nat,
) -> T
    decreases n,
{
    if n == 0 {
        T::spec_zero()
    } else {
        let before = branch_mass(state, divider, upper, (n - 1) as nat);
        if (((n - 1) / divider) % 2 == 1) == upper {
            before.spec_sum(state[n - 1].spec_magnitude())
        } else {
            before
        }
    }
}

/// The logarithm of `n` to the base 2, rounded down; 0 for `n` below 2.
pub open spec fn log2_floor(n: nat) -> nat
    decreases n,
{
    if n <= 1 {
        0
    } else {
        1 + log2_floor(n / 2)
    }
}

/// The marginal amplitudes of qubit `q` in `state`, where qubit 0 splits the
/// state into halves, qubit 1 into quarters, and so on: the mass of the
/// lower half of each block and that of the upper half, rescaled.
pub open spec fn marginal<T: Amplitude>(state: Seq<T>, q: nat) -> Qubit<T> {
    let divider = state.len() as int / (pow2(q + 1) as int);
    Qubit::of(
        crate::amplitude::normalized(
            seq![
                branch_mass(state, divider, false, state.len()),
                branch_mass(state, divider, true, state.len()),
            ],
        ),
    )
}

/// A register of qubits. Its state has one amplitude for each basis state.
#[derive(Debug)]
pub struct QuantumRegister<T: Amplitude> {
    pub state: Vec<T>,
}

impl<T: Amplitude> View for QuantumRegister<T> {
    type V = Seq<T>;

    open spec fn view(&self) -> Seq<T> {
        self.state@
    }
}

/// The logarithm of `n` to the base 2, rounded down.
pub fn floor_log2(n: usize) -> (log: usize)
    ensures
        log == log2_floor(n as nat),
{
    let mut log: usize = 0;
    let mut rest: usize = n;
    while rest > 1
        invariant
            log + rest <= n || n == 0,
            n == 0 ==> rest == 0 && log == 0,
            log2_floor(n as nat) == log + log2_floor(rest as nat),
        decreases rest,
    {
        rest = rest / 2;
        log += 1;
    }
    log
}

/// Two to the power of the logarithm of `n` is at most `n`.
pub proof fn lemma_log2_floor_bound(n: nat)
    requires
        n >= 1,
    ensures
        pow2(log2_floor(n)) <= n,
    decreases n,
{
    vstd::arithmetic::power2::lemma2_to64();
    if n > 1 {
        lemma_log2_floor_bound(n / 2);
        vstd::arithmetic::power2::lemma_pow2_unfold(log2_floor(n));
    }
}

impl<T: Amplitude> QuantumRegister<T> {
    /// Whether the state is a rescaled vector, as every state is that a
    /// function of the register has set.
    pub open spec fn is_unit(&self) -> bool {
        crate::amplitude::is_unit(self@)
    }

    /// The register of one qubit.
    pub fn new(qubit: Qubit<T>) -> (register: Self)
        ensures
            register@ == crate::amplitude::normalized(qubit.amplitudes()),
            register@.len() == 2,
            register.is_unit(),
    {
        let mut pair: Vec<T> = Vec::new();
        pair.push(qubit.state.x);
        pair.push(qubit.state.y);
        assert(pair@ =~= qubit.amplitudes());
        QuantumRegister { state: unit(pair) }
    }

    /// The register of `size` amplitudes in the basis state `index`.
    pub fn new_from_int(index: usize, size: usize) -> (register: Self)
        requires
            index < size,
        ensures
            register@ == crate::amplitude::normalized(
                crate::amplitude::basis::<T>(size as nat, index as int),
            ),
            register@.len() == size,
            register.is_unit(),
    {
        let mut state = filled(T::zero(), size);
        state[index] = T::one();
        assert(state@ =~= crate::amplitude::basis::<T>(size as nat, index as int));
        QuantumRegister { state: unit(state) }
    }

    /// The register whose state is `vec`, rescaled.
    pub fn new_from_vec(vec: Vec<T>) -> (register: Self)
        ensures
            register@ == crate::amplitude::normalized(vec@),
            register@.len() == vec@.len(),
            register.is_unit(),
    {
        QuantumRegister { state: unit(vec) }
    }

    /// The register whose state is `vec`, which is rescaled already.
    pub fn new_from_unit_vec(vec: Vec<T>) -> (register: Self)
        requires
            crate::amplitude::is_unit(vec@),
        ensures
            register.state == vec,
            register.is_unit(),
    {
        QuantumRegister { state: vec }
    }

    /// Composes one more qubit into the state, which doubles in length:
    /// entry `i` of the new state is entry `i / 2` of the old one times the
    /// amplitude `i % 2` of the qubit. The new state is rescaled.
    pub fn add(&mut self, qubit: Qubit<T>)
        requires
            2 * old(self)@.len() <= usize::MAX,
        ensures
            final(self)@ == crate::amplitude::normalized(grown(old(self)@, qubit.amplitudes())),
            final(self)@.len() == 2 * old(self)@.len(),
            final(self).is_unit(),
    {
        let ghost before = self@;
        let len = self.state.len() * 2;
        let mut new_vec: Vec<T> = Vec::new();
        let mut i: usize = 0;
        while i < len
            invariant
                i <= len,
                len == 2 * before.len(),
                self@ == before,
                new_vec@.len() == i,
                forall|a: int|
                    0 <= a < i ==> #[trigger] new_vec@[a] == before[a / 2].spec_product(
                        qubit.amplitudes()[a % 2],
                    ),
            decreases len - i,
        {
            let factor = if i % 2 == 0 {
                qubit.state.x
            } else {
                qubit.state.y
            };
            new_vec.push(self.state[i / 2].product(factor));
            i += 1;
        }
        assert(new_vec@ =~= grown(before, qubit.amplitudes()));
        self.state = unit(new_vec);
    }

    /// Measures the register against `sample`, a mass drawn evenly from 0 up
    /// to 1. The result is the first basis state at which the running mass of
    /// the amplitudes reaches the sample, and the state collapses to that
    /// basis state. Where the mass never reaches the sample the result is -1
    /// and the state stays. The mass of an amplitude is what
    /// `Amplitude::magnitude` gives. With the magnitude itself as the mass,
    /// and not its square, the masses of a state add up to more than 1 in
    /// general; the sums are taken as they are.
    pub fn measure(&mut self, sample: T) -> (outcome: i32)
        requires
            old(self)@.len() <= i32::MAX,
        ensures
            is_outcome(old(self)@, sample, outcome as int),
            final(self)@ == collapsed(old(self)@, outcome as int),
            final(self)@.len() == old(self)@.len(),
            outcome >= 0 ==> final(self).is_unit(),
    {
        let outcome = self.peak(sample);
        if outcome >= 0 {
            let len = self.state.len();
            let mut new_state = filled(T::zero(), len);
            new_state[outcome as usize] = T::one();
            assert(new_state@ =~= crate::amplitude::basis::<T>(len as nat, outcome as int));
            self.change_state(new_state);
        }
        outcome
    }

    /// What a measurement against `sample` would give, with the state left
    /// as it is.
    pub fn peak(&self, sample: T) -> (outcome: i32)
        requires
            self@.len() <= i32::MAX,
        ensures
            is_outcome(self@, sample, outcome as int),
    {
        let mut current_probability = T::zero();
        let mut i: usize = 0;
        while i < self.state.len()
            invariant
                i <= self@.len(),
                self@.len() <= i32::MAX,
                current_probability == mass(self@, i as nat),
                forall|a: int| 0 <= a < i ==> !#[trigger] crossed(self@, sample, a),
            decreases self@.len() - i,
        {
            current_probability = current_probability.sum(self.state[i].magnitude());
            if current_probability.at_least(sample) {
                return i as i32;
            }
            i += 1;
        }
        -1
    }

    /// For each qubit its marginal amplitudes: qubit 0 is the one composed
    /// first. A state of `n` amplitudes holds as many qubits as the logarithm
    /// of `n` to the base 2, rounded down.
    pub fn get_qubit_norms(&self) -> (qubits: Vec<Qubit<T>>)
        ensures
            qubits@.len() == log2_floor(self@.len()),
            forall|q: int| 0 <= q < qubits@.len() ==> #[trigger] qubits@[q] == marginal(self@, q as nat),
    {
        let len = self.state.len();
        let count = floor_log2(len);
        let mut vec: Vec<Qubit<T>> = Vec::new();
        let mut divider: usize = len;
        let mut q: usize = 0;
        proof {
            vstd::arithmetic::power2::lemma2_to64();
        }
        while q < count
            invariant
                q <= count,
                len == self@.len(),
                count == log2_floor(len as nat),
                divider == len as int / (pow2(q as nat) as int),
                vec@.len() == q,
                forall|a: int| 0 <= a < q ==> #[trigger] vec@[a] == marginal(self@, a as nat),
            decreases count - q,
        {
            proof {
                assert(len >= 1);
                crate::qubit::lemma_next_digit(len as int, q as nat);
                lemma_log2_floor_bound(len as nat);
                vstd::arithmetic::power2::lemma_pow2_pos((q + 1) as nat);
                if q + 1 < count {
                    vstd::arithmetic::power2::lemma_pow2_strictly_increases(
                        (q + 1) as nat,
                        count as nat,
                    );
                }
                vstd::arithmetic::div_mod::lemma_div_non_zero(len as int, pow2((q + 1) as nat) as int);
            }
            divider = divider / 2;
            let mut x1 = T::zero();
            let mut x2 = T::zero();
            let mut j: usize = 0;
            while j < len
                invariant
                    j <= len,
                    len == self@.len(),
                    divider > 0,
                    x1 == branch_mass(self@, divider as int, false, j as nat),
                    x2 == branch_mass(self@, divider as int, true, j as nat),
                decreases len - j,
            {
                if (j / divider) % 2 == 0 {
                    x1 = x1.sum(self.state[j].magnitude());
                } else {
                    x2 = x2.sum(self.state[j].magnitude());
                }
                j += 1;
            }
            let mut pair: Vec<T> = Vec::new();
            pair.push(x1);
            pair.push(x2);
            assert(pair@.take(2) =~= seq![x1, x2]);
            vec.push(Qubit::new_from_vec(pair));
            q += 1;
        }
        vec
    }

    /// The register of `size` amplitudes that are all equal.
    pub fn new_empty(size: usize) -> (register: Self)
        ensures
            register@ == crate::amplitude::normalized(
                crate::matrix::constant_row(size as nat, T::spec_one()),
            ),
            register@.len() == size,
            register.is_unit(),
    {
        QuantumRegister { state: unit(filled(T::one(), size)) }
    }

    /// Replaces the state by `new_state`, rescaled.
    pub fn change_state(&mut self, new_state: Vec<T>)
        ensures
            final(self)@ == crate::amplitude::normalized(new_state@),
            final(self)@.len() == new_state@.len(),
            final(self).is_unit(),
    {
        self.state = unit(new_state);
    }

    /// A register in the same state.
    pub fn clone(&self) -> (copy: QuantumRegister<T>)
        ensures
            copy@ == self@,
    {
        let mut state: Vec<T> = Vec::new();
        let mut i: usize = 0;
        while i < self.state.len()
            invariant
                i <= self@.len(),
                state@.len() == i,
                forall|a: int| 0 <= a < i ==> #[trigger] state@[a] == self@[a],
            decreases self@.len() - i,
        {
            state.push(self.state[i]);
            i += 1;
        }
        QuantumRegister { state }
    }
}

/// Whether the masses of the amplitudes 0 and 1 behave as numbers do: the
/// mass of 0 is 0, that of 1 is 1, and adding either onto 0 gives it back.
pub open spec fn plain_masses<T: Amplitude>() -> bool {
    &&& T::spec_zero().spec_magnitude() == T::spec_zero()
    &&& T::spec_one().spec_magnitude() == T::spec_one()
    &&& T::spec_zero().spec_sum(T::spec_zero()) == T::spec_zero()
    &&& T::spec_zero().spec_sum(T::spec_one()) == T::spec_one()
}

/// Whether `sample` lies above the mass 0 and not above the mass 1.
pub open spec fn within_unit<T: Amplitude>(sample: T) -> bool {
    !T::spec_zero().spec_at_least(sample) && T::spec_one().spec_at_least(sample)
}

/// The running mass of a basis state is 0 up to its index and 1 from there
/// up to the next entry.
pub proof fn lemma_basis_mass<T: Amplitude>(len: nat, index: int, n: nat)
    requires
        plain_masses::<T>(),
        0 <= index < len,
        n <= index + 1,
    ensures
        mass(crate::amplitude::basis::<T>(len, index), n) == (if n <= index {
            T::spec_zero()
        } else {
            T::spec_one()
        }),
    decreases n,
{
    if n > 0 {
        lemma_basis_mass::<T>(len, index, (n - 1) as nat);
    }
}

/// A register that a measurement has collapsed gives the same result again,
/// and stays as it is, whenever it is measured against a sample above 0 and
/// not above 1: where `first` is a state after a measurement with the result
/// `index`, every measurement of `first` gives `index` and leaves `first`.
pub proof fn lemma_collapsed_state_is_measured_again<T: Amplitude>(
    state: Seq<T>,
    index: int,
    first: Seq<T>,
    sample: T,
    outcome: int,
)
    requires
        plain_masses::<T>(),
        within_unit(sample),
        crate::amplitude::normalized(crate::amplitude::basis::<T>(state.len(), index))
            == crate::amplitude::basis::<T>(state.len(), index),
        0 <= index < state.len(),
        first == collapsed(state, index),
        is_outcome(first, sample, outcome),
    ensures
        outcome == index,
        collapsed(first, outcome) == first,
{
    let len = state.len();
    lemma_basis_mass::<T>(len, index, (index + 1) as nat);
    assert(crossed(first, sample, index));
    if 0 <= outcome < index {
        lemma_basis_mass::<T>(len, index, (outcome + 1) as nat);
    }
}

} // verus!
