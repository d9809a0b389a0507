//! One qubit: a pair of amplitudes.

use crate::amplitude::{unit, Amplitude};
use vstd::arithmetic::power2::pow2;
use vstd::prelude::*;

verus! {

/// The two amplitudes of a qubit: `x` for the state 0 and `y` for the
/// state 1.
#[derive(Debug)]
pub struct UnitPair<T: Amplitude> {
    pub x: T,
    pub y: T,
}

/// A qubit in a superposition of its two basis states.
#[derive(Debug)]
pub struct Qubit<T: Amplitude> {
    pub state: UnitPair<T>,
}

/// Whether the binary digit of weight `2^i` is set in a positive `j`. No
/// digit is set in a `j` that is zero or negative.
pub open spec fn digit_set(j: int, i: nat) -> bool {
    j > 0 && (j / (pow2(i) as int)) % 2 == 1
}

/// The number of binary digits of `j`, which is 0 for a `j` that is zero or
/// negative.
pub open spec fn digits(j: int) -> nat
    decreases j,
{
    if j <= 0 {
        0
    } else {
        1 + digits(j / 2)
    }
}

impl<T: Amplitude> Qubit<T> {
    /// The qubit whose amplitudes are the first two entries of `s`.
    pub open spec fn of(s: Seq<T>) -> Qubit<T> {
        Qubit { state: UnitPair { x: s[0], y: s[1] } }
    }

    /// The amplitudes as a sequence of two.
    pub open spec fn amplitudes(&self) -> Seq<T> {
        seq![self.state.x, self.state.y]
    }

    /// The qubit in the basis state 0.
    pub open spec fn spec_zero_state() -> Qubit<T> {
        Self::of(crate::amplitude::normalized(seq![T::spec_one(), T::spec_zero()]))
    }

    /// The qubit in the basis state 1.
    pub open spec fn spec_one_state() -> Qubit<T> {
        Self::of(crate::amplitude::normalized(seq![T::spec_zero(), T::spec_one()]))
    }

    /// The qubit in the basis state 0.
    pub fn new_zero_state() -> (q: Self)
        ensures
            q == Self::spec_zero_state(),
    {
        let mut pair: Vec<T> = Vec::new();
        pair.push(T::one());
        pair.push(T::zero());
        assert(pair@.take(2) =~= seq![T::spec_one(), T::spec_zero()]);
        Self::new_from_vec(pair)
    }

    /// The qubit in the basis state 1.
    pub fn new_one_state() -> (q: Self)
        ensures
            q == Self::spec_one_state(),
    {
        let mut pair: Vec<T> = Vec::new();
        pair.push(T::zero());
        pair.push(T::one());
        assert(pair@.take(2) =~= seq![T::spec_zero(), T::spec_one()]);
        Self::new_from_vec(pair)
    }

    /// The qubit whose two amplitudes are the first two entries of `vec`,
    /// rescaled. Further entries are left aside.
    pub fn new_from_vec(vec: Vec<T>) -> (q: Self)
        requires
            vec@.len() >= 2,
        ensures
            q == Self::of(crate::amplitude::normalized(vec@.take(2))),
    {
        let mut pair: Vec<T> = Vec::new();
        pair.push(vec[0]);
        pair.push(vec[1]);
        assert(pair@ =~= vec@.take(2));
        let scaled = unit(pair);
        Qubit { state: UnitPair { x: scaled[0], y: scaled[1] } }
    }

    /// The qubits of the basis state `j` of `num_qubits` qubits, the one of
    /// the lowest binary digit first: qubit `i` is in the state 1 where the
    /// digit of weight `2^i` is set in `j`, and in the state 0 otherwise.
    /// For a negative `num_qubits` the result has one qubit for each binary
    /// digit of `j`.
    pub fn get_qubits_from_state(j: i32, num_qubits: i32) -> (qubits: Vec<Qubit<T>>)
        ensures
            num_qubits >= 0 ==> qubits@.len() == num_qubits,
            num_qubits < 0 ==> qubits@.len() == digits(j as int),
            forall|i: int|
                0 <= i < qubits@.len() ==> #[trigger] qubits@[i] == (if digit_set(
                    j as int,
                    i as nat,
                ) {
                    Self::spec_one_state()
                } else {
                    Self::spec_zero_state()
                }),
    {
        let mut vec: Vec<Qubit<T>> = Vec::new();
        let mut rest: i32 = j;
        proof {
            vstd::arithmetic::power2::lemma2_to64();
        }
        while rest > 0 && (num_qubits < 0 || vec.len() < num_qubits as usize)
            invariant
                0 <= vec@.len() <= 31,
                num_qubits >= 0 ==> vec@.len() <= num_qubits,
                j <= 0 ==> rest == j && vec@.len() == 0,
                j > 0 ==> rest == j as int / (pow2(vec@.len()) as int),
                j > 0 ==> digits(j as int) == vec@.len() + digits(rest as int),
                forall|i: int|
                    0 <= i < vec@.len() ==> #[trigger] vec@[i] == (if digit_set(
                        j as int,
                        i as nat,
                    ) {
                        Self::spec_one_state()
                    } else {
                        Self::spec_zero_state()
                    }),
            decreases rest,
        {
            let cur = rest & 1;
            assert(cur == rest % 2 && rest >> 1 == rest / 2) by (bit_vector)
                requires
                    rest > 0,
                    cur == rest & 1,
            ;
            proof {
                let n = vec@.len();
                lemma_next_digit(j as int, n);
                if n >= 31 {
                    vstd::arithmetic::power2::lemma2_to64();
                    if n > 31 {
                        vstd::arithmetic::power2::lemma_pow2_strictly_increases(31, n);
                    }
                    vstd::arithmetic::div_mod::lemma_basic_div(j as int, pow2(n) as int);
                    assert(false);
                }
            }
            if cur == 1 {
                vec.push(Qubit::new_one_state());
            } else {
                vec.push(Qubit::new_zero_state());
            }
            rest = rest >> 1;
        }
        while num_qubits >= 0 && vec.len() < num_qubits as usize
            invariant
                num_qubits >= 0 ==> vec@.len() <= num_qubits,
                num_qubits < 0 ==> vec@.len() == digits(j as int),
                j > 0 && num_qubits >= 0 && vec@.len() < num_qubits ==> j as int / (pow2(
                    vec@.len(),
                ) as int) == 0,
                forall|i: int|
                    0 <= i < vec@.len() ==> #[trigger] vec@[i] == (if digit_set(
                        j as int,
                        i as nat,
                    ) {
                        Self::spec_one_state()
                    } else {
                        Self::spec_zero_state()
                    }),
            decreases num_qubits - vec@.len(),
        {
            proof {
                if j > 0 {
                    lemma_next_digit(j as int, vec@.len());
                }
            }
            vec.push(Qubit::new_zero_state());
        }
        vec
    }

    /// Measures the qubit against `sample`, a mass drawn evenly from 0 up to
    /// 1: where the mass of the amplitude of the state 0 has reached the
    /// sample, the qubit collapses to the state 0 and the result is 0;
    /// otherwise it collapses to the state 1 and the result is 1.
    pub fn measure(&mut self, sample: T) -> (outcome: i32)
        ensures
            old(self).state.x.spec_magnitude().spec_at_least(sample) ==> outcome == 0
                && *final(self) == Self::spec_zero_state(),
            !old(self).state.x.spec_magnitude().spec_at_least(sample) ==> outcome == 1
                && *final(self) == Self::spec_one_state(),
    {
        if self.state.x.magnitude().at_least(sample) {
            *self = Self::new_zero_state();
            0
        } else {
            *self = Self::new_one_state();
            1
        }
    }
}

/// The quotient of `j` by `2^(n + 1)` is half its quotient by `2^n`.
pub proof fn lemma_next_digit(j: int, n: nat)
    requires
        j > 0,
    ensures
        j / (pow2(n + 1) as int) == (j / (pow2(n) as int)) / 2,
        pow2(n) > 0,
{
    vstd::arithmetic::power2::lemma_pow2_pos(n);
    vstd::arithmetic::power2::lemma_pow2_unfold(n + 1);
    vstd::arithmetic::div_mod::lemma_div_denominator(j, pow2(n) as int, 2);
}

} // verus!
