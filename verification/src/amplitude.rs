//! The arithmetic that a matrix, a gate and a register need of their entries.
//!
//! Every entry of a matrix and of a state vector is an amplitude. The library
//! is written once for any type that offers the operations below; what it
//! proves of a result is stated over the operations' specifications.

use vstd::prelude::*;

verus! {

/// A complex probability amplitude.
///
/// Each executable operation comes with a specification of the same name
/// behind `spec_`, and returns exactly what that specification says. An
/// implementation for a type outside this crate gives each specification the
/// body of the operation it stands for.
pub trait Amplitude: Copy + Sized {
    /// The amplitude 0.
    spec fn spec_zero() -> Self;

    /// The amplitude 1.
    spec fn spec_one() -> Self;

    /// The imaginary unit.
    spec fn spec_imaginary() -> Self;

    /// `self + other`.
    spec fn spec_sum(self, other: Self) -> Self;

    /// `self * other`.
    spec fn spec_product(self, other: Self) -> Self;

    /// `-self`.
    spec fn spec_negated(self) -> Self;

    /// The complex conjugate of `self`.
    spec fn spec_conjugate(self) -> Self;

    /// The mass that `self` adds to a running total when a state is measured,
    /// as an amplitude without imaginary part.
    spec fn spec_magnitude(self) -> Self;

    /// Whether the mass `self` has reached the mass `other`.
    spec fn spec_at_least(self, other: Self) -> bool;

    /// The vector `v` rescaled to the length that a state vector is kept at.
    spec fn spec_normalized(v: Vec<Self>) -> Vec<Self>;

    fn zero() -> (r: Self)
        ensures
            r == Self::spec_zero(),
    ;

    fn one() -> (r: Self)
        ensures
            r == Self::spec_one(),
    ;

    fn imaginary() -> (r: Self)
        ensures
            r == Self::spec_imaginary(),
    ;

    fn sum(self, other: Self) -> (r: Self)
        ensures
            r == self.spec_sum(other),
    ;

    fn product(self, other: Self) -> (r: Self)
        ensures
            r == self.spec_product(other),
    ;

    fn negated(self) -> (r: Self)
        ensures
            r == self.spec_negated(),
    ;

    fn conjugate(self) -> (r: Self)
        ensures
            r == self.spec_conjugate(),
    ;

    fn magnitude(self) -> (r: Self)
        ensures
            r == self.spec_magnitude(),
    ;

    fn at_least(self, other: Self) -> (r: bool)
        ensures
            r == self.spec_at_least(other),
    ;

    /// Rescales a vector. The result depends on the entries of `v` alone and
    /// has as many entries as `v`.
    fn normalize(v: Vec<Self>) -> (r: Vec<Self>)
        ensures
            r@.len() == v@.len(),
            forall|w: Vec<Self>| w@ == v@ ==> r@ == #[trigger] Self::spec_normalized(w)@,
    ;
}

/// The rescaling of a sequence of amplitudes: what `Amplitude::normalize`
/// returns for a vector that holds `s`. A sequence that no vector can hold
/// is its own rescaling.
pub open spec fn normalized<T: Amplitude>(s: Seq<T>) -> Seq<T> {
    if exists|v: Vec<T>| v@ == s {
        T::spec_normalized(choose|v: Vec<T>| v@ == s)@
    } else {
        s
    }
}

/// Whether `s` is a vector as a register keeps it: the rescaling of some
/// vector.
pub open spec fn is_unit<T: Amplitude>(s: Seq<T>) -> bool {
    exists|raw: Seq<T>| s == #[trigger] normalized(raw)
}

/// `base` multiplied `n` times onto 1, from the left to the right.
pub open spec fn power<T: Amplitude>(base: T, n: nat) -> T
    decreases n,
{
    if n == 0 {
        T::spec_one()
    } else {
        power(base, (n - 1) as nat).spec_product(base)
    }
}

/// The sum of `a[0] * b[0]`, ..., `a[n - 1] * b[n - 1]`, added onto 0 in this
/// order.
pub open spec fn inner<T: Amplitude>(a: Seq<T>, b: Seq<T>, n: nat) -> T
    decreases n,
{
    if n == 0 {
        T::spec_zero()
    } else {
        inner(a, b, (n - 1) as nat).spec_sum(a[n - 1].spec_product(b[n - 1]))
    }
}

/// The basis vector of `len` entries whose entry `index` is 1.
pub open spec fn basis<T: Amplitude>(len: nat, index: int) -> Seq<T> {
    Seq::new(
        len,
        |i: int|
            if i == index {
                T::spec_one()
            } else {
                T::spec_zero()
            },
    )
}

/// Rescales `v` to a state vector.
pub fn unit<T: Amplitude>(v: Vec<T>) -> (r: Vec<T>)
    ensures
        r@ == normalized(v@),
        r@.len() == v@.len(),
        is_unit(r@),
{
    let ghost contents = v@;
    let r = T::normalize(v);
    proof {
        let w = choose|w: Vec<T>| w@ == contents;
    }
    r
}

} // verus!
