//! Exact amplitudes: Gaussian integers.

use crate::amplitude::Amplitude;
use vstd::prelude::*;

verus! {

/// The Gaussian integer `re + im * i`, with arithmetic modulo 2^64 in each
/// part.
///
/// Such amplitudes are exact for the gates whose entries are 0, 1, -1, i and
/// -i. A state over them is not rescaled: a vector stands for its ray. The
/// mass of an amplitude is its squared modulus, which is the only modulus
/// that stays an integer.
#[derive(Clone, Copy, Debug, PartialEq, Eq, Structural)]
pub struct Gaussian {
    pub re: i64,
    pub im: i64,
}

impl Gaussian {
    /// The Gaussian integer `re + im * i`.
    pub fn new(re: i64, im: i64) -> (r: Self)
        ensures
            r == (Gaussian { re, im }),
    {
        Gaussian { re, im }
    }
}

impl Amplitude for Gaussian {
    open spec fn spec_zero() -> Self {
        Gaussian { re: 0, im: 0 }
    }

    open spec fn spec_one() -> Self {
        Gaussian { re: 1, im: 0 }
    }

    open spec fn spec_imaginary() -> Self {
        Gaussian { re: 0, im: 1 }
    }

    open spec fn spec_sum(self, other: Self) -> Self {
        Gaussian { re: self.re.wrapping_add(other.re), im: self.im.wrapping_add(other.im) }
    }

    open spec fn spec_product(self, other: Self) -> Self {
        Gaussian {
            re: self.re.wrapping_mul(other.re).wrapping_sub(self.im.wrapping_mul(other.im)),
            im: self.re.wrapping_mul(other.im).wrapping_add(self.im.wrapping_mul(other.re)),
        }
    }

    open spec fn spec_negated(self) -> Self {
        Gaussian { re: 0i64.wrapping_sub(self.re), im: 0i64.wrapping_sub(self.im) }
    }

    open spec fn spec_conjugate(self) -> Self {
        Gaussian { re: self.re, im: 0i64.wrapping_sub(self.im) }
    }

    open spec fn spec_magnitude(self) -> Self {
        Gaussian {
            re: self.re.wrapping_mul(self.re).wrapping_add(self.im.wrapping_mul(self.im)),
            im: 0,
        }
    }

    open spec fn spec_at_least(self, other: Self) -> bool {
        self.re >= other.re
    }

    open spec fn spec_normalized(v: Vec<Self>) -> Vec<Self> {
        v
    }

    fn zero() -> (r: Self) {
        Gaussian { re: 0, im: 0 }
    }

    fn one() -> (r: Self) {
        Gaussian { re: 1, im: 0 }
    }

    fn imaginary() -> (r: Self) {
        Gaussian { re: 0, im: 1 }
    }

    fn sum(self, other: Self) -> (r: Self) {
        Gaussian { re: self.re.wrapping_add(other.re), im: self.im.wrapping_add(other.im) }
    }

    fn product(self, other: Self) -> (r: Self) {
        Gaussian {
            re: self.re.wrapping_mul(other.re).wrapping_sub(self.im.wrapping_mul(other.im)),
            im: self.re.wrapping_mul(other.im).wrapping_add(self.im.wrapping_mul(other.re)),
        }
    }

    fn negated(self) -> (r: Self) {
        Gaussian { re: 0i64.wrapping_sub(self.re), im: 0i64.wrapping_sub(self.im) }
    }

    fn conjugate(self) -> (r: Self) {
        Gaussian { re: self.re, im: 0i64.wrapping_sub(self.im) }
    }

    fn magnitude(self) -> (r: Self) {
        Gaussian {
            re: self.re.wrapping_mul(self.re).wrapping_add(self.im.wrapping_mul(self.im)),
            im: 0,
        }
    }

    fn at_least(self, other: Self) -> (r: bool) {
        self.re >= other.re
    }

    fn normalize(v: Vec<Self>) -> (r: Vec<Self>) {
        v
    }
}

/// Gaussian integers weigh as numbers do, and the only sample above the
/// mass 0 and not above the mass 1 has the real part 1.
pub proof fn lemma_gaussian_masses(sample: Gaussian)
    ensures
        crate::quantum_register::plain_masses::<Gaussian>(),
        crate::quantum_register::within_unit(sample) <==> sample.re == 1,
{
    assert(0i64.wrapping_mul(0i64) == 0 && 1i64.wrapping_mul(1i64) == 1 && 0i64.wrapping_add(0i64)
        == 0 && 1i64.wrapping_add(0i64) == 1 && 0i64.wrapping_add(1i64) == 1);
}

/// A sequence of Gaussian integers is kept as it is when it is rescaled.
pub proof fn lemma_gaussian_rescaling(s: Seq<Gaussian>)
    ensures
        crate::amplitude::normalized(s) == s,
{
    if exists|v: Vec<Gaussian>| v@ == s {
        let w = choose|w: Vec<Gaussian>| w@ == s;
        assert(w@ == s);
    }
}

/// Over Gaussian integers a register that a measurement has collapsed gives
/// the same result again, and stays as it is, whenever it is measured
/// against a sample whose real part is 1.
pub proof fn lemma_gaussian_measured_again(
    state: Seq<Gaussian>,
    index: int,
    first: Seq<Gaussian>,
    sample: Gaussian,
    outcome: int,
)
    requires
        sample.re == 1,
        0 <= index < state.len(),
        first == crate::quantum_register::collapsed(state, index),
        crate::quantum_register::is_outcome(first, sample, outcome),
    ensures
        outcome == index,
        crate::quantum_register::collapsed(first, outcome) == first,
{
    lemma_gaussian_masses(sample);
    lemma_gaussian_rescaling(crate::amplitude::basis::<Gaussian>(state.len(), index));
    crate::quantum_register::lemma_collapsed_state_is_measured_again(
        state,
        index,
        first,
        sample,
        outcome,
    );
}

/// The integer `x` brought into the range of an `i64` by a multiple of 2^64.
pub open spec fn crop(x: int) -> i64 {
    vstd::wrapping::i64_specs::signed_crop(x)
}

/// Whether `x` and `y` differ by a multiple of 2^64.
pub open spec fn congruent(x: int, y: int) -> bool {
    x % 0x1_0000_0000_0000_0000 == y % 0x1_0000_0000_0000_0000
}

/// The real part of the product of `x` and `y` over the integers.
pub open spec fn real_part(x: Gaussian, y: Gaussian) -> int {
    x.re * y.re - x.im * y.im
}

/// The imaginary part of the product of `x` and `y` over the integers.
pub open spec fn imaginary_part(x: Gaussian, y: Gaussian) -> int {
    x.re * y.im + x.im * y.re
}

/// Cropping keeps a number up to a multiple of 2^64, and numbers that differ
/// by such a multiple are cropped to one.
proof fn lemma_crop(x: int, y: int)
    ensures
        congruent(crop(x) as int, x),
        congruent(x, y) ==> crop(x) == crop(y),
{
}

/// Sums, differences and products of numbers that differ by multiples of
/// 2^64 differ by such multiples.
proof fn lemma_congruent(a: int, b: int, c: int, d: int)
    requires
        congruent(a, b),
        congruent(c, d),
    ensures
        congruent(a + c, b + d),
        congruent(a - c, b - d),
        congruent(a * c, b * d),
{
    let m = 0x1_0000_0000_0000_0000int;
    vstd::arithmetic::div_mod::lemma_add_mod_noop(a, c, m);
    vstd::arithmetic::div_mod::lemma_add_mod_noop(b, d, m);
    vstd::arithmetic::div_mod::lemma_sub_mod_noop(a, c, m);
    vstd::arithmetic::div_mod::lemma_sub_mod_noop(b, d, m);
    vstd::arithmetic::div_mod::lemma_mul_mod_noop_general(a, c, m);
    vstd::arithmetic::div_mod::lemma_mul_mod_noop_general(b, d, m);
}

/// The product of two Gaussian integers is their product over the integers,
/// cropped in each part.
pub proof fn lemma_gaussian_product(x: Gaussian, y: Gaussian)
    ensures
        x.spec_product(y) == (Gaussian {
            re: crop(real_part(x, y)),
            im: crop(imaginary_part(x, y)),
        }),
{
    let a = x.re.wrapping_mul(y.re);
    let b = x.im.wrapping_mul(y.im);
    let c = x.re.wrapping_mul(y.im);
    let d = x.im.wrapping_mul(y.re);
    lemma_crop(x.re * y.re, 0);
    lemma_crop(x.im * y.im, 0);
    lemma_crop(x.re * y.im, 0);
    lemma_crop(x.im * y.re, 0);
    assert(a.wrapping_sub(b) == crop(a - b));
    lemma_congruent(a as int, x.re * y.re, b as int, x.im * y.im);
    lemma_congruent(c as int, x.re * y.im, d as int, x.im * y.re);
    lemma_crop(a - b, real_part(x, y));
    lemma_crop(c + d, imaginary_part(x, y));
}

/// The two ways to bracket a product of three complex numbers give the same
/// parts over the integers.
proof fn lemma_triple_product(xr: int, xi: int, yr: int, yi: int, zr: int, zi: int)
    ensures
        (xr * yr - xi * yi) * zr - (xr * yi + xi * yr) * zi == xr * (yr * zr - yi * zi) - xi * (yr
            * zi + yi * zr),
        (xr * yr - xi * yi) * zi + (xr * yi + xi * yr) * zr == xr * (yr * zi + yi * zr) + xi * (yr
            * zr - yi * zi),
{
    assert((xr * yr - xi * yi) * zr == (xr * yr) * zr - (xi * yi) * zr) by (nonlinear_arith);
    assert((xr * yi + xi * yr) * zi == (xr * yi) * zi + (xi * yr) * zi) by (nonlinear_arith);
    assert((xr * yr - xi * yi) * zi == (xr * yr) * zi - (xi * yi) * zi) by (nonlinear_arith);
    assert((xr * yi + xi * yr) * zr == (xr * yi) * zr + (xi * yr) * zr) by (nonlinear_arith);
    assert(xr * (yr * zr - yi * zi) == xr * (yr * zr) - xr * (yi * zi)) by (nonlinear_arith);
    assert(xi * (yr * zi + yi * zr) == xi * (yr * zi) + xi * (yi * zr)) by (nonlinear_arith);
    assert(xr * (yr * zi + yi * zr) == xr * (yr * zi) + xr * (yi * zr)) by (nonlinear_arith);
    assert(xi * (yr * zr - yi * zi) == xi * (yr * zr) - xi * (yi * zi)) by (nonlinear_arith);
    vstd::arithmetic::mul::lemma_mul_is_associative(xr, yr, zr);
    vstd::arithmetic::mul::lemma_mul_is_associative(xi, yi, zr);
    vstd::arithmetic::mul::lemma_mul_is_associative(xr, yi, zi);
    vstd::arithmetic::mul::lemma_mul_is_associative(xi, yr, zi);
    vstd::arithmetic::mul::lemma_mul_is_associative(xr, yr, zi);
    vstd::arithmetic::mul::lemma_mul_is_associative(xi, yi, zi);
    vstd::arithmetic::mul::lemma_mul_is_associative(xr, yi, zr);
    vstd::arithmetic::mul::lemma_mul_is_associative(xi, yr, zr);
}

/// The product of Gaussian integers is associative.
pub proof fn lemma_gaussian_product_associative(x: Gaussian, y: Gaussian, z: Gaussian)
    ensures
        x.spec_product(y).spec_product(z) == x.spec_product(y.spec_product(z)),
{
    let p = x.spec_product(y);
    let q = y.spec_product(z);
    lemma_gaussian_product(x, y);
    lemma_gaussian_product(y, z);
    lemma_gaussian_product(p, z);
    lemma_gaussian_product(x, q);
    lemma_crop(real_part(x, y), 0);
    lemma_crop(imaginary_part(x, y), 0);
    lemma_crop(real_part(y, z), 0);
    lemma_crop(imaginary_part(y, z), 0);
    let (xr, xi) = (x.re as int, x.im as int);
    let (yr, yi) = (y.re as int, y.im as int);
    let (zr, zi) = (z.re as int, z.im as int);
    let (pr, pi) = (real_part(x, y), imaginary_part(x, y));
    let (qr, qi) = (real_part(y, z), imaginary_part(y, z));
    // the left product, with the parts of `p` taken over the integers
    lemma_congruent(p.re as int, pr, zr, zr);
    lemma_congruent(p.im as int, pi, zi, zi);
    lemma_congruent(p.re * zr, pr * zr, p.im * zi, pi * zi);
    lemma_congruent(p.re as int, pr, zi, zi);
    lemma_congruent(p.im as int, pi, zr, zr);
    lemma_congruent(p.re * zi, pr * zi, p.im * zr, pi * zr);
    // the right product, with the parts of `q` taken over the integers
    lemma_congruent(xr, xr, q.re as int, qr);
    lemma_congruent(xi, xi, q.im as int, qi);
    lemma_congruent(xr * q.re, xr * qr, xi * q.im, xi * qi);
    lemma_congruent(xr, xr, q.im as int, qi);
    lemma_congruent(xi, xi, q.re as int, qr);
    lemma_congruent(xr * q.im, xr * qi, xi * q.re, xi * qr);
    lemma_triple_product(xr, xi, yr, yi, zr, zi);
    lemma_crop(real_part(p, z), real_part(x, q));
    lemma_crop(imaginary_part(p, z), imaginary_part(x, q));
}

/// Over Gaussian integers the Kronecker product is associative.
pub proof fn lemma_gaussian_kronecker_associative(
    a: Seq<Seq<Gaussian>>,
    b: Seq<Seq<Gaussian>>,
    c: Seq<Seq<Gaussian>>,
)
    ensures
        crate::matrix::kronecker(crate::matrix::kronecker(a, b), c) == crate::matrix::kronecker(
            a,
            crate::matrix::kronecker(b, c),
        ),
{
    assert forall|x: Gaussian, y: Gaussian, z: Gaussian| #[trigger]
        x.spec_product(y).spec_product(z) == x.spec_product(y.spec_product(z)) by {
        lemma_gaussian_product_associative(x, y, z);
    }
    crate::matrix::lemma_kronecker_associative(a, b, c);
}

} // verus!
