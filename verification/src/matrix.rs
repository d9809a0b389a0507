//! Dense square matrices of amplitudes.

use crate::amplitude::Amplitude;
use crate::error::QuantumError;
use vstd::prelude::*;

verus! {

/// The entries of a vector of rows, row by row.
pub open spec fn grid<T>(rows: Seq<Vec<T>>) -> Seq<Seq<T>> {
    Seq::new(rows.len(), |i: int| rows[i]@)
}

/// Whether `m` has as many columns in each row as it has rows.
pub open spec fn square<T>(m: Seq<Seq<T>>) -> bool {
    forall|i: int| 0 <= i < m.len() ==> (#[trigger] m[i]).len() == m.len()
}

/// The row of `n` entries that are all `value`.
pub open spec fn constant_row<T>(n: nat, value: T) -> Seq<T> {
    Seq::new(n, |j: int| value)
}

/// The `n` by `n` matrix of zeros.
pub open spec fn zeros<T: Amplitude>(n: nat) -> Seq<Seq<T>> {
    Seq::new(n, |i: int| constant_row(n, T::spec_zero()))
}

/// Row `i` of the `n` by `n` identity matrix.
pub open spec fn identity_row<T: Amplitude>(n: nat, i: int) -> Seq<T> {
    Seq::new(
        n,
        |j: int|
            if i == j {
                T::spec_one()
            } else {
                T::spec_zero()
            },
    )
}

/// The `n` by `n` identity matrix.
pub open spec fn identity<T: Amplitude>(n: nat) -> Seq<Seq<T>> {
    Seq::new(n, |i: int| identity_row::<T>(n, i))
}

/// Each entry of `m` multiplied by `c` on its right.
pub open spec fn scaled<T: Amplitude>(m: Seq<Seq<T>>, c: T) -> Seq<Seq<T>> {
    Seq::new(m.len(), |i: int| Seq::new(m[i].len(), |j: int| m[i][j].spec_product(c)))
}

/// Each entry of `m` multiplied by `c` on its left.
pub open spec fn scaled_by<T: Amplitude>(c: T, m: Seq<Seq<T>>) -> Seq<Seq<T>> {
    Seq::new(m.len(), |i: int| Seq::new(m[i].len(), |j: int| c.spec_product(m[i][j])))
}

/// Column `j` of `m`.
pub open spec fn column<T>(m: Seq<Seq<T>>, j: int) -> Seq<T> {
    Seq::new(m.len(), |k: int| m[k][j])
}

/// The product of two square matrices of one size: entry `(i, j)` is the sum
/// over `k` of `a[i][k] * b[k][j]`, added onto 0 by rising `k`.
pub open spec fn matrix_product<T: Amplitude>(a: Seq<Seq<T>>, b: Seq<Seq<T>>) -> Seq<Seq<T>> {
    Seq::new(
        a.len(),
        |i: int| Seq::new(a.len(), |j: int| crate::amplitude::inner(a[i], column(b, j), a.len())),
    )
}

/// The entry by entry sum of two square matrices of one size.
pub open spec fn matrix_sum<T: Amplitude>(a: Seq<Seq<T>>, b: Seq<Seq<T>>) -> Seq<Seq<T>> {
    Seq::new(a.len(), |i: int| Seq::new(a.len(), |j: int| a[i][j].spec_sum(b[i][j])))
}

/// What the Kronecker product of `a` and `b` holds in row `r` and column `c`,
/// where `b` has `q` rows: `a[r / q][c / q] * b[r % q][c % q]`.
pub open spec fn kronecker_entry<T: Amplitude>(
    a: Seq<Seq<T>>,
    b: Seq<Seq<T>>,
    r: int,
    c: int,
) -> T {
    let q = b.len() as int;
    a[r / q][c / q].spec_product(b[r % q][c % q])
}

/// The Kronecker product of a square `a` of `p` rows and a square `b` of `q`
/// rows: the square matrix of `p * q` rows whose entry in row `i * q + k` and
/// column `j * q + l` is `a[i][j] * b[k][l]`.
pub open spec fn kronecker<T: Amplitude>(a: Seq<Seq<T>>, b: Seq<Seq<T>>) -> Seq<Seq<T>> {
    Seq::new(
        a.len() * b.len(),
        |r: int| Seq::new(a.len() * b.len(), |c: int| kronecker_entry(a, b, r, c)),
    )
}

/// The conjugate transpose of a square matrix.
pub open spec fn adjoint<T: Amplitude>(m: Seq<Seq<T>>) -> Seq<Seq<T>> {
    Seq::new(m.len(), |i: int| Seq::new(m.len(), |j: int| m[j][i].spec_conjugate()))
}

/// A matrix of amplitudes, held row by row.
#[derive(Debug)]
pub struct Matrix<T: Amplitude> {
    pub rows: Vec<Vec<T>>,
}

impl<T: Amplitude> View for Matrix<T> {
    type V = Seq<Seq<T>>;

    open spec fn view(&self) -> Seq<Seq<T>> {
        grid(self.rows@)
    }
}

/// A row of `n` copies of `value`.
pub fn filled<T: Amplitude>(value: T, n: usize) -> (row: Vec<T>)
    ensures
        row@ == constant_row(n as nat, value),
{
    let mut row: Vec<T> = Vec::new();
    let mut j: usize = 0;
    while j < n
        invariant
            j <= n,
            row@.len() == j,
            forall|b: int| 0 <= b < j ==> row@[b] == value,
        decreases n - j,
    {
        row.push(value);
        j += 1;
    }
    row
}

impl<T: Amplitude> Matrix<T> {
    /// Whether the matrix is square.
    pub open spec fn wf(&self) -> bool {
        square(self@)
    }

    /// The `size` by `size` matrix of zeros.
    pub fn new_zero(size: usize) -> (m: Self)
        ensures
            m@ == zeros::<T>(size as nat),
            m.wf(),
    {
        let mut rows: Vec<Vec<T>> = Vec::new();
        let mut i: usize = 0;
        while i < size
            invariant
                i <= size,
                rows@.len() == i,
                forall|a: int| 0 <= a < i ==> (#[trigger] rows@[a])@ == constant_row(
                    size as nat,
                    T::spec_zero(),
                ),
            decreases size - i,
        {
            rows.push(filled(T::zero(), size));
            i += 1;
        }
        Matrix { rows }
    }

    /// The `size` by `size` identity matrix.
    pub fn new_identity(size: usize) -> (m: Self)
        ensures
            m@ == identity::<T>(size as nat),
            m.wf(),
    {
        let mut rows: Vec<Vec<T>> = Vec::new();
        let mut i: usize = 0;
        while i < size
            invariant
                i <= size,
                rows@.len() == i,
                forall|a: int| 0 <= a < i ==> (#[trigger] rows@[a])@ == identity_row::<T>(
                    size as nat,
                    a,
                ),
            decreases size - i,
        {
            let mut row = filled(T::zero(), size);
            row[i] = T::one();
            rows.push(row);
            i += 1;
        }
        Matrix { rows }
    }

    /// The matrix whose rows are `data`.
    pub fn new(data: Vec<Vec<T>>) -> (m: Self)
        ensures
            m.rows == data,
            m@ == grid(data@),
    {
        Matrix { rows: data }
    }

    /// Multiplies each entry by `c`, in place.
    #[verifier::loop_isolation(false)]
    pub fn scalar_multiplication(&mut self, c: T)
        ensures
            final(self)@ == scaled(old(self)@, c),
    {
        let ghost before = self@;
        let n = self.rows.len();
        let mut i: usize = 0;
        while i < n
            invariant
                i <= n,
                self.rows@.len() == n,
                forall|a: int| 0 <= a < i ==> (#[trigger] self.rows@[a])@ == scaled(before, c)[a],
                forall|a: int| i <= a < n ==> (#[trigger] self.rows@[a])@ == before[a],
            decreases n - i,
        {
            let width = self.rows[i].len();
            let mut j: usize = 0;
            while j < width
                invariant
                    i < n,
                    j <= width,
                    width == before[i as int].len(),
                    self.rows@.len() == n,
                    self.rows@[i as int]@.len() == width,
                    forall|a: int|
                        0 <= a < i ==> (#[trigger] self.rows@[a])@ == scaled(before, c)[a],
                    forall|a: int| i < a < n ==> (#[trigger] self.rows@[a])@ == before[a],
                    forall|b: int|
                        0 <= b < j ==> #[trigger] self.rows@[i as int]@[b] == before[i as int][b].spec_product(
                            c,
                        ),
                    forall|b: int|
                        j <= b < width ==> #[trigger] self.rows@[i as int]@[b] == before[i as int][b],
                decreases width - j,
            {
                let entry = self.rows[i][j];
                self.rows[i][j] = entry.product(c);
                j += 1;
            }
            i += 1;
        }
    }

    /// The matrix whose entries are `c` times those of `self`.
    #[verifier::loop_isolation(false)]
    pub fn scalar_multiplication_copy(&self, c: T) -> (copy: Matrix<T>)
        ensures
            copy@ == scaled_by(c, self@),
    {
        let n = self.rows.len();
        let mut rows: Vec<Vec<T>> = Vec::new();
        let mut i: usize = 0;
        while i < n
            invariant
                i <= n,
                rows@.len() == i,
                forall|a: int| 0 <= a < i ==> (#[trigger] rows@[a])@ == scaled_by(c, self@)[a],
            decreases n - i,
        {
            let width = self.rows[i].len();
            let mut row: Vec<T> = Vec::new();
            let mut j: usize = 0;
            while j < width
                invariant
                    j <= width,
                    row@.len() == j,
                    forall|b: int|
                        0 <= b < j ==> #[trigger] row@[b] == c.spec_product(self@[i as int][b]),
                decreases width - j,
            {
                row.push(c.product(self.rows[i][j]));
                j += 1;
            }
            rows.push(row);
            i += 1;
        }
        Matrix { rows }
    }

    /// The matrix product of `self` and `m2`.
    #[verifier::loop_isolation(false)]
    pub fn matrix_multiplication(&self, m2: Matrix<T>) -> (product: Matrix<T>)
        requires
            self.wf(),
            m2.wf(),
            self@.len() == m2@.len(),
        ensures
            product@ == matrix_product(self@, m2@),
            product.wf(),
    {
        let n = self.rows.len();
        let mut rows: Vec<Vec<T>> = Vec::new();
        let mut i: usize = 0;
        while i < n
            invariant
                i <= n,
                rows@.len() == i,
                forall|a: int|
                    0 <= a < i ==> (#[trigger] rows@[a])@ == matrix_product(self@, m2@)[a],
            decreases n - i,
        {
            let mut row: Vec<T> = Vec::new();
            let mut j: usize = 0;
            while j < n
                invariant
                    j <= n,
                    row@.len() == j,
                    forall|b: int|
                        0 <= b < j ==> #[trigger] row@[b] == crate::amplitude::inner(
                            self@[i as int],
                            column(m2@, b),
                            n as nat,
                        ),
                decreases n - j,
            {
                let mut entry = T::zero();
                let mut k: usize = 0;
                while k < n
                    invariant
                        k <= n,
                        entry == crate::amplitude::inner(
                            self@[i as int],
                            column(m2@, j as int),
                            k as nat,
                        ),
                    decreases n - k,
                {
                    assert(m2@[k as int] == m2.rows@[k as int]@);
                    entry = entry.sum(self.rows[i][k].product(m2.rows[k][j]));
                    k += 1;
                }
                row.push(entry);
                j += 1;
            }
            rows.push(row);
            i += 1;
        }
        Matrix { rows }
    }

    /// The entry by entry sum of `m1` and `m2`, where they are of one size.
    #[verifier::loop_isolation(false)]
    pub fn matrix_addition(m1: Matrix<T>, m2: Matrix<T>) -> (sum: Result<Self, QuantumError>)
        requires
            m1.wf(),
            m2.wf(),
        ensures
            m1@.len() != m2@.len() ==> sum == Err::<Self, QuantumError>(
                QuantumError::DimensionMismatch,
            ),
            m1@.len() == m2@.len() ==> sum is Ok && sum->Ok_0@ == matrix_sum(m1@, m2@)
                && sum->Ok_0.wf(),
    {
        if m1.rows.len() != m2.rows.len() {
            return Err(QuantumError::DimensionMismatch);
        }
        let n = m1.rows.len();
        let mut rows: Vec<Vec<T>> = Vec::new();
        let mut i: usize = 0;
        while i < n
            invariant
                i <= n,
                rows@.len() == i,
                forall|a: int| 0 <= a < i ==> (#[trigger] rows@[a])@ == matrix_sum(m1@, m2@)[a],
            decreases n - i,
        {
            let mut row: Vec<T> = Vec::new();
            let mut j: usize = 0;
            while j < n
                invariant
                    j <= n,
                    row@.len() == j,
                    forall|b: int|
                        0 <= b < j ==> #[trigger] row@[b] == m1@[i as int][b].spec_sum(
                            m2@[i as int][b],
                        ),
                decreases n - j,
            {
                assert(m1@[i as int] == m1.rows@[i as int]@);
                assert(m2@[i as int] == m2.rows@[i as int]@);
                row.push(m1.rows[i][j].sum(m2.rows[i][j]));
                j += 1;
            }
            rows.push(row);
            i += 1;
        }
        let sum = Matrix { rows };
        Ok(sum)
    }

    /// Replaces the matrix by its conjugate transpose.
    #[verifier::loop_isolation(false)]
    pub fn conjugate_transpose(&mut self)
        requires
            old(self).wf(),
        ensures
            final(self)@ == adjoint(old(self)@),
            final(self).wf(),
    {
        let ghost before = self@;
        let n = self.rows.len();
        let mut rows: Vec<Vec<T>> = Vec::new();
        let mut i: usize = 0;
        while i < n
            invariant
                i <= n,
                self@ == before,
                rows@.len() == i,
                forall|a: int| 0 <= a < i ==> (#[trigger] rows@[a])@ == adjoint(before)[a],
            decreases n - i,
        {
            let mut row: Vec<T> = Vec::new();
            let mut j: usize = 0;
            while j < n
                invariant
                    j <= n,
                    self@ == before,
                    row@.len() == j,
                    forall|b: int|
                        0 <= b < j ==> #[trigger] row@[b] == before[b][i as int].spec_conjugate(),
                decreases n - j,
            {
                assert(self@[j as int] == self.rows@[j as int]@);
                row.push(self.rows[j][i].conjugate());
                j += 1;
            }
            rows.push(row);
            i += 1;
        }
        self.rows = rows;
    }

    /// The Kronecker product of `self` and `m2`.
    #[verifier::loop_isolation(false)]
    pub fn tensor_product(&self, m2: &Matrix<T>) -> (product: Matrix<T>)
        requires
            self.wf(),
            m2.wf(),
            self@.len() * m2@.len() <= usize::MAX,
        ensures
            product@ == kronecker(self@, m2@),
            product.wf(),
    {
        let p = self.rows.len();
        let q = m2.rows.len();
        let ghost a = self@;
        let ghost b = m2@;
        let mut rows: Vec<Vec<T>> = Vec::new();
        let mut i: usize = 0;
        while i < p
            invariant
                i <= p,
                rows@.len() == i * q,
                forall|r: int|
                    0 <= r < rows@.len() ==> (#[trigger] rows@[r])@ == Seq::new(
                        (p * q) as nat,
                        |c: int| kronecker_entry(a, b, r, c),
                    ),
            decreases p - i,
        {
            let mut k: usize = 0;
            while k < q
                invariant
                    i < p,
                    k <= q,
                    rows@.len() == i * q + k,
                    forall|r: int|
                        0 <= r < rows@.len() ==> (#[trigger] rows@[r])@ == Seq::new(
                            (p * q) as nat,
                            |c: int| kronecker_entry(a, b, r, c),
                        ),
                decreases q - k,
            {
                let mut row: Vec<T> = Vec::new();
                let mut j: usize = 0;
                while j < p
                    invariant
                        j <= p,
                        k < q,
                        row@.len() == j * q,
                        forall|c: int|
                            0 <= c < row@.len() ==> #[trigger] row@[c] == kronecker_entry(
                                a,
                                b,
                                i * q + k,
                                c,
                            ),
                    decreases p - j,
                {
                    let mut l: usize = 0;
                    while l < q
                        invariant
                            j < p,
                            l <= q,
                            row@.len() == j * q + l,
                            forall|c: int|
                                0 <= c < row@.len() ==> #[trigger] row@[c] == kronecker_entry(
                                    a,
                                    b,
                                    i * q + k,
                                    c,
                                ),
                        decreases q - l,
                    {
                        proof {
                            lemma_kronecker_block(a, b, i as int, j as int, k as int, l as int);
                        }
                        row.push(self.rows[i][j].product(m2.rows[k][l]));
                        l += 1;
                    }
                    assert((j + 1) * q == j * q + q) by (nonlinear_arith);
                    j += 1;
                }
                rows.push(row);
                k += 1;
            }
            assert((i + 1) * q == i * q + q) by (nonlinear_arith);
            i += 1;
        }
        Matrix { rows }
    }
}

/// The entry of a Kronecker product in row `i * q + k` and column `j * q + l`
/// is `a[i][j] * b[k][l]`, where `q` is the number of rows of `b`.
pub proof fn lemma_kronecker_block<T: Amplitude>(
    a: Seq<Seq<T>>,
    b: Seq<Seq<T>>,
    i: int,
    j: int,
    k: int,
    l: int,
)
    requires
        0 <= i,
        0 <= j,
        0 <= k < b.len(),
        0 <= l < b.len(),
    ensures
        kronecker_entry(a, b, i * b.len() + k, j * b.len() + l) == a[i][j].spec_product(b[k][l]),
{
    let q = b.len() as int;
    vstd::arithmetic::div_mod::lemma_fundamental_div_mod_converse(i * q + k, q, i, k);
    vstd::arithmetic::div_mod::lemma_fundamental_div_mod_converse(j * q + l, q, j, l);
}

/// How an index into a block of blocks splits: for a row `r` of a matrix
/// made of blocks of `q * s` rows, which are made of blocks of `s` rows.
pub proof fn lemma_nested_index(r: int, q: int, s: int)
    requires
        0 <= r,
        0 < q,
        0 < s,
    ensures
        0 < q * s,
        (r / s) / q == r / (q * s),
        (r / s) % q == (r % (q * s)) / s,
        r % s == (r % (q * s)) % s,
        0 <= r % (q * s) < q * s,
{
    assert(s * q == q * s) by (nonlinear_arith);
    vstd::arithmetic::div_mod::lemma_div_denominator(r, s, q);
    vstd::arithmetic::div_mod::lemma_breakdown(r, s, q);
    let high = (r / s) % q;
    let low = r % s;
    assert(s * high == high * s) by (nonlinear_arith);
    vstd::arithmetic::div_mod::lemma_fundamental_div_mod_converse(r % (q * s), s, high, low);
    vstd::arithmetic::div_mod::lemma_mod_pos_bound(r, q * s);
}

/// The two ways to bracket a Kronecker product of three matrices give
/// matrices of one size that hold, at each place, the product of the same
/// three entries: bracketed from the left in `(a (x) b) (x) c`, from the
/// right in `a (x) (b (x) c)`.
pub proof fn lemma_kronecker_regroups<T: Amplitude>(
    a: Seq<Seq<T>>,
    b: Seq<Seq<T>>,
    c: Seq<Seq<T>>,
    r: int,
    col: int,
)
    requires
        0 <= r < a.len() * b.len() * c.len(),
        0 <= col < a.len() * b.len() * c.len(),
    ensures
        kronecker(kronecker(a, b), c).len() == a.len() * b.len() * c.len(),
        kronecker(a, kronecker(b, c)).len() == a.len() * b.len() * c.len(),
        kronecker(kronecker(a, b), c)[r].len() == a.len() * b.len() * c.len(),
        kronecker(a, kronecker(b, c))[r].len() == a.len() * b.len() * c.len(),
        ({
            let q = b.len() as int;
            let s = c.len() as int;
            let x = a[r / (q * s)][col / (q * s)];
            let y = b[(r / s) % q][(col / s) % q];
            let z = c[r % s][col % s];
            &&& kronecker(kronecker(a, b), c)[r][col] == x.spec_product(y).spec_product(z)
            &&& kronecker(a, kronecker(b, c))[r][col] == x.spec_product(y.spec_product(z))
        }),
{
    let p = a.len() as int;
    let q = b.len() as int;
    let s = c.len() as int;
    assert((p * q) * s == p * (q * s)) by (nonlinear_arith);
    assert(q > 0 && s > 0) by (nonlinear_arith)
        requires
            0 <= r < p * q * s,
            0 <= p,
            0 <= q,
            0 <= s,
    ;
    lemma_nested_index(r, q, s);
    lemma_nested_index(col, q, s);
    assert(s * (p * q) == p * q * s) by (nonlinear_arith);
    vstd::arithmetic::div_mod::lemma_multiply_divide_lt(r, s, p * q);
    vstd::arithmetic::div_mod::lemma_multiply_divide_lt(col, s, p * q);
    vstd::arithmetic::div_mod::lemma_div_pos_is_pos(r, s);
    vstd::arithmetic::div_mod::lemma_div_pos_is_pos(col, s);
    let ab = kronecker(a, b);
    let bc = kronecker(b, c);
    assert(bc[r % (q * s)][col % (q * s)] == kronecker_entry(
        b,
        c,
        r % (q * s),
        col % (q * s),
    ));
}

/// The Kronecker product is associative for amplitudes whose product is:
/// `(a (x) b) (x) c` and `a (x) (b (x) c)` are one matrix.
pub proof fn lemma_kronecker_associative<T: Amplitude>(
    a: Seq<Seq<T>>,
    b: Seq<Seq<T>>,
    c: Seq<Seq<T>>,
)
    requires
        forall|x: T, y: T, z: T| #[trigger]
            x.spec_product(y).spec_product(z) == x.spec_product(y.spec_product(z)),
    ensures
        kronecker(kronecker(a, b), c) == kronecker(a, kronecker(b, c)),
{
    let left = kronecker(kronecker(a, b), c);
    let right = kronecker(a, kronecker(b, c));
    let n = a.len() * b.len() * c.len();
    assert(right.len() == n) by {
        assert(a.len() * (b.len() * c.len()) == a.len() * b.len() * c.len())
            by (nonlinear_arith);
    }
    assert forall|r: int| 0 <= r < n implies #[trigger] left[r] =~= right[r] by {
        lemma_kronecker_regroups(a, b, c, r, 0);
        assert forall|col: int| 0 <= col < n implies left[r][col] == right[r][col] by {
            lemma_kronecker_regroups(a, b, c, r, col);
        }
    }
}

impl<T: Amplitude> Clone for Matrix<T> {
    /// A matrix with the same entries.
    #[verifier::loop_isolation(false)]
    fn clone(&self) -> (copy: Self)
        ensures
            copy@ == self@,
    {
        let n = self.rows.len();
        let mut rows: Vec<Vec<T>> = Vec::new();
        let mut i: usize = 0;
        while i < n
            invariant
                i <= n,
                rows@.len() == i,
                forall|a: int| 0 <= a < i ==> (#[trigger] rows@[a])@ == self@[a],
            decreases n - i,
        {
            let width = self.rows[i].len();
            let mut row: Vec<T> = Vec::new();
            let mut j: usize = 0;
            while j < width
                invariant
                    j <= width,
                    row@.len() == j,
                    forall|b: int| 0 <= b < j ==> #[trigger] row@[b] == self@[i as int][b],
                decreases width - j,
            {
                row.push(self.rows[i][j]);
                j += 1;
            }
            rows.push(row);
            i += 1;
        }
        Matrix { rows }
    }
}

} // verus!
