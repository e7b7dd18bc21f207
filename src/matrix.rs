//! A fixed-shape, row-major dense matrix over a copyable element type.
use vstd::prelude::*;
use vstd::std_specs::ops::{AddSpec, MulSpec, SubSpec};
use vstd::arithmetic::div_mod::{lemma_fundamental_div_mod, lemma_fundamental_div_mod_converse};
use vstd::arithmetic::mul::lemma_mul_strict_inequality;

verus! {

/// Why a matrix operation was refused.
#[derive(Debug, Clone, Copy, PartialEq, Eq, Structural)]
pub enum MatrixError {
    /// A dimension is zero, or the supplied data does not have `rows * cols` elements.
    InvalidShape,
    /// A row or column index is not below the corresponding dimension.
    IndexOutOfBounds,
    /// The operands' shapes do not fit the operation.
    ShapeMismatch,
    /// A parameter is outside the range where the operation is defined.
    InvalidArgument,
    /// The operation is not provided.
    Unsupported,
}

/// The mathematical content of a matrix: its shape and its elements in row-major order.
pub ghost struct MatrixModel<T> {
    pub rows: nat,
    pub cols: nat,
    pub elems: Seq<T>,
}

impl<T> MatrixModel<T> {
    /// Both dimensions are positive and there is exactly one element per cell.
    pub open spec fn wf(self) -> bool {
        &&& self.rows >= 1
        &&& self.cols >= 1
        &&& self.elems.len() == self.rows * self.cols
    }

    /// The element at row `i`, column `j`.
    pub open spec fn at(self, i: int, j: int) -> T {
        self.elems[i * self.cols + j]
    }

    /// Row `i`, left to right.
    pub open spec fn row_seq(self, i: int) -> Seq<T> {
        Seq::new(self.cols, |j: int| self.at(i, j))
    }

    /// Column `j`, top to bottom.
    pub open spec fn col_seq(self, j: int) -> Seq<T> {
        Seq::new(self.rows, |i: int| self.at(i, j))
    }

    /// The `cols × rows` matrix whose cell `(j, i)` is this matrix's cell `(i, j)`.
    pub open spec fn transposed(self) -> MatrixModel<T> {
        MatrixModel {
            rows: self.cols,
            cols: self.rows,
            elems: Seq::new(
                self.rows * self.cols,
                |k: int| self.elems[(k % self.rows as int) * self.cols + k / self.rows as int],
            ),
        }
    }
}

/// `z + xs[0] * ys[0] + xs[1] * ys[1] + ... + xs[n-1] * ys[n-1]`, summed left to right.
pub open spec fn inner_prefix<T: core::ops::Add<Output = T> + core::ops::Mul<Output = T>>(
    z: T,
    xs: Seq<T>,
    ys: Seq<T>,
    n: nat,
) -> T
    decreases n,
{
    if n == 0 {
        z
    } else {
        inner_prefix(z, xs, ys, (n - 1) as nat).add_spec(xs[n - 1].mul_spec(ys[n - 1]))
    }
}

/// The inner product of two sequences of equal length, accumulated onto `z`.
pub open spec fn inner<T: core::ops::Add<Output = T> + core::ops::Mul<Output = T>>(
    z: T,
    xs: Seq<T>,
    ys: Seq<T>,
) -> T {
    inner_prefix(z, xs, ys, xs.len())
}

/// The matrix product of `a` (`m × n`) and `b` (`n × p`): the `m × p` matrix whose cell
/// `(i, j)` is the inner product of row `i` of `a` and column `j` of `b`, accumulated
/// onto `z`.
pub open spec fn product<T: core::ops::Add<Output = T> + core::ops::Mul<Output = T>>(
    z: T,
    a: MatrixModel<T>,
    b: MatrixModel<T>,
) -> MatrixModel<T> {
    MatrixModel {
        rows: a.rows,
        cols: b.cols,
        elems: Seq::new(
            a.rows * b.cols,
            |k: int| inner(z, a.row_seq(k / b.cols as int), b.col_seq(k % b.cols as int)),
        ),
    }
}

/// `z` is a value that `T::default()` may return.
pub open spec fn is_default<T: Default>(z: T) -> bool {
    call_ensures(T::default, (), z)
}

/// `T::default()` always returns the same value.
pub open spec fn default_is_fixed<T: Default>() -> bool {
    forall|a: T, b: T| is_default(a) && is_default(b) ==> a == b
}

/// Every sum and every product of two elements is defined.
pub open spec fn add_mul_total<T: core::ops::Add<Output = T> + core::ops::Mul<Output = T>>() -> bool {
    &&& forall|x: T, y: T| x.add_req(y)
    &&& forall|x: T, y: T| x.mul_req(y)
}

/// Each product `xs[k] * ys[k]`, and each step of adding it onto the running sum that
/// starts at `z`, is defined.
pub open spec fn inner_defined<T: core::ops::Add<Output = T> + core::ops::Mul<Output = T>>(
    z: T,
    xs: Seq<T>,
    ys: Seq<T>,
) -> bool {
    forall|k: int|
        #![trigger xs[k]]
        0 <= k < xs.len() ==> xs[k].mul_req(ys[k]) && inner_prefix(z, xs, ys, k as nat).add_req(
            xs[k].mul_spec(ys[k]),
        )
}

/// Every cell of `product(z, a, b)` can be computed without an undefined step.
pub open spec fn product_defined<T: core::ops::Add<Output = T> + core::ops::Mul<Output = T>>(
    z: T,
    a: MatrixModel<T>,
    b: MatrixModel<T>,
) -> bool {
    forall|i: int, j: int|
        0 <= i < a.rows && 0 <= j < b.cols ==> #[trigger] inner_defined(z, a.row_seq(i), b.col_seq(j))
}

/// The product of `a` and `b` is computed without an undefined step: either every sum and
/// product of elements is defined, or the operations follow their specifications and
/// each step of each cell is defined (for integers: nothing overflows).
pub open spec fn dot_defined<T: Default + core::ops::Add<Output = T> + core::ops::Mul<Output = T>>(
    a: MatrixModel<T>,
    b: MatrixModel<T>,
) -> bool {
    ||| add_mul_total::<T>()
    ||| {
        &&& T::obeys_add_spec()
        &&& T::obeys_mul_spec()
        &&& forall|z: T| #[trigger] is_default(z) ==> product_defined(z, a, b)
    }
}

/// Each step of summing `s` left to right is defined.
pub open spec fn total_defined<T: core::ops::Add<Output = T>>(s: Seq<T>) -> bool {
    forall|k: int|
        #![trigger s[k]]
        1 <= k < s.len() ==> total_prefix(s, k as nat).add_req(s[k])
}

/// `s[0] + s[1] + ... + s[n-1]`, summed left to right starting from the first element.
pub open spec fn total_prefix<T: core::ops::Add<Output = T>>(s: Seq<T>, n: nat) -> T
    decreases n,
{
    if n <= 1 {
        s[0]
    } else {
        total_prefix(s, (n - 1) as nat).add_spec(s[n - 1])
    }
}

/// The sum of a non-empty sequence.
pub open spec fn total<T: core::ops::Add<Output = T>>(s: Seq<T>) -> T {
    total_prefix(s, s.len())
}

/// Flat index `i * cols + j` of a cell inside a `rows × cols` matrix lies inside the data.
pub proof fn lemma_cell_index(i: int, j: int, rows: int, cols: int)
    requires
        0 <= i < rows,
        0 <= j < cols,
    ensures
        0 <= i * cols + j < rows * cols,
{
    assert(0 <= i * cols) by (nonlinear_arith)
        requires
            0 <= i,
            0 <= j < cols,
    ;
    assert(i * cols + j < rows * cols) by (nonlinear_arith)
        requires
            0 <= i < rows,
            0 <= j < cols,
    ;
}

/// A flat index splits uniquely into row and column: `(i * n + j) / n == i`, `% n == j`.
pub proof fn lemma_split_index(i: int, j: int, n: int)
    requires
        0 <= i,
        0 <= j < n,
    ensures
        (i * n + j) / n == i,
        (i * n + j) % n == j,
{
    lemma_fundamental_div_mod_converse(i * n + j, n, i, j);
}

/// Every flat index below `rows * cols` is the index of some cell.
pub proof fn lemma_index_cell(k: int, rows: int, cols: int)
    requires
        0 <= k < rows * cols,
        cols > 0,
    ensures
        0 <= k / cols < rows,
        0 <= k % cols < cols,
        k == (k / cols) * cols + k % cols,
{
    lemma_fundamental_div_mod(k, cols);
    assert(k == (k / cols) * cols + k % cols) by (nonlinear_arith)
        requires
            k == cols * (k / cols) + k % cols,
    ;
    assert(0 <= k / cols) by (nonlinear_arith)
        requires
            0 <= k,
            cols > 0,
    ;
    assert(0 <= k % cols < cols) by (nonlinear_arith)
        requires
            cols > 0,
    ;
    if k / cols >= rows {
        assert((k / cols) * cols >= rows * cols) by (nonlinear_arith)
            requires
                k / cols >= rows,
                cols > 0,
        ;
    }
}

/// A dense matrix of `rows × cols` elements stored row by row.
#[derive(Debug, Clone, PartialEq)]
pub struct Matrix<T> {
    rows: usize,
    cols: usize,
    data: Vec<T>,
}

impl<T> View for Matrix<T> {
    type V = MatrixModel<T>;

    closed spec fn view(&self) -> MatrixModel<T> {
        MatrixModel { rows: self.rows as nat, cols: self.cols as nat, elems: self.data@ }
    }
}

impl<T: Copy> Matrix<T> {
    /// The model is well formed and its element count fits in `usize`.
    pub open spec fn wf(&self) -> bool {
        &&& self@.wf()
        &&& self@.rows * self@.cols <= usize::MAX
    }

    /// Builds a `rows × cols` matrix from `data`, or filled with `T::default()` when no
    /// data is given.
    pub fn new(rows: usize, cols: usize, data: Option<Vec<T>>) -> (r: Result<Self, MatrixError>)
        where
            T: Default,
        requires
            data is None ==> rows * cols <= usize::MAX,
        ensures
            r is Err <==> (rows == 0 || cols == 0 || (data is Some && data->0@.len() != rows * cols)),
            r is Err ==> r->Err_0 == MatrixError::InvalidShape,
            r is Ok ==> {
                &&& r->Ok_0.wf()
                &&& r->Ok_0@.rows == rows
                &&& r->Ok_0@.cols == cols
                &&& data is Some ==> r->Ok_0@.elems == data->0@
                &&& data is None ==> forall|k: int|
                    0 <= k < rows * cols ==> call_ensures(T::default, (), #[trigger] r->Ok_0@.elems[k])
            },
    {
        if rows < 1 || cols < 1 {
            return Err(MatrixError::InvalidShape);
        }
        match data {
            Some(data) => {
                let len = data.len();
                let n = rows.checked_mul(cols);
                match n {
                    Some(n) if len == n => Ok(Matrix { rows, cols, data }),
                    _ => Err(MatrixError::InvalidShape),
                }
            },
            None => {
                let n = rows * cols;
                let zero = T::default();
                let mut v: Vec<T> = Vec::new();
                let mut k: usize = 0;
                while k < n
                    invariant
                        k <= n,
                        v.len() == k,
                        call_ensures(T::default, (), zero),
                        forall|m: int| 0 <= m < k ==> v@[m] == zero,
                    decreases n - k,
                {
                    v.push(zero);
                    k += 1;
                }
                Ok(Matrix { rows, cols, data: v })
            },
        }
    }

    /// The element at `(row, col)`.
    pub fn get(&self, row: usize, col: usize) -> (r: Result<T, MatrixError>)
        requires
            self.wf(),
        ensures
            r is Err <==> (row >= self@.rows || col >= self@.cols),
            r is Err ==> r->Err_0 == MatrixError::IndexOutOfBounds,
            r is Ok ==> r->Ok_0 == self@.at(row as int, col as int),
    {
        if row >= self.rows || col >= self.cols {
            return Err(MatrixError::IndexOutOfBounds);
        }
        proof {
            lemma_cell_index(row as int, col as int, self.rows as int, self.cols as int);
        }
        Ok(self.data[row * self.cols + col])
    }

    /// Replaces the element at `(row, col)` with `value`; nothing else changes.
    pub fn set(&mut self, row: usize, col: usize, value: T) -> (r: Result<(), MatrixError>)
        requires
            old(self).wf(),
        ensures
            final(self).wf(),
            r is Err <==> (row >= old(self)@.rows || col >= old(self)@.cols),
            r is Err ==> r->Err_0 == MatrixError::IndexOutOfBounds && final(self)@ == old(self)@,
            r is Ok ==> final(self)@ == (MatrixModel {
                rows: old(self)@.rows,
                cols: old(self)@.cols,
                elems: old(self)@.elems.update(row * old(self)@.cols + col, value),
            }),
    {
        if row >= self.rows || col >= self.cols {
            return Err(MatrixError::IndexOutOfBounds);
        }
        proof {
            lemma_cell_index(row as int, col as int, self.rows as int, self.cols as int);
        }
        let idx = row * self.cols + col;
        self.data.set(idx, value);
        Ok(())
    }

    /// Number of rows.
    pub fn rows(&self) -> (r: usize)
        ensures
            r == self@.rows,
    {
        self.rows
    }

    /// Number of columns.
    pub fn cols(&self) -> (r: usize)
        ensures
            r == self@.cols,
    {
        self.cols
    }

    /// The elements in row-major order.
    pub fn data(&self) -> (r: &Vec<T>)
        ensures
            r@ == self@.elems,
    {
        &self.data
    }

    /// Number of elements, `rows * cols`.
    pub fn size(&self) -> (r: usize)
        requires
            self.wf(),
        ensures
            r == self@.rows * self@.cols,
    {
        self.rows * self.cols
    }

    /// A fresh copy of row `row`.
    pub fn row(&self, row: usize) -> (r: Result<Vec<T>, MatrixError>)
        requires
            self.wf(),
        ensures
            r is Err <==> row >= self@.rows,
            r is Err ==> r->Err_0 == MatrixError::IndexOutOfBounds,
            r is Ok ==> r->Ok_0@ == self@.row_seq(row as int),
    {
        if row >= self.rows {
            return Err(MatrixError::IndexOutOfBounds);
        }
        let mut v: Vec<T> = Vec::new();
        let mut j: usize = 0;
        while j < self.cols
            invariant
                self.wf(),
                row < self@.rows,
                j <= self@.cols,
                v@ == self@.row_seq(row as int).take(j as int),
            decreases self.cols - j,
        {
            proof {
                lemma_cell_index(row as int, j as int, self.rows as int, self.cols as int);
            }
            v.push(self.data[row * self.cols + j]);
            j += 1;
            assert(v@ =~= self@.row_seq(row as int).take(j as int));
        }
        assert(v@ =~= self@.row_seq(row as int));
        Ok(v)
    }

    /// A fresh copy of column `col`.
    pub fn col(&self, col: usize) -> (r: Result<Vec<T>, MatrixError>)
        requires
            self.wf(),
        ensures
            r is Err <==> col >= self@.cols,
            r is Err ==> r->Err_0 == MatrixError::IndexOutOfBounds,
            r is Ok ==> r->Ok_0@ == self@.col_seq(col as int),
    {
        if col >= self.cols {
            return Err(MatrixError::IndexOutOfBounds);
        }
        let mut v: Vec<T> = Vec::new();
        let mut i: usize = 0;
        while i < self.rows
            invariant
                self.wf(),
                col < self@.cols,
                i <= self@.rows,
                v@ == self@.col_seq(col as int).take(i as int),
            decreases self.rows - i,
        {
            proof {
                lemma_cell_index(i as int, col as int, self.rows as int, self.cols as int);
            }
            v.push(self.data[i * self.cols + col]);
            i += 1;
            assert(v@ =~= self@.col_seq(col as int).take(i as int));
        }
        assert(v@ =~= self@.col_seq(col as int));
        Ok(v)
    }

    /// The `cols × rows` matrix whose cell `(j, i)` is this matrix's cell `(i, j)`.
    pub fn transpose(&self) -> (r: Self)
        requires
            self.wf(),
        ensures
            r.wf(),
            r@ == self@.transposed(),
    {
        let mut v: Vec<T> = Vec::new();
        let mut j: usize = 0;
        while j < self.cols
            invariant
                self.wf(),
                j <= self@.cols,
                v.len() == j * self@.rows,
                forall|k: int| 0 <= k < v.len() ==> v@[k] == #[trigger] self@.transposed().elems[k],
            decreases self.cols - j,
        {
            let mut i: usize = 0;
            while i < self.rows
                invariant
                    self.wf(),
                    j < self@.cols,
                    i <= self@.rows,
                    v.len() == j * self@.rows + i,
                    forall|k: int| 0 <= k < v.len() ==> v@[k] == #[trigger] self@.transposed().elems[k],
                decreases self.rows - i,
            {
                proof {
                    lemma_cell_index(i as int, j as int, self.rows as int, self.cols as int);
                    lemma_cell_index(j as int, i as int, self.cols as int, self.rows as int);
                    lemma_split_index(j as int, i as int, self.rows as int);
                    assert(self.rows * self.cols == self.cols * self.rows) by (nonlinear_arith);
                }
                v.push(self.data[i * self.cols + j]);
                i += 1;
            }
            assert(v.len() == (j + 1) * self@.rows) by (nonlinear_arith)
                requires
                    v.len() == j * self@.rows + self@.rows,
            ;
            j += 1;
        }
        proof {
            assert(self.rows * self.cols == self.cols * self.rows) by (nonlinear_arith);
        }
        let r = Matrix { rows: self.cols, cols: self.rows, data: v };
        assert(r@.elems =~= self@.transposed().elems);
        r
    }
}

impl<T: Copy + Default + core::ops::Add<Output = T> + core::ops::Mul<Output = T>> Matrix<T> {
    /// The matrix product `self · other`. Each cell starts at `T::default()` and adds the
    /// products `self(i, k) * other(k, j)` for `k` in increasing order.
    pub fn dot(&self, other: &Matrix<T>) -> (r: Result<Matrix<T>, MatrixError>)
        requires
            self.wf(),
            other.wf(),
            self@.rows * other@.cols <= usize::MAX,
            default_is_fixed::<T>(),
            self@.cols == other@.rows ==> dot_defined(self@, other@),
        ensures
            r is Err <==> self@.cols != other@.rows,
            r is Err ==> r->Err_0 == MatrixError::ShapeMismatch,
            r is Ok ==> {
                &&& r->Ok_0.wf()
                &&& r->Ok_0@.rows == self@.rows
                &&& r->Ok_0@.cols == other@.cols
                &&& forall|z: T|
                    #[trigger] is_default(z) ==> ((T::obeys_add_spec() && T::obeys_mul_spec())
                        ==> r->Ok_0@ == product(z, self@, other@))
            },
    {
        if self.cols != other.rows {
            return Err(MatrixError::ShapeMismatch);
        }
        let zero = T::default();
        let ghost total_ops = add_mul_total::<T>();
        let ghost spec_ok = T::obeys_add_spec() && T::obeys_mul_spec();
        let ghost p = product(zero, self@, other@);
        assert(is_default(zero));
        assert(!total_ops ==> product_defined(zero, self@, other@));
        let mut v: Vec<T> = Vec::new();
        let mut i: usize = 0;
        while i < self.rows
            invariant
                self.wf(),
                other.wf(),
                self@.cols == other@.rows,
                self@.rows * other@.cols <= usize::MAX,
                is_default(zero),
                total_ops == add_mul_total::<T>(),
                spec_ok == (T::obeys_add_spec() && T::obeys_mul_spec()),
                !total_ops ==> spec_ok && product_defined(zero, self@, other@),
                p == product(zero, self@, other@),
                i <= self@.rows,
                v.len() == i * other@.cols,
                spec_ok ==> forall|k: int| 0 <= k < v.len() ==> v@[k] == #[trigger] p.elems[k],
            decreases self.rows - i,
        {
            let mut j: usize = 0;
            while j < other.cols
                invariant
                    self.wf(),
                    other.wf(),
                    self@.cols == other@.rows,
                    self@.rows * other@.cols <= usize::MAX,
                    is_default(zero),
                    total_ops == add_mul_total::<T>(),
                    spec_ok == (T::obeys_add_spec() && T::obeys_mul_spec()),
                    !total_ops ==> spec_ok && product_defined(zero, self@, other@),
                    p == product(zero, self@, other@),
                    i < self@.rows,
                    j <= other@.cols,
                    v.len() == i * other@.cols + j,
                    spec_ok ==> forall|k: int| 0 <= k < v.len() ==> v@[k] == #[trigger] p.elems[k],
                decreases other.cols - j,
            {
                let ghost xs = self@.row_seq(i as int);
                let ghost ys = other@.col_seq(j as int);
                assert(!total_ops ==> inner_defined(zero, xs, ys));
                let mut sum = zero;
                let mut k: usize = 0;
                while k < self.cols
                    invariant
                        self.wf(),
                        other.wf(),
                        self@.cols == other@.rows,
                        total_ops == add_mul_total::<T>(),
                        spec_ok == (T::obeys_add_spec() && T::obeys_mul_spec()),
                        !total_ops ==> spec_ok && inner_defined(zero, xs, ys),
                        i < self@.rows,
                        j < other@.cols,
                        xs == self@.row_seq(i as int),
                        ys == other@.col_seq(j as int),
                        k <= self@.cols,
                        spec_ok ==> sum == inner_prefix(zero, xs, ys, k as nat),
                    decreases self.cols - k,
                {
                    proof {
                        lemma_cell_index(i as int, k as int, self.rows as int, self.cols as int);
                        lemma_cell_index(k as int, j as int, other.rows as int, other.cols as int);
                    }
                    let a = self.data[i * self.cols + k];
                    let b = other.data[k * other.cols + j];
                    assert(a == xs[k as int] && b == ys[k as int]);
                    let prod = a * b;
                    sum = sum + prod;
                    k += 1;
                }
                proof {
                    lemma_cell_index(i as int, j as int, self.rows as int, other.cols as int);
                    lemma_split_index(i as int, j as int, other.cols as int);
                }
                v.push(sum);
                j += 1;
            }
            assert(v.len() == (i + 1) * other@.cols) by (nonlinear_arith)
                requires
                    v.len() == i * other@.cols + other@.cols,
            ;
            i += 1;
        }
        let r = Matrix { rows: self.rows, cols: other.cols, data: v };
        assert(spec_ok ==> r@.elems =~= p.elems);
        Ok(r)
    }
}

impl<T: Copy> Matrix<T> {
    /// Elementwise sum of two matrices of the same shape.
    pub fn add(&self, other: &Matrix<T>) -> (r: Result<Matrix<T>, MatrixError>)
        where
            T: core::ops::Add<Output = T>,
        requires
            self.wf(),
            other.wf(),
            self@.rows == other@.rows && self@.cols == other@.cols ==> forall|k: int|
                0 <= k < self@.elems.len() ==> #[trigger] self@.elems[k].add_req(other@.elems[k]),
        ensures
            r is Err <==> (self@.rows != other@.rows || self@.cols != other@.cols),
            r is Err ==> r->Err_0 == MatrixError::ShapeMismatch,
            r is Ok ==> {
                &&& r->Ok_0.wf()
                &&& r->Ok_0@.rows == self@.rows
                &&& r->Ok_0@.cols == self@.cols
                &&& r->Ok_0@.elems.len() == self@.elems.len()
                &&& T::obeys_add_spec() ==> forall|k: int|
                    0 <= k < self@.elems.len() ==> #[trigger] r->Ok_0@.elems[k]
                        == self@.elems[k].add_spec(other@.elems[k])
            },
    {
        if self.rows != other.rows || self.cols != other.cols {
            return Err(MatrixError::ShapeMismatch);
        }
        let n = self.data.len();
        let mut v: Vec<T> = Vec::new();
        let mut k: usize = 0;
        while k < n
            invariant
                self.wf(),
                other.wf(),
                self@.elems.len() == other@.elems.len(),
                n == self@.elems.len(),
                forall|q: int| 0 <= q < n ==> #[trigger] self@.elems[q].add_req(other@.elems[q]),
                k <= n,
                v.len() == k,
                T::obeys_add_spec() ==> forall|q: int|
                    0 <= q < k ==> #[trigger] v@[q] == self@.elems[q].add_spec(other@.elems[q]),
            decreases n - k,
        {
            v.push(self.data[k] + other.data[k]);
            k += 1;
        }
        Ok(Matrix { rows: self.rows, cols: self.cols, data: v })
    }

    /// Elementwise difference `self - other` of two matrices of the same shape.
    pub fn sub(&self, other: &Matrix<T>) -> (r: Result<Matrix<T>, MatrixError>)
        where
            T: core::ops::Sub<Output = T>,
        requires
            self.wf(),
            other.wf(),
            self@.rows == other@.rows && self@.cols == other@.cols ==> forall|k: int|
                0 <= k < self@.elems.len() ==> #[trigger] self@.elems[k].sub_req(other@.elems[k]),
        ensures
            r is Err <==> (self@.rows != other@.rows || self@.cols != other@.cols),
            r is Err ==> r->Err_0 == MatrixError::ShapeMismatch,
            r is Ok ==> {
                &&& r->Ok_0.wf()
                &&& r->Ok_0@.rows == self@.rows
                &&& r->Ok_0@.cols == self@.cols
                &&& r->Ok_0@.elems.len() == self@.elems.len()
                &&& T::obeys_sub_spec() ==> forall|k: int|
                    0 <= k < self@.elems.len() ==> #[trigger] r->Ok_0@.elems[k]
                        == self@.elems[k].sub_spec(other@.elems[k])
            },
    {
        if self.rows != other.rows || self.cols != other.cols {
            return Err(MatrixError::ShapeMismatch);
        }
        let n = self.data.len();
        let mut v: Vec<T> = Vec::new();
        let mut k: usize = 0;
        while k < n
            invariant
                self.wf(),
                other.wf(),
                self@.elems.len() == other@.elems.len(),
                n == self@.elems.len(),
                forall|q: int| 0 <= q < n ==> #[trigger] self@.elems[q].sub_req(other@.elems[q]),
                k <= n,
                v.len() == k,
                T::obeys_sub_spec() ==> forall|q: int|
                    0 <= q < k ==> #[trigger] v@[q] == self@.elems[q].sub_spec(other@.elems[q]),
            decreases n - k,
        {
            v.push(self.data[k] - other.data[k]);
            k += 1;
        }
        Ok(Matrix { rows: self.rows, cols: self.cols, data: v })
    }

    /// Elementwise (Hadamard) product of two matrices of the same shape.
    pub fn mul(&self, other: &Matrix<T>) -> (r: Result<Matrix<T>, MatrixError>)
        where
            T: core::ops::Mul<Output = T>,
        requires
            self.wf(),
            other.wf(),
            self@.rows == other@.rows && self@.cols == other@.cols ==> forall|k: int|
                0 <= k < self@.elems.len() ==> #[trigger] self@.elems[k].mul_req(other@.elems[k]),
        ensures
            r is Err <==> (self@.rows != other@.rows || self@.cols != other@.cols),
            r is Err ==> r->Err_0 == MatrixError::ShapeMismatch,
            r is Ok ==> {
                &&& r->Ok_0.wf()
                &&& r->Ok_0@.rows == self@.rows
                &&& r->Ok_0@.cols == self@.cols
                &&& r->Ok_0@.elems.len() == self@.elems.len()
                &&& T::obeys_mul_spec() ==> forall|k: int|
                    0 <= k < self@.elems.len() ==> #[trigger] r->Ok_0@.elems[k]
                        == self@.elems[k].mul_spec(other@.elems[k])
            },
    {
        if self.rows != other.rows || self.cols != other.cols {
            return Err(MatrixError::ShapeMismatch);
        }
        let n = self.data.len();
        let mut v: Vec<T> = Vec::new();
        let mut k: usize = 0;
        while k < n
            invariant
                self.wf(),
                other.wf(),
                self@.elems.len() == other@.elems.len(),
                n == self@.elems.len(),
                forall|q: int| 0 <= q < n ==> #[trigger] self@.elems[q].mul_req(other@.elems[q]),
                k <= n,
                v.len() == k,
                T::obeys_mul_spec() ==> forall|q: int|
                    0 <= q < k ==> #[trigger] v@[q] == self@.elems[q].mul_spec(other@.elems[q]),
            decreases n - k,
        {
            v.push(self.data[k] * other.data[k]);
            k += 1;
        }
        Ok(Matrix { rows: self.rows, cols: self.cols, data: v })
    }

    /// Adds `scalar` to every element: cell `m + scalar`.
    pub fn add_scalar(&self, scalar: T) -> (r: Matrix<T>)
        where
            T: core::ops::Add<Output = T>,
        requires
            self.wf(),
            forall|k: int| 0 <= k < self@.elems.len() ==> #[trigger] self@.elems[k].add_req(scalar),
        ensures
            r.wf(),
            r@.rows == self@.rows,
            r@.cols == self@.cols,
            r@.elems.len() == self@.elems.len(),
            T::obeys_add_spec() ==> forall|k: int|
                0 <= k < self@.elems.len() ==> #[trigger] r@.elems[k] == self@.elems[k].add_spec(scalar),
    {
        let n = self.data.len();
        let mut v: Vec<T> = Vec::new();
        let mut k: usize = 0;
        while k < n
            invariant
                self.wf(),
                n == self@.elems.len(),
                forall|q: int| 0 <= q < n ==> #[trigger] self@.elems[q].add_req(scalar),
                k <= n,
                v.len() == k,
                T::obeys_add_spec() ==> forall|q: int|
                    0 <= q < k ==> #[trigger] v@[q] == self@.elems[q].add_spec(scalar),
            decreases n - k,
        {
            v.push(self.data[k] + scalar);
            k += 1;
        }
        Matrix { rows: self.rows, cols: self.cols, data: v }
    }

    /// Subtracts `scalar` from every element: cell `m - scalar`.
    pub fn sub_scalar(&self, scalar: T) -> (r: Matrix<T>)
        where
            T: core::ops::Sub<Output = T>,
        requires
            self.wf(),
            forall|k: int| 0 <= k < self@.elems.len() ==> #[trigger] self@.elems[k].sub_req(scalar),
        ensures
            r.wf(),
            r@.rows == self@.rows,
            r@.cols == self@.cols,
            r@.elems.len() == self@.elems.len(),
            T::obeys_sub_spec() ==> forall|k: int|
                0 <= k < self@.elems.len() ==> #[trigger] r@.elems[k] == self@.elems[k].sub_spec(scalar),
    {
        let n = self.data.len();
        let mut v: Vec<T> = Vec::new();
        let mut k: usize = 0;
        while k < n
            invariant
                self.wf(),
                n == self@.elems.len(),
                forall|q: int| 0 <= q < n ==> #[trigger] self@.elems[q].sub_req(scalar),
                k <= n,
                v.len() == k,
                T::obeys_sub_spec() ==> forall|q: int|
                    0 <= q < k ==> #[trigger] v@[q] == self@.elems[q].sub_spec(scalar),
            decreases n - k,
        {
            v.push(self.data[k] - scalar);
            k += 1;
        }
        Matrix { rows: self.rows, cols: self.cols, data: v }
    }

    /// Multiplies every element by `scalar`: cell `m * scalar`.
    pub fn mul_scalar(&self, scalar: T) -> (r: Matrix<T>)
        where
            T: core::ops::Mul<Output = T>,
        requires
            self.wf(),
            forall|k: int| 0 <= k < self@.elems.len() ==> #[trigger] self@.elems[k].mul_req(scalar),
        ensures
            r.wf(),
            r@.rows == self@.rows,
            r@.cols == self@.cols,
            r@.elems.len() == self@.elems.len(),
            T::obeys_mul_spec() ==> forall|k: int|
                0 <= k < self@.elems.len() ==> #[trigger] r@.elems[k] == self@.elems[k].mul_spec(scalar),
    {
        let n = self.data.len();
        let mut v: Vec<T> = Vec::new();
        let mut k: usize = 0;
        while k < n
            invariant
                self.wf(),
                n == self@.elems.len(),
                forall|q: int| 0 <= q < n ==> #[trigger] self@.elems[q].mul_req(scalar),
                k <= n,
                v.len() == k,
                T::obeys_mul_spec() ==> forall|q: int|
                    0 <= q < k ==> #[trigger] v@[q] == self@.elems[q].mul_spec(scalar),
            decreases n - k,
        {
            v.push(self.data[k] * scalar);
            k += 1;
        }
        Matrix { rows: self.rows, cols: self.cols, data: v }
    }

    /// `scalar + m`, computed cell by cell as `m + scalar`.
    pub fn scalar_add(scalar: T, m: &Matrix<T>) -> (r: Matrix<T>)
        where
            T: core::ops::Add<Output = T>,
        requires
            m.wf(),
            forall|k: int| 0 <= k < m@.elems.len() ==> #[trigger] m@.elems[k].add_req(scalar),
        ensures
            r.wf(),
            r@.rows == m@.rows,
            r@.cols == m@.cols,
            r@.elems.len() == m@.elems.len(),
            T::obeys_add_spec() ==> forall|k: int|
                0 <= k < m@.elems.len() ==> #[trigger] r@.elems[k] == m@.elems[k].add_spec(scalar),
    {
        let n = m.data.len();
        let mut v: Vec<T> = Vec::new();
        let mut k: usize = 0;
        while k < n
            invariant
                m.wf(),
                n == m@.elems.len(),
                forall|q: int| 0 <= q < n ==> #[trigger] m@.elems[q].add_req(scalar),
                k <= n,
                v.len() == k,
                T::obeys_add_spec() ==> forall|q: int|
                    0 <= q < k ==> #[trigger] v@[q] == m@.elems[q].add_spec(scalar),
            decreases n - k,
        {
            v.push(m.data[k] + scalar);
            k += 1;
        }
        Matrix { rows: m.rows, cols: m.cols, data: v }
    }

    /// `scalar - m`: cell `scalar - m`, the scalar on the left.
    pub fn scalar_sub(scalar: T, m: &Matrix<T>) -> (r: Matrix<T>)
        where
            T: core::ops::Sub<Output = T>,
        requires
            m.wf(),
            forall|k: int| 0 <= k < m@.elems.len() ==> #[trigger] scalar.sub_req(m@.elems[k]),
        ensures
            r.wf(),
            r@.rows == m@.rows,
            r@.cols == m@.cols,
            r@.elems.len() == m@.elems.len(),
            T::obeys_sub_spec() ==> forall|k: int|
                0 <= k < m@.elems.len() ==> #[trigger] r@.elems[k] == scalar.sub_spec(m@.elems[k]),
    {
        let n = m.data.len();
        let mut v: Vec<T> = Vec::new();
        let mut k: usize = 0;
        while k < n
            invariant
                m.wf(),
                n == m@.elems.len(),
                forall|q: int| 0 <= q < n ==> #[trigger] scalar.sub_req(m@.elems[q]),
                k <= n,
                v.len() == k,
                T::obeys_sub_spec() ==> forall|q: int|
                    0 <= q < k ==> #[trigger] v@[q] == scalar.sub_spec(m@.elems[q]),
            decreases n - k,
        {
            v.push(scalar - m.data[k]);
            k += 1;
        }
        Matrix { rows: m.rows, cols: m.cols, data: v }
    }

    /// `scalar * m`, computed cell by cell as `m * scalar`.
    pub fn scalar_mul(scalar: T, m: &Matrix<T>) -> (r: Matrix<T>)
        where
            T: core::ops::Mul<Output = T>,
        requires
            m.wf(),
            forall|k: int| 0 <= k < m@.elems.len() ==> #[trigger] m@.elems[k].mul_req(scalar),
        ensures
            r.wf(),
            r@.rows == m@.rows,
            r@.cols == m@.cols,
            r@.elems.len() == m@.elems.len(),
            T::obeys_mul_spec() ==> forall|k: int|
                0 <= k < m@.elems.len() ==> #[trigger] r@.elems[k] == m@.elems[k].mul_spec(scalar),
    {
        let n = m.data.len();
        let mut v: Vec<T> = Vec::new();
        let mut k: usize = 0;
        while k < n
            invariant
                m.wf(),
                n == m@.elems.len(),
                forall|q: int| 0 <= q < n ==> #[trigger] m@.elems[q].mul_req(scalar),
                k <= n,
                v.len() == k,
                T::obeys_mul_spec() ==> forall|q: int|
                    0 <= q < k ==> #[trigger] v@[q] == m@.elems[q].mul_spec(scalar),
            decreases n - k,
        {
            v.push(m.data[k] * scalar);
            k += 1;
        }
        Matrix { rows: m.rows, cols: m.cols, data: v }
    }

    /// The sum of all elements, taken in row-major order.
    pub fn sum(&self) -> (r: T)
        where
            T: core::ops::Add<Output = T>,
        requires
            self.wf(),
            (forall|x: T, y: T| x.add_req(y)) || (T::obeys_add_spec() && total_defined(self@.elems)),
        ensures
            T::obeys_add_spec() ==> r == total(self@.elems),
    {
        proof {
            lemma_cell_index(0, 0, self.rows as int, self.cols as int);
        }
        let n = self.data.len();
        let mut acc = self.data[0];
        let mut k: usize = 1;
        while k < n
            invariant
                self.wf(),
                n == self@.elems.len(),
                (forall|x: T, y: T| x.add_req(y)) || (T::obeys_add_spec() && total_defined(
                    self@.elems,
                )),
                1 <= k <= n,
                T::obeys_add_spec() ==> acc == total_prefix(self@.elems, k as nat),
            decreases n - k,
        {
            let x = self.data[k];
            assert(x == self@.elems[k as int]);
            acc = acc + x;
            k += 1;
        }
        acc
    }

    /// A new matrix of the same shape with `f` applied to every element.
    pub fn apply<F: Fn(T) -> T>(&self, f: F) -> (r: Matrix<T>)
        requires
            self.wf(),
            forall|x: T| f.requires((x,)),
        ensures
            r.wf(),
            r@.rows == self@.rows,
            r@.cols == self@.cols,
            r@.elems.len() == self@.elems.len(),
            forall|k: int| 0 <= k < self@.elems.len() ==> f.ensures((self@.elems[k],), #[trigger] r@.elems[k]),
    {
        let n = self.data.len();
        let mut v: Vec<T> = Vec::new();
        let mut k: usize = 0;
        while k < n
            invariant
                self.wf(),
                n == self@.elems.len(),
                forall|x: T| f.requires((x,)),
                k <= n,
                v.len() == k,
                forall|q: int| 0 <= q < k ==> f.ensures((self@.elems[q],), #[trigger] v@[q]),
            decreases n - k,
        {
            let y = f(self.data[k]);
            v.push(y);
            k += 1;
        }
        Matrix { rows: self.rows, cols: self.cols, data: v }
    }

    /// Overwrites every element with the matching entry of `samples`, in row-major order.
    ///
    /// For He initialisation the caller draws `samples` independently from a Gaussian of
    /// mean 0 and standard deviation `sqrt(2 / n_inputs)`, one per element. A zero
    /// `n_inputs` leaves that deviation undefined and is refused; so is a number of
    /// samples other than the number of elements. A refused call changes nothing.
    pub fn initialize(&mut self, n_inputs: usize, samples: Vec<T>) -> (r: Result<(), MatrixError>)
        requires
            old(self).wf(),
        ensures
            final(self).wf(),
            r is Err <==> (n_inputs == 0 || samples@.len() != old(self)@.elems.len()),
            r is Err ==> final(self)@ == old(self)@,
            r is Err ==> r->Err_0 == (if n_inputs == 0 {
                MatrixError::InvalidArgument
            } else {
                MatrixError::ShapeMismatch
            }),
            r is Ok ==> final(self)@ == (MatrixModel {
                rows: old(self)@.rows,
                cols: old(self)@.cols,
                elems: samples@,
            }),
    {
        if n_inputs == 0 {
            return Err(MatrixError::InvalidArgument);
        }
        if samples.len() != self.data.len() {
            return Err(MatrixError::ShapeMismatch);
        }
        self.data = samples;
        Ok(())
    }

    /// Matrix inverse: not provided; every call is refused.
    pub fn inv(&self) -> (r: Result<Matrix<T>, MatrixError>)
        ensures
            r is Err,
            r->Err_0 == MatrixError::Unsupported,
    {
        Err(MatrixError::Unsupported)
    }

    /// Determinant: not provided; every call is refused.
    pub fn det(&self) -> (r: Result<T, MatrixError>)
        ensures
            r is Err,
            r->Err_0 == MatrixError::Unsupported,
    {
        Err(MatrixError::Unsupported)
    }

    /// Cofactor of cell `(row, col)`: not provided; every call is refused.
    pub fn cofactor(&self, row: usize, col: usize) -> (r: Result<T, MatrixError>)
        ensures
            r is Err,
            r->Err_0 == MatrixError::Unsupported,
    {
        Err(MatrixError::Unsupported)
    }
}

/// Transposing twice gives back the original matrix, shape and elements.
pub proof fn lemma_transpose_involution<T>(m: MatrixModel<T>)
    requires
        m.wf(),
    ensures
        m.transposed().transposed() == m,
{
    let t = m.transposed();
    let tt = t.transposed();
    let r = m.rows as int;
    let c = m.cols as int;
    assert(c * r == r * c) by (nonlinear_arith);
    assert forall|k: int| 0 <= k < r * c implies #[trigger] tt.elems[k] == m.elems[k] by {
        lemma_index_cell(k, r, c);
        let i = k / c;
        let j = k % c;
        // cell (i, j) of m sits at flat index j * r + i of t
        lemma_cell_index(j, i, c, r);
        lemma_split_index(j, i, r);
        assert(tt.elems[k] == t.elems[(k % c) * r + k / c]);
    }
    assert(tt.elems =~= m.elems);
}

} // verus!
