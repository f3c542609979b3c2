//! A dense matrix in row-major order, and what its product with another is.

use crate::render::{layout, render_cells, views};
use crate::vector::{dot_defined, dot_prefix, is_zero, step_defined, Vector};
use core::fmt::Display;
use core::ops::Add;
use core::ops::Mul;
use vstd::prelude::*;
use vstd::string::to_string_from_display_ensures;
use vstd::string::StringExecFns;
use vstd::std_specs::ops::AddSpec;
use vstd::std_specs::ops::MulSpec;

verus! {

/// A matrix of `row` rows and `col` columns, its cells stored row after row.
pub struct Matrix<T> {
    data: Vec<T>,
    row: usize,
    col: usize,
}

impl<T> Matrix<T> {
    /// The number of rows.
    pub closed spec fn rows(&self) -> nat {
        self.row as nat
    }

    /// The number of columns.
    pub closed spec fn cols(&self) -> nat {
        self.col as nat
    }

    /// The cells, row after row.
    pub closed spec fn cells(&self) -> Seq<T> {
        self.data@
    }

    /// There are as many cells as the dimensions ask for.
    pub open spec fn well_formed(&self) -> bool {
        self.cells().len() == self.rows() * self.cols()
    }

    /// The cell in row `i` and column `j`.
    pub open spec fn at(&self, i: int, j: int) -> T {
        self.cells()[i * self.cols() + j]
    }

    /// Row `i`, left to right.
    pub open spec fn row_seq(&self, i: int) -> Seq<T> {
        Seq::new(self.cols(), |k: int| self.at(i, k))
    }

    /// Column `j`, top to bottom.
    pub open spec fn col_seq(&self, j: int) -> Seq<T> {
        Seq::new(self.rows(), |k: int| self.at(k, j))
    }

    /// A matrix of `rows` rows and `cols` columns over `data`, which holds the
    /// rows one after the other and is stored as it is.
    pub fn new(data: Vec<T>, rows: usize, cols: usize) -> (m: Self)
        requires
            data@.len() == rows * cols,
        ensures
            m.well_formed(),
            m.rows() == rows,
            m.cols() == cols,
            m.cells() == data@,
    {
        Self { data, row: rows, col: cols }
    }

    /// The number of rows.
    pub fn row(&self) -> (n: usize)
        ensures
            n == self.rows(),
    {
        self.row
    }

    /// The number of columns.
    pub fn col(&self) -> (n: usize)
        ensures
            n == self.cols(),
    {
        self.col
    }

    /// The cells, row after row.
    pub fn data(&self) -> (s: &[T])
        ensures
            s@ == self.cells(),
    {
        self.data.as_slice()
    }

    /// A copy of row `i`: the `col` cells that start at `i * col`.
    pub fn row_vector(&self, i: usize) -> (v: Vector<T>) where T: Copy
        requires
            self.well_formed(),
            i < self.rows(),
        ensures
            v@ == self.row_seq(i as int),
            v@ == self.cells().subrange(i * self.cols(), (i + 1) * self.cols()),
    {
        let total = self.data.len();
        let mut out: Vec<T> = Vec::with_capacity(self.col);
        for k in 0..self.col
            invariant
                self.well_formed(),
                i < self.rows(),
                total == self.cells().len(),
                out@.len() == k,
                forall|n: int| 0 <= n < k ==> out@[n] == self.at(i as int, n),
        {
            proof {
                lemma_cell_index(self.row as int, self.col as int, i as int, k as int);
            }
            out.push(self.data[i * self.col + k]);
        }
        proof {
            let c = self.col as int;
            assert(out@ =~= self.row_seq(i as int));
            if c > 0 {
                lemma_cell_index(self.row as int, c, i as int, 0);
            } else {
                assert(i * c == 0 && (i + 1) * c == 0) by (nonlinear_arith)
                    requires
                        c == 0,
                ;
            }
            assert(out@ =~= self.cells().subrange(i * c, (i + 1) * c));
        }
        Vector::new(out)
    }

    /// A copy of column `j`: every `col`-th cell from cell `j` on, `row` of them.
    pub fn col_vector(&self, j: usize) -> (v: Vector<T>) where T: Copy
        requires
            self.well_formed(),
            j < self.cols(),
        ensures
            v@ == self.col_seq(j as int),
    {
        let total = self.data.len();
        let mut out: Vec<T> = Vec::with_capacity(self.row);
        for k in 0..self.row
            invariant
                self.well_formed(),
                j < self.cols(),
                total == self.cells().len(),
                out@.len() == k,
                forall|n: int| 0 <= n < k ==> out@[n] == self.at(n, j as int),
        {
            proof {
                lemma_cell_index(self.row as int, self.col as int, k as int, j as int);
            }
            out.push(self.data[k * self.col + j]);
        }
        proof {
            assert(out@ =~= self.col_seq(j as int));
        }
        Vector::new(out)
    }
}

/// `texts` are the cells of `cells` as `Display` writes them, one for one.
pub open spec fn shown_as<T: Display>(cells: Seq<T>, texts: Seq<String>) -> bool {
    &&& texts.len() == cells.len()
    &&& forall|k: int|
        0 <= k < cells.len() ==> to_string_from_display_ensures::<T>(&cells[k], #[trigger] texts[k])
}

/// What stands before the cells where a matrix is written out with its
/// dimensions, `rows` and `cols` being the two numbers as written.
pub open spec fn heading(rows: Seq<char>, cols: Seq<char>) -> Seq<char> {
    "Matrix(row="@ + rows + ",col="@ + cols + ") "@
}

impl<T: Display> Matrix<T> {
    /// The matrix written out, as in `{1 2 3, 4 5 6}`: each cell as `Display`
    /// writes it, laid out by rows.
    pub fn to_string(&self) -> (s: String)
        requires
            self.well_formed(),
        ensures
            exists|texts: Seq<String>| #[trigger]
                shown_as(self.cells(), texts) && s@ == layout(
                    views(texts),
                    self.rows(),
                    self.cols(),
                ),
    {
        let n = self.data.len();
        let mut texts: Vec<String> = Vec::with_capacity(n);
        for k in 0..n
            invariant
                n == self.cells().len(),
                texts@.len() == k,
                forall|m: int|
                    0 <= m < k ==> to_string_from_display_ensures::<T>(
                        &self.cells()[m],
                        #[trigger] texts@[m],
                    ),
        {
            texts.push(self.data[k].to_string());
        }
        assert(shown_as(self.cells(), texts@));
        render_cells(&texts, self.row, self.col)
    }

    /// The matrix written out after its dimensions, as in
    /// `Matrix(row=2,col=3) {1 2 3, 4 5 6}`.
    pub fn debug_string(&self) -> (s: String)
        requires
            self.well_formed(),
        ensures
            exists|texts: Seq<String>, rows: String, cols: String| #[trigger]
                shown_as(self.cells(), texts) && #[trigger] to_string_from_display_ensures::<usize>(
                    &(self.rows() as usize),
                    rows,
                ) && #[trigger] to_string_from_display_ensures::<usize>(
                    &(self.cols() as usize),
                    cols,
                ) && s@ == heading(rows@, cols@) + layout(views(texts), self.rows(), self.cols()),
    {
        let rows = self.row.to_string();
        let cols = self.col.to_string();
        let body = self.to_string();
        let mut s = String::from_str("Matrix(row=");
        s.append(rows.as_str());
        s.append(",col=");
        s.append(cols.as_str());
        s.append(") ");
        s.append(body.as_str());
        proof {
            let texts = choose|texts: Seq<String>| #[trigger]
                shown_as(self.cells(), texts) && body@ == layout(
                    views(texts),
                    self.rows(),
                    self.cols(),
                );
            assert(s@ =~= heading(rows@, cols@) + layout(views(texts), self.rows(), self.cols()));
            assert(to_string_from_display_ensures::<usize>(&(self.rows() as usize), rows));
            assert(to_string_from_display_ensures::<usize>(&(self.cols() as usize), cols));
        }
        s
    }
}

/// In a grid of `rows` rows and `cols` columns stored row after row, cell
/// `(i, j)` has a place of its own below `rows * cols`, and row `i` ends at or
/// below it.
pub proof fn lemma_cell_index(rows: int, cols: int, i: int, j: int)
    requires
        0 <= i < rows,
        0 <= j < cols,
    ensures
        0 <= i * cols <= i * cols + j < (i + 1) * cols <= rows * cols,
        (i + 1) * cols == i * cols + cols,
{
    assert(0 <= i * cols) by (nonlinear_arith)
        requires
            0 <= i,
            0 <= cols,
    ;
    assert((i + 1) * cols == i * cols + cols) by (nonlinear_arith);
    assert((i + 1) * cols <= rows * cols) by (nonlinear_arith)
        requires
            i + 1 <= rows,
            0 <= cols,
    ;
}

/// The first `n` terms of the sum over `k` of `a[i][k] * b[k][j]`, added in
/// order of `k` onto `zero`: what the innermost of three nested loops has
/// accumulated after `n` rounds.
pub open spec fn cell_prefix<T: Add<Output = T> + Mul<Output = T>>(
    zero: T,
    a: Matrix<T>,
    b: Matrix<T>,
    i: int,
    j: int,
    n: nat,
) -> T
    decreases n,
{
    if n == 0 {
        zero
    } else {
        cell_prefix(zero, a, b, i, j, (n - 1) as nat).add_spec(
            a.at(i, n - 1).mul_spec(b.at(n - 1, j)),
        )
    }
}

/// Cell `(i, j)` of the product of `a` and `b`, accumulated from `zero`.
pub open spec fn product_cell<T: Add<Output = T> + Mul<Output = T>>(
    zero: T,
    a: Matrix<T>,
    b: Matrix<T>,
    i: int,
    j: int,
) -> T {
    cell_prefix(zero, a, b, i, j, a.cols())
}

/// `T` admits the `k`-th multiplication of cell `(i, j)` and the addition that
/// follows it.
pub open spec fn term_defined<T: Add<Output = T> + Mul<Output = T>>(
    zero: T,
    a: Matrix<T>,
    b: Matrix<T>,
    i: int,
    j: int,
    k: int,
) -> bool {
    &&& a.at(i, k).mul_req(b.at(k, j))
    &&& cell_prefix(zero, a, b, i, j, k as nat).add_req(a.at(i, k).mul_spec(b.at(k, j)))
}

/// `T` admits every operation of the product of `a` and `b`: for the integers,
/// no cell overflows on the way to its value.
pub open spec fn product_defined<T: Add<Output = T> + Mul<Output = T> + Default>(
    a: Matrix<T>,
    b: Matrix<T>,
) -> bool {
    forall|z: T, i: int, j: int, k: int|
        is_zero(z) && 0 <= i < a.rows() && 0 <= j < b.cols() && 0 <= k < a.cols()
            ==> #[trigger] term_defined(z, a, b, i, j, k)
}

/// `v` is cell `(i, j)` of the product of `a` and `b`, from a zero of `T`.
pub open spec fn is_product_cell<T: Add<Output = T> + Mul<Output = T> + Default>(
    v: T,
    a: Matrix<T>,
    b: Matrix<T>,
    i: int,
    j: int,
) -> bool {
    exists|z: T| #[trigger] is_zero(z) && v == product_cell(z, a, b, i, j)
}

/// `m` is the product of `a` and `b`: it has the rows of `a`, the columns of
/// `b`, and in each cell the value that the three nested loops compute.
pub open spec fn is_product<T: Add<Output = T> + Mul<Output = T> + Default>(
    m: Matrix<T>,
    a: Matrix<T>,
    b: Matrix<T>,
) -> bool {
    &&& m.well_formed()
    &&& m.rows() == a.rows()
    &&& m.cols() == b.cols()
    &&& forall|i: int, j: int|
        0 <= i < m.rows() && 0 <= j < m.cols() ==> is_product_cell(
            #[trigger] m.at(i, j),
            a,
            b,
            i,
            j,
        )
}

/// The dot product of row `i` of `a` and column `j` of `b` runs through the
/// same partial sums as cell `(i, j)` of the nested loops.
pub proof fn lemma_dot_is_cell<T: Add<Output = T> + Mul<Output = T>>(
    zero: T,
    a: Matrix<T>,
    b: Matrix<T>,
    i: int,
    j: int,
    n: nat,
)
    requires
        a.cols() == b.rows(),
        n <= a.cols(),
    ensures
        dot_prefix(zero, a.row_seq(i), b.col_seq(j), n) == cell_prefix(zero, a, b, i, j, n),
    decreases n,
{
    if n > 0 {
        lemma_dot_is_cell(zero, a, b, i, j, (n - 1) as nat);
    }
}

/// Where the product is defined, so is the dot product of each row of `a`
/// with each column of `b`.
pub proof fn lemma_product_defined_dots<T: Add<Output = T> + Mul<Output = T> + Default>(
    zero: T,
    a: Matrix<T>,
    b: Matrix<T>,
    i: int,
    j: int,
)
    requires
        a.cols() == b.rows(),
        product_defined(a, b),
        is_zero(zero),
        0 <= i < a.rows(),
        0 <= j < b.cols(),
    ensures
        dot_defined(zero, a.row_seq(i), b.col_seq(j)),
{
    let r = a.row_seq(i);
    let c = b.col_seq(j);
    assert forall|k: int| 0 <= k < r.len() implies #[trigger] step_defined(zero, r, c, k) by {
        lemma_dot_is_cell(zero, a, b, i, j, k as nat);
        assert(term_defined(zero, a, b, i, j, k));
    }
}

} // verus!
