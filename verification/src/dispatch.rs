//! The dispatcher: splits a product into one task per output cell, says which
//! worker takes which task, and gathers the answers by destination.

use crate::error::Error;
use crate::matrix::{
    is_product, is_product_cell, lemma_cell_index, lemma_dot_is_cell, lemma_product_defined_dots,
    product_defined, Matrix,
};
use crate::task::{answers, compute, task_defined, MsgInput, MsgOutput};
use crate::vector::{dot, dot_defined, is_zero, lawful};
use core::ops::Add;
use core::ops::Mul;
use vstd::arithmetic::div_mod::{lemma_fundamental_div_mod, lemma_fundamental_div_mod_converse};
use vstd::prelude::*;

verus! {

/// The number of workers in the pool.
pub const NUM_THREADS: usize = 4;

/// The worker that the task for cell `idx` goes to: the workers take the
/// cells in turn.
pub fn worker_for(idx: usize) -> (w: usize)
    ensures
        w == idx % NUM_THREADS,
        w < NUM_THREADS,
{
    idx % NUM_THREADS
}

/// In a grid of `rows` rows and `cols` columns counted row after row, place
/// `k` lies in row `k / cols` and column `k % cols`.
pub proof fn lemma_cell_of_index(rows: int, cols: int, k: int)
    requires
        0 <= rows,
        0 <= cols,
        0 <= k < rows * cols,
    ensures
        cols > 0,
        0 <= k / cols < rows,
        0 <= k % cols < cols,
        k == (k / cols) * cols + k % cols,
{
    if cols == 0 {
        assert(rows * cols == 0) by (nonlinear_arith)
            requires
                cols == 0,
        ;
    }
    lemma_fundamental_div_mod(k, cols);
    assert(0 <= k / cols < rows && k == (k / cols) * cols + k % cols) by (nonlinear_arith)
        requires
            0 <= k < rows * cols,
            cols > 0,
            k == cols * (k / cols) + (k % cols),
            0 <= k % cols < cols,
    ;
}

/// `t` is the task for cell `k` of the product of `a` and `b`, the cells
/// counted row after row: it is addressed to `k` and carries the row of `a`
/// and the column of `b` that meet there.
pub open spec fn is_task<T>(t: MsgInput<T>, a: Matrix<T>, b: Matrix<T>, k: int) -> bool {
    &&& t.idx == k
    &&& t.row@ == a.row_seq(k / (b.cols() as int))
    &&& t.col@ == b.col_seq(k % (b.cols() as int))
}

/// The task for cell `k` of the product of `a` and `b`.
pub fn task_at<T: Copy>(a: &Matrix<T>, b: &Matrix<T>, k: usize) -> (t: MsgInput<T>)
    requires
        a.well_formed(),
        b.well_formed(),
        k < a.rows() * b.cols(),
    ensures
        is_task(t, *a, *b, k as int),
{
    let cols = b.col();
    proof {
        lemma_cell_of_index(a.rows() as int, cols as int, k as int);
    }
    let i = k / cols;
    let j = k % cols;
    MsgInput::new(k, a.row_vector(i), b.col_vector(j))
}

/// The tasks of the product of `a` and `b`, in the order in which they are
/// handed out: one for each cell, row after row. Task `k` is addressed to cell
/// `k`, so every cell is asked for once and no other place is.
pub fn plan<T: Copy>(a: &Matrix<T>, b: &Matrix<T>) -> (tasks: Vec<MsgInput<T>>)
    requires
        a.well_formed(),
        b.well_formed(),
        a.rows() * b.cols() <= usize::MAX,
    ensures
        tasks@.len() == a.rows() * b.cols(),
        forall|k: int| 0 <= k < tasks@.len() ==> is_task(#[trigger] tasks@[k], *a, *b, k),
{
    proof {
        assert(0 <= a.rows() * b.cols()) by (nonlinear_arith);
    }
    let n = a.row() * b.col();
    let mut tasks: Vec<MsgInput<T>> = Vec::with_capacity(n);
    for k in 0..n
        invariant
            a.well_formed(),
            b.well_formed(),
            n == a.rows() * b.cols(),
            tasks@.len() == k,
            forall|m: int| 0 <= m < k ==> is_task(#[trigger] tasks@[m], *a, *b, m),
    {
        tasks.push(task_at(a, b, k));
    }
    tasks
}

/// The result of a product while its answers come in.
pub struct Gather<T> {
    data: Vec<T>,
    row: usize,
    col: usize,
}

impl<T> Gather<T> {
    /// The number of rows of the result.
    pub closed spec fn rows(&self) -> nat {
        self.row as nat
    }

    /// The number of columns of the result.
    pub closed spec fn cols(&self) -> nat {
        self.col as nat
    }

    /// The cells as they stand, row after row.
    pub closed spec fn cells(&self) -> Seq<T> {
        self.data@
    }

    /// There is a cell for every place of the result.
    pub open spec fn well_formed(&self) -> bool {
        self.cells().len() == self.rows() * self.cols()
    }

    /// A result of `rows` rows and `cols` columns with a zero in every cell.
    pub fn new(rows: usize, cols: usize) -> (g: Self) where T: Copy + Default
        requires
            rows * cols <= usize::MAX,
        ensures
            g.well_formed(),
            g.rows() == rows,
            g.cols() == cols,
            forall|k: int| 0 <= k < g.cells().len() ==> is_zero(#[trigger] g.cells()[k]),
    {
        proof {
            assert(0 <= rows * cols) by (nonlinear_arith);
        }
        let n = rows * cols;
        let zero = T::default();
        let mut data: Vec<T> = Vec::with_capacity(n);
        for k in 0..n
            invariant
                data@.len() == k,
                is_zero(zero),
                forall|m: int| 0 <= m < k ==> is_zero(#[trigger] data@[m]),
        {
            data.push(zero);
        }
        Self { data, row: rows, col: cols }
    }

    /// Takes in what came back for one task.
    ///
    /// An answer is written to the cell it is addressed to. No answer (the
    /// reply channel was closed first) and an answer addressed to no cell of
    /// the result are failures, and leave the cells as they were.
    pub fn accept(&mut self, reply: Option<MsgOutput<T>>) -> (r: Result<(), Error>)
        ensures
            final(self).rows() == old(self).rows(),
            final(self).cols() == old(self).cols(),
            match reply {
                Some(out) if out.idx < old(self).cells().len() => {
                    &&& r is Ok
                    &&& final(self).cells() == old(self).cells().update(out.idx as int, out.value)
                },
                _ => {
                    &&& r == Err::<(), Error>(Error::ReceiveFailure)
                    &&& final(self).cells() == old(self).cells()
                },
            },
    {
        match reply {
            Some(out) => {
                if out.idx < self.data.len() {
                    self.data[out.idx] = out.value;
                    Ok(())
                } else {
                    Err(Error::ReceiveFailure)
                }
            },
            None => Err(Error::ReceiveFailure),
        }
    }

    /// The result, once every answer is in.
    pub fn finish(self) -> (m: Matrix<T>)
        requires
            self.well_formed(),
        ensures
            m.well_formed(),
            m.rows() == self.rows(),
            m.cols() == self.cols(),
            m.cells() == self.cells(),
    {
        Matrix::new(self.data, self.row, self.col)
    }
}

/// The task for a cell of a conformable product can be computed: its
/// operands are of one length, and where the product is defined, so is their
/// dot product.
pub proof fn lemma_task_defined<T: Add<Output = T> + Mul<Output = T> + Default>(
    a: Matrix<T>,
    b: Matrix<T>,
    t: MsgInput<T>,
    k: int,
)
    requires
        a.cols() == b.rows(),
        product_defined(a, b),
        0 <= k < a.rows() * b.cols(),
        is_task(t, a, b, k),
    ensures
        t.row@.len() == t.col@.len(),
        task_defined(t),
{
    let c = b.cols() as int;
    lemma_cell_of_index(a.rows() as int, c, k);
    assert forall|z: T| is_zero(z) implies dot_defined(z, t.row@, t.col@) by {
        lemma_product_defined_dots(z, a, b, k / c, k % c);
    }
}

/// The answer to the task for cell `k` is the value that the three nested
/// loops compute for that cell.
pub proof fn lemma_answer_is_cell<T: Add<Output = T> + Mul<Output = T> + Default>(
    a: Matrix<T>,
    b: Matrix<T>,
    t: MsgInput<T>,
    out: MsgOutput<T>,
    k: int,
)
    requires
        a.cols() == b.rows(),
        0 <= k < a.rows() * b.cols(),
        is_task(t, a, b, k),
        answers(out, t),
    ensures
        out.idx == k,
        is_product_cell(out.value, a, b, k / (b.cols() as int), k % (b.cols() as int)),
{
    let c = b.cols() as int;
    let z = choose|z: T| #[trigger] is_zero(z) && out.value == dot(z, t.row@, t.col@);
    lemma_dot_is_cell(z, a, b, k / c, k % c, a.cols());
}

/// The product of `a` and `b`.
///
/// Matrices that do not fit (the columns of `a` are not as many as the rows
/// of `b`) are refused before any task is made. Else there is one task for
/// each cell of the result, each is computed on its own, and each answer is
/// written where it is addressed to: the result is the one that three nested
/// loops over rows, columns and terms compute.
pub fn multiply<T>(a: &Matrix<T>, b: &Matrix<T>) -> (r: Result<Matrix<T>, Error>) where
    T: Add<Output = T> + Mul<Output = T> + Copy + Default,

    requires
        a.well_formed(),
        b.well_formed(),
        lawful::<T>(),
        a.cols() == b.rows() ==> a.rows() * b.cols() <= usize::MAX && product_defined(*a, *b),
    ensures
        r is Err <==> a.cols() != b.rows(),
        r matches Err(e) ==> e == Error::ShapeMismatch,
        r matches Ok(m) ==> is_product(m, *a, *b),
{
    if a.col() != b.row() {
        return Err(Error::ShapeMismatch);
    }
    proof {
        assert(0 <= a.rows() * b.cols()) by (nonlinear_arith);
    }
    let n = a.row() * b.col();
    let mut gather: Gather<T> = Gather::new(a.row(), b.col());
    for k in 0..n
        invariant
            a.well_formed(),
            b.well_formed(),
            lawful::<T>(),
            a.cols() == b.rows(),
            product_defined(*a, *b),
            n == a.rows() * b.cols(),
            gather.well_formed(),
            gather.rows() == a.rows(),
            gather.cols() == b.cols(),
            forall|m: int|
                0 <= m < k ==> is_product_cell(
                    #[trigger] gather.cells()[m],
                    *a,
                    *b,
                    m / (b.cols() as int),
                    m % (b.cols() as int),
                ),
    {
        let t = task_at(a, b, k);
        proof {
            lemma_task_defined(*a, *b, t, k as int);
        }
        match compute(t) {
            Ok(out) => {
                proof {
                    lemma_answer_is_cell(*a, *b, t, out, k as int);
                }
                match gather.accept(Some(out)) {
                    Ok(()) => {},
                    Err(e) => {
                        return Err(e);
                    },
                }
            },
            Err(e) => {
                return Err(e);
            },
        }
    }
    let m = gather.finish();
    proof {
        let c = b.cols() as int;
        assert forall|i: int, j: int| 0 <= i < m.rows() && 0 <= j < m.cols() implies is_product_cell(
            #[trigger] m.at(i, j),
            *a,
            *b,
            i,
            j,
        ) by {
            lemma_cell_index(m.rows() as int, c, i, j);
            lemma_fundamental_div_mod_converse(i * c + j, c, i, j);
            assert(is_product_cell(m.cells()[i * c + j], *a, *b, (i * c + j) / c, (i * c + j) % c));
        }
    }
    Ok(m)
}

} // verus!
