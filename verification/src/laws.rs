//! What holds of the operations taken together.

use crate::dispatch::{is_task, lemma_cell_of_index, NUM_THREADS};
use crate::matrix::{is_product, is_product_cell, product_cell, Matrix};
use crate::task::{MsgInput, MsgOutput};
use crate::vector::{dot, dot_defined, dot_prefix, is_dot, is_zero, step_defined};
use core::ops::Add;
use core::ops::Mul;
use vstd::prelude::*;
use vstd::set_lib::{lemma_int_range, lemma_subset_equality, set_int_range};
use vstd::std_specs::ops::AddSpec;
use vstd::std_specs::ops::MulSpec;

verus! {

/// `T` has one zero: `T::default()` returns the same value every time.
pub open spec fn zero_unique<T: Default>() -> bool {
    forall|x: T, y: T| is_zero(x) && is_zero(y) ==> x == y
}

/// The order of the factors matters neither to whether `T` admits a
/// multiplication nor to its result.
pub open spec fn mul_commutes<T: Mul<Output = T>>() -> bool {
    forall|x: T, y: T|
        #![trigger x.mul_spec(y)]
        #![trigger x.mul_req(y)]
        x.mul_req(y) == y.mul_req(x) && x.mul_spec(y) == y.mul_spec(x)
}

/// The partial sums of a dot product do not depend on the order of its
/// operands, where the multiplication of `T` does not.
pub proof fn lemma_dot_prefix_commutes<T: Add<Output = T> + Mul<Output = T>>(
    zero: T,
    a: Seq<T>,
    b: Seq<T>,
    n: nat,
)
    requires
        mul_commutes::<T>(),
    ensures
        dot_prefix(zero, a, b, n) == dot_prefix(zero, b, a, n),
    decreases n,
{
    if n > 0 {
        lemma_dot_prefix_commutes(zero, a, b, (n - 1) as nat);
        assert(a[n - 1].mul_spec(b[n - 1]) == b[n - 1].mul_spec(a[n - 1]));
    }
}

/// The dot product of two vectors of one length is the same in either order
/// of the operands, where the multiplication of `T` is: it is defined for the
/// one order where it is for the other, and every value that is a dot product
/// of `a` and `b` is one of `b` and `a`.
pub proof fn lemma_dot_commutes<T: Add<Output = T> + Mul<Output = T> + Default>(
    a: Seq<T>,
    b: Seq<T>,
)
    requires
        a.len() == b.len(),
        mul_commutes::<T>(),
    ensures
        forall|z: T| dot(z, a, b) == dot(z, b, a),
        forall|z: T| dot_defined(z, a, b) <==> dot_defined(z, b, a),
        forall|v: T| is_dot(v, a, b) <==> is_dot(v, b, a),
{
    assert forall|z: T| dot(z, a, b) == dot(z, b, a) by {
        lemma_dot_prefix_commutes(z, a, b, a.len());
    }
    assert forall|z: T| dot_defined(z, a, b) <==> dot_defined(z, b, a) by {
        assert forall|k: int| 0 <= k < a.len() implies (#[trigger] step_defined(z, a, b, k)
            <==> step_defined(z, b, a, k)) by {
            lemma_dot_prefix_commutes(z, a, b, k as nat);
            assert(a[k].mul_req(b[k]) == b[k].mul_req(a[k]));
            assert(a[k].mul_spec(b[k]) == b[k].mul_spec(a[k]));
        }
        if dot_defined(z, a, b) {
            assert forall|k: int| 0 <= k < b.len() implies #[trigger] step_defined(z, b, a, k) by {
                assert(step_defined(z, a, b, k));
            }
        }
        if dot_defined(z, b, a) {
            assert forall|k: int| 0 <= k < a.len() implies #[trigger] step_defined(z, a, b, k) by {
                assert(step_defined(z, b, a, k));
            }
        }
    }
    assert forall|v: T| is_dot(v, a, b) <==> is_dot(v, b, a) by {
        if is_dot(v, a, b) {
            let z = choose|z: T| #[trigger] is_zero(z) && v == dot(z, a, b);
            assert(is_zero(z) && v == dot(z, b, a));
        }
        if is_dot(v, b, a) {
            let z = choose|z: T| #[trigger] is_zero(z) && v == dot(z, b, a);
            assert(is_zero(z) && v == dot(z, a, b));
        }
    }
}

/// The machine integers have one zero each, and their multiplication does not
/// depend on the order of the factors.
pub proof fn lemma_integers_commute()
    ensures
        zero_unique::<i8>() && mul_commutes::<i8>(),
        zero_unique::<i16>() && mul_commutes::<i16>(),
        zero_unique::<i32>() && mul_commutes::<i32>(),
        zero_unique::<i64>() && mul_commutes::<i64>(),
        zero_unique::<i128>() && mul_commutes::<i128>(),
        zero_unique::<isize>() && mul_commutes::<isize>(),
        zero_unique::<u8>() && mul_commutes::<u8>(),
        zero_unique::<u16>() && mul_commutes::<u16>(),
        zero_unique::<u32>() && mul_commutes::<u32>(),
        zero_unique::<u64>() && mul_commutes::<u64>(),
        zero_unique::<u128>() && mul_commutes::<u128>(),
        zero_unique::<usize>() && mul_commutes::<usize>(),
{
    assert forall|x: int, y: int| #[trigger] (x * y) == y * x by {
        assert(x * y == y * x) by (nonlinear_arith);
    }
}

/// Two dot products of the same operands are the same value, where `T` has
/// one zero: nothing but the operands goes into the result.
pub proof fn lemma_dot_repeatable<T: Add<Output = T> + Mul<Output = T> + Default>(
    v1: T,
    v2: T,
    a: Seq<T>,
    b: Seq<T>,
)
    requires
        zero_unique::<T>(),
        is_dot(v1, a, b),
        is_dot(v2, a, b),
    ensures
        v1 == v2,
{
    let z1 = choose|z: T| #[trigger] is_zero(z) && v1 == dot(z, a, b);
    let z2 = choose|z: T| #[trigger] is_zero(z) && v2 == dot(z, a, b);
    assert(z1 == z2);
}

/// Two products of the same matrices are the same, cell for cell, where `T`
/// has one zero: multiplying again gives the same result again.
pub proof fn lemma_product_repeatable<T: Add<Output = T> + Mul<Output = T> + Default>(
    m1: Matrix<T>,
    m2: Matrix<T>,
    a: Matrix<T>,
    b: Matrix<T>,
)
    requires
        zero_unique::<T>(),
        is_product(m1, a, b),
        is_product(m2, a, b),
    ensures
        m1.rows() == m2.rows(),
        m1.cols() == m2.cols(),
        m1.cells() == m2.cells(),
{
    let c = m1.cols() as int;
    assert forall|k: int| 0 <= k < m1.cells().len() implies m1.cells()[k] == m2.cells()[k] by {
        lemma_cell_of_index(m1.rows() as int, c, k);
        let i = k / c;
        let j = k % c;
        assert(is_product_cell(m1.at(i, j), a, b, i, j));
        assert(is_product_cell(m2.at(i, j), a, b, i, j));
        let z1 = choose|z: T| #[trigger]
            is_zero(z) && m1.at(i, j) == product_cell(z, a, b, i, j);
        let z2 = choose|z: T| #[trigger]
            is_zero(z) && m2.at(i, j) == product_cell(z, a, b, i, j);
        assert(z1 == z2);
    }
    assert(m1.cells() =~= m2.cells());
}

/// In a plan every cell of the result is addressed by one task and no more,
/// and no task is addressed anywhere else.
pub proof fn lemma_plan_addresses_each_cell_once<T>(
    tasks: Seq<MsgInput<T>>,
    a: Matrix<T>,
    b: Matrix<T>,
)
    requires
        tasks.len() == a.rows() * b.cols(),
        forall|k: int| 0 <= k < tasks.len() ==> is_task(#[trigger] tasks[k], a, b, k),
    ensures
        forall|k: int| 0 <= k < tasks.len() ==> 0 <= (#[trigger] tasks[k]).idx < a.rows() * b.cols(),
        forall|cell: int|
            0 <= cell < a.rows() * b.cols() ==> (#[trigger] tasks[cell]).idx == cell,
        forall|k1: int, k2: int|
            0 <= k1 < tasks.len() && 0 <= k2 < tasks.len() && (#[trigger] tasks[k1]).idx == (
            #[trigger] tasks[k2]).idx ==> k1 == k2,
{
}

/// The cells after the first `n` of `outs` have been written, each where it
/// is addressed to, onto `cells`.
pub open spec fn gathered<T>(cells: Seq<T>, outs: Seq<MsgOutput<T>>, n: nat) -> Seq<T>
    decreases n,
{
    if n == 0 {
        cells
    } else {
        gathered(cells, outs, (n - 1) as nat).update(outs[n - 1].idx as int, outs[n - 1].value)
    }
}

/// No two of `outs` are addressed to the same cell, and each is addressed to
/// one of the `len` cells.
pub open spec fn addressed_apart<T>(outs: Seq<MsgOutput<T>>, len: nat) -> bool {
    &&& forall|k: int| 0 <= k < outs.len() ==> (#[trigger] outs[k]).idx < len
    &&& forall|k1: int, k2: int|
        0 <= k1 < k2 < outs.len() ==> (#[trigger] outs[k1]).idx != (#[trigger] outs[k2]).idx
}

/// Answers that are addressed to different cells end up each in its cell, in
/// whatever order they come in: none is lost, none is written twice, and a
/// cell that none is addressed to stays as it was.
pub proof fn lemma_gather_by_destination<T>(cells: Seq<T>, outs: Seq<MsgOutput<T>>, n: nat)
    requires
        n <= outs.len(),
        addressed_apart(outs, cells.len()),
    ensures
        gathered(cells, outs, n).len() == cells.len(),
        forall|k: int|
            0 <= k < n ==> gathered(cells, outs, n)[(#[trigger] outs[k]).idx as int] == outs[k].value,
        forall|c: int|
            0 <= c < cells.len() && (forall|k: int| 0 <= k < n ==> (#[trigger] outs[k]).idx != c)
                ==> #[trigger] gathered(cells, outs, n)[c] == cells[c],
    decreases n,
{
    if n > 0 {
        lemma_gather_by_destination(cells, outs, (n - 1) as nat);
        let before = gathered(cells, outs, (n - 1) as nat);
        let last = outs[n - 1];
        assert forall|k: int| 0 <= k < n implies gathered(cells, outs, n)[(
        #[trigger] outs[k]).idx as int] == outs[k].value by {
            if k < n - 1 {
                assert(outs[k].idx != last.idx);
            }
        }
    }
}

/// Where there is an answer for every cell, the result depends on the
/// answers alone: not on what the cells held before, nor on the order in
/// which the answers came in.
pub proof fn lemma_gather_all<T>(
    cells1: Seq<T>,
    outs1: Seq<MsgOutput<T>>,
    cells2: Seq<T>,
    outs2: Seq<MsgOutput<T>>,
)
    requires
        cells1.len() == cells2.len(),
        outs1.len() == cells1.len(),
        outs2.len() == cells2.len(),
        addressed_apart(outs1, cells1.len()),
        forall|k: int| 0 <= k < outs1.len() ==> outs2.contains(#[trigger] outs1[k]),
        forall|k: int| 0 <= k < outs2.len() ==> outs1.contains(#[trigger] outs2[k]),
        addressed_apart(outs2, cells2.len()),
    ensures
        gathered(cells1, outs1, outs1.len()) == gathered(cells2, outs2, outs2.len()),
{
    let g1 = gathered(cells1, outs1, outs1.len());
    let g2 = gathered(cells2, outs2, outs2.len());
    lemma_gather_by_destination(cells1, outs1, outs1.len());
    lemma_gather_by_destination(cells2, outs2, outs2.len());
    lemma_every_cell_addressed(outs1, cells1.len());
    assert forall|c: int| 0 <= c < g1.len() implies g1[c] == g2[c] by {
        assert(addressed(outs1, c));
        let k1 = choose|k: int| 0 <= k < outs1.len() && (#[trigger] outs1[k]).idx == c;
        assert(outs2.contains(outs1[k1]));
        let k2 = choose|k: int| 0 <= k < outs2.len() && outs2[k] == outs1[k1];
        assert(g1[outs1[k1].idx as int] == outs1[k1].value);
        assert(g2[outs2[k2].idx as int] == outs2[k2].value);
    }
    assert(g1 =~= g2);
}

/// One of `outs` is addressed to cell `c`.
pub open spec fn addressed<T>(outs: Seq<MsgOutput<T>>, c: int) -> bool {
    exists|k: int| 0 <= k < outs.len() && (#[trigger] outs[k]).idx == c
}

/// As many answers as cells, addressed to different cells, leave no cell out.
pub proof fn lemma_every_cell_addressed<T>(outs: Seq<MsgOutput<T>>, len: nat)
    requires
        outs.len() == len,
        addressed_apart(outs, len),
    ensures
        forall|c: int| 0 <= c < len ==> #[trigger] addressed(outs, c),
{
    let places = Seq::new(len, |k: int| outs[k].idx as int);
    assert(places.no_duplicates()) by {
        assert forall|i: int, j: int| 0 <= i < places.len() && 0 <= j < places.len() && i != j implies places[i] != places[j] by {
            if i < j {
                assert(outs[i].idx != outs[j].idx);
            } else {
                assert(outs[j].idx != outs[i].idx);
            }
        }
    }
    let all = Set::new(|c: int| 0 <= c < len);
    lemma_int_range(0, len as int);
    assert(all =~= set_int_range(0, len as int));
    places.unique_seq_to_set();
    assert(places.to_set().subset_of(all)) by {
        assert forall|c: int| places.to_set().contains(c) implies all.contains(c) by {
            let k = choose|k: int| 0 <= k < places.len() && places[k] == c;
            assert(outs[k].idx < len);
        }
    }
    lemma_subset_equality(places.to_set(), all);
    assert forall|c: int| 0 <= c < len implies #[trigger] addressed(outs, c) by {
        assert(all.contains(c));
        assert(places.to_set().contains(c));
        let k = choose|k: int| 0 <= k < places.len() && places[k] == c;
        assert(outs[k].idx == c);
    }
}

/// The workers take the cells in turn: cells less than a pool's size apart
/// go to different workers, and cells a pool's size apart to the same.
pub proof fn lemma_round_robin(idx1: nat, idx2: nat)
    ensures
        idx1 < idx2 < idx1 + NUM_THREADS ==> idx1 % (NUM_THREADS as nat) != idx2 % (
        NUM_THREADS as nat),
        idx2 == idx1 + NUM_THREADS ==> idx1 % (NUM_THREADS as nat) == idx2 % (NUM_THREADS as nat),
{
}

} // verus!
