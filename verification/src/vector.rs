//! An owned numeric sequence and the dot product of two of them.

use crate::error::Error;
use core::ops::Add;
use core::ops::Deref;
use core::ops::Mul;
use vstd::prelude::*;
use vstd::std_specs::ops::AddSpec;
use vstd::std_specs::ops::MulSpec;

verus! {

/// `z` is a value that `T::default()` may return: where an accumulation starts.
pub open spec fn is_zero<T: Default>(z: T) -> bool {
    call_ensures(T::default, (), z)
}

/// `T`'s `+` and `*` return what their specifications say.
pub open spec fn lawful<T: Add<Output = T> + Mul<Output = T>>() -> bool {
    T::obeys_add_spec() && T::obeys_mul_spec()
}

/// The first `n` products `a[k] * b[k]`, added left to right onto `zero`.
pub open spec fn dot_prefix<T: Add<Output = T> + Mul<Output = T>>(
    zero: T,
    a: Seq<T>,
    b: Seq<T>,
    n: nat,
) -> T
    decreases n,
{
    if n == 0 {
        zero
    } else {
        dot_prefix(zero, a, b, (n - 1) as nat).add_spec(a[n - 1].mul_spec(b[n - 1]))
    }
}

/// The dot product of `a` and `b`, accumulated from `zero`.
pub open spec fn dot<T: Add<Output = T> + Mul<Output = T>>(zero: T, a: Seq<T>, b: Seq<T>) -> T {
    dot_prefix(zero, a, b, a.len())
}

/// `T` admits the `k`-th multiplication and the addition that follows it.
pub open spec fn step_defined<T: Add<Output = T> + Mul<Output = T>>(
    zero: T,
    a: Seq<T>,
    b: Seq<T>,
    k: int,
) -> bool {
    &&& a[k].mul_req(b[k])
    &&& dot_prefix(zero, a, b, k as nat).add_req(a[k].mul_spec(b[k]))
}

/// `T` admits every operation of the dot product: for the integers, none overflows.
pub open spec fn dot_defined<T: Add<Output = T> + Mul<Output = T>>(
    zero: T,
    a: Seq<T>,
    b: Seq<T>,
) -> bool {
    forall|k: int| 0 <= k < a.len() ==> #[trigger] step_defined(zero, a, b, k)
}

/// `v` is the dot product of `a` and `b`, accumulated from a zero of `T`.
pub open spec fn is_dot<T: Add<Output = T> + Mul<Output = T> + Default>(
    v: T,
    a: Seq<T>,
    b: Seq<T>,
) -> bool {
    exists|z: T| #[trigger] is_zero(z) && v == dot(z, a, b)
}

/// An owned sequence of elements, of the length it was made with.
pub struct Vector<T> {
    data: Vec<T>,
}

impl<T> View for Vector<T> {
    type V = Seq<T>;

    closed spec fn view(&self) -> Seq<T> {
        self.data@
    }
}

impl<T> Vector<T> {
    /// Takes `data` over as it is.
    pub fn new(data: Vec<T>) -> (v: Self)
        ensures
            v@ == data@,
    {
        Self { data }
    }
}

impl<T> Deref for Vector<T> {
    type Target = Vec<T>;

    /// The elements, as the vector that holds them.
    fn deref(&self) -> (v: &Vec<T>)
        ensures
            v@ == self@,
    {
        &self.data
    }
}

/// The sum of the products of the elements of `a` and `b`, position by position.
///
/// Operands of different lengths are refused before anything is computed.
pub fn dot_product<T>(a: Vector<T>, b: Vector<T>) -> (r: Result<T, Error>) where
    T: Add<Output = T> + Mul<Output = T> + Copy + Default,

    requires
        lawful::<T>(),
        a@.len() == b@.len() ==> forall|z: T| is_zero(z) ==> dot_defined(z, a@, b@),
    ensures
        r is Err <==> a@.len() != b@.len(),
        r matches Err(e) ==> e == Error::SizeMismatch,
        r matches Ok(v) ==> is_dot(v, a@, b@),
{
    if a.data.len() != b.data.len() {
        return Err(Error::SizeMismatch);
    }
    let zero = T::default();
    assert(is_zero(zero));
    let mut sum = zero;
    for i in 0..a.data.len()
        invariant
            a@.len() == b@.len(),
            lawful::<T>(),
            dot_defined(zero, a@, b@),
            sum == dot_prefix(zero, a@, b@, i as nat),
    {
        assert(step_defined(zero, a@, b@, i as int));
        sum = sum + a.data[i] * b.data[i];
    }
    Ok(sum)
}

} // verus!
