//! The scalar arithmetic that the library is written over.
//!
//! States, epochs and matrices hold values of a type parameter `T`, which the
//! caller picks (double precision in practice). The library never inspects a
//! scalar except through the operators of [`Scalar`].

use std::ops::{Add, Div, Mul, Neg, Sub};

use vstd::prelude::*;
use vstd::std_specs::cmp::{PartialEqSpec, PartialOrdSpec};
use vstd::std_specs::ops::{AddSpec, DivSpec, MulSpec, NegSpec, SubSpec};

verus! {

/// A copyable value with the four operations, negation and a (partial) order.
pub trait Scalar: Copy + Add<Output = Self> + Sub<Output = Self> + Mul<Output = Self> + Div<
    Output = Self,
> + Neg<Output = Self> + PartialOrd {

}

impl<T> Scalar for T where
    T: Copy + Add<Output = T> + Sub<Output = T> + Mul<Output = T> + Div<Output = T> + Neg<
        Output = T,
    > + PartialOrd,
 {

}

/// The operators of `T` are total, and each returns the value that its
/// specification function names.
///
/// Of doubles this is taken on trust: their operators accept all operands, and
/// return one value for each up to the bits of a NaN.
pub open spec fn lawful<T: Scalar>() -> bool {
    &&& T::obeys_add_spec()
    &&& T::obeys_sub_spec()
    &&& T::obeys_mul_spec()
    &&& T::obeys_div_spec()
    &&& T::obeys_neg_spec()
    &&& T::obeys_eq_spec()
    &&& T::obeys_partial_cmp_spec()
    &&& forall|x: T, y: T| #[trigger] x.add_req(y)
    &&& forall|x: T, y: T| #[trigger] x.sub_req(y)
    &&& forall|x: T, y: T| #[trigger] x.mul_req(y)
    &&& forall|x: T, y: T| #[trigger] x.div_req(y)
    &&& forall|x: T| #[trigger] x.neg_req()
}

/// `x < y`.
pub open spec fn less<T: Scalar>(x: T, y: T) -> bool {
    x.partial_cmp_spec(&y) == Some(core::cmp::Ordering::Less)
}

/// `x >= y`.
pub open spec fn at_least<T: Scalar>(x: T, y: T) -> bool {
    x.partial_cmp_spec(&y) == Some(core::cmp::Ordering::Greater) || x.partial_cmp_spec(&y) == Some(
        core::cmp::Ordering::Equal,
    )
}

/// `x == y` as the scalar compares (not as the specification does).
pub open spec fn same<T: Scalar>(x: T, y: T) -> bool {
    x.eq_spec(&y)
}

/// The magnitude of `x`: its negation when it is below `zero`, else itself.
pub open spec fn magnitude<T: Scalar>(zero: T, x: T) -> T {
    if less(x, zero) {
        x.neg_spec()
    } else {
        x
    }
}

/// The larger of two values; `x` when they do not compare.
pub open spec fn larger<T: Scalar>(x: T, y: T) -> T {
    if less(x, y) {
        y
    } else {
        x
    }
}

/// `f` accepts every argument and returns one value for it.
pub open spec fn is_function<A, B, F: Fn(A) -> B>(f: F) -> bool {
    &&& forall|x: A| #[trigger] f.requires((x,))
    &&& forall|x: A, y: B, z: B| #[trigger]
        f.ensures((x,), y) && #[trigger] f.ensures((x,), z) ==> y == z
}

/// The value of the function `f` at `x`.
pub open spec fn applied<A, B, F: Fn(A) -> B>(f: F, x: A) -> B {
    choose|y: B| f.ensures((x,), y)
}

/// Calls `f`, and returns its value at `x`.
pub fn apply<A, B, F: Fn(A) -> B>(f: &F, x: A) -> (y: B)
    requires
        is_function(*f),
    ensures
        y == applied(*f, x),
{
    let y = f(x);
    assert(f.ensures((x,), y));
    y
}

/// The magnitude of `x`, see the specification function of that name.
pub fn abs<T: Scalar>(zero: T, x: T) -> (y: T)
    requires
        lawful::<T>(),
    ensures
        y == magnitude(zero, x),
{
    if x < zero {
        x.neg()
    } else {
        x
    }
}

/// The larger of two values; `x` when they do not compare.
pub fn max<T: Scalar>(x: T, y: T) -> (z: T)
    requires
        lawful::<T>(),
    ensures
        z == larger(x, y),
{
    if x < y {
        y
    } else {
        x
    }
}

} // verus!
