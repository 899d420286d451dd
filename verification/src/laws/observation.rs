//! Laws of the observation Jacobian.

use vstd::prelude::*;

use crate::constants::Constants;
use crate::exact::{exact, lemma_dot_terms, lemma_mat6_values};
use crate::laws::covariance::lemma_degrees_product;
use crate::laws::frames::{identity, lemma_pick, lemma_turned_difference, units};
use crate::linalg::{column, mat6, product, Mat6, Vec6};
use crate::observation::{
    composed_jacobian, in_degrees, observation_jacobian, topocentric, Topocentric,
};
use crate::rotation::{equatorial, rotation};
use crate::scalar::{applied, Scalar};
use crate::transform::difference;
use crate::types::{components, CartesianState};

verus! {

/// A product with the identity on the right.
proof fn lemma_times_identity<T: Scalar>(val: spec_fn(T) -> real, c: Constants<T>, a: Mat6<T>)
    requires
        exact(val),
        units(val, c),
    ensures
        product(c.zero, a, identity(c)) == a,
{
    let m = product(c.zero, a, identity(c));
    assert forall|i: int, j: int| 0 <= i < 6 && 0 <= j < 6 implies val(#[trigger] m[i][j]) == val(
        a[i][j],
    ) by {
        lemma_pick(val, c, a[i], j);
    }
    lemma_mat6_values(val, m, a);
}

/// The Jacobian for a state transition matrix is that for the identity times
/// the matrix.
pub proof fn jacobian_is_linear_in_the_matrix<T: Scalar, J: Fn(Topocentric<T>) -> Mat6<T>>(
    val: spec_fn(T) -> real,
    c: Constants<T>,
    spherical_jacobian: J,
    phi: Mat6<T>,
    body: Vec6<T>,
    observer: CartesianState<T>,
)
    requires
        exact(val),
        units(val, c),
    ensures
        observation_jacobian(c, spherical_jacobian, phi, body, observer) == product(
            c.zero,
            observation_jacobian(c, spherical_jacobian, identity(c), body, observer),
            phi,
        ),
{
    let local = applied(spherical_jacobian, topocentric(c, body, observer));
    let m = product(c.zero, local, rotation(c));
    lemma_times_identity(val, c, m);
    lemma_degrees_product(val, c, m, phi);
    assert(composed_jacobian(c, local, identity(c)) == in_degrees(c, m));
}

/// The Jacobian for the zero matrix is zero.
pub proof fn jacobian_of_the_zero_matrix<T: Scalar, J: Fn(Topocentric<T>) -> Mat6<T>>(
    val: spec_fn(T) -> real,
    c: Constants<T>,
    spherical_jacobian: J,
    body: Vec6<T>,
    observer: CartesianState<T>,
)
    requires
        exact(val),
        units(val, c),
    ensures
        observation_jacobian(
            c,
            spherical_jacobian,
            mat6(|i: int, j: int| c.zero),
            body,
            observer,
        ) == mat6(|i: int, j: int| c.zero),
{
    let zeros = mat6(|i: int, j: int| c.zero);
    jacobian_is_linear_in_the_matrix(val, c, spherical_jacobian, zeros, body, observer);
    let one = observation_jacobian(c, spherical_jacobian, identity(c), body, observer);
    let m = product(c.zero, one, zeros);
    assert forall|i: int, j: int| 0 <= i < 6 && 0 <= j < 6 implies val(#[trigger] m[i][j]) == val(
        zeros[i][j],
    ) by {
        lemma_dot_terms(val, c.zero, one[i], column(zeros, j));
        assert forall|k: int| 0 <= k < 6 implies #[trigger] val(one[i][k]) * val(
            column(zeros, j)[k],
        ) == 0 as real by {
            let x = val(one[i][k]);
            assert(x * (0 as real) == 0 as real) by (nonlinear_arith);
        }
    }
    lemma_mat6_values(val, m, zeros);
}

/// Of an observer only the six components are read: not the frame, the origin,
/// the epoch or the covariance. This needs no exact arithmetic.
pub proof fn labels_of_the_observer_are_not_read<T: Scalar, J: Fn(Topocentric<T>) -> Mat6<T>>(
    c: Constants<T>,
    spherical_jacobian: J,
    phi: Mat6<T>,
    body: Vec6<T>,
    one: CartesianState<T>,
    other: CartesianState<T>,
)
    requires
        components(one) == components(other),
    ensures
        observation_jacobian(c, spherical_jacobian, phi, body, one) == observation_jacobian(
            c,
            spherical_jacobian,
            phi,
            body,
            other,
        ),
{
}

/// Only the difference between body and observer counts: where it is the same
/// for two pairs, so is the Jacobian.
pub proof fn only_the_difference_counts<T: Scalar, J: Fn(Topocentric<T>) -> Mat6<T>>(
    val: spec_fn(T) -> real,
    c: Constants<T>,
    spherical_jacobian: J,
    phi: Mat6<T>,
    body: Vec6<T>,
    observer: CartesianState<T>,
    other_body: Vec6<T>,
    other_observer: CartesianState<T>,
)
    requires
        exact(val),
        difference(body, components(observer)) == difference(
            other_body,
            components(other_observer),
        ),
    ensures
        observation_jacobian(c, spherical_jacobian, phi, body, observer) == observation_jacobian(
            c,
            spherical_jacobian,
            phi,
            other_body,
            other_observer,
        ),
{
    lemma_turned_difference(val, c, body, components(observer));
    lemma_turned_difference(val, c, other_body, components(other_observer));
    let a = difference(equatorial(c, body), equatorial(c, components(observer)));
    let b = difference(equatorial(c, other_body), equatorial(c, components(other_observer)));
    assert(a == b);
    assert(a[0] == b[0] && a[1] == b[1] && a[2] == b[2]);
    assert(a[3] == b[3] && a[4] == b[4] && a[5] == b[5]);
    let s = topocentric(c, body, observer);
    let t = topocentric(c, other_body, other_observer);
    assert(s.position =~= t.position);
    assert(s.velocity =~= t.velocity);
}

} // verus!
