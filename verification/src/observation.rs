//! The derivative of what an observer sees with respect to the orbit's state.

use vstd::prelude::*;
use vstd::std_specs::ops::{MulSpec, SubSpec};

use crate::constants::Constants;
use crate::linalg::{lemma_mat6_ext, mat6, mat6_mul, product, Mat6, Vec6};
use crate::rotation::{ecl_to_eq_6x6, ecliptic_to_equatorial, equatorial, rotation};
use crate::scalar::{applied, apply, is_function, lawful, Scalar};
use crate::types::{components, CartesianState};

verus! {

/// A position and velocity relative to an observer, in the equatorial frame.
#[derive(Clone, Copy, Debug, PartialEq)]
pub struct Topocentric<T> {
    pub position: [T; 3],
    pub velocity: [T; 3],
}

/// A heliocentric ecliptic state as an observer with such a state has it:
/// both are rotated to the equatorial frame, and the observer is taken off.
pub open spec fn topocentric<T: Scalar>(
    c: Constants<T>,
    body: Vec6<T>,
    observer: CartesianState<T>,
) -> Topocentric<T> {
    let b = equatorial(c, body);
    let o = equatorial(c, components(observer));
    Topocentric {
        position: [b[0].sub_spec(o[0]), b[1].sub_spec(o[1]), b[2].sub_spec(o[2])],
        velocity: [b[3].sub_spec(o[3]), b[4].sub_spec(o[4]), b[5].sub_spec(o[5])],
    }
}

/// A heliocentric ecliptic state as an observer with such a state has it.
pub fn topocentric_state<T: Scalar>(
    c: &Constants<T>,
    body: &Vec6<T>,
    observer: &CartesianState<T>,
) -> (t: Topocentric<T>)
    requires
        lawful::<T>(),
    ensures
        t == topocentric(*c, *body, *observer),
{
    let b = ecliptic_to_equatorial(c, body);
    let o = ecliptic_to_equatorial(c, &observer.to_array());
    let t = Topocentric {
        position: [b[0] - o[0], b[1] - o[1], b[2] - o[2]],
        velocity: [b[3] - o[3], b[4] - o[4], b[5] - o[5]],
    };
    proof {
        let want = topocentric(*c, *body, *observer);
        assert(t.position =~= want.position);
        assert(t.velocity =~= want.velocity);
    }
    t
}

/// A Jacobian of spherical coordinates with its angular rows (the two angles
/// and their rates) turned from radians to degrees.
pub open spec fn in_degrees<T: Scalar>(c: Constants<T>, j: Mat6<T>) -> Mat6<T> {
    mat6(
        |i: int, k: int|
            if i % 3 == 0 {
                j[i][k]
            } else {
                j[i][k].mul_spec(c.rad_to_deg)
            },
    )
}

/// The chain rule: spherical over equatorial topocentric (`local`), over
/// heliocentric ecliptic, over the orbit's state (`phi`); in degrees.
pub open spec fn composed_jacobian<T: Scalar>(
    c: Constants<T>,
    local: Mat6<T>,
    phi: Mat6<T>,
) -> Mat6<T> {
    in_degrees(c, product(c.zero, product(c.zero, local, rotation(c)), phi))
}

/// The chain rule, from the Jacobian of the spherical coordinates.
pub fn compose_jacobian<T: Scalar>(c: &Constants<T>, local: &Mat6<T>, phi: &Mat6<T>) -> (m: Mat6<T>)
    requires
        lawful::<T>(),
    ensures
        m == composed_jacobian(*c, *local, *phi),
{
    let r = ecl_to_eq_6x6(c);
    let radians = mat6_mul(c.zero, &mat6_mul(c.zero, local, &r), phi);
    let mut m = radians;
    let mut k: usize = 0;
    while k < 6
        invariant
            lawful::<T>(),
            k <= 6,
            forall|i: int, j: int|
                0 <= i < 6 && 0 <= j < 6 ==> #[trigger] m[i][j] == if j < k {
                    in_degrees(*c, radians)[i][j]
                } else {
                    radians[i][j]
                },
        decreases 6 - k,
    {
        m[1][k] = m[1][k] * c.rad_to_deg;
        m[2][k] = m[2][k] * c.rad_to_deg;
        m[4][k] = m[4][k] * c.rad_to_deg;
        m[5][k] = m[5][k] * c.rad_to_deg;
        k = k + 1;
    }
    proof {
        lemma_mat6_ext(m, in_degrees(*c, radians));
    }
    m
}

/// The observation Jacobian, with the derivative of the spherical coordinates
/// given by `spherical_jacobian`.
pub open spec fn observation_jacobian<T: Scalar, J: Fn(Topocentric<T>) -> Mat6<T>>(
    c: Constants<T>,
    spherical_jacobian: J,
    phi: Mat6<T>,
    body: Vec6<T>,
    observer: CartesianState<T>,
) -> Mat6<T> {
    composed_jacobian(c, applied(spherical_jacobian, topocentric(c, body, observer)), phi)
}

/// The derivative of `(range, right ascension, declination)` and their rates,
/// in degrees, with respect to the heliocentric ecliptic state of the orbit.
pub fn observation_jacobian_assist<T: Scalar, J: Fn(Topocentric<T>) -> Mat6<T>>(
    c: &Constants<T>,
    spherical_jacobian: &J,
    phi: &Mat6<T>,
    body: &Vec6<T>,
    observer: &CartesianState<T>,
) -> (m: Mat6<T>)
    requires
        lawful::<T>(),
        is_function(*spherical_jacobian),
    ensures
        m == observation_jacobian(*c, *spherical_jacobian, *phi, *body, *observer),
{
    let local = apply(spherical_jacobian, topocentric_state(c, body, observer));
    compose_jacobian(c, &local, phi)
}

} // verus!
