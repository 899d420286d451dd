//! Where the observation Jacobian is taken, and its entries.

use vstd::prelude::*;
use vstd::std_specs::ops::{AddSpec, MulSpec, SubSpec};

use crate::constants::Constants;
use crate::exact::exact;
use crate::laws::entries::{chain_rule_entries, chained};
use crate::laws::transform_results::{component, seen_from_the_equator};
use crate::linalg::{Mat6, Vec6};
use crate::observation::{observation_jacobian, topocentric, Topocentric};
use crate::scalar::{applied, Scalar};
use crate::types::CartesianState;

verus! {

/// `t` is the equatorial difference of a body and an observer: each entry is
/// the body's, seen from the equatorial frame, less the observer's.
pub open spec fn is_equatorial_difference<T>(
    val: spec_fn(T) -> real,
    c: Constants<T>,
    body: Vec6<T>,
    observer: CartesianState<T>,
    t: Topocentric<T>,
) -> bool {
    let cos = val(c.cos_eps);
    let sin = val(c.sin_eps);
    let b = |k: int| val(body[k]);
    let o = |k: int| component(val, observer, k);
    &&& forall|i: int|
        0 <= i < 3 ==> val(#[trigger] t.position[i]) == seen_from_the_equator(cos, sin, b, i)
            - seen_from_the_equator(cos, sin, o, i)
    &&& forall|i: int|
        0 <= i < 3 ==> val(#[trigger] t.velocity[i]) == seen_from_the_equator(cos, sin, b, i + 3)
            - seen_from_the_equator(cos, sin, o, i + 3)
}

/// The entries of `j` are those of the chain rule.
pub open spec fn has_chained_entries<T>(
    val: spec_fn(T) -> real,
    c: Constants<T>,
    local: Mat6<T>,
    phi: Mat6<T>,
    j: Mat6<T>,
) -> bool {
    forall|i: int, m: int|
        0 <= i < 6 && 0 <= m < 6 ==> val(#[trigger] j[i][m]) == chained(val, c, local, phi, i, m)
}

/// The derivative of the spherical coordinates is taken at the equatorial
/// difference of body and observer itself, signs included, and the entries of
/// the observation Jacobian follow from it by the chain rule.
///
/// Returns the difference.
pub proof fn jacobian_is_taken_at_the_difference<
    T: Scalar,
    J: Fn(Topocentric<T>) -> Mat6<T>,
>(
    val: spec_fn(T) -> real,
    c: Constants<T>,
    spherical_jacobian: J,
    phi: Mat6<T>,
    body: Vec6<T>,
    observer: CartesianState<T>,
) -> (t: Topocentric<T>)
    requires
        exact(val),
        val(c.zero) == 0 as real,
        val(c.one) == 1 as real,
    ensures
        is_equatorial_difference(val, c, body, observer, t),
        has_chained_entries(
            val,
            c,
            applied(spherical_jacobian, t),
            phi,
            observation_jacobian(c, spherical_jacobian, phi, body, observer),
        ),
{
    let t = topocentric(c, body, observer);
    let local = applied(spherical_jacobian, t);
    assert forall|i: int, m: int| 0 <= i < 6 && 0 <= m < 6 implies val(
        #[trigger] observation_jacobian(c, spherical_jacobian, phi, body, observer)[i][m],
    ) == chained(val, c, local, phi, i, m) by {
        chain_rule_entries(val, c, local, phi, i, m);
    }
    t
}

/// The relative state, to the bit: body and observer are each turned to the
/// equatorial frame, and the observer is taken off; exact arithmetic is not
/// needed.
pub proof fn relative_state_to_the_bit<T: Scalar>(
    c: Constants<T>,
    body: Vec6<T>,
    observer: CartesianState<T>,
)
    ensures
        ({
            let t = topocentric(c, body, observer);
            &&& t.position[0] == body[0].sub_spec(observer.x)
            &&& t.position[1] == c.cos_eps.mul_spec(body[1]).sub_spec(
                c.sin_eps.mul_spec(body[2]),
            ).sub_spec(
                c.cos_eps.mul_spec(observer.y).sub_spec(c.sin_eps.mul_spec(observer.z)),
            )
            &&& t.position[2] == c.sin_eps.mul_spec(body[1]).add_spec(
                c.cos_eps.mul_spec(body[2]),
            ).sub_spec(
                c.sin_eps.mul_spec(observer.y).add_spec(c.cos_eps.mul_spec(observer.z)),
            )
            &&& t.velocity[0] == body[3].sub_spec(observer.vx)
            &&& t.velocity[1] == c.cos_eps.mul_spec(body[4]).sub_spec(
                c.sin_eps.mul_spec(body[5]),
            ).sub_spec(
                c.cos_eps.mul_spec(observer.vy).sub_spec(c.sin_eps.mul_spec(observer.vz)),
            )
            &&& t.velocity[2] == c.sin_eps.mul_spec(body[4]).add_spec(
                c.cos_eps.mul_spec(body[5]),
            ).sub_spec(
                c.sin_eps.mul_spec(observer.vy).add_spec(c.cos_eps.mul_spec(observer.vz)),
            )
        }),
{
}

/// Exchanging body and observer negates the relative state, entry by entry.
pub proof fn exchange_negates_the_relative_state<T: Scalar>(
    val: spec_fn(T) -> real,
    c: Constants<T>,
    body: CartesianState<T>,
    observer: CartesianState<T>,
    i: int,
)
    requires
        exact(val),
        0 <= i < 3,
    ensures
        ({
            let there = topocentric(
                c,
                [body.x, body.y, body.z, body.vx, body.vy, body.vz],
                observer,
            );
            let back = topocentric(
                c,
                [observer.x, observer.y, observer.z, observer.vx, observer.vy, observer.vz],
                body,
            );
            &&& val(back.position[i]) == -val(there.position[i])
            &&& val(back.velocity[i]) == -val(there.velocity[i])
        }),
{
}

} // verus!
