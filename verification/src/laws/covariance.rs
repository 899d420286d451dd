//! Laws of covariances under linear maps, in exact arithmetic.

use vstd::prelude::*;

use crate::constants::Constants;
use crate::engine::Sighting;
use crate::ephemeris::record;
use crate::exact::{
    exact, lemma_mat6_values, lemma_product, lemma_product_assoc, lemma_sum_eq, lemma_sum_scale,
    lemma_transposed_product,
};
use crate::linalg::{
    column, congruence, dot, image, lemma_mat6_ext, lemma_vec6_ext, mat6, product, transposed, Mat6,
    Vec6,
};
use crate::observation::{composed_jacobian, in_degrees, topocentric, Topocentric};
use crate::rotation::rotation;
use crate::scalar::{applied, Scalar};
use crate::types::{EphemerisConfig, ObserverState};

verus! {

/// Mapping a covariance through `b` and then through `a` is mapping it through
/// their product: linear propagation in two legs is propagation in one.
pub proof fn covariance_maps_compose<T: Scalar>(
    val: spec_fn(T) -> real,
    zero: T,
    a: Mat6<T>,
    b: Mat6<T>,
    sigma: Mat6<T>,
)
    requires
        exact(val),
        val(zero) == 0 as real,
    ensures
        congruence(zero, product(zero, a, b), sigma) == congruence(
            zero,
            a,
            congruence(zero, b, sigma),
        ),
{
    let ta = transposed(a);
    let tb = transposed(b);
    let b_sigma = product(zero, b, sigma);
    lemma_transposed_product(val, zero, a, b);
    lemma_product_assoc(val, zero, a, b, sigma);
    lemma_product_assoc(val, zero, product(zero, a, b_sigma), tb, ta);
    lemma_product_assoc(val, zero, a, b_sigma, tb);
}

/// A symmetric covariance stays symmetric under a linear map.
pub proof fn covariance_stays_symmetric<T: Scalar>(
    val: spec_fn(T) -> real,
    zero: T,
    j: Mat6<T>,
    sigma: Mat6<T>,
)
    requires
        exact(val),
        val(zero) == 0 as real,
        transposed(sigma) == sigma,
    ensures
        transposed(congruence(zero, j, sigma)) == congruence(zero, j, sigma),
{
    let tj = transposed(j);
    lemma_transposed_product(val, zero, product(zero, j, sigma), tj);
    lemma_transposed_product(val, zero, j, sigma);
    lemma_mat6_ext(transposed(tj), j);
    lemma_product_assoc(val, zero, j, sigma, tj);
}

/// The matrix whose columns all are `v`.
spec fn repeated<T>(v: Vec6<T>) -> Mat6<T> {
    mat6(|i: int, j: int| v[i])
}

/// The image under a product is the image of the image.
proof fn lemma_image_of_image<T: Scalar>(
    val: spec_fn(T) -> real,
    zero: T,
    a: Mat6<T>,
    b: Mat6<T>,
    v: Vec6<T>,
)
    requires
        exact(val),
        val(zero) == 0 as real,
    ensures
        image(zero, product(zero, a, b), v) == image(zero, a, image(zero, b, v)),
{
    let m = repeated(v);
    lemma_product_assoc(val, zero, a, b, m);
    lemma_vec6_ext(column(m, 0), v);
    lemma_vec6_ext(column(product(zero, b, m), 0), image(zero, b, v));
    let left = product(zero, product(zero, a, b), m);
    let right = product(zero, a, product(zero, b, m));
    assert forall|i: int| 0 <= i < 6 implies image(zero, product(zero, a, b), v)[i] == image(
        zero,
        a,
        image(zero, b, v),
    )[i] by {
        assert(left[i][0] == right[i][0]);
    }
    lemma_vec6_ext(image(zero, product(zero, a, b), v), image(zero, a, image(zero, b, v)));
}

/// A matrix moves to the other side of a dot product as its transpose.
pub(crate) proof fn lemma_adjoint<T: Scalar>(
    val: spec_fn(T) -> real,
    zero: T,
    a: Mat6<T>,
    x: Vec6<T>,
    v: Vec6<T>,
)
    requires
        exact(val),
        val(zero) == 0 as real,
    ensures
        dot(zero, image(zero, a, x), v) == dot(zero, x, image(zero, transposed(a), v)),
{
    let mx = repeated(x);
    let mv = repeated(v);
    let ax = product(zero, a, mx);
    let tv = product(zero, transposed(a), mv);
    lemma_transposed_product(val, zero, a, mx);
    lemma_product_assoc(val, zero, transposed(mx), transposed(a), mv);
    lemma_vec6_ext(column(mx, 0), x);
    lemma_vec6_ext(column(mv, 0), v);
    lemma_vec6_ext(transposed(mx)[0], x);
    lemma_vec6_ext(transposed(ax)[0], image(zero, a, x));
    lemma_vec6_ext(column(tv, 0), image(zero, transposed(a), v));
    assert(product(zero, transposed(ax), mv)[0][0] == dot(zero, image(zero, a, x), v));
    assert(product(zero, transposed(mx), tv)[0][0] == dot(
        zero,
        x,
        image(zero, transposed(a), v),
    ));
}

/// The quadratic form of a matrix is nowhere negative.
pub open spec fn semidefinite<T: Scalar>(val: spec_fn(T) -> real, zero: T, m: Mat6<T>) -> bool {
    forall|v: Vec6<T>| #[trigger] val(dot(zero, image(zero, m, v), v)) >= 0 as real
}

/// A positive semidefinite covariance stays so under a linear map.
pub proof fn covariance_stays_semidefinite<T: Scalar>(
    val: spec_fn(T) -> real,
    zero: T,
    j: Mat6<T>,
    sigma: Mat6<T>,
)
    requires
        exact(val),
        val(zero) == 0 as real,
        semidefinite(val, zero, sigma),
    ensures
        semidefinite(val, zero, congruence(zero, j, sigma)),
{
    let m = congruence(zero, j, sigma);
    assert forall|v: Vec6<T>| #[trigger] val(dot(zero, image(zero, m, v), v)) >= 0 as real by {
        let u = image(zero, transposed(j), v);
        lemma_image_of_image(val, zero, product(zero, j, sigma), transposed(j), v);
        lemma_image_of_image(val, zero, j, sigma, u);
        lemma_adjoint(val, zero, j, image(zero, sigma, u), v);
        assert(val(dot(zero, image(zero, sigma, u), u)) >= 0 as real);
    }
}

/// Turning angular rows to degrees commutes with a product on the right.
pub(crate) proof fn lemma_degrees_product<T: Scalar>(
    val: spec_fn(T) -> real,
    c: Constants<T>,
    a: Mat6<T>,
    b: Mat6<T>,
)
    requires
        exact(val),
        val(c.zero) == 0 as real,
    ensures
        in_degrees(c, product(c.zero, a, b)) == product(c.zero, in_degrees(c, a), b),
{
    let da = in_degrees(c, a);
    let ab = product(c.zero, a, b);
    let left = in_degrees(c, ab);
    let right = product(c.zero, da, b);
    let r = val(c.rad_to_deg);
    assert forall|i: int, j: int| 0 <= i < 6 && 0 <= j < 6 implies val(#[trigger] left[i][j])
        == val(right[i][j]) by {
        lemma_product(val, c.zero, a, b, i, j);
        lemma_product(val, c.zero, da, b, i, j);
        let f = |k: int| val(a[i][k]) * val(b[k][j]);
        let g = |k: int| val(da[i][k]) * val(b[k][j]);
        if i % 3 == 0 {
            lemma_sum_eq(f, g, 6);
        } else {
            lemma_sum_scale(f, r, 6);
            let f_r = |k: int| f(k) * r;
            assert forall|k: int| 0 <= k < 6 implies #[trigger] f_r(k) == g(k) by {
                let x = val(a[i][k]);
                let y = val(b[k][j]);
                assert(x * y * r == x * r * y) by (nonlinear_arith);
            }
            lemma_sum_eq(f_r, g, 6);
        }
    }
    lemma_mat6_values(val, left, right);
}

/// The on-sky covariance is the covariance of the aberrated state, mapped
/// through the derivative of the spherical coordinates at that state.
pub proof fn sky_covariance_is_mapped_state_covariance<
    T: Scalar,
    J: Fn(Topocentric<T>) -> Mat6<T>,
>(
    val: spec_fn(T) -> real,
    c: Constants<T>,
    spherical_jacobian: J,
    sigma: Mat6<T>,
    config: EphemerisConfig,
    s: Sighting<T>,
    observer: ObserverState<T>,
    phi: Mat6<T>,
)
    requires
        exact(val),
        val(c.zero) == 0 as real,
        config.compute_covariance,
    ensures
        ({
            let r = record(c, spherical_jacobian, Some(sigma), config, s, observer, Some(phi));
            let local = applied(
                spherical_jacobian,
                topocentric(c, s.aberrated_state, observer.state),
            );
            let at_state = in_degrees(c, product(c.zero, local, rotation(c)));
            &&& r.aberrated_state.covariance == Some(congruence(c.zero, phi, sigma))
            &&& r.state.covariance == Some(
                congruence(c.zero, at_state, r.aberrated_state.covariance->Some_0),
            )
        }),
{
    let local = applied(spherical_jacobian, topocentric(c, s.aberrated_state, observer.state));
    let m = product(c.zero, local, rotation(c));
    lemma_degrees_product(val, c, m, phi);
    covariance_maps_compose(val, c.zero, in_degrees(c, m), phi, sigma);
    assert(composed_jacobian(c, local, phi) == product(c.zero, in_degrees(c, m), phi));
}

} // verus!
