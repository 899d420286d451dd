//! What the matrix routines compute, entry by entry over the real numbers.

use vstd::prelude::*;
use vstd::std_specs::ops::MulSpec;

use crate::constants::Constants;
use crate::exact::{exact, lemma_dot_terms, lemma_product, lemma_sum_eq, lemma_sum_scale, sum};
use crate::laws::forms::roots;
use crate::linalg::{congruence, dot, image, norm, product, transposed, Mat6, Vec6};
use crate::observation::composed_jacobian;
use crate::rotation::rotation;
use crate::scalar::Scalar;

verus! {

/// Entry `(i, m)` of `j sigma j^T` over the real numbers: the sum of
/// `j[i][k] sigma[k][l] j[m][l]` over all `k` and `l`.
pub open spec fn sandwich<T>(
    val: spec_fn(T) -> real,
    j: Mat6<T>,
    sigma: Mat6<T>,
    i: int,
    m: int,
) -> real {
    sum(|l: int| sum(|k: int| val(j[i][k]) * val(sigma[k][l]) * val(j[m][l]), 6), 6)
}

/// The value of `x^T a x`: the sum of `x[i] a[i][j] x[j]` over all `i` and `j`.
pub open spec fn quadratic<T>(val: spec_fn(T) -> real, a: Mat6<T>, x: Vec6<T>) -> real {
    sum(|i: int| sum(|j: int| val(a[i][j]) * val(x[j]) * val(x[i]), 6), 6)
}

/// Entry `(i, j)` of the rotation by an angle of cosine `c` and sine `s` about
/// the x-axis, applied to a position and to a velocity.
pub open spec fn turn_entry(c: real, s: real, i: int, j: int) -> real {
    if (i == 0 && j == 0) || (i == 3 && j == 3) {
        1 as real
    } else if (i == 1 && j == 1) || (i == 2 && j == 2) || (i == 4 && j == 4) || (i == 5 && j
        == 5) {
        c
    } else if (i == 1 && j == 2) || (i == 4 && j == 5) {
        -s
    } else if (i == 2 && j == 1) || (i == 5 && j == 4) {
        s
    } else {
        0 as real
    }
}

/// Entry `(i, m)` of the chain rule: the sum of `local[i][k] r(k, l) phi[l][m]`
/// over all `k` and `l`, where `r` is the rotation to the equatorial frame. The
/// rows of the range and its rate keep their unit; those of the angles and
/// their rates are turned from radians to degrees.
pub open spec fn chained<T>(
    val: spec_fn(T) -> real,
    c: Constants<T>,
    local: Mat6<T>,
    phi: Mat6<T>,
    i: int,
    m: int,
) -> real {
    sum(
        |l: int|
            sum(
                |k: int|
                    val(local[i][k]) * turn_entry(val(c.cos_eps), val(c.sin_eps), k, l) * val(
                        phi[l][m],
                    ),
                6,
            ),
        6,
    ) * (if i == 0 || i == 3 {
        1 as real
    } else {
        val(c.rad_to_deg)
    })
}

/// The dot product is the sum of the products of all six pairs of entries.
pub proof fn dot_adds_all_products<T: Scalar>(
    val: spec_fn(T) -> real,
    zero: T,
    a: Vec6<T>,
    b: Vec6<T>,
)
    requires
        exact(val),
        val(zero) == 0 as real,
    ensures
        val(dot(zero, a, b)) == val(a[0]) * val(b[0]) + val(a[1]) * val(b[1]) + val(a[2]) * val(
            b[2],
        ) + val(a[3]) * val(b[3]) + val(a[4]) * val(b[4]) + val(a[5]) * val(b[5]),
{
    lemma_dot_terms(val, zero, a, b);
}

/// Each entry of the image of a vector is a row times the vector.
pub proof fn image_entries<T: Scalar>(
    val: spec_fn(T) -> real,
    zero: T,
    a: Mat6<T>,
    v: Vec6<T>,
    i: int,
)
    requires
        exact(val),
        val(zero) == 0 as real,
        0 <= i < 6,
    ensures
        val(image(zero, a, v)[i]) == val(a[i][0]) * val(v[0]) + val(a[i][1]) * val(v[1]) + val(
            a[i][2],
        ) * val(v[2]) + val(a[i][3]) * val(v[3]) + val(a[i][4]) * val(v[4]) + val(a[i][5]) * val(
            v[5],
        ),
{
    lemma_dot_terms(val, zero, a[i], v);
}

/// Each entry of a product is a row times a column.
pub proof fn product_entries<T: Scalar>(
    val: spec_fn(T) -> real,
    zero: T,
    a: Mat6<T>,
    b: Mat6<T>,
    i: int,
    j: int,
)
    requires
        exact(val),
        val(zero) == 0 as real,
        0 <= i < 6,
        0 <= j < 6,
    ensures
        val(product(zero, a, b)[i][j]) == val(a[i][0]) * val(b[0][j]) + val(a[i][1]) * val(
            b[1][j],
        ) + val(a[i][2]) * val(b[2][j]) + val(a[i][3]) * val(b[3][j]) + val(a[i][4]) * val(b[4][j])
            + val(a[i][5]) * val(b[5][j]),
{
    lemma_product(val, zero, a, b, i, j);
    reveal_with_fuel(sum, 7);
}

/// The transpose has rows for columns, whatever the scalars are.
pub proof fn transpose_entries<T>(m: Mat6<T>, i: int, j: int)
    requires
        0 <= i < 6,
        0 <= j < 6,
    ensures
        transposed(m)[i][j] == m[j][i],
{
}

/// The square of the norm is the sum of the squares of all six entries.
pub proof fn norm_squares_to_the_sum_of_squares<T: Scalar, S: Fn(T) -> T>(
    val: spec_fn(T) -> real,
    zero: T,
    sqrt: S,
    v: Vec6<T>,
)
    requires
        exact(val),
        val(zero) == 0 as real,
        roots(val, sqrt),
    ensures
        val(norm(zero, sqrt, v)) >= 0 as real,
        val(norm(zero, sqrt, v)) * val(norm(zero, sqrt, v)) == val(v[0]) * val(v[0]) + val(v[1])
            * val(v[1]) + val(v[2]) * val(v[2]) + val(v[3]) * val(v[3]) + val(v[4]) * val(v[4])
            + val(v[5]) * val(v[5]),
{
    lemma_dot_terms(val, zero, v, v);
    assert forall|i: int| 0 <= i < 6 implies val(#[trigger] v[i]) * val(v[i]) >= 0 as real by {
        let x = val(v[i]);
        assert(x * x >= 0 as real) by (nonlinear_arith);
    }
}

/// A covariance mapped through a linear map has the entries of `j sigma j^T`:
/// no entry of either matrix is left out, and no sign is lost.
pub proof fn mapped_covariance_entries<T: Scalar>(
    val: spec_fn(T) -> real,
    zero: T,
    j: Mat6<T>,
    sigma: Mat6<T>,
    i: int,
    m: int,
)
    requires
        exact(val),
        val(zero) == 0 as real,
        0 <= i < 6,
        0 <= m < 6,
    ensures
        val(congruence(zero, j, sigma)[i][m]) == sandwich(val, j, sigma, i, m),
{
    let js = product(zero, j, sigma);
    let jt = transposed(j);
    lemma_product(val, zero, js, jt, i, m);
    let f = |l: int| val(js[i][l]) * val(jt[l][m]);
    let g = |l: int| sum(|k: int| val(j[i][k]) * val(sigma[k][l]) * val(j[m][l]), 6);
    assert forall|l: int| 0 <= l < 6 implies #[trigger] f(l) == g(l) by {
        let h = |k: int| val(j[i][k]) * val(sigma[k][l]);
        lemma_product(val, zero, j, sigma, i, l);
        assert(val(js[i][l]) == sum(h, 6));
        lemma_sum_scale(h, val(j[m][l]), 6);
        lemma_sum_eq(
            |k: int| h(k) * val(j[m][l]),
            |k: int| val(j[i][k]) * val(sigma[k][l]) * val(j[m][l]),
            6,
        );
    }
    lemma_sum_eq(f, g, 6);
}

/// The rotation as a matrix, entry by entry.
pub proof fn rotation_entries<T: Scalar>(
    val: spec_fn(T) -> real,
    c: Constants<T>,
    i: int,
    j: int,
)
    requires
        exact(val),
        val(c.zero) == 0 as real,
        val(c.one) == 1 as real,
        0 <= i < 6,
        0 <= j < 6,
    ensures
        val(rotation(c)[i][j]) == turn_entry(val(c.cos_eps), val(c.sin_eps), i, j),
{
}

/// The chain rule, entry by entry: the derivative of the spherical coordinates
/// (`local`) times the rotation to the equatorial frame times `phi`. Ranges
/// keep their unit; angles and their rates are in degrees.
pub proof fn chain_rule_entries<T: Scalar>(
    val: spec_fn(T) -> real,
    c: Constants<T>,
    local: Mat6<T>,
    phi: Mat6<T>,
    i: int,
    m: int,
)
    requires
        exact(val),
        val(c.zero) == 0 as real,
        val(c.one) == 1 as real,
        0 <= i < 6,
        0 <= m < 6,
    ensures
        val(composed_jacobian(c, local, phi)[i][m]) == chained(val, c, local, phi, i, m),
{
    let r = rotation(c);
    let lr = product(c.zero, local, r);
    let radians = product(c.zero, lr, phi);
    lemma_product(val, c.zero, lr, phi, i, m);
    let f = |l: int| val(lr[i][l]) * val(phi[l][m]);
    let g = |l: int|
        sum(
            |k: int|
                val(local[i][k]) * turn_entry(val(c.cos_eps), val(c.sin_eps), k, l) * val(
                    phi[l][m],
                ),
            6,
        );
    assert forall|l: int| 0 <= l < 6 implies #[trigger] f(l) == g(l) by {
        let h = |k: int| val(local[i][k]) * val(r[k][l]);
        lemma_product(val, c.zero, local, r, i, l);
        lemma_sum_scale(h, val(phi[l][m]), 6);
        let scaled = |k: int| h(k) * val(phi[l][m]);
        let want = |k: int|
            val(local[i][k]) * turn_entry(val(c.cos_eps), val(c.sin_eps), k, l) * val(phi[l][m]);
        assert forall|k: int| 0 <= k < 6 implies #[trigger] scaled(k) == want(k) by {
            rotation_entries(val, c, k, l);
        }
        lemma_sum_eq(scaled, want, 6);
    }
    lemma_sum_eq(f, g, 6);
    assert(val(radians[i][m]) == sum(g, 6));
    let s = sum(g, 6);
    assert(s * (1 as real) == s) by (nonlinear_arith);
    let j = composed_jacobian(c, local, phi);
    if i == 0 || i == 3 {
        assert(j[i][m] == radians[i][m]);
    } else {
        assert(j[i][m] == radians[i][m].mul_spec(c.rad_to_deg));
    }
}

} // verus!
