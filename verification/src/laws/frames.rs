//! Laws of frames and origins.

use vstd::prelude::*;
use vstd::std_specs::ops::{AddSpec, MulSpec};

use crate::bodies::{looked_up, may_center, origin_outcome};
use crate::constants::Constants;
use crate::engine::{located, same_reply, AssistOrigin, BodyState, Reply};
use crate::exact::{exact, lemma_dot_terms, lemma_mat6_values, lemma_vec6_values};
use crate::laws::constancy::locates_once;
use crate::laws::covariance::covariance_maps_compose;
use crate::linalg::{
    column, congruence, dot, dot_from, image, lemma_mat6_ext, lemma_vec6_ext, mat6, product, transposed,
    Mat6, Vec6,
};
use crate::propagator::AssistPropagator;
use crate::rotation::{ecliptic, equatorial, rotation};
use crate::scalar::Scalar;
use crate::transform::{difference, may_arrive, may_transform, moved, turned};
use crate::types::{components, CartesianState, ErrorView, Frame, Origin};

verus! {

/// What a transform gives: the state at its own epoch, labelled with the frame
/// and origin that were asked for. It carries a covariance exactly where the
/// given state does, and within one frame the same covariance.
pub proof fn transform_labels<
    D,
    T: Scalar,
    L: Fn(&D, &AssistOrigin, &[T], Option<usize>) -> Reply<BodyState<T>>,
>(
    p: AssistPropagator<T, D>,
    c: Constants<T>,
    s: CartesianState<T>,
    frame: Frame,
    origin: Origin,
    locate: L,
    r: CartesianState<T>,
)
    requires
        may_transform(p, c, s, frame, origin, locate, Ok(r)),
    ensures
        r.epoch == s.epoch,
        r.frame == frame,
        r.origin == origin,
        r.covariance is Some <==> s.covariance is Some,
        s.frame == frame ==> r.covariance == s.covariance,
{
}

/// A transform to the state's own frame and origin returns the state, with its
/// covariance, and cannot fail.
pub proof fn identity_transform<
    D,
    T: Scalar,
    L: Fn(&D, &AssistOrigin, &[T], Option<usize>) -> Reply<BodyState<T>>,
>(
    p: AssistPropagator<T, D>,
    c: Constants<T>,
    s: CartesianState<T>,
    locate: L,
    out: Result<CartesianState<T>, ErrorView>,
)
    ensures
        may_transform(p, c, s, s.frame, s.origin, locate, out) <==> out == Ok::<
            CartesianState<T>,
            ErrorView,
        >(s),
{
}

/// `zero` and `one` of the constants stand for those numbers.
pub open spec fn units<T>(val: spec_fn(T) -> real, c: Constants<T>) -> bool {
    val(c.zero) == 0 as real && val(c.one) == 1 as real
}

/// The cosine and sine of the obliquity are those of an angle.
pub open spec fn angle<T>(val: spec_fn(T) -> real, c: Constants<T>) -> bool {
    val(c.cos_eps) * val(c.cos_eps) + val(c.sin_eps) * val(c.sin_eps) == 1 as real
}

/// The dot product with a row that has entries in its first or second half
/// only.
proof fn lemma_half_row<T: Scalar>(
    val: spec_fn(T) -> real,
    zero: T,
    a: Vec6<T>,
    v: Vec6<T>,
    first: bool,
)
    requires
        exact(val),
        val(zero) == 0 as real,
        first ==> val(a[3]) == 0 as real && val(a[4]) == 0 as real && val(a[5]) == 0 as real,
        !first ==> val(a[0]) == 0 as real && val(a[1]) == 0 as real && val(a[2]) == 0 as real,
    ensures
        first ==> val(dot(zero, a, v)) == val(a[0]) * val(v[0]) + val(a[1]) * val(v[1]) + val(a[2])
            * val(v[2]),
        !first ==> val(dot(zero, a, v)) == val(a[3]) * val(v[3]) + val(a[4]) * val(v[4]) + val(a[5])
            * val(v[5]),
{
    lemma_dot_terms(val, zero, a, v);
    let z = 0 as real;
    let (v0, v1, v2) = (val(v[0]), val(v[1]), val(v[2]));
    let (v3, v4, v5) = (val(v[3]), val(v[4]), val(v[5]));
    assert(z * v0 == z && z * v1 == z && z * v2 == z && z * v3 == z && z * v4 == z && z * v5 == z)
        by (nonlinear_arith)
        requires
            z == 0 as real,
    ;
}

/// The rotation matrix times a vector is the vector in the equatorial frame,
/// and its transpose times a vector is the vector in the ecliptic frame.
pub proof fn rotation_forms_agree<T: Scalar>(val: spec_fn(T) -> real, c: Constants<T>, v: Vec6<T>)
    requires
        exact(val),
        units(val, c),
    ensures
        image(c.zero, rotation(c), v) == equatorial(c, v),
        image(c.zero, transposed(rotation(c)), v) == ecliptic(c, v),
{
    let m = rotation(c);
    let t = transposed(m);
    let z = val(c.zero);
    let one = val(c.one);
    lemma_half_row(val, c.zero, m[0], v, true);
    lemma_half_row(val, c.zero, m[1], v, true);
    lemma_half_row(val, c.zero, m[2], v, true);
    lemma_half_row(val, c.zero, m[3], v, false);
    lemma_half_row(val, c.zero, m[4], v, false);
    lemma_half_row(val, c.zero, m[5], v, false);
    lemma_half_row(val, c.zero, t[0], v, true);
    lemma_half_row(val, c.zero, t[1], v, true);
    lemma_half_row(val, c.zero, t[2], v, true);
    lemma_half_row(val, c.zero, t[3], v, false);
    lemma_half_row(val, c.zero, t[4], v, false);
    lemma_half_row(val, c.zero, t[5], v, false);
    let s = val(c.sin_eps);
    assert forall|i: int| 0 <= i < 6 implies z * #[trigger] val(v[i]) == 0 as real && one * val(
        v[i],
    ) == val(v[i]) && (-s) * val(v[i]) == -(s * val(v[i])) by {
        let x = val(v[i]);
        assert(z * x == 0 as real && one * x == x && (-s) * x == -(s * x)) by (nonlinear_arith)
            requires
                z == 0 as real,
                one == 1 as real,
        ;
    }
    lemma_vec6_values(val, image(c.zero, m, v), equatorial(c, v));
    lemma_vec6_values(val, image(c.zero, t, v), ecliptic(c, v));
}

/// A factor distributes over a sum and a difference, and products associate.
proof fn lemma_expand(a: real, b: real, c: real)
    ensures
        a * (b + c) == a * b + a * c,
        a * (b - c) == a * b - a * c,
        (b + c) * a == b * a + c * a,
        (-a) * b == -(a * b),
        a * (b * c) == a * b * c,
        a * b == b * a,
{
    assert(a * (b + c) == a * b + a * c) by (nonlinear_arith);
    assert(a * (b - c) == a * b - a * c) by (nonlinear_arith);
    assert((b + c) * a == b * a + c * a) by (nonlinear_arith);
    assert((-a) * b == -(a * b)) by (nonlinear_arith);
    assert(a * (b * c) == a * b * c) by (nonlinear_arith);
    assert(a * b == b * a) by (nonlinear_arith);
}

/// A plane rotation and its inverse, in both orders.
proof fn lemma_turn_and_back(k: real, s: real, y: real, z: real)
    requires
        k * k + s * s == 1 as real,
    ensures
        k * (k * y - s * z) + s * (s * y + k * z) == y,
        (-s) * (k * y - s * z) + k * (s * y + k * z) == z,
        k * (k * y + s * z) - s * ((-s) * y + k * z) == y,
        s * (k * y + s * z) + k * ((-s) * y + k * z) == z,
{
    let p = k * k;
    let q = s * s;
    lemma_expand(k, s, y);
    lemma_expand(k, s, z);
    lemma_expand(s, k, y);
    lemma_expand(s, k, z);
    lemma_expand(k, k, y);
    lemma_expand(k, k, z);
    lemma_expand(s, s, y);
    lemma_expand(s, s, z);
    lemma_expand(k, k * y, s * z);
    lemma_expand(s, s * y, k * z);
    lemma_expand(s, k * y, s * z);
    lemma_expand(k, s * y, k * z);
    lemma_expand(s, k * z, s * y);
    lemma_expand(k, k * z, s * y);
    lemma_expand(s, k * y - s * z, 0 as real);
    lemma_expand(s, y, 0 as real);
    assert(p * y + q * y == y && p * z + q * z == z) by (nonlinear_arith)
        requires
            p + q == 1 as real,
    ;
}

/// A vector turned to the other frame and back is unchanged.
pub proof fn vector_round_trip<T: Scalar>(val: spec_fn(T) -> real, c: Constants<T>, v: Vec6<T>)
    requires
        exact(val),
        angle(val, c),
    ensures
        ecliptic(c, equatorial(c, v)) == v,
        equatorial(c, ecliptic(c, v)) == v,
{
    let there = ecliptic(c, equatorial(c, v));
    let back = equatorial(c, ecliptic(c, v));
    let k = val(c.cos_eps);
    let s = val(c.sin_eps);
    lemma_turn_and_back(k, s, val(v[1]), val(v[2]));
    lemma_turn_and_back(k, s, val(v[4]), val(v[5]));
    assert forall|i: int| 0 <= i < 6 implies val(#[trigger] there[i]) == val(v[i]) by {}
    assert forall|i: int| 0 <= i < 6 implies val(#[trigger] back[i]) == val(v[i]) by {}
    lemma_vec6_values(val, there, v);
    lemma_vec6_values(val, back, v);
}

/// The identity matrix.
pub open spec fn identity<T>(c: Constants<T>) -> Mat6<T> {
    mat6(
        |i: int, j: int|
            if i == j {
                c.one
            } else {
                c.zero
            },
    )
}

/// The dot product with a column of the identity picks an entry.
pub(crate) proof fn lemma_pick<T: Scalar>(val: spec_fn(T) -> real, c: Constants<T>, a: Vec6<T>, j: int)
    requires
        exact(val),
        units(val, c),
        0 <= j < 6,
    ensures
        val(dot(c.zero, a, column(identity(c), j))) == val(a[j]),
        val(dot(c.zero, identity(c)[j], a)) == val(a[j]),
{
    let e = column(identity(c), j);
    lemma_vec6_ext(e, identity(c)[j]);
    lemma_dot_terms(val, c.zero, a, e);
    lemma_dot_terms(val, c.zero, e, a);
    let z = val(c.zero);
    let one = val(c.one);
    assert forall|i: int| 0 <= i < 6 implies #[trigger] val(a[i]) * z == z && z * val(a[i]) == z
        && val(a[i]) * one == val(a[i]) && one * val(a[i]) == val(a[i]) by {
        let x = val(a[i]);
        assert(x * z == z && z * x == z && x * one == x && one * x == x) by (nonlinear_arith)
            requires
                z == 0 as real,
                one == 1 as real,
        ;
    }
}

/// A covariance mapped through the identity is unchanged.
pub proof fn identity_keeps_covariance<T: Scalar>(
    val: spec_fn(T) -> real,
    c: Constants<T>,
    sigma: Mat6<T>,
)
    requires
        exact(val),
        units(val, c),
    ensures
        congruence(c.zero, identity(c), sigma) == sigma,
{
    let e = identity(c);
    let left = product(c.zero, e, sigma);
    assert forall|i: int, j: int| 0 <= i < 6 && 0 <= j < 6 implies val(#[trigger] left[i][j])
        == val(sigma[i][j]) by {
        lemma_pick(val, c, column(sigma, j), i);
    }
    lemma_mat6_values(val, left, sigma);
    lemma_mat6_ext(transposed(e), e);
    let both = product(c.zero, sigma, e);
    assert forall|i: int, j: int| 0 <= i < 6 && 0 <= j < 6 implies val(#[trigger] both[i][j])
        == val(sigma[i][j]) by {
        lemma_pick(val, c, sigma[i], j);
    }
    lemma_mat6_values(val, both, sigma);
}

/// Column `j` of a matrix is the image of column `j` of the identity.
proof fn lemma_column_image<T: Scalar>(
    val: spec_fn(T) -> real,
    c: Constants<T>,
    m: Mat6<T>,
    j: int,
)
    requires
        exact(val),
        units(val, c),
        0 <= j < 6,
    ensures
        column(m, j) == image(c.zero, m, column(identity(c), j)),
{
    let unit = column(identity(c), j);
    let w = image(c.zero, m, unit);
    assert forall|k: int| 0 <= k < 6 implies val(#[trigger] column(m, j)[k]) == val(w[k]) by {
        lemma_pick(val, c, m[k], j);
    }
    lemma_vec6_values(val, column(m, j), w);
}

/// Column `j` of a product is the image of column `j` of its second factor.
proof fn lemma_product_column<T: Scalar>(zero: T, a: Mat6<T>, b: Mat6<T>, j: int)
    requires
        0 <= j < 6,
    ensures
        column(product(zero, a, b), j) == image(zero, a, column(b, j)),
{
    lemma_vec6_ext(column(product(zero, a, b), j), image(zero, a, column(b, j)));
}

/// Matrices with equal columns are equal.
proof fn lemma_columns_ext<T>(a: Mat6<T>, b: Mat6<T>)
    requires
        forall|j: int| 0 <= j < 6 ==> #[trigger] column(a, j) == column(b, j),
    ensures
        a == b,
{
    assert forall|i: int, j: int| 0 <= i < 6 && 0 <= j < 6 implies a[i][j] == b[i][j] by {
        assert(column(a, j)[i] == column(b, j)[i]);
    }
    lemma_mat6_ext(a, b);
}

/// Zero and one leave the entries of a matrix alone, as they do in floating
/// point for finite entries that are not a negative zero.
pub open spec fn neutral<T: Scalar>(c: Constants<T>, m: Mat6<T>) -> bool {
    forall|i: int, j: int, k: int, l: int|
        #![trigger m[i][j], m[k][l]]
        0 <= i < 6 && 0 <= j < 6 && 0 <= k < 6 && 0 <= l < 6 ==> {
            let x = m[i][j];
            let y = m[k][l];
            &&& c.one.mul_spec(x) == x
            &&& x.mul_spec(c.one) == x
            &&& c.zero.add_spec(x) == x
            &&& c.zero.add_spec(c.zero.mul_spec(x)) == c.zero
            &&& c.zero.add_spec(x.mul_spec(c.zero)) == c.zero
            &&& x.add_spec(c.zero.mul_spec(y)) == x
            &&& x.add_spec(y.mul_spec(c.zero)) == x
        }
}

/// A dot product with a unit vector along `k`, entry by entry.
proof fn lemma_neutral_dot<T: Scalar>(
    c: Constants<T>,
    m: Mat6<T>,
    a: Vec6<T>,
    e: Vec6<T>,
    k: int,
    n: nat,
)
    requires
        neutral(c, m),
        0 <= k < 6,
        n <= 6,
        forall|i: int| 0 <= i < 6 ==> #[trigger] e[i] == if i == k {
            c.one
        } else {
            c.zero
        },
        (exists|j: int| 0 <= j < 6 && a == m[j]) || (exists|j: int| 0 <= j < 6 && a == #[trigger]
            column(m, j)),
    ensures
        dot_from(c.zero, a, e, n) == if n <= k {
            c.zero
        } else {
            a[k]
        },
        dot_from(c.zero, e, a, n) == if n <= k {
            c.zero
        } else {
            a[k]
        },
    decreases n,
{
    if n > 0 {
        lemma_neutral_dot(c, m, a, e, k, (n - 1) as nat);
        let i = n - 1;
        if exists|j: int| 0 <= j < 6 && a == m[j] {
            let j = choose|j: int| 0 <= j < 6 && a == m[j];
            assert(a[i] == m[j][i] && a[k] == m[j][k]);
        } else {
            let j = choose|j: int| 0 <= j < 6 && a == #[trigger] column(m, j);
            assert(a[i] == m[i][j] && a[k] == m[k][j]);
        }
    }
}

/// A covariance mapped through the identity is unchanged to the last bit. This
/// needs no exact arithmetic, only that zero and one leave the entries alone.
pub proof fn identity_keeps_covariance_to_the_bit<T: Scalar>(c: Constants<T>, sigma: Mat6<T>)
    requires
        neutral(c, sigma),
    ensures
        congruence(c.zero, identity(c), sigma) == sigma,
{
    let e = identity(c);
    let left = product(c.zero, e, sigma);
    assert forall|i: int, j: int| 0 <= i < 6 && 0 <= j < 6 implies left[i][j] == sigma[i][j] by {
        lemma_neutral_dot(c, sigma, column(sigma, j), e[i], i, 6);
    }
    lemma_mat6_ext(left, sigma);
    lemma_mat6_ext(transposed(e), e);
    let both = product(c.zero, sigma, e);
    assert forall|i: int, j: int| 0 <= i < 6 && 0 <= j < 6 implies both[i][j] == sigma[i][j] by {
        assert(sigma[i] == sigma[i]);
        lemma_neutral_dot(c, sigma, sigma[i], column(e, j), j, 6);
    }
    lemma_mat6_ext(both, sigma);
}

/// The inverse of the rotation is its transpose.
pub proof fn rotation_is_orthonormal<T: Scalar>(val: spec_fn(T) -> real, c: Constants<T>)
    requires
        exact(val),
        units(val, c),
        angle(val, c),
    ensures
        product(c.zero, transposed(rotation(c)), rotation(c)) == identity(c),
        product(c.zero, rotation(c), transposed(rotation(c))) == identity(c),
{
    let m = rotation(c);
    let t = transposed(m);
    let e = identity(c);
    let tm = product(c.zero, t, m);
    let mt = product(c.zero, m, t);
    assert forall|j: int| 0 <= j < 6 implies #[trigger] column(tm, j) == column(e, j) by {
        lemma_product_column(c.zero, t, m, j);
        lemma_column_image(val, c, m, j);
        rotation_forms_agree(val, c, column(e, j));
        rotation_forms_agree(val, c, column(m, j));
        vector_round_trip(val, c, column(e, j));
    }
    lemma_columns_ext(tm, e);
    assert forall|j: int| 0 <= j < 6 implies #[trigger] column(mt, j) == column(e, j) by {
        lemma_product_column(c.zero, m, t, j);
        lemma_column_image(val, c, t, j);
        rotation_forms_agree(val, c, column(e, j));
        rotation_forms_agree(val, c, column(t, j));
        vector_round_trip(val, c, column(e, j));
    }
    lemma_columns_ext(mt, e);
}

/// A state turned to another frame and back is unchanged, covariance and all.
pub proof fn frame_round_trip<T: Scalar>(
    val: spec_fn(T) -> real,
    c: Constants<T>,
    s: CartesianState<T>,
    frame: Frame,
)
    requires
        exact(val),
        units(val, c),
        angle(val, c),
    ensures
        turned(c, turned(c, s, frame), s.frame) == s,
{
    let there = turned(c, s, frame);
    let v = components(s);
    vector_round_trip(val, c, v);
    rotation_is_orthonormal(val, c);
    lemma_vec6_ext(
        components(there),
        match (s.frame, frame) {
            (Frame::EclipticJ2000, Frame::Equatorial) => equatorial(c, v),
            (Frame::Equatorial, Frame::EclipticJ2000) => ecliptic(c, v),
            _ => v,
        },
    );
    match s.covariance {
        Some(sigma) => {
            covariance_maps_compose(val, c.zero, transposed(rotation(c)), rotation(c), sigma);
            covariance_maps_compose(val, c.zero, rotation(c), transposed(rotation(c)), sigma);
            identity_keeps_covariance(val, c, sigma);
        },
        None => {},
    }
}

/// Moving a state from one origin to a second and on to a third is moving it
/// from the first to the third.
pub proof fn origin_moves_compose<T: Scalar>(
    val: spec_fn(T) -> real,
    c: Constants<T>,
    s: CartesianState<T>,
    second: Origin,
    third: Origin,
    at_first: Vec6<T>,
    at_second: Vec6<T>,
    at_third: Vec6<T>,
)
    requires
        exact(val),
    ensures
        moved(c, moved(c, s, second, at_first, at_second), third, at_second, at_third) == moved(
            c,
            s,
            third,
            at_first,
            at_third,
        ),
{
    let mid = moved(c, s, second, at_first, at_second);
    let two = components(moved(c, mid, third, at_second, at_third));
    let one = components(moved(c, s, third, at_first, at_third));
    let k = val(c.cos_eps);
    let n = val(c.sin_eps);
    let ab = |i: int| val(at_second[i]) - val(at_first[i]);
    let bc = |i: int| val(at_third[i]) - val(at_second[i]);
    let ac = |i: int| val(at_third[i]) - val(at_first[i]);
    assert forall|i: int| 0 <= i < 6 implies k * #[trigger] ab(i) + k * bc(i) == k * ac(i) && n
        * ab(i) + n * bc(i) == n * ac(i) by {
        let x = ab(i);
        let y = bc(i);
        let z = ac(i);
        assert(k * x + k * y == k * z && n * x + n * y == n * z) by (nonlinear_arith)
            requires
                x + y == z,
        ;
    }
    assert(ab(1) + bc(1) == ac(1) && ab(2) + bc(2) == ac(2));
    assert(ab(4) + bc(4) == ac(4) && ab(5) + bc(5) == ac(5));
    assert forall|i: int| 0 <= i < 6 implies val(#[trigger] two[i]) == val(one[i]) by {}
    lemma_vec6_values(val, two, one);
    assert(two[0] == one[0] && two[1] == one[1] && two[2] == one[2]);
    assert(two[3] == one[3] && two[4] == one[4] && two[5] == one[5]);
}

/// Moving a state to another origin and back leaves it unchanged.
pub proof fn origin_round_trip<T: Scalar>(
    val: spec_fn(T) -> real,
    c: Constants<T>,
    s: CartesianState<T>,
    origin: Origin,
    from: Vec6<T>,
    to: Vec6<T>,
)
    requires
        exact(val),
    ensures
        moved(c, moved(c, s, origin, from, to), s.origin, to, from) == s,
{
    origin_moves_compose(val, c, s, origin, s.origin, from, to, from);
    let still = moved(c, s, s.origin, from, from);
    let k = val(c.cos_eps);
    let n = val(c.sin_eps);
    let zero = 0 as real;
    assert(k * zero == zero && n * zero == zero) by (nonlinear_arith)
        requires
            zero == 0 as real,
    ;
    let v = components(s);
    let w = components(still);
    assert forall|i: int| 0 <= i < 6 implies val(#[trigger] w[i]) == val(v[i]) by {}
    lemma_vec6_values(val, w, v);
    assert(w[0] == v[0] && w[1] == v[1] && w[2] == v[2]);
    assert(w[3] == v[3] && w[4] == v[4] && w[5] == v[5]);
}

/// Turning a difference is the difference of the turned vectors.
pub(crate) proof fn lemma_turned_difference<T: Scalar>(
    val: spec_fn(T) -> real,
    c: Constants<T>,
    v: Vec6<T>,
    d: Vec6<T>,
)
    requires
        exact(val),
    ensures
        equatorial(c, difference(v, d)) == difference(equatorial(c, v), equatorial(c, d)),
        ecliptic(c, difference(v, d)) == difference(ecliptic(c, v), ecliptic(c, d)),
{
    let k = val(c.cos_eps);
    let s = val(c.sin_eps);
    assert forall|i: int| 0 <= i < 6 implies k * (#[trigger] val(v[i]) - val(d[i])) == k * val(v[i])
        - k * val(d[i]) && s * (val(v[i]) - val(d[i])) == s * val(v[i]) - s * val(d[i]) && (-s) * (
    val(v[i]) - val(d[i])) == (-s) * val(v[i]) - (-s) * val(d[i]) by {
        lemma_expand(k, val(v[i]), val(d[i]));
        lemma_expand(s, val(v[i]), val(d[i]));
        lemma_expand(-s, val(v[i]), val(d[i]));
    }
    let (a, b) = (equatorial(c, difference(v, d)), difference(equatorial(c, v), equatorial(c, d)));
    assert forall|i: int| 0 <= i < 6 implies val(#[trigger] a[i]) == val(b[i]) by {}
    lemma_vec6_values(val, a, b);
    let (x, y) = (ecliptic(c, difference(v, d)), difference(ecliptic(c, v), ecliptic(c, d)));
    assert forall|i: int| 0 <= i < 6 implies val(#[trigger] x[i]) == val(y[i]) by {}
    lemma_vec6_values(val, x, y);
}

/// Turning a state to a second frame and on to a third is turning it to the
/// third.
pub proof fn frame_changes_compose<T: Scalar>(
    val: spec_fn(T) -> real,
    c: Constants<T>,
    s: CartesianState<T>,
    second: Frame,
    third: Frame,
)
    requires
        exact(val),
        units(val, c),
        angle(val, c),
    ensures
        turned(c, turned(c, s, second), third) == turned(c, s, third),
{
    frame_round_trip(val, c, s, second);
}

/// A state may be moved and then turned, or turned and then moved.
pub proof fn frame_and_origin_changes_commute<T: Scalar>(
    val: spec_fn(T) -> real,
    c: Constants<T>,
    s: CartesianState<T>,
    frame: Frame,
    origin: Origin,
    from: Vec6<T>,
    to: Vec6<T>,
)
    requires
        exact(val),
        angle(val, c),
    ensures
        turned(c, moved(c, s, origin, from, to), frame) == moved(
            c,
            turned(c, s, frame),
            origin,
            from,
            to,
        ),
{
    let v = components(s);
    let d = difference(to, from);
    let first = moved(c, s, origin, from, to);
    let turned_s = turned(c, s, frame);
    match (s.frame, frame) {
        (Frame::EclipticJ2000, Frame::Equatorial) => {
            lemma_vec6_ext(components(first), difference(v, d));
            lemma_vec6_ext(components(turned_s), equatorial(c, v));
            lemma_turned_difference(val, c, v, d);
        },
        (Frame::Equatorial, Frame::EclipticJ2000) => {
            lemma_vec6_ext(components(first), difference(v, equatorial(c, d)));
            lemma_vec6_ext(components(turned_s), ecliptic(c, v));
            lemma_turned_difference(val, c, v, equatorial(c, d));
            vector_round_trip(val, c, d);
        },
        _ => {},
    }
}

/// An engine with one answer to each question finds an origin in one place.
pub(crate) proof fn lemma_center_is_settled<
    D,
    T,
    L: Fn(&D, &AssistOrigin, &[T], Option<usize>) -> Reply<BodyState<T>>,
>(
    p: AssistPropagator<T, D>,
    c: Constants<T>,
    origin: Origin,
    epoch: T,
    locate: L,
    x: Result<Vec6<T>, ErrorView>,
    y: Result<Vec6<T>, ErrorView>,
)
    requires
        locates_once(locate, p.data),
        may_center(p, c, origin, epoch, locate, x),
        may_center(p, c, origin, epoch, locate, y),
    ensures
        x == y,
{
    if let Some(a) = looked_up(origin) {
        let u = choose|reply: Reply<BodyState<T>>| #[trigger]
            located(locate, p.data, a, seq![epoch], Some(1usize), reply) && x == origin_outcome(
                origin,
                reply,
            );
        let v = choose|reply: Reply<BodyState<T>>| #[trigger]
            located(locate, p.data, a, seq![epoch], Some(1usize), reply) && y == origin_outcome(
                origin,
                reply,
            );
        assert(same_reply(u, v));
    }
}

/// Where both origins can be found, a transform between them gives the state
/// that is turned and moved accordingly.
proof fn lemma_transform_is_settled<
    D,
    T: Scalar,
    L: Fn(&D, &AssistOrigin, &[T], Option<usize>) -> Reply<BodyState<T>>,
>(
    p: AssistPropagator<T, D>,
    c: Constants<T>,
    s: CartesianState<T>,
    frame: Frame,
    origin: Origin,
    locate: L,
    from: Vec6<T>,
    to: Vec6<T>,
    out: Result<CartesianState<T>, ErrorView>,
)
    requires
        locates_once(locate, p.data),
        s.origin != origin,
        may_center(p, c, s.origin, s.epoch, locate, Ok(from)),
        may_center(p, c, origin, s.epoch, locate, Ok(to)),
        may_transform(p, c, s, frame, origin, locate, out),
    ensures
        out == Ok::<CartesianState<T>, ErrorView>(
            moved(c, turned(c, s, frame), origin, from, to),
        ),
{
    let t = turned(c, s, frame);
    let a = choose|a: Result<Vec6<T>, ErrorView>| #[trigger]
        may_center(p, c, t.origin, t.epoch, locate, a) && match a {
            Err(e) => out == Err::<CartesianState<T>, ErrorView>(e),
            Ok(v) => may_arrive(p, c, t, origin, locate, v, out),
        };
    lemma_center_is_settled(p, c, s.origin, s.epoch, locate, a, Ok(from));
    let b = choose|b: Result<Vec6<T>, ErrorView>| #[trigger]
        may_center(p, c, origin, t.epoch, locate, b) && out == match b {
            Err(e) => Err(e),
            Ok(v) => Ok(moved(c, t, origin, from, v)),
        };
    lemma_center_is_settled(p, c, origin, s.epoch, locate, b, Ok(to));
}

/// The places at which a transform that succeeded found the two origins.
pub(crate) proof fn lemma_origins_of_transform<
    D,
    T: Scalar,
    L: Fn(&D, &AssistOrigin, &[T], Option<usize>) -> Reply<BodyState<T>>,
>(
    p: AssistPropagator<T, D>,
    c: Constants<T>,
    s: CartesianState<T>,
    frame: Frame,
    origin: Origin,
    locate: L,
    r: CartesianState<T>,
) -> (at: (Vec6<T>, Vec6<T>))
    requires
        s.origin != origin,
        may_transform(p, c, s, frame, origin, locate, Ok(r)),
    ensures
        may_center(p, c, s.origin, s.epoch, locate, Ok(at.0)),
        may_center(p, c, origin, s.epoch, locate, Ok(at.1)),
        r == moved(c, turned(c, s, frame), origin, at.0, at.1),
{
    let out = Ok::<CartesianState<T>, ErrorView>(r);
    let t = turned(c, s, frame);
    let a = choose|a: Result<Vec6<T>, ErrorView>| #[trigger]
        may_center(p, c, t.origin, t.epoch, locate, a) && match a {
            Err(e) => out == Err::<CartesianState<T>, ErrorView>(e),
            Ok(v) => may_arrive(p, c, t, origin, locate, v, out),
        };
    let from = a->Ok_0;
    assert(a == Ok::<Vec6<T>, ErrorView>(from));
    let b = choose|b: Result<Vec6<T>, ErrorView>| #[trigger]
        may_center(p, c, origin, t.epoch, locate, b) && out == match b {
            Err(e) => Err(e),
            Ok(v) => Ok(moved(c, t, origin, from, v)),
        };
    assert(b == Ok::<Vec6<T>, ErrorView>(b->Ok_0));
    (from, b->Ok_0)
}

/// The way does not matter: a state transformed through any frame and origin
/// on the way ends as the state transformed at once, covariance included. The
/// last step cannot fail.
pub proof fn transform_through_another_frame_and_origin<
    D,
    T: Scalar,
    L: Fn(&D, &AssistOrigin, &[T], Option<usize>) -> Reply<BodyState<T>>,
>(
    val: spec_fn(T) -> real,
    p: AssistPropagator<T, D>,
    c: Constants<T>,
    s: CartesianState<T>,
    f1: Frame,
    o1: Origin,
    f2: Frame,
    o2: Origin,
    locate: L,
    mid: CartesianState<T>,
    direct: CartesianState<T>,
    out: Result<CartesianState<T>, ErrorView>,
)
    requires
        exact(val),
        units(val, c),
        angle(val, c),
        locates_once(locate, p.data),
        may_transform(p, c, s, f1, o1, locate, Ok(mid)),
        may_transform(p, c, s, f2, o2, locate, Ok(direct)),
        may_transform(p, c, mid, f2, o2, locate, out),
    ensures
        out == Ok::<CartesianState<T>, ErrorView>(direct),
{
    let once = turned(c, s, f1);
    let end = turned(c, s, f2);
    frame_changes_compose(val, c, s, f1, f2);
    if o1 == s.origin {
        if o2 != s.origin {
            let (x, y) = lemma_origins_of_transform(p, c, s, f2, o2, locate, direct);
            lemma_transform_is_settled(p, c, mid, f2, o2, locate, x, y, out);
        }
    } else {
        let (x, z) = lemma_origins_of_transform(p, c, s, f1, o1, locate, mid);
        frame_and_origin_changes_commute(val, c, once, f2, o1, x, z);
        if o2 == o1 {
            let (u, w) = lemma_origins_of_transform(p, c, s, f2, o2, locate, direct);
            lemma_center_is_settled(p, c, s.origin, s.epoch, locate, Ok(x), Ok(u));
            lemma_center_is_settled(p, c, o1, s.epoch, locate, Ok(z), Ok(w));
        } else if o2 == s.origin {
            lemma_transform_is_settled(p, c, mid, f2, o2, locate, z, x, out);
            origin_round_trip(val, c, end, o1, x, z);
        } else {
            let (u, y) = lemma_origins_of_transform(p, c, s, f2, o2, locate, direct);
            lemma_center_is_settled(p, c, s.origin, s.epoch, locate, Ok(x), Ok(u));
            lemma_transform_is_settled(p, c, mid, f2, o2, locate, z, y, out);
            origin_moves_compose(val, c, end, o1, o2, x, z, y);
        }
    }
}

/// A transform and the transform back: the state itself, frame, origin, epoch
/// and covariance included. The way back cannot fail.
pub proof fn transform_there_and_back<
    D,
    T: Scalar,
    L: Fn(&D, &AssistOrigin, &[T], Option<usize>) -> Reply<BodyState<T>>,
>(
    val: spec_fn(T) -> real,
    p: AssistPropagator<T, D>,
    c: Constants<T>,
    s: CartesianState<T>,
    frame: Frame,
    origin: Origin,
    locate: L,
    there: CartesianState<T>,
    out: Result<CartesianState<T>, ErrorView>,
)
    requires
        exact(val),
        units(val, c),
        angle(val, c),
        locates_once(locate, p.data),
        may_transform(p, c, s, frame, origin, locate, Ok(there)),
        may_transform(p, c, there, s.frame, s.origin, locate, out),
    ensures
        out == Ok::<CartesianState<T>, ErrorView>(s),
{
    transform_through_another_frame_and_origin(
        val,
        p,
        c,
        s,
        frame,
        origin,
        s.frame,
        s.origin,
        locate,
        there,
        s,
        out,
    );
}

/// A covariance survives a move to another origin and back bit for bit. This
/// needs no exact arithmetic.
pub proof fn covariance_survives_moves<
    D,
    T: Scalar,
    L: Fn(&D, &AssistOrigin, &[T], Option<usize>) -> Reply<BodyState<T>>,
>(
    p: AssistPropagator<T, D>,
    c: Constants<T>,
    s: CartesianState<T>,
    origin: Origin,
    locate: L,
    there: CartesianState<T>,
    back: CartesianState<T>,
)
    requires
        may_transform(p, c, s, s.frame, origin, locate, Ok(there)),
        may_transform(p, c, there, s.frame, s.origin, locate, Ok(back)),
    ensures
        back.covariance == s.covariance,
{
    transform_labels(p, c, s, s.frame, origin, locate, there);
    transform_labels(p, c, there, s.frame, s.origin, locate, back);
}

} // verus!
