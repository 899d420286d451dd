//! What the routines return, stated of the routines themselves: each law holds
//! of every value that a call may give.

use vstd::prelude::*;
use vstd::std_specs::ops::{AddSpec, MulSpec, NegSpec, SubSpec};

use crate::constants::{Constants, Decimal};
use crate::definiteness::{axis6, find_falling_direction};
use crate::exact::exact;
use crate::laws::basics::{decimal_notation_reads_back, read_decimal};
use crate::laws::covariance::semidefinite;
use crate::laws::eigen::{
    bracket_closes_on_the_least_value, eigen_constants, halved, positive_part, size,
};
use crate::laws::elimination::lemma_enough_eliminations;
use crate::laws::entries::{
    chain_rule_entries, chained, image_entries, mapped_covariance_entries,
    norm_squares_to_the_sum_of_squares, product_entries, quadratic, rotation_entries, sandwich,
    turn_entry,
};
use crate::laws::forms::{ordered, roots, unit};
use crate::laws::frames::units;
use crate::laws::observation_results::{
    has_chained_entries, is_equatorial_difference, jacobian_is_taken_at_the_difference,
};
use crate::laws::tags::{
    dominant_pair, dominant_value_is_the_largest, entries_squared, form_adds_all_entries,
    frobenius_norm_adds_all_squares, is_scale, least_eigenvalue_to_the_bit, least_value, left_over,
    lemma_lowest_value, lemma_one_root, lemma_symmetric, lemma_unit, length_squared,
    pair_without_an_iteration, symmetric,
    tag_tells_definiteness, tolerance_is_round_off_of_the_scale,
};
use crate::laws::transform_results::{
    component, lemma_turned, lemma_turned_entry, rotation_to_the_ecliptic, rotation_to_the_equator,
    seen_from, seen_from_the_ecliptic, seen_from_the_equator, turned_entry,
};
use crate::linalg::{
    dot, dot6, dot_from, image, mat6_mul, mat6_transpose, mat6_vec_mul, product,
    propagate_covariance_6x6, transposed, vec6_norm, Mat6, Vec6,
};
use crate::observation::{
    compose_jacobian, observation_jacobian_assist, topocentric_state, Topocentric,
};
use crate::propagator::covariance_quality_6x6;
use crate::rotation::{ecl_to_eq_6x6, ecliptic_to_equatorial, equatorial_to_ecliptic, rotation};
use crate::scalar::{abs, applied, apply, is_function, less, max, same, Scalar};
use crate::spectrum::{
    bracket_lowest, form, form_at, frobenius, mat6_eigenvector_max, mat6_min_eigenvalue_sym,
    round_off_tolerance, Bracket,
};
use crate::text::{text_eq, usize_text};
use crate::transform::{translate, turn, vec6_sub};
use crate::types::{CartesianState, CovarianceQuality, Frame, Origin};

verus! {

/// The absolute value is the distance from zero.
pub proof fn absolute_value<T: Scalar>(val: spec_fn(T) -> real, zero: T, x: T, y: T)
    requires
        exact(val),
        ordered(val),
        val(zero) == 0 as real,
        call_ensures(abs::<T>, (zero, x), y),
    ensures
        val(y) == size(val(x)),
{
}

/// The maximum is the larger of two values; to the bit, the first where they
/// do not compare.
pub proof fn maximum<T: Scalar>(val: spec_fn(T) -> real, x: T, y: T, z: T)
    requires
        call_ensures(max::<T>, (x, y), z),
    ensures
        z == x || z == y,
        !less(x, y) ==> z == x,
        ordered(val) ==> val(z) >= val(x) && val(z) >= val(y),
{
}

/// The six products of `a` and `b`, added to `start` one after the other from
/// the left.
pub open spec fn added_from_the_left<T: Scalar>(
    start: T,
    a: spec_fn(int) -> T,
    b: spec_fn(int) -> T,
) -> T {
    start.add_spec(a(0).mul_spec(b(0))).add_spec(a(1).mul_spec(b(1))).add_spec(
        a(2).mul_spec(b(2)),
    ).add_spec(a(3).mul_spec(b(3))).add_spec(a(4).mul_spec(b(4))).add_spec(a(5).mul_spec(b(5)))
}

/// A function is called at the point that is given, and what it returns is
/// passed on.
pub proof fn application<A, B, F: Fn(A) -> B>(f: F, x: A, y: B, z: B)
    requires
        is_function(f),
        call_ensures(apply::<A, B, F>, (&f, x), y),
        f.ensures((x,), z),
    ensures
        y == z,
{
}

/// The dot product, to the bit: the six products, added to the start one after
/// the other from the left.
pub proof fn dot_product_to_the_bit<T: Scalar>(start: T, a: Vec6<T>, b: Vec6<T>, s: T)
    requires
        call_ensures(dot6::<T>, (start, &a, &b), s),
    ensures
        s == added_from_the_left(start, |k: int| a[k], |k: int| b[k]),
{
    reveal_with_fuel(dot_from, 7);
}

/// Each entry of a product of matrices, to the bit: a row times a column,
/// added to zero from the left.
pub proof fn matrix_product_to_the_bit<T: Scalar>(
    zero: T,
    a: Mat6<T>,
    b: Mat6<T>,
    m: Mat6<T>,
    i: int,
    j: int,
)
    requires
        call_ensures(mat6_mul::<T>, (zero, &a, &b), m),
        0 <= i < 6,
        0 <= j < 6,
    ensures
        m[i][j] == added_from_the_left(zero, |k: int| a[i][k], |k: int| b[k][j]),
{
    reveal_with_fuel(dot_from, 7);
}

/// Each entry of a product of matrices, over the real numbers.
pub proof fn matrix_product<T: Scalar>(
    val: spec_fn(T) -> real,
    zero: T,
    a: Mat6<T>,
    b: Mat6<T>,
    m: Mat6<T>,
    i: int,
    j: int,
)
    requires
        exact(val),
        val(zero) == 0 as real,
        call_ensures(mat6_mul::<T>, (zero, &a, &b), m),
        0 <= i < 6,
        0 <= j < 6,
    ensures
        val(m[i][j]) == val(a[i][0]) * val(b[0][j]) + val(a[i][1]) * val(b[1][j]) + val(a[i][2])
            * val(b[2][j]) + val(a[i][3]) * val(b[3][j]) + val(a[i][4]) * val(b[4][j]) + val(
            a[i][5],
        ) * val(b[5][j]),
{
    product_entries(val, zero, a, b, i, j);
}

/// The transpose exchanges rows and columns, to the bit, and does not read the
/// zero that it is given.
pub proof fn transpose_exchanges_rows_and_columns<T: Copy>(
    zero: T,
    m: Mat6<T>,
    t: Mat6<T>,
    i: int,
    j: int,
)
    requires
        call_ensures(mat6_transpose::<T>, (zero, &m), t),
        0 <= i < 6,
        0 <= j < 6,
    ensures
        t[i][j] == m[j][i],
{
}

/// Each entry of a matrix times a vector.
pub proof fn matrix_times_vector<T: Scalar>(
    val: spec_fn(T) -> real,
    zero: T,
    a: Mat6<T>,
    v: Vec6<T>,
    w: Vec6<T>,
    i: int,
)
    requires
        exact(val),
        val(zero) == 0 as real,
        call_ensures(mat6_vec_mul::<T>, (zero, &a, &v), w),
        0 <= i < 6,
    ensures
        val(w[i]) == val(a[i][0]) * val(v[0]) + val(a[i][1]) * val(v[1]) + val(a[i][2]) * val(v[2])
            + val(a[i][3]) * val(v[3]) + val(a[i][4]) * val(v[4]) + val(a[i][5]) * val(v[5]),
{
    image_entries(val, zero, a, v, i);
}

/// A matrix times a vector, to the bit.
pub proof fn matrix_times_vector_to_the_bit<T: Scalar>(
    zero: T,
    a: Mat6<T>,
    v: Vec6<T>,
    w: Vec6<T>,
    i: int,
)
    requires
        call_ensures(mat6_vec_mul::<T>, (zero, &a, &v), w),
        0 <= i < 6,
    ensures
        w[i] == added_from_the_left(zero, |k: int| a[i][k], |k: int| v[k]),
{
    reveal_with_fuel(dot_from, 7);
}

/// The norm, to the bit: the root of the sum of the squares, taken from the
/// left.
pub proof fn norm_to_the_bit<T: Scalar, S: Fn(T) -> T>(zero: T, sqrt: S, v: Vec6<T>, n: T)
    requires
        call_ensures(vec6_norm::<T, S>, (zero, &sqrt, &v), n),
    ensures
        n == applied(sqrt, added_from_the_left(zero, |k: int| v[k], |k: int| v[k])),
{
    reveal_with_fuel(dot_from, 7);
}

/// The norm is not negative, and squares to the sum of the squares.
pub proof fn norm_of_a_vector<T: Scalar, S: Fn(T) -> T>(
    val: spec_fn(T) -> real,
    zero: T,
    sqrt: S,
    v: Vec6<T>,
    n: T,
)
    requires
        exact(val),
        val(zero) == 0 as real,
        roots(val, sqrt),
        call_ensures(vec6_norm::<T, S>, (zero, &sqrt, &v), n),
    ensures
        val(n) >= 0 as real,
        val(n) * val(n) == length_squared(val, v),
{
    norm_squares_to_the_sum_of_squares(val, zero, sqrt, v);
}

/// Each entry of a mapped covariance is that of `j sigma j^T`.
pub proof fn covariance_map<T: Scalar>(
    val: spec_fn(T) -> real,
    zero: T,
    j: Mat6<T>,
    sigma: Mat6<T>,
    m: Mat6<T>,
    a: int,
    b: int,
)
    requires
        exact(val),
        val(zero) == 0 as real,
        call_ensures(propagate_covariance_6x6::<T>, (zero, &j, &sigma), m),
        0 <= a < 6,
        0 <= b < 6,
    ensures
        val(m[a][b]) == sandwich(val, j, sigma, a, b),
{
    mapped_covariance_entries(val, zero, j, sigma, a, b);
}

/// A mapped covariance, to the bit: first `j` times `sigma`, then the result
/// times the transpose of `j`.
///
/// Returns `j` times `sigma`.
pub proof fn covariance_map_to_the_bit<T: Scalar>(
    zero: T,
    j: Mat6<T>,
    sigma: Mat6<T>,
    m: Mat6<T>,
) -> (first: Mat6<T>)
    requires
        call_ensures(propagate_covariance_6x6::<T>, (zero, &j, &sigma), m),
    ensures
        forall|a: int, b: int|
            0 <= a < 6 && 0 <= b < 6 ==> #[trigger] first[a][b] == added_from_the_left(
                zero,
                |k: int| j[a][k],
                |k: int| sigma[k][b],
            ),
        forall|a: int, b: int|
            0 <= a < 6 && 0 <= b < 6 ==> #[trigger] m[a][b] == added_from_the_left(
                zero,
                |k: int| first[a][k],
                |k: int| j[b][k],
            ),
{
    let first = product(zero, j, sigma);
    assert forall|a: int, b: int| 0 <= a < 6 && 0 <= b < 6 implies #[trigger] first[a][b]
        == added_from_the_left(zero, |k: int| j[a][k], |k: int| sigma[k][b]) by {
        reveal_with_fuel(dot_from, 7);
    }
    assert forall|a: int, b: int| 0 <= a < 6 && 0 <= b < 6 implies #[trigger] m[a][b]
        == added_from_the_left(zero, |k: int| first[a][k], |k: int| j[b][k]) by {
        reveal_with_fuel(dot_from, 7);
    }
    first
}

/// The difference of two vectors, to the bit.
pub proof fn difference_of_vectors<T: Scalar>(a: Vec6<T>, b: Vec6<T>, d: Vec6<T>, i: int)
    requires
        call_ensures(vec6_sub::<T>, (&a, &b), d),
        0 <= i < 6,
    ensures
        d[i] == a[i].sub_spec(b[i]),
{
}

/// The rotation to the equatorial frame, to the bit.
pub proof fn to_the_equator_to_the_bit<T: Scalar>(c: Constants<T>, s: Vec6<T>, r: Vec6<T>)
    requires
        call_ensures(ecliptic_to_equatorial::<T>, (&c, &s), r),
    ensures
        r[0] == s[0],
        r[1] == c.cos_eps.mul_spec(s[1]).sub_spec(c.sin_eps.mul_spec(s[2])),
        r[2] == c.sin_eps.mul_spec(s[1]).add_spec(c.cos_eps.mul_spec(s[2])),
        r[3] == s[3],
        r[4] == c.cos_eps.mul_spec(s[4]).sub_spec(c.sin_eps.mul_spec(s[5])),
        r[5] == c.sin_eps.mul_spec(s[4]).add_spec(c.cos_eps.mul_spec(s[5])),
{
}

/// The rotation to the ecliptic frame, to the bit.
pub proof fn to_the_ecliptic_to_the_bit<T: Scalar>(c: Constants<T>, s: Vec6<T>, r: Vec6<T>)
    requires
        call_ensures(equatorial_to_ecliptic::<T>, (&c, &s), r),
    ensures
        r[0] == s[0],
        r[1] == c.cos_eps.mul_spec(s[1]).add_spec(c.sin_eps.mul_spec(s[2])),
        r[2] == c.sin_eps.neg_spec().mul_spec(s[1]).add_spec(c.cos_eps.mul_spec(s[2])),
        r[3] == s[3],
        r[4] == c.cos_eps.mul_spec(s[4]).add_spec(c.sin_eps.mul_spec(s[5])),
        r[5] == c.sin_eps.neg_spec().mul_spec(s[4]).add_spec(c.cos_eps.mul_spec(s[5])),
{
}

/// Both rotations, over the real numbers.
pub proof fn rotations<T: Scalar>(
    val: spec_fn(T) -> real,
    c: Constants<T>,
    s: Vec6<T>,
    there: Vec6<T>,
    back: Vec6<T>,
    k: int,
)
    requires
        exact(val),
        call_ensures(ecliptic_to_equatorial::<T>, (&c, &s), there),
        call_ensures(equatorial_to_ecliptic::<T>, (&c, &s), back),
        0 <= k < 6,
    ensures
        val(there[k]) == seen_from_the_equator(
            val(c.cos_eps),
            val(c.sin_eps),
            |j: int| val(s[j]),
            k,
        ),
        val(back[k]) == seen_from_the_ecliptic(
            val(c.cos_eps),
            val(c.sin_eps),
            |j: int| val(s[j]),
            k,
        ),
{
    rotation_to_the_equator(val, c, s, k);
    rotation_to_the_ecliptic(val, c, s, k);
}

/// Each entry of the rotation as a matrix.
pub proof fn matrix_of_the_rotation<T: Scalar>(
    val: spec_fn(T) -> real,
    c: Constants<T>,
    m: Mat6<T>,
    i: int,
    j: int,
)
    requires
        exact(val),
        val(c.zero) == 0 as real,
        val(c.one) == 1 as real,
        call_ensures(ecl_to_eq_6x6::<T>, (&c,), m),
        0 <= i < 6,
        0 <= j < 6,
    ensures
        val(m[i][j]) == turn_entry(val(c.cos_eps), val(c.sin_eps), i, j),
{
    rotation_entries(val, c, i, j);
}

/// The six components of a state, in their order, and back.
pub proof fn components_of_a_state<T: Copy>(
    s: CartesianState<T>,
    v: Vec6<T>,
    w: Vec6<T>,
    epoch: T,
    frame: Frame,
    origin: Origin,
    covariance: Option<Mat6<T>>,
    r: CartesianState<T>,
)
    requires
        call_ensures(CartesianState::<T>::to_array, (&s,), v),
        call_ensures(
            CartesianState::<T>::from_array,
            (w, epoch, frame, origin, covariance),
            r,
        ),
    ensures
        v[0] == s.x,
        v[1] == s.y,
        v[2] == s.z,
        v[3] == s.vx,
        v[4] == s.vy,
        v[5] == s.vz,
        r.x == w[0],
        r.y == w[1],
        r.z == w[2],
        r.vx == w[3],
        r.vy == w[4],
        r.vz == w[5],
        r.epoch == epoch,
        r.frame == frame,
        r.origin == origin,
        r.covariance == covariance,
{
}

/// A state turned to a frame: each component is seen from that frame, and
/// epoch and origin stay.
pub proof fn turned_state<T: Scalar>(
    val: spec_fn(T) -> real,
    c: Constants<T>,
    s: CartesianState<T>,
    frame: Frame,
    r: CartesianState<T>,
    k: int,
)
    requires
        exact(val),
        call_ensures(turn::<T>, (&c, &s, frame), r),
        0 <= k < 6,
    ensures
        component(val, r, k) == seen_from(val, c, s, frame, k),
        r.epoch == s.epoch,
        r.frame == frame,
        r.origin == s.origin,
        r.covariance is Some <==> s.covariance is Some,
        s.frame == frame ==> r == s,
{
    lemma_turned(val, c, s, frame, k);
}

/// A state turned to the other frame, to the bit.
pub proof fn turned_state_to_the_bit<T: Scalar>(
    c: Constants<T>,
    s: CartesianState<T>,
    frame: Frame,
    r: CartesianState<T>,
)
    requires
        s.frame != frame,
        call_ensures(turn::<T>, (&c, &s, frame), r),
    ensures
        r.x == s.x,
        r.vx == s.vx,
        frame == Frame::Equatorial ==> {
            &&& r.y == c.cos_eps.mul_spec(s.y).sub_spec(c.sin_eps.mul_spec(s.z))
            &&& r.z == c.sin_eps.mul_spec(s.y).add_spec(c.cos_eps.mul_spec(s.z))
            &&& r.vy == c.cos_eps.mul_spec(s.vy).sub_spec(c.sin_eps.mul_spec(s.vz))
            &&& r.vz == c.sin_eps.mul_spec(s.vy).add_spec(c.cos_eps.mul_spec(s.vz))
        },
        frame == Frame::EclipticJ2000 ==> {
            &&& r.y == c.cos_eps.mul_spec(s.y).add_spec(c.sin_eps.mul_spec(s.z))
            &&& r.z == c.sin_eps.neg_spec().mul_spec(s.y).add_spec(c.cos_eps.mul_spec(s.z))
            &&& r.vy == c.cos_eps.mul_spec(s.vy).add_spec(c.sin_eps.mul_spec(s.vz))
            &&& r.vz == c.sin_eps.neg_spec().mul_spec(s.vy).add_spec(c.cos_eps.mul_spec(s.vz))
        },
{
}

/// A covariance turned to the other frame, entry by entry: between the
/// rotation and its transpose to the equatorial frame, and the other way round
/// back.
pub proof fn turned_covariance<T: Scalar>(
    val: spec_fn(T) -> real,
    c: Constants<T>,
    s: CartesianState<T>,
    frame: Frame,
    sigma: Mat6<T>,
    r: CartesianState<T>,
    i: int,
    m: int,
)
    requires
        exact(val),
        val(c.zero) == 0 as real,
        val(c.one) == 1 as real,
        s.frame != frame,
        s.covariance == Some(sigma),
        call_ensures(turn::<T>, (&c, &s, frame), r),
        0 <= i < 6,
        0 <= m < 6,
    ensures
        r.covariance matches Some(n) && val(n[i][m]) == turned_entry(
            val,
            |a: int, b: int|
                if frame == Frame::Equatorial {
                    turn_entry(val(c.cos_eps), val(c.sin_eps), a, b)
                } else {
                    turn_entry(val(c.cos_eps), val(c.sin_eps), b, a)
                },
            sigma,
            i,
            m,
        ),
{
    let t = |a: int, b: int|
        if frame == Frame::Equatorial {
            turn_entry(val(c.cos_eps), val(c.sin_eps), a, b)
        } else {
            turn_entry(val(c.cos_eps), val(c.sin_eps), b, a)
        };
    let j = if frame == Frame::Equatorial {
        rotation(c)
    } else {
        transposed(rotation(c))
    };
    assert forall|a: int, b: int| 0 <= a < 6 && 0 <= b < 6 implies val(#[trigger] j[a][b]) == t(
        a,
        b,
    ) by {
        rotation_entries(val, c, a, b);
        rotation_entries(val, c, b, a);
    }
    mapped_covariance_entries(val, c.zero, j, sigma, i, m);
    lemma_turned_entry(val, j, t, sigma, i, m);
}

/// A state moved to another origin: with or without a covariance, the way from
/// the old origin to the new one is taken off each component, in the state's
/// own frame. All else stays.
pub proof fn moved_state<T: Scalar>(
    val: spec_fn(T) -> real,
    c: Constants<T>,
    s: CartesianState<T>,
    origin: Origin,
    from: Vec6<T>,
    to: Vec6<T>,
    r: CartesianState<T>,
    k: int,
)
    requires
        exact(val),
        call_ensures(translate::<T>, (&c, &s, origin, &from, &to), r),
        0 <= k < 6,
    ensures
        s.frame == Frame::EclipticJ2000 ==> component(val, r, k) == component(val, s, k) - (val(
            to[k],
        ) - val(from[k])),
        s.frame == Frame::Equatorial ==> component(val, r, k) == component(val, s, k)
            - seen_from_the_equator(
            val(c.cos_eps),
            val(c.sin_eps),
            |j: int| val(to[j]) - val(from[j]),
            k,
        ),
        r.epoch == s.epoch,
        r.frame == s.frame,
        r.origin == origin,
        r.covariance == s.covariance,
{
}

/// The state relative to an observer is the equatorial difference.
pub proof fn relative_state<T: Scalar>(
    val: spec_fn(T) -> real,
    c: Constants<T>,
    body: Vec6<T>,
    observer: CartesianState<T>,
    t: Topocentric<T>,
)
    requires
        exact(val),
        call_ensures(topocentric_state::<T>, (&c, &body, &observer), t),
    ensures
        is_equatorial_difference(val, c, body, observer, t),
{
}

/// The entries of a composed Jacobian are those of the chain rule.
pub proof fn composition<T: Scalar>(
    val: spec_fn(T) -> real,
    c: Constants<T>,
    local: Mat6<T>,
    phi: Mat6<T>,
    m: Mat6<T>,
)
    requires
        exact(val),
        val(c.zero) == 0 as real,
        val(c.one) == 1 as real,
        call_ensures(compose_jacobian::<T>, (&c, &local, &phi), m),
    ensures
        has_chained_entries(val, c, local, phi, m),
{
    assert forall|i: int, j: int| 0 <= i < 6 && 0 <= j < 6 implies val(#[trigger] m[i][j])
        == chained(val, c, local, phi, i, j) by {
        chain_rule_entries(val, c, local, phi, i, j);
    }
}

/// A composed Jacobian, to the bit: `local` times the rotation, times `phi`;
/// then the rows of the angles and their rates times the degrees in a radian.
///
/// Returns `local` times the rotation, and the Jacobian in radians.
pub proof fn composition_to_the_bit<T: Scalar>(
    c: Constants<T>,
    local: Mat6<T>,
    phi: Mat6<T>,
    r: Mat6<T>,
    m: Mat6<T>,
) -> (steps: (Mat6<T>, Mat6<T>))
    requires
        call_ensures(ecl_to_eq_6x6::<T>, (&c,), r),
        call_ensures(compose_jacobian::<T>, (&c, &local, &phi), m),
    ensures
        forall|i: int, j: int|
            0 <= i < 6 && 0 <= j < 6 ==> #[trigger] steps.0[i][j] == added_from_the_left(
                c.zero,
                |k: int| local[i][k],
                |k: int| r[k][j],
            ),
        forall|i: int, j: int|
            0 <= i < 6 && 0 <= j < 6 ==> #[trigger] steps.1[i][j] == added_from_the_left(
                c.zero,
                |k: int| steps.0[i][k],
                |k: int| phi[k][j],
            ),
        forall|i: int, j: int|
            0 <= i < 6 && 0 <= j < 6 ==> #[trigger] m[i][j] == if i == 0 || i == 3 {
                steps.1[i][j]
            } else {
                steps.1[i][j].mul_spec(c.rad_to_deg)
            },
{
    let turned = product(c.zero, local, r);
    let radians = product(c.zero, turned, phi);
    assert forall|i: int, j: int| 0 <= i < 6 && 0 <= j < 6 implies #[trigger] turned[i][j]
        == added_from_the_left(c.zero, |k: int| local[i][k], |k: int| r[k][j]) by {
        reveal_with_fuel(dot_from, 7);
    }
    assert forall|i: int, j: int| 0 <= i < 6 && 0 <= j < 6 implies #[trigger] radians[i][j]
        == added_from_the_left(c.zero, |k: int| turned[i][k], |k: int| phi[k][j]) by {
        reveal_with_fuel(dot_from, 7);
    }
    (turned, radians)
}

/// The observation Jacobian is taken at the equatorial difference of body and
/// observer, and follows from it by the chain rule.
///
/// Returns the difference.
pub proof fn jacobian_of_an_observation<T: Scalar, J: Fn(Topocentric<T>) -> Mat6<T>>(
    val: spec_fn(T) -> real,
    c: Constants<T>,
    spherical_jacobian: J,
    phi: Mat6<T>,
    body: Vec6<T>,
    observer: CartesianState<T>,
    m: Mat6<T>,
) -> (t: Topocentric<T>)
    requires
        exact(val),
        val(c.zero) == 0 as real,
        val(c.one) == 1 as real,
        call_ensures(
            observation_jacobian_assist::<T, J>,
            (&c, &spherical_jacobian, &phi, &body, &observer),
            m,
        ),
    ensures
        is_equatorial_difference(val, c, body, observer, t),
        has_chained_entries(val, c, applied(spherical_jacobian, t), phi, m),
{
    jacobian_is_taken_at_the_difference(val, c, spherical_jacobian, phi, body, observer)
}

/// The value of a quadratic form is the sum over all entries.
pub proof fn value_of_a_form<T: Scalar>(
    val: spec_fn(T) -> real,
    zero: T,
    a: Mat6<T>,
    v: Vec6<T>,
    q: T,
)
    requires
        exact(val),
        val(zero) == 0 as real,
        call_ensures(form_at::<T>, (zero, &a, &v), q),
    ensures
        val(q) == quadratic(val, a, v),
{
    form_adds_all_entries(val, zero, a, v);
}

/// A coordinate axis has a one at its index, and zeros elsewhere.
pub proof fn coordinate_axis<T: Copy>(c: Constants<T>, k: usize, v: Vec6<T>, i: int)
    requires
        k < 6,
        call_ensures(axis6::<T>, (&c, k), v),
        0 <= i < 6,
    ensures
        i == k ==> v[i] == c.one,
        i != k ==> v[i] == c.zero,
{
}

/// With as many eliminations as there are rows before the rest, where the rest
/// are zero (six are always enough), a falling direction is found just when a
/// symmetric matrix has one; its quadratic form is negative there.
pub proof fn falling_direction_of_a_matrix<T: Scalar>(
    val: spec_fn(T) -> real,
    c: Constants<T>,
    s: Mat6<T>,
    steps: usize,
    d: Option<Vec6<T>>,
)
    requires
        exact(val),
        ordered(val),
        units(val, c),
        symmetric(s),
        forall|i: int, j: int|
            steps <= i < 6 && 0 <= j < 6 ==> val(#[trigger] s[i][j]) == 0 as real,
        call_ensures(find_falling_direction::<T>, (&c, &s, steps), d),
    ensures
        d is None <==> forall|x: Vec6<T>| #[trigger] quadratic(val, s, x) >= 0 as real,
        d matches Some(x) ==> quadratic(val, s, x) < 0 as real,
{
    lemma_symmetric(s);
    lemma_enough_eliminations(val, c, s, steps as nat);
    match d {
        Some(x) => {
            form_adds_all_entries(val, c.zero, s, x);
        },
        None => {
            assert(semidefinite(val, c.zero, s));
            assert forall|x: Vec6<T>| #[trigger] quadratic(val, s, x) >= 0 as real by {
                form_adds_all_entries(val, c.zero, s, x);
                assert(val(dot(c.zero, image(c.zero, s, x), x)) >= 0 as real);
            }
        },
    }
}

/// The tolerance is the round-off times the scale, below zero.
pub proof fn tolerance_of_a_covariance<T: Scalar>(
    val: spec_fn(T) -> real,
    c: Constants<T>,
    a: Mat6<T>,
    scale: real,
    t: T,
)
    requires
        exact(val),
        ordered(val),
        val(c.zero) == 0 as real,
        val(c.min_positive) > 0 as real,
        is_scale(val, c, a, scale),
        call_ensures(round_off_tolerance::<T>, (&c, &a), t),
    ensures
        val(t) == -(val(c.round_off) * scale),
{
    tolerance_is_round_off_of_the_scale(val, c, a, scale);
}

/// A bracket of the least value of a symmetric matrix's form, from a vector of
/// unit length: its value is taken at its vector, of unit length too; nothing
/// lies below its floor; and the two are apart by at most twice the Frobenius
/// norm halved sixty times.
pub proof fn bracket_of_the_least_value<T: Scalar, S: Fn(T) -> T>(
    val: spec_fn(T) -> real,
    c: Constants<T>,
    sqrt: S,
    a: Mat6<T>,
    v: Vec6<T>,
    f: real,
    b: Bracket<T>,
)
    requires
        exact(val),
        ordered(val),
        roots(val, sqrt),
        units(val, c),
        symmetric(a),
        length_squared(val, v) == 1 as real,
        f >= 0 as real,
        f * f == entries_squared(val, a),
        call_ensures(bracket_lowest::<T, S>, (&c, &sqrt, &a, &v), b),
    ensures
        length_squared(val, b.vector) == 1 as real,
        val(b.value) == quadratic(val, a, b.vector),
        forall|x: Vec6<T>|
            length_squared(val, x) == 1 as real ==> val(b.floor) <= #[trigger] quadratic(
                val,
                a,
                x,
            ),
        val(b.value) - val(b.floor) <= halved((2 as real) * f, 60),
{
    lemma_symmetric(a);
    lemma_unit(val, c.zero, v);
    bracket_closes_on_the_least_value(val, c, sqrt, a, v);
    frobenius_norm_adds_all_squares(val, c, sqrt, a);
    lemma_one_root(f, val(frobenius(c, sqrt, a)));
    lemma_unit(val, c.zero, b.vector);
    form_adds_all_entries(val, c.zero, a, b.vector);
    assert forall|x: Vec6<T>| length_squared(val, x) == 1 as real implies val(b.floor)
        <= #[trigger] quadratic(val, a, x) by {
        lemma_unit(val, c.zero, x);
        form_adds_all_entries(val, c.zero, a, x);
        assert(unit(val, c.zero, x));
    }
}

/// The least eigenvalue and the value of a bracket, to the bit: a value of the
/// quadratic form, at the bracket's own vector; of the least eigenvalue also
/// zero, where the Frobenius norm equals zero.
pub proof fn values_of_the_form<T: Scalar, S: Fn(T) -> T>(
    c: Constants<T>,
    sqrt: S,
    a: Mat6<T>,
    v: Vec6<T>,
    l: T,
    b: Bracket<T>,
    q: T,
)
    requires
        call_ensures(mat6_min_eigenvalue_sym::<T, S>, (&c, &sqrt, &a), l),
        call_ensures(bracket_lowest::<T, S>, (&c, &sqrt, &a, &v), b),
        call_ensures(form_at::<T>, (c.zero, &a, &b.vector), q),
    ensures
        b.value == q,
        l == c.zero || exists|x: Vec6<T>| #[trigger] form(c.zero, a, x) == l,
        !same(frobenius(c, sqrt, a), c.zero) ==> exists|x: Vec6<T>| #[trigger]
            form(c.zero, a, x) == l,
{
    least_eigenvalue_to_the_bit(c, sqrt, a);
    lemma_lowest_value(c, sqrt, a, v);
}

/// The eigenpair of largest magnitude of a symmetric matrix.
pub proof fn largest_eigenpair<T: Scalar, S: Fn(T) -> T>(
    val: spec_fn(T) -> real,
    c: Constants<T>,
    sqrt: S,
    a: Mat6<T>,
    max_iter: usize,
    tol: T,
    f: real,
    x: Vec6<T>,
    r: (Vec6<T>, T),
)
    requires
        exact(val),
        ordered(val),
        roots(val, sqrt),
        eigen_constants(val, c),
        symmetric(a),
        f >= 0 as real,
        f * f == entries_squared(val, a),
        length_squared(val, x) == 1 as real,
        call_ensures(mat6_eigenvector_max::<T, S>, (&c, &sqrt, &a, max_iter, tol), r),
    ensures
        length_squared(val, r.0) == 1 as real,
        val(r.1) == quadratic(val, a, r.0) || (val(r.1) == 0 as real && length_squared(
            val,
            image(c.zero, a, r.0),
        ) < val(c.norm_floor) * val(c.norm_floor)),
        max_iter == 0 ==> val(r.1) == quadratic(val, a, r.0) && forall|i: int|
            0 <= i < 6 ==> val(#[trigger] r.0[i]) >= 0 as real && val(r.0[i]) * val(r.0[i]) * (
            6 as real) == 1 as real,
        max_iter > 0 ==> {
            let m = size(val(r.1)) + positive_part(val(tol)) * f + val(c.norm_floor) + halved(
                (2 as real) * f,
                60,
            );
            &&& size(quadratic(val, a, x)) <= m
            &&& left_over(val, a, r.0, r.1) <= m * m - val(r.1) * val(r.1)
        },
{
    dominant_pair(val, c, sqrt, a, max_iter as nat, tol);
    if max_iter == 0 {
        pair_without_an_iteration(val, c, sqrt, a, tol);
    } else {
        dominant_value_is_the_largest(val, c, sqrt, a, max_iter as nat, tol, f, x);
    }
}

/// The least eigenvalue of a symmetric matrix.
pub proof fn smallest_eigenvalue<T: Scalar, S: Fn(T) -> T>(
    val: spec_fn(T) -> real,
    c: Constants<T>,
    sqrt: S,
    a: Mat6<T>,
    f: real,
    l: T,
)
    requires
        exact(val),
        ordered(val),
        roots(val, sqrt),
        eigen_constants(val, c),
        symmetric(a),
        f >= 0 as real,
        f * f == entries_squared(val, a),
        call_ensures(mat6_min_eigenvalue_sym::<T, S>, (&c, &sqrt, &a), l),
    ensures
        exists|v: Vec6<T>|
            length_squared(val, v) == 1 as real && #[trigger] quadratic(val, a, v) == val(l),
        forall|x: Vec6<T>|
            length_squared(val, x) == 1 as real ==> val(l) <= #[trigger] quadratic(val, a, x)
                + halved((2 as real) * f, 60),
{
    least_value(val, c, sqrt, a, f);
}

/// The tag of a symmetric covariance: positive definite just when the
/// quadratic form goes nowhere below zero by more than round-off of the scale.
pub proof fn tag_of_a_covariance<T: Scalar, S: Fn(T) -> T>(
    val: spec_fn(T) -> real,
    c: Constants<T>,
    sqrt: S,
    cov: Mat6<T>,
    scale: real,
    q: CovarianceQuality<T>,
)
    requires
        exact(val),
        ordered(val),
        roots(val, sqrt),
        eigen_constants(val, c),
        val(c.round_off) >= 0 as real,
        val(c.min_positive) > 0 as real,
        symmetric(cov),
        is_scale(val, c, cov, scale),
        call_ensures(covariance_quality_6x6::<T, S>, (&c, &sqrt, &cov), q),
    ensures
        q == CovarianceQuality::<T>::PositiveDefinite <==> forall|x: Vec6<T>|
            length_squared(val, x) == 1 as real ==> #[trigger] quadratic(val, cov, x) >= -(val(
                c.round_off,
            ) * scale),
{
    tag_tells_definiteness(val, c, sqrt, cov, scale);
}

/// A number's text reads back as the number, and starts with no zero but that
/// of zero itself.
pub proof fn text_of_a_number(n: usize, s: String)
    requires
        call_ensures(usize_text, (n,), s),
    ensures
        read_decimal(s@) == n,
        s@.len() > 0,
        s@[0] == '0' ==> n == 0,
{
    decimal_notation_reads_back(n as nat);
}

/// Two texts are equal just when their characters are.
pub proof fn equal_texts(a: &str, b: &str, r: bool)
    requires
        call_ensures(text_eq, (a, b), r),
    ensures
        r <==> a@ == b@,
{
}

/// A decimal holds the mantissa and the exponent that it is given.
pub proof fn decimal_of_its_parts(mantissa: i64, exponent: i32, d: Decimal)
    requires
        call_ensures(Decimal::new, (mantissa, exponent), d),
    ensures
        d.mantissa == mantissa,
        d.exponent == exponent,
{
}

/// The number `mantissa * 10^exponent`.
pub open spec fn decimal(mantissa: i64, exponent: int) -> Decimal {
    Decimal { mantissa, exponent: exponent as i32 }
}

/// The constants are the numbers that their names say, as `read` gives them.
pub proof fn constants_are_read<T, R: Fn(Decimal) -> T>(read: R, c: Constants<T>)
    requires
        call_ensures(Constants::<T>::new::<R>, (read,), c),
    ensures
        read.ensures((decimal(0, 0),), c.zero),
        read.ensures((decimal(1, 0),), c.one),
        read.ensures((decimal(6, 0),), c.six),
        read.ensures((decimal(9174820620701082, -16),), c.cos_eps),
        read.ensures((decimal(3977771559297769, -16),), c.sin_eps),
        read.ensures((decimal(5729577951308232, -14),), c.rad_to_deg),
        read.ensures((decimal(1, -30),), c.norm_floor),
        read.ensures((decimal(1, -12),), c.eigen_tolerance),
        read.ensures((decimal(1, -12),), c.round_off),
        read.ensures((decimal(22250738585072014, -324),), c.min_positive),
        read.ensures((decimal(1, -6),), c.min_step),
        read.ensures((decimal(1, -9),), c.precision),
{
}

} // verus!
