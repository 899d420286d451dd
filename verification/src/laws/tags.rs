//! What the eigenvalue routines report, stated over the entries of the matrix.

use vstd::prelude::*;
use vstd::std_specs::ops::NegSpec;

use crate::constants::Constants;
use crate::definiteness::axis;
use crate::exact::{exact, lemma_dot, lemma_dot_terms, lemma_sum_eq, lemma_sum_scale, sum};
use crate::laws::eigen::{
    eigen_constants, eigenvalue_is_of_largest_magnitude, eigenvalue_is_rayleigh_quotient,
    eigenvector_has_unit_length, halved, least_eigenvalue_is_attained, least_eigenvalue_is_least,
    lemma_vanished, positive_part, size, vector_is_an_eigenvector,
};
use crate::laws::entries::quadratic;
use crate::laws::forms::{ordered, roots, unit};
use crate::linalg::{dot, dot_from, image, lemma_mat6_ext, norm, transposed, Mat6, Vec6};
use crate::propagator::quality;
use crate::scalar::{applied, at_least, larger, less, same, Scalar};
use crate::spectrum::{
    bisected, dominant_eigenpair, form, frobenius, largest_diagonal, least_eigenvalue, lowest,
    middle, negated, power_best, power_iterated, power_start, probed, residual, shifted, squares,
    tolerance, Bracket,
};
use crate::types::CovarianceQuality;

verus! {

/// The square of a vector's length.
pub open spec fn length_squared<T>(val: spec_fn(T) -> real, v: Vec6<T>) -> real {
    val(v[0]) * val(v[0]) + val(v[1]) * val(v[1]) + val(v[2]) * val(v[2]) + val(v[3]) * val(v[3])
        + val(v[4]) * val(v[4]) + val(v[5]) * val(v[5])
}

/// The sum of the squares of all entries.
pub open spec fn entries_squared<T>(val: spec_fn(T) -> real, a: Mat6<T>) -> real {
    length_squared(val, a[0]) + length_squared(val, a[1]) + length_squared(val, a[2])
        + length_squared(val, a[3]) + length_squared(val, a[4]) + length_squared(val, a[5])
}

/// Rows and columns are exchangeable.
pub open spec fn symmetric<T>(a: Mat6<T>) -> bool {
    forall|i: int, j: int| 0 <= i < 6 && 0 <= j < 6 ==> #[trigger] a[i][j] == a[j][i]
}

/// `scale` is the largest of the variances and the smallest positive number.
pub open spec fn is_scale<T>(
    val: spec_fn(T) -> real,
    c: Constants<T>,
    a: Mat6<T>,
    scale: real,
) -> bool {
    &&& scale >= val(c.min_positive)
    &&& forall|i: int| 0 <= i < 6 ==> scale >= val(#[trigger] a[i][i])
    &&& scale == val(c.min_positive) || exists|i: int|
        0 <= i < 6 && scale == val(#[trigger] a[i][i])
}

/// The quadratic form, as the routines compute it, is the sum over all entries.
pub proof fn form_adds_all_entries<T: Scalar>(
    val: spec_fn(T) -> real,
    zero: T,
    a: Mat6<T>,
    x: Vec6<T>,
)
    requires
        exact(val),
        val(zero) == 0 as real,
    ensures
        val(form(zero, a, x)) == quadratic(val, a, x),
{
    let w = image(zero, a, x);
    lemma_dot(val, zero, w, x, 6);
    let f = |i: int| val(w[i]) * val(x[i]);
    let g = |i: int| sum(|j: int| val(a[i][j]) * val(x[j]) * val(x[i]), 6);
    assert forall|i: int| 0 <= i < 6 implies #[trigger] f(i) == g(i) by {
        let h = |j: int| val(a[i][j]) * val(x[j]);
        lemma_dot(val, zero, a[i], x, 6);
        assert(w[i] == dot(zero, a[i], x));
        lemma_sum_eq(|j: int| val(a[i][j]) * val(x[j]), h, 6);
        lemma_sum_scale(h, val(x[i]), 6);
        lemma_sum_eq(
            |j: int| h(j) * val(x[i]),
            |j: int| val(a[i][j]) * val(x[j]) * val(x[i]),
            6,
        );
    }
    lemma_sum_eq(|k: int| val(w[k]) * val(x[k]), f, 6);
    lemma_sum_eq(f, g, 6);
}

/// Unit length is a sum of squares of one.
pub(crate) proof fn lemma_unit<T: Scalar>(val: spec_fn(T) -> real, zero: T, v: Vec6<T>)
    requires
        exact(val),
        val(zero) == 0 as real,
    ensures
        unit(val, zero, v) <==> length_squared(val, v) == 1 as real,
{
    lemma_dot_terms(val, zero, v, v);
}

/// A matrix with exchangeable rows and columns is its own transpose.
pub(crate) proof fn lemma_symmetric<T>(a: Mat6<T>)
    requires
        symmetric(a),
    ensures
        transposed(a) == a,
{
    lemma_mat6_ext(transposed(a), a);
}

/// Two numbers that are not negative and have one square are equal.
pub(crate) proof fn lemma_one_root(x: real, y: real)
    requires
        x >= 0 as real,
        y >= 0 as real,
        x * x == y * y,
    ensures
        x == y,
{
    assert(x == y) by (nonlinear_arith)
        requires
            x >= 0 as real,
            y >= 0 as real,
            x * x == y * y,
    ;
}

/// The square of the Frobenius norm is the sum of the squares of all entries.
pub proof fn frobenius_norm_adds_all_squares<T: Scalar, S: Fn(T) -> T>(
    val: spec_fn(T) -> real,
    c: Constants<T>,
    sqrt: S,
    a: Mat6<T>,
)
    requires
        exact(val),
        roots(val, sqrt),
        val(c.zero) == 0 as real,
    ensures
        val(frobenius(c, sqrt, a)) >= 0 as real,
        val(frobenius(c, sqrt, a)) * val(frobenius(c, sqrt, a)) == entries_squared(val, a),
{
    assert forall|i: int| 0 <= i < 6 implies #[trigger] length_squared(val, a[i]) >= 0 as real by {
        lemma_length(val, a[i]);
    }
    assert(val(squares(c.zero, a, 6)) == entries_squared(val, a)) by {
        reveal_with_fuel(squares, 7);
        reveal_with_fuel(dot_from, 7);
    }
    assert(length_squared(val, a[0]) >= 0 as real);
    assert(length_squared(val, a[1]) >= 0 as real);
    assert(length_squared(val, a[2]) >= 0 as real);
    assert(length_squared(val, a[3]) >= 0 as real);
    assert(length_squared(val, a[4]) >= 0 as real);
    assert(length_squared(val, a[5]) >= 0 as real);
}

/// The square of a length is not negative.
proof fn lemma_length<T>(val: spec_fn(T) -> real, v: Vec6<T>)
    ensures
        length_squared(val, v) >= 0 as real,
{
    assert forall|i: int| 0 <= i < 6 implies val(#[trigger] v[i]) * val(v[i]) >= 0 as real by {
        let x = val(v[i]);
        assert(x * x >= 0 as real) by (nonlinear_arith);
    }
    assert(val(v[0]) * val(v[0]) >= 0 as real);
    assert(val(v[1]) * val(v[1]) >= 0 as real);
    assert(val(v[2]) * val(v[2]) >= 0 as real);
    assert(val(v[3]) * val(v[3]) >= 0 as real);
    assert(val(v[4]) * val(v[4]) >= 0 as real);
    assert(val(v[5]) * val(v[5]) >= 0 as real);
}

/// The largest variance is one of the variances or zero, and none exceeds it.
proof fn lemma_largest<T: Scalar>(val: spec_fn(T) -> real, zero: T, a: Mat6<T>, n: nat)
    requires
        ordered(val),
        n <= 6,
    ensures
        ({
            let m = val(largest_diagonal(zero, a, n));
            &&& m >= val(zero)
            &&& forall|i: int| 0 <= i < n ==> m >= val(#[trigger] a[i][i])
            &&& m == val(zero) || exists|i: int| 0 <= i < n && m == val(#[trigger] a[i][i])
        }),
    decreases n,
{
    if n > 0 {
        lemma_largest(val, zero, a, (n - 1) as nat);
        let before = val(largest_diagonal(zero, a, (n - 1) as nat));
        let last = val(a[n - 1][n - 1]);
        if before != val(zero) && !(before < last) {
            let i = choose|i: int| 0 <= i < n - 1 && before == val(#[trigger] a[i][i]);
            assert(0 <= i < n && before == val(a[i][i]));
        }
    }
}

/// The tolerance is the round-off times the scale, below zero.
pub proof fn tolerance_is_round_off_of_the_scale<T: Scalar>(
    val: spec_fn(T) -> real,
    c: Constants<T>,
    a: Mat6<T>,
    scale: real,
)
    requires
        exact(val),
        ordered(val),
        val(c.zero) == 0 as real,
        val(c.min_positive) > 0 as real,
        is_scale(val, c, a, scale),
    ensures
        val(tolerance(c, a)) == -(val(c.round_off) * scale),
{
    lemma_largest(val, c.zero, a, 6);
    let m = val(largest_diagonal(c.zero, a, 6));
    let l = val(larger(largest_diagonal(c.zero, a, 6), c.min_positive));
    assert(l == scale) by {
        if scale != val(c.min_positive) {
            let i = choose|i: int| 0 <= i < 6 && scale == val(#[trigger] a[i][i]);
            assert(m >= val(a[i][i]));
        }
        if m != 0 as real {
            let i = choose|i: int| 0 <= i < 6 && m == val(#[trigger] a[i][i]);
            assert(scale >= val(a[i][i]));
        }
    }
    let r = val(c.round_off);
    assert((-r) * scale == -(r * scale)) by (nonlinear_arith);
}

/// A covariance is tagged positive definite just when its quadratic form goes
/// nowhere below zero by more than round-off of its scale, at vectors of unit
/// length.
pub proof fn tag_tells_definiteness<T: Scalar, S: Fn(T) -> T>(
    val: spec_fn(T) -> real,
    c: Constants<T>,
    sqrt: S,
    cov: Mat6<T>,
    scale: real,
)
    requires
        exact(val),
        ordered(val),
        roots(val, sqrt),
        eigen_constants(val, c),
        val(c.round_off) >= 0 as real,
        val(c.min_positive) > 0 as real,
        symmetric(cov),
        is_scale(val, c, cov, scale),
    ensures
        quality(c, sqrt, cov) == CovarianceQuality::<T>::PositiveDefinite <==> forall|x: Vec6<T>|
            length_squared(val, x) == 1 as real ==> #[trigger] quadratic(val, cov, x) >= -(val(
                c.round_off,
            ) * scale),
{
    lemma_symmetric(cov);
    tolerance_is_round_off_of_the_scale(val, c, cov, scale);
    let t = val(tolerance(c, cov));
    let r = val(c.round_off);
    assert(r * scale >= 0 as real) by (nonlinear_arith)
        requires
            r >= 0 as real,
            scale >= 0 as real,
    ;
    let least = least_eigenvalue(c, sqrt, cov);
    if quality(c, sqrt, cov) == CovarianceQuality::<T>::PositiveDefinite {
        assert(at_least(least, tolerance(c, cov)));
        assert forall|x: Vec6<T>| length_squared(val, x) == 1 as real implies #[trigger] quadratic(
            val,
            cov,
            x,
        ) >= -(r * scale) by {
            lemma_unit(val, c.zero, x);
            form_adds_all_entries(val, c.zero, cov, x);
            least_eigenvalue_is_least(val, c, sqrt, cov, x);
        }
    } else {
        least_eigenvalue_is_attained(val, c, sqrt, cov);
        let v = choose|v: Vec6<T>|
            unit(val, c.zero, v) && #[trigger] val(dot(c.zero, image(c.zero, cov, v), v)) == val(
                least,
            );
        lemma_unit(val, c.zero, v);
        form_adds_all_entries(val, c.zero, cov, v);
        assert(!at_least(least, tolerance(c, cov)));
        assert(quadratic(val, cov, v) < -(r * scale));
    }
}

/// The value that an indefinite tag reports is taken by the quadratic form at
/// a vector of unit length, is below zero by more than round-off of the scale,
/// and is the least, but for twice the Frobenius norm halved sixty times.
pub proof fn reported_eigenvalue_is_the_least<T: Scalar, S: Fn(T) -> T>(
    val: spec_fn(T) -> real,
    c: Constants<T>,
    sqrt: S,
    cov: Mat6<T>,
    scale: real,
    f: real,
    min_eig: T,
)
    requires
        exact(val),
        ordered(val),
        roots(val, sqrt),
        eigen_constants(val, c),
        val(c.min_positive) > 0 as real,
        symmetric(cov),
        is_scale(val, c, cov, scale),
        f >= 0 as real,
        f * f == entries_squared(val, cov),
        quality(c, sqrt, cov) == (CovarianceQuality::Indefinite { min_eig }),
    ensures
        val(min_eig) < -(val(c.round_off) * scale),
        exists|v: Vec6<T>|
            length_squared(val, v) == 1 as real && #[trigger] quadratic(val, cov, v) == val(
                min_eig,
            ),
        forall|x: Vec6<T>|
            length_squared(val, x) == 1 as real ==> val(min_eig) <= #[trigger] quadratic(
                val,
                cov,
                x,
            ) + halved((2 as real) * f, 60),
{
    lemma_symmetric(cov);
    tolerance_is_round_off_of_the_scale(val, c, cov, scale);
    least_value(val, c, sqrt, cov, f);
    assert(min_eig == least_eigenvalue(c, sqrt, cov));
    assert(!at_least(min_eig, tolerance(c, cov)));
}

/// The least eigenvalue of a symmetric matrix is a value of its quadratic form
/// at a vector of unit length, and no such value lies below it, but for twice
/// the Frobenius norm halved sixty times.
pub proof fn least_value<T: Scalar, S: Fn(T) -> T>(
    val: spec_fn(T) -> real,
    c: Constants<T>,
    sqrt: S,
    a: Mat6<T>,
    f: real,
)
    requires
        exact(val),
        ordered(val),
        roots(val, sqrt),
        eigen_constants(val, c),
        symmetric(a),
        f >= 0 as real,
        f * f == entries_squared(val, a),
    ensures
        exists|v: Vec6<T>|
            length_squared(val, v) == 1 as real && #[trigger] quadratic(val, a, v) == val(
                least_eigenvalue(c, sqrt, a),
            ),
        forall|x: Vec6<T>|
            length_squared(val, x) == 1 as real ==> val(least_eigenvalue(c, sqrt, a))
                <= #[trigger] quadratic(val, a, x) + halved((2 as real) * f, 60),
{
    lemma_symmetric(a);
    frobenius_norm_adds_all_squares(val, c, sqrt, a);
    lemma_one_root(f, val(frobenius(c, sqrt, a)));
    let least = least_eigenvalue(c, sqrt, a);
    least_eigenvalue_is_attained(val, c, sqrt, a);
    let v = choose|v: Vec6<T>|
        unit(val, c.zero, v) && #[trigger] val(dot(c.zero, image(c.zero, a, v), v)) == val(least);
    lemma_unit(val, c.zero, v);
    form_adds_all_entries(val, c.zero, a, v);
    assert(length_squared(val, v) == 1 as real && quadratic(val, a, v) == val(least));
    assert forall|x: Vec6<T>| length_squared(val, x) == 1 as real implies val(least)
        <= #[trigger] quadratic(val, a, x) + halved((2 as real) * f, 60) by {
        lemma_unit(val, c.zero, x);
        form_adds_all_entries(val, c.zero, a, x);
        least_eigenvalue_is_least(val, c, sqrt, a, x);
    }
}

/// A least eigenvalue that does not compare with the tolerance shows no
/// definiteness: the tag is positive definite just when the comparison holds,
/// and reports the eigenvalue otherwise. This needs no exact arithmetic.
pub proof fn tag_follows_the_comparison<T: Scalar, S: Fn(T) -> T>(
    c: Constants<T>,
    sqrt: S,
    cov: Mat6<T>,
)
    ensures
        at_least(least_eigenvalue(c, sqrt, cov), tolerance(c, cov)) ==> quality(c, sqrt, cov)
            == CovarianceQuality::<T>::PositiveDefinite,
        !at_least(least_eigenvalue(c, sqrt, cov), tolerance(c, cov)) ==> quality(c, sqrt, cov)
            == (CovarianceQuality::Indefinite { min_eig: least_eigenvalue(c, sqrt, cov) }),
{
}

/// Bisection keeps the value of a bracket that of the form at its vector.
proof fn lemma_bisected_value<T: Scalar, S: Fn(T) -> T>(
    c: Constants<T>,
    sqrt: S,
    a: Mat6<T>,
    b: Bracket<T>,
    n: nat,
)
    requires
        b.value == form(c.zero, a, b.vector),
    ensures
        ({
            let r = bisected(c, sqrt, a, b, n);
            r.value == form(c.zero, a, r.vector)
        }),
    decreases n,
{
    if n > 0 {
        lemma_bisected_value(
            c,
            sqrt,
            a,
            probed(c, sqrt, a, b, middle(c, b)),
            (n - 1) as nat,
        );
    }
}

/// The value of the bracket of the least value is that of the form at its
/// vector.
pub(crate) proof fn lemma_lowest_value<T: Scalar, S: Fn(T) -> T>(
    c: Constants<T>,
    sqrt: S,
    a: Mat6<T>,
    v: Vec6<T>,
)
    ensures
        lowest(c, sqrt, a, v).value == form(c.zero, a, lowest(c, sqrt, a, v).vector),
{
    let start = Bracket {
        vector: v,
        value: form(c.zero, a, v),
        floor: frobenius(c, sqrt, a).neg_spec(),
    };
    lemma_bisected_value(c, sqrt, a, probed(c, sqrt, a, start, tolerance(c, a)), 60);
}

/// To the bit, the least eigenvalue is the value of the quadratic form at some
/// vector, or zero where the Frobenius norm equals zero: what does not compare
/// in the matrix does not turn into a number. This needs no exact arithmetic,
/// and no symmetry.
pub proof fn least_eigenvalue_to_the_bit<T: Scalar, S: Fn(T) -> T>(
    c: Constants<T>,
    sqrt: S,
    a: Mat6<T>,
)
    ensures
        same(frobenius(c, sqrt, a), c.zero) ==> least_eigenvalue(c, sqrt, a) == c.zero,
        !same(frobenius(c, sqrt, a), c.zero) ==> exists|v: Vec6<T>| #[trigger]
            form(c.zero, a, v) == least_eigenvalue(c, sqrt, a),
{
    let f = frobenius(c, sqrt, a);
    let u = power_best(c, sqrt, shifted(f, a), 200, c.eigen_tolerance, 6).0;
    lemma_lowest_value(c, sqrt, a, u);
    let v = lowest(c, sqrt, a, u).vector;
    if !same(f, c.zero) {
        assert(form(c.zero, a, v) == least_eigenvalue(c, sqrt, a));
    }
}

/// The dominant eigenpair of a symmetric matrix: the vector has unit length;
/// the eigenvalue is the quadratic form at it, or zero where the image is
/// shorter than the floor.
pub proof fn dominant_pair<T: Scalar, S: Fn(T) -> T>(
    val: spec_fn(T) -> real,
    c: Constants<T>,
    sqrt: S,
    a: Mat6<T>,
    max_iter: nat,
    tol: T,
)
    requires
        exact(val),
        ordered(val),
        roots(val, sqrt),
        eigen_constants(val, c),
        symmetric(a),
    ensures
        ({
            let (v, lambda) = dominant_eigenpair(c, sqrt, a, max_iter, tol);
            &&& length_squared(val, v) == 1 as real
            &&& val(lambda) == quadratic(val, a, v) || (val(lambda) == 0 as real
                && length_squared(val, image(c.zero, a, v)) < val(c.norm_floor) * val(
                c.norm_floor,
            ))
        }),
{
    lemma_symmetric(a);
    let (v, lambda) = dominant_eigenpair(c, sqrt, a, max_iter, tol);
    eigenvector_has_unit_length(val, c, sqrt, a, max_iter, tol);
    eigenvalue_is_rayleigh_quotient(val, c, sqrt, a, max_iter, tol);
    lemma_unit(val, c.zero, v);
    form_adds_all_entries(val, c.zero, a, v);
    let w = image(c.zero, a, v);
    lemma_dot_terms(val, c.zero, w, w);
    lemma_length(val, w);
    let n = val(norm(c.zero, sqrt, w));
    let k = val(c.norm_floor);
    if n < k {
        assert(n * n < k * k) by (nonlinear_arith)
            requires
                0 as real <= n < k,
        ;
    }
}

/// To the bit, the dominant eigenvalue is the quadratic form at the vector, or
/// the form of the negated matrix there, negated; or zero where the image of
/// the vector is shorter than the floor. This needs no exact arithmetic, and
/// no symmetry.
pub proof fn dominant_pair_to_the_bit<T: Scalar, S: Fn(T) -> T>(
    c: Constants<T>,
    sqrt: S,
    a: Mat6<T>,
    max_iter: nat,
    tol: T,
)
    ensures
        ({
            let (v, lambda) = dominant_eigenpair(c, sqrt, a, max_iter, tol);
            ||| lambda == form(c.zero, a, v)
            ||| lambda == form(c.zero, negated(a), v).neg_spec()
            ||| lambda == c.zero && less(norm(c.zero, sqrt, image(c.zero, a, v)), c.norm_floor)
        }),
{
    if max_iter == 0 {
        lemma_vanished(c, sqrt, a, power_start(c, sqrt), tol, 0);
    } else {
        let best = power_best(c, sqrt, a, max_iter, tol, 6);
        lemma_best_value(c, sqrt, a, max_iter, tol, 6);
        lemma_lowest_value(c, sqrt, a, best.0);
        lemma_lowest_value(c, sqrt, negated(a), best.0);
    }
}

/// What the power iteration finds best is a value of the form, or zero.
proof fn lemma_best_value<T: Scalar, S: Fn(T) -> T>(
    c: Constants<T>,
    sqrt: S,
    a: Mat6<T>,
    max_iter: nat,
    tol: T,
    n: nat,
)
    ensures
        ({
            let (v, lambda) = power_best(c, sqrt, a, max_iter, tol, n);
            ||| lambda == form(c.zero, a, v)
            ||| lambda == c.zero && less(norm(c.zero, sqrt, image(c.zero, a, v)), c.norm_floor)
        }),
    decreases n,
{
    if n == 0 {
        lemma_vanished(c, sqrt, a, power_start(c, sqrt), tol, max_iter);
    } else {
        lemma_best_value(c, sqrt, a, max_iter, tol, (n - 1) as nat);
        lemma_vanished(c, sqrt, a, axis(c, n - 1), tol, max_iter);
    }
}

/// Without an iteration the dominant eigenpair is the vector of unit length
/// with equal entries, none negative, and the quadratic form there.
pub proof fn pair_without_an_iteration<T: Scalar, S: Fn(T) -> T>(
    val: spec_fn(T) -> real,
    c: Constants<T>,
    sqrt: S,
    a: Mat6<T>,
    tol: T,
)
    requires
        exact(val),
        roots(val, sqrt),
        eigen_constants(val, c),
    ensures
        ({
            let (v, lambda) = dominant_eigenpair(c, sqrt, a, 0, tol);
            &&& forall|i: int|
                0 <= i < 6 ==> val(#[trigger] v[i]) >= 0 as real && val(v[i]) * val(v[i]) * (
                6 as real) == 1 as real
            &&& val(lambda) == quadratic(val, a, v)
        }),
{
    let v = power_start(c, sqrt);
    form_adds_all_entries(val, c.zero, a, v);
    let r = val(applied(sqrt, c.six));
    let x = (1 as real) / r;
    assert(r > 0 as real) by (nonlinear_arith)
        requires
            r >= 0 as real,
            r * r == 6 as real,
    ;
    assert(x * r == 1 as real) by (nonlinear_arith)
        requires
            r > 0 as real,
            x == (1 as real) / r,
    ;
    assert(x >= 0 as real) by (nonlinear_arith)
        requires
            r > 0 as real,
            x * r == 1 as real,
    ;
    assert(x * x * (r * r) == 1 as real) by (nonlinear_arith)
        requires
            x * r == 1 as real,
    ;
    assert(dominant_eigenpair(c, sqrt, a, 0, tol).0 == v) by {
        reveal_with_fuel(power_iterated, 1);
    }
}

/// No value of the quadratic form at a vector of unit length exceeds the
/// dominant eigenvalue in magnitude, but for the relative tolerance, the floor,
/// and twice the Frobenius norm halved sixty times; and what is left of the
/// vector's image once its multiple by the eigenvalue is taken off is as short
/// as that allows.
pub proof fn dominant_value_is_the_largest<T: Scalar, S: Fn(T) -> T>(
    val: spec_fn(T) -> real,
    c: Constants<T>,
    sqrt: S,
    a: Mat6<T>,
    max_iter: nat,
    tol: T,
    f: real,
    x: Vec6<T>,
)
    requires
        exact(val),
        ordered(val),
        roots(val, sqrt),
        eigen_constants(val, c),
        symmetric(a),
        max_iter > 0,
        f >= 0 as real,
        f * f == entries_squared(val, a),
        length_squared(val, x) == 1 as real,
    ensures
        ({
            let (v, lambda) = dominant_eigenpair(c, sqrt, a, max_iter, tol);
            let m = size(val(lambda)) + positive_part(val(tol)) * f + val(c.norm_floor) + halved(
                (2 as real) * f,
                60,
            );
            &&& size(quadratic(val, a, x)) <= m
            &&& left_over(val, a, v, lambda) <= m * m - val(lambda) * val(lambda)
        }),
{
    lemma_symmetric(a);
    frobenius_norm_adds_all_squares(val, c, sqrt, a);
    lemma_one_root(f, val(frobenius(c, sqrt, a)));
    lemma_unit(val, c.zero, x);
    form_adds_all_entries(val, c.zero, a, x);
    eigenvalue_is_of_largest_magnitude(val, c, sqrt, a, max_iter, tol, x);
    vector_is_an_eigenvector(val, c, sqrt, a, max_iter, tol);
    let (v, lambda) = dominant_eigenpair(c, sqrt, a, max_iter, tol);
    let r = residual(image(c.zero, a, v), lambda, v);
    lemma_dot_terms(val, c.zero, r, r);
    assert forall|i: int| 0 <= i < 6 implies val(#[trigger] r[i]) == row_left_over(
        val,
        a[i],
        v,
        val(lambda) * val(v[i]),
    ) by {
        lemma_dot_terms(val, c.zero, a[i], v);
    }
    assert(val(r[0]) == row_left_over(val, a[0], v, val(lambda) * val(v[0])));
    assert(val(r[1]) == row_left_over(val, a[1], v, val(lambda) * val(v[1])));
    assert(val(r[2]) == row_left_over(val, a[2], v, val(lambda) * val(v[2])));
    assert(val(r[3]) == row_left_over(val, a[3], v, val(lambda) * val(v[3])));
    assert(val(r[4]) == row_left_over(val, a[4], v, val(lambda) * val(v[4])));
    assert(val(r[5]) == row_left_over(val, a[5], v, val(lambda) * val(v[5])));
}

/// A row times a vector, less `y`.
pub open spec fn row_left_over<T>(
    val: spec_fn(T) -> real,
    row: Vec6<T>,
    v: Vec6<T>,
    y: real,
) -> real {
    val(row[0]) * val(v[0]) + val(row[1]) * val(v[1]) + val(row[2]) * val(v[2]) + val(row[3]) * val(
        v[3],
    ) + val(row[4]) * val(v[4]) + val(row[5]) * val(v[5]) - y
}

/// The square of the length of `a v - lambda v`.
pub open spec fn left_over<T>(
    val: spec_fn(T) -> real,
    a: Mat6<T>,
    v: Vec6<T>,
    lambda: T,
) -> real {
    let r0 = row_left_over(val, a[0], v, val(lambda) * val(v[0]));
    let r1 = row_left_over(val, a[1], v, val(lambda) * val(v[1]));
    let r2 = row_left_over(val, a[2], v, val(lambda) * val(v[2]));
    let r3 = row_left_over(val, a[3], v, val(lambda) * val(v[3]));
    let r4 = row_left_over(val, a[4], v, val(lambda) * val(v[4]));
    let r5 = row_left_over(val, a[5], v, val(lambda) * val(v[5]));
    r0 * r0 + r1 * r1 + r2 * r2 + r3 * r3 + r4 * r4 + r5 * r5
}

} // verus!
