//! Laws of the eigenvalue routines and of the definiteness tag.

use vstd::prelude::*;
use vstd::std_specs::ops::{AddSpec, MulSpec, NegSpec};

use crate::constants::Constants;
use crate::definiteness::{axis, falling_direction};
use crate::engine::IntegratedState;
use crate::exact::{
    exact, lemma_dot_terms, lemma_mat6_values, lemma_vec6_values, same_value,
};
use crate::laws::covariance::{
    covariance_stays_semidefinite, covariance_stays_symmetric, lemma_adjoint, semidefinite,
};
use crate::laws::elimination::{
    elimination_decides_definiteness, lemma_axis_dot, lemma_row_difference,
};
use crate::laws::forms::{
    lemma_divided_unit, lemma_form_bound, lemma_form_divided, lemma_quotient_square,
    lemma_shifted_form, lemma_square, ordered, roots, unit,
};
use crate::laws::frames::units;
use crate::linalg::{
    congruence, divided, dot, dot_from, image, mat6, norm, transposed, Mat6, Vec6,
};
use crate::propagator::{propagated, quality};
use crate::scalar::{applied, larger, less, same, Scalar};
use crate::spectrum::{
    bisected, converged, dominant_eigenpair, form, frobenius, largest_diagonal, least_eigenvalue,
    lowered, lowest, middle, negated, power_best, power_iterated, power_start, probed,
    residual, shifted, squares, stronger, tolerance, Bracket,
};
use crate::types::CovarianceQuality;

verus! {

/// The constants that the eigenvalue routines use stand for their numbers.
pub open spec fn eigen_constants<T>(val: spec_fn(T) -> real, c: Constants<T>) -> bool {
    &&& val(c.zero) == 0 as real
    &&& val(c.one) == 1 as real
    &&& val(c.six) == 6 as real
    &&& val(c.norm_floor) > 0 as real
}

/// The start of the power iteration has unit length.
proof fn lemma_start_unit<T: Scalar, S: Fn(T) -> T>(
    val: spec_fn(T) -> real,
    c: Constants<T>,
    sqrt: S,
)
    requires
        exact(val),
        roots(val, sqrt),
        eigen_constants(val, c),
    ensures
        unit(val, c.zero, power_start(c, sqrt)),
{
    let v = power_start(c, sqrt);
    let root = applied(sqrt, c.six);
    let r = val(root);
    let t = (1 as real) / r;
    assert(r != 0 as real) by {
        assert((0 as real) * (0 as real) == 0 as real) by (nonlinear_arith);
    }
    lemma_square(val, c.zero, v);
    lemma_quotient_square(1 as real, r, t);
    assert((1 as real) * (1 as real) == 1 as real) by (nonlinear_arith);
    let q = t * t;
    assert((1 as real) * q == q) by (nonlinear_arith);
    assert((6 as real) * q == q + q + q + q + q + q) by (nonlinear_arith);
}

/// The power iteration keeps its vector at unit length.
proof fn lemma_iterated_unit<T: Scalar, S: Fn(T) -> T>(
    val: spec_fn(T) -> real,
    c: Constants<T>,
    sqrt: S,
    a: Mat6<T>,
    v: Vec6<T>,
    tol: T,
    steps: nat,
)
    requires
        exact(val),
        ordered(val),
        roots(val, sqrt),
        eigen_constants(val, c),
        unit(val, c.zero, v),
    ensures
        unit(val, c.zero, power_iterated(c, sqrt, a, v, tol, steps).0),
    decreases steps,
{
    if steps > 0 {
        let w = image(c.zero, a, v);
        let size = norm(c.zero, sqrt, w);
        if !less(size, c.norm_floor) {
            lemma_square(val, c.zero, w);
            lemma_divided_unit(val, c.zero, w, size);
            if !converged(c, sqrt, v, w, tol) {
                lemma_iterated_unit(val, c, sqrt, a, divided(w, size), tol, (steps - 1) as nat);
            }
        }
    }
}

/// The Frobenius norm `f` bounds the spectral radius, so `f I - a`, which the
/// power iteration runs on, is positive semidefinite.
pub proof fn shifted_matrix_is_semidefinite<T: Scalar, S: Fn(T) -> T>(
    val: spec_fn(T) -> real,
    c: Constants<T>,
    sqrt: S,
    a: Mat6<T>,
)
    requires
        exact(val),
        roots(val, sqrt),
        val(c.zero) == 0 as real,
    ensures
        semidefinite(val, c.zero, shifted(frobenius(c, sqrt, a), a)),
{
    let m = shifted(frobenius(c, sqrt, a), a);
    assert forall|v: Vec6<T>| #[trigger] val(dot(c.zero, image(c.zero, m, v), v))
        >= 0 as real by {
        lemma_shifted_form(val, c.zero, frobenius(c, sqrt, a), a, v);
        lemma_form_bound(val, c, sqrt, a, v);
        assert(form(c.zero, a, v) == dot(c.zero, image(c.zero, a, v), v));
    }
}

/// The image under `-a`, and its form.
proof fn lemma_negated<T: Scalar>(val: spec_fn(T) -> real, zero: T, a: Mat6<T>, v: Vec6<T>)
    requires
        exact(val),
        val(zero) == 0 as real,
    ensures
        val(form(zero, negated(a), v)) == -val(form(zero, a, v)),
        transposed(a) == a ==> transposed(negated(a)) == negated(a),
{
    let m = negated(a);
    let w = image(zero, m, v);
    let u = image(zero, a, v);
    assert forall|i: int| 0 <= i < 6 implies #[trigger] val(w[i]) == -val(u[i]) by {
        lemma_dot_terms(val, zero, m[i], v);
        lemma_dot_terms(val, zero, a[i], v);
        assert forall|k: int| 0 <= k < 6 implies #[trigger] val(m[i][k]) * val(v[k]) == -(val(
            a[i][k],
        ) * val(v[k])) by {
            let x = val(a[i][k]);
            let y = val(v[k]);
            assert((-x) * y == -(x * y)) by (nonlinear_arith);
        }
    }
    lemma_dot_terms(val, zero, w, v);
    lemma_dot_terms(val, zero, u, v);
    assert forall|k: int| 0 <= k < 6 implies #[trigger] val(w[k]) * val(v[k]) == -(val(u[k]) * val(
        v[k],
    )) by {
        let x = val(u[k]);
        let y = val(v[k]);
        assert((-x) * y == -(x * y)) by (nonlinear_arith);
    }
    if transposed(a) == a {
        assert forall|i: int, j: int| 0 <= i < 6 && 0 <= j < 6 implies val(
            #[trigger] transposed(m)[i][j],
        ) == val(m[i][j]) by {
            assert(transposed(a)[i][j] == a[j][i]);
        }
        lemma_mat6_values(val, transposed(m), m);
    }
}

/// The form of `a - p I`.
proof fn lemma_lowered_form<T: Scalar>(
    val: spec_fn(T) -> real,
    zero: T,
    p: T,
    a: Mat6<T>,
    v: Vec6<T>,
)
    requires
        exact(val),
        val(zero) == 0 as real,
    ensures
        val(form(zero, lowered(p, a), v)) == val(form(zero, a, v)) - val(p) * val(dot(zero, v, v)),
{
    // a - p I is the negative of p I - a.
    lemma_mat6_values(val, lowered(p, a), negated(shifted(p, a)));
    lemma_negated(val, zero, shifted(p, a), v);
    lemma_shifted_form(val, zero, p, a, v);
}

/// A bracket says what is so: its value is that of the form at its vector,
/// which has unit length, and the form takes none below its floor at such a
/// vector.
pub open spec fn sound<T: Scalar>(
    val: spec_fn(T) -> real,
    zero: T,
    a: Mat6<T>,
    b: Bracket<T>,
) -> bool {
    &&& unit(val, zero, b.vector)
    &&& b.value == form(zero, a, b.vector)
    &&& forall|x: Vec6<T>| #[trigger]
        unit(val, zero, x) ==> val(b.floor) <= val(form(zero, a, x))
}

/// A probe keeps a bracket sound, and settles on which side of `p` the least
/// value lies.
proof fn lemma_probed<T: Scalar, S: Fn(T) -> T>(
    val: spec_fn(T) -> real,
    c: Constants<T>,
    sqrt: S,
    a: Mat6<T>,
    b: Bracket<T>,
    p: T,
)
    requires
        exact(val),
        ordered(val),
        roots(val, sqrt),
        units(val, c),
        transposed(a) == a,
        sound(val, c.zero, a, b),
    ensures
        ({
            let q = probed(c, sqrt, a, b, p);
            &&& sound(val, c.zero, a, q)
            &&& val(q.value) <= val(b.value)
            &&& val(q.floor) >= val(b.floor)
            &&& val(q.floor) >= val(p) || val(q.value) < val(p)
        }),
{
    let m = lowered(p, a);
    assert(transposed(m) == m) by {
        assert forall|i: int, j: int| 0 <= i < 6 && 0 <= j < 6 implies val(
            #[trigger] transposed(m)[i][j],
        ) == val(m[i][j]) by {
            assert(transposed(a)[i][j] == a[j][i]);
        }
        lemma_mat6_values(val, transposed(m), m);
    }
    elimination_decides_definiteness(val, c, m);
    match falling_direction(c, m, 6) {
        None => {
            assert forall|x: Vec6<T>| #[trigger] unit(val, c.zero, x) implies val(p) <= val(
                form(c.zero, a, x),
            ) by {
                lemma_lowered_form(val, c.zero, p, a, x);
                assert(val(dot(c.zero, image(c.zero, m, x), x)) >= 0 as real);
                assert(form(c.zero, m, x) == dot(c.zero, image(c.zero, m, x), x));
                let k = val(p);
                assert(k * (1 as real) == k) by (nonlinear_arith);
            }
        },
        Some(x) => {
            let size = norm(c.zero, sqrt, x);
            let r = val(size);
            let n = val(dot(c.zero, x, x));
            let g = val(form(c.zero, a, x));
            let k = val(p);
            lemma_square(val, c.zero, x);
            lemma_lowered_form(val, c.zero, p, a, x);
            lemma_form_bound(val, c, sqrt, m, x);
            let f = val(frobenius(c, sqrt, m));
            assert(n != 0 as real) by {
                if n == 0 as real {
                    assert(f * n == 0 as real) by (nonlinear_arith)
                        requires
                            n == 0 as real,
                    ;
                }
            }
            assert(r != 0 as real) by {
                if r == 0 as real {
                    assert(r * r == 0 as real) by (nonlinear_arith)
                        requires
                            r == 0 as real,
                    ;
                }
            }
            lemma_divided_unit(val, c.zero, x, size);
            lemma_form_divided(val, c.zero, a, x, size);
            let t = (1 as real) / r;
            let tt = t * t;
            lemma_quotient_square(1 as real, r, t);
            // g < k n, and n tt = 1
            assert(tt > 0 as real) by (nonlinear_arith)
                requires
                    n * tt == 1 as real,
                    n >= 0 as real,
                    tt == t * t,
            ;
            assert(g * tt < k) by (nonlinear_arith)
                requires
                    g < k * n,
                    n * tt == 1 as real,
                    tt > 0 as real,
            ;
        },
    }
}

/// `w` halved `n` times.
pub open spec fn halved(w: real, n: nat) -> real
    decreases n,
{
    if n == 0 {
        w
    } else {
        halved(w / (2 as real), (n - 1) as nat)
    }
}

/// Bisection keeps a bracket sound and halves it each time.
proof fn lemma_bisected<T: Scalar, S: Fn(T) -> T>(
    val: spec_fn(T) -> real,
    c: Constants<T>,
    sqrt: S,
    a: Mat6<T>,
    b: Bracket<T>,
    w: real,
    n: nat,
)
    requires
        exact(val),
        ordered(val),
        roots(val, sqrt),
        units(val, c),
        transposed(a) == a,
        sound(val, c.zero, a, b),
        val(b.value) - val(b.floor) <= w,
    ensures
        ({
            let q = bisected(c, sqrt, a, b, n);
            &&& sound(val, c.zero, a, q)
            &&& val(q.value) <= val(b.value)
            &&& val(q.value) - val(q.floor) <= halved(w, n)
        }),
    decreases n,
{
    if n > 0 {
        let p = middle(c, b);
        let lo = val(b.floor);
        let hi = val(b.value);
        assert(val(p) == (lo + hi) / (2 as real));
        lemma_probed(val, c, sqrt, a, b, p);
        lemma_bisected(
            val,
            c,
            sqrt,
            a,
            probed(c, sqrt, a, b, p),
            w / (2 as real),
            (n - 1) as nat,
        );
    }
}

/// The bracket of the least value of the form: it is sound, it is closed but
/// for twice the Frobenius norm halved sixty times, and a value below the
/// tolerance does not escape it.
pub proof fn bracket_closes_on_the_least_value<T: Scalar, S: Fn(T) -> T>(
    val: spec_fn(T) -> real,
    c: Constants<T>,
    sqrt: S,
    a: Mat6<T>,
    v: Vec6<T>,
)
    requires
        exact(val),
        ordered(val),
        roots(val, sqrt),
        units(val, c),
        transposed(a) == a,
        unit(val, c.zero, v),
    ensures
        ({
            let b = lowest(c, sqrt, a, v);
            &&& sound(val, c.zero, a, b)
            &&& val(b.value) - val(b.floor) <= halved(
                (2 as real) * val(frobenius(c, sqrt, a)),
                60,
            )
            &&& val(b.value) >= val(tolerance(c, a)) ==> forall|x: Vec6<T>| #[trigger]
                unit(val, c.zero, x) ==> val(form(c.zero, a, x)) >= val(tolerance(c, a))
        }),
{
    let f = val(frobenius(c, sqrt, a));
    let start = Bracket {
        vector: v,
        value: form(c.zero, a, v),
        floor: frobenius(c, sqrt, a).neg_spec(),
    };
    assert(f * (1 as real) == f) by (nonlinear_arith);
    lemma_form_bound(val, c, sqrt, a, v);
    assert forall|x: Vec6<T>| #[trigger] unit(val, c.zero, x) implies val(start.floor) <= val(
        form(c.zero, a, x),
    ) by {
        lemma_form_bound(val, c, sqrt, a, x);
    }
    let first = probed(c, sqrt, a, start, tolerance(c, a));
    lemma_probed(val, c, sqrt, a, start, tolerance(c, a));
    lemma_bisected(val, c, sqrt, a, first, (2 as real) * f, 60);
}

/// A coordinate axis has unit length.
proof fn lemma_axis_unit<T: Scalar>(val: spec_fn(T) -> real, c: Constants<T>, k: int)
    requires
        exact(val),
        units(val, c),
        0 <= k < 6,
    ensures
        unit(val, c.zero, axis(c, k)),
{
    lemma_axis_dot(val, c, axis(c, k), k);
}

/// What the power iteration finds best has unit length.
proof fn lemma_best_unit<T: Scalar, S: Fn(T) -> T>(
    val: spec_fn(T) -> real,
    c: Constants<T>,
    sqrt: S,
    a: Mat6<T>,
    max_iter: nat,
    tol: T,
    n: nat,
)
    requires
        exact(val),
        ordered(val),
        roots(val, sqrt),
        eigen_constants(val, c),
        n <= 6,
    ensures
        unit(val, c.zero, power_best(c, sqrt, a, max_iter, tol, n).0),
    decreases n,
{
    if n == 0 {
        lemma_start_unit(val, c, sqrt);
        lemma_iterated_unit(val, c, sqrt, a, power_start(c, sqrt), tol, max_iter);
    } else {
        lemma_best_unit(val, c, sqrt, a, max_iter, tol, (n - 1) as nat);
        lemma_axis_unit(val, c, n - 1);
        lemma_iterated_unit(val, c, sqrt, a, axis(c, n - 1), tol, max_iter);
    }
}

/// The least eigenvalue is a value that the quadratic form takes at a vector
/// of unit length.
pub proof fn least_eigenvalue_is_attained<T: Scalar, S: Fn(T) -> T>(
    val: spec_fn(T) -> real,
    c: Constants<T>,
    sqrt: S,
    a: Mat6<T>,
)
    requires
        exact(val),
        ordered(val),
        roots(val, sqrt),
        eigen_constants(val, c),
        transposed(a) == a,
    ensures
        exists|v: Vec6<T>|
            unit(val, c.zero, v) && #[trigger] val(dot(c.zero, image(c.zero, a, v), v)) == val(
                least_eigenvalue(c, sqrt, a),
            ),
{
    let f = frobenius(c, sqrt, a);
    if same(f, c.zero) {
        let v = power_start(c, sqrt);
        lemma_start_unit(val, c, sqrt);
        lemma_form_bound(val, c, sqrt, a, v);
        assert((0 as real) * (1 as real) == 0 as real) by (nonlinear_arith);
        assert(unit(val, c.zero, v) && val(dot(c.zero, image(c.zero, a, v), v)) == val(
            least_eigenvalue(c, sqrt, a),
        ));
    } else {
        let u = power_best(c, sqrt, shifted(f, a), 200, c.eigen_tolerance, 6).0;
        lemma_best_unit(val, c, sqrt, shifted(f, a), 200, c.eigen_tolerance, 6);
        bracket_closes_on_the_least_value(val, c, sqrt, a, u);
        let v = lowest(c, sqrt, a, u).vector;
        assert(unit(val, c.zero, v) && val(dot(c.zero, image(c.zero, a, v), v)) == val(
            least_eigenvalue(c, sqrt, a),
        ));
    }
}

/// The quadratic form takes no value below the least eigenvalue at a vector of
/// unit length, but for twice the Frobenius norm halved sixty times. One below
/// the tolerance does not escape at all.
pub proof fn least_eigenvalue_is_least<T: Scalar, S: Fn(T) -> T>(
    val: spec_fn(T) -> real,
    c: Constants<T>,
    sqrt: S,
    a: Mat6<T>,
    x: Vec6<T>,
)
    requires
        exact(val),
        ordered(val),
        roots(val, sqrt),
        eigen_constants(val, c),
        transposed(a) == a,
        unit(val, c.zero, x),
    ensures
        val(least_eigenvalue(c, sqrt, a)) <= val(form(c.zero, a, x)) + halved(
            (2 as real) * val(frobenius(c, sqrt, a)),
            60,
        ),
        val(tolerance(c, a)) <= 0 as real && val(form(c.zero, a, x)) < val(tolerance(c, a)) ==> val(
            least_eigenvalue(c, sqrt, a),
        ) < val(tolerance(c, a)),
{
    let f = frobenius(c, sqrt, a);
    lemma_form_bound(val, c, sqrt, a, x);
    lemma_halved((2 as real) * val(f), 60);
    if same(f, c.zero) {
        assert((0 as real) * (1 as real) == 0 as real) by (nonlinear_arith);
    } else {
        let u = power_best(c, sqrt, shifted(f, a), 200, c.eigen_tolerance, 6).0;
        lemma_best_unit(val, c, sqrt, shifted(f, a), 200, c.eigen_tolerance, 6);
        bracket_closes_on_the_least_value(val, c, sqrt, a, u);
    }
}

/// With `f` the Frobenius norm, the least eigenvalue of `a` is `f` less the
/// largest value of the form of `f I - a` at a vector of unit length: it is
/// `f` less a value that is taken, and none is larger, but for twice `f`
/// halved sixty times.
pub proof fn least_eigenvalue_by_shift<T: Scalar, S: Fn(T) -> T>(
    val: spec_fn(T) -> real,
    c: Constants<T>,
    sqrt: S,
    a: Mat6<T>,
)
    requires
        exact(val),
        ordered(val),
        roots(val, sqrt),
        eigen_constants(val, c),
        transposed(a) == a,
    ensures
        ({
            let f = frobenius(c, sqrt, a);
            let m = shifted(f, a);
            let least = val(least_eigenvalue(c, sqrt, a));
            &&& exists|v: Vec6<T>|
                unit(val, c.zero, v) && least == val(f) - val(#[trigger] form(c.zero, m, v))
            &&& forall|x: Vec6<T>|
                unit(val, c.zero, x) ==> val(#[trigger] form(c.zero, m, x)) <= val(f) - least
                    + halved((2 as real) * val(f), 60)
        }),
{
    let f = frobenius(c, sqrt, a);
    let m = shifted(f, a);
    let k = val(f);
    let least = val(least_eigenvalue(c, sqrt, a));
    assert(k * (1 as real) == k) by (nonlinear_arith);
    least_eigenvalue_is_attained(val, c, sqrt, a);
    let v = choose|v: Vec6<T>|
        unit(val, c.zero, v) && #[trigger] val(dot(c.zero, image(c.zero, a, v), v)) == least;
    lemma_shifted_form(val, c.zero, f, a, v);
    assert(unit(val, c.zero, v) && least == k - val(form(c.zero, m, v)));
    assert forall|x: Vec6<T>| unit(val, c.zero, x) implies val(#[trigger] form(c.zero, m, x)) <= k
        - least + halved((2 as real) * k, 60) by {
        lemma_shifted_form(val, c.zero, f, a, x);
        least_eigenvalue_is_least(val, c, sqrt, a, x);
    }
}

/// Halving keeps a number that is not negative so.
proof fn lemma_halved(w: real, n: nat)
    requires
        w >= 0 as real,
    ensures
        halved(w, n) >= 0 as real,
    decreases n,
{
    if n > 0 {
        lemma_halved(w / (2 as real), (n - 1) as nat);
    }
}

/// The tolerance lies below zero.
proof fn lemma_tolerance<T: Scalar>(val: spec_fn(T) -> real, c: Constants<T>, a: Mat6<T>)
    requires
        exact(val),
        ordered(val),
        val(c.round_off) > 0 as real,
        val(c.min_positive) > 0 as real,
    ensures
        val(tolerance(c, a)) == -(val(c.round_off) * val(
            larger(largest_diagonal(c.zero, a, 6), c.min_positive),
        )),
        val(tolerance(c, a)) < 0 as real,
{
    let r = val(c.round_off);
    let k = val(larger(largest_diagonal(c.zero, a, 6), c.min_positive));
    assert((-r) * k == -(r * k)) by (nonlinear_arith);
    assert(r * k > 0 as real) by (nonlinear_arith)
        requires
            r > 0 as real,
            k > 0 as real,
    ;
}

/// A covariance that is tagged indefinite is indefinite: its quadratic form is
/// negative at some vector of unit length, and takes there the value that the
/// tag reports.
pub proof fn indefinite_tag_is_honest<T: Scalar, S: Fn(T) -> T>(
    val: spec_fn(T) -> real,
    c: Constants<T>,
    sqrt: S,
    cov: Mat6<T>,
    min_eig: T,
)
    requires
        exact(val),
        ordered(val),
        roots(val, sqrt),
        eigen_constants(val, c),
        val(c.round_off) > 0 as real,
        val(c.min_positive) > 0 as real,
        transposed(cov) == cov,
        quality(c, sqrt, cov) == (CovarianceQuality::Indefinite { min_eig }),
    ensures
        val(min_eig) < 0 as real,
        exists|v: Vec6<T>|
            unit(val, c.zero, v) && #[trigger] val(dot(c.zero, image(c.zero, cov, v), v)) == val(
                min_eig,
            ),
{
    lemma_tolerance(val, c, cov);
    least_eigenvalue_is_attained(val, c, sqrt, cov);
}

/// A covariance whose quadratic form goes below zero by more than round-off,
/// at some vector of unit length, is tagged indefinite.
pub proof fn indefinite_covariance_is_tagged<T: Scalar, S: Fn(T) -> T>(
    val: spec_fn(T) -> real,
    c: Constants<T>,
    sqrt: S,
    cov: Mat6<T>,
    x: Vec6<T>,
)
    requires
        exact(val),
        ordered(val),
        roots(val, sqrt),
        eigen_constants(val, c),
        val(c.round_off) > 0 as real,
        val(c.min_positive) > 0 as real,
        transposed(cov) == cov,
        unit(val, c.zero, x),
        val(dot(c.zero, image(c.zero, cov, x), x)) < -(val(c.round_off) * val(
            larger(largest_diagonal(c.zero, cov, 6), c.min_positive),
        )),
    ensures
        quality(c, sqrt, cov) is Indefinite,
{
    lemma_tolerance(val, c, cov);
    least_eigenvalue_is_least(val, c, sqrt, cov, x);
}

/// An orbit with a positive semidefinite covariance is propagated to one that
/// is tagged positive definite.
pub proof fn semidefinite_orbit_is_tagged_definite<T: Scalar, S: Fn(T) -> T>(
    val: spec_fn(T) -> real,
    c: Constants<T>,
    sqrt: S,
    sigma: Mat6<T>,
    phi: Mat6<T>,
    compute_stm: bool,
    r: IntegratedState<T>,
)
    requires
        exact(val),
        ordered(val),
        roots(val, sqrt),
        eigen_constants(val, c),
        val(c.round_off) > 0 as real,
        val(c.min_positive) > 0 as real,
        transposed(sigma) == sigma,
        semidefinite(val, c.zero, sigma),
        r.stm == Some(phi),
    ensures
        propagated(c, sqrt, Some(sigma), compute_stm, r).covariance_quality == Some(
            CovarianceQuality::<T>::PositiveDefinite,
        ),
{
    let m = congruence(c.zero, phi, sigma);
    covariance_stays_semidefinite(val, c.zero, phi, sigma);
    covariance_stays_symmetric(val, c.zero, phi, sigma);
    match quality(c, sqrt, m) {
        CovarianceQuality::PositiveDefinite => {},
        CovarianceQuality::Indefinite { min_eig } => {
            indefinite_tag_is_honest(val, c, sqrt, m, min_eig);
            let v = choose|v: Vec6<T>|
                unit(val, c.zero, v) && #[trigger] val(dot(c.zero, image(c.zero, m, v), v)) == val(
                    min_eig,
                );
            assert(val(dot(c.zero, image(c.zero, m, v), v)) >= 0 as real);
        },
    }
}

/// The eigenvector has unit length, whatever the symmetric matrix, the
/// iteration limit and the tolerance.
pub proof fn eigenvector_has_unit_length<T: Scalar, S: Fn(T) -> T>(
    val: spec_fn(T) -> real,
    c: Constants<T>,
    sqrt: S,
    a: Mat6<T>,
    max_iter: nat,
    tol: T,
)
    requires
        exact(val),
        ordered(val),
        roots(val, sqrt),
        eigen_constants(val, c),
        transposed(a) == a,
    ensures
        unit(val, c.zero, dominant_eigenpair(c, sqrt, a, max_iter, tol).0),
{
    if max_iter == 0 {
        lemma_start_unit(val, c, sqrt);
        lemma_iterated_unit(val, c, sqrt, a, power_start(c, sqrt), tol, 0);
    } else {
        let best = power_best(c, sqrt, a, max_iter, tol, 6);
        lemma_best_unit(val, c, sqrt, a, max_iter, tol, 6);
        lemma_negated(val, c.zero, a, best.0);
        bracket_closes_on_the_least_value(val, c, sqrt, a, best.0);
        bracket_closes_on_the_least_value(val, c, sqrt, negated(a), best.0);
    }
}

/// A power iteration that reports a vanished image ends at a vector whose
/// image is below the floor.
pub(crate) proof fn lemma_vanished<T: Scalar, S: Fn(T) -> T>(
    c: Constants<T>,
    sqrt: S,
    a: Mat6<T>,
    v: Vec6<T>,
    tol: T,
    steps: nat,
)
    ensures
        ({
            let (u, vanished) = power_iterated(c, sqrt, a, v, tol, steps);
            vanished ==> less(norm(c.zero, sqrt, image(c.zero, a, u)), c.norm_floor)
        }),
    decreases steps,
{
    if steps > 0 {
        let w = image(c.zero, a, v);
        let size = norm(c.zero, sqrt, w);
        if !less(size, c.norm_floor) && !converged(c, sqrt, v, w, tol) {
            lemma_vanished(c, sqrt, a, divided(w, size), tol, (steps - 1) as nat);
        }
    }
}

/// An eigenvalue is the Rayleigh quotient of its vector, or zero for a vector
/// whose image is below the floor.
pub open spec fn is_rayleigh_quotient<T: Scalar, S: Fn(T) -> T>(
    val: spec_fn(T) -> real,
    c: Constants<T>,
    sqrt: S,
    a: Mat6<T>,
    r: (Vec6<T>, T),
) -> bool {
    ||| val(r.1) == val(form(c.zero, a, r.0))
    ||| r.1 == c.zero && less(norm(c.zero, sqrt, image(c.zero, a, r.0)), c.norm_floor)
}

/// What the power iteration finds best is a Rayleigh quotient.
proof fn lemma_best_rayleigh<T: Scalar, S: Fn(T) -> T>(
    val: spec_fn(T) -> real,
    c: Constants<T>,
    sqrt: S,
    a: Mat6<T>,
    max_iter: nat,
    tol: T,
    n: nat,
)
    ensures
        is_rayleigh_quotient(val, c, sqrt, a, power_best(c, sqrt, a, max_iter, tol, n)),
    decreases n,
{
    if n == 0 {
        lemma_vanished(c, sqrt, a, power_start(c, sqrt), tol, max_iter);
    } else {
        lemma_best_rayleigh(val, c, sqrt, a, max_iter, tol, (n - 1) as nat);
        lemma_vanished(c, sqrt, a, axis(c, n - 1), tol, max_iter);
    }
}

/// The eigenvalue is the Rayleigh quotient of the eigenvector, or zero where
/// the image of the eigenvector is below the floor.
pub proof fn eigenvalue_is_rayleigh_quotient<T: Scalar, S: Fn(T) -> T>(
    val: spec_fn(T) -> real,
    c: Constants<T>,
    sqrt: S,
    a: Mat6<T>,
    max_iter: nat,
    tol: T,
)
    requires
        exact(val),
        ordered(val),
        roots(val, sqrt),
        eigen_constants(val, c),
        transposed(a) == a,
    ensures
        is_rayleigh_quotient(val, c, sqrt, a, dominant_eigenpair(c, sqrt, a, max_iter, tol)),
{
    if max_iter == 0 {
        lemma_vanished(c, sqrt, a, power_start(c, sqrt), tol, 0);
    } else {
        let best = power_best(c, sqrt, a, max_iter, tol, 6);
        lemma_best_rayleigh(val, c, sqrt, a, max_iter, tol, 6);
        lemma_best_unit(val, c, sqrt, a, max_iter, tol, 6);
        lemma_negated(val, c.zero, a, best.0);
        bracket_closes_on_the_least_value(val, c, sqrt, a, best.0);
        bracket_closes_on_the_least_value(val, c, sqrt, negated(a), best.0);
        lemma_negated(val, c.zero, a, lowest(c, sqrt, negated(a), best.0).vector);
    }
}

/// The magnitude of a number.
pub open spec fn size(x: real) -> real {
    if x < 0 as real {
        -x
    } else {
        x
    }
}

/// A number, or zero where it is negative.
pub open spec fn positive_part(x: real) -> real {
    if x < 0 as real {
        0 as real
    } else {
        x
    }
}

/// The stronger of two eigenpairs is not below the first, and below the second
/// only by the tolerance or the floor.
proof fn lemma_stronger<T: Scalar>(
    val: spec_fn(T) -> real,
    c: Constants<T>,
    one: (Vec6<T>, T),
    other: (Vec6<T>, T),
    tol: T,
    bound: real,
)
    requires
        exact(val),
        ordered(val),
        val(c.zero) == 0 as real,
        val(c.norm_floor) > 0 as real,
        size(val(other.1)) <= bound,
    ensures
        ({
            let r = size(val(stronger(c, one, other, tol).1));
            &&& r >= size(val(one.1))
            &&& size(val(other.1)) <= r + positive_part(val(tol)) * bound + val(c.norm_floor)
        }),
{
    let m = size(val(other.1));
    let t = val(tol);
    let u = positive_part(t);
    assert(0 as real <= u * m <= u * bound && t * m <= u * m) by (nonlinear_arith)
        requires
            u >= 0 as real,
            u >= t,
            0 as real <= m <= bound,
    ;
}

/// The most that the quadratic form of `a` takes in magnitude at a vector of
/// unit length, as far as the eigenvalue of largest magnitude tells: the
/// magnitude of the eigenvalue, and with it the relative tolerance, the floor,
/// and twice the Frobenius norm halved sixty times.
pub open spec fn largest_magnitude<T: Scalar, S: Fn(T) -> T>(
    val: spec_fn(T) -> real,
    c: Constants<T>,
    sqrt: S,
    a: Mat6<T>,
    max_iter: nat,
    tol: T,
) -> real {
    let f = val(frobenius(c, sqrt, a));
    size(val(dominant_eigenpair(c, sqrt, a, max_iter, tol).1)) + positive_part(val(tol)) * f + val(
        c.norm_floor,
    ) + halved((2 as real) * f, 60)
}

/// The eigenvalue is of largest magnitude: at no vector of unit length does
/// the quadratic form exceed it in magnitude, but for the relative tolerance,
/// the floor, and twice the Frobenius norm halved sixty times. A negative
/// tolerance counts as none.
pub proof fn eigenvalue_is_of_largest_magnitude<T: Scalar, S: Fn(T) -> T>(
    val: spec_fn(T) -> real,
    c: Constants<T>,
    sqrt: S,
    a: Mat6<T>,
    max_iter: nat,
    tol: T,
    x: Vec6<T>,
)
    requires
        exact(val),
        ordered(val),
        roots(val, sqrt),
        eigen_constants(val, c),
        transposed(a) == a,
        max_iter > 0,
        unit(val, c.zero, x),
    ensures
        size(val(form(c.zero, a, x))) <= largest_magnitude(val, c, sqrt, a, max_iter, tol),
{
    let f = val(frobenius(c, sqrt, a));
    let n = negated(a);
    let best = power_best(c, sqrt, a, max_iter, tol, 6);
    let low = lowest(c, sqrt, a, best.0);
    let high = lowest(c, sqrt, n, best.0);
    lemma_best_unit(val, c, sqrt, a, max_iter, tol, 6);
    lemma_negated(val, c.zero, a, x);
    lemma_negated(val, c.zero, a, high.vector);
    lemma_negated_frobenius(val, c, sqrt, a);
    bracket_closes_on_the_least_value(val, c, sqrt, a, best.0);
    bracket_closes_on_the_least_value(val, c, sqrt, n, best.0);
    lemma_form_bound(val, c, sqrt, a, low.vector);
    lemma_form_bound(val, c, sqrt, a, high.vector);
    assert(f * (1 as real) == f) by (nonlinear_arith);
    let first = stronger(c, best, (low.vector, low.value), tol);
    lemma_stronger(val, c, best, (low.vector, low.value), tol, f);
    lemma_stronger(val, c, first, (high.vector, high.value.neg_spec()), tol, f);
    lemma_halved((2 as real) * f, 60);
    let t = positive_part(val(tol));
    assert(t * f >= 0 as real) by (nonlinear_arith)
        requires
            t >= 0 as real,
            f >= 0 as real,
    ;
}

/// A bound on the form at vectors of unit length bounds it at all vectors.
proof fn lemma_bound_everywhere<T: Scalar, S: Fn(T) -> T>(
    val: spec_fn(T) -> real,
    c: Constants<T>,
    sqrt: S,
    a: Mat6<T>,
    m: real,
    x: Vec6<T>,
)
    requires
        exact(val),
        roots(val, sqrt),
        val(c.zero) == 0 as real,
        forall|u: Vec6<T>| #[trigger] unit(val, c.zero, u) ==> size(val(form(c.zero, a, u))) <= m,
    ensures
        val(form(c.zero, a, x)) <= m * val(dot(c.zero, x, x)),
        -val(form(c.zero, a, x)) <= m * val(dot(c.zero, x, x)),
{
    let n = val(dot(c.zero, x, x));
    let g = val(form(c.zero, a, x));
    lemma_square(val, c.zero, x);
    if n == 0 as real {
        let f = val(frobenius(c, sqrt, a));
        lemma_form_bound(val, c, sqrt, a, x);
        assert(f * n == 0 as real && m * n == 0 as real) by (nonlinear_arith)
            requires
                n == 0 as real,
        ;
    } else {
        let length = norm(c.zero, sqrt, x);
        let r = val(length);
        assert(r != 0 as real) by {
            if r == 0 as real {
                assert(r * r == 0 as real) by (nonlinear_arith)
                    requires
                        r == 0 as real,
                ;
            }
        }
        let u = divided(x, length);
        let t = (1 as real) / r;
        let tt = t * t;
        lemma_divided_unit(val, c.zero, x, length);
        lemma_form_divided(val, c.zero, a, x, length);
        lemma_quotient_square(1 as real, r, t);
        assert(unit(val, c.zero, u));
        assert(g <= m * n && -g <= m * n) by (nonlinear_arith)
            requires
                g * tt <= m,
                -(g * tt) <= m,
                n * tt == 1 as real,
                n >= 0 as real,
        ;
    }
}

/// Dot products commute.
proof fn lemma_dot_commutes<T: Scalar>(val: spec_fn(T) -> real, zero: T, a: Vec6<T>, b: Vec6<T>)
    requires
        exact(val),
        val(zero) == 0 as real,
    ensures
        val(dot(zero, a, b)) == val(dot(zero, b, a)),
{
    lemma_dot_terms(val, zero, a, b);
    lemma_dot_terms(val, zero, b, a);
    assert forall|k: int| 0 <= k < 6 implies #[trigger] val(a[k]) * val(b[k]) == val(b[k]) * val(
        a[k],
    ) by {
        let x = val(a[k]);
        let y = val(b[k]);
        assert(x * y == y * x) by (nonlinear_arith);
    }
}

/// The dot product with `w - k v`.
proof fn lemma_residual_dot<T: Scalar>(
    val: spec_fn(T) -> real,
    zero: T,
    w: Vec6<T>,
    k: T,
    v: Vec6<T>,
    x: Vec6<T>,
)
    requires
        exact(val),
        val(zero) == 0 as real,
    ensures
        val(dot(zero, residual(w, k, v), x)) == val(dot(zero, w, x)) - val(k) * val(
            dot(zero, v, x),
        ),
        val(dot(zero, x, residual(w, k, v))) == val(dot(zero, x, w)) - val(k) * val(
            dot(zero, x, v),
        ),
{
    let r = residual(w, k, v);
    lemma_dot_terms(val, zero, r, x);
    lemma_dot_terms(val, zero, w, x);
    lemma_dot_terms(val, zero, v, x);
    lemma_row_difference(
        val(w[0]),
        val(w[1]),
        val(w[2]),
        val(w[3]),
        val(w[4]),
        val(w[5]),
        val(v[0]),
        val(v[1]),
        val(v[2]),
        val(v[3]),
        val(v[4]),
        val(v[5]),
        val(x[0]),
        val(x[1]),
        val(x[2]),
        val(x[3]),
        val(x[4]),
        val(x[5]),
        val(k),
    );
    lemma_dot_commutes(val, zero, r, x);
    lemma_dot_commutes(val, zero, w, x);
    lemma_dot_commutes(val, zero, v, x);
}

/// The form of a symmetric matrix at `w - k v`.
proof fn lemma_residual_form<T: Scalar>(
    val: spec_fn(T) -> real,
    zero: T,
    a: Mat6<T>,
    w: Vec6<T>,
    k: T,
    v: Vec6<T>,
)
    requires
        exact(val),
        val(zero) == 0 as real,
        transposed(a) == a,
    ensures
        ({
            let s = val(k);
            val(form(zero, a, residual(w, k, v))) == val(form(zero, a, w)) - s * val(
                dot(zero, image(zero, a, v), w),
            ) - s * (val(dot(zero, image(zero, a, v), w)) - s * val(form(zero, a, v)))
        }),
{
    let r = residual(w, k, v);
    let aw = image(zero, a, w);
    let av = image(zero, a, v);
    let ar = image(zero, a, r);
    assert forall|i: int| 0 <= i < 6 implies val(#[trigger] ar[i]) == val(residual(aw, k, av)[i])
        by {
        lemma_residual_dot(val, zero, w, k, v, a[i]);
    }
    lemma_vec6_values(val, ar, residual(aw, k, av));
    lemma_residual_dot(val, zero, aw, k, av, r);
    lemma_residual_dot(val, zero, w, k, v, aw);
    lemma_residual_dot(val, zero, w, k, v, av);
    // w . a v is v . a w
    lemma_adjoint(val, zero, a, w, v);
    lemma_dot_commutes(val, zero, w, av);
}

/// A symmetric matrix stretches a vector of unit length by no more than its
/// form takes in magnitude at such vectors.
proof fn lemma_image_length<T: Scalar, S: Fn(T) -> T>(
    val: spec_fn(T) -> real,
    c: Constants<T>,
    sqrt: S,
    a: Mat6<T>,
    m: real,
    v: Vec6<T>,
)
    requires
        exact(val),
        roots(val, sqrt),
        val(c.zero) == 0 as real,
        transposed(a) == a,
        m >= 0 as real,
        unit(val, c.zero, v),
        forall|u: Vec6<T>| #[trigger] unit(val, c.zero, u) ==> size(val(form(c.zero, a, u))) <= m,
    ensures
        val(dot(c.zero, image(c.zero, a, v), image(c.zero, a, v))) <= m * m,
{
    let zero = c.zero;
    let w = image(zero, a, v);
    let n = val(dot(zero, w, w));
    let length = norm(zero, sqrt, w);
    let s = val(length);
    lemma_square(val, zero, w);
    // The form at w + s v less the form at w - s v is 4 s n.
    let minus = length.neg_spec();
    let x = residual(w, minus, v);
    let y = residual(w, length, v);
    lemma_residual_form(val, zero, a, w, minus, v);
    lemma_residual_form(val, zero, a, w, length, v);
    lemma_bound_everywhere(val, c, sqrt, a, m, x);
    lemma_bound_everywhere(val, c, sqrt, a, m, y);
    let g = val(form(zero, a, v));
    let h = val(form(zero, a, w));
    let q = val(dot(zero, w, v));
    lemma_residual_dot(val, zero, w, minus, v, x);
    lemma_residual_dot(val, zero, w, minus, v, w);
    lemma_residual_dot(val, zero, w, minus, v, v);
    lemma_residual_dot(val, zero, w, length, v, y);
    lemma_residual_dot(val, zero, w, length, v, w);
    lemma_residual_dot(val, zero, w, length, v, v);
    lemma_dot_commutes(val, zero, w, v);
    let xx = val(dot(zero, x, x));
    let yy = val(dot(zero, y, y));
    let fx = val(form(zero, a, x));
    let fy = val(form(zero, a, y));
    lemma_polarized(s, n, g, h, q);
    assert(fx - fy == (4 as real) * (s * n));
    assert(xx + yy == (4 as real) * n);
    assert(m * xx + m * yy == m * (xx + yy)) by (nonlinear_arith);
    let total = xx + yy;
    assert(m * total == (4 as real) * (m * n)) by (nonlinear_arith)
        requires
            total == (4 as real) * n,
    ;
    if s > m {
        assert(s * n > m * n) by (nonlinear_arith)
            requires
                s > m,
                n == s * s,
                m >= 0 as real,
        ;
    }
    assert(s * s <= m * m) by (nonlinear_arith)
        requires
            0 as real <= s <= m,
    ;
}

/// The arithmetic of the two vectors that are compared: `s s` is `n`, `g` and
/// `h` are the forms, and `q` is the dot product.
proof fn lemma_polarized(s: real, n: real, g: real, h: real, q: real)
    requires
        s * s == n,
    ensures
        (h - (-s) * n - (-s) * (n - (-s) * g)) - (h - s * n - s * (n - s * g)) == (4 as real) * (s
            * n),
        ((n - (-s) * q) - (-s) * (q - (-s) * (1 as real))) + ((n - s * q) - s * (q - s * (
        1 as real))) == (4 as real) * n,
{
    let p = s * g;
    assert((-s) * n == -(s * n)) by (nonlinear_arith);
    assert((-s) * g == -p) by (nonlinear_arith)
        requires
            p == s * g,
    ;
    assert((-s) * (n + p) == -(s * n) - s * p) by (nonlinear_arith);
    assert(s * (n - p) == s * n - s * p) by (nonlinear_arith);
    assert((-s) * q == -(s * q)) by (nonlinear_arith);
    assert((-s) * (1 as real) == -s && s * (1 as real) == s) by (nonlinear_arith);
    assert((-s) * (q + s) == -(s * q) - s * s) by (nonlinear_arith);
    assert(s * (q - s) == s * q - s * s) by (nonlinear_arith);
}

/// The vector is an eigenvector: what is left of its image once its multiple
/// by the eigenvalue is taken off is short. Its length squared is at most the
/// square of the largest magnitude that the form may take, less the square of
/// the eigenvalue.
pub proof fn vector_is_an_eigenvector<T: Scalar, S: Fn(T) -> T>(
    val: spec_fn(T) -> real,
    c: Constants<T>,
    sqrt: S,
    a: Mat6<T>,
    max_iter: nat,
    tol: T,
)
    requires
        exact(val),
        ordered(val),
        roots(val, sqrt),
        eigen_constants(val, c),
        transposed(a) == a,
        max_iter > 0,
    ensures
        ({
            let (v, lambda) = dominant_eigenpair(c, sqrt, a, max_iter, tol);
            let r = residual(image(c.zero, a, v), lambda, v);
            let m = largest_magnitude(val, c, sqrt, a, max_iter, tol);
            val(dot(c.zero, r, r)) <= m * m - val(lambda) * val(lambda)
        }),
{
    let (v, lambda) = dominant_eigenpair(c, sqrt, a, max_iter, tol);
    let w = image(c.zero, a, v);
    let r = residual(w, lambda, v);
    let m = largest_magnitude(val, c, sqrt, a, max_iter, tol);
    let l = val(lambda);
    eigenvector_has_unit_length(val, c, sqrt, a, max_iter, tol);
    eigenvalue_is_rayleigh_quotient(val, c, sqrt, a, max_iter, tol);
    assert forall|u: Vec6<T>| #[trigger] unit(val, c.zero, u) implies size(
        val(form(c.zero, a, u)),
    ) <= m by {
        eigenvalue_is_of_largest_magnitude(val, c, sqrt, a, max_iter, tol, u);
    }
    assert(size(val(form(c.zero, a, v))) <= m);
    lemma_image_length(val, c, sqrt, a, m, v);
    lemma_residual_dot(val, c.zero, w, lambda, v, r);
    lemma_residual_dot(val, c.zero, w, lambda, v, w);
    lemma_residual_dot(val, c.zero, w, lambda, v, v);
    lemma_dot_commutes(val, c.zero, w, v);
    assert(l * (1 as real) == l && l * (0 as real) == 0 as real) by (nonlinear_arith);
    let q = val(dot(c.zero, w, v));
    assert(form(c.zero, a, v) == dot(c.zero, w, v));
    if l == q {
        assert(l * (q - l) == 0 as real) by (nonlinear_arith)
            requires
                q == l,
        ;
    } else {
        let k = q - l;
        assert(l * q == 0 as real && l * k == 0 as real && l * l == 0 as real)
            by (nonlinear_arith)
            requires
                l == 0 as real,
        ;
    }
}

/// A matrix and its negative have one Frobenius norm.
proof fn lemma_negated_frobenius<T: Scalar, S: Fn(T) -> T>(
    val: spec_fn(T) -> real,
    c: Constants<T>,
    sqrt: S,
    a: Mat6<T>,
)
    requires
        exact(val),
        val(c.zero) == 0 as real,
    ensures
        frobenius(c, sqrt, negated(a)) == frobenius(c, sqrt, a),
{
    lemma_negated_squares(val, c.zero, a, 6);
    assert(same_value(val, squares(c.zero, negated(a), 6), squares(c.zero, a, 6)));
}

/// A matrix and its negative have one sum of squares.
proof fn lemma_negated_squares<T: Scalar>(val: spec_fn(T) -> real, zero: T, a: Mat6<T>, n: nat)
    requires
        exact(val),
        n <= 6,
    ensures
        val(squares(zero, negated(a), n)) == val(squares(zero, a, n)),
    decreases n,
{
    if n > 0 {
        lemma_negated_squares(val, zero, a, (n - 1) as nat);
        reveal_with_fuel(dot_from, 7);
        let row = a[n - 1];
        assert forall|k: int| 0 <= k < 6 implies #[trigger] val(row[k].neg_spec()) * val(
            row[k].neg_spec(),
        ) == val(row[k]) * val(row[k]) by {
            let x = val(row[k]);
            assert((-x) * (-x) == x * x) by (nonlinear_arith);
        }
    }
}

/// The least eigenvalue of the zero matrix is zero. This needs no exact
/// arithmetic: only that zero times zero, zero plus zero and the root of zero
/// are zero, and that zero equals itself.
pub proof fn zero_matrix_has_zero_eigenvalue<T: Scalar, S: Fn(T) -> T>(
    c: Constants<T>,
    sqrt: S,
)
    requires
        c.zero.mul_spec(c.zero) == c.zero,
        c.zero.add_spec(c.zero) == c.zero,
        applied(sqrt, c.zero) == c.zero,
        same(c.zero, c.zero),
    ensures
        least_eigenvalue(c, sqrt, mat6(|i: int, j: int| c.zero)) == c.zero,
{
    let a = mat6(|i: int, j: int| c.zero);
    reveal_with_fuel(squares, 7);
    assert forall|i: int| 0 <= i < 6 implies #[trigger] dot_from(c.zero, a[i], a[i], 6)
        == c.zero by {
        reveal_with_fuel(dot_from, 7);
    }
}

} // verus!
