//! The least eigenvalue scales with the matrix and does not depend on the
//! order of the coordinates.

use vstd::prelude::*;
use vstd::std_specs::ops::MulSpec;

use crate::constants::Constants;
use crate::exact::{
    exact, lemma_dot, lemma_mat6_values, lemma_sum_eq, lemma_sum_scale, lemma_sum_swap,
    lemma_sum_zero, sum,
};
use crate::laws::eigen::{
    eigen_constants, halved, least_eigenvalue_is_attained, least_eigenvalue_is_least,
};
use crate::laws::forms::{ordered, roots, unit};
use crate::linalg::{dot, image, mat6, transposed, vec6, Mat6, Vec6};
use crate::scalar::Scalar;
use crate::spectrum::{form, frobenius, least_eigenvalue};

verus! {

/// `p` reorders the six coordinates, and `q` orders them back.
pub open spec fn reorders(p: spec_fn(int) -> int, q: spec_fn(int) -> int) -> bool {
    &&& forall|i: int| 0 <= i < 6 ==> 0 <= #[trigger] p(i) < 6 && q(p(i)) == i
    &&& forall|i: int| 0 <= i < 6 ==> 0 <= #[trigger] q(i) < 6 && p(q(i)) == i
}

/// `k a`, with its coordinates reordered by `p`.
pub open spec fn reordered<T: Scalar>(k: T, a: Mat6<T>, p: spec_fn(int) -> int) -> Mat6<T> {
    mat6(|i: int, j: int| k.mul_spec(a[p(i)][p(j)]))
}

/// The terms of `g` with all but the one at `k` put to zero.
spec fn only(g: spec_fn(int) -> real, k: int) -> spec_fn(int) -> real {
    |i: int|
        if i == k {
            g(i)
        } else {
            0 as real
        }
}

/// A sum with one term picks that term.
proof fn lemma_sum_pick(g: spec_fn(int) -> real, k: int, n: nat)
    requires
        0 <= k < n,
    ensures
        sum(only(g, k), n) == g(k),
    decreases n,
{
    if k == n - 1 {
        lemma_sum_zero(only(g, k), (n - 1) as nat);
    } else {
        lemma_sum_pick(g, k, (n - 1) as nat);
    }
}

/// A sum does not depend on the order of its terms.
proof fn lemma_sum_reordered(
    g: spec_fn(int) -> real,
    p: spec_fn(int) -> int,
    q: spec_fn(int) -> int,
)
    requires
        reorders(p, q),
    ensures
        sum(|i: int| g(p(i)), 6) == sum(g, 6),
{
    // The term for i and j is g(j) where p(i) = j.
    let f = |i: int, j: int|
        if j == p(i) {
            g(j)
        } else {
            0 as real
        };
    lemma_sum_swap(f, 6, 6);
    let rows = |i: int| sum(|j: int| f(i, j), 6);
    assert forall|i: int| 0 <= i < 6 implies #[trigger] rows(i) == g(p(i)) by {
        lemma_sum_pick(g, p(i), 6);
        lemma_sum_eq(|j: int| f(i, j), only(g, p(i)), 6);
    }
    lemma_sum_eq(rows, |i: int| g(p(i)), 6);
    let columns = |j: int| sum(|i: int| f(i, j), 6);
    assert forall|j: int| 0 <= j < 6 implies #[trigger] columns(j) == g(j) by {
        let h = |i: int| g(p(i));
        lemma_sum_pick(h, q(j), 6);
        let column = |i: int| f(i, j);
        assert forall|i: int| 0 <= i < 6 implies #[trigger] column(i) == only(h, q(j))(i) by {
            assert(q(p(i)) == i);
            assert(p(q(j)) == j);
        }
        lemma_sum_eq(column, only(h, q(j)), 6);
    }
    lemma_sum_eq(columns, g, 6);
}

/// The form of the reordered matrix at a reordered vector.
proof fn lemma_reordered_form<T: Scalar>(
    val: spec_fn(T) -> real,
    zero: T,
    k: T,
    a: Mat6<T>,
    p: spec_fn(int) -> int,
    q: spec_fn(int) -> int,
    v: Vec6<T>,
    w: Vec6<T>,
)
    requires
        exact(val),
        val(zero) == 0 as real,
        reorders(p, q),
        forall|i: int| 0 <= i < 6 ==> #[trigger] w[i] == v[p(i)],
    ensures
        val(form(zero, reordered(k, a, p), w)) == val(k) * val(form(zero, a, v)),
        val(dot(zero, w, w)) == val(dot(zero, v, v)),
{
    let b = reordered(k, a, p);
    let u = image(zero, a, v);
    let y = image(zero, b, w);
    let s = val(k);
    assert forall|i: int| 0 <= i < 6 implies #[trigger] val(y[i]) == val(u[p(i)]) * s by {
        lemma_dot(val, zero, b[i], w, 6);
        lemma_dot(val, zero, a[p(i)], v, 6);
        let g = |j: int| val(a[p(i)][j]) * val(v[j]);
        let g_s = |j: int| g(j) * s;
        lemma_sum_scale(g, s, 6);
        lemma_sum_reordered(g_s, p, q);
        let terms = |j: int| val(b[i][j]) * val(w[j]);
        assert forall|j: int| 0 <= j < 6 implies #[trigger] terms(j) == g_s(p(j)) by {
            let x = val(a[p(i)][p(j)]);
            let z = val(v[p(j)]);
            assert(s * x * z == x * z * s) by (nonlinear_arith);
            assert(w[j] == v[p(j)]);
        }
        lemma_sum_eq(terms, |j: int| g_s(p(j)), 6);
        lemma_sum_eq(g, |j: int| val(a[p(i)][j]) * val(v[j]), 6);
        lemma_sum_eq(terms, |j: int| val(b[i][j]) * val(w[j]), 6);
    }
    lemma_dot(val, zero, y, w, 6);
    lemma_dot(val, zero, u, v, 6);
    let h = |i: int| val(u[i]) * val(v[i]);
    let h_s = |i: int| h(i) * s;
    lemma_sum_scale(h, s, 6);
    lemma_sum_reordered(h_s, p, q);
    let outer = |i: int| val(y[i]) * val(w[i]);
    assert forall|i: int| 0 <= i < 6 implies #[trigger] outer(i) == h_s(p(i)) by {
        let x = val(u[p(i)]);
        let z = val(v[p(i)]);
        assert(x * s * z == x * z * s) by (nonlinear_arith);
        assert(w[i] == v[p(i)]);
    }
    lemma_sum_eq(outer, |i: int| h_s(p(i)), 6);
    lemma_sum_eq(outer, |i: int| val(y[i]) * val(w[i]), 6);
    lemma_sum_eq(h, |i: int| val(u[i]) * val(v[i]), 6);
    let total = sum(h, 6);
    assert(total * s == s * total) by (nonlinear_arith);
    lemma_dot(val, zero, w, w, 6);
    lemma_dot(val, zero, v, v, 6);
    let n = |i: int| val(v[i]) * val(v[i]);
    lemma_sum_reordered(n, p, q);
    lemma_sum_eq(|i: int| n(p(i)), |i: int| val(w[i]) * val(w[i]), 6);
    lemma_sum_eq(n, |i: int| val(v[i]) * val(v[i]), 6);
}

/// The least eigenvalue of `k a` with its coordinates in another order is `k`
/// times that of `a`, for a positive `k`; but for twice the Frobenius norm of
/// each matrix halved sixty times.
pub proof fn least_eigenvalue_scales_and_ignores_order<T: Scalar, S: Fn(T) -> T>(
    val: spec_fn(T) -> real,
    c: Constants<T>,
    sqrt: S,
    k: T,
    a: Mat6<T>,
    p: spec_fn(int) -> int,
    q: spec_fn(int) -> int,
)
    requires
        exact(val),
        ordered(val),
        roots(val, sqrt),
        eigen_constants(val, c),
        transposed(a) == a,
        val(k) > 0 as real,
        reorders(p, q),
    ensures
        ({
            let b = reordered(k, a, p);
            let m = val(least_eigenvalue(c, sqrt, a));
            let n = val(least_eigenvalue(c, sqrt, b));
            &&& n <= val(k) * m + halved((2 as real) * val(frobenius(c, sqrt, b)), 60)
            &&& val(k) * m <= n + val(k) * halved((2 as real) * val(frobenius(c, sqrt, a)), 60)
        }),
{
    let b = reordered(k, a, p);
    let s = val(k);
    assert(transposed(b) == b) by {
        assert forall|i: int, j: int| 0 <= i < 6 && 0 <= j < 6 implies val(
            #[trigger] transposed(b)[i][j],
        ) == val(b[i][j]) by {
            assert(0 <= p(i) < 6 && 0 <= p(j) < 6);
            assert(transposed(a)[p(i)][p(j)] == a[p(j)][p(i)]);
        }
        lemma_mat6_values(val, transposed(b), b);
    }
    let m = val(least_eigenvalue(c, sqrt, a));
    let n = val(least_eigenvalue(c, sqrt, b));
    least_eigenvalue_is_attained(val, c, sqrt, a);
    least_eigenvalue_is_attained(val, c, sqrt, b);
    let v = choose|v: Vec6<T>|
        unit(val, c.zero, v) && #[trigger] val(dot(c.zero, image(c.zero, a, v), v)) == m;
    let w = vec6(|i: int| v[p(i)]);
    assert forall|i: int| 0 <= i < 6 implies #[trigger] w[i] == v[p(i)] by {}
    lemma_reordered_form(val, c.zero, k, a, p, q, v, w);
    assert(form(c.zero, a, v) == dot(c.zero, image(c.zero, a, v), v));
    least_eigenvalue_is_least(val, c, sqrt, b, w);
    let y = choose|y: Vec6<T>|
        unit(val, c.zero, y) && #[trigger] val(dot(c.zero, image(c.zero, b, y), y)) == n;
    let x = vec6(|j: int| y[q(j)]);
    assert forall|i: int| 0 <= i < 6 implies #[trigger] y[i] == x[p(i)] by {
        assert(0 <= p(i) < 6 && q(p(i)) == i);
    }
    lemma_reordered_form(val, c.zero, k, a, p, q, x, y);
    assert(form(c.zero, b, y) == dot(c.zero, image(c.zero, b, y), y));
    least_eigenvalue_is_least(val, c, sqrt, a, x);
    let g = val(form(c.zero, a, x));
    let e = halved((2 as real) * val(frobenius(c, sqrt, a)), 60);
    assert(s * m <= s * g + s * e) by (nonlinear_arith)
        requires
            m <= g + e,
            s > 0 as real,
    ;
}

} // verus!
