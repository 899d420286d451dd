//! Quadratic forms in exact arithmetic.

use vstd::prelude::*;

use crate::constants::Constants;
use crate::exact::{exact, lemma_dot, lemma_dot_terms, lemma_sum_eq, lemma_sum_scale, sum};
use crate::linalg::{divided, dot, dot_from, image, Mat6, Vec6};
use crate::scalar::{applied, at_least, less, same, Scalar};
use crate::spectrum::{form, frobenius, shifted, squares};

verus! {

/// Comparisons are those of the numbers that the scalars stand for.
pub open spec fn ordered<T: Scalar>(val: spec_fn(T) -> real) -> bool {
    &&& forall|x: T, y: T| #[trigger] less(x, y) <==> val(x) < val(y)
    &&& forall|x: T, y: T| #[trigger] at_least(x, y) <==> val(x) >= val(y)
    &&& forall|x: T, y: T| #[trigger] same(x, y) <==> val(x) == val(y)
}

/// `sqrt` gives the square root of every number that is not negative.
pub open spec fn roots<T: Scalar, S: Fn(T) -> T>(val: spec_fn(T) -> real, sqrt: S) -> bool {
    forall|x: T|
        val(x) >= 0 as real ==> {
            let r = val(#[trigger] applied(sqrt, x));
            r >= 0 as real && r * r == val(x)
        }
}

/// A vector of unit length.
pub open spec fn unit<T: Scalar>(val: spec_fn(T) -> real, zero: T, v: Vec6<T>) -> bool {
    val(dot(zero, v, v)) == 1 as real
}

/// The value of the square of a vector's length, and that it is not negative.
pub(crate) proof fn lemma_square<T: Scalar>(val: spec_fn(T) -> real, zero: T, v: Vec6<T>)
    requires
        exact(val),
        val(zero) == 0 as real,
    ensures
        val(dot(zero, v, v)) == val(v[0]) * val(v[0]) + val(v[1]) * val(v[1]) + val(v[2]) * val(
            v[2],
        ) + val(v[3]) * val(v[3]) + val(v[4]) * val(v[4]) + val(v[5]) * val(v[5]),
        val(dot(zero, v, v)) >= 0 as real,
{
    lemma_dot_terms(val, zero, v, v);
    lemma_nonnegative(val(v[0]));
    lemma_nonnegative(val(v[1]));
    lemma_nonnegative(val(v[2]));
    lemma_nonnegative(val(v[3]));
    lemma_nonnegative(val(v[4]));
    lemma_nonnegative(val(v[5]));
}

/// A square is not negative.
pub(crate) proof fn lemma_nonnegative(x: real)
    ensures
        x * x >= 0 as real,
{
    assert(x * x >= 0 as real) by (nonlinear_arith);
}

/// The square of a quotient.
pub(crate) proof fn lemma_quotient_square(x: real, r: real, t: real)
    requires
        r != 0 as real,
        t == (1 as real) / r,
    ensures
        (x / r) * (x / r) == (x * x) * (t * t),
        (r * r) * (t * t) == 1 as real,
{
    assert(r * t == 1 as real) by (nonlinear_arith)
        requires
            r != 0 as real,
            t == (1 as real) / r,
    ;
    assert(x / r == x * t) by (nonlinear_arith)
        requires
            r != 0 as real,
            t == (1 as real) / r,
    ;
    lemma_swap_middle(x, t, x, t);
    lemma_swap_middle(r, t, r, t);
    assert((1 as real) * (1 as real) == 1 as real) by (nonlinear_arith);
}

/// Four factors in another order.
pub(crate) proof fn lemma_swap_middle(a: real, b: real, c: real, d: real)
    ensures
        (a * b) * (c * d) == (a * c) * (b * d),
{
    let p = b * d;
    assert((a * b) * (c * d) == a * (b * (c * d))) by (nonlinear_arith);
    assert(b * (c * d) == c * p) by (nonlinear_arith)
        requires
            p == b * d,
    ;
    assert(a * (c * p) == (a * c) * p) by (nonlinear_arith);
}

/// A vector over its norm has unit length.
pub(crate) proof fn lemma_divided_unit<T: Scalar>(val: spec_fn(T) -> real, zero: T, w: Vec6<T>, size: T)
    requires
        exact(val),
        val(zero) == 0 as real,
        val(size) != 0 as real,
        val(size) * val(size) == val(dot(zero, w, w)),
    ensures
        unit(val, zero, divided(w, size)),
{
    let r = val(size);
    let t = (1 as real) / r;
    let u = divided(w, size);
    lemma_square(val, zero, w);
    lemma_square(val, zero, u);
    let (a0, a1, a2) = (val(w[0]), val(w[1]), val(w[2]));
    let (a3, a4, a5) = (val(w[3]), val(w[4]), val(w[5]));
    lemma_quotient_square(a0, r, t);
    lemma_quotient_square(a1, r, t);
    lemma_quotient_square(a2, r, t);
    lemma_quotient_square(a3, r, t);
    lemma_quotient_square(a4, r, t);
    lemma_quotient_square(a5, r, t);
    let (b0, b1, b2) = (a0 * a0, a1 * a1, a2 * a2);
    let (b3, b4, b5) = (a3 * a3, a4 * a4, a5 * a5);
    let q = t * t;
    assert((b0 + b1 + b2 + b3 + b4 + b5) * q == b0 * q + b1 * q + b2 * q + b3 * q + b4 * q + b5 * q)
        by (nonlinear_arith);
}

/// Adding squares to a number does not lower it.
pub(crate) proof fn lemma_squares_nonnegative<T: Scalar>(
    val: spec_fn(T) -> real,
    zero: T,
    a: Mat6<T>,
    n: nat,
)
    requires
        exact(val),
        val(zero) == 0 as real,
        n <= 6,
    ensures
        val(squares(zero, a, n)) >= 0 as real,
    decreases n,
{
    if n > 0 {
        lemma_squares_nonnegative(val, zero, a, (n - 1) as nat);
        reveal_with_fuel(dot_from, 7);
        let row = a[n - 1];
        lemma_nonnegative(val(row[0]));
        lemma_nonnegative(val(row[1]));
        lemma_nonnegative(val(row[2]));
        lemma_nonnegative(val(row[3]));
        lemma_nonnegative(val(row[4]));
        lemma_nonnegative(val(row[5]));
    }
}

/// One entry of the image under `shift I - a`.
pub(crate) proof fn lemma_shifted_row<T: Scalar>(
    val: spec_fn(T) -> real,
    zero: T,
    shift: T,
    a: Mat6<T>,
    v: Vec6<T>,
    i: int,
)
    requires
        exact(val),
        val(zero) == 0 as real,
        0 <= i < 6,
    ensures
        val(image(zero, shifted(shift, a), v)[i]) == val(shift) * val(v[i]) - val(
            image(zero, a, v)[i],
        ),
{
    let m = shifted(shift, a);
    lemma_dot_terms(val, zero, m[i], v);
    lemma_dot_terms(val, zero, a[i], v);
    let f = val(shift);
    assert forall|k: int| 0 <= k < 6 implies #[trigger] val(m[i][k]) * val(v[k]) == (if i == k {
        f * val(v[k])
    } else {
        0 as real
    }) - val(a[i][k]) * val(v[k]) by {
        let x = val(a[i][k]);
        let y = val(v[k]);
        assert((-x) * y == -(x * y)) by (nonlinear_arith);
        assert((-x + f) * y == f * y - x * y) by (nonlinear_arith);
    }
}

/// The quadratic form of `shift I - a`.
pub(crate) proof fn lemma_shifted_form<T: Scalar>(
    val: spec_fn(T) -> real,
    zero: T,
    shift: T,
    a: Mat6<T>,
    v: Vec6<T>,
)
    requires
        exact(val),
        val(zero) == 0 as real,
    ensures
        val(dot(zero, image(zero, shifted(shift, a), v), v)) == val(shift) * val(dot(zero, v, v))
            - val(dot(zero, image(zero, a, v), v)),
{
    let w = image(zero, shifted(shift, a), v);
    let u = image(zero, a, v);
    let f = val(shift);
    lemma_dot_terms(val, zero, w, v);
    lemma_dot_terms(val, zero, u, v);
    lemma_square(val, zero, v);
    assert forall|i: int| 0 <= i < 6 implies #[trigger] val(w[i]) * val(v[i]) == f * (val(v[i])
        * val(v[i])) - val(u[i]) * val(v[i]) by {
        lemma_shifted_row(val, zero, shift, a, v, i);
        let x = val(v[i]);
        let y = val(u[i]);
        let z = f * x;
        assert((z - y) * x == z * x - y * x) by (nonlinear_arith);
        assert(f * x * x == f * (x * x)) by (nonlinear_arith);
    }
    let (b0, b1, b2) = (val(v[0]) * val(v[0]), val(v[1]) * val(v[1]), val(v[2]) * val(v[2]));
    let (b3, b4, b5) = (val(v[3]) * val(v[3]), val(v[4]) * val(v[4]), val(v[5]) * val(v[5]));
    assert(f * (b0 + b1 + b2 + b3 + b4 + b5) == f * b0 + f * b1 + f * b2 + f * b3 + f * b4 + f * b5)
        by (nonlinear_arith);
}

/// The square of a sum, and a product of two sums.
pub(crate) proof fn lemma_binomials(a: real, b: real, c: real, d: real)
    ensures
        (a + b) * (a + b) == a * a + a * b + a * b + b * b,
        (a + b) * (c + d) == a * c + a * d + b * c + b * d,
{
    let s = a + b;
    let t = c + d;
    assert(s * t == a * t + b * t) by (nonlinear_arith)
        requires
            s == a + b,
    ;
    assert(a * t == a * c + a * d) by (nonlinear_arith)
        requires
            t == c + d,
    ;
    assert(b * t == b * c + b * d) by (nonlinear_arith)
        requires
            t == c + d,
    ;
    assert(s * s == a * s + b * s) by (nonlinear_arith)
        requires
            s == a + b,
    ;
    assert(a * s == a * a + a * b) by (nonlinear_arith)
        requires
            s == a + b,
    ;
    assert(b * s == a * b + b * b) by (nonlinear_arith)
        requires
            s == a + b,
    ;
}

/// A number whose square is at most that of `b`, which is not negative, is at
/// most `b`.
pub(crate) proof fn lemma_root_order(a: real, b: real)
    requires
        b >= 0 as real,
        a * a <= b * b,
    ensures
        a <= b,
{
    if a > b {
        assert(a * a > b * b) by (nonlinear_arith)
            requires
                a > b,
                b >= 0 as real,
        ;
    }
}

/// One more term in the inequality of Cauchy and Schwarz.
pub(crate) proof fn lemma_cauchy_step(p: real, u: real, w: real, x: real, y: real)
    requires
        p * p <= u * w,
        u >= 0 as real,
        w >= 0 as real,
    ensures
        (p + x * y) * (p + x * y) <= (u + x * x) * (w + y * y),
{
    let xx = x * x;
    let yy = y * y;
    let q = x * y;
    lemma_nonnegative(x);
    lemma_nonnegative(y);
    lemma_nonnegative(q);
    lemma_swap_middle(x, y, x, y);
    assert(xx * yy == q * q);
    let a = u * yy;
    let b = xx * w;
    assert(a >= 0 as real) by (nonlinear_arith)
        requires
            a == u * yy,
            u >= 0 as real,
            yy >= 0 as real,
    ;
    assert(b >= 0 as real) by (nonlinear_arith)
        requires
            b == xx * w,
            w >= 0 as real,
            xx >= 0 as real,
    ;
    let d = p * q;
    // a b = (u w) (q q) >= (p p) (q q) = d d
    lemma_swap_middle(u, yy, w, xx);
    assert(w * xx == xx * w && yy * xx == xx * yy) by (nonlinear_arith);
    let uw = u * w;
    let pp = p * p;
    let qq = q * q;
    assert(a * b == uw * qq);
    assert(uw * qq >= pp * qq) by (nonlinear_arith)
        requires
            uw >= pp,
            qq >= 0 as real,
    ;
    lemma_swap_middle(p, q, p, q);
    assert(d * d == pp * qq);
    // (a + b)^2 >= 4 a b >= (2 d)^2
    let e = a - b;
    lemma_nonnegative(e);
    lemma_binomials(a, b, a, b);
    assert(e * e == a * a - a * b - a * b + b * b) by {
        lemma_binomials(e, b, e, b);
        lemma_binomials(b, e, b, e);
        assert(e * b == a * b - b * b) by (nonlinear_arith)
            requires
                e == a - b,
        ;
    }
    lemma_binomials(d, d, d, d);
    lemma_root_order(d + d, a + b);
    lemma_binomials(p, q, p, q);
    lemma_binomials(u, xx, w, yy);
}

/// The inequality of Cauchy and Schwarz.
pub(crate) proof fn lemma_cauchy(f: spec_fn(int) -> real, g: spec_fn(int) -> real, n: nat)
    ensures
        sum(|k: int| f(k) * g(k), n) * sum(|k: int| f(k) * g(k), n) <= sum(|k: int| f(k) * f(k), n)
            * sum(|k: int| g(k) * g(k), n),
        sum(|k: int| f(k) * f(k), n) >= 0 as real,
        sum(|k: int| g(k) * g(k), n) >= 0 as real,
    decreases n,
{
    if n > 0 {
        let m = (n - 1) as nat;
        lemma_cauchy(f, g, m);
        lemma_nonnegative(f(n - 1));
        lemma_nonnegative(g(n - 1));
        lemma_cauchy_step(
            sum(|k: int| f(k) * g(k), m),
            sum(|k: int| f(k) * f(k), m),
            sum(|k: int| g(k) * g(k), m),
            f(n - 1),
            g(n - 1),
        );
    } else {
        assert((0 as real) * (0 as real) == 0 as real) by (nonlinear_arith);
    }
}

/// The inequality of Cauchy and Schwarz for dot products.
pub(crate) proof fn lemma_dot_bound<T: Scalar>(val: spec_fn(T) -> real, zero: T, a: Vec6<T>, b: Vec6<T>)
    requires
        exact(val),
        val(zero) == 0 as real,
    ensures
        val(dot(zero, a, b)) * val(dot(zero, a, b)) <= val(dot(zero, a, a)) * val(dot(zero, b, b)),
{
    let f = |k: int| val(a[k]);
    let g = |k: int| val(b[k]);
    lemma_cauchy(f, g, 6);
    lemma_dot(val, zero, a, b, 6);
    lemma_dot(val, zero, a, a, 6);
    lemma_dot(val, zero, b, b, 6);
    lemma_sum_eq(|k: int| f(k) * g(k), |k: int| val(a[k]) * val(b[k]), 6);
    lemma_sum_eq(|k: int| f(k) * f(k), |k: int| val(a[k]) * val(a[k]), 6);
    lemma_sum_eq(|k: int| g(k) * g(k), |k: int| val(b[k]) * val(b[k]), 6);
}

/// The sum of the squared entries, row by row.
pub(crate) proof fn lemma_squares<T: Scalar>(val: spec_fn(T) -> real, zero: T, a: Mat6<T>, n: nat)
    requires
        exact(val),
        val(zero) == 0 as real,
        n <= 6,
    ensures
        val(squares(zero, a, n)) == sum(|i: int| val(dot(zero, a[i], a[i])), n),
    decreases n,
{
    if n > 0 {
        lemma_squares(val, zero, a, (n - 1) as nat);
        reveal_with_fuel(dot_from, 7);
    }
}

/// A sum of terms that are each at most another is at most their sum.
pub(crate) proof fn lemma_sum_order(f: spec_fn(int) -> real, g: spec_fn(int) -> real, n: nat)
    requires
        forall|i: int| 0 <= i < n ==> #[trigger] f(i) <= g(i),
    ensures
        sum(f, n) <= sum(g, n),
    decreases n,
{
    if n > 0 {
        lemma_sum_order(f, g, (n - 1) as nat);
    }
}

/// The length of an image is at most the Frobenius norm times the length, in
/// squares.
pub(crate) proof fn lemma_image_bound<T: Scalar>(val: spec_fn(T) -> real, zero: T, a: Mat6<T>, v: Vec6<T>)
    requires
        exact(val),
        val(zero) == 0 as real,
    ensures
        val(dot(zero, image(zero, a, v), image(zero, a, v))) <= val(squares(zero, a, 6)) * val(
            dot(zero, v, v),
        ),
{
    let w = image(zero, a, v);
    let n = val(dot(zero, v, v));
    let rows = |i: int| val(dot(zero, a[i], a[i]));
    let f = |i: int| val(w[i]) * val(w[i]);
    let g = |i: int| rows(i) * n;
    lemma_dot(val, zero, w, w, 6);
    lemma_sum_eq(f, |k: int| val(w[k]) * val(w[k]), 6);
    lemma_squares(val, zero, a, 6);
    lemma_sum_eq(rows, |i: int| val(dot(zero, a[i], a[i])), 6);
    assert forall|i: int| 0 <= i < 6 implies #[trigger] f(i) <= g(i) by {
        lemma_dot_bound(val, zero, a[i], v);
    }
    lemma_sum_order(f, g, 6);
    lemma_sum_scale(rows, n, 6);
    lemma_sum_eq(g, |i: int| rows(i) * n, 6);
}

/// The form of a matrix is bounded by its Frobenius norm.
pub(crate) proof fn lemma_form_bound<T: Scalar, S: Fn(T) -> T>(
    val: spec_fn(T) -> real,
    c: Constants<T>,
    sqrt: S,
    a: Mat6<T>,
    v: Vec6<T>,
)
    requires
        exact(val),
        roots(val, sqrt),
        val(c.zero) == 0 as real,
    ensures
        val(frobenius(c, sqrt, a)) >= 0 as real,
        val(form(c.zero, a, v)) <= val(frobenius(c, sqrt, a)) * val(dot(c.zero, v, v)),
        -val(form(c.zero, a, v)) <= val(frobenius(c, sqrt, a)) * val(dot(c.zero, v, v)),
{
    let f = val(frobenius(c, sqrt, a));
    let ff = f * f;
    let n = val(dot(c.zero, v, v));
    let w = image(c.zero, a, v);
    let ww = val(dot(c.zero, w, w));
    let s = val(dot(c.zero, w, v));
    lemma_squares_nonnegative(val, c.zero, a, 6);
    lemma_square(val, c.zero, v);
    lemma_dot_bound(val, c.zero, w, v);
    lemma_image_bound(val, c.zero, a, v);
    assert(ww * n <= ff * n * n) by (nonlinear_arith)
        requires
            ww <= ff * n,
            n >= 0 as real,
    ;
    lemma_swap_middle(f, n, f, n);
    let nn = n * n;
    assert(ff * n * n == ff * nn) by (nonlinear_arith)
        requires
            nn == n * n,
    ;
    assert(f * n >= 0 as real) by (nonlinear_arith)
        requires
            f >= 0 as real,
            n >= 0 as real,
    ;
    assert((-s) * (-s) == s * s) by (nonlinear_arith);
    lemma_root_order(s, f * n);
    lemma_root_order(-s, f * n);
}

/// The form along a vector that is divided by a number.
pub(crate) proof fn lemma_form_divided<T: Scalar>(
    val: spec_fn(T) -> real,
    zero: T,
    a: Mat6<T>,
    x: Vec6<T>,
    size: T,
)
    requires
        exact(val),
        val(zero) == 0 as real,
        val(size) != 0 as real,
    ensures
        ({
            let t = (1 as real) / val(size);
            val(form(zero, a, divided(x, size))) == val(form(zero, a, x)) * (t * t)
        }),
{
    let u = divided(x, size);
    let r = val(size);
    let t = (1 as real) / r;
    let w = image(zero, a, x);
    let y = image(zero, a, u);
    assert forall|k: int| 0 <= k < 6 implies #[trigger] val(u[k]) == val(x[k]) * t by {
        let b = val(x[k]);
        assert(b / r == b * t) by (nonlinear_arith)
            requires
                r != 0 as real,
                t == (1 as real) / r,
        ;
    }
    assert forall|i: int| 0 <= i < 6 implies #[trigger] val(y[i]) == val(w[i]) * t by {
        lemma_dot_terms(val, zero, a[i], u);
        lemma_dot_terms(val, zero, a[i], x);
        lemma_six_scaled(
            val(a[i][0]),
            val(a[i][1]),
            val(a[i][2]),
            val(a[i][3]),
            val(a[i][4]),
            val(a[i][5]),
            val(x[0]),
            val(x[1]),
            val(x[2]),
            val(x[3]),
            val(x[4]),
            val(x[5]),
            t,
        );
    }
    lemma_dot_terms(val, zero, y, u);
    lemma_dot_terms(val, zero, w, x);
    assert forall|i: int| 0 <= i < 6 implies #[trigger] val(y[i]) * val(u[i]) == (val(w[i]) * val(
        x[i],
    )) * (t * t) by {
        lemma_swap_middle(val(w[i]), t, val(x[i]), t);
    }
    let q = t * t;
    let (b0, b1, b2) = (val(w[0]) * val(x[0]), val(w[1]) * val(x[1]), val(w[2]) * val(x[2]));
    let (b3, b4, b5) = (val(w[3]) * val(x[3]), val(w[4]) * val(x[4]), val(w[5]) * val(x[5]));
    assert((b0 + b1 + b2 + b3 + b4 + b5) * q == b0 * q + b1 * q + b2 * q + b3 * q + b4 * q + b5 * q)
        by (nonlinear_arith);
}

/// A factor comes out of a sum of six products.
pub(crate) proof fn lemma_six_scaled(
    a0: real,
    a1: real,
    a2: real,
    a3: real,
    a4: real,
    a5: real,
    x0: real,
    x1: real,
    x2: real,
    x3: real,
    x4: real,
    x5: real,
    t: real,
)
    ensures
        a0 * (x0 * t) + a1 * (x1 * t) + a2 * (x2 * t) + a3 * (x3 * t) + a4 * (x4 * t) + a5 * (x5
            * t) == (a0 * x0 + a1 * x1 + a2 * x2 + a3 * x3 + a4 * x4 + a5 * x5) * t,
{
    assert(a0 * (x0 * t) == a0 * x0 * t) by (nonlinear_arith);
    assert(a1 * (x1 * t) == a1 * x1 * t) by (nonlinear_arith);
    assert(a2 * (x2 * t) == a2 * x2 * t) by (nonlinear_arith);
    assert(a3 * (x3 * t) == a3 * x3 * t) by (nonlinear_arith);
    assert(a4 * (x4 * t) == a4 * x4 * t) by (nonlinear_arith);
    assert(a5 * (x5 * t) == a5 * x5 * t) by (nonlinear_arith);
    let (b0, b1, b2) = (a0 * x0, a1 * x1, a2 * x2);
    let (b3, b4, b5) = (a3 * x3, a4 * x4, a5 * x5);
    assert((b0 + b1 + b2 + b3 + b4 + b5) * t == b0 * t + b1 * t + b2 * t + b3 * t + b4 * t + b5 * t)
        by (nonlinear_arith);
}

} // verus!
