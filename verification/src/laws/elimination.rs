//! Symmetric elimination decides semidefiniteness, in exact arithmetic.

use vstd::prelude::*;

use crate::constants::Constants;
use crate::definiteness::{
    axis, cleared, completed, eliminated, falling_direction, first_coupled, first_negative,
    flat_direction, pair, top_index,
};
use crate::exact::{exact, lemma_dot_terms, lemma_mat6_values};
use crate::laws::covariance::semidefinite;
use crate::laws::forms::{lemma_nonnegative, lemma_six_scaled, ordered};
use crate::laws::frames::units;
use crate::linalg::{dot, image, transposed, Mat6, Vec6};
use crate::scalar::{less, same, Scalar};
use crate::spectrum::form;

verus! {

/// The value of an entry after an elimination: the vanishing of row and column
/// `r` is what the formula gives there.
proof fn lemma_eliminated_entry<T: Scalar>(
    val: spec_fn(T) -> real,
    zero: T,
    s: Mat6<T>,
    r: int,
    i: int,
    j: int,
)
    requires
        exact(val),
        val(zero) == 0 as real,
        0 <= r < 6,
        0 <= i < 6,
        0 <= j < 6,
        val(s[r][r]) != 0 as real,
    ensures
        val(eliminated(zero, s, r)[i][j]) == val(s[i][j]) - (val(s[i][r]) / val(s[r][r])) * val(
            s[r][j],
        ),
{
    let d = val(s[r][r]);
    let x = val(s[i][r]);
    let y = val(s[r][j]);
    if i == r {
        assert((d / d) * y == y) by (nonlinear_arith)
            requires
                d != 0 as real,
        ;
    } else if j == r {
        assert((x / d) * d == x) by (nonlinear_arith)
            requires
                d != 0 as real,
        ;
    }
}

/// Elimination keeps symmetry.
proof fn lemma_eliminated_symmetric<T: Scalar>(
    val: spec_fn(T) -> real,
    zero: T,
    s: Mat6<T>,
    r: int,
)
    requires
        exact(val),
        val(zero) == 0 as real,
        0 <= r < 6,
        val(s[r][r]) != 0 as real,
        transposed(s) == s,
    ensures
        transposed(eliminated(zero, s, r)) == eliminated(zero, s, r),
{
    let m = eliminated(zero, s, r);
    let t = transposed(m);
    let d = val(s[r][r]);
    assert forall|i: int, j: int| 0 <= i < 6 && 0 <= j < 6 implies val(#[trigger] t[i][j]) == val(
        m[i][j],
    ) by {
        lemma_eliminated_entry(val, zero, s, r, i, j);
        lemma_eliminated_entry(val, zero, s, r, j, i);
        assert(transposed(s)[i][j] == s[j][i]);
        assert(transposed(s)[i][r] == s[r][i]);
        assert(transposed(s)[j][r] == s[r][j]);
        let x = val(s[i][r]);
        let y = val(s[r][j]);
        assert((x / d) * y == (y / d) * x) by (nonlinear_arith)
            requires
                d != 0 as real,
        ;
    }
    lemma_mat6_values(val, t, m);
}

/// A multiple of one row taken from another, in a dot product.
pub(crate) proof fn lemma_row_difference(
    a0: real,
    a1: real,
    a2: real,
    a3: real,
    a4: real,
    a5: real,
    b0: real,
    b1: real,
    b2: real,
    b3: real,
    b4: real,
    b5: real,
    x0: real,
    x1: real,
    x2: real,
    x3: real,
    x4: real,
    x5: real,
    t: real,
)
    ensures
        (a0 - t * b0) * x0 + (a1 - t * b1) * x1 + (a2 - t * b2) * x2 + (a3 - t * b3) * x3 + (a4 - t
            * b4) * x4 + (a5 - t * b5) * x5 == (a0 * x0 + a1 * x1 + a2 * x2 + a3 * x3 + a4 * x4 + a5
            * x5) - t * (b0 * x0 + b1 * x1 + b2 * x2 + b3 * x3 + b4 * x4 + b5 * x5),
{
    lemma_one_difference(a0, b0, x0, t);
    lemma_one_difference(a1, b1, x1, t);
    lemma_one_difference(a2, b2, x2, t);
    lemma_one_difference(a3, b3, x3, t);
    lemma_one_difference(a4, b4, x4, t);
    lemma_one_difference(a5, b5, x5, t);
    let (p0, p1, p2) = (b0 * x0, b1 * x1, b2 * x2);
    let (p3, p4, p5) = (b3 * x3, b4 * x4, b5 * x5);
    assert(t * (p0 + p1 + p2 + p3 + p4 + p5) == t * p0 + t * p1 + t * p2 + t * p3 + t * p4 + t * p5)
        by (nonlinear_arith);
}

/// One term of such a difference.
proof fn lemma_one_difference(a: real, b: real, x: real, t: real)
    ensures
        (a - t * b) * x == a * x - t * (b * x),
{
    let p = t * b;
    assert((a - p) * x == a * x - p * x) by (nonlinear_arith);
    assert(t * b * x == t * (b * x)) by (nonlinear_arith);
}

/// The form is the form that is left, and a square over the pivot.
proof fn lemma_split_square<T: Scalar>(
    val: spec_fn(T) -> real,
    zero: T,
    s: Mat6<T>,
    r: int,
    x: Vec6<T>,
)
    requires
        exact(val),
        val(zero) == 0 as real,
        0 <= r < 6,
        val(s[r][r]) != 0 as real,
        transposed(s) == s,
    ensures
        ({
            let w = val(dot(zero, s[r], x));
            val(form(zero, s, x)) == val(form(zero, eliminated(zero, s, r), x)) + w * (w * ((
            1 as real) / val(s[r][r])))
        }),
{
    let m = eliminated(zero, s, r);
    let d = val(s[r][r]);
    let e = (1 as real) / d;
    let w = val(dot(zero, s[r], x));
    let u = image(zero, s, x);
    let y = image(zero, m, x);
    lemma_dot_terms(val, zero, s[r], x);
    assert forall|i: int| 0 <= i < 6 implies #[trigger] val(y[i]) == val(u[i]) - (val(s[r][i]) * e)
        * w by {
        lemma_dot_terms(val, zero, m[i], x);
        lemma_dot_terms(val, zero, s[i], x);
        lemma_eliminated_entry(val, zero, s, r, i, 0);
        lemma_eliminated_entry(val, zero, s, r, i, 1);
        lemma_eliminated_entry(val, zero, s, r, i, 2);
        lemma_eliminated_entry(val, zero, s, r, i, 3);
        lemma_eliminated_entry(val, zero, s, r, i, 4);
        lemma_eliminated_entry(val, zero, s, r, i, 5);
        let t = val(s[i][r]) / d;
        assert(transposed(s)[i][r] == s[r][i]);
        let b = val(s[i][r]);
        assert(b / d == b * e) by (nonlinear_arith)
            requires
                d != 0 as real,
                e == (1 as real) / d,
        ;
        lemma_row_difference(
            val(s[i][0]),
            val(s[i][1]),
            val(s[i][2]),
            val(s[i][3]),
            val(s[i][4]),
            val(s[i][5]),
            val(s[r][0]),
            val(s[r][1]),
            val(s[r][2]),
            val(s[r][3]),
            val(s[r][4]),
            val(s[r][5]),
            val(x[0]),
            val(x[1]),
            val(x[2]),
            val(x[3]),
            val(x[4]),
            val(x[5]),
            t,
        );
    }
    lemma_dot_terms(val, zero, y, x);
    lemma_dot_terms(val, zero, u, x);
    // y[i] = u[i] - w (s[r][i] e)
    let g = |i: int| val(s[r][i]) * e;
    assert forall|i: int| 0 <= i < 6 implies #[trigger] val(y[i]) == val(u[i]) - w * g(i) by {
        let b = g(i);
        assert(b * w == w * b) by (nonlinear_arith);
    }
    lemma_row_difference(
        val(u[0]),
        val(u[1]),
        val(u[2]),
        val(u[3]),
        val(u[4]),
        val(u[5]),
        g(0),
        g(1),
        g(2),
        g(3),
        g(4),
        g(5),
        val(x[0]),
        val(x[1]),
        val(x[2]),
        val(x[3]),
        val(x[4]),
        val(x[5]),
        w,
    );
    // sum of g(i) x[i] is w e
    lemma_six_scaled(
        val(x[0]),
        val(x[1]),
        val(x[2]),
        val(x[3]),
        val(x[4]),
        val(x[5]),
        val(s[r][0]),
        val(s[r][1]),
        val(s[r][2]),
        val(s[r][3]),
        val(s[r][4]),
        val(s[r][5]),
        e,
    );
    assert forall|i: int| 0 <= i < 6 implies #[trigger] g(i) * val(x[i]) == val(x[i]) * (val(
        s[r][i],
    ) * e) && val(x[i]) * val(s[r][i]) == val(s[r][i]) * val(x[i]) by {
        let a = val(x[i]);
        let b = g(i);
        let k = val(s[r][i]);
        assert(b * a == a * b) by (nonlinear_arith);
        assert(a * k == k * a) by (nonlinear_arith);
    }
}

/// A completed vector puts the square of the pivot to zero, and leaves the
/// rest of the form as it is.
proof fn lemma_completed<T: Scalar>(
    val: spec_fn(T) -> real,
    zero: T,
    s: Mat6<T>,
    r: int,
    x: Vec6<T>,
)
    requires
        exact(val),
        val(zero) == 0 as real,
        0 <= r < 6,
        val(s[r][r]) != 0 as real,
    ensures
        val(dot(zero, s[r], completed(zero, s, r, x))) == 0 as real,
        val(form(zero, eliminated(zero, s, r), completed(zero, s, r, x))) == val(
            form(zero, eliminated(zero, s, r), x),
        ),
{
    let m = eliminated(zero, s, r);
    let y = completed(zero, s, r, x);
    let z = cleared(zero, x, r);
    let d = val(s[r][r]);
    let t = val(dot(zero, s[r], z));
    lemma_dot_terms(val, zero, s[r], y);
    lemma_dot_terms(val, zero, s[r], z);
    assert(d * ((-t) / d) == -t && d * (0 as real) == 0 as real) by (nonlinear_arith)
        requires
            d != 0 as real,
    ;
    let u = image(zero, m, x);
    let w = image(zero, m, y);
    assert forall|i: int| 0 <= i < 6 implies #[trigger] val(w[i]) == val(u[i]) by {
        lemma_dot_terms(val, zero, m[i], x);
        lemma_dot_terms(val, zero, m[i], y);
        let (p, q) = (val(x[r]), val(y[r]));
        assert((0 as real) * p == 0 as real && (0 as real) * q == 0 as real) by (nonlinear_arith);
        assert(val(m[i][r]) == 0 as real);
    }
    assert(val(u[r]) == 0 as real) by {
        lemma_dot_terms(val, zero, m[r], x);
        assert forall|k: int| 0 <= k < 6 implies #[trigger] val(m[r][k]) * val(x[k])
            == 0 as real by {
            let p = val(x[k]);
            assert((0 as real) * p == 0 as real) by (nonlinear_arith);
        }
    }
    lemma_dot_terms(val, zero, u, x);
    lemma_dot_terms(val, zero, w, y);
    let (p, q) = (val(x[r]), val(y[r]));
    assert((0 as real) * p == 0 as real && (0 as real) * q == 0 as real) by (nonlinear_arith);
}

/// Every entry of a row is zero.
spec fn zero_row<T>(val: spec_fn(T) -> real, s: Mat6<T>, i: int) -> bool {
    &&& val(s[i][0]) == 0 as real
    &&& val(s[i][1]) == 0 as real
    &&& val(s[i][2]) == 0 as real
    &&& val(s[i][3]) == 0 as real
    &&& val(s[i][4]) == 0 as real
    &&& val(s[i][5]) == 0 as real
}

/// One for a row of zeros, else nothing.
spec fn zero_weight<T>(val: spec_fn(T) -> real, s: Mat6<T>, i: int) -> int {
    if zero_row(val, s, i) {
        1
    } else {
        0
    }
}

/// The number of rows of zeros.
spec fn zero_rows<T>(val: spec_fn(T) -> real, s: Mat6<T>) -> int {
    zero_weight(val, s, 0) + zero_weight(val, s, 1) + zero_weight(val, s, 2) + zero_weight(
        val,
        s,
        3,
    ) + zero_weight(val, s, 4) + zero_weight(val, s, 5)
}

/// An elimination makes one more row of zeros at least.
proof fn lemma_more_zero_rows<T: Scalar>(val: spec_fn(T) -> real, zero: T, s: Mat6<T>, r: int)
    requires
        exact(val),
        val(zero) == 0 as real,
        0 <= r < 6,
        val(s[r][r]) != 0 as real,
    ensures
        zero_rows(val, eliminated(zero, s, r)) >= zero_rows(val, s) + 1,
{
    let m = eliminated(zero, s, r);
    let d = val(s[r][r]);
    assert forall|i: int| 0 <= i < 6 && i != r implies #[trigger] zero_weight(val, s, i)
        <= zero_weight(val, m, i) by {
        if zero_row(val, s, i) {
            assert forall|j: int| 0 <= j < 6 implies val(#[trigger] m[i][j]) == 0 as real by {
                lemma_eliminated_entry(val, zero, s, r, i, j);
                let y = val(s[r][j]);
                assert(((0 as real) / d) * y == 0 as real) by (nonlinear_arith)
                    requires
                        d != 0 as real,
                ;
                assert(val(s[i][j]) == 0 as real);
                assert(val(s[i][r]) == 0 as real);
            }
            assert(zero_row(val, m, i));
        }
    }
    assert(!zero_row(val, s, r));
    assert(zero_row(val, m, r));
    assert(zero_weight(val, s, r) == 0 && zero_weight(val, m, r) == 1);
}

/// The largest diagonal entry is at the top index.
proof fn lemma_top_index<T: Scalar>(val: spec_fn(T) -> real, s: Mat6<T>, n: nat)
    requires
        ordered(val),
        1 <= n <= 6,
    ensures
        0 <= top_index(s, n) < n,
        forall|i: int|
            0 <= i < n ==> val(#[trigger] s[i][i]) <= val(s[top_index(s, n)][top_index(s, n)]),
    decreases n,
{
    if n > 1 {
        lemma_top_index(val, s, (n - 1) as nat);
    }
}

/// The first negative diagonal entry.
proof fn lemma_first_negative<T: Scalar>(val: spec_fn(T) -> real, zero: T, s: Mat6<T>, i: int)
    requires
        ordered(val),
        val(zero) == 0 as real,
        0 <= i <= 6,
    ensures
        ({
            let k = first_negative(zero, s, i);
            &&& i <= k <= 6
            &&& k < 6 ==> val(s[k][k]) < 0 as real
            &&& forall|n: int| i <= n < k ==> val(#[trigger] s[n][n]) >= 0 as real
        }),
    decreases 6 - i,
{
    if i < 6 && !less(s[i][i], zero) {
        lemma_first_negative(val, zero, s, i + 1);
    }
}

/// The first entry off the diagonal that is not zero.
proof fn lemma_first_coupled<T: Scalar>(val: spec_fn(T) -> real, zero: T, s: Mat6<T>, k: int)
    requires
        ordered(val),
        val(zero) == 0 as real,
        0 <= k <= 36,
    ensures
        ({
            let e = first_coupled(zero, s, k);
            &&& k <= e <= 36
            &&& e < 36 ==> e / 6 != e % 6 && val(s[e / 6][e % 6]) != 0 as real
            &&& forall|n: int|
                k <= n < e && n / 6 != n % 6 ==> val(#[trigger] s[n / 6][n % 6]) == 0 as real
        }),
    decreases 36 - k,
{
    if k < 36 && !(k / 6 != k % 6 && !same(s[k / 6][k % 6], zero)) {
        lemma_first_coupled(val, zero, s, k + 1);
    }
}

/// The dot product with a coordinate axis picks an entry.
pub(crate) proof fn lemma_axis_dot<T: Scalar>(
    val: spec_fn(T) -> real,
    c: Constants<T>,
    a: Vec6<T>,
    k: int,
)
    requires
        exact(val),
        units(val, c),
        0 <= k < 6,
    ensures
        val(dot(c.zero, a, axis(c, k))) == val(a[k]),
{
    let e = axis(c, k);
    lemma_dot_terms(val, c.zero, a, e);
    assert forall|n: int| 0 <= n < 6 implies #[trigger] val(a[n]) * val(e[n]) == if n == k {
        val(a[n])
    } else {
        0 as real
    } by {
        let x = val(a[n]);
        assert(x * (0 as real) == 0 as real && x * (1 as real) == x) by (nonlinear_arith);
    }
}

/// The dot product with a pair adds or subtracts two entries.
proof fn lemma_pair_dot<T: Scalar>(
    val: spec_fn(T) -> real,
    c: Constants<T>,
    a: Vec6<T>,
    i: int,
    j: int,
    opposed: bool,
)
    requires
        exact(val),
        units(val, c),
        0 <= i < 6,
        0 <= j < 6,
        i != j,
    ensures
        val(dot(c.zero, a, pair(c, i, j, opposed))) == if opposed {
            val(a[i]) - val(a[j])
        } else {
            val(a[i]) + val(a[j])
        },
{
    let e = pair(c, i, j, opposed);
    lemma_dot_terms(val, c.zero, a, e);
    assert forall|n: int| 0 <= n < 6 implies #[trigger] val(a[n]) * val(e[n]) == if n == i {
        val(a[n])
    } else if n == j {
        if opposed {
            -val(a[n])
        } else {
            val(a[n])
        }
    } else {
        0 as real
    } by {
        let x = val(a[n]);
        assert(x * (0 as real) == 0 as real && x * (1 as real) == x && x * (-(1 as real)) == -x)
            by (nonlinear_arith);
    }
}

/// The form of a matrix of zeros is zero.
proof fn lemma_zero_form<T: Scalar>(val: spec_fn(T) -> real, zero: T, s: Mat6<T>, x: Vec6<T>)
    requires
        exact(val),
        val(zero) == 0 as real,
        forall|i: int, j: int| 0 <= i < 6 && 0 <= j < 6 ==> val(#[trigger] s[i][j]) == 0 as real,
    ensures
        val(form(zero, s, x)) == 0 as real,
{
    let u = image(zero, s, x);
    assert forall|i: int| 0 <= i < 6 implies #[trigger] val(u[i]) == 0 as real by {
        lemma_dot_terms(val, zero, s[i], x);
        assert forall|k: int| 0 <= k < 6 implies #[trigger] val(s[i][k]) * val(x[k])
            == 0 as real by {
            let p = val(x[k]);
            assert((0 as real) * p == 0 as real) by (nonlinear_arith);
        }
    }
    lemma_dot_terms(val, zero, u, x);
    assert forall|k: int| 0 <= k < 6 implies #[trigger] val(u[k]) * val(x[k]) == 0 as real by {
        let p = val(x[k]);
        assert((0 as real) * p == 0 as real) by (nonlinear_arith);
    }
}

/// Without a positive diagonal entry, the flat direction decides.
proof fn lemma_flat_direction<T: Scalar>(val: spec_fn(T) -> real, c: Constants<T>, s: Mat6<T>)
    requires
        exact(val),
        ordered(val),
        units(val, c),
        transposed(s) == s,
        forall|i: int| 0 <= i < 6 ==> val(#[trigger] s[i][i]) <= 0 as real,
    ensures
        flat_direction(c, s) is None ==> semidefinite(val, c.zero, s),
        flat_direction(c, s) matches Some(x) ==> val(form(c.zero, s, x)) < 0 as real,
{
    lemma_first_negative(val, c.zero, s, 0);
    lemma_first_coupled(val, c.zero, s, 0);
    let i = first_negative(c.zero, s, 0);
    let k = first_coupled(c.zero, s, 0);
    if i < 6 {
        lemma_axis_dot(val, c, s[i], i);
        lemma_axis_dot(val, c, image(c.zero, s, axis(c, i)), i);
    } else if k < 36 {
        let (p, q) = (k / 6, k % 6);
        let opposed = less(c.zero, s[p][q]);
        let x = pair(c, p, q, opposed);
        assert(transposed(s)[q][p] == s[p][q]);
        lemma_pair_dot(val, c, s[p], p, q, opposed);
        lemma_pair_dot(val, c, s[q], p, q, opposed);
        lemma_pair_dot(val, c, image(c.zero, s, x), p, q, opposed);
        assert(val(s[p][p]) == 0 as real);
        assert(val(s[q][q]) == 0 as real);
    } else {
        assert forall|m: int, n: int| 0 <= m < 6 && 0 <= n < 6 implies val(#[trigger] s[m][n])
            == 0 as real by {
            if m == n {
                assert(val(s[m][m]) >= 0 as real);
            } else {
                let e = m * 6 + n;
                assert(e / 6 == m && e % 6 == n);
                assert(val(s[e / 6][e % 6]) == 0 as real);
            }
        }
        assert forall|v: Vec6<T>| #[trigger] val(dot(c.zero, image(c.zero, s, v), v))
            >= 0 as real by {
            lemma_zero_form(val, c.zero, s, v);
            assert(form(c.zero, s, v) == dot(c.zero, image(c.zero, s, v), v));
        }
    }
}

/// With as many eliminations as there may be rows left, the falling direction
/// decides: there is none exactly where the form is nowhere negative.
proof fn lemma_falling_direction<T: Scalar>(
    val: spec_fn(T) -> real,
    c: Constants<T>,
    s: Mat6<T>,
    steps: nat,
)
    requires
        exact(val),
        ordered(val),
        units(val, c),
        transposed(s) == s,
        zero_rows(val, s) >= 6 - steps,
    ensures
        falling_direction(c, s, steps) is None ==> semidefinite(val, c.zero, s),
        falling_direction(c, s, steps) matches Some(x) ==> val(form(c.zero, s, x)) < 0 as real,
    decreases steps,
{
    let r = top_index(s, 6);
    lemma_top_index(val, s, 6);
    if steps == 0 {
        assert(zero_row(val, s, 0) && zero_row(val, s, 1) && zero_row(val, s, 2));
        assert(zero_row(val, s, 3) && zero_row(val, s, 4) && zero_row(val, s, 5));
        lemma_flat_direction(val, c, s);
    } else if !less(c.zero, s[r][r]) {
        lemma_flat_direction(val, c, s);
    } else {
        let m = eliminated(c.zero, s, r);
        let d = val(s[r][r]);
        lemma_eliminated_symmetric(val, c.zero, s, r);
        lemma_more_zero_rows(val, c.zero, s, r);
        lemma_falling_direction(val, c, m, (steps - 1) as nat);
        match falling_direction(c, m, (steps - 1) as nat) {
            Some(x) => {
                let y = completed(c.zero, s, r, x);
                lemma_completed(val, c.zero, s, r, x);
                lemma_split_square(val, c.zero, s, r, y);
                let w = val(dot(c.zero, s[r], y));
                let e = (1 as real) / d;
                assert(w * (w * e) == 0 as real) by (nonlinear_arith)
                    requires
                        w == 0 as real,
                ;
            },
            None => {
                assert forall|v: Vec6<T>| #[trigger] val(dot(c.zero, image(c.zero, s, v), v))
                    >= 0 as real by {
                    lemma_split_square(val, c.zero, s, r, v);
                    let w = val(dot(c.zero, s[r], v));
                    let e = (1 as real) / d;
                    assert(e > 0 as real) by (nonlinear_arith)
                        requires
                            d > 0 as real,
                            e == (1 as real) / d,
                    ;
                    lemma_nonnegative(w);
                    let ww = w * w;
                    assert(w * (w * e) == ww * e) by (nonlinear_arith)
                        requires
                            ww == w * w,
                    ;
                    assert(ww * e >= 0 as real) by (nonlinear_arith)
                        requires
                            ww >= 0 as real,
                            e > 0 as real,
                    ;
                    assert(val(dot(c.zero, image(c.zero, m, v), v)) >= 0 as real);
                    assert(form(c.zero, s, v) == dot(c.zero, image(c.zero, s, v), v));
                    assert(form(c.zero, m, v) == dot(c.zero, image(c.zero, m, v), v));
                }
            },
        }
    }
}

/// As many eliminations are enough as there are rows before the rest, where
/// the rest are zero.
pub(crate) proof fn lemma_enough_eliminations<T: Scalar>(
    val: spec_fn(T) -> real,
    c: Constants<T>,
    s: Mat6<T>,
    steps: nat,
)
    requires
        exact(val),
        ordered(val),
        units(val, c),
        transposed(s) == s,
        forall|i: int, j: int|
            steps <= i < 6 && 0 <= j < 6 ==> val(#[trigger] s[i][j]) == 0 as real,
    ensures
        falling_direction(c, s, steps) is None ==> semidefinite(val, c.zero, s),
        falling_direction(c, s, steps) matches Some(x) ==> val(form(c.zero, s, x)) < 0 as real,
{
    assert forall|i: int| steps <= i < 6 implies #[trigger] zero_row(val, s, i) by {
        assert(val(s[i][0]) == 0 as real && val(s[i][1]) == 0 as real);
        assert(val(s[i][2]) == 0 as real && val(s[i][3]) == 0 as real);
        assert(val(s[i][4]) == 0 as real && val(s[i][5]) == 0 as real);
    }
    lemma_falling_direction(val, c, s, steps);
}

/// Six eliminations decide whether a symmetric matrix is positive
/// semidefinite. Where it is not, they give a vector at which its form is
/// negative.
pub proof fn elimination_decides_definiteness<T: Scalar>(
    val: spec_fn(T) -> real,
    c: Constants<T>,
    s: Mat6<T>,
)
    requires
        exact(val),
        ordered(val),
        units(val, c),
        transposed(s) == s,
    ensures
        falling_direction(c, s, 6) is None <==> semidefinite(val, c.zero, s),
        falling_direction(c, s, 6) matches Some(x) ==> val(form(c.zero, s, x)) < 0 as real,
{
    lemma_falling_direction(val, c, s, 6);
    if let Some(x) = falling_direction(c, s, 6) {
        assert(form(c.zero, s, x) == dot(c.zero, image(c.zero, s, x), x));
        assert(val(dot(c.zero, image(c.zero, s, x), x)) < 0 as real);
    }
}

} // verus!
