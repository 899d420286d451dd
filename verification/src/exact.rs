//! Exact arithmetic: what the library's formulas give when no operation
//! rounds.
//!
//! A machine scalar rounds, so identities of algebra hold of it only up to
//! round-off. The laws that rest on such identities are stated of scalars that
//! stand for real numbers and compute on them without error.

use vstd::prelude::*;
use vstd::std_specs::ops::{AddSpec, DivSpec, MulSpec, NegSpec, SubSpec};

use crate::linalg::{
    column, dot, dot_from, lemma_mat6_ext, lemma_vec6_ext, product, transposed, Mat6, Vec6,
};
use crate::scalar::Scalar;

verus! {

/// Two scalars stand for one number.
pub open spec fn same_value<T>(val: spec_fn(T) -> real, x: T, y: T) -> bool {
    val(x) == val(y)
}

/// `val` gives each scalar the real number that it stands for; each number has
/// one scalar at most, and the operations are those of the real numbers.
pub open spec fn exact<T: Scalar>(val: spec_fn(T) -> real) -> bool {
    &&& forall|x: T, y: T| #[trigger] same_value(val, x, y) ==> x == y
    &&& forall|x: T, y: T| #[trigger] val(x.add_spec(y)) == val(x) + val(y)
    &&& forall|x: T, y: T| #[trigger] val(x.sub_spec(y)) == val(x) - val(y)
    &&& forall|x: T, y: T| #[trigger] val(x.mul_spec(y)) == val(x) * val(y)
    &&& forall|x: T, y: T|
        val(y) != 0 as real ==> #[trigger] val(x.div_spec(y)) == val(x) / val(y)
    &&& forall|x: T| #[trigger] val(x.neg_spec()) == -val(x)
}

/// The sum of `f(0)` to `f(n - 1)`.
pub open spec fn sum(f: spec_fn(int) -> real, n: nat) -> real
    decreases n,
{
    if n == 0 {
        0 as real
    } else {
        sum(f, (n - 1) as nat) + f(n - 1)
    }
}

/// Sums of equal terms are equal.
pub(crate) proof fn lemma_sum_eq(f: spec_fn(int) -> real, g: spec_fn(int) -> real, n: nat)
    requires
        forall|i: int| 0 <= i < n ==> #[trigger] f(i) == g(i),
    ensures
        sum(f, n) == sum(g, n),
    decreases n,
{
    if n > 0 {
        lemma_sum_eq(f, g, (n - 1) as nat);
    }
}

/// A factor common to all terms comes out of a sum.
pub(crate) proof fn lemma_sum_scale(f: spec_fn(int) -> real, k: real, n: nat)
    ensures
        sum(|i: int| f(i) * k, n) == sum(f, n) * k,
    decreases n,
{
    if n > 0 {
        let m = (n - 1) as nat;
        lemma_sum_scale(f, k, m);
        let a = sum(f, m);
        let b = f(n - 1);
        assert((a + b) * k == a * k + b * k) by (nonlinear_arith);
    } else {
        assert((0 as real) * k == 0 as real) by (nonlinear_arith);
    }
}

/// Two sums over the same range add term by term.
proof fn lemma_sum_add(f: spec_fn(int) -> real, g: spec_fn(int) -> real, n: nat)
    ensures
        sum(|i: int| f(i) + g(i), n) == sum(f, n) + sum(g, n),
    decreases n,
{
    if n > 0 {
        lemma_sum_add(f, g, (n - 1) as nat);
    }
}

/// A sum of zeros is zero.
pub(crate) proof fn lemma_sum_zero(f: spec_fn(int) -> real, n: nat)
    requires
        forall|i: int| 0 <= i < n ==> #[trigger] f(i) == 0 as real,
    ensures
        sum(f, n) == 0 as real,
    decreases n,
{
    if n > 0 {
        lemma_sum_zero(f, (n - 1) as nat);
    }
}

/// The order of two sums can be exchanged.
pub(crate) proof fn lemma_sum_swap(f: spec_fn(int, int) -> real, m: nat, n: nat)
    ensures
        sum(|i: int| sum(|j: int| f(i, j), n), m) == sum(|j: int| sum(|i: int| f(i, j), m), n),
    decreases m,
{
    let rows = |i: int| sum(|j: int| f(i, j), n);
    let columns = |j: int| sum(|i: int| f(i, j), m);
    if m == 0 {
        lemma_sum_zero(columns, n);
    } else {
        let k = (m - 1) as nat;
        lemma_sum_swap(f, k, n);
        let before = |j: int| sum(|i: int| f(i, j), k);
        let last = |j: int| f(m - 1, j);
        lemma_sum_add(before, last, n);
        assert forall|j: int| 0 <= j < n implies #[trigger] columns(j) == before(j) + last(j) by {
            let g = |i: int| f(i, j);
            assert(sum(g, m) == sum(g, k) + g(m - 1));
        }
        lemma_sum_eq(columns, |j: int| before(j) + last(j), n);
        assert(sum(rows, m) == sum(rows, k) + rows(m - 1));
        assert(rows(m - 1) == sum(last, n));
    }
}

/// The value of a dot product.
pub(crate) proof fn lemma_dot<T: Scalar>(val: spec_fn(T) -> real, zero: T, a: Vec6<T>, b: Vec6<T>, n: nat)
    requires
        exact(val),
        val(zero) == 0 as real,
        n <= 6,
    ensures
        val(dot_from(zero, a, b, n)) == sum(|k: int| val(a[k]) * val(b[k]), n),
    decreases n,
{
    if n > 0 {
        lemma_dot(val, zero, a, b, (n - 1) as nat);
    }
}

/// The value of a dot product, written out.
pub(crate) proof fn lemma_dot_terms<T: Scalar>(val: spec_fn(T) -> real, zero: T, a: Vec6<T>, b: Vec6<T>)
    requires
        exact(val),
        val(zero) == 0 as real,
    ensures
        val(dot(zero, a, b)) == val(a[0]) * val(b[0]) + val(a[1]) * val(b[1]) + val(a[2]) * val(
            b[2],
        ) + val(a[3]) * val(b[3]) + val(a[4]) * val(b[4]) + val(a[5]) * val(b[5]),
{
    reveal_with_fuel(dot_from, 7);
}

/// The value of an entry of a product.
pub(crate) proof fn lemma_product<T: Scalar>(
    val: spec_fn(T) -> real,
    zero: T,
    a: Mat6<T>,
    b: Mat6<T>,
    i: int,
    j: int,
)
    requires
        exact(val),
        val(zero) == 0 as real,
        0 <= i < 6,
        0 <= j < 6,
    ensures
        val(product(zero, a, b)[i][j]) == sum(|k: int| val(a[i][k]) * val(b[k][j]), 6),
{
    lemma_dot(val, zero, a[i], column(b, j), 6);
    lemma_sum_eq(
        |k: int| val(a[i][k]) * val(column(b, j)[k]),
        |k: int| val(a[i][k]) * val(b[k][j]),
        6,
    );
}

/// Matrices with entries of equal value are equal.
pub(crate) proof fn lemma_mat6_values<T: Scalar>(val: spec_fn(T) -> real, a: Mat6<T>, b: Mat6<T>)
    requires
        exact(val),
        forall|i: int, j: int| 0 <= i < 6 && 0 <= j < 6 ==> val(#[trigger] a[i][j]) == val(b[i][j]),
    ensures
        a == b,
{
    assert forall|i: int, j: int| 0 <= i < 6 && 0 <= j < 6 implies a[i][j] == b[i][j] by {
        assert(same_value(val, a[i][j], b[i][j]));
    }
    lemma_mat6_ext(a, b);
}

/// Vectors with entries of equal value are equal.
pub(crate) proof fn lemma_vec6_values<T: Scalar>(val: spec_fn(T) -> real, a: Vec6<T>, b: Vec6<T>)
    requires
        exact(val),
        forall|i: int| 0 <= i < 6 ==> val(#[trigger] a[i]) == val(b[i]),
    ensures
        a == b,
{
    assert forall|i: int| 0 <= i < 6 implies a[i] == b[i] by {
        assert(same_value(val, a[i], b[i]));
    }
    lemma_vec6_ext(a, b);
}

/// The matrix product is associative.
pub(crate) proof fn lemma_product_assoc<T: Scalar>(
    val: spec_fn(T) -> real,
    zero: T,
    a: Mat6<T>,
    b: Mat6<T>,
    c: Mat6<T>,
)
    requires
        exact(val),
        val(zero) == 0 as real,
    ensures
        product(zero, product(zero, a, b), c) == product(zero, a, product(zero, b, c)),
{
    let ab = product(zero, a, b);
    let bc = product(zero, b, c);
    let left = product(zero, ab, c);
    let right = product(zero, a, bc);
    assert forall|i: int, j: int| 0 <= i < 6 && 0 <= j < 6 implies val(#[trigger] left[i][j])
        == val(right[i][j]) by {
        let f = |k: int, l: int| val(a[i][l]) * val(b[l][k]) * val(c[k][j]);
        lemma_product(val, zero, ab, c, i, j);
        lemma_product(val, zero, a, bc, i, j);
        let p = |k: int| val(ab[i][k]) * val(c[k][j]);
        let p_terms = |k: int| sum(|l: int| f(k, l), 6);
        assert forall|k: int| 0 <= k < 6 implies #[trigger] p(k) == p_terms(k) by {
            let g = |l: int| val(a[i][l]) * val(b[l][k]);
            lemma_product(val, zero, a, b, i, k);
            lemma_sum_scale(g, val(c[k][j]), 6);
            lemma_sum_eq(|l: int| g(l) * val(c[k][j]), |l: int| f(k, l), 6);
        }
        lemma_sum_eq(p, p_terms, 6);
        let q = |l: int| val(a[i][l]) * val(bc[l][j]);
        let q_terms = |l: int| sum(|k: int| f(k, l), 6);
        assert forall|l: int| 0 <= l < 6 implies #[trigger] q(l) == q_terms(l) by {
            let x = val(a[i][l]);
            let g = |k: int| val(b[l][k]) * val(c[k][j]);
            lemma_product(val, zero, b, c, l, j);
            lemma_sum_scale(g, x, 6);
            let s = sum(g, 6);
            assert(x * s == s * x) by (nonlinear_arith);
            let g_x = |k: int| g(k) * x;
            let f_l = |k: int| f(k, l);
            assert forall|k: int| 0 <= k < 6 implies #[trigger] g_x(k) == f_l(k) by {
                let y = val(b[l][k]);
                let z = val(c[k][j]);
                assert(y * z * x == x * y * z) by (nonlinear_arith);
            }
            lemma_sum_eq(g_x, f_l, 6);
        }
        lemma_sum_eq(q, q_terms, 6);
        lemma_sum_swap(f, 6, 6);
    }
    lemma_mat6_values(val, left, right);
}

/// The transpose of a product is the product of the transposes, reversed.
pub(crate) proof fn lemma_transposed_product<T: Scalar>(
    val: spec_fn(T) -> real,
    zero: T,
    a: Mat6<T>,
    b: Mat6<T>,
)
    requires
        exact(val),
        val(zero) == 0 as real,
    ensures
        transposed(product(zero, a, b)) == product(zero, transposed(b), transposed(a)),
{
    let left = transposed(product(zero, a, b));
    let right = product(zero, transposed(b), transposed(a));
    assert forall|i: int, j: int| 0 <= i < 6 && 0 <= j < 6 implies val(#[trigger] left[i][j])
        == val(right[i][j]) by {
        lemma_product(val, zero, a, b, j, i);
        lemma_product(val, zero, transposed(b), transposed(a), i, j);
        let f = |k: int| val(a[j][k]) * val(b[k][i]);
        let g = |k: int| val(transposed(b)[i][k]) * val(transposed(a)[k][j]);
        assert forall|k: int| 0 <= k < 6 implies #[trigger] f(k) == g(k) by {
            let x = val(a[j][k]);
            let y = val(b[k][i]);
            assert(x * y == y * x) by (nonlinear_arith);
        }
        lemma_sum_eq(f, g, 6);
    }
    lemma_mat6_values(val, left, right);
}

} // verus!
