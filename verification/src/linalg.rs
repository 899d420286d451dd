//! The 6x6 matrix routines.

use vstd::prelude::*;
use vstd::std_specs::ops::{AddSpec, DivSpec, MulSpec};

use crate::scalar::{applied, apply, is_function, lawful, Scalar};

verus! {

/// A 6-vector.
pub type Vec6<T> = [T; 6];

/// A 6x6 matrix, row-major.
pub type Mat6<T> = [[T; 6]; 6];

/// The 6-vector with entry `f(i)` at `i`.
pub open spec fn vec6<T>(f: spec_fn(int) -> T) -> Vec6<T> {
    [f(0), f(1), f(2), f(3), f(4), f(5)]
}

/// The 6x6 matrix with entry `f(i, j)` in row `i`, column `j`.
pub open spec fn mat6<T>(f: spec_fn(int, int) -> T) -> Mat6<T> {
    vec6(|i: int| vec6(|j: int| f(i, j)))
}

/// Column `j` of `m`.
pub open spec fn column<T>(m: Mat6<T>, j: int) -> Vec6<T> {
    vec6(|i: int| m[i][j])
}

/// `start` plus the first `n` products `a[0] b[0]`, `a[1] b[1]`, ..., added
/// one after the other from the left.
pub open spec fn dot_from<T: Scalar>(start: T, a: Vec6<T>, b: Vec6<T>, n: nat) -> T
    decreases n,
{
    if n == 0 {
        start
    } else {
        dot_from(start, a, b, (n - 1) as nat).add_spec(a[n - 1].mul_spec(b[n - 1]))
    }
}

/// The dot product of two 6-vectors, summed from `zero`.
pub open spec fn dot<T: Scalar>(zero: T, a: Vec6<T>, b: Vec6<T>) -> T {
    dot_from(zero, a, b, 6)
}

/// The matrix product: entry `(i, j)` is row `i` of `a` times column `j` of `b`.
pub open spec fn product<T: Scalar>(zero: T, a: Mat6<T>, b: Mat6<T>) -> Mat6<T> {
    mat6(|i: int, j: int| dot(zero, a[i], column(b, j)))
}

/// The transpose.
pub open spec fn transposed<T>(m: Mat6<T>) -> Mat6<T> {
    mat6(|i: int, j: int| m[j][i])
}

/// Two 6-vectors with equal entries are equal.
pub(crate) proof fn lemma_vec6_ext<T>(a: Vec6<T>, b: Vec6<T>)
    requires
        forall|i: int| 0 <= i < 6 ==> a[i] == b[i],
    ensures
        a == b,
{
    assert(a =~= b);
}

/// Two 6x6 matrices with equal entries are equal.
pub(crate) proof fn lemma_mat6_ext<T>(a: Mat6<T>, b: Mat6<T>)
    requires
        forall|i: int, j: int| 0 <= i < 6 && 0 <= j < 6 ==> a[i][j] == b[i][j],
    ensures
        a == b,
{
    assert forall|i: int| 0 <= i < 6 implies a[i] == b[i] by {
        lemma_vec6_ext(a[i], b[i]);
    }
    lemma_vec6_ext(a, b);
}

/// The dot product, added to `start` term by term.
pub fn dot6<T: Scalar>(start: T, a: &Vec6<T>, b: &Vec6<T>) -> (s: T)
    requires
        lawful::<T>(),
    ensures
        s == dot_from(start, *a, *b, 6),
{
    let mut s = start;
    let mut i: usize = 0;
    while i < 6
        invariant
            lawful::<T>(),
            i <= 6,
            s == dot_from(start, *a, *b, i as nat),
        decreases 6 - i,
    {
        s = s + a[i] * b[i];
        i = i + 1;
    }
    s
}

/// The product of two 6x6 matrices.
pub fn mat6_mul<T: Scalar>(zero: T, a: &Mat6<T>, b: &Mat6<T>) -> (c: Mat6<T>)
    requires
        lawful::<T>(),
    ensures
        c == product(zero, *a, *b),
{
    let t = mat6_transpose(zero, b);
    let mut c = [[zero; 6]; 6];
    let mut i: usize = 0;
    while i < 6
        invariant
            lawful::<T>(),
            i <= 6,
            t == transposed(*b),
            forall|p: int, q: int|
                0 <= p < i && 0 <= q < 6 ==> #[trigger] c[p][q] == product(zero, *a, *b)[p][q],
        decreases 6 - i,
    {
        let mut j: usize = 0;
        while j < 6
            invariant
                lawful::<T>(),
                i < 6,
                j <= 6,
                t == transposed(*b),
                forall|p: int, q: int|
                    (0 <= p < i && 0 <= q < 6) || (p == i && 0 <= q < j) ==> #[trigger] c[p][q]
                        == product(zero, *a, *b)[p][q],
            decreases 6 - j,
        {
            assert(t[j as int] == column(*b, j as int)) by {
                lemma_vec6_ext(t[j as int], column(*b, j as int));
            }
            c[i][j] = dot6(zero, &a[i], &t[j]);
            j = j + 1;
        }
        i = i + 1;
    }
    proof {
        lemma_mat6_ext(c, product(zero, *a, *b));
    }
    c
}

/// The transpose of a 6x6 matrix; `zero` only fills the matrix before its
/// entries are set.
pub fn mat6_transpose<T: Copy>(zero: T, m: &Mat6<T>) -> (t: Mat6<T>)
    ensures
        t == transposed(*m),
{
    let mut t = [[zero; 6]; 6];
    let mut i: usize = 0;
    while i < 6
        invariant
            i <= 6,
            forall|p: int, q: int| 0 <= p < i && 0 <= q < 6 ==> #[trigger] t[p][q] == m[q][p],
        decreases 6 - i,
    {
        let mut j: usize = 0;
        while j < 6
            invariant
                i < 6,
                j <= 6,
                forall|p: int, q: int|
                    (0 <= p < i && 0 <= q < 6) || (p == i && 0 <= q < j) ==> #[trigger] t[p][q]
                        == m[q][p],
            decreases 6 - j,
        {
            t[i][j] = m[j][i];
            j = j + 1;
        }
        i = i + 1;
    }
    proof {
        lemma_mat6_ext(t, transposed(*m));
    }
    t
}

/// The matrix times the vector.
pub open spec fn image<T: Scalar>(zero: T, a: Mat6<T>, v: Vec6<T>) -> Vec6<T> {
    vec6(|i: int| dot(zero, a[i], v))
}

/// The Euclidean norm, with `sqrt` for the square root.
pub open spec fn norm<T: Scalar, S: Fn(T) -> T>(zero: T, sqrt: S, v: Vec6<T>) -> T {
    applied(sqrt, dot(zero, v, v))
}

/// Every entry divided by `d`.
pub open spec fn divided<T: Scalar>(v: Vec6<T>, d: T) -> Vec6<T> {
    vec6(|i: int| v[i].div_spec(d))
}

/// The congruence `j sigma j^T`, which maps a covariance through a linear map.
pub open spec fn congruence<T: Scalar>(zero: T, j: Mat6<T>, sigma: Mat6<T>) -> Mat6<T> {
    product(zero, product(zero, j, sigma), transposed(j))
}

/// The matrix times the vector.
pub fn mat6_vec_mul<T: Scalar>(zero: T, a: &Mat6<T>, v: &Vec6<T>) -> (w: Vec6<T>)
    requires
        lawful::<T>(),
    ensures
        w == image(zero, *a, *v),
{
    let w = [
        dot6(zero, &a[0], v),
        dot6(zero, &a[1], v),
        dot6(zero, &a[2], v),
        dot6(zero, &a[3], v),
        dot6(zero, &a[4], v),
        dot6(zero, &a[5], v),
    ];
    proof {
        lemma_vec6_ext(w, image(zero, *a, *v));
    }
    w
}

/// The Euclidean norm of a 6-vector.
pub fn vec6_norm<T: Scalar, S: Fn(T) -> T>(zero: T, sqrt: &S, v: &Vec6<T>) -> (n: T)
    requires
        lawful::<T>(),
        is_function(*sqrt),
    ensures
        n == norm(zero, *sqrt, *v),
{
    apply(sqrt, dot6(zero, v, v))
}

/// The covariance `sigma` mapped through the linear map `jacobian`.
pub fn propagate_covariance_6x6<T: Scalar>(
    zero: T,
    jacobian: &Mat6<T>,
    sigma: &Mat6<T>,
) -> (p: Mat6<T>)
    requires
        lawful::<T>(),
    ensures
        p == congruence(zero, *jacobian, *sigma),
{
    let jt = mat6_transpose(zero, jacobian);
    let j_sigma = mat6_mul(zero, jacobian, sigma);
    mat6_mul(zero, &j_sigma, &jt)
}

} // verus!
