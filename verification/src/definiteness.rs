//! Whether the quadratic form of a symmetric 6x6 matrix takes a negative
//! value, and where.
//!
//! The matrix is reduced by symmetric elimination, largest pivot first. Each
//! pivot splits a square off the form; what is left after the last one decides.

use vstd::prelude::*;
use vstd::std_specs::ops::{DivSpec, MulSpec, NegSpec, SubSpec};

use crate::constants::Constants;
use crate::linalg::{
    dot, dot6, lemma_mat6_ext, lemma_vec6_ext, mat6, vec6, Mat6, Vec6,
};
use crate::scalar::{lawful, less, same, Scalar};

verus! {

/// The unit vector along coordinate `k`.
pub open spec fn axis<T>(c: Constants<T>, k: int) -> Vec6<T> {
    vec6(
        |i: int|
            if i == k {
                c.one
            } else {
                c.zero
            },
    )
}

/// The unit vector along coordinate `k`.
pub fn axis6<T: Copy>(c: &Constants<T>, k: usize) -> (v: Vec6<T>)
    requires
        k < 6,
    ensures
        v == axis(*c, k as int),
{
    let mut v = [c.zero; 6];
    v[k] = c.one;
    proof {
        lemma_vec6_ext(v, axis(*c, k as int));
    }
    v
}

/// The first index with the largest of the first `n` diagonal entries.
pub open spec fn top_index<T: Scalar>(s: Mat6<T>, n: nat) -> int
    decreases n,
{
    if n <= 1 {
        0
    } else {
        let k = top_index(s, (n - 1) as nat);
        if less(s[k][k], s[n - 1][n - 1]) {
            n - 1
        } else {
            k
        }
    }
}

/// What is left of the form once the square of pivot `r` is split off: row and
/// column `r` vanish.
pub open spec fn eliminated<T: Scalar>(zero: T, s: Mat6<T>, r: int) -> Mat6<T> {
    mat6(
        |i: int, j: int|
            if i == r || j == r {
                zero
            } else {
                s[i][j].sub_spec(s[i][r].div_spec(s[r][r]).mul_spec(s[r][j]))
            },
    )
}

/// A vector with entry `r` replaced by zero.
pub open spec fn cleared<T>(zero: T, x: Vec6<T>, r: int) -> Vec6<T> {
    vec6(
        |i: int|
            if i == r {
                zero
            } else {
                x[i]
            },
    )
}

/// A vector with entry `r` chosen so that the square of pivot `r` vanishes.
pub open spec fn completed<T: Scalar>(zero: T, s: Mat6<T>, r: int, x: Vec6<T>) -> Vec6<T> {
    vec6(
        |i: int|
            if i == r {
                dot(zero, s[r], cleared(zero, x, r)).neg_spec().div_spec(s[r][r])
            } else {
                x[i]
            },
    )
}

/// The first index from `i` on with a negative diagonal entry, or 6.
pub open spec fn first_negative<T: Scalar>(zero: T, s: Mat6<T>, i: int) -> int
    decreases 6 - i,
{
    if i >= 6 {
        6
    } else if less(s[i][i], zero) {
        i
    } else {
        first_negative(zero, s, i + 1)
    }
}

/// The first place from `k` on, counted row by row, with an entry off the
/// diagonal that is not zero; or 36.
pub open spec fn first_coupled<T: Scalar>(zero: T, s: Mat6<T>, k: int) -> int
    decreases 36 - k,
{
    if k >= 36 {
        36
    } else if k / 6 != k % 6 && !same(s[k / 6][k % 6], zero) {
        k
    } else {
        first_coupled(zero, s, k + 1)
    }
}

/// The vector with entries at `i` and `j` alone, of opposite sign if `opposed`.
pub open spec fn pair<T: Scalar>(c: Constants<T>, i: int, j: int, opposed: bool) -> Vec6<T> {
    vec6(
        |n: int|
            if n == i {
                c.one
            } else if n == j {
                if opposed {
                    c.one.neg_spec()
                } else {
                    c.one
                }
            } else {
                c.zero
            },
    )
}

/// A direction in which the form falls, for a matrix without a positive
/// diagonal entry: along a negative diagonal entry, or across an entry off a
/// diagonal of zeros.
pub open spec fn flat_direction<T: Scalar>(c: Constants<T>, s: Mat6<T>) -> Option<Vec6<T>> {
    let i = first_negative(c.zero, s, 0);
    let k = first_coupled(c.zero, s, 0);
    if i < 6 {
        Some(axis(c, i))
    } else if k < 36 {
        Some(pair(c, k / 6, k % 6, less(c.zero, s[k / 6][k % 6])))
    } else {
        None
    }
}

/// A direction in which the form of a symmetric matrix is negative, where
/// there is one, by at most `steps` eliminations.
pub open spec fn falling_direction<T: Scalar>(
    c: Constants<T>,
    s: Mat6<T>,
    steps: nat,
) -> Option<Vec6<T>>
    decreases steps,
{
    let r = top_index(s, 6);
    if steps == 0 || !less(c.zero, s[r][r]) {
        flat_direction(c, s)
    } else {
        match falling_direction(c, eliminated(c.zero, s, r), (steps - 1) as nat) {
            Some(x) => Some(completed(c.zero, s, r, x)),
            None => None,
        }
    }
}

/// The index of a largest diagonal entry.
fn pivot_index<T: Scalar>(s: &Mat6<T>) -> (r: usize)
    requires
        lawful::<T>(),
    ensures
        r < 6,
        r == top_index(*s, 6),
{
    let mut r: usize = 0;
    let mut n: usize = 1;
    while n < 6
        invariant
            lawful::<T>(),
            1 <= n <= 6,
            r < n,
            r == top_index(*s, n as nat),
        decreases 6 - n,
    {
        if s[r][r] < s[n][n] {
            r = n;
        }
        n = n + 1;
    }
    r
}

/// What is left of the form once the square of pivot `r` is split off.
fn eliminate<T: Scalar>(zero: T, s: &Mat6<T>, r: usize) -> (m: Mat6<T>)
    requires
        lawful::<T>(),
        r < 6,
    ensures
        m == eliminated(zero, *s, r as int),
{
    let mut m = [[zero; 6]; 6];
    let mut i: usize = 0;
    while i < 6
        invariant
            lawful::<T>(),
            r < 6,
            i <= 6,
            forall|p: int, q: int|
                0 <= p < i && 0 <= q < 6 ==> #[trigger] m[p][q] == eliminated(
                    zero,
                    *s,
                    r as int,
                )[p][q],
        decreases 6 - i,
    {
        let mut j: usize = 0;
        while j < 6
            invariant
                lawful::<T>(),
                r < 6,
                i < 6,
                j <= 6,
                forall|p: int, q: int|
                    (0 <= p < i && 0 <= q < 6) || (p == i && 0 <= q < j) ==> #[trigger] m[p][q]
                        == eliminated(zero, *s, r as int)[p][q],
            decreases 6 - j,
        {
            m[i][j] = if i == r || j == r {
                zero
            } else {
                s[i][j] - s[i][r] / s[r][r] * s[r][j]
            };
            j = j + 1;
        }
        i = i + 1;
    }
    proof {
        lemma_mat6_ext(m, eliminated(zero, *s, r as int));
    }
    m
}

/// A vector with entry `r` chosen so that the square of pivot `r` vanishes.
fn complete<T: Scalar>(zero: T, s: &Mat6<T>, r: usize, x: &Vec6<T>) -> (y: Vec6<T>)
    requires
        lawful::<T>(),
        r < 6,
    ensures
        y == completed(zero, *s, r as int, *x),
{
    let mut y = *x;
    y[r] = zero;
    proof {
        lemma_vec6_ext(y, cleared(zero, *x, r as int));
    }
    let rest = dot6(zero, &s[r], &y);
    y[r] = rest.neg() / s[r][r];
    proof {
        lemma_vec6_ext(y, completed(zero, *s, r as int, *x));
    }
    y
}

/// A direction in which the form falls, for a matrix without a positive
/// diagonal entry.
fn find_flat_direction<T: Scalar>(c: &Constants<T>, s: &Mat6<T>) -> (d: Option<Vec6<T>>)
    requires
        lawful::<T>(),
    ensures
        d == flat_direction(*c, *s),
{
    let mut i: usize = 0;
    while i < 6
        invariant
            lawful::<T>(),
            i <= 6,
            first_negative(c.zero, *s, 0) == first_negative(c.zero, *s, i as int),
        decreases 6 - i,
    {
        if s[i][i] < c.zero {
            return Some(axis6(c, i));
        }
        i = i + 1;
    }
    let mut k: usize = 0;
    while k < 36
        invariant
            lawful::<T>(),
            k <= 36,
            first_negative(c.zero, *s, 0) == 6,
            first_coupled(c.zero, *s, 0) == first_coupled(c.zero, *s, k as int),
        decreases 36 - k,
    {
        let i: usize = k / 6;
        let j: usize = k % 6;
        if i != j && s[i][j] != c.zero {
            let opposed = c.zero < s[i][j];
            let mut v = [c.zero; 6];
            v[j] = if opposed {
                c.one.neg()
            } else {
                c.one
            };
            v[i] = c.one;
            proof {
                lemma_vec6_ext(v, pair(*c, i as int, j as int, opposed));
            }
            return Some(v);
        }
        k = k + 1;
    }
    None
}

/// A direction in which the form of a symmetric matrix is negative, where
/// there is one, by at most `steps` eliminations. Six are enough.
pub fn find_falling_direction<T: Scalar>(c: &Constants<T>, s: &Mat6<T>, steps: usize) -> (d: Option<
    Vec6<T>,
>)
    requires
        lawful::<T>(),
    ensures
        d == falling_direction(*c, *s, steps as nat),
    decreases steps,
{
    let r = pivot_index(s);
    if steps == 0 || !(c.zero < s[r][r]) {
        return find_flat_direction(c, s);
    }
    match find_falling_direction(c, &eliminate(c.zero, s, r), steps - 1) {
        Some(x) => Some(complete(c.zero, s, r, &x)),
        None => None,
    }
}

} // verus!
