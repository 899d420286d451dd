//! Eigenvalues of symmetric 6x6 matrices.
//!
//! The power iteration finds a dominant eigenvector quickly, but only where
//! its start has a part along it and no other eigenvalue comes close in
//! magnitude. What it finds is therefore held against the extremes of the
//! quadratic form, which are bracketed by bisection: whether the form goes
//! below a given value is decided by elimination.

use vstd::prelude::*;
use vstd::std_specs::ops::{AddSpec, DivSpec, MulSpec, NegSpec, SubSpec};

use crate::constants::Constants;
use crate::definiteness::{axis, axis6, falling_direction, find_falling_direction};
use crate::linalg::{
    divided, dot, dot6, dot_from, image, lemma_mat6_ext, lemma_vec6_ext, mat6, mat6_vec_mul, norm,
    vec6, vec6_norm, Mat6, Vec6,
};
use crate::scalar::{
    abs, applied, apply, at_least, is_function, larger, lawful, less, magnitude, max, same, Scalar,
};

verus! {

/// `w - lambda v`.
pub open spec fn residual<T: Scalar>(w: Vec6<T>, lambda: T, v: Vec6<T>) -> Vec6<T> {
    vec6(|i: int| w[i].sub_spec(lambda.mul_spec(v[i])))
}

/// The eigenvalue that the step from `v` to its image `w` suggests: the norm
/// of `w`, with the sign of the projection of `w` on `v`.
pub open spec fn eigenvalue_estimate<T: Scalar, S: Fn(T) -> T>(
    c: Constants<T>,
    sqrt: S,
    v: Vec6<T>,
    w: Vec6<T>,
) -> T {
    let sign = if at_least(dot(c.zero, w, v), c.zero) {
        c.one
    } else {
        c.one.neg_spec()
    };
    sign.mul_spec(norm(c.zero, sqrt, w))
}

/// The step from `v` to its image `w` leaves a residual below `tol`, relative
/// to the eigenvalue estimate.
pub open spec fn converged<T: Scalar, S: Fn(T) -> T>(
    c: Constants<T>,
    sqrt: S,
    v: Vec6<T>,
    w: Vec6<T>,
    tol: T,
) -> bool {
    let lambda = eigenvalue_estimate(c, sqrt, v, w);
    less(
        norm(c.zero, sqrt, residual(w, lambda, v)).div_spec(magnitude(c.zero, lambda)),
        tol,
    )
}

/// The outcome of at most `steps` power iterations of `a` from `v`: the last
/// iterate, and whether its image vanished (its norm is below the floor).
///
/// An iteration replaces `v` by its normalised image. The iterations end when
/// the image vanishes, after the step that has converged, or when all are used.
pub open spec fn power_iterated<T: Scalar, S: Fn(T) -> T>(
    c: Constants<T>,
    sqrt: S,
    a: Mat6<T>,
    v: Vec6<T>,
    tol: T,
    steps: nat,
) -> (Vec6<T>, bool)
    decreases steps,
{
    if steps == 0 {
        (v, false)
    } else {
        let w = image(c.zero, a, v);
        let size = norm(c.zero, sqrt, w);
        if less(size, c.norm_floor) {
            (v, true)
        } else if converged(c, sqrt, v, w, tol) {
            (divided(w, size), false)
        } else {
            power_iterated(c, sqrt, a, divided(w, size), tol, (steps - 1) as nat)
        }
    }
}

/// The vector with equal entries and unit norm, where the power iteration starts.
pub open spec fn power_start<T: Scalar, S: Fn(T) -> T>(c: Constants<T>, sqrt: S) -> Vec6<T> {
    vec6(|i: int| c.one.div_spec(applied(sqrt, c.six)))
}

/// The sum of the squared entries of the first `n` rows, row by row.
pub open spec fn squares<T: Scalar>(zero: T, a: Mat6<T>, n: nat) -> T
    decreases n,
{
    if n == 0 {
        zero
    } else {
        dot_from(squares(zero, a, (n - 1) as nat), a[n - 1], a[n - 1], 6)
    }
}

/// The Frobenius norm.
pub open spec fn frobenius<T: Scalar, S: Fn(T) -> T>(c: Constants<T>, sqrt: S, a: Mat6<T>) -> T {
    applied(sqrt, squares(c.zero, a, 6))
}

/// `shift I - a`.
pub open spec fn shifted<T: Scalar>(shift: T, a: Mat6<T>) -> Mat6<T> {
    mat6(
        |i: int, j: int|
            if i == j {
                a[i][j].neg_spec().add_spec(shift)
            } else {
                a[i][j].neg_spec()
            },
    )
}

/// The largest of `zero` and the first `n` diagonal entries.
pub open spec fn largest_diagonal<T: Scalar>(zero: T, m: Mat6<T>, n: nat) -> T
    decreases n,
{
    if n == 0 {
        zero
    } else {
        larger(largest_diagonal(zero, m, (n - 1) as nat), m[n - 1][n - 1])
    }
}

/// The value of the quadratic form of `a` at `v`: the Rayleigh quotient, where
/// `v` has unit length.
pub open spec fn form<T: Scalar>(zero: T, a: Mat6<T>, v: Vec6<T>) -> T {
    dot(zero, image(zero, a, v), v)
}

/// The eigenpair that at most `max_iter` power iterations from `v` give. The
/// eigenvalue is the Rayleigh quotient of the last iterate, or zero where the
/// iterate's image vanished.
pub open spec fn power_pair<T: Scalar, S: Fn(T) -> T>(
    c: Constants<T>,
    sqrt: S,
    a: Mat6<T>,
    v: Vec6<T>,
    max_iter: nat,
    tol: T,
) -> (Vec6<T>, T) {
    let (u, vanished) = power_iterated(c, sqrt, a, v, tol, max_iter);
    if vanished {
        (u, c.zero)
    } else {
        (u, form(c.zero, a, u))
    }
}

/// The eigenpair of larger magnitude. The second is taken only if it is larger,
/// and by more than the relative tolerance, and not below the floor at which
/// an image counts as zero.
pub open spec fn stronger<T: Scalar>(
    c: Constants<T>,
    one: (Vec6<T>, T),
    other: (Vec6<T>, T),
    tol: T,
) -> (Vec6<T>, T) {
    let m = magnitude(c.zero, other.1);
    let known = magnitude(c.zero, one.1);
    if !less(m, c.norm_floor) && less(known, m) && less(tol.mul_spec(m), m.sub_spec(known)) {
        other
    } else {
        one
    }
}

/// The strongest eigenpair that the power iteration gives from the vector with
/// equal entries and from the first `n` coordinate axes.
pub open spec fn power_best<T: Scalar, S: Fn(T) -> T>(
    c: Constants<T>,
    sqrt: S,
    a: Mat6<T>,
    max_iter: nat,
    tol: T,
    n: nat,
) -> (Vec6<T>, T)
    decreases n,
{
    if n == 0 {
        power_pair(c, sqrt, a, power_start(c, sqrt), max_iter, tol)
    } else {
        stronger(
            c,
            power_best(c, sqrt, a, max_iter, tol, (n - 1) as nat),
            power_pair(c, sqrt, a, axis(c, n - 1), max_iter, tol),
            tol,
        )
    }
}

/// `a - p I`.
pub open spec fn lowered<T: Scalar>(p: T, a: Mat6<T>) -> Mat6<T> {
    mat6(
        |i: int, j: int|
            if i == j {
                a[i][j].sub_spec(p)
            } else {
                a[i][j]
            },
    )
}

/// `-a`.
pub open spec fn negated<T: Scalar>(a: Mat6<T>) -> Mat6<T> {
    mat6(|i: int, j: int| a[i][j].neg_spec())
}

/// What is known of the least value that a quadratic form takes at a vector of
/// unit length: it takes `value` at `vector`, and no value below `floor`.
#[derive(Clone, Copy, Debug, PartialEq)]
pub struct Bracket<T> {
    pub vector: Vec6<T>,
    pub value: T,
    pub floor: T,
}

/// The bracket after asking whether the form goes below `p`. If it does not,
/// `p` is a floor too; if it does, in a direction where it is lower than known so
/// far, that direction is kept.
pub open spec fn probed<T: Scalar, S: Fn(T) -> T>(
    c: Constants<T>,
    sqrt: S,
    a: Mat6<T>,
    b: Bracket<T>,
    p: T,
) -> Bracket<T> {
    match falling_direction(c, lowered(p, a), 6) {
        None => Bracket { vector: b.vector, value: b.value, floor: larger(b.floor, p) },
        Some(x) => {
            let u = divided(x, norm(c.zero, sqrt, x));
            let q = form(c.zero, a, u);
            if less(q, b.value) {
                Bracket { vector: u, value: q, floor: b.floor }
            } else {
                b
            }
        },
    }
}

/// The middle of a bracket.
pub open spec fn middle<T: Scalar>(c: Constants<T>, b: Bracket<T>) -> T {
    b.floor.add_spec(b.value).div_spec(c.one.add_spec(c.one))
}

/// The bracket after `n` halvings.
pub open spec fn bisected<T: Scalar, S: Fn(T) -> T>(
    c: Constants<T>,
    sqrt: S,
    a: Mat6<T>,
    b: Bracket<T>,
    n: nat,
) -> Bracket<T>
    decreases n,
{
    if n == 0 {
        b
    } else {
        bisected(c, sqrt, a, probed(c, sqrt, a, b, middle(c, b)), (n - 1) as nat)
    }
}

/// The largest negative eigenvalue of a covariance that is still more than
/// round-off, relative to its largest variance.
pub open spec fn tolerance<T: Scalar>(c: Constants<T>, a: Mat6<T>) -> T {
    c.round_off.neg_spec().mul_spec(larger(largest_diagonal(c.zero, a, 6), c.min_positive))
}

/// The bracket of the least value of the form of `a`, from what is known at
/// `v`. The negative Frobenius norm is a floor. The first question is asked at
/// the tolerance, so that an eigenvalue beyond round-off is never missed; 60
/// halvings follow.
pub open spec fn lowest<T: Scalar, S: Fn(T) -> T>(
    c: Constants<T>,
    sqrt: S,
    a: Mat6<T>,
    v: Vec6<T>,
) -> Bracket<T> {
    let start = Bracket {
        vector: v,
        value: form(c.zero, a, v),
        floor: frobenius(c, sqrt, a).neg_spec(),
    };
    bisected(c, sqrt, a, probed(c, sqrt, a, start, tolerance(c, a)), 60)
}

/// The eigenpair of largest magnitude: the strongest that the power iteration
/// gives, or the lower or upper extreme of the form where that is stronger.
/// Without an iteration, the start of the power iteration and its Rayleigh
/// quotient.
pub open spec fn dominant_eigenpair<T: Scalar, S: Fn(T) -> T>(
    c: Constants<T>,
    sqrt: S,
    a: Mat6<T>,
    max_iter: nat,
    tol: T,
) -> (Vec6<T>, T) {
    if max_iter == 0 {
        power_pair(c, sqrt, a, power_start(c, sqrt), 0, tol)
    } else {
        let best = power_best(c, sqrt, a, max_iter, tol, 6);
        let low = lowest(c, sqrt, a, best.0);
        let high = lowest(c, sqrt, negated(a), best.0);
        stronger(
            c,
            stronger(c, best, (low.vector, low.value), tol),
            (high.vector, high.value.neg_spec()),
            tol,
        )
    }
}

/// The least eigenvalue of a symmetric matrix: the least value of its form
/// that is found from the dominant eigenvector of `f I - a`, where `f` is the
/// Frobenius norm; zero where the norm is zero.
pub open spec fn least_eigenvalue<T: Scalar, S: Fn(T) -> T>(
    c: Constants<T>,
    sqrt: S,
    a: Mat6<T>,
) -> T {
    let f = frobenius(c, sqrt, a);
    if same(f, c.zero) {
        c.zero
    } else {
        let v = power_best(c, sqrt, shifted(f, a), 200, c.eigen_tolerance, 6).0;
        lowest(c, sqrt, a, v).value
    }
}

/// One power step from `v`, whose image is `w` with norm `size`: the
/// normalised image, and whether the step has converged.
fn power_step<T: Scalar, S: Fn(T) -> T>(
    c: &Constants<T>,
    sqrt: &S,
    v: &Vec6<T>,
    w: &Vec6<T>,
    size: T,
    tol: T,
) -> (r: (Vec6<T>, bool))
    requires
        lawful::<T>(),
        is_function(*sqrt),
        size == norm(c.zero, *sqrt, *w),
    ensures
        r.0 == divided(*w, size),
        r.1 == converged(*c, *sqrt, *v, *w, tol),
{
    let sign = if dot6(c.zero, w, v) >= c.zero {
        c.one
    } else {
        c.one.neg()
    };
    let lambda = sign * size;
    let mut rest = [c.zero; 6];
    let mut next = [c.zero; 6];
    let mut i: usize = 0;
    while i < 6
        invariant
            lawful::<T>(),
            i <= 6,
            forall|p: int| 0 <= p < i ==> #[trigger] rest[p] == residual(*w, lambda, *v)[p],
            forall|p: int| 0 <= p < i ==> #[trigger] next[p] == divided(*w, size)[p],
        decreases 6 - i,
    {
        rest[i] = w[i] - lambda * v[i];
        next[i] = w[i] / size;
        i = i + 1;
    }
    proof {
        lemma_vec6_ext(rest, residual(*w, lambda, *v));
        lemma_vec6_ext(next, divided(*w, size));
    }
    let done = vec6_norm(c.zero, sqrt, &rest) / abs(c.zero, lambda) < tol;
    (next, done)
}

/// The eigenpair that at most `max_iter` power iterations from `v` give.
fn power_from<T: Scalar, S: Fn(T) -> T>(
    c: &Constants<T>,
    sqrt: &S,
    a: &Mat6<T>,
    start: &Vec6<T>,
    max_iter: usize,
    tol: T,
) -> (r: (Vec6<T>, T))
    requires
        lawful::<T>(),
        is_function(*sqrt),
    ensures
        r == power_pair(*c, *sqrt, *a, *start, max_iter as nat, tol),
{
    let mut v = *start;
    let mut left: usize = max_iter;
    let mut done = false;
    while left > 0 && !done
        invariant
            lawful::<T>(),
            is_function(*sqrt),
            !done ==> power_iterated(*c, *sqrt, *a, v, tol, left as nat) == power_iterated(
                *c,
                *sqrt,
                *a,
                *start,
                tol,
                max_iter as nat,
            ),
            done ==> power_iterated(*c, *sqrt, *a, *start, tol, max_iter as nat) == (v, false),
        decreases left,
    {
        let w = mat6_vec_mul(c.zero, a, &v);
        let size = vec6_norm(c.zero, sqrt, &w);
        if size < c.norm_floor {
            return (v, c.zero);
        }
        let (next, met) = power_step(c, sqrt, &v, &w, size, tol);
        v = next;
        done = met;
        left = left - 1;
    }
    let lambda = form_at(c.zero, a, &v);
    (v, lambda)
}

/// The value of the quadratic form of `a` at `v`.
pub fn form_at<T: Scalar>(zero: T, a: &Mat6<T>, v: &Vec6<T>) -> (q: T)
    requires
        lawful::<T>(),
    ensures
        q == form(zero, *a, *v),
{
    dot6(zero, &mat6_vec_mul(zero, a, v), v)
}

/// The eigenpair of larger magnitude.
fn stronger_of<T: Scalar>(
    c: &Constants<T>,
    one: (Vec6<T>, T),
    other: (Vec6<T>, T),
    tol: T,
) -> (r: (Vec6<T>, T))
    requires
        lawful::<T>(),
    ensures
        r == stronger(*c, one, other, tol),
{
    let m = abs(c.zero, other.1);
    let known = abs(c.zero, one.1);
    if !(m < c.norm_floor) && known < m && tol * m < m - known {
        other
    } else {
        one
    }
}

/// The start of the power iteration.
fn equal_entries<T: Scalar, S: Fn(T) -> T>(c: &Constants<T>, sqrt: &S) -> (v: Vec6<T>)
    requires
        lawful::<T>(),
        is_function(*sqrt),
    ensures
        v == power_start(*c, *sqrt),
{
    let v = [c.one / apply(sqrt, c.six); 6];
    proof {
        lemma_vec6_ext(v, power_start(*c, *sqrt));
    }
    v
}

/// The strongest eigenpair that the power iteration gives from the vector with
/// equal entries and from the coordinate axes.
fn best_by_power<T: Scalar, S: Fn(T) -> T>(
    c: &Constants<T>,
    sqrt: &S,
    a: &Mat6<T>,
    max_iter: usize,
    tol: T,
) -> (r: (Vec6<T>, T))
    requires
        lawful::<T>(),
        is_function(*sqrt),
    ensures
        r == power_best(*c, *sqrt, *a, max_iter as nat, tol, 6),
{
    let mut best = power_from(c, sqrt, a, &equal_entries(c, sqrt), max_iter, tol);
    let mut n: usize = 0;
    while n < 6
        invariant
            lawful::<T>(),
            is_function(*sqrt),
            n <= 6,
            best == power_best(*c, *sqrt, *a, max_iter as nat, tol, n as nat),
        decreases 6 - n,
    {
        best = stronger_of(c, best, power_from(c, sqrt, a, &axis6(c, n), max_iter, tol), tol);
        n = n + 1;
    }
    best
}

/// The Frobenius norm.
fn frobenius_norm<T: Scalar, S: Fn(T) -> T>(c: &Constants<T>, sqrt: &S, a: &Mat6<T>) -> (f: T)
    requires
        lawful::<T>(),
        is_function(*sqrt),
    ensures
        f == frobenius(*c, *sqrt, *a),
{
    let mut sum = c.zero;
    let mut n: usize = 0;
    while n < 6
        invariant
            lawful::<T>(),
            n <= 6,
            sum == squares(c.zero, *a, n as nat),
        decreases 6 - n,
    {
        sum = dot6(sum, &a[n], &a[n]);
        n = n + 1;
    }
    apply(sqrt, sum)
}

/// `-a`.
fn negate<T: Scalar>(zero: T, a: &Mat6<T>) -> (m: Mat6<T>)
    requires
        lawful::<T>(),
    ensures
        m == negated(*a),
{
    let mut m = [[zero; 6]; 6];
    let mut i: usize = 0;
    while i < 6
        invariant
            lawful::<T>(),
            i <= 6,
            forall|p: int, q: int|
                0 <= p < i && 0 <= q < 6 ==> #[trigger] m[p][q] == negated(*a)[p][q],
        decreases 6 - i,
    {
        let mut j: usize = 0;
        while j < 6
            invariant
                lawful::<T>(),
                i < 6,
                j <= 6,
                forall|p: int, q: int|
                    (0 <= p < i && 0 <= q < 6) || (p == i && 0 <= q < j) ==> #[trigger] m[p][q]
                        == negated(*a)[p][q],
            decreases 6 - j,
        {
            m[i][j] = a[i][j].neg();
            j = j + 1;
        }
        i = i + 1;
    }
    proof {
        lemma_mat6_ext(m, negated(*a));
    }
    m
}

/// `shift I - a`.
fn shift<T: Scalar>(zero: T, f: T, a: &Mat6<T>) -> (m: Mat6<T>)
    requires
        lawful::<T>(),
    ensures
        m == shifted(f, *a),
{
    let mut m = negate(zero, a);
    let ghost start = m;
    let mut i: usize = 0;
    while i < 6
        invariant
            lawful::<T>(),
            i <= 6,
            start == negated(*a),
            forall|p: int, q: int|
                0 <= p < 6 && 0 <= q < 6 ==> #[trigger] m[p][q] == if p < i {
                    shifted(f, *a)[p][q]
                } else {
                    start[p][q]
                },
        decreases 6 - i,
    {
        m[i][i] = m[i][i] + f;
        i = i + 1;
    }
    proof {
        lemma_mat6_ext(m, shifted(f, *a));
    }
    m
}

/// `a - p I`.
fn lower<T: Scalar>(p: T, a: &Mat6<T>) -> (m: Mat6<T>)
    requires
        lawful::<T>(),
    ensures
        m == lowered(p, *a),
{
    let mut m = *a;
    let mut i: usize = 0;
    while i < 6
        invariant
            lawful::<T>(),
            i <= 6,
            forall|r: int, q: int|
                0 <= r < 6 && 0 <= q < 6 ==> #[trigger] m[r][q] == if r < i {
                    lowered(p, *a)[r][q]
                } else {
                    a[r][q]
                },
        decreases 6 - i,
    {
        m[i][i] = m[i][i] - p;
        i = i + 1;
    }
    proof {
        lemma_mat6_ext(m, lowered(p, *a));
    }
    m
}

/// The bracket after asking whether the form goes below `p`.
fn probe<T: Scalar, S: Fn(T) -> T>(
    c: &Constants<T>,
    sqrt: &S,
    a: &Mat6<T>,
    b: Bracket<T>,
    p: T,
) -> (r: Bracket<T>)
    requires
        lawful::<T>(),
        is_function(*sqrt),
    ensures
        r == probed(*c, *sqrt, *a, b, p),
{
    match find_falling_direction(c, &lower(p, a), 6) {
        None => Bracket { vector: b.vector, value: b.value, floor: max(b.floor, p) },
        Some(x) => {
            let size = vec6_norm(c.zero, sqrt, &x);
            let u = [
                x[0] / size,
                x[1] / size,
                x[2] / size,
                x[3] / size,
                x[4] / size,
                x[5] / size,
            ];
            proof {
                lemma_vec6_ext(u, divided(x, size));
            }
            let q = form_at(c.zero, a, &u);
            if q < b.value {
                Bracket { vector: u, value: q, floor: b.floor }
            } else {
                b
            }
        },
    }
}

/// The largest negative eigenvalue of a covariance that is still more than
/// round-off.
pub fn round_off_tolerance<T: Scalar>(c: &Constants<T>, a: &Mat6<T>) -> (t: T)
    requires
        lawful::<T>(),
    ensures
        t == tolerance(*c, *a),
{
    let mut top = c.zero;
    let mut i: usize = 0;
    while i < 6
        invariant
            lawful::<T>(),
            i <= 6,
            top == largest_diagonal(c.zero, *a, i as nat),
        decreases 6 - i,
    {
        top = max(top, a[i][i]);
        i = i + 1;
    }
    c.round_off.neg() * max(top, c.min_positive)
}

/// The bracket of the least value of the form of `a`, from what is known at
/// `v`.
pub fn bracket_lowest<T: Scalar, S: Fn(T) -> T>(
    c: &Constants<T>,
    sqrt: &S,
    a: &Mat6<T>,
    v: &Vec6<T>,
) -> (r: Bracket<T>)
    requires
        lawful::<T>(),
        is_function(*sqrt),
    ensures
        r == lowest(*c, *sqrt, *a, *v),
{
    let start = Bracket {
        vector: *v,
        value: form_at(c.zero, a, v),
        floor: frobenius_norm(c, sqrt, a).neg(),
    };
    let mut b = probe(c, sqrt, a, start, round_off_tolerance(c, a));
    let ghost first = b;
    let mut n: usize = 60;
    while n > 0
        invariant
            lawful::<T>(),
            is_function(*sqrt),
            n <= 60,
            bisected(*c, *sqrt, *a, b, n as nat) == bisected(*c, *sqrt, *a, first, 60),
        decreases n,
    {
        let p = (b.floor + b.value) / (c.one + c.one);
        b = probe(c, sqrt, a, b, p);
        n = n - 1;
    }
    b
}

/// The eigenvector and eigenvalue of largest magnitude of a symmetric 6x6
/// matrix.
///
/// At most `max_iter` power iterations run from each start, to the relative
/// residual `tol`. The eigenvector has unit length, and the eigenvalue is its
/// Rayleigh quotient.
pub fn mat6_eigenvector_max<T: Scalar, S: Fn(T) -> T>(
    c: &Constants<T>,
    sqrt: &S,
    a: &Mat6<T>,
    max_iter: usize,
    tol: T,
) -> (r: (Vec6<T>, T))
    requires
        lawful::<T>(),
        is_function(*sqrt),
    ensures
        r == dominant_eigenpair(*c, *sqrt, *a, max_iter as nat, tol),
{
    if max_iter == 0 {
        return power_from(c, sqrt, a, &equal_entries(c, sqrt), 0, tol);
    }
    let best = best_by_power(c, sqrt, a, max_iter, tol);
    let low = bracket_lowest(c, sqrt, a, &best.0);
    let high = bracket_lowest(c, sqrt, &negate(c.zero, a), &best.0);
    let lower = stronger_of(c, best, (low.vector, low.value), tol);
    stronger_of(c, lower, (high.vector, high.value.neg()), tol)
}

/// The least eigenvalue of a symmetric 6x6 matrix.
///
/// With `f` the Frobenius norm, which bounds the spectral radius, `f I - a` is
/// positive semidefinite, and its dominant eigenvector, which the power
/// iteration finds, is that of the least eigenvalue of `a`. Where the
/// iteration stops short of it, the form of `a` leads on.
pub fn mat6_min_eigenvalue_sym<T: Scalar, S: Fn(T) -> T>(
    c: &Constants<T>,
    sqrt: &S,
    a: &Mat6<T>,
) -> (l: T)
    requires
        lawful::<T>(),
        is_function(*sqrt),
    ensures
        l == least_eigenvalue(*c, *sqrt, *a),
{
    let f = frobenius_norm(c, sqrt, a);
    if f == c.zero {
        return c.zero;
    }
    let (v, _) = best_by_power(c, sqrt, &shift(c.zero, f, a), 200, c.eigen_tolerance);
    bracket_lowest(c, sqrt, a, &v).value
}

} // verus!
