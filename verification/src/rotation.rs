//! Rotation between the ecliptic and the equatorial frame, about the x-axis by
//! the J2000 mean obliquity.

use vstd::prelude::*;
use vstd::std_specs::ops::{AddSpec, MulSpec, NegSpec, SubSpec};

use crate::constants::Constants;
use crate::linalg::{lemma_mat6_ext, lemma_vec6_ext, mat6, Mat6, Vec6};
use crate::scalar::{lawful, Scalar};

verus! {

/// An ecliptic state vector in the equatorial frame.
pub open spec fn equatorial<T: Scalar>(c: Constants<T>, s: Vec6<T>) -> Vec6<T> {
    [
        s[0],
        c.cos_eps.mul_spec(s[1]).sub_spec(c.sin_eps.mul_spec(s[2])),
        c.sin_eps.mul_spec(s[1]).add_spec(c.cos_eps.mul_spec(s[2])),
        s[3],
        c.cos_eps.mul_spec(s[4]).sub_spec(c.sin_eps.mul_spec(s[5])),
        c.sin_eps.mul_spec(s[4]).add_spec(c.cos_eps.mul_spec(s[5])),
    ]
}

/// An equatorial state vector in the ecliptic frame.
pub open spec fn ecliptic<T: Scalar>(c: Constants<T>, s: Vec6<T>) -> Vec6<T> {
    [
        s[0],
        c.cos_eps.mul_spec(s[1]).add_spec(c.sin_eps.mul_spec(s[2])),
        c.sin_eps.neg_spec().mul_spec(s[1]).add_spec(c.cos_eps.mul_spec(s[2])),
        s[3],
        c.cos_eps.mul_spec(s[4]).add_spec(c.sin_eps.mul_spec(s[5])),
        c.sin_eps.neg_spec().mul_spec(s[4]).add_spec(c.cos_eps.mul_spec(s[5])),
    ]
}

/// Entry `(i, j)` of the rotation from ecliptic to equatorial: two equal 3x3
/// blocks on the diagonal, one for the position and one for the velocity.
pub open spec fn rotation_entry<T: Scalar>(c: Constants<T>, i: int, j: int) -> T {
    if i / 3 != j / 3 {
        c.zero
    } else if i % 3 == 0 && j % 3 == 0 {
        c.one
    } else if i % 3 == 0 || j % 3 == 0 {
        c.zero
    } else if i == j {
        c.cos_eps
    } else if i < j {
        c.sin_eps.neg_spec()
    } else {
        c.sin_eps
    }
}

/// The rotation from ecliptic to equatorial as a matrix.
pub open spec fn rotation<T: Scalar>(c: Constants<T>) -> Mat6<T> {
    mat6(|i: int, j: int| rotation_entry(c, i, j))
}

/// Rotates a state vector from ecliptic to equatorial.
pub fn ecliptic_to_equatorial<T: Scalar>(c: &Constants<T>, s: &Vec6<T>) -> (r: Vec6<T>)
    requires
        lawful::<T>(),
    ensures
        r == equatorial(*c, *s),
{
    let r = [
        s[0],
        c.cos_eps * s[1] - c.sin_eps * s[2],
        c.sin_eps * s[1] + c.cos_eps * s[2],
        s[3],
        c.cos_eps * s[4] - c.sin_eps * s[5],
        c.sin_eps * s[4] + c.cos_eps * s[5],
    ];
    proof {
        lemma_vec6_ext(r, equatorial(*c, *s));
    }
    r
}

/// Rotates a state vector from equatorial to ecliptic.
pub fn equatorial_to_ecliptic<T: Scalar>(c: &Constants<T>, s: &Vec6<T>) -> (r: Vec6<T>)
    requires
        lawful::<T>(),
    ensures
        r == ecliptic(*c, *s),
{
    let neg_sin = c.sin_eps.neg();
    let r = [
        s[0],
        c.cos_eps * s[1] + c.sin_eps * s[2],
        neg_sin * s[1] + c.cos_eps * s[2],
        s[3],
        c.cos_eps * s[4] + c.sin_eps * s[5],
        neg_sin * s[4] + c.cos_eps * s[5],
    ];
    proof {
        lemma_vec6_ext(r, ecliptic(*c, *s));
    }
    r
}

/// The 6x6 rotation that takes ecliptic vectors to equatorial ones.
pub fn ecl_to_eq_6x6<T: Scalar>(c: &Constants<T>) -> (m: Mat6<T>)
    requires
        lawful::<T>(),
    ensures
        m == rotation(*c),
{
    let mut m = [[c.zero; 6]; 6];
    m[0][0] = c.one;
    m[1][1] = c.cos_eps;
    m[1][2] = c.sin_eps.neg();
    m[2][1] = c.sin_eps;
    m[2][2] = c.cos_eps;
    m[3][3] = c.one;
    m[4][4] = c.cos_eps;
    m[4][5] = c.sin_eps.neg();
    m[5][4] = c.sin_eps;
    m[5][5] = c.cos_eps;
    proof {
        lemma_mat6_ext(m, rotation(*c));
    }
    m
}

} // verus!
