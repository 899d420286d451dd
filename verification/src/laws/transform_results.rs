//! What a change of frame or origin does to a state, component by component.

use vstd::prelude::*;
use vstd::std_specs::ops::SubSpec;

use crate::bodies::may_center;
use crate::constants::Constants;
use crate::engine::{AssistOrigin, BodyState, Reply};
use crate::exact::{exact, lemma_sum_eq, sum};
use crate::laws::constancy::locates_once;
use crate::laws::entries::{
    mapped_covariance_entries, rotation_entries, sandwich, transpose_entries, turn_entry,
};
use crate::laws::frames::{lemma_center_is_settled, lemma_origins_of_transform};
use crate::laws::lookup_results::{
    origin_is_missing, origin_is_the_reply, origin_lookup_gives_the_reply,
};
use crate::linalg::{transposed, Mat6, Vec6};
use crate::propagator::AssistPropagator;
use crate::rotation::{ecliptic, equatorial, rotation};
use crate::scalar::Scalar;
use crate::transform::{may_arrive, may_transform, moved, turned};
use crate::types::{CartesianState, ErrorView, Frame, Origin};

verus! {

/// The value of component `k` of a state: the position, then the velocity.
pub open spec fn component<T>(val: spec_fn(T) -> real, s: CartesianState<T>, k: int) -> real {
    if k == 0 {
        val(s.x)
    } else if k == 1 {
        val(s.y)
    } else if k == 2 {
        val(s.z)
    } else if k == 3 {
        val(s.vx)
    } else if k == 4 {
        val(s.vy)
    } else {
        val(s.vz)
    }
}

/// Component `k` of `v` seen from the equatorial frame, where `v` is in the
/// ecliptic frame: both its position and its velocity are turned about the
/// x-axis by the angle of cosine `c` and sine `s`.
pub open spec fn seen_from_the_equator(
    c: real,
    s: real,
    v: spec_fn(int) -> real,
    k: int,
) -> real {
    if k == 1 {
        c * v(1) - s * v(2)
    } else if k == 2 {
        s * v(1) + c * v(2)
    } else if k == 4 {
        c * v(4) - s * v(5)
    } else if k == 5 {
        s * v(4) + c * v(5)
    } else {
        v(k)
    }
}

/// Component `k` of `v` seen from the ecliptic frame, where `v` is in the
/// equatorial frame: turned back by the same angle.
pub open spec fn seen_from_the_ecliptic(
    c: real,
    s: real,
    v: spec_fn(int) -> real,
    k: int,
) -> real {
    if k == 1 {
        c * v(1) + s * v(2)
    } else if k == 2 {
        c * v(2) - s * v(1)
    } else if k == 4 {
        c * v(4) + s * v(5)
    } else if k == 5 {
        c * v(5) - s * v(4)
    } else {
        v(k)
    }
}

/// Component `k` of the state `s` seen from `frame`.
pub open spec fn seen_from<T>(
    val: spec_fn(T) -> real,
    c: Constants<T>,
    s: CartesianState<T>,
    frame: Frame,
    k: int,
) -> real {
    let v = |j: int| component(val, s, j);
    if s.frame == frame {
        v(k)
    } else if frame == Frame::Equatorial {
        seen_from_the_equator(val(c.cos_eps), val(c.sin_eps), v, k)
    } else {
        seen_from_the_ecliptic(val(c.cos_eps), val(c.sin_eps), v, k)
    }
}

/// The rotation of six numbers to the equatorial frame.
pub proof fn rotation_to_the_equator<T: Scalar>(
    val: spec_fn(T) -> real,
    c: Constants<T>,
    s: Vec6<T>,
    k: int,
)
    requires
        exact(val),
        0 <= k < 6,
    ensures
        val(equatorial(c, s)[k]) == seen_from_the_equator(
            val(c.cos_eps),
            val(c.sin_eps),
            |j: int| val(s[j]),
            k,
        ),
{
}

/// The rotation of six numbers to the ecliptic frame.
pub proof fn rotation_to_the_ecliptic<T: Scalar>(
    val: spec_fn(T) -> real,
    c: Constants<T>,
    s: Vec6<T>,
    k: int,
)
    requires
        exact(val),
        0 <= k < 6,
    ensures
        val(ecliptic(c, s)[k]) == seen_from_the_ecliptic(
            val(c.cos_eps),
            val(c.sin_eps),
            |j: int| val(s[j]),
            k,
        ),
{
    let x = val(c.sin_eps);
    let y = val(s[1]);
    let z = val(s[4]);
    assert((-x) * y == -(x * y)) by (nonlinear_arith);
    assert((-x) * z == -(x * z)) by (nonlinear_arith);
}

/// What turning a state to a frame does to each component.
pub(crate) proof fn lemma_turned<T: Scalar>(
    val: spec_fn(T) -> real,
    c: Constants<T>,
    s: CartesianState<T>,
    frame: Frame,
    k: int,
)
    requires
        exact(val),
        0 <= k < 6,
    ensures
        component(val, turned(c, s, frame), k) == seen_from(val, c, s, frame, k),
{
    let x = val(c.sin_eps);
    let y = val(s.y);
    let z = val(s.vy);
    assert((-x) * y == -(x * y)) by (nonlinear_arith);
    assert((-x) * z == -(x * z)) by (nonlinear_arith);
}

/// A change of frame alone turns the position and the velocity of a state by
/// the obliquity, and leaves its epoch and its origin. The engine is not asked.
pub proof fn change_of_frame<
    D,
    T: Scalar,
    L: Fn(&D, &AssistOrigin, &[T], Option<usize>) -> Reply<BodyState<T>>,
>(
    val: spec_fn(T) -> real,
    p: AssistPropagator<T, D>,
    c: Constants<T>,
    s: CartesianState<T>,
    frame: Frame,
    locate: L,
    out: Result<CartesianState<T>, ErrorView>,
    k: int,
)
    requires
        exact(val),
        may_transform(p, c, s, frame, s.origin, locate, out),
        0 <= k < 6,
    ensures
        out matches Ok(r) && component(val, r, k) == seen_from(val, c, s, frame, k) && r.epoch
            == s.epoch && r.frame == frame && r.origin == s.origin,
{
    lemma_turned(val, c, s, frame, k);
}

/// A change of origin takes the way from the old origin to the new one off
/// the state, whether or not the state carries a covariance: with the origins
/// at `from` and `to`, component `k` of the result is component `k` of the
/// state, seen from the frame that is asked for, less `to - from` seen from
/// that frame. `from` and `to` are the heliocentric ecliptic states that the
/// engine has for the two origins at the state's epoch.
///
/// Returns `from` and `to`.
pub proof fn change_of_origin<
    D,
    T: Scalar,
    L: Fn(&D, &AssistOrigin, &[T], Option<usize>) -> Reply<BodyState<T>>,
>(
    val: spec_fn(T) -> real,
    p: AssistPropagator<T, D>,
    c: Constants<T>,
    s: CartesianState<T>,
    frame: Frame,
    origin: Origin,
    locate: L,
    r: CartesianState<T>,
) -> (at: (Vec6<T>, Vec6<T>))
    requires
        exact(val),
        s.origin != origin,
        may_transform(p, c, s, frame, origin, locate, Ok(r)),
    ensures
        origin_is_the_reply(p.data, c.zero, s.origin, s.epoch, locate, at.0),
        origin_is_the_reply(p.data, c.zero, origin, s.epoch, locate, at.1),
        frame == Frame::EclipticJ2000 ==> forall|k: int|
            0 <= k < 6 ==> #[trigger] component(val, r, k) == seen_from(val, c, s, frame, k) - (val(
                at.1[k],
            ) - val(at.0[k])),
        frame == Frame::Equatorial ==> forall|k: int|
            0 <= k < 6 ==> #[trigger] component(val, r, k) == seen_from(val, c, s, frame, k)
                - seen_from_the_equator(
                val(c.cos_eps),
                val(c.sin_eps),
                |j: int| val(at.1[j]) - val(at.0[j]),
                k,
            ),
        r.epoch == s.epoch,
        r.frame == frame,
        r.origin == origin,
{
    let at = lemma_origins_of_transform(p, c, s, frame, origin, locate, r);
    origin_lookup_gives_the_reply(p, c, s.origin, s.epoch, locate, Ok(at.0));
    origin_lookup_gives_the_reply(p, c, origin, s.epoch, locate, Ok(at.1));
    assert forall|k: int| 0 <= k < 6 implies component(val, turned(c, s, frame), k) == seen_from(
        val,
        c,
        s,
        frame,
        k,
    ) by {
        lemma_turned(val, c, s, frame, k);
    }
    at
}

/// To the bit, a state in the ecliptic frame that stays there is moved by the
/// difference of the origins, and by nothing else; exact arithmetic is not
/// needed.
///
/// Returns the places of the old and the new origin.
pub proof fn change_of_origin_to_the_bit<
    D,
    T: Scalar,
    L: Fn(&D, &AssistOrigin, &[T], Option<usize>) -> Reply<BodyState<T>>,
>(
    p: AssistPropagator<T, D>,
    c: Constants<T>,
    s: CartesianState<T>,
    origin: Origin,
    locate: L,
    r: CartesianState<T>,
) -> (at: (Vec6<T>, Vec6<T>))
    requires
        s.frame == Frame::EclipticJ2000,
        s.origin != origin,
        may_transform(p, c, s, Frame::EclipticJ2000, origin, locate, Ok(r)),
    ensures
        origin_is_the_reply(p.data, c.zero, s.origin, s.epoch, locate, at.0),
        origin_is_the_reply(p.data, c.zero, origin, s.epoch, locate, at.1),
        r.x == s.x.sub_spec(at.1[0].sub_spec(at.0[0])),
        r.y == s.y.sub_spec(at.1[1].sub_spec(at.0[1])),
        r.z == s.z.sub_spec(at.1[2].sub_spec(at.0[2])),
        r.vx == s.vx.sub_spec(at.1[3].sub_spec(at.0[3])),
        r.vy == s.vy.sub_spec(at.1[4].sub_spec(at.0[4])),
        r.vz == s.vz.sub_spec(at.1[5].sub_spec(at.0[5])),
        r.covariance == s.covariance,
{
    let at = lemma_origins_of_transform(
        p,
        c,
        s,
        Frame::EclipticJ2000,
        origin,
        locate,
        r,
    );
    origin_lookup_gives_the_reply(p, c, s.origin, s.epoch, locate, Ok(at.0));
    origin_lookup_gives_the_reply(p, c, origin, s.epoch, locate, Ok(at.1));
    at
}

/// Where a state goes does not depend on its covariance: of two states that
/// differ in their covariances alone, the results differ in their covariances
/// alone. Neither succeeds without the other.
pub proof fn covariance_does_not_move_a_state<
    D,
    T: Scalar,
    L: Fn(&D, &AssistOrigin, &[T], Option<usize>) -> Reply<BodyState<T>>,
>(
    p: AssistPropagator<T, D>,
    c: Constants<T>,
    s: CartesianState<T>,
    covariance: Option<Mat6<T>>,
    frame: Frame,
    origin: Origin,
    locate: L,
    r: CartesianState<T>,
    out: Result<CartesianState<T>, ErrorView>,
)
    requires
        locates_once(locate, p.data),
        may_transform(p, c, s, frame, origin, locate, Ok(r)),
        may_transform(
            p,
            c,
            CartesianState { covariance, ..s },
            frame,
            origin,
            locate,
            out,
        ),
    ensures
        out matches Ok(t) && t == (CartesianState { covariance: t.covariance, ..r }),
{
    let bare = CartesianState { covariance, ..s };
    let turned_bare = turned(c, bare, frame);
    if s.origin != origin {
        let at = lemma_origins_of_transform(p, c, s, frame, origin, locate, r);
        let a = choose|a: Result<Vec6<T>, ErrorView>| #[trigger]
            may_center(p, c, turned_bare.origin, turned_bare.epoch, locate, a) && match a {
                Err(e) => out == Err::<CartesianState<T>, ErrorView>(e),
                Ok(v) => may_arrive(p, c, turned_bare, origin, locate, v, out),
            };
        lemma_center_is_settled(p, c, s.origin, s.epoch, locate, a, Ok(at.0));
        let b = choose|b: Result<Vec6<T>, ErrorView>| #[trigger]
            may_center(p, c, origin, turned_bare.epoch, locate, b) && out == match b {
                Err(e) => Err(e),
                Ok(v) => Ok(moved(c, turned_bare, origin, at.0, v)),
            };
        lemma_center_is_settled(p, c, origin, s.epoch, locate, b, Ok(at.1));
    }
}

/// Entry `(i, m)` of `sigma` between a rotation and its transpose: the sum of
/// `t(i, k) sigma[k][l] t(m, l)` over all `k` and `l`.
pub open spec fn turned_entry<T>(
    val: spec_fn(T) -> real,
    t: spec_fn(int, int) -> real,
    sigma: Mat6<T>,
    i: int,
    m: int,
) -> real {
    sum(|l: int| sum(|k: int| t(i, k) * val(sigma[k][l]) * t(m, l), 6), 6)
}

/// Entries of a matrix stand for those of `t`.
pub(crate) proof fn lemma_turned_entry<T>(
    val: spec_fn(T) -> real,
    j: Mat6<T>,
    t: spec_fn(int, int) -> real,
    sigma: Mat6<T>,
    i: int,
    m: int,
)
    requires
        forall|a: int, b: int| 0 <= a < 6 && 0 <= b < 6 ==> val(#[trigger] j[a][b]) == t(a, b),
        0 <= i < 6,
        0 <= m < 6,
    ensures
        sandwich(val, j, sigma, i, m) == turned_entry(val, t, sigma, i, m),
{
    let f = |l: int| sum(|k: int| val(j[i][k]) * val(sigma[k][l]) * val(j[m][l]), 6);
    let g = |l: int| sum(|k: int| t(i, k) * val(sigma[k][l]) * t(m, l), 6);
    assert forall|l: int| 0 <= l < 6 implies #[trigger] f(l) == g(l) by {
        lemma_sum_eq(
            |k: int| val(j[i][k]) * val(sigma[k][l]) * val(j[m][l]),
            |k: int| t(i, k) * val(sigma[k][l]) * t(m, l),
            6,
        );
    }
    lemma_sum_eq(f, g, 6);
}

/// A covariance turns with the frame, entry by entry, and is not moved by a
/// change of origin: to the equatorial frame by the rotation on both sides,
/// back by its inverse.
pub proof fn covariance_turns_with_the_frame<
    D,
    T: Scalar,
    L: Fn(&D, &AssistOrigin, &[T], Option<usize>) -> Reply<BodyState<T>>,
>(
    val: spec_fn(T) -> real,
    p: AssistPropagator<T, D>,
    c: Constants<T>,
    s: CartesianState<T>,
    frame: Frame,
    origin: Origin,
    locate: L,
    r: CartesianState<T>,
    sigma: Mat6<T>,
)
    requires
        exact(val),
        val(c.zero) == 0 as real,
        val(c.one) == 1 as real,
        may_transform(p, c, s, frame, origin, locate, Ok(r)),
        s.covariance == Some(sigma),
    ensures
        r.covariance is Some,
        s.frame == frame ==> r.covariance == Some(sigma),
        s.frame == Frame::EclipticJ2000 && frame == Frame::Equatorial ==> forall|i: int, m: int|
            0 <= i < 6 && 0 <= m < 6 ==> val(#[trigger] r.covariance->Some_0[i][m])
                == turned_entry(
                val,
                |a: int, b: int| turn_entry(val(c.cos_eps), val(c.sin_eps), a, b),
                sigma,
                i,
                m,
            ),
        s.frame == Frame::Equatorial && frame == Frame::EclipticJ2000 ==> forall|i: int, m: int|
            0 <= i < 6 && 0 <= m < 6 ==> val(#[trigger] r.covariance->Some_0[i][m])
                == turned_entry(
                val,
                |a: int, b: int| turn_entry(val(c.cos_eps), val(c.sin_eps), b, a),
                sigma,
                i,
                m,
            ),
{
    assert(r.covariance == turned(c, s, frame).covariance) by {
        if s.origin != origin {
            let at = lemma_origins_of_transform(p, c, s, frame, origin, locate, r);
        }
    }
    let m = rotation(c);
    let mt = transposed(m);
    let there = |a: int, b: int| turn_entry(val(c.cos_eps), val(c.sin_eps), a, b);
    let back = |a: int, b: int| turn_entry(val(c.cos_eps), val(c.sin_eps), b, a);
    assert forall|a: int, b: int| 0 <= a < 6 && 0 <= b < 6 implies val(#[trigger] m[a][b]) == there(
        a,
        b,
    ) by {
        rotation_entries(val, c, a, b);
    }
    assert forall|a: int, b: int| 0 <= a < 6 && 0 <= b < 6 implies val(#[trigger] mt[a][b]) == back(
        a,
        b,
    ) by {
        transpose_entries(m, a, b);
        rotation_entries(val, c, b, a);
    }
    assert forall|i: int, k: int| 0 <= i < 6 && 0 <= k < 6 implies (s.frame != frame ==> val(
        #[trigger] r.covariance->Some_0[i][k],
    ) == turned_entry(
        val,
        if frame == Frame::Equatorial {
            there
        } else {
            back
        },
        sigma,
        i,
        k,
    )) by {
        mapped_covariance_entries(val, c.zero, m, sigma, i, k);
        mapped_covariance_entries(val, c.zero, mt, sigma, i, k);
        lemma_turned_entry(val, m, there, sigma, i, k);
        lemma_turned_entry(val, mt, back, sigma, i, k);
    }
}

/// A transform fails only where one of the two origins is missing: the old one,
/// which is looked up first, or the new one. Its error is returned. Within one
/// origin nothing is looked up, and nothing fails.
pub proof fn failed_transform<
    D,
    T: Scalar,
    L: Fn(&D, &AssistOrigin, &[T], Option<usize>) -> Reply<BodyState<T>>,
>(
    p: AssistPropagator<T, D>,
    c: Constants<T>,
    s: CartesianState<T>,
    frame: Frame,
    origin: Origin,
    locate: L,
    e: ErrorView,
)
    requires
        may_transform(p, c, s, frame, origin, locate, Err(e)),
    ensures
        s.origin != origin,
        origin_is_missing(p.data, s.origin, s.epoch, locate, e) || (origin_is_missing(
            p.data,
            origin,
            s.epoch,
            locate,
            e,
        ) && exists|from: Vec6<T>| #[trigger]
            origin_is_the_reply(p.data, c.zero, s.origin, s.epoch, locate, from)),
{
    let out = Err::<CartesianState<T>, ErrorView>(e);
    let t = turned(c, s, frame);
    let a = choose|a: Result<Vec6<T>, ErrorView>| #[trigger]
        may_center(p, c, t.origin, t.epoch, locate, a) && match a {
            Err(e) => out == Err::<CartesianState<T>, ErrorView>(e),
            Ok(v) => may_arrive(p, c, t, origin, locate, v, out),
        };
    origin_lookup_gives_the_reply(p, c, s.origin, s.epoch, locate, a);
    match a {
        Err(_) => {},
        Ok(from) => {
            let b = choose|b: Result<Vec6<T>, ErrorView>| #[trigger]
                may_center(p, c, origin, t.epoch, locate, b) && out == match b {
                    Err(e) => Err(e),
                    Ok(v) => Ok(moved(c, t, origin, from, v)),
                };
            origin_lookup_gives_the_reply(p, c, origin, s.epoch, locate, b);
        },
    }
}

} // verus!
