//! States in another frame and about another origin.

use vstd::prelude::*;
use vstd::std_specs::ops::SubSpec;

use crate::bodies::may_center;
use crate::constants::Constants;
use crate::engine::{AssistOrigin, BodyState, Reply};
use crate::linalg::{
    congruence, lemma_vec6_ext, mat6_transpose, propagate_covariance_6x6, transposed, vec6, Mat6,
    Vec6,
};
use crate::propagator::AssistPropagator;
use crate::rotation::{
    ecl_to_eq_6x6, ecliptic, ecliptic_to_equatorial, equatorial, equatorial_to_ecliptic, rotation,
};
use crate::scalar::{lawful, Scalar};
use crate::types::{
    cartesian, components, outcome, CartesianState, ErrorView, Frame, Origin, PropagatorError,
};

verus! {

/// The covariance `sigma` through the linear map `j`, where it is there.
pub open spec fn carried<T: Scalar>(zero: T, j: Mat6<T>, sigma: Option<Mat6<T>>) -> Option<
    Mat6<T>,
> {
    match sigma {
        Some(m) => Some(congruence(zero, j, m)),
        None => None,
    }
}

/// A state in another frame, about the same origin. The covariance turns with
/// it; the inverse of the rotation is its transpose.
pub open spec fn turned<T: Scalar>(
    c: Constants<T>,
    s: CartesianState<T>,
    frame: Frame,
) -> CartesianState<T> {
    match (s.frame, frame) {
        (Frame::EclipticJ2000, Frame::Equatorial) => cartesian(
            equatorial(c, components(s)),
            s.epoch,
            frame,
            s.origin,
            carried(c.zero, rotation(c), s.covariance),
        ),
        (Frame::Equatorial, Frame::EclipticJ2000) => cartesian(
            ecliptic(c, components(s)),
            s.epoch,
            frame,
            s.origin,
            carried(c.zero, transposed(rotation(c)), s.covariance),
        ),
        _ => s,
    }
}

/// A state in another frame, about the same origin.
pub fn turn<T: Scalar>(c: &Constants<T>, s: &CartesianState<T>, frame: Frame) -> (r: CartesianState<
    T,
>)
    requires
        lawful::<T>(),
    ensures
        r == turned(*c, *s, frame),
{
    match (s.frame, frame) {
        (Frame::EclipticJ2000, Frame::Equatorial) => {
            let covariance = match &s.covariance {
                Some(m) => Some(propagate_covariance_6x6(c.zero, &ecl_to_eq_6x6(c), m)),
                None => None,
            };
            CartesianState::from_array(
                ecliptic_to_equatorial(c, &s.to_array()),
                s.epoch,
                frame,
                s.origin,
                covariance,
            )
        },
        (Frame::Equatorial, Frame::EclipticJ2000) => {
            let covariance = match &s.covariance {
                Some(m) => Some(
                    propagate_covariance_6x6(
                        c.zero,
                        &mat6_transpose(c.zero, &ecl_to_eq_6x6(c)),
                        m,
                    ),
                ),
                None => None,
            };
            CartesianState::from_array(
                equatorial_to_ecliptic(c, &s.to_array()),
                s.epoch,
                frame,
                s.origin,
                covariance,
            )
        },
        (Frame::EclipticJ2000, Frame::EclipticJ2000) | (Frame::Equatorial, Frame::Equatorial) => *s,
    }
}

/// The difference of two 6-vectors.
pub open spec fn difference<T: Scalar>(a: Vec6<T>, b: Vec6<T>) -> Vec6<T> {
    vec6(|i: int| a[i].sub_spec(b[i]))
}

/// The difference of two 6-vectors.
pub fn vec6_sub<T: Scalar>(a: &Vec6<T>, b: &Vec6<T>) -> (d: Vec6<T>)
    requires
        lawful::<T>(),
    ensures
        d == difference(*a, *b),
{
    let d = [a[0] - b[0], a[1] - b[1], a[2] - b[2], a[3] - b[3], a[4] - b[4], a[5] - b[5]];
    proof {
        lemma_vec6_ext(d, difference(*a, *b));
    }
    d
}

/// How far the origin moves, in `frame`: `from` and `to` are the heliocentric
/// ecliptic states of the old and the new origin.
pub open spec fn offset<T: Scalar>(
    c: Constants<T>,
    frame: Frame,
    from: Vec6<T>,
    to: Vec6<T>,
) -> Vec6<T> {
    match frame {
        Frame::EclipticJ2000 => difference(to, from),
        Frame::Equatorial => equatorial(c, difference(to, from)),
    }
}

/// A state about another origin, in the same frame. The covariance stays.
pub open spec fn moved<T: Scalar>(
    c: Constants<T>,
    s: CartesianState<T>,
    origin: Origin,
    from: Vec6<T>,
    to: Vec6<T>,
) -> CartesianState<T> {
    cartesian(
        difference(components(s), offset(c, s.frame, from, to)),
        s.epoch,
        s.frame,
        origin,
        s.covariance,
    )
}

/// A state about another origin, in the same frame.
pub fn translate<T: Scalar>(
    c: &Constants<T>,
    s: &CartesianState<T>,
    origin: Origin,
    from: &Vec6<T>,
    to: &Vec6<T>,
) -> (r: CartesianState<T>)
    requires
        lawful::<T>(),
    ensures
        r == moved(*c, *s, origin, *from, *to),
{
    let ecl = vec6_sub(to, from);
    let shift = match s.frame {
        Frame::EclipticJ2000 => ecl,
        Frame::Equatorial => ecliptic_to_equatorial(c, &ecl),
    };
    CartesianState::from_array(
        vec6_sub(&s.to_array(), &shift),
        s.epoch,
        s.frame,
        origin,
        s.covariance,
    )
}

/// What moving `s` to `origin` may give, once the old origin was found at
/// `from`.
pub open spec fn may_arrive<
    D,
    T: Scalar,
    L: Fn(&D, &AssistOrigin, &[T], Option<usize>) -> Reply<BodyState<T>>,
>(
    p: AssistPropagator<T, D>,
    c: Constants<T>,
    s: CartesianState<T>,
    origin: Origin,
    locate: L,
    from: Vec6<T>,
    out: Result<CartesianState<T>, ErrorView>,
) -> bool {
    exists|to: Result<Vec6<T>, ErrorView>| #[trigger]
        may_center(p, c, origin, s.epoch, locate, to) && out == match to {
            Err(e) => Err(e),
            Ok(v) => Ok(moved(c, s, origin, from, v)),
        }
}

/// What moving `s` to `origin` may give: the old origin is looked up, then the
/// new one.
pub open spec fn may_move<
    D,
    T: Scalar,
    L: Fn(&D, &AssistOrigin, &[T], Option<usize>) -> Reply<BodyState<T>>,
>(
    p: AssistPropagator<T, D>,
    c: Constants<T>,
    s: CartesianState<T>,
    origin: Origin,
    locate: L,
    out: Result<CartesianState<T>, ErrorView>,
) -> bool {
    exists|from: Result<Vec6<T>, ErrorView>| #[trigger]
        may_center(p, c, s.origin, s.epoch, locate, from) && match from {
            Err(e) => out == Err::<CartesianState<T>, ErrorView>(e),
            Ok(v) => may_arrive(p, c, s, origin, locate, v, out),
        }
}

/// The results that [`AssistPropagator::transform_state`] may give. The state
/// is turned to the frame, then moved to the origin; where the origin is its
/// own, nothing is looked up.
pub open spec fn may_transform<
    D,
    T: Scalar,
    L: Fn(&D, &AssistOrigin, &[T], Option<usize>) -> Reply<BodyState<T>>,
>(
    p: AssistPropagator<T, D>,
    c: Constants<T>,
    s: CartesianState<T>,
    frame: Frame,
    origin: Origin,
    locate: L,
    out: Result<CartesianState<T>, ErrorView>,
) -> bool {
    if s.origin == origin {
        out == Ok::<CartesianState<T>, ErrorView>(turned(c, s, frame))
    } else {
        may_move(p, c, turned(c, s, frame), origin, locate, out)
    }
}

impl<T: Scalar, D> AssistPropagator<T, D> {
    /// A state in another frame and about another origin.
    pub fn transform_state<
        L: Fn(&D, &AssistOrigin, &[T], Option<usize>) -> Reply<BodyState<T>>,
    >(
        &self,
        state: &CartesianState<T>,
        target_frame: Frame,
        target_origin: Origin,
        c: &Constants<T>,
        locate: &L,
    ) -> (r: Result<CartesianState<T>, PropagatorError>)
        requires
            lawful::<T>(),
            forall|d: &D, o: &AssistOrigin, e: &[T], n: Option<usize>| #[trigger]
                locate.requires((d, o, e, n)),
        ensures
            may_transform(*self, *c, *state, target_frame, target_origin, *locate, outcome(r)),
    {
        let s = turn(c, state, target_frame);
        if s.origin == target_origin {
            return Ok(s);
        }
        let from = match self.origin_helio_ecl_state(s.origin, s.epoch, c, locate) {
            Err(e) => {
                assert(may_center(*self, *c, s.origin, s.epoch, *locate, Err(e@)));
                return Err(e);
            },
            Ok(v) => v,
        };
        assert(may_center(*self, *c, s.origin, s.epoch, *locate, Ok(from)));
        let to = match self.origin_helio_ecl_state(target_origin, s.epoch, c, locate) {
            Err(e) => {
                assert(may_center(*self, *c, target_origin, s.epoch, *locate, Err(e@)));
                return Err(e);
            },
            Ok(v) => v,
        };
        assert(may_center(*self, *c, target_origin, s.epoch, *locate, Ok(to)));
        Ok(translate(c, &s, target_origin, &from, &to))
    }
}

} // verus!
