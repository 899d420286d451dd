//! What a propagation hands to the engine, and what it makes of the reply.

use vstd::prelude::*;

use crate::constants::Constants;
use crate::engine::{integrated, AssistOrbit, IntegratedState, IntegratorConfig, Reply};
use crate::exact::exact;
use crate::laws::eigen::{eigen_constants, halved};
use crate::laws::entries::{mapped_covariance_entries, quadratic, sandwich};
use crate::laws::forms::{ordered, roots};
use crate::laws::covariance::covariance_stays_symmetric;
use crate::laws::tags::{
    entries_squared, is_scale, length_squared, reported_eigenvalue_is_the_least, symmetric,
    tag_tells_definiteness,
};
use crate::linalg::{congruence, lemma_mat6_ext, transposed, Mat6, Vec6};
use crate::propagator::{may_propagate, propagate_outcome, quality, wants_stm, AssistPropagator};
use crate::requests::orbit_outcome;
use crate::scalar::Scalar;
use crate::types::{
    CovarianceKind, CovarianceQuality, ErrorView, Frame, IntegratorProfile, Origin, PropagatedState,
    PropagationConfig, TestOrbit,
};

verus! {

/// The engine is handed the orbit's six components and its epoch, the epochs as
/// they were given, and the propagator's settings; it is asked for state
/// transition matrices just when the caller wants them or the orbit carries a
/// covariance. Record `i` then holds the six components and the epoch of state
/// `i` of its reply, in the ecliptic frame about the Sun. The matrix is passed
/// on if it was asked for. A covariance is there just when the orbit carries
/// one and the state its matrix; it is tagged as linear, and with its own
/// definiteness.
///
/// Returns the reply.
pub proof fn records_hold_the_reply<
    D,
    T: Scalar,
    S: Fn(T) -> T,
    I: Fn(&D, &AssistOrbit<T>, &[T], bool, &IntegratorConfig<T>) -> Reply<
        IntegratedState<T>,
    >,
>(
    p: AssistPropagator<T, D>,
    orbit: TestOrbit<T>,
    epochs: Seq<T>,
    config: PropagationConfig,
    c: Constants<T>,
    sqrt: S,
    integrate: I,
    states: Seq<PropagatedState<T>>,
) -> (reply: Vec<IntegratedState<T>>)
    requires
        may_propagate(p, orbit, epochs, config, c, sqrt, integrate, Ok(states)),
    ensures
        orbit.state.frame == Frame::EclipticJ2000,
        orbit.state.origin == Origin::Sun,
        config.profile.integrator == IntegratorProfile::Accurate
            || config.profile.allow_accurate_substitute,
        exists|o: &AssistOrbit<T>, e: &[T], stm: bool|
            {
                &&& #[trigger] integrate.ensures((&p.data, o, e, stm, &p.integrator), Ok(reply))
                &&& o.state[0] == orbit.state.x
                &&& o.state[1] == orbit.state.y
                &&& o.state[2] == orbit.state.z
                &&& o.state[3] == orbit.state.vx
                &&& o.state[4] == orbit.state.vy
                &&& o.state[5] == orbit.state.vz
                &&& o.epoch == orbit.state.epoch
                &&& e@ == epochs
                &&& stm == (config.compute_stm || orbit.state.covariance is Some)
            },
        states.len() == reply@.len(),
        forall|i: int|
            0 <= i < states.len() ==> {
                let s = #[trigger] states[i];
                let r = reply@[i];
                &&& s.state.x == r.state[0]
                &&& s.state.y == r.state[1]
                &&& s.state.z == r.state[2]
                &&& s.state.vx == r.state[3]
                &&& s.state.vy == r.state[4]
                &&& s.state.vz == r.state[5]
                &&& s.state.epoch == r.epoch
                &&& s.state.frame == Frame::EclipticJ2000
                &&& s.state.origin == Origin::Sun
                &&& config.compute_stm ==> s.stm == r.stm
                &&& !config.compute_stm ==> s.stm is None
                &&& s.state.covariance is Some <==> orbit.state.covariance is Some
                    && r.stm is Some
                &&& s.state.covariance is Some ==> s.covariance_kind == Some(
                    CovarianceKind::Linear,
                )
                &&& s.state.covariance matches Some(m) ==> s.covariance_quality == Some(
                    quality(c, sqrt, m),
                )
                &&& s.state.covariance is None ==> s.covariance_kind is None
                    && s.covariance_quality is None
            },
{
    let o = orbit_outcome(orbit)->Ok_0;
    let stm = wants_stm(orbit, config);
    let answer = choose|answer: Reply<IntegratedState<T>>| #[trigger]
        integrated(integrate, p.data, o, epochs, stm, p.integrator, answer) && Ok::<
            Seq<PropagatedState<T>>,
            ErrorView,
        >(states) == propagate_outcome(c, sqrt, orbit, config, answer);
    let reply = answer->Ok_0;
    assert(answer == Ok::<Vec<IntegratedState<T>>, String>(reply));
    let e = choose|e: &[T]|
        e@ == epochs && #[trigger] integrate.ensures((&p.data, &o, e, stm, &p.integrator), answer);
    let question = &o;
    assert(integrate.ensures((&p.data, question, e, stm, &p.integrator), Ok(reply)));
    reply
}

/// Entry by entry, the covariance of record `i` is the orbit's covariance
/// between the state transition matrix of state `i` and its transpose.
///
/// Returns the engine's reply.
pub proof fn covariances_are_mapped_by_the_matrices<
    D,
    T: Scalar,
    S: Fn(T) -> T,
    I: Fn(&D, &AssistOrbit<T>, &[T], bool, &IntegratorConfig<T>) -> Reply<
        IntegratedState<T>,
    >,
>(
    val: spec_fn(T) -> real,
    p: AssistPropagator<T, D>,
    orbit: TestOrbit<T>,
    epochs: Seq<T>,
    config: PropagationConfig,
    c: Constants<T>,
    sqrt: S,
    integrate: I,
    states: Seq<PropagatedState<T>>,
) -> (reply: Vec<IntegratedState<T>>)
    requires
        exact(val),
        val(c.zero) == 0 as real,
        may_propagate(p, orbit, epochs, config, c, sqrt, integrate, Ok(states)),
    ensures
        exists|o: &AssistOrbit<T>, e: &[T], stm: bool|
            e@ == epochs && #[trigger] integrate.ensures(
                (&p.data, o, e, stm, &p.integrator),
                Ok(reply),
            ),
        states.len() == reply@.len(),
        forall|i: int, a: int, b: int|
            0 <= i < states.len() && 0 <= a < 6 && 0 <= b < 6
                && states[i].state.covariance is Some ==> val(
                #[trigger] states[i].state.covariance->Some_0[a][b],
            ) == sandwich(val, reply@[i].stm->Some_0, orbit.state.covariance->Some_0, a, b),
{
    let o = orbit_outcome(orbit)->Ok_0;
    let stm = wants_stm(orbit, config);
    let answer = choose|answer: Reply<IntegratedState<T>>| #[trigger]
        integrated(integrate, p.data, o, epochs, stm, p.integrator, answer) && Ok::<
            Seq<PropagatedState<T>>,
            ErrorView,
        >(states) == propagate_outcome(c, sqrt, orbit, config, answer);
    let reply = answer->Ok_0;
    assert(answer == Ok::<Vec<IntegratedState<T>>, String>(reply));
    let e = choose|e: &[T]|
        e@ == epochs && #[trigger] integrate.ensures((&p.data, &o, e, stm, &p.integrator), answer);
    let question = &o;
    assert(integrate.ensures((&p.data, question, e, stm, &p.integrator), Ok(reply)));
    assert forall|i: int, a: int, b: int|
        0 <= i < states.len() && 0 <= a < 6 && 0 <= b < 6
            && states[i].state.covariance is Some implies val(
        #[trigger] states[i].state.covariance->Some_0[a][b],
    ) == sandwich(val, reply@[i].stm->Some_0, orbit.state.covariance->Some_0, a, b) by {
        mapped_covariance_entries(
            val,
            c.zero,
            reply@[i].stm->Some_0,
            orbit.state.covariance->Some_0,
            a,
            b,
        );
    }
    reply
}

/// A propagated covariance is tagged by what it is: positive definite just
/// when its quadratic form goes nowhere below zero by more than round-off of
/// its scale, at vectors of unit length. A reported eigenvalue is one that the
/// form takes, and the least, but for twice the Frobenius norm halved sixty
/// times.
pub proof fn propagated_covariances_are_tagged<
    D,
    T: Scalar,
    S: Fn(T) -> T,
    I: Fn(&D, &AssistOrbit<T>, &[T], bool, &IntegratorConfig<T>) -> Reply<
        IntegratedState<T>,
    >,
>(
    val: spec_fn(T) -> real,
    p: AssistPropagator<T, D>,
    orbit: TestOrbit<T>,
    epochs: Seq<T>,
    config: PropagationConfig,
    c: Constants<T>,
    sqrt: S,
    integrate: I,
    states: Seq<PropagatedState<T>>,
    i: int,
    cov: Mat6<T>,
    scale: real,
    f: real,
)
    requires
        exact(val),
        ordered(val),
        roots(val, sqrt),
        eigen_constants(val, c),
        val(c.round_off) >= 0 as real,
        val(c.min_positive) > 0 as real,
        may_propagate(p, orbit, epochs, config, c, sqrt, integrate, Ok(states)),
        orbit.state.covariance matches Some(sigma) ==> symmetric(sigma),
        0 <= i < states.len(),
        states[i].state.covariance == Some(cov),
        is_scale(val, c, cov, scale),
        f >= 0 as real,
        f * f == entries_squared(val, cov),
    ensures
        states[i].covariance_quality == Some(CovarianceQuality::<T>::PositiveDefinite)
            <==> forall|x: Vec6<T>|
            length_squared(val, x) == 1 as real ==> #[trigger] quadratic(val, cov, x) >= -(val(
                c.round_off,
            ) * scale),
        states[i].covariance_quality matches Some(CovarianceQuality::Indefinite { min_eig }) ==> {
            &&& val(min_eig) < -(val(c.round_off) * scale)
            &&& exists|v: Vec6<T>|
                length_squared(val, v) == 1 as real && #[trigger] quadratic(val, cov, v) == val(
                    min_eig,
                )
            &&& forall|x: Vec6<T>|
                length_squared(val, x) == 1 as real ==> val(min_eig) <= #[trigger] quadratic(
                    val,
                    cov,
                    x,
                ) + halved((2 as real) * f, 60)
        },
{
    let o = orbit_outcome(orbit)->Ok_0;
    let stm = wants_stm(orbit, config);
    let answer = choose|answer: Reply<IntegratedState<T>>| #[trigger]
        integrated(integrate, p.data, o, epochs, stm, p.integrator, answer) && Ok::<
            Seq<PropagatedState<T>>,
            ErrorView,
        >(states) == propagate_outcome(c, sqrt, orbit, config, answer);
    let phi = answer->Ok_0@[i].stm->Some_0;
    let sigma = orbit.state.covariance->Some_0;
    assert(cov == congruence(c.zero, phi, sigma));
    lemma_mat6_ext(transposed(sigma), sigma);
    covariance_stays_symmetric(val, c.zero, phi, sigma);
    assert forall|a: int, b: int| 0 <= a < 6 && 0 <= b < 6 implies #[trigger] cov[a][b]
        == cov[b][a] by {
        assert(transposed(cov)[a][b] == cov[b][a]);
    }
    tag_tells_definiteness(val, c, sqrt, cov, scale);
    match states[i].covariance_quality {
        Some(CovarianceQuality::Indefinite { min_eig }) => {
            reported_eigenvalue_is_the_least(val, c, sqrt, cov, scale, f, min_eig);
        },
        _ => {},
    }
}

/// Whatever the engine does, a fast integrator that nothing may stand in for
/// is refused first; an orbit in another frame or about another centre comes
/// next, the frame before the centre; each refusal has its own message. An
/// error of an accepted request carries the engine's own text.
pub proof fn refusals_and_failures_of_a_propagation<
    D,
    T: Scalar,
    S: Fn(T) -> T,
    I: Fn(&D, &AssistOrbit<T>, &[T], bool, &IntegratorConfig<T>) -> Reply<
        IntegratedState<T>,
    >,
>(
    p: AssistPropagator<T, D>,
    orbit: TestOrbit<T>,
    epochs: Seq<T>,
    config: PropagationConfig,
    c: Constants<T>,
    sqrt: S,
    integrate: I,
    e: ErrorView,
)
    requires
        may_propagate(p, orbit, epochs, config, c, sqrt, integrate, Err(e)),
    ensures
        ({
            let fast = config.profile.integrator == IntegratorProfile::Fast
                && !config.profile.allow_accurate_substitute;
            let turned = orbit.state.frame == Frame::Equatorial;
            &&& fast ==> e == ErrorView::Unsupported(
                "AssistPropagator has no Fast (survey-grade) integrator — only IAS15. Set PropagationProfile::allow_accurate_substitute to run IAS15 instead, or use the empyrean backend for DOP853."@,
            )
            &&& !fast && turned ==> e == ErrorView::InvalidOrbit(
                "AssistPropagator requires EclipticJ2000 frame, got "@ + "Equatorial"@,
            )
            &&& !fast && !turned && orbit.state.origin == Origin::Earth ==> e
                == ErrorView::InvalidOrbit(
                "AssistPropagator requires Sun origin (heliocentric), got "@ + "Earth"@,
            )
            &&& !fast && !turned && orbit.state.origin == Origin::SolarSystemBarycenter ==> e
                == ErrorView::InvalidOrbit(
                "AssistPropagator requires Sun origin (heliocentric), got "@
                    + "SolarSystemBarycenter"@,
            )
            &&& !fast && !turned && orbit.state.origin == Origin::Sun ==> exists|
                o: &AssistOrbit<T>,
                s: &[T],
                stm: bool,
                text: String,
            |
                s@ == epochs && #[trigger] integrate.ensures(
                    (&p.data, o, s, stm, &p.integrator),
                    Err(text),
                ) && e == ErrorView::PropagationFailed(text@)
        }),
{
    if orbit_outcome(orbit) is Ok && (config.profile.integrator == IntegratorProfile::Accurate
        || config.profile.allow_accurate_substitute) {
        let o = orbit_outcome(orbit)->Ok_0;
        let stm = wants_stm(orbit, config);
        let answer = choose|answer: Reply<IntegratedState<T>>| #[trigger]
            integrated(integrate, p.data, o, epochs, stm, p.integrator, answer) && Err::<
                Seq<PropagatedState<T>>,
                ErrorView,
            >(e) == propagate_outcome(c, sqrt, orbit, config, answer);
        let text = answer->Err_0;
        assert(answer == Err::<Vec<IntegratedState<T>>, String>(text));
        let s = choose|s: &[T]|
            s@ == epochs && #[trigger] integrate.ensures(
                (&p.data, &o, s, stm, &p.integrator),
                answer,
            );
        let question = &o;
        assert(integrate.ensures((&p.data, question, s, stm, &p.integrator), Err(text)));
    }
}

/// An engine that returns the orbit's own state at its own epoch, whatever it
/// is asked, gives back the orbit's six components and epoch in every record.
pub proof fn an_engine_at_rest_gives_back_the_orbit<
    D,
    T: Scalar,
    S: Fn(T) -> T,
    I: Fn(&D, &AssistOrbit<T>, &[T], bool, &IntegratorConfig<T>) -> Reply<
        IntegratedState<T>,
    >,
>(
    p: AssistPropagator<T, D>,
    orbit: TestOrbit<T>,
    epochs: Seq<T>,
    config: PropagationConfig,
    c: Constants<T>,
    sqrt: S,
    integrate: I,
    states: Seq<PropagatedState<T>>,
    i: int,
)
    requires
        may_propagate(p, orbit, epochs, config, c, sqrt, integrate, Ok(states)),
        forall|
            d: &D,
            o: &AssistOrbit<T>,
            e: &[T],
            w: bool,
            k: &IntegratorConfig<T>,
            v: Vec<IntegratedState<T>>,
            n: int,
        |
            0 <= n < v@.len() && #[trigger] integrate.ensures((d, o, e, w, k), Ok(v)) ==> (
            #[trigger] v@[n]).state == o.state && v@[n].epoch == o.epoch,
        0 <= i < states.len(),
    ensures
        states[i].state.x == orbit.state.x,
        states[i].state.y == orbit.state.y,
        states[i].state.z == orbit.state.z,
        states[i].state.vx == orbit.state.vx,
        states[i].state.vy == orbit.state.vy,
        states[i].state.vz == orbit.state.vz,
        states[i].state.epoch == orbit.state.epoch,
{
    let reply = records_hold_the_reply(
        p,
        orbit,
        epochs,
        config,
        c,
        sqrt,
        integrate,
        states,
    );
    assert(0 <= i < reply@.len());
    let r = reply@[i];
}

} // verus!
