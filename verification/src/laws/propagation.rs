//! Laws of propagation.

use vstd::prelude::*;

use crate::constants::Constants;
use crate::engine::{
    integrated, same_reply, AssistOrbit, IntegratedState, IntegratorConfig, Reply,
};
use crate::laws::constancy::integrates_once;
use crate::propagator::{
    may_propagate, propagate_outcome, propagated, wants_stm, AssistPropagator,
};
use crate::requests::{orbit_outcome, profile_outcome};
use crate::scalar::Scalar;
use crate::types::{
    CovarianceKind, ErrorView, Frame, IntegratorProfile, Origin, PropagatedState,
    PropagationConfig, TestOrbit,
};

verus! {

/// The fast integrator without leave to substitute is refused, whatever the
/// orbit and whatever the engine would answer.
pub proof fn fast_integrator_is_refused<
    D,
    T: Scalar,
    S: Fn(T) -> T,
    I: Fn(&D, &AssistOrbit<T>, &[T], bool, &IntegratorConfig<T>) -> Reply<
        IntegratedState<T>,
    >,
>(
    p: AssistPropagator<T, D>,
    orbit: TestOrbit<T>,
    epochs: Seq<T>,
    config: PropagationConfig,
    c: Constants<T>,
    sqrt: S,
    integrate: I,
    out: Result<Seq<PropagatedState<T>>, ErrorView>,
)
    requires
        config.profile.integrator == IntegratorProfile::Fast,
        !config.profile.allow_accurate_substitute,
        may_propagate(p, orbit, epochs, config, c, sqrt, integrate, out),
    ensures
        out matches Err(ErrorView::Unsupported(_)),
{
}

/// Of a profile only its acceptance counts: events, the dense cache and a
/// substituted integrator change nothing in the result.
pub proof fn accepted_profiles_are_alike<
    D,
    T: Scalar,
    S: Fn(T) -> T,
    I: Fn(&D, &AssistOrbit<T>, &[T], bool, &IntegratorConfig<T>) -> Reply<
        IntegratedState<T>,
    >,
>(
    p: AssistPropagator<T, D>,
    orbit: TestOrbit<T>,
    epochs: Seq<T>,
    one: PropagationConfig,
    other: PropagationConfig,
    c: Constants<T>,
    sqrt: S,
    integrate: I,
    out: Result<Seq<PropagatedState<T>>, ErrorView>,
)
    requires
        profile_outcome(one.profile) is Ok,
        profile_outcome(other.profile) is Ok,
        one.compute_stm == other.compute_stm,
        may_propagate(p, orbit, epochs, one, c, sqrt, integrate, out),
    ensures
        may_propagate(p, orbit, epochs, other, c, sqrt, integrate, out),
{
    if let Ok(o) = orbit_outcome(orbit) {
        let reply = choose|reply: Reply<IntegratedState<T>>| #[trigger]
            integrated(
                integrate,
                p.data,
                o,
                epochs,
                wants_stm(orbit, one),
                p.integrator,
                reply,
            ) && out == propagate_outcome(c, sqrt, orbit, one, reply);
        assert(integrated(
            integrate,
            p.data,
            o,
            epochs,
            wants_stm(orbit, other),
            p.integrator,
            reply,
        ));
        if let Ok(states) = reply {
            let a = propagate_outcome(c, sqrt, orbit, one, reply)->Ok_0;
            let b = propagate_outcome(c, sqrt, orbit, other, reply)->Ok_0;
            assert(a =~= b);
        }
    }
}

/// An integrator with one answer to each question settles a propagation.
pub proof fn propagation_is_settled<
    D,
    T: Scalar,
    S: Fn(T) -> T,
    I: Fn(&D, &AssistOrbit<T>, &[T], bool, &IntegratorConfig<T>) -> Reply<IntegratedState<T>>,
>(
    p: AssistPropagator<T, D>,
    orbit: TestOrbit<T>,
    epochs: Seq<T>,
    config: PropagationConfig,
    c: Constants<T>,
    sqrt: S,
    integrate: I,
    a: Result<Seq<PropagatedState<T>>, ErrorView>,
    b: Result<Seq<PropagatedState<T>>, ErrorView>,
)
    requires
        integrates_once(integrate, p),
        may_propagate(p, orbit, epochs, config, c, sqrt, integrate, a),
        may_propagate(p, orbit, epochs, config, c, sqrt, integrate, b),
    ensures
        a == b,
{
    if profile_outcome(config.profile) is Ok {
        if let Ok(o) = orbit_outcome(orbit) {
            let stm = wants_stm(orbit, config);
            let u = choose|reply: Reply<IntegratedState<T>>| #[trigger]
                integrated(integrate, p.data, o, epochs, stm, p.integrator, reply) && a
                    == propagate_outcome(c, sqrt, orbit, config, reply);
            let v = choose|reply: Reply<IntegratedState<T>>| #[trigger]
                integrated(integrate, p.data, o, epochs, stm, p.integrator, reply) && b
                    == propagate_outcome(c, sqrt, orbit, config, reply);
            assert(same_reply(u, v));
            if a is Ok {
                assert(a->Ok_0 =~= b->Ok_0);
            }
        }
    }
}

/// Two requests whose profiles are accepted, and that agree on the matrices,
/// give one result: the same states, matrices, covariances and tags, or the
/// same error. The substitute for the fast integrator is the accurate one, and
/// events and the dense cache are without effect.
pub proof fn accepted_profiles_give_one_result<
    D,
    T: Scalar,
    S: Fn(T) -> T,
    I: Fn(&D, &AssistOrbit<T>, &[T], bool, &IntegratorConfig<T>) -> Reply<IntegratedState<T>>,
>(
    p: AssistPropagator<T, D>,
    orbit: TestOrbit<T>,
    epochs: Seq<T>,
    one: PropagationConfig,
    other: PropagationConfig,
    c: Constants<T>,
    sqrt: S,
    integrate: I,
    a: Result<Seq<PropagatedState<T>>, ErrorView>,
    b: Result<Seq<PropagatedState<T>>, ErrorView>,
)
    requires
        integrates_once(integrate, p),
        profile_outcome(one.profile) is Ok,
        profile_outcome(other.profile) is Ok,
        one.compute_stm == other.compute_stm,
        may_propagate(p, orbit, epochs, one, c, sqrt, integrate, a),
        may_propagate(p, orbit, epochs, other, c, sqrt, integrate, b),
    ensures
        a == b,
{
    accepted_profiles_are_alike(p, orbit, epochs, one, other, c, sqrt, integrate, a);
    propagation_is_settled(p, orbit, epochs, other, c, sqrt, integrate, a, b);
}

/// Every state that comes out is heliocentric and ecliptic. It has a
/// covariance only if the orbit has one; the two tags are there exactly where
/// the covariance is, and its kind is linear. The state transition matrix is
/// there only if it was asked for.
pub proof fn propagated_states_are_labelled<
    D,
    T: Scalar,
    S: Fn(T) -> T,
    I: Fn(&D, &AssistOrbit<T>, &[T], bool, &IntegratorConfig<T>) -> Reply<
        IntegratedState<T>,
    >,
>(
    p: AssistPropagator<T, D>,
    orbit: TestOrbit<T>,
    epochs: Seq<T>,
    config: PropagationConfig,
    c: Constants<T>,
    sqrt: S,
    integrate: I,
    states: Seq<PropagatedState<T>>,
    i: int,
)
    requires
        may_propagate(p, orbit, epochs, config, c, sqrt, integrate, Ok(states)),
        0 <= i < states.len(),
    ensures
        states[i].state.frame == Frame::EclipticJ2000,
        states[i].state.origin == Origin::Sun,
        states[i].state.covariance is Some ==> orbit.state.covariance is Some,
        states[i].covariance_kind is Some <==> states[i].state.covariance is Some,
        states[i].covariance_quality is Some <==> states[i].state.covariance is Some,
        states[i].covariance_kind matches Some(k) ==> k == CovarianceKind::Linear,
        states[i].stm is Some ==> config.compute_stm,
{
}

/// The engine's answers hold one state for each epoch, in order, with a state
/// transition matrix exactly where one was asked for.
pub open spec fn answers_each_epoch<
    D,
    T,
    I: Fn(&D, &AssistOrbit<T>, &[T], bool, &IntegratorConfig<T>) -> Reply<
        IntegratedState<T>,
    >,
>(
    integrate: I,
    p: AssistPropagator<T, D>,
    orbit: AssistOrbit<T>,
    epochs: Seq<T>,
    stm: bool,
) -> bool {
    forall|v: Vec<IntegratedState<T>>| #[trigger]
        integrated(integrate, p.data, orbit, epochs, stm, p.integrator, Ok(v)) ==> {
            &&& v@.len() == epochs.len()
            &&& forall|i: int|
                0 <= i < epochs.len() ==> (#[trigger] v@[i]).epoch == epochs[i] && (v@[i].stm
                    is Some <==> stm)
        }
}

/// Where the engine answers each epoch, so does a propagation: one state for
/// each epoch, in order. An orbit with a covariance has one at every epoch,
/// and the state transition matrix is there exactly where it was asked for.
pub proof fn each_epoch_is_answered<
    D,
    T: Scalar,
    S: Fn(T) -> T,
    I: Fn(&D, &AssistOrbit<T>, &[T], bool, &IntegratorConfig<T>) -> Reply<
        IntegratedState<T>,
    >,
>(
    p: AssistPropagator<T, D>,
    orbit: TestOrbit<T>,
    epochs: Seq<T>,
    config: PropagationConfig,
    c: Constants<T>,
    sqrt: S,
    integrate: I,
    states: Seq<PropagatedState<T>>,
)
    requires
        may_propagate(p, orbit, epochs, config, c, sqrt, integrate, Ok(states)),
        forall|o: AssistOrbit<T>| #[trigger]
            answers_each_epoch(integrate, p, o, epochs, wants_stm(orbit, config)),
    ensures
        states.len() == epochs.len(),
        forall|i: int|
            0 <= i < epochs.len() ==> {
                &&& (#[trigger] states[i]).state.epoch == epochs[i]
                &&& states[i].state.covariance is Some <==> orbit.state.covariance is Some
                &&& states[i].stm is Some <==> config.compute_stm
            },
{
    let o = orbit_outcome(orbit)->Ok_0;
    assert(answers_each_epoch(integrate, p, o, epochs, wants_stm(orbit, config)));
    let reply = choose|reply: Reply<IntegratedState<T>>| #[trigger]
        integrated(
            integrate,
            p.data,
            o,
            epochs,
            wants_stm(orbit, config),
            p.integrator,
            reply,
        ) && Ok::<Seq<PropagatedState<T>>, ErrorView>(states) == propagate_outcome(
            c,
            sqrt,
            orbit,
            config,
            reply,
        );
    let v = reply->Ok_0;
    assert(integrated(
        integrate,
        p.data,
        o,
        epochs,
        wants_stm(orbit, config),
        p.integrator,
        Ok(v),
    ));
    assert forall|i: int| 0 <= i < epochs.len() implies {
        &&& (#[trigger] states[i]).state.epoch == epochs[i]
        &&& states[i].state.covariance is Some <==> orbit.state.covariance is Some
        &&& states[i].stm is Some <==> config.compute_stm
    } by {
        assert(states[i] == propagated(
            c,
            sqrt,
            orbit.state.covariance,
            config.compute_stm,
            v@[i],
        ));
        assert(v@[i].epoch == epochs[i]);
    }
}

/// Asking for the state transition matrices changes nothing but them: for an
/// orbit with a covariance, two propagations that differ in this alone give
/// the same states and tags, and the one that did not ask has no matrix.
pub proof fn matrices_are_only_surfaced<
    D,
    T: Scalar,
    S: Fn(T) -> T,
    I: Fn(&D, &AssistOrbit<T>, &[T], bool, &IntegratorConfig<T>) -> Reply<IntegratedState<T>>,
>(
    p: AssistPropagator<T, D>,
    orbit: TestOrbit<T>,
    epochs: Seq<T>,
    with: PropagationConfig,
    without: PropagationConfig,
    c: Constants<T>,
    sqrt: S,
    integrate: I,
    a: Seq<PropagatedState<T>>,
    b: Seq<PropagatedState<T>>,
)
    requires
        integrates_once(integrate, p),
        orbit.state.covariance is Some,
        with.compute_stm,
        !without.compute_stm,
        may_propagate(p, orbit, epochs, with, c, sqrt, integrate, Ok(a)),
        may_propagate(p, orbit, epochs, without, c, sqrt, integrate, Ok(b)),
    ensures
        a.len() == b.len(),
        forall|i: int|
            0 <= i < a.len() ==> b[i].stm is None && #[trigger] b[i] == (PropagatedState {
                stm: None,
                ..a[i]
            }),
{
    let o = orbit_outcome(orbit)->Ok_0;
    let u = choose|reply: Reply<IntegratedState<T>>| #[trigger]
        integrated(
            integrate,
            p.data,
            o,
            epochs,
            wants_stm(orbit, with),
            p.integrator,
            reply,
        ) && Ok::<Seq<PropagatedState<T>>, ErrorView>(a) == propagate_outcome(
            c,
            sqrt,
            orbit,
            with,
            reply,
        );
    let v = choose|reply: Reply<IntegratedState<T>>| #[trigger]
        integrated(
            integrate,
            p.data,
            o,
            epochs,
            wants_stm(orbit, without),
            p.integrator,
            reply,
        ) && Ok::<Seq<PropagatedState<T>>, ErrorView>(b) == propagate_outcome(
            c,
            sqrt,
            orbit,
            without,
            reply,
        );
    assert(integrated(integrate, p.data, o, epochs, true, p.integrator, u));
    assert(integrated(integrate, p.data, o, epochs, true, p.integrator, v));
    assert(same_reply(u, v));
    let (x, y) = (u->Ok_0@, v->Ok_0@);
    assert(x == y);
    assert forall|i: int| 0 <= i < a.len() implies b[i].stm is None && #[trigger] b[i] == (
    PropagatedState { stm: None, ..a[i] }) by {
        assert(a[i] == propagated(c, sqrt, orbit.state.covariance, true, x[i]));
        assert(b[i] == propagated(c, sqrt, orbit.state.covariance, false, x[i]));
    }
}

} // verus!
