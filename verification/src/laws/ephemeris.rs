//! Laws of ephemerides.

use vstd::prelude::*;
use vstd::std_specs::ops::SubSpec;

use crate::constants::Constants;
use crate::engine::{
    integrated, same_reply, sighted, AssistObserver, AssistOrbit, IntegratedState,
    IntegratorConfig, Reply, Sighting,
};
use crate::ephemeris::{
    answers_enough, assist_observers, emission_epochs, ephemeris_outcome, listed, may_finish,
    may_generate, needs_stm, pair_count, record, records, stm_at,
};
use crate::laws::constancy::{integrates_once, sights_once};
use crate::linalg::Mat6;
use crate::observation::Topocentric;
use crate::propagator::{
    may_propagate, propagate_outcome, propagated, wants_stm, AssistPropagator,
};
use crate::requests::orbit_outcome;
use crate::scalar::Scalar;
use crate::types::{
    CartesianState, CovarianceMethod, EphemerisConfig, EphemerisRecord, ErrorView, Frame,
    ObserverState, Origin, PropagatedState, PropagationConfig, SphericalState, TestOrbit,
};

verus! {

/// A request for covariances of an orbit that carries none, or by a method
/// that draws samples, is refused with its own error, whatever the engine
/// would answer.
pub proof fn unmeetable_covariance_is_refused<
    D,
    T: Scalar,
    J: Fn(Topocentric<T>) -> Mat6<T>,
    O: Fn(
        &D,
        &AssistOrbit<T>,
        &[AssistObserver<T>],
        Option<usize>,
        &IntegratorConfig<T>,
    ) -> Reply<Sighting<T>>,
    I: Fn(&D, &AssistOrbit<T>, &[T], bool, &IntegratorConfig<T>) -> Reply<
        IntegratedState<T>,
    >,
>(
    p: AssistPropagator<T, D>,
    orbit: TestOrbit<T>,
    observers: Seq<ObserverState<T>>,
    config: EphemerisConfig,
    c: Constants<T>,
    spherical_jacobian: J,
    observe: O,
    integrate: I,
    out: Result<Seq<EphemerisRecord<T>>, ErrorView>,
)
    requires
        config.compute_covariance,
        may_generate(
            p,
            orbit,
            observers,
            config,
            c,
            spherical_jacobian,
            observe,
            integrate,
            out,
        ),
    ensures
        orbit.state.covariance is None ==> (out matches Err(ErrorView::MissingCovariance(_))),
        orbit.state.covariance is Some && (config.covariance_method == CovarianceMethod::MonteCarlo
            || config.covariance_method == CovarianceMethod::SigmaPoint) ==> (out matches Err(
            ErrorView::Unsupported(_),
        )),
{
}

/// The records of an ephemeris that succeeded, with the engine's answers that
/// they were made from.
pub(crate) proof fn lemma_origin_of_records<
    D,
    T: Scalar,
    J: Fn(Topocentric<T>) -> Mat6<T>,
    O: Fn(
        &D,
        &AssistOrbit<T>,
        &[AssistObserver<T>],
        Option<usize>,
        &IntegratorConfig<T>,
    ) -> Reply<Sighting<T>>,
    I: Fn(&D, &AssistOrbit<T>, &[T], bool, &IntegratorConfig<T>) -> Reply<
        IntegratedState<T>,
    >,
>(
    p: AssistPropagator<T, D>,
    orbit: TestOrbit<T>,
    observers: Seq<ObserverState<T>>,
    config: EphemerisConfig,
    c: Constants<T>,
    spherical_jacobian: J,
    observe: O,
    integrate: I,
    out: Seq<EphemerisRecord<T>>,
) -> (r: (Vec<Sighting<T>>, Option<Vec<IntegratedState<T>>>))
    requires
        may_generate(
            p,
            orbit,
            observers,
            config,
            c,
            spherical_jacobian,
            observe,
            integrate,
            Ok(out),
        ),
        needs_stm(config) ==> answers_enough(integrate, config),
    ensures
        orbit_outcome(orbit) is Ok,
        sighted(
            observe,
            p.data,
            orbit_outcome(orbit)->Ok_0,
            assist_observers(observers),
            Some(1usize),
            p.integrator,
            Ok(r.0),
        ),
        out == records(c, spherical_jacobian, orbit, observers, config, r.0@, listed(r.1)),
        r.1 is Some <==> needs_stm(config),
        r.1 matches Some(v) ==> v@.len() >= pair_count(observers.len(), r.0@.len()) && integrated(
            integrate,
            p.data,
            orbit_outcome(orbit)->Ok_0,
            emission_epochs(observers, r.0@),
            true,
            p.integrator,
            Ok(v),
        ),
        config.compute_covariance ==> (r.1 matches Some(v) && forall|i: int|
            0 <= i < v@.len() ==> (#[trigger] v@[i]).stm is Some),
{
    let o = orbit_outcome(orbit)->Ok_0;
    let reply = choose|reply: Reply<Sighting<T>>| #[trigger]
        sighted(
            observe,
            p.data,
            o,
            assist_observers(observers),
            Some(1usize),
            p.integrator,
            reply,
        ) && match reply {
            Err(e) => Ok::<Seq<EphemerisRecord<T>>, ErrorView>(out) == Err::<
                Seq<EphemerisRecord<T>>,
                ErrorView,
            >(ErrorView::PropagationFailed(e@)),
            Ok(s) => may_finish(
                p,
                orbit,
                o,
                observers,
                config,
                c,
                spherical_jacobian,
                integrate,
                s@,
                Ok(out),
            ),
        };
    let seen = reply->Ok_0;
    let s = seen@;
    assert(reply == Ok::<Vec<Sighting<T>>, String>(seen));
    if needs_stm(config) {
        let states = choose|states: Reply<IntegratedState<T>>| #[trigger]
            integrated(
                integrate,
                p.data,
                o,
                emission_epochs(observers, s),
                true,
                p.integrator,
                states,
            ) && Ok::<Seq<EphemerisRecord<T>>, ErrorView>(out) == ephemeris_outcome(
                c,
                spherical_jacobian,
                orbit,
                observers,
                config,
                s,
                Some(states),
            );
        let v = states->Ok_0;
        assert(v@.len() >= pair_count(observers.len(), s.len())) by {
            let e = choose|e: &[T]|
                e@ == emission_epochs(observers, s) && #[trigger] integrate.ensures(
                    (&p.data, &o, e, true, &p.integrator),
                    states,
                );
            assert(integrate.ensures((&p.data, &o, e, true, &p.integrator), Ok(v)));
        }
        assert(states == Ok::<Vec<IntegratedState<T>>, String>(v));
        (seen, Some(v))
    } else {
        (seen, None)
    }
}

/// Covariances are a contract of the request, not of the orbit: where they
/// were asked for, every record of a successful ephemeris has one on the sky
/// and one of its aberrated state; where they were not, none has either, even
/// for an orbit that carries a covariance.
pub proof fn covariance_request_is_kept<
    D,
    T: Scalar,
    J: Fn(Topocentric<T>) -> Mat6<T>,
    O: Fn(
        &D,
        &AssistOrbit<T>,
        &[AssistObserver<T>],
        Option<usize>,
        &IntegratorConfig<T>,
    ) -> Reply<Sighting<T>>,
    I: Fn(&D, &AssistOrbit<T>, &[T], bool, &IntegratorConfig<T>) -> Reply<
        IntegratedState<T>,
    >,
>(
    p: AssistPropagator<T, D>,
    orbit: TestOrbit<T>,
    observers: Seq<ObserverState<T>>,
    config: EphemerisConfig,
    c: Constants<T>,
    spherical_jacobian: J,
    observe: O,
    integrate: I,
    out: Seq<EphemerisRecord<T>>,
    i: int,
)
    requires
        may_generate(
            p,
            orbit,
            observers,
            config,
            c,
            spherical_jacobian,
            observe,
            integrate,
            Ok(out),
        ),
        needs_stm(config) ==> answers_enough(integrate, config),
        0 <= i < out.len(),
    ensures
        out[i].state.covariance is Some <==> config.compute_covariance,
        out[i].aberrated_state.covariance is Some <==> config.compute_covariance,
        out[i].observation_jacobian is Some ==> config.compute_jacobian,
        config.compute_covariance && config.compute_jacobian
            ==> out[i].observation_jacobian is Some,
{
    let (s, states) = lemma_origin_of_records(
        p,
        orbit,
        observers,
        config,
        c,
        spherical_jacobian,
        observe,
        integrate,
        out,
    );
    assert(out[i] == record(
        c,
        spherical_jacobian,
        orbit.state.covariance,
        config,
        s@[i],
        observers[i],
        stm_at(listed(states), i),
    ));
}

/// Each record is that of the observer with its index. Its on-sky state is
/// equatorial; its aberrated state is heliocentric and ecliptic, at the epoch
/// of the observation less the light time, which is reported. No shift of the
/// mean is.
pub proof fn records_are_labelled<
    D,
    T: Scalar,
    J: Fn(Topocentric<T>) -> Mat6<T>,
    O: Fn(
        &D,
        &AssistOrbit<T>,
        &[AssistObserver<T>],
        Option<usize>,
        &IntegratorConfig<T>,
    ) -> Reply<Sighting<T>>,
    I: Fn(&D, &AssistOrbit<T>, &[T], bool, &IntegratorConfig<T>) -> Reply<
        IntegratedState<T>,
    >,
>(
    p: AssistPropagator<T, D>,
    orbit: TestOrbit<T>,
    observers: Seq<ObserverState<T>>,
    config: EphemerisConfig,
    c: Constants<T>,
    spherical_jacobian: J,
    observe: O,
    integrate: I,
    out: Seq<EphemerisRecord<T>>,
    i: int,
)
    requires
        may_generate(
            p,
            orbit,
            observers,
            config,
            c,
            spherical_jacobian,
            observe,
            integrate,
            Ok(out),
        ),
        needs_stm(config) ==> answers_enough(integrate, config),
        0 <= i < out.len(),
    ensures
        i < observers.len(),
        out[i].observer_state == observers[i].state,
        out[i].state.frame == Frame::Equatorial,
        out[i].state.origin == Origin::Sun,
        out[i].aberrated_state.frame == Frame::EclipticJ2000,
        out[i].aberrated_state.origin == Origin::Sun,
        out[i].light_time matches Some(t) && out[i].aberrated_state.epoch
            == out[i].state.epoch.sub_spec(t),
        out[i].mean_shift is None,
{
    let (s, states) = lemma_origin_of_records(
        p,
        orbit,
        observers,
        config,
        c,
        spherical_jacobian,
        observe,
        integrate,
        out,
    );
    assert(out[i] == record(
        c,
        spherical_jacobian,
        orbit.state.covariance,
        config,
        s@[i],
        observers[i],
        stm_at(listed(states), i),
    ));
}

/// Two methods that the request may name without a difference: any two where
/// no covariance is asked for, else the two first-order ones.
pub open spec fn same_machinery(one: EphemerisConfig, other: EphemerisConfig) -> bool {
    one.compute_covariance ==> {
        &&& one.covariance_method == CovarianceMethod::Auto || one.covariance_method
            == CovarianceMethod::Analytic
        &&& other.covariance_method == CovarianceMethod::Auto || other.covariance_method
            == CovarianceMethod::Analytic
    }
}

/// `Auto` is `Analytic`, and the sample count counts for nothing.
pub proof fn first_order_methods_are_alike<
    D,
    T: Scalar,
    J: Fn(Topocentric<T>) -> Mat6<T>,
    O: Fn(
        &D,
        &AssistOrbit<T>,
        &[AssistObserver<T>],
        Option<usize>,
        &IntegratorConfig<T>,
    ) -> Reply<Sighting<T>>,
    I: Fn(&D, &AssistOrbit<T>, &[T], bool, &IntegratorConfig<T>) -> Reply<
        IntegratedState<T>,
    >,
>(
    p: AssistPropagator<T, D>,
    orbit: TestOrbit<T>,
    observers: Seq<ObserverState<T>>,
    one: EphemerisConfig,
    other: EphemerisConfig,
    c: Constants<T>,
    spherical_jacobian: J,
    observe: O,
    integrate: I,
    out: Result<Seq<EphemerisRecord<T>>, ErrorView>,
)
    requires
        one.compute_covariance == other.compute_covariance,
        one.compute_jacobian == other.compute_jacobian,
        same_machinery(one, other),
        may_generate(
            p,
            orbit,
            observers,
            one,
            c,
            spherical_jacobian,
            observe,
            integrate,
            out,
        ),
    ensures
        may_generate(
            p,
            orbit,
            observers,
            other,
            c,
            spherical_jacobian,
            observe,
            integrate,
            out,
        ),
{
    assert forall|s: Seq<Sighting<T>>, v: Option<Reply<IntegratedState<T>>>| #[trigger]
        ephemeris_outcome(c, spherical_jacobian, orbit, observers, one, s, v)
            == ephemeris_outcome(c, spherical_jacobian, orbit, observers, other, s, v) by {
        let states: Option<Seq<IntegratedState<T>>> = match v {
            Some(Ok(v)) => Some(v@),
            _ => None,
        };
        assert(records(c, spherical_jacobian, orbit, observers, one, s, states) =~= records(
            c,
            spherical_jacobian,
            orbit,
            observers,
            other,
            s,
            states,
        ));
    }
}

/// Two records agree in all but covariances and Jacobian.
pub open spec fn same_sighting<T>(a: EphemerisRecord<T>, b: EphemerisRecord<T>) -> bool {
    &&& (SphericalState { covariance: None, ..a.state }) == (SphericalState {
        covariance: None,
        ..b.state
    })
    &&& (CartesianState { covariance: None, ..a.aberrated_state }) == (CartesianState {
        covariance: None,
        ..b.aberrated_state
    })
    &&& a.observer_state == b.observer_state
    &&& a.light_time == b.light_time
    &&& a.mean_shift == b.mean_shift
}

/// The flags and the method of a request add or remove only covariances and
/// Jacobians: two ephemerides of one orbit for the same observers agree in
/// everything else, record by record.
pub proof fn flags_change_only_derivatives<
    D,
    T: Scalar,
    J: Fn(Topocentric<T>) -> Mat6<T>,
    O: Fn(
        &D,
        &AssistOrbit<T>,
        &[AssistObserver<T>],
        Option<usize>,
        &IntegratorConfig<T>,
    ) -> Reply<Sighting<T>>,
    I: Fn(&D, &AssistOrbit<T>, &[T], bool, &IntegratorConfig<T>) -> Reply<IntegratedState<T>>,
>(
    p: AssistPropagator<T, D>,
    orbit: TestOrbit<T>,
    observers: Seq<ObserverState<T>>,
    one: EphemerisConfig,
    other: EphemerisConfig,
    c: Constants<T>,
    spherical_jacobian: J,
    observe: O,
    integrate: I,
    a: Seq<EphemerisRecord<T>>,
    b: Seq<EphemerisRecord<T>>,
)
    requires
        sights_once(observe, p),
        needs_stm(one) ==> answers_enough(integrate, one),
        needs_stm(other) ==> answers_enough(integrate, other),
        may_generate(
            p,
            orbit,
            observers,
            one,
            c,
            spherical_jacobian,
            observe,
            integrate,
            Ok(a),
        ),
        may_generate(
            p,
            orbit,
            observers,
            other,
            c,
            spherical_jacobian,
            observe,
            integrate,
            Ok(b),
        ),
    ensures
        a.len() == b.len(),
        forall|i: int| 0 <= i < a.len() ==> same_sighting(#[trigger] a[i], b[i]),
{
    let (s, u) = lemma_origin_of_records(
        p,
        orbit,
        observers,
        one,
        c,
        spherical_jacobian,
        observe,
        integrate,
        a,
    );
    let (t, v) = lemma_origin_of_records(
        p,
        orbit,
        observers,
        other,
        c,
        spherical_jacobian,
        observe,
        integrate,
        b,
    );
    assert(same_reply(Ok::<Vec<Sighting<T>>, String>(s), Ok::<Vec<Sighting<T>>, String>(t)));
    assert(s@ == t@);
}

/// The covariance of an aberrated state is that of a propagation of the orbit
/// to the emission epochs: to the epoch of each observation less the light
/// time that its record reports.
pub proof fn covariance_is_propagated_to_emission<
    D,
    T: Scalar,
    S: Fn(T) -> T,
    J: Fn(Topocentric<T>) -> Mat6<T>,
    O: Fn(
        &D,
        &AssistOrbit<T>,
        &[AssistObserver<T>],
        Option<usize>,
        &IntegratorConfig<T>,
    ) -> Reply<Sighting<T>>,
    I: Fn(&D, &AssistOrbit<T>, &[T], bool, &IntegratorConfig<T>) -> Reply<IntegratedState<T>>,
>(
    p: AssistPropagator<T, D>,
    orbit: TestOrbit<T>,
    observers: Seq<ObserverState<T>>,
    config: EphemerisConfig,
    propagation: PropagationConfig,
    c: Constants<T>,
    sqrt: S,
    spherical_jacobian: J,
    observe: O,
    integrate: I,
    epochs: Seq<T>,
    out: Seq<EphemerisRecord<T>>,
    states: Seq<PropagatedState<T>>,
)
    requires
        integrates_once(integrate, p),
        needs_stm(config) ==> answers_enough(integrate, config),
        config.compute_covariance,
        may_generate(
            p,
            orbit,
            observers,
            config,
            c,
            spherical_jacobian,
            observe,
            integrate,
            Ok(out),
        ),
        epochs.len() == out.len(),
        forall|i: int|
            0 <= i < out.len() ==> #[trigger] epochs[i] == observers[i].state.epoch.sub_spec(
                out[i].light_time->Some_0,
            ),
        may_propagate(p, orbit, epochs, propagation, c, sqrt, integrate, Ok(states)),
    ensures
        states.len() >= out.len(),
        forall|i: int|
            0 <= i < out.len() ==> (#[trigger] out[i]).aberrated_state.covariance
                == states[i].state.covariance,
{
    let (s, u) = lemma_origin_of_records(
        p,
        orbit,
        observers,
        config,
        c,
        spherical_jacobian,
        observe,
        integrate,
        out,
    );
    let v = u->Some_0;
    let o = orbit_outcome(orbit)->Ok_0;
    assert(epochs =~= emission_epochs(observers, s@)) by {
        assert forall|i: int| 0 <= i < out.len() implies #[trigger] epochs[i] == emission_epochs(
            observers,
            s@,
        )[i] by {
            assert(out[i].light_time == Some(s@[i].light_time));
        }
    }
    let reply = choose|reply: Reply<IntegratedState<T>>| #[trigger]
        integrated(
            integrate,
            p.data,
            o,
            epochs,
            wants_stm(orbit, propagation),
            p.integrator,
            reply,
        ) && Ok::<Seq<PropagatedState<T>>, ErrorView>(states) == propagate_outcome(
            c,
            sqrt,
            orbit,
            propagation,
            reply,
        );
    let w = reply->Ok_0;
    assert(reply == Ok::<Vec<IntegratedState<T>>, String>(w));
    assert(integrated(integrate, p.data, o, epochs, true, p.integrator, reply));
    assert(same_reply(Ok::<Vec<IntegratedState<T>>, String>(v), reply));
    assert(v@ == w@);
    assert forall|i: int| 0 <= i < out.len() implies (
    #[trigger] out[i]).aberrated_state.covariance == states[i].state.covariance by {
        assert(states[i] == propagated(
            c,
            sqrt,
            orbit.state.covariance,
            propagation.compute_stm,
            w@[i],
        ));
    }
}

} // verus!
