//! Ephemerides: what a set of observers sees of an orbit.

use vstd::prelude::*;
use vstd::std_specs::ops::{MulSpec, SubSpec};

use crate::constants::Constants;
use crate::engine::{
    integrated, sighted, AssistObserver, AssistOrbit, AssistOrigin, IntegratedState,
    IntegratorConfig, Reply, Sighting,
};
use crate::linalg::{congruence, propagate_covariance_6x6, Mat6};
use crate::observation::{observation_jacobian, observation_jacobian_assist, Topocentric};
use crate::propagator::{from_helio_ecliptic, AssistPropagator};
use crate::requests::{
    check_covariance_request, covariance_request_outcome, orbit_outcome, to_assist_orbit,
};
use crate::scalar::{is_function, lawful, Scalar};
use crate::types::{
    cartesian, list_outcome, EphemerisConfig, EphemerisRecord, ErrorView, Frame, ObserverState,
    Origin, PropagatorError, SphericalState, TestOrbit,
};

verus! {

/// An observer as the engine takes it: its code and its epoch.
pub open spec fn assist_observer<T>(o: ObserverState<T>) -> AssistObserver<T> {
    AssistObserver { origin: AssistOrigin::Observatory(o.code), epoch: o.state.epoch }
}

/// The observers as the engine takes them.
pub open spec fn assist_observers<T>(observers: Seq<ObserverState<T>>) -> Seq<AssistObserver<T>> {
    Seq::new(observers.len(), |i: int| assist_observer(observers[i]))
}

/// The observers as the engine takes them.
pub fn to_assist_observers<T: Copy>(observers: &[ObserverState<T>]) -> (out: Vec<AssistObserver<T>>)
    ensures
        out@ == assist_observers(observers@),
{
    let mut out: Vec<AssistObserver<T>> = Vec::with_capacity(observers.len());
    let mut i: usize = 0;
    while i < observers.len()
        invariant
            i <= observers@.len(),
            out@ == assist_observers(observers@).take(i as int),
        decreases observers@.len() - i,
    {
        let o = &observers[i];
        out.push(
            AssistObserver {
                origin: AssistOrigin::Observatory(o.code.clone()),
                epoch: o.state.epoch,
            },
        );
        i = i + 1;
        assert(out@ =~= assist_observers(observers@).take(i as int));
    }
    assert(out@ =~= assist_observers(observers@));
    out
}

/// The number of records: one for each pair of a sighting and an observer.
pub open spec fn pair_count(a: nat, b: nat) -> nat {
    if a < b {
        a
    } else {
        b
    }
}

/// When the light that each observer sees left the object: the epoch of the
/// observation less the light time.
pub open spec fn emission_epochs<T: Scalar>(
    observers: Seq<ObserverState<T>>,
    sightings: Seq<Sighting<T>>,
) -> Seq<T> {
    Seq::new(
        pair_count(observers.len(), sightings.len()),
        |i: int| observers[i].state.epoch.sub_spec(sightings[i].light_time),
    )
}

/// When the light that each observer sees left the object.
pub fn emitted_at<T: Scalar>(observers: &[ObserverState<T>], sightings: &Vec<Sighting<T>>) -> (out:
    Vec<T>)
    requires
        lawful::<T>(),
    ensures
        out@ == emission_epochs(observers@, sightings@),
{
    let mut out: Vec<T> = Vec::new();
    let mut i: usize = 0;
    while i < observers.len() && i < sightings.len()
        invariant
            lawful::<T>(),
            i <= observers@.len(),
            i <= sightings@.len(),
            out@ == emission_epochs(observers@, sightings@).take(i as int),
        decreases observers@.len() - i,
    {
        out.push(observers[i].state.epoch - sightings[i].light_time);
        i = i + 1;
        assert(out@ =~= emission_epochs(observers@, sightings@).take(i as int));
    }
    assert(out@ =~= emission_epochs(observers@, sightings@));
    out
}

/// State transition matrices to the emission epochs are needed for covariances
/// and for Jacobians.
pub open spec fn needs_stm(config: EphemerisConfig) -> bool {
    config.compute_covariance || config.compute_jacobian
}

/// The on-sky state of a sighting: equatorial, with its angles in degrees.
pub open spec fn on_sky<T: Scalar>(
    c: Constants<T>,
    s: Sighting<T>,
    covariance: Option<Mat6<T>>,
) -> SphericalState<T> {
    SphericalState {
        rho: s.spherical[0],
        lon: s.spherical[1].mul_spec(c.rad_to_deg),
        lat: s.spherical[2].mul_spec(c.rad_to_deg),
        vrho: s.spherical[3],
        vlon: s.spherical[4].mul_spec(c.rad_to_deg),
        vlat: s.spherical[5].mul_spec(c.rad_to_deg),
        epoch: s.epoch,
        frame: Frame::Equatorial,
        origin: Origin::Sun,
        covariance,
    }
}

/// The covariance `sigma` through the linear map `j`, where both are there.
pub open spec fn mapped<T: Scalar>(
    zero: T,
    j: Option<Mat6<T>>,
    sigma: Option<Mat6<T>>,
) -> Option<Mat6<T>> {
    match (j, sigma) {
        (Some(j), Some(sigma)) => Some(congruence(zero, j, sigma)),
        _ => None,
    }
}

/// The record of one sighting. `cov0` is the orbit's covariance and `phi` the
/// state transition matrix to the emission epoch.
///
/// Covariances and the Jacobian are there only where they were asked for. The
/// aberrated state is labelled with the emission epoch, at which it holds.
pub open spec fn record<T: Scalar, J: Fn(Topocentric<T>) -> Mat6<T>>(
    c: Constants<T>,
    spherical_jacobian: J,
    cov0: Option<Mat6<T>>,
    config: EphemerisConfig,
    s: Sighting<T>,
    observer: ObserverState<T>,
    phi: Option<Mat6<T>>,
) -> EphemerisRecord<T> {
    let jacobian = match phi {
        Some(p) => Some(
            observation_jacobian(c, spherical_jacobian, p, s.aberrated_state, observer.state),
        ),
        None => None,
    };
    let cov = if config.compute_covariance {
        cov0
    } else {
        None
    };
    EphemerisRecord {
        state: on_sky(c, s, mapped(c.zero, jacobian, cov)),
        aberrated_state: cartesian(
            s.aberrated_state,
            s.epoch.sub_spec(s.light_time),
            Frame::EclipticJ2000,
            Origin::Sun,
            mapped(c.zero, phi, cov),
        ),
        observer_state: observer.state,
        light_time: Some(s.light_time),
        observation_jacobian: if config.compute_jacobian {
            jacobian
        } else {
            None
        },
        mean_shift: None,
    }
}

/// The record of one sighting.
pub fn ephemeris_record<T: Scalar, J: Fn(Topocentric<T>) -> Mat6<T>>(
    c: &Constants<T>,
    spherical_jacobian: &J,
    cov0: &Option<Mat6<T>>,
    config: &EphemerisConfig,
    s: &Sighting<T>,
    observer: &ObserverState<T>,
    phi: &Option<Mat6<T>>,
) -> (r: EphemerisRecord<T>)
    requires
        lawful::<T>(),
        is_function(*spherical_jacobian),
    ensures
        r == record(*c, *spherical_jacobian, *cov0, *config, *s, *observer, *phi),
{
    let jacobian = match phi {
        Some(p) => Some(
            observation_jacobian_assist(
                c,
                spherical_jacobian,
                p,
                &s.aberrated_state,
                &observer.state,
            ),
        ),
        None => None,
    };
    let (state_cov, sky_cov) = match (phi, &jacobian, cov0, config.compute_covariance) {
        (Some(p), Some(j), Some(sigma), true) => (
            Some(propagate_covariance_6x6(c.zero, p, sigma)),
            Some(propagate_covariance_6x6(c.zero, j, sigma)),
        ),
        _ => (None, None),
    };
    let state = SphericalState {
        rho: s.spherical[0],
        lon: s.spherical[1] * c.rad_to_deg,
        lat: s.spherical[2] * c.rad_to_deg,
        vrho: s.spherical[3],
        vlon: s.spherical[4] * c.rad_to_deg,
        vlat: s.spherical[5] * c.rad_to_deg,
        epoch: s.epoch,
        frame: Frame::Equatorial,
        origin: Origin::Sun,
        covariance: sky_cov,
    };
    let mut aberrated_state = from_helio_ecliptic(s.aberrated_state, s.epoch - s.light_time);
    aberrated_state.covariance = state_cov;
    EphemerisRecord {
        state,
        aberrated_state,
        observer_state: observer.state,
        light_time: Some(s.light_time),
        observation_jacobian: if config.compute_jacobian {
            jacobian
        } else {
            None
        },
        mean_shift: None,
    }
}

/// An optional list as a specification value.
pub open spec fn listed<V>(v: Option<Vec<V>>) -> Option<Seq<V>> {
    match v {
        Some(v) => Some(v@),
        None => None,
    }
}

/// The state transition matrix of record `i`, where matrices were asked for.
pub open spec fn stm_at<T>(states: Option<Seq<IntegratedState<T>>>, i: int) -> Option<Mat6<T>> {
    match states {
        Some(v) => v[i].stm,
        None => None,
    }
}

/// The records of a list of sightings, each with the observer of its index.
pub open spec fn records<T: Scalar, J: Fn(Topocentric<T>) -> Mat6<T>>(
    c: Constants<T>,
    spherical_jacobian: J,
    orbit: TestOrbit<T>,
    observers: Seq<ObserverState<T>>,
    config: EphemerisConfig,
    sightings: Seq<Sighting<T>>,
    states: Option<Seq<IntegratedState<T>>>,
) -> Seq<EphemerisRecord<T>> {
    Seq::new(
        pair_count(observers.len(), sightings.len()),
        |i: int|
            record(
                c,
                spherical_jacobian,
                orbit.state.covariance,
                config,
                sightings[i],
                observers[i],
                stm_at(states, i),
            ),
    )
}

/// Some state lacks its state transition matrix.
pub open spec fn lacks_stm<T>(states: Seq<IntegratedState<T>>) -> bool {
    exists|i: int| 0 <= i < states.len() && (#[trigger] states[i]).stm is None
}

/// Whether some state lacks its state transition matrix.
pub fn any_stm_missing<T>(states: &Vec<IntegratedState<T>>) -> (r: bool)
    ensures
        r == lacks_stm(states@),
{
    let mut i: usize = 0;
    while i < states.len()
        invariant
            i <= states@.len(),
            forall|k: int| 0 <= k < i ==> (#[trigger] states@[k]).stm is Some,
        decreases states@.len() - i,
    {
        if states[i].stm.is_none() {
            return true;
        }
        i = i + 1;
    }
    false
}

/// What becomes of an ephemeris on the sightings, and on the reply to the
/// integration to the emission epochs (`None` where none was needed).
pub open spec fn ephemeris_outcome<T: Scalar, J: Fn(Topocentric<T>) -> Mat6<T>>(
    c: Constants<T>,
    spherical_jacobian: J,
    orbit: TestOrbit<T>,
    observers: Seq<ObserverState<T>>,
    config: EphemerisConfig,
    sightings: Seq<Sighting<T>>,
    integration: Option<Reply<IntegratedState<T>>>,
) -> Result<Seq<EphemerisRecord<T>>, ErrorView> {
    match integration {
        Some(Err(e)) => Err(ErrorView::PropagationFailed(e@)),
        Some(Ok(v)) => if config.compute_covariance && lacks_stm(v@) {
            Err(
                ErrorView::PropagationFailed(
                    "AssistPropagator::generate_ephemeris: compute_covariance requested but assist_propagate returned no STM for one or more emission epochs"@,
                ),
            )
        } else {
            Ok(records(c, spherical_jacobian, orbit, observers, config, sightings, Some(v@)))
        },
        None => Ok(records(c, spherical_jacobian, orbit, observers, config, sightings, None)),
    }
}

/// The result of an ephemeris on the engine's replies.
pub fn finish_ephemeris<T: Scalar, J: Fn(Topocentric<T>) -> Mat6<T>>(
    c: &Constants<T>,
    spherical_jacobian: &J,
    orbit: &TestOrbit<T>,
    observers: &[ObserverState<T>],
    config: &EphemerisConfig,
    sightings: &Vec<Sighting<T>>,
    integration: Option<Reply<IntegratedState<T>>>,
) -> (r: Result<Vec<EphemerisRecord<T>>, PropagatorError>)
    requires
        lawful::<T>(),
        is_function(*spherical_jacobian),
        integration matches Some(Ok(v)) ==> v@.len() >= pair_count(
            observers@.len(),
            sightings@.len(),
        ) || (config.compute_covariance && lacks_stm(v@)),
    ensures
        list_outcome(r) == ephemeris_outcome(
            *c,
            *spherical_jacobian,
            *orbit,
            observers@,
            *config,
            sightings@,
            integration,
        ),
{
    let states: Option<Vec<IntegratedState<T>>> = match integration {
        Some(Err(e)) => {
            return Err(PropagatorError::PropagationFailed(e));
        },
        Some(Ok(v)) => Some(v),
        None => None,
    };
    match &states {
        Some(v) => if config.compute_covariance && any_stm_missing(v) {
            return Err(
                PropagatorError::PropagationFailed(
                    String::from_str(
                        "AssistPropagator::generate_ephemeris: compute_covariance requested but assist_propagate returned no STM for one or more emission epochs",
                    ),
                ),
            );
        },
        None => {},
    }
    let ghost seen = listed(states);
    let ghost want = records(
        *c,
        *spherical_jacobian,
        *orbit,
        observers@,
        *config,
        sightings@,
        seen,
    );
    let mut out: Vec<EphemerisRecord<T>> = Vec::with_capacity(sightings.len());
    let mut i: usize = 0;
    while i < observers.len() && i < sightings.len()
        invariant
            lawful::<T>(),
            is_function(*spherical_jacobian),
            i <= observers@.len(),
            i <= sightings@.len(),
            states matches Some(v) ==> v@.len() >= pair_count(observers@.len(), sightings@.len()),
            seen == listed(states),
            want == records(
                *c,
                *spherical_jacobian,
                *orbit,
                observers@,
                *config,
                sightings@,
                seen,
            ),
            out@ == want.take(i as int),
        decreases observers@.len() - i,
    {
        let phi = match &states {
            Some(v) => v[i].stm,
            None => None,
        };
        out.push(
            ephemeris_record(
                c,
                spherical_jacobian,
                &orbit.state.covariance,
                config,
                &sightings[i],
                &observers[i],
                &phi,
            ),
        );
        i = i + 1;
        assert(out@ =~= want.take(i as int));
    }
    assert(out@ =~= want);
    Ok(out)
}

/// The engine's answers hold at least one state for each epoch, unless one
/// lacks its matrix where covariances are asked for, which is an error of its
/// own.
pub open spec fn answers_enough<
    D,
    T,
    I: Fn(&D, &AssistOrbit<T>, &[T], bool, &IntegratorConfig<T>) -> Reply<
        IntegratedState<T>,
    >,
>(integrate: I, config: EphemerisConfig) -> bool {
    forall|
        d: &D,
        o: &AssistOrbit<T>,
        e: &[T],
        w: bool,
        k: &IntegratorConfig<T>,
        v: Vec<IntegratedState<T>>,
    | #[trigger]
        integrate.ensures((d, o, e, w, k), Ok(v)) ==> v@.len() >= e@.len() || (
        config.compute_covariance && lacks_stm(v@))
}

/// The results that an ephemeris may have once the engine gave `sightings`.
pub open spec fn may_finish<
    D,
    T: Scalar,
    J: Fn(Topocentric<T>) -> Mat6<T>,
    I: Fn(&D, &AssistOrbit<T>, &[T], bool, &IntegratorConfig<T>) -> Reply<
        IntegratedState<T>,
    >,
>(
    p: AssistPropagator<T, D>,
    orbit: TestOrbit<T>,
    a_orbit: AssistOrbit<T>,
    observers: Seq<ObserverState<T>>,
    config: EphemerisConfig,
    c: Constants<T>,
    spherical_jacobian: J,
    integrate: I,
    sightings: Seq<Sighting<T>>,
    out: Result<Seq<EphemerisRecord<T>>, ErrorView>,
) -> bool {
    if needs_stm(config) {
        exists|reply: Reply<IntegratedState<T>>| #[trigger]
            integrated(
                integrate,
                p.data,
                a_orbit,
                emission_epochs(observers, sightings),
                true,
                p.integrator,
                reply,
            ) && out == ephemeris_outcome(
                c,
                spherical_jacobian,
                orbit,
                observers,
                config,
                sightings,
                Some(reply),
            )
    } else {
        out == ephemeris_outcome(c, spherical_jacobian, orbit, observers, config, sightings, None)
    }
}

/// The results that [`AssistPropagator::generate_ephemeris`] may give. The
/// covariance request is looked at first, then the orbit; where both are
/// accepted, the engine is asked for the sightings and, where they are needed,
/// for the state transition matrices to the emission epochs.
pub open spec fn may_generate<
    D,
    T: Scalar,
    J: Fn(Topocentric<T>) -> Mat6<T>,
    O: Fn(
        &D,
        &AssistOrbit<T>,
        &[AssistObserver<T>],
        Option<usize>,
        &IntegratorConfig<T>,
    ) -> Reply<Sighting<T>>,
    I: Fn(&D, &AssistOrbit<T>, &[T], bool, &IntegratorConfig<T>) -> Reply<
        IntegratedState<T>,
    >,
>(
    p: AssistPropagator<T, D>,
    orbit: TestOrbit<T>,
    observers: Seq<ObserverState<T>>,
    config: EphemerisConfig,
    c: Constants<T>,
    spherical_jacobian: J,
    observe: O,
    integrate: I,
    out: Result<Seq<EphemerisRecord<T>>, ErrorView>,
) -> bool {
    match (covariance_request_outcome(orbit, config), orbit_outcome(orbit)) {
        (Err(e), _) => out == Err::<Seq<EphemerisRecord<T>>, ErrorView>(e),
        (Ok(_), Err(e)) => out == Err::<Seq<EphemerisRecord<T>>, ErrorView>(e),
        (Ok(_), Ok(o)) => exists|reply: Reply<Sighting<T>>| #[trigger]
            sighted(
                observe,
                p.data,
                o,
                assist_observers(observers),
                Some(1usize),
                p.integrator,
                reply,
            ) && match reply {
                Err(e) => out == Err::<Seq<EphemerisRecord<T>>, ErrorView>(
                    ErrorView::PropagationFailed(e@),
                ),
                Ok(s) => may_finish(
                    p,
                    orbit,
                    o,
                    observers,
                    config,
                    c,
                    spherical_jacobian,
                    integrate,
                    s@,
                    out,
                ),
            },
    }
}

impl<T: Scalar, D> AssistPropagator<T, D> {
    /// What `observers` see of an orbit, one record for each, in their order.
    ///
    /// Where it is asked, `integrate` returns at least one state for each
    /// epoch, or lacks a matrix that a covariance needs.
    pub fn generate_ephemeris<
        J: Fn(Topocentric<T>) -> Mat6<T>,
        O: Fn(
            &D,
            &AssistOrbit<T>,
            &[AssistObserver<T>],
            Option<usize>,
            &IntegratorConfig<T>,
        ) -> Reply<Sighting<T>>,
        I: Fn(&D, &AssistOrbit<T>, &[T], bool, &IntegratorConfig<T>) -> Reply<
            IntegratedState<T>,
        >,
    >(
        &self,
        orbit: &TestOrbit<T>,
        observers: &[ObserverState<T>],
        config: &EphemerisConfig,
        c: &Constants<T>,
        spherical_jacobian: &J,
        observe: &O,
        integrate: &I,
    ) -> (r: Result<Vec<EphemerisRecord<T>>, PropagatorError>)
        requires
            lawful::<T>(),
            is_function(*spherical_jacobian),
            forall|
                d: &D,
                o: &AssistOrbit<T>,
                v: &[AssistObserver<T>],
                n: Option<usize>,
                k: &IntegratorConfig<T>,
            | #[trigger]
                observe.requires((d, o, v, n, k)),
            forall|d: &D, o: &AssistOrbit<T>, e: &[T], w: bool, k: &IntegratorConfig<T>|
                #[trigger] integrate.requires((d, o, e, w, k)),
            needs_stm(*config) ==> answers_enough(*integrate, *config),
        ensures
            may_generate(
                *self,
                *orbit,
                observers@,
                *config,
                *c,
                *spherical_jacobian,
                *observe,
                *integrate,
                list_outcome(r),
            ),
    {
        match check_covariance_request(orbit, config) {
            Err(e) => {
                return Err(e);
            },
            Ok(_) => {},
        }
        let a_orbit = match to_assist_orbit(orbit) {
            Err(e) => {
                return Err(e);
            },
            Ok(o) => o,
        };
        assert(orbit_outcome(*orbit)->Ok_0 == a_orbit);
        let a_observers = to_assist_observers(observers);
        let seen = observe(
            &self.data,
            &a_orbit,
            a_observers.as_slice(),
            Some(1),
            &self.integrator,
        );
        assert(sighted(
            *observe,
            self.data,
            orbit_outcome(*orbit)->Ok_0,
            assist_observers(observers@),
            Some(1usize),
            self.integrator,
            seen,
        ));
        let sightings = match seen {
            Err(e) => {
                return Err(PropagatorError::PropagationFailed(e));
            },
            Ok(s) => s,
        };
        if !(config.compute_covariance || config.compute_jacobian) {
            return finish_ephemeris(
                c,
                spherical_jacobian,
                orbit,
                observers,
                config,
                &sightings,
                None,
            );
        }
        let epochs = emitted_at(observers, &sightings);
        let reply = integrate(&self.data, &a_orbit, epochs.as_slice(), true, &self.integrator);
        let ghost answer = reply;
        let r = finish_ephemeris(
            c,
            spherical_jacobian,
            orbit,
            observers,
            config,
            &sightings,
            Some(reply),
        );
        assert(integrated(
            *integrate,
            self.data,
            orbit_outcome(*orbit)->Ok_0,
            emission_epochs(observers@, sightings@),
            true,
            self.integrator,
            answer,
        ));
        r
    }
}

} // verus!
