//! What an ephemeris hands to the engine, and what it makes of the replies.

use vstd::prelude::*;
use vstd::std_specs::ops::{MulSpec, SubSpec};

use crate::constants::Constants;
use crate::engine::{
    integrated, sighted, AssistObserver, AssistOrbit, AssistOrigin, IntegratedState,
    IntegratorConfig, Reply, Sighting,
};
use crate::ephemeris::{
    answers_enough, assist_observers, emission_epochs, ephemeris_outcome, may_finish, may_generate,
    needs_stm,
};
use crate::exact::exact;
use crate::laws::entries::{mapped_covariance_entries, sandwich};
use crate::laws::ephemeris::lemma_origin_of_records;
use crate::laws::observation_results::{
    has_chained_entries, is_equatorial_difference, jacobian_is_taken_at_the_difference,
};
use crate::linalg::Mat6;
use crate::observation::{observation_jacobian, Topocentric};
use crate::propagator::AssistPropagator;
use crate::requests::{covariance_request_outcome, orbit_outcome};
use crate::scalar::{applied, Scalar};
use crate::types::{
    CovarianceMethod, EphemerisConfig, EphemerisRecord, ErrorView, Frame, ObserverState, Origin,
    TestOrbit,
};

verus! {

/// The engine's orbit holds the six components and the epoch of an orbit.
pub open spec fn is_the_orbit<T>(o: AssistOrbit<T>, orbit: TestOrbit<T>) -> bool {
    &&& o.state[0] == orbit.state.x
    &&& o.state[1] == orbit.state.y
    &&& o.state[2] == orbit.state.z
    &&& o.state[3] == orbit.state.vx
    &&& o.state[4] == orbit.state.vy
    &&& o.state[5] == orbit.state.vz
    &&& o.epoch == orbit.state.epoch
}

/// The engine gave `sightings` when it was asked, on one thread and with the
/// propagator's settings, how the observers see the orbit: each by its code
/// and its epoch, in their order.
pub open spec fn sightings_are_the_reply<
    D,
    T,
    O: Fn(
        &D,
        &AssistOrbit<T>,
        &[AssistObserver<T>],
        Option<usize>,
        &IntegratorConfig<T>,
    ) -> Reply<Sighting<T>>,
>(
    p: AssistPropagator<T, D>,
    orbit: TestOrbit<T>,
    observers: Seq<ObserverState<T>>,
    observe: O,
    reply: Reply<Sighting<T>>,
) -> bool {
    exists|o: &AssistOrbit<T>, v: &[AssistObserver<T>]|
        {
            &&& #[trigger] observe.ensures(
                (&p.data, o, v, Some(1usize), &p.integrator),
                reply,
            )
            &&& is_the_orbit(*o, orbit)
            &&& v@.len() == observers.len()
            &&& forall|i: int|
                0 <= i < v@.len() ==> (#[trigger] v@[i]).origin == AssistOrigin::Observatory(
                    observers[i].code,
                ) && v@[i].epoch == observers[i].state.epoch
        }
}

/// The engine gave `reply` when it was asked, with the propagator's settings
/// and with state transition matrices, to take the orbit to the epochs at
/// which the light of each sighting left: the epoch of its observer less its
/// light time.
pub open spec fn states_are_the_reply<
    D,
    T: Scalar,
    I: Fn(&D, &AssistOrbit<T>, &[T], bool, &IntegratorConfig<T>) -> Reply<
        IntegratedState<T>,
    >,
>(
    p: AssistPropagator<T, D>,
    orbit: TestOrbit<T>,
    observers: Seq<ObserverState<T>>,
    sightings: Seq<Sighting<T>>,
    integrate: I,
    reply: Reply<IntegratedState<T>>,
) -> bool {
    exists|o: &AssistOrbit<T>, e: &[T]|
        {
            &&& #[trigger] integrate.ensures((&p.data, o, e, true, &p.integrator), reply)
            &&& is_the_orbit(*o, orbit)
            &&& e@.len() <= observers.len()
            &&& e@.len() <= sightings.len()
            &&& e@.len() == observers.len() || e@.len() == sightings.len()
            &&& forall|i: int|
                0 <= i < e@.len() ==> #[trigger] e@[i] == observers[i].state.epoch.sub_spec(
                    sightings[i].light_time,
                )
        }
}

/// Record `i` is made of sighting `i` and observer `i`, and there is one for
/// each pair. Range and range rate are passed on; the two angles and their
/// rates are each multiplied by the degrees in a radian. The aberrated state
/// holds the six components of the sighting's, at its epoch less its light
/// time, in the ecliptic frame about the Sun. The observer's state and the
/// light time are passed on. Covariances are there just when they were asked
/// for, and then no state lacks its matrix; a Jacobian is there just when it was
/// asked for and the state of its index has a matrix.
///
/// Returns the engine's sightings, and its states where matrices were needed.
pub proof fn records_hold_the_sightings<
    D,
    T: Scalar,
    J: Fn(Topocentric<T>) -> Mat6<T>,
    O: Fn(
        &D,
        &AssistOrbit<T>,
        &[AssistObserver<T>],
        Option<usize>,
        &IntegratorConfig<T>,
    ) -> Reply<Sighting<T>>,
    I: Fn(&D, &AssistOrbit<T>, &[T], bool, &IntegratorConfig<T>) -> Reply<
        IntegratedState<T>,
    >,
>(
    p: AssistPropagator<T, D>,
    orbit: TestOrbit<T>,
    observers: Seq<ObserverState<T>>,
    config: EphemerisConfig,
    c: Constants<T>,
    spherical_jacobian: J,
    observe: O,
    integrate: I,
    out: Seq<EphemerisRecord<T>>,
) -> (r: (Vec<Sighting<T>>, Option<Vec<IntegratedState<T>>>))
    requires
        may_generate(
            p,
            orbit,
            observers,
            config,
            c,
            spherical_jacobian,
            observe,
            integrate,
            Ok(out),
        ),
        needs_stm(config) ==> answers_enough(integrate, config),
    ensures
        orbit.state.frame == Frame::EclipticJ2000,
        orbit.state.origin == Origin::Sun,
        sightings_are_the_reply(p, orbit, observers, observe, Ok(r.0)),
        r.1 is Some <==> config.compute_covariance || config.compute_jacobian,
        r.1 matches Some(v) ==> states_are_the_reply(
            p,
            orbit,
            observers,
            r.0@,
            integrate,
            Ok(v),
        ),
        config.compute_covariance ==> forall|k: int|
            0 <= k < r.1->Some_0@.len() ==> (#[trigger] r.1->Some_0@[k]).stm is Some,
        out.len() <= observers.len(),
        out.len() <= r.0@.len(),
        out.len() == observers.len() || out.len() == r.0@.len(),
        forall|i: int|
            0 <= i < out.len() ==> {
                let e = #[trigger] out[i];
                let s = r.0@[i];
                &&& e.state.rho == s.spherical[0]
                &&& e.state.lon == s.spherical[1].mul_spec(c.rad_to_deg)
                &&& e.state.lat == s.spherical[2].mul_spec(c.rad_to_deg)
                &&& e.state.vrho == s.spherical[3]
                &&& e.state.vlon == s.spherical[4].mul_spec(c.rad_to_deg)
                &&& e.state.vlat == s.spherical[5].mul_spec(c.rad_to_deg)
                &&& e.state.epoch == s.epoch
                &&& e.state.frame == Frame::Equatorial
                &&& e.state.origin == Origin::Sun
                &&& e.state.covariance is Some <==> config.compute_covariance
                &&& e.aberrated_state.x == s.aberrated_state[0]
                &&& e.aberrated_state.y == s.aberrated_state[1]
                &&& e.aberrated_state.z == s.aberrated_state[2]
                &&& e.aberrated_state.vx == s.aberrated_state[3]
                &&& e.aberrated_state.vy == s.aberrated_state[4]
                &&& e.aberrated_state.vz == s.aberrated_state[5]
                &&& e.aberrated_state.epoch == s.epoch.sub_spec(s.light_time)
                &&& e.aberrated_state.frame == Frame::EclipticJ2000
                &&& e.aberrated_state.origin == Origin::Sun
                &&& e.aberrated_state.covariance is Some <==> config.compute_covariance
                &&& e.observer_state == observers[i].state
                &&& e.light_time == Some(s.light_time)
                &&& e.observation_jacobian is Some <==> config.compute_jacobian
                    && r.1->Some_0@[i].stm is Some
                &&& e.mean_shift is None
            },
{
    let r = lemma_origin_of_records(
        p,
        orbit,
        observers,
        config,
        c,
        spherical_jacobian,
        observe,
        integrate,
        out,
    );
    lemma_questions(p, orbit, observers, observe, integrate, r.0@, Ok(r.0), r.1);
    r
}

/// The questions that the engine was asked, written out.
proof fn lemma_questions<
    D,
    T: Scalar,
    O: Fn(
        &D,
        &AssistOrbit<T>,
        &[AssistObserver<T>],
        Option<usize>,
        &IntegratorConfig<T>,
    ) -> Reply<Sighting<T>>,
    I: Fn(&D, &AssistOrbit<T>, &[T], bool, &IntegratorConfig<T>) -> Reply<
        IntegratedState<T>,
    >,
>(
    p: AssistPropagator<T, D>,
    orbit: TestOrbit<T>,
    observers: Seq<ObserverState<T>>,
    observe: O,
    integrate: I,
    sightings: Seq<Sighting<T>>,
    seen: Reply<Sighting<T>>,
    states: Option<Vec<IntegratedState<T>>>,
)
    requires
        orbit_outcome(orbit) is Ok,
        sighted(
            observe,
            p.data,
            orbit_outcome(orbit)->Ok_0,
            assist_observers(observers),
            Some(1usize),
            p.integrator,
            seen,
        ),
        states matches Some(v) ==> integrated(
            integrate,
            p.data,
            orbit_outcome(orbit)->Ok_0,
            emission_epochs(observers, sightings),
            true,
            p.integrator,
            Ok(v),
        ),
    ensures
        sightings_are_the_reply(p, orbit, observers, observe, seen),
        states matches Some(v) ==> states_are_the_reply(
            p,
            orbit,
            observers,
            sightings,
            integrate,
            Ok(v),
        ),
{
    let o = orbit_outcome(orbit)->Ok_0;
    let v = choose|v: &[AssistObserver<T>]|
        v@ == assist_observers(observers) && #[trigger] observe.ensures(
            (&p.data, &o, v, Some(1usize), &p.integrator),
            seen,
        );
    let asked = &o;
    assert(observe.ensures((&p.data, asked, v, Some(1usize), &p.integrator), seen));
    assert forall|i: int| 0 <= i < v@.len() implies (#[trigger] v@[i]).origin
        == AssistOrigin::Observatory(observers[i].code) && v@[i].epoch
        == observers[i].state.epoch by {
        assert(v@[i] == assist_observers(observers)[i]);
    }
    match states {
        Some(w) => {
            lemma_integration(p, orbit, observers, integrate, sightings, Ok(w));
        },
        None => {},
    }
}

/// The question of the integration, written out.
proof fn lemma_integration<
    D,
    T: Scalar,
    I: Fn(&D, &AssistOrbit<T>, &[T], bool, &IntegratorConfig<T>) -> Reply<
        IntegratedState<T>,
    >,
>(
    p: AssistPropagator<T, D>,
    orbit: TestOrbit<T>,
    observers: Seq<ObserverState<T>>,
    integrate: I,
    sightings: Seq<Sighting<T>>,
    reply: Reply<IntegratedState<T>>,
)
    requires
        orbit_outcome(orbit) is Ok,
        integrated(
            integrate,
            p.data,
            orbit_outcome(orbit)->Ok_0,
            emission_epochs(observers, sightings),
            true,
            p.integrator,
            reply,
        ),
    ensures
        states_are_the_reply(p, orbit, observers, sightings, integrate, reply),
{
    let o = orbit_outcome(orbit)->Ok_0;
    let e = choose|e: &[T]|
        e@ == emission_epochs(observers, sightings) && #[trigger] integrate.ensures(
            (&p.data, &o, e, true, &p.integrator),
            reply,
        );
    let asked = &o;
    assert(integrate.ensures((&p.data, asked, e, true, &p.integrator), reply));
    assert forall|i: int| 0 <= i < e@.len() implies #[trigger] e@[i]
        == observers[i].state.epoch.sub_spec(sightings[i].light_time) by {
        assert(e@[i] == emission_epochs(observers, sightings)[i]);
    }
}

/// Over the real numbers, the angles and the angular rates of record `i` are
/// those of sighting `i` times the degrees in a radian, signs included; its
/// range and range rate are the sighting's.
///
/// Returns the engine's sightings.
pub proof fn angles_are_in_degrees<
    D,
    T: Scalar,
    J: Fn(Topocentric<T>) -> Mat6<T>,
    O: Fn(
        &D,
        &AssistOrbit<T>,
        &[AssistObserver<T>],
        Option<usize>,
        &IntegratorConfig<T>,
    ) -> Reply<Sighting<T>>,
    I: Fn(&D, &AssistOrbit<T>, &[T], bool, &IntegratorConfig<T>) -> Reply<
        IntegratedState<T>,
    >,
>(
    val: spec_fn(T) -> real,
    p: AssistPropagator<T, D>,
    orbit: TestOrbit<T>,
    observers: Seq<ObserverState<T>>,
    config: EphemerisConfig,
    c: Constants<T>,
    spherical_jacobian: J,
    observe: O,
    integrate: I,
    out: Seq<EphemerisRecord<T>>,
) -> (sightings: Vec<Sighting<T>>)
    requires
        exact(val),
        may_generate(
            p,
            orbit,
            observers,
            config,
            c,
            spherical_jacobian,
            observe,
            integrate,
            Ok(out),
        ),
        needs_stm(config) ==> answers_enough(integrate, config),
    ensures
        sightings_are_the_reply(p, orbit, observers, observe, Ok(sightings)),
        out.len() <= sightings@.len(),
        forall|i: int|
            0 <= i < out.len() ==> {
                let e = (#[trigger] out[i]).state;
                let s = sightings@[i].spherical;
                &&& val(e.rho) == val(s[0])
                &&& val(e.lon) == val(s[1]) * val(c.rad_to_deg)
                &&& val(e.lat) == val(s[2]) * val(c.rad_to_deg)
                &&& val(e.vrho) == val(s[3])
                &&& val(e.vlon) == val(s[4]) * val(c.rad_to_deg)
                &&& val(e.vlat) == val(s[5]) * val(c.rad_to_deg)
            },
{
    let r = records_hold_the_sightings(
        p,
        orbit,
        observers,
        config,
        c,
        spherical_jacobian,
        observe,
        integrate,
        out,
    );
    r.0
}

/// What the derivatives of a record are: with `phi` the state transition
/// matrix to the emission epoch, the aberrated state's covariance is the
/// orbit's between `phi` and its transpose. The Jacobian is taken at the
/// equatorial difference of the aberrated state and the observer, and the
/// on-sky covariance is the orbit's between that Jacobian and its transpose.
pub open spec fn derivatives_follow<T: Scalar, J: Fn(Topocentric<T>) -> Mat6<T>>(
    val: spec_fn(T) -> real,
    c: Constants<T>,
    spherical_jacobian: J,
    cov0: Option<Mat6<T>>,
    s: Sighting<T>,
    observer: ObserverState<T>,
    phi: Mat6<T>,
    e: EphemerisRecord<T>,
) -> bool {
    exists|t: Topocentric<T>, j: Mat6<T>|
        {
            &&& is_equatorial_difference(val, c, s.aberrated_state, observer.state, t)
            &&& #[trigger] has_chained_entries(val, c, applied(spherical_jacobian, t), phi, j)
            &&& e.observation_jacobian is Some ==> e.observation_jacobian == Some(j)
            &&& e.state.covariance is Some ==> forall|a: int, b: int|
                0 <= a < 6 && 0 <= b < 6 ==> val(#[trigger] e.state.covariance->Some_0[a][b])
                    == sandwich(val, j, cov0->Some_0, a, b)
            &&& e.aberrated_state.covariance is Some ==> forall|a: int, b: int|
                0 <= a < 6 && 0 <= b < 6 ==> val(
                    #[trigger] e.aberrated_state.covariance->Some_0[a][b],
                ) == sandwich(val, phi, cov0->Some_0, a, b)
        }
}

/// The Jacobian and the two covariances of record `i`, entry by entry, from
/// sighting `i`, observer `i` and the state transition matrix of state `i`.
///
/// Returns the engine's sightings and states.
pub proof fn derivatives_of_the_records<
    D,
    T: Scalar,
    J: Fn(Topocentric<T>) -> Mat6<T>,
    O: Fn(
        &D,
        &AssistOrbit<T>,
        &[AssistObserver<T>],
        Option<usize>,
        &IntegratorConfig<T>,
    ) -> Reply<Sighting<T>>,
    I: Fn(&D, &AssistOrbit<T>, &[T], bool, &IntegratorConfig<T>) -> Reply<
        IntegratedState<T>,
    >,
>(
    val: spec_fn(T) -> real,
    p: AssistPropagator<T, D>,
    orbit: TestOrbit<T>,
    observers: Seq<ObserverState<T>>,
    config: EphemerisConfig,
    c: Constants<T>,
    spherical_jacobian: J,
    observe: O,
    integrate: I,
    out: Seq<EphemerisRecord<T>>,
) -> (r: (Vec<Sighting<T>>, Vec<IntegratedState<T>>))
    requires
        exact(val),
        val(c.zero) == 0 as real,
        val(c.one) == 1 as real,
        may_generate(
            p,
            orbit,
            observers,
            config,
            c,
            spherical_jacobian,
            observe,
            integrate,
            Ok(out),
        ),
        config.compute_covariance || config.compute_jacobian,
        answers_enough(integrate, config),
    ensures
        sightings_are_the_reply(p, orbit, observers, observe, Ok(r.0)),
        states_are_the_reply(p, orbit, observers, r.0@, integrate, Ok(r.1)),
        out.len() <= r.0@.len(),
        out.len() <= r.1@.len(),
        forall|i: int|
            0 <= i < out.len() && r.1@[i].stm is Some ==> derivatives_follow(
                val,
                c,
                spherical_jacobian,
                orbit.state.covariance,
                r.0@[i],
                observers[i],
                r.1@[i].stm->Some_0,
                #[trigger] out[i],
            ),
{
    let r = lemma_origin_of_records(
        p,
        orbit,
        observers,
        config,
        c,
        spherical_jacobian,
        observe,
        integrate,
        out,
    );
    lemma_questions(p, orbit, observers, observe, integrate, r.0@, Ok(r.0), r.1);
    let states = r.1->Some_0;
    assert forall|i: int| 0 <= i < out.len() && states@[i].stm is Some implies derivatives_follow(
        val,
        c,
        spherical_jacobian,
        orbit.state.covariance,
        r.0@[i],
        observers[i],
        states@[i].stm->Some_0,
        #[trigger] out[i],
    ) by {
        let s = r.0@[i];
        let phi = states@[i].stm->Some_0;
        let e = out[i];
        let j = observation_jacobian(
            c,
            spherical_jacobian,
            phi,
            s.aberrated_state,
            observers[i].state,
        );
        let t = jacobian_is_taken_at_the_difference(
            val,
            c,
            spherical_jacobian,
            phi,
            s.aberrated_state,
            observers[i].state,
        );
        assert(has_chained_entries(val, c, applied(spherical_jacobian, t), phi, j));
        let sigma = orbit.state.covariance->Some_0;
        if e.state.covariance is Some {
            assert forall|a: int, b: int| 0 <= a < 6 && 0 <= b < 6 implies val(
                #[trigger] e.state.covariance->Some_0[a][b],
            ) == sandwich(val, j, sigma, a, b) by {
                mapped_covariance_entries(val, c.zero, j, sigma, a, b);
            }
        }
        if e.aberrated_state.covariance is Some {
            assert forall|a: int, b: int| 0 <= a < 6 && 0 <= b < 6 implies val(
                #[trigger] e.aberrated_state.covariance->Some_0[a][b],
            ) == sandwich(val, phi, sigma, a, b) by {
                mapped_covariance_entries(val, c.zero, phi, sigma, a, b);
            }
        }
    }
    (r.0, states)
}

/// Why an ephemeris fails. Covariances of an orbit that carries none, or by a
/// method that draws samples, are refused first, in this order; then an orbit
/// in another frame or about another centre. An error of an accepted request
/// is the engine's own text, from the sightings or from the integration, or
/// says that a matrix is missing, which only a request for covariances does.
pub proof fn refusals_and_failures_of_an_ephemeris<
    D,
    T: Scalar,
    J: Fn(Topocentric<T>) -> Mat6<T>,
    O: Fn(
        &D,
        &AssistOrbit<T>,
        &[AssistObserver<T>],
        Option<usize>,
        &IntegratorConfig<T>,
    ) -> Reply<Sighting<T>>,
    I: Fn(&D, &AssistOrbit<T>, &[T], bool, &IntegratorConfig<T>) -> Reply<
        IntegratedState<T>,
    >,
>(
    p: AssistPropagator<T, D>,
    orbit: TestOrbit<T>,
    observers: Seq<ObserverState<T>>,
    config: EphemerisConfig,
    c: Constants<T>,
    spherical_jacobian: J,
    observe: O,
    integrate: I,
    error: ErrorView,
)
    requires
        may_generate(
            p,
            orbit,
            observers,
            config,
            c,
            spherical_jacobian,
            observe,
            integrate,
            Err(error),
        ),
    ensures
        ({
            let asked = config.compute_covariance;
            let bare = orbit.state.covariance is None;
            let sampled = config.covariance_method == CovarianceMethod::MonteCarlo
                || config.covariance_method == CovarianceMethod::SigmaPoint;
            let refused = asked && (bare || sampled);
            let turned = orbit.state.frame == Frame::Equatorial;
            &&& asked && bare ==> error == ErrorView::MissingCovariance(
                "AssistPropagator::generate_ephemeris: compute_covariance requested for orbit "@
                    + orbit.id@ + " but the orbit carries no covariance"@,
            )
            &&& asked && !bare && sampled ==> error == ErrorView::Unsupported(
                "AssistPropagator has no "@ + (if config.covariance_method
                    == CovarianceMethod::MonteCarlo {
                    "MonteCarlo"@
                } else {
                    "SigmaPoint"@
                })
                    + " covariance machinery — only the first-order STM (Analytic). Use the empyrean backend for sample-based covariance propagation."@,
            )
            &&& !refused && turned ==> error == ErrorView::InvalidOrbit(
                "AssistPropagator requires EclipticJ2000 frame, got "@ + "Equatorial"@,
            )
            &&& !refused && !turned && orbit.state.origin == Origin::Earth ==> error
                == ErrorView::InvalidOrbit(
                "AssistPropagator requires Sun origin (heliocentric), got "@ + "Earth"@,
            )
            &&& !refused && !turned && orbit.state.origin == Origin::SolarSystemBarycenter
                ==> error == ErrorView::InvalidOrbit(
                "AssistPropagator requires Sun origin (heliocentric), got "@
                    + "SolarSystemBarycenter"@,
            )
            &&& !refused && !turned && orbit.state.origin == Origin::Sun ==> engine_failed(
                p,
                orbit,
                observers,
                config,
                observe,
                integrate,
                error,
            )
        }),
{
    if covariance_request_outcome(orbit, config) is Ok && orbit_outcome(orbit) is Ok {
        let o = orbit_outcome(orbit)->Ok_0;
        let out = Err::<Seq<EphemerisRecord<T>>, ErrorView>(error);
        let seen = choose|seen: Reply<Sighting<T>>| #[trigger]
            sighted(
                observe,
                p.data,
                o,
                assist_observers(observers),
                Some(1usize),
                p.integrator,
                seen,
            ) && match seen {
                Err(e) => out == Err::<Seq<EphemerisRecord<T>>, ErrorView>(
                    ErrorView::PropagationFailed(e@),
                ),
                Ok(s) => may_finish(
                    p,
                    orbit,
                    o,
                    observers,
                    config,
                    c,
                    spherical_jacobian,
                    integrate,
                    s@,
                    out,
                ),
            };
        lemma_questions(p, orbit, observers, observe, integrate, seq![], seen, None);
        match seen {
            Err(_) => {},
            Ok(s) => {
                let reply = choose|reply: Reply<IntegratedState<T>>| #[trigger]
                    integrated(
                        integrate,
                        p.data,
                        o,
                        emission_epochs(observers, s@),
                        true,
                        p.integrator,
                        reply,
                    ) && out == ephemeris_outcome(
                        c,
                        spherical_jacobian,
                        orbit,
                        observers,
                        config,
                        s@,
                        Some(reply),
                    );
                lemma_integration(p, orbit, observers, integrate, s@, reply);
                match reply {
                    Ok(v) => {
                        let k = choose|k: int| 0 <= k < v@.len() && (#[trigger] v@[k]).stm is None;
                        assert(some_matrix_is_missing(v@));
                    },
                    Err(_) => {},
                }
            },
        }
    }
}

/// A state lacks its state transition matrix.
pub open spec fn some_matrix_is_missing<T>(states: Seq<IntegratedState<T>>) -> bool {
    exists|k: int| 0 <= k < states.len() && (#[trigger] states[k]).stm is None
}

/// The engine failed on an accepted request: on the sightings, or on the
/// integration to the emission epochs, with its own text; or it left out a
/// matrix that a covariance needs.
pub open spec fn engine_failed<
    D,
    T: Scalar,
    O: Fn(
        &D,
        &AssistOrbit<T>,
        &[AssistObserver<T>],
        Option<usize>,
        &IntegratorConfig<T>,
    ) -> Reply<Sighting<T>>,
    I: Fn(&D, &AssistOrbit<T>, &[T], bool, &IntegratorConfig<T>) -> Reply<
        IntegratedState<T>,
    >,
>(
    p: AssistPropagator<T, D>,
    orbit: TestOrbit<T>,
    observers: Seq<ObserverState<T>>,
    config: EphemerisConfig,
    observe: O,
    integrate: I,
    error: ErrorView,
) -> bool {
    exists|seen: Reply<Sighting<T>>| #[trigger]
        sightings_are_the_reply(p, orbit, observers, observe, seen) && match seen {
            Err(text) => error == ErrorView::PropagationFailed(text@),
            Ok(s) => (config.compute_covariance || config.compute_jacobian) && exists|
                reply: Reply<IntegratedState<T>>,
            | #[trigger]
                states_are_the_reply(p, orbit, observers, s@, integrate, reply) && match reply {
                    Err(text) => error == ErrorView::PropagationFailed(text@),
                    Ok(v) => config.compute_covariance && some_matrix_is_missing(v@) && error
                        == ErrorView::PropagationFailed(
                        "AssistPropagator::generate_ephemeris: compute_covariance requested but assist_propagate returned no STM for one or more emission epochs"@,
                    ),
                },
        }
}

} // verus!
