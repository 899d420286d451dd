//! What the propagator's functions return, stated of the functions themselves.

use vstd::prelude::*;
use vstd::std_specs::ops::{MulSpec, SubSpec};

use crate::bodies::{
    assist_origin, body_origin, may_center, may_observe, may_position, observer_from_reply,
    origin_from_reply, positions_from_reply,
};
use crate::constants::Constants;
use crate::engine::{
    AdaptiveMode, AssistObserver, AssistOrbit, AssistOrigin, BodyState, IntegratedState,
    IntegratorConfig, Reply, Sighting,
};
use crate::ephemeris::{
    any_stm_missing, emitted_at, ephemeris_record, finish_ephemeris, may_generate,
    to_assist_observers,
};
use crate::exact::exact;
use crate::laws::entries::{mapped_covariance_entries, sandwich};
use crate::laws::ephemeris_results::{derivatives_follow, is_the_orbit};
use crate::laws::lookup_results::{engine_origin, stands_for_body};
use crate::laws::observation_results::{has_chained_entries, jacobian_is_taken_at_the_difference};
use crate::linalg::{Mat6, Vec6};
use crate::loading::{is_oriented, listed_codes, load_failure, LoadStep};
use crate::observation::{observation_jacobian, Topocentric};
use crate::propagator::{
    default_integrator_config, finish_propagation, from_helio_ecliptic, may_propagate,
    propagated_state, AssistPropagator,
};
use crate::requests::{
    check_covariance_request, check_profile, substitutes_accurate, to_assist_orbit,
};
use crate::scalar::{applied, Scalar};
use crate::text::{ascii_lowercase, lowercase};
use crate::transform::may_transform;
use crate::types::{
    list_outcome, outcome, CartesianState, CovarianceMethod, EphemerisConfig, EphemerisRecord,
    ErrorView, Frame, IntegratorProfile, ObserverState, Origin, PropagatedState, PropagationConfig,
    PropagationProfile, PropagatorError, TestOrbit,
};

verus! {

/// Replacing the integrator settings replaces them all, and leaves the data.
pub proof fn settings_are_replaced<T, D>(
    p: AssistPropagator<T, D>,
    integrator: IntegratorConfig<T>,
    r: AssistPropagator<T, D>,
)
    requires
        call_ensures(AssistPropagator::<T, D>::with_integrator_config, (p, integrator), r),
    ensures
        r.integrator == integrator,
        r.data == p.data,
{
}

/// A new propagator holds the ephemeris that it is given, no observatory
/// table, and the default settings.
pub proof fn new_propagator<T: Copy>(
    ephem: assist_rs::Ephemeris,
    c: Constants<T>,
    r: AssistPropagator<T>,
    e: &assist_rs::Ephemeris,
)
    requires
        call_ensures(AssistPropagator::<T>::new, (ephem, &c), r),
        call_ensures(AssistPropagator::<T>::ephem, (&r,), e),
    ensures
        *e == ephem,
        r.data.observatory is None,
        r.integrator.initial_dt == Some(c.min_step),
        r.integrator.min_dt == Some(c.min_step),
        r.integrator.epsilon == Some(c.precision),
        r.integrator.adaptive_mode == Some(AdaptiveMode::Prs23),
{
}

/// The default settings are those of a new propagator.
pub proof fn default_settings<T: Copy>(c: Constants<T>, k: IntegratorConfig<T>)
    requires
        call_ensures(default_integrator_config::<T>, (&c,), k),
    ensures
        k.initial_dt == Some(c.min_step),
        k.min_dt == Some(c.min_step),
        k.epsilon == Some(c.precision),
        k.adaptive_mode == Some(AdaptiveMode::Prs23),
{
}

/// Attaching an observatory table replaces the table, and leaves the ephemeris
/// and the settings.
pub proof fn table_is_attached<T: Copy>(
    p: AssistPropagator<T>,
    table: assist_rs::ObservatoryTable,
    r: AssistPropagator<T>,
)
    requires
        call_ensures(AssistPropagator::<T>::with_obs_table, (p, table), r),
    ensures
        r.data.observatory == Some(table),
        r.data.ephem == p.data.ephem,
        r.integrator == p.integrator,
{
}

/// A propagator built from its parts has the ephemeris, a table with the codes
/// of the one that was given, which locates ground sites, and the default
/// settings.
pub proof fn propagator_from_parts<T: Copy>(
    ephem: assist_rs::Ephemeris,
    table: assist_rs::ObservatoryTable,
    eo: assist_rs::earth_orientation::EarthOrientation,
    c: Constants<T>,
    r: AssistPropagator<T>,
)
    requires
        call_ensures(AssistPropagator::<T>::from_parts, (ephem, table, eo, &c), r),
    ensures
        r.data.ephem == ephem,
        r.data.observatory matches Some(t) && listed_codes(t) == listed_codes(table)
            && is_oriented(t),
        r.integrator.initial_dt == Some(c.min_step),
        r.integrator.min_dt == Some(c.min_step),
        r.integrator.epsilon == Some(c.precision),
        r.integrator.adaptive_mode == Some(AdaptiveMode::Prs23),
{
}

/// The label of the force model does not depend on the propagator.
pub proof fn label_of_the_force_model<T, D>(p: AssistPropagator<T, D>, s: &'static str)
    requires
        call_ensures(AssistPropagator::<T, D>::force_model, (&p,), s),
    ensures
        s@ == "assist:de440+sb441-n16+ias15-prs23"@,
{
}

/// A load failure says which step failed, and carries the cause.
pub proof fn load_failures_name_the_step(step: LoadStep, cause: &str, e: PropagatorError)
    requires
        call_ensures(load_failure, (step, cause), e),
    ensures
        e@ == ErrorView::Other(
            (if step == LoadStep::DataFiles {
                "DataManager: "@
            } else if step == LoadStep::Ephemeris {
                "Failed to load ASSIST ephemeris: "@
            } else if step == LoadStep::ObservatoryCodes {
                "Failed to load obs codes: "@
            } else {
                "Failed to load EOP kernels: "@
            }) + cause@,
        ),
{
}

/// Frames, origins and methods go by their names.
pub proof fn names_of_labels(
    frame: Frame,
    origin: Origin,
    method: CovarianceMethod,
    f: &'static str,
    o: &'static str,
    m: &'static str,
)
    requires
        call_ensures(Frame::name, (frame,), f),
        call_ensures(Origin::name, (origin,), o),
        call_ensures(CovarianceMethod::name, (method,), m),
    ensures
        f@ == match frame {
            Frame::EclipticJ2000 => "EclipticJ2000"@,
            Frame::Equatorial => "Equatorial"@,
        },
        o@ == match origin {
            Origin::SolarSystemBarycenter => "SolarSystemBarycenter"@,
            Origin::Sun => "Sun"@,
            Origin::Earth => "Earth"@,
        },
        m@ == match method {
            CovarianceMethod::Auto => "Auto"@,
            CovarianceMethod::Analytic => "Analytic"@,
            CovarianceMethod::MonteCarlo => "MonteCarlo"@,
            CovarianceMethod::SigmaPoint => "SigmaPoint"@,
        },
{
}

/// A profile is refused just when it insists on the fast integrator; the
/// accurate one stands in just when the fast one was asked for and accepted.
pub proof fn check_of_a_profile(
    profile: PropagationProfile,
    r: Result<(), PropagatorError>,
    substituted: bool,
)
    requires
        call_ensures(check_profile, (&profile,), r),
        call_ensures(substitutes_accurate, (&profile,), substituted),
    ensures
        r is Ok <==> profile.integrator == IntegratorProfile::Accurate
            || profile.allow_accurate_substitute,
        r matches Err(e) ==> e is Unsupported,
        substituted <==> profile.integrator == IntegratorProfile::Fast
            && profile.allow_accurate_substitute,
{
}

/// An orbit is accepted just when it is ecliptic and about the Sun, and is
/// handed over by its six components and its epoch.
pub proof fn check_of_an_orbit<T: Copy>(
    orbit: TestOrbit<T>,
    r: Result<AssistOrbit<T>, PropagatorError>,
)
    requires
        call_ensures(to_assist_orbit::<T>, (&orbit,), r),
    ensures
        r is Ok <==> orbit.state.frame == Frame::EclipticJ2000 && orbit.state.origin
            == Origin::Sun,
        r matches Ok(o) ==> is_the_orbit(o, orbit),
        r matches Err(e) ==> e is InvalidOrbit,
{
}

/// Covariances are refused to an orbit without one, and then to a method that
/// draws samples.
pub proof fn check_of_a_covariance_request<T>(
    orbit: TestOrbit<T>,
    config: EphemerisConfig,
    r: Result<(), PropagatorError>,
)
    requires
        call_ensures(check_covariance_request::<T>, (&orbit, &config), r),
    ensures
        r is Ok <==> (!config.compute_covariance || (orbit.state.covariance is Some && (
        config.covariance_method == CovarianceMethod::Auto || config.covariance_method
            == CovarianceMethod::Analytic))),
        r matches Err(e) ==> if orbit.state.covariance is None {
            e is MissingCovariance
        } else {
            e is Unsupported
        },
{
}

/// A heliocentric ecliptic state, component by component.
pub proof fn heliocentric_state<T: Copy>(v: Vec6<T>, epoch: T, s: CartesianState<T>)
    requires
        call_ensures(from_helio_ecliptic::<T>, (v, epoch), s),
    ensures
        s.x == v[0],
        s.y == v[1],
        s.z == v[2],
        s.vx == v[3],
        s.vy == v[4],
        s.vz == v[5],
        s.epoch == epoch,
        s.frame == Frame::EclipticJ2000,
        s.origin == Origin::Sun,
        s.covariance is None,
{
}

/// A propagated record holds the six components and the epoch of the
/// integrated state, its matrix if that is wanted, and the covariance mapped
/// through the matrix, where both are there.
pub proof fn propagated_record<T: Scalar, S: Fn(T) -> T>(
    val: spec_fn(T) -> real,
    c: Constants<T>,
    sqrt: S,
    cov0: Option<Mat6<T>>,
    compute_stm: bool,
    r: IntegratedState<T>,
    s: PropagatedState<T>,
)
    requires
        call_ensures(propagated_state::<T, S>, (&c, &sqrt, &cov0, compute_stm, &r), s),
    ensures
        s.state.x == r.state[0],
        s.state.y == r.state[1],
        s.state.z == r.state[2],
        s.state.vx == r.state[3],
        s.state.vy == r.state[4],
        s.state.vz == r.state[5],
        s.state.epoch == r.epoch,
        s.state.frame == Frame::EclipticJ2000,
        s.state.origin == Origin::Sun,
        s.stm == if compute_stm {
            r.stm
        } else {
            None
        },
        s.state.covariance is Some <==> cov0 is Some && r.stm is Some,
        s.covariance_kind is Some <==> s.state.covariance is Some,
        s.covariance_quality is Some <==> s.state.covariance is Some,
        exact(val) && val(c.zero) == 0 as real && s.state.covariance is Some ==> forall|
            a: int,
            b: int,
        |
            0 <= a < 6 && 0 <= b < 6 ==> val(#[trigger] s.state.covariance->Some_0[a][b])
                == sandwich(val, r.stm->Some_0, cov0->Some_0, a, b),
{
    if exact(val) && val(c.zero) == 0 as real && s.state.covariance is Some {
        assert forall|a: int, b: int| 0 <= a < 6 && 0 <= b < 6 implies val(
            #[trigger] s.state.covariance->Some_0[a][b],
        ) == sandwich(val, r.stm->Some_0, cov0->Some_0, a, b) by {
            mapped_covariance_entries(val, c.zero, r.stm->Some_0, cov0->Some_0, a, b);
        }
    }
}

/// The end of a propagation: one record for each state of the reply, with its
/// six components, or the engine's text.
pub proof fn end_of_a_propagation<T: Scalar, S: Fn(T) -> T>(
    c: Constants<T>,
    sqrt: S,
    orbit: TestOrbit<T>,
    config: PropagationConfig,
    reply: Reply<IntegratedState<T>>,
    r: Result<Vec<PropagatedState<T>>, PropagatorError>,
)
    requires
        call_ensures(finish_propagation::<T, S>, (&c, &sqrt, &orbit, &config, reply), r),
    ensures
        match reply {
            Err(text) => r matches Err(e) && e@ == ErrorView::PropagationFailed(text@),
            Ok(states) => r matches Ok(out) && out@.len() == states@.len() && forall|i: int|
                0 <= i < out@.len() ==> {
                    let s = #[trigger] out@[i];
                    &&& s.state.x == states@[i].state[0]
                    &&& s.state.y == states@[i].state[1]
                    &&& s.state.z == states@[i].state[2]
                    &&& s.state.vx == states@[i].state[3]
                    &&& s.state.vy == states@[i].state[4]
                    &&& s.state.vz == states@[i].state[5]
                    &&& s.state.epoch == states@[i].epoch
                },
        },
{
}

/// The observers as the engine takes them: each by its code and its epoch.
pub proof fn observers_handed_over<T: Copy>(
    observers: &[ObserverState<T>],
    out: Vec<AssistObserver<T>>,
    i: int,
)
    requires
        call_ensures(to_assist_observers::<T>, (observers,), out),
        0 <= i < observers@.len(),
    ensures
        out@.len() == observers@.len(),
        out@[i].origin == AssistOrigin::Observatory(observers@[i].code),
        out@[i].epoch == observers@[i].state.epoch,
{
}

/// The emission epochs: of each pair of an observer and a sighting, the
/// observer's epoch less the sighting's light time.
pub proof fn emission_of_the_light<T: Scalar>(
    observers: &[ObserverState<T>],
    sightings: Vec<Sighting<T>>,
    out: Vec<T>,
)
    requires
        call_ensures(emitted_at::<T>, (observers, &sightings), out),
    ensures
        out@.len() <= observers@.len(),
        out@.len() <= sightings@.len(),
        out@.len() == observers@.len() || out@.len() == sightings@.len(),
        forall|i: int|
            0 <= i < out@.len() ==> #[trigger] out@[i] == observers@[i].state.epoch.sub_spec(
                sightings@[i].light_time,
            ),
{
}

/// A missing matrix is noticed wherever it is.
pub proof fn missing_matrices_are_noticed<T>(states: Vec<IntegratedState<T>>, r: bool)
    requires
        call_ensures(any_stm_missing::<T>, (&states,), r),
    ensures
        !r <==> forall|i: int| 0 <= i < states@.len() ==> (#[trigger] states@[i]).stm is Some,
{
}

/// The record of one sighting: what it holds of the sighting and the observer,
/// to the bit, and over the real numbers the covariances and the Jacobian.
pub proof fn record_of_a_sighting<T: Scalar, J: Fn(Topocentric<T>) -> Mat6<T>>(
    val: spec_fn(T) -> real,
    c: Constants<T>,
    spherical_jacobian: J,
    cov0: Option<Mat6<T>>,
    config: EphemerisConfig,
    s: Sighting<T>,
    observer: ObserverState<T>,
    phi: Option<Mat6<T>>,
    e: EphemerisRecord<T>,
)
    requires
        call_ensures(
            ephemeris_record::<T, J>,
            (&c, &spherical_jacobian, &cov0, &config, &s, &observer, &phi),
            e,
        ),
    ensures
        e.state.rho == s.spherical[0],
        e.state.lon == s.spherical[1].mul_spec(c.rad_to_deg),
        e.state.lat == s.spherical[2].mul_spec(c.rad_to_deg),
        e.state.vrho == s.spherical[3],
        e.state.vlon == s.spherical[4].mul_spec(c.rad_to_deg),
        e.state.vlat == s.spherical[5].mul_spec(c.rad_to_deg),
        e.state.epoch == s.epoch,
        e.state.frame == Frame::Equatorial,
        e.state.origin == Origin::Sun,
        e.aberrated_state.x == s.aberrated_state[0],
        e.aberrated_state.y == s.aberrated_state[1],
        e.aberrated_state.z == s.aberrated_state[2],
        e.aberrated_state.vx == s.aberrated_state[3],
        e.aberrated_state.vy == s.aberrated_state[4],
        e.aberrated_state.vz == s.aberrated_state[5],
        e.aberrated_state.epoch == s.epoch.sub_spec(s.light_time),
        e.aberrated_state.frame == Frame::EclipticJ2000,
        e.aberrated_state.origin == Origin::Sun,
        e.observer_state == observer.state,
        e.light_time == Some(s.light_time),
        e.mean_shift is None,
        e.state.covariance is Some <==> config.compute_covariance && cov0 is Some && phi is Some,
        e.aberrated_state.covariance is Some <==> e.state.covariance is Some,
        e.observation_jacobian is Some <==> config.compute_jacobian && phi is Some,
        exact(val) && val(c.zero) == 0 as real && val(c.one) == 1 as real && phi is Some
            ==> derivatives_follow(
            val,
            c,
            spherical_jacobian,
            cov0,
            s,
            observer,
            phi->Some_0,
            e,
        ),
{
    if exact(val) && val(c.zero) == 0 as real && val(c.one) == 1 as real && phi is Some {
        let m = phi->Some_0;
        let j = observation_jacobian(c, spherical_jacobian, m, s.aberrated_state, observer.state);
        let t = jacobian_is_taken_at_the_difference(
            val,
            c,
            spherical_jacobian,
            m,
            s.aberrated_state,
            observer.state,
        );
        assert(has_chained_entries(val, c, applied(spherical_jacobian, t), m, j));
        let sigma = cov0->Some_0;
        if e.state.covariance is Some {
            assert forall|a: int, b: int| 0 <= a < 6 && 0 <= b < 6 implies val(
                #[trigger] e.state.covariance->Some_0[a][b],
            ) == sandwich(val, j, sigma, a, b) by {
                mapped_covariance_entries(val, c.zero, j, sigma, a, b);
            }
            assert forall|a: int, b: int| 0 <= a < 6 && 0 <= b < 6 implies val(
                #[trigger] e.aberrated_state.covariance->Some_0[a][b],
            ) == sandwich(val, m, sigma, a, b) by {
                mapped_covariance_entries(val, c.zero, m, sigma, a, b);
            }
        }
    }
}

/// The end of an ephemeris on the engine's replies: its text where the
/// integration failed; an error where a covariance lacks a matrix; otherwise a
/// record for each pair of an observer and a sighting, in their order.
pub proof fn end_of_an_ephemeris<T: Scalar, J: Fn(Topocentric<T>) -> Mat6<T>>(
    c: Constants<T>,
    spherical_jacobian: J,
    orbit: TestOrbit<T>,
    observers: &[ObserverState<T>],
    config: EphemerisConfig,
    sightings: Vec<Sighting<T>>,
    integration: Option<Reply<IntegratedState<T>>>,
    r: Result<Vec<EphemerisRecord<T>>, PropagatorError>,
)
    requires
        call_ensures(
            finish_ephemeris::<T, J>,
            (&c, &spherical_jacobian, &orbit, observers, &config, &sightings, integration),
            r,
        ),
    ensures
        integration matches Some(Err(text)) ==> (r matches Err(e) && e@
            == ErrorView::PropagationFailed(text@)),
        r matches Err(e) ==> e is PropagationFailed && integration is Some,
        integration matches Some(Ok(v)) ==> (r is Err <==> config.compute_covariance && exists|
            k: int,
        |
            0 <= k < v@.len() && (#[trigger] v@[k]).stm is None),
        r matches Ok(out) ==> {
            &&& out@.len() <= observers@.len()
            &&& out@.len() <= sightings@.len()
            &&& out@.len() == observers@.len() || out@.len() == sightings@.len()
            &&& forall|i: int|
                0 <= i < out@.len() ==> {
                    let e = #[trigger] out@[i];
                    let s = sightings@[i];
                    &&& e.state.rho == s.spherical[0]
                    &&& e.state.lon == s.spherical[1].mul_spec(c.rad_to_deg)
                    &&& e.state.lat == s.spherical[2].mul_spec(c.rad_to_deg)
                    &&& e.state.vrho == s.spherical[3]
                    &&& e.state.vlon == s.spherical[4].mul_spec(c.rad_to_deg)
                    &&& e.state.vlat == s.spherical[5].mul_spec(c.rad_to_deg)
                    &&& e.state.epoch == s.epoch
                    &&& e.aberrated_state.x == s.aberrated_state[0]
                    &&& e.aberrated_state.y == s.aberrated_state[1]
                    &&& e.aberrated_state.z == s.aberrated_state[2]
                    &&& e.aberrated_state.vx == s.aberrated_state[3]
                    &&& e.aberrated_state.vy == s.aberrated_state[4]
                    &&& e.aberrated_state.vz == s.aberrated_state[5]
                    &&& e.aberrated_state.epoch == s.epoch.sub_spec(s.light_time)
                    &&& e.observer_state == observers@[i].state
                    &&& e.light_time == Some(s.light_time)
                }
        },
{
}

/// The engine has a name for every origin but the Sun.
pub proof fn origins_handed_over(origin: Origin, r: Option<AssistOrigin>)
    requires
        call_ensures(assist_origin, (origin,), r),
    ensures
        r is None <==> origin == Origin::Sun,
        r matches Some(a) ==> a == engine_origin(origin),
{
}

/// The state of an origin is the first that the engine returned.
pub proof fn origin_on_a_reply<T: Copy>(
    origin: Origin,
    reply: Reply<BodyState<T>>,
    r: Result<Vec6<T>, PropagatorError>,
)
    requires
        call_ensures(origin_from_reply::<T>, (origin, reply), r),
    ensures
        r is Ok <==> (reply matches Ok(states) && states@.len() > 0),
        r matches Ok(v) ==> forall|k: int|
            0 <= k < 6 ==> #[trigger] v[k] == reply->Ok_0@[0].state[k],
        r matches Err(e) ==> e is Other,
{
}

/// An observer is the first state that the engine returned, under its code.
pub proof fn observer_on_a_reply<T: Copy>(
    code: String,
    reply: Reply<BodyState<T>>,
    r: Result<ObserverState<T>, PropagatorError>,
)
    requires
        call_ensures(observer_from_reply::<T>, (&code, reply), r),
    ensures
        r is Ok <==> (reply matches Ok(states) && states@.len() > 0),
        r matches Ok(o) ==> {
            let b = reply->Ok_0@[0];
            &&& o.code == code
            &&& o.state.x == b.state[0]
            &&& o.state.y == b.state[1]
            &&& o.state.z == b.state[2]
            &&& o.state.vx == b.state[3]
            &&& o.state.vy == b.state[4]
            &&& o.state.vz == b.state[5]
            &&& o.state.epoch == b.epoch
            &&& o.state.frame == Frame::EclipticJ2000
            &&& o.state.origin == Origin::Sun
            &&& o.state.covariance is None
        },
        r matches Err(e) ==> e is InvalidObserver,
{
}

/// A lower-case name stands for one of eleven bodies, or for none.
pub proof fn names_of_bodies(name: &str, r: Result<AssistOrigin, PropagatorError>)
    requires
        call_ensures(body_origin, (name,), r),
    ensures
        r matches Ok(a) ==> stands_for_body(name@, a),
        r is Err ==> forall|a: AssistOrigin| !#[trigger] stands_for_body(name@, a),
        r matches Err(e) ==> e is Other,
{
}

/// The positions of a body: the first three components of each state that the
/// engine returned, where it returned as many as are wanted.
pub proof fn positions_on_a_reply<T: Copy>(
    body: &str,
    wanted: usize,
    reply: Reply<BodyState<T>>,
    r: Result<Vec<[T; 3]>, PropagatorError>,
)
    requires
        call_ensures(positions_from_reply::<T>, (body, wanted, reply), r),
    ensures
        r is Ok <==> (reply matches Ok(states) && states@.len() == wanted),
        r matches Ok(out) ==> out@.len() == wanted && forall|i: int|
            0 <= i < out@.len() ==> {
                let at = #[trigger] out@[i];
                &&& at[0] == reply->Ok_0@[i].state[0]
                &&& at[1] == reply->Ok_0@[i].state[1]
                &&& at[2] == reply->Ok_0@[i].state[2]
            },
        r matches Err(e) ==> e is Other,
{
}

/// What [`AssistPropagator::propagate`] returns is a result that a propagation
/// may have.
pub proof fn results_of_propagate<
    D,
    T: Scalar,
    S: Fn(T) -> T,
    I: Fn(&D, &AssistOrbit<T>, &[T], bool, &IntegratorConfig<T>) -> Reply<
        IntegratedState<T>,
    >,
>(
    p: AssistPropagator<T, D>,
    orbit: TestOrbit<T>,
    epochs: &[T],
    config: PropagationConfig,
    c: Constants<T>,
    sqrt: S,
    integrate: I,
    r: Result<Vec<PropagatedState<T>>, PropagatorError>,
)
    requires
        call_ensures(
            AssistPropagator::<T, D>::propagate::<S, I>,
            (&p, &orbit, epochs, &config, &c, &sqrt, &integrate),
            r,
        ),
    ensures
        may_propagate(p, orbit, epochs@, config, c, sqrt, integrate, list_outcome(r)),
{
}

/// What [`AssistPropagator::generate_ephemeris`] returns is a result that an
/// ephemeris may have.
pub proof fn results_of_generate_ephemeris<
    D,
    T: Scalar,
    J: Fn(Topocentric<T>) -> Mat6<T>,
    O: Fn(
        &D,
        &AssistOrbit<T>,
        &[AssistObserver<T>],
        Option<usize>,
        &IntegratorConfig<T>,
    ) -> Reply<Sighting<T>>,
    I: Fn(&D, &AssistOrbit<T>, &[T], bool, &IntegratorConfig<T>) -> Reply<
        IntegratedState<T>,
    >,
>(
    p: AssistPropagator<T, D>,
    orbit: TestOrbit<T>,
    observers: &[ObserverState<T>],
    config: EphemerisConfig,
    c: Constants<T>,
    spherical_jacobian: J,
    observe: O,
    integrate: I,
    r: Result<Vec<EphemerisRecord<T>>, PropagatorError>,
)
    requires
        call_ensures(
            AssistPropagator::<T, D>::generate_ephemeris::<J, O, I>,
            (&p, &orbit, observers, &config, &c, &spherical_jacobian, &observe, &integrate),
            r,
        ),
    ensures
        may_generate(
            p,
            orbit,
            observers@,
            config,
            c,
            spherical_jacobian,
            observe,
            integrate,
            list_outcome(r),
        ),
{
}

/// What [`AssistPropagator::transform_state`] returns is a result that a
/// transform may have.
pub proof fn results_of_transform_state<
    D,
    T: Scalar,
    L: Fn(&D, &AssistOrigin, &[T], Option<usize>) -> Reply<BodyState<T>>,
>(
    p: AssistPropagator<T, D>,
    c: Constants<T>,
    s: CartesianState<T>,
    frame: Frame,
    origin: Origin,
    locate: L,
    r: Result<CartesianState<T>, PropagatorError>,
)
    requires
        call_ensures(
            AssistPropagator::<T, D>::transform_state::<L>,
            (&p, &s, frame, origin, &c, &locate),
            r,
        ),
    ensures
        may_transform(p, c, s, frame, origin, locate, outcome(r)),
{
}

/// What the lookups return are results that a lookup may have. The name of a
/// body is taken in lower case.
pub proof fn results_of_the_lookups<
    D,
    T: Copy,
    L: Fn(&D, &AssistOrigin, &[T], Option<usize>) -> Reply<BodyState<T>>,
>(
    p: AssistPropagator<T, D>,
    c: Constants<T>,
    origin: Origin,
    epoch: T,
    body: &str,
    codes: &[String],
    epochs: &[T],
    locate: L,
    center: Result<Vec6<T>, PropagatorError>,
    found: Result<Vec<ObserverState<T>>, PropagatorError>,
    positions: Result<Vec<[T; 3]>, PropagatorError>,
)
    requires
        call_ensures(
            AssistPropagator::<T, D>::origin_helio_ecl_state::<L>,
            (&p, origin, epoch, &c, &locate),
            center,
        ),
        call_ensures(
            AssistPropagator::<T, D>::compute_observers::<L>,
            (&p, codes, epochs, &locate),
            found,
        ),
        call_ensures(
            AssistPropagator::<T, D>::compute_body_positions::<L>,
            (&p, body, epochs, &locate),
            positions,
        ),
    ensures
        may_center(p, c, origin, epoch, locate, outcome(center)),
        may_observe(p, codes@, epochs@, locate, list_outcome(found)),
        may_position(p, body@, lowercase(body@), epochs@, locate, list_outcome(positions)),
        vstd::utf8::is_ascii_chars(body@) ==> may_position(
            p,
            body@,
            ascii_lowercase(body@),
            epochs@,
            locate,
            list_outcome(positions),
        ),
{
}

} // verus!
