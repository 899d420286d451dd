//! Ephemerides over engines that the tests provide.

use std::cell::RefCell;

use thor_rs_assist::constants::{Constants, Decimal};
use thor_rs_assist::engine::{
    AssistObserver, AssistOrbit, AssistOrigin, IntegratedState, IntegratorConfig, Reply, Sighting,
};
use thor_rs_assist::ephemeris::{
    any_stm_missing, emitted_at, ephemeris_record, finish_ephemeris, to_assist_observers,
};
use thor_rs_assist::linalg::{mat6_mul, propagate_covariance_6x6};
use thor_rs_assist::observation::{
    compose_jacobian, observation_jacobian_assist, topocentric_state, Topocentric,
};
use thor_rs_assist::propagator::default_integrator_config;
use thor_rs_assist::requests::check_covariance_request;
use thor_rs_assist::rotation::ecl_to_eq_6x6;
use thor_rs_assist::types::{
    CartesianState, CovarianceMethod, EphemerisConfig, Frame, IntegratorProfile, ObserverState,
    Origin, PropagationConfig, PropagationProfile, PropagatorError, TestOrbit,
};
use thor_rs_assist::AssistPropagator;

fn read(d: Decimal) -> f64 {
    format!("{}e{}", d.mantissa, d.exponent).parse().unwrap()
}

fn constants() -> Constants<f64> {
    Constants::new(read)
}

fn propagator() -> AssistPropagator<f64, ()> {
    AssistPropagator { data: (), integrator: default_integrator_config(&constants()) }
}

fn diagonal(d: [f64; 6]) -> [[f64; 6]; 6] {
    let mut m = [[0.0; 6]; 6];
    for i in 0..6 {
        m[i][i] = d[i];
    }
    m
}

fn state(v: [f64; 6], epoch: f64) -> CartesianState<f64> {
    CartesianState::from_array(v, epoch, Frame::EclipticJ2000, Origin::Sun, None)
}

fn orbit(covariance: Option<[[f64; 6]; 6]>) -> TestOrbit<f64> {
    let mut s = state([2.0, 0.5, 0.25, 0.0, 0.0625, 0.0], 60800.0);
    s.covariance = covariance;
    TestOrbit { id: "a1".into(), state: s }
}

fn observer(code: &str, epoch: f64) -> ObserverState<f64> {
    ObserverState { code: code.into(), state: state([1.0, 0.0, 0.0, 0.0, 0.0175, 0.0], epoch) }
}

fn request(compute_covariance: bool, compute_jacobian: bool) -> EphemerisConfig {
    EphemerisConfig {
        compute_covariance,
        covariance_method: CovarianceMethod::Auto,
        num_samples: 0,
        compute_jacobian,
    }
}

fn spherical_jacobian(t: Topocentric<f64>) -> [[f64; 6]; 6] {
    assist_rs::coordinates::cartesian_to_spherical_jacobian(t.position, t.velocity)
}

fn no_jacobian(_: Topocentric<f64>) -> [[f64; 6]; 6] {
    panic!("no Jacobian is needed")
}

/// The light time that the tests' engine reports to every observer.
const LIGHT_TIME: f64 = 0.0078125;

fn sighting(epoch: f64) -> Sighting<f64> {
    Sighting {
        spherical: [1.5, 0.5, -0.25, 0.001, 0.002, -0.003],
        aberrated_state: [2.0, 0.5, 0.25, 0.0, 0.0625, 0.0],
        light_time: LIGHT_TIME,
        epoch,
    }
}

fn sighting_each(
    _: &(),
    _: &AssistOrbit<f64>,
    observers: &[AssistObserver<f64>],
    _: Option<usize>,
    _: &IntegratorConfig<f64>,
) -> Reply<Sighting<f64>> {
    Ok(observers.iter().map(|o| sighting(o.epoch)).collect())
}

fn blind(
    _: &(),
    _: &AssistOrbit<f64>,
    _: &[AssistObserver<f64>],
    _: Option<usize>,
    _: &IntegratorConfig<f64>,
) -> Reply<Sighting<f64>> {
    Err("no light-time solution".into())
}

fn unasked_sky(
    _: &(),
    _: &AssistOrbit<f64>,
    _: &[AssistObserver<f64>],
    _: Option<usize>,
    _: &IntegratorConfig<f64>,
) -> Reply<Sighting<f64>> {
    panic!("the engine is not to be asked")
}

fn matrix(epoch: f64) -> [[f64; 6]; 6] {
    let mut phi = diagonal([1.0; 6]);
    for i in 0..3 {
        phi[i][i + 3] = epoch - 60800.0;
    }
    phi
}

fn drifting(
    _: &(),
    orbit: &AssistOrbit<f64>,
    epochs: &[f64],
    stm: bool,
    _: &IntegratorConfig<f64>,
) -> Reply<IntegratedState<f64>> {
    assert!(stm);
    Ok(epochs
        .iter()
        .map(|&epoch| IntegratedState { state: orbit.state, epoch, stm: Some(matrix(epoch)) })
        .collect())
}

fn bare(
    _: &(),
    orbit: &AssistOrbit<f64>,
    epochs: &[f64],
    _: bool,
    _: &IntegratorConfig<f64>,
) -> Reply<IntegratedState<f64>> {
    Ok(epochs
        .iter()
        .map(|&epoch| IntegratedState { state: orbit.state, epoch, stm: None })
        .collect())
}

fn failing(
    _: &(),
    _: &AssistOrbit<f64>,
    _: &[f64],
    _: bool,
    _: &IntegratorConfig<f64>,
) -> Reply<IntegratedState<f64>> {
    Err("step underflow".into())
}

fn unasked(
    _: &(),
    _: &AssistOrbit<f64>,
    _: &[f64],
    _: bool,
    _: &IntegratorConfig<f64>,
) -> Reply<IntegratedState<f64>> {
    panic!("the engine is not to be asked")
}

#[test]
fn plain_ephemeris() {
    let observers = [observer("500", 60810.0), observer("X05", 60811.5)];
    let out = propagator()
        .generate_ephemeris(
            &orbit(Some(diagonal([1e-8; 6]))),
            &observers,
            &request(false, false),
            &constants(),
            &no_jacobian,
            &sighting_each,
            &unasked,
        )
        .unwrap();
    assert_eq!(out.len(), 2);
    let deg = 180.0 / std::f64::consts::PI;
    for (r, o) in out.iter().zip(&observers) {
        assert_eq!(r.state.rho, 1.5);
        assert_eq!(r.state.lon, 0.5 * deg);
        assert_eq!(r.state.lat, -0.25 * deg);
        assert_eq!(r.state.vrho, 0.001);
        assert_eq!(r.state.vlon, 0.002 * deg);
        assert_eq!(r.state.vlat, -0.003 * deg);
        assert_eq!(r.state.epoch, o.state.epoch);
        assert_eq!(r.state.frame, Frame::Equatorial);
        assert_eq!(r.state.origin, Origin::Sun);
        assert_eq!(r.state.covariance, None);
        assert_eq!(
            r.aberrated_state,
            state([2.0, 0.5, 0.25, 0.0, 0.0625, 0.0], o.state.epoch - LIGHT_TIME)
        );
        assert_eq!(r.observer_state, o.state);
        assert_eq!(r.light_time, Some(LIGHT_TIME));
        assert_eq!(r.observation_jacobian, None);
        assert_eq!(r.mean_shift, None);
    }
}

#[test]
fn observers_are_handed_over_by_code_and_epoch() {
    let observers = [observer("500", 60810.0), observer("X05", 60811.5)];
    let a = to_assist_observers(&observers);
    assert_eq!(
        a,
        vec![
            AssistObserver { origin: AssistOrigin::Observatory("500".into()), epoch: 60810.0 },
            AssistObserver { origin: AssistOrigin::Observatory("X05".into()), epoch: 60811.5 },
        ]
    );
    let sky = |_: &(),
               o: &AssistOrbit<f64>,
               seen: &[AssistObserver<f64>],
               threads: Option<usize>,
               _: &IntegratorConfig<f64>|
     -> Reply<Sighting<f64>> {
        assert_eq!(o.state, [2.0, 0.5, 0.25, 0.0, 0.0625, 0.0]);
        assert_eq!(seen, a.as_slice());
        assert_eq!(threads, Some(1));
        Ok(Vec::new())
    };
    let out = propagator().generate_ephemeris(
        &orbit(None),
        &observers,
        &request(false, false),
        &constants(),
        &no_jacobian,
        &sky,
        &unasked,
    );
    assert_eq!(out, Ok(Vec::new()));
}

#[test]
fn matrices_are_taken_at_emission() {
    let observers = [observer("500", 60810.0), observer("X05", 60811.5)];
    let asked = RefCell::new(Vec::new());
    let engine = |d: &(),
                  o: &AssistOrbit<f64>,
                  e: &[f64],
                  w: bool,
                  k: &IntegratorConfig<f64>|
     -> Reply<IntegratedState<f64>> {
        asked.borrow_mut().extend_from_slice(e);
        drifting(d, o, e, w, k)
    };
    propagator()
        .generate_ephemeris(
            &orbit(None),
            &observers,
            &request(false, true),
            &constants(),
            &spherical_jacobian,
            &sighting_each,
            &engine,
        )
        .unwrap();
    assert_eq!(asked.into_inner(), vec![60810.0 - LIGHT_TIME, 60811.5 - LIGHT_TIME]);
    let seen = vec![sighting(60810.0)];
    assert_eq!(emitted_at(&observers, &seen), vec![60810.0 - LIGHT_TIME]);
}

#[test]
fn covariances_come_with_the_request() {
    let sigma = diagonal([4e-8, 3e-8, 2e-8, 1e-10, 2e-10, 3e-10]);
    let c = constants();
    let o = observer("500", 60810.0);
    let phi = matrix(60810.0 - LIGHT_TIME);
    let s = sighting(60810.0);
    let j = observation_jacobian_assist(&c, &spherical_jacobian, &phi, &s.aberrated_state, &o.state);
    for compute_jacobian in [false, true] {
        let out = propagator()
            .generate_ephemeris(
                &orbit(Some(sigma)),
                &[o.clone()],
                &request(true, compute_jacobian),
                &c,
                &spherical_jacobian,
                &sighting_each,
                &drifting,
            )
            .unwrap();
        assert_eq!(out[0].state.covariance, Some(propagate_covariance_6x6(0.0, &j, &sigma)));
        assert_eq!(
            out[0].aberrated_state.covariance,
            Some(propagate_covariance_6x6(0.0, &phi, &sigma))
        );
        let want = if compute_jacobian { Some(j) } else { None };
        assert_eq!(out[0].observation_jacobian, want);
    }
}

#[test]
fn jacobian_alone_needs_no_covariance() {
    let out = propagator()
        .generate_ephemeris(
            &orbit(None),
            &[observer("500", 60810.0)],
            &request(false, true),
            &constants(),
            &spherical_jacobian,
            &sighting_each,
            &drifting,
        )
        .unwrap();
    assert!(out[0].observation_jacobian.is_some());
    assert_eq!(out[0].state.covariance, None);
    assert_eq!(out[0].aberrated_state.covariance, None);
}

#[test]
fn jacobian_is_the_chain_rule() {
    let c = constants();
    let phi = matrix(60807.0);
    let body = [2.0, 0.5, 0.25, 0.0, 0.0625, 0.0];
    let o = observer("500", 60810.0).state;
    let t = topocentric_state(&c, &body, &o);
    let b = assist_rs::ecliptic_to_equatorial(&body);
    let e = assist_rs::ecliptic_to_equatorial(&o.to_array());
    assert_eq!(t.position, [b[0] - e[0], b[1] - e[1], b[2] - e[2]]);
    assert_eq!(t.velocity, [b[3] - e[3], b[4] - e[4], b[5] - e[5]]);
    let local = spherical_jacobian(t);
    let radians = mat6_mul(0.0, &mat6_mul(0.0, &local, &ecl_to_eq_6x6(&c)), &phi);
    let j = observation_jacobian_assist(&c, &spherical_jacobian, &phi, &body, &o);
    assert_eq!(j, compose_jacobian(&c, &local, &phi));
    for k in 0..6 {
        for i in [0, 3] {
            assert_eq!(j[i][k], radians[i][k]);
        }
        for i in [1, 2, 4, 5] {
            assert_eq!(j[i][k], radians[i][k] * c.rad_to_deg);
        }
    }
}

#[test]
fn jacobian_agrees_with_differences() {
    let c = constants();
    let o = observer("500", 60810.0).state;
    let x0 = [2.0, 0.5, 0.25, 0.003, 0.0075, -0.001];
    let sky = |x: &[f64; 6]| {
        let t = topocentric_state(&c, x, &o);
        let s = assist_rs::coordinates::cartesian_to_spherical(t.position, t.velocity);
        [s[0], s[1] * c.rad_to_deg, s[2] * c.rad_to_deg, s[3], s[4] * c.rad_to_deg, s[5] * c.rad_to_deg]
    };
    let j = observation_jacobian_assist(&c, &spherical_jacobian, &diagonal([1.0; 6]), &x0, &o);
    for k in 0..6 {
        let h = 1e-6;
        let (mut up, mut down) = (x0, x0);
        up[k] += h;
        down[k] -= h;
        let (a, b) = (sky(&up), sky(&down));
        for i in 0..6 {
            let slope = (a[i] - b[i]) / (2.0 * h);
            assert!((j[i][k] - slope).abs() < 1e-5, "row {i} column {k}: {} {slope}", j[i][k]);
        }
    }
}

#[test]
fn sky_covariance_is_mapped_state_covariance() {
    let c = constants();
    let sigma = diagonal([4.0, 3.0, 2.0, 0.5, 0.25, 1.0]);
    let phi = matrix(60802.0);
    let o = observer("500", 60810.0);
    let s = sighting(60810.0);
    let r = ephemeris_record(
        &c,
        &spherical_jacobian,
        &Some(sigma),
        &request(true, false),
        &s,
        &o,
        &Some(phi),
    );
    let local = spherical_jacobian(topocentric_state(&c, &s.aberrated_state, &o.state));
    let at_state = compose_jacobian(&c, &local, &diagonal([1.0; 6]));
    let want = propagate_covariance_6x6(0.0, &at_state, &r.aberrated_state.covariance.unwrap());
    let got = r.state.covariance.unwrap();
    for i in 0..6 {
        for k in 0..6 {
            let size = (want[i][i] * want[k][k]).sqrt();
            assert!((got[i][k] - want[i][k]).abs() <= 1e-12 * (1.0 + size));
        }
    }
}

#[test]
fn missing_covariance_is_an_error() {
    let want = PropagatorError::MissingCovariance(
        "AssistPropagator::generate_ephemeris: compute_covariance requested for orbit a1 but \
         the orbit carries no covariance"
            .into(),
    );
    assert_eq!(check_covariance_request(&orbit(None), &request(true, false)), Err(want.clone()));
    // The request is looked at before the orbit's frame.
    let mut wrong = orbit(None);
    wrong.state.frame = Frame::Equatorial;
    let out = propagator().generate_ephemeris(
        &wrong,
        &[observer("500", 60810.0)],
        &request(true, false),
        &constants(),
        &no_jacobian,
        &unasked_sky,
        &unasked,
    );
    assert_eq!(out, Err(want));
}

#[test]
fn sample_methods_are_refused() {
    for (method, name) in [
        (CovarianceMethod::MonteCarlo, "MonteCarlo"),
        (CovarianceMethod::SigmaPoint, "SigmaPoint"),
    ] {
        let mut config = request(true, true);
        config.covariance_method = method;
        let out = propagator().generate_ephemeris(
            &orbit(Some(diagonal([1e-8; 6]))),
            &[observer("500", 60810.0)],
            &config,
            &constants(),
            &no_jacobian,
            &unasked_sky,
            &unasked,
        );
        assert_eq!(
            out,
            Err(PropagatorError::Unsupported(format!(
                "AssistPropagator has no {name} covariance machinery — only the first-order STM \
                 (Analytic). Use the empyrean backend for sample-based covariance propagation."
            )))
        );
        // Without a covariance request the method counts for nothing.
        config.compute_covariance = false;
        assert_eq!(check_covariance_request(&orbit(None), &config), Ok(()));
    }
}

#[test]
fn auto_is_analytic() {
    let sigma = Some(diagonal([4e-8, 3e-8, 2e-8, 1e-10, 2e-10, 3e-10]));
    let mut results = Vec::new();
    for (covariance_method, num_samples) in
        [(CovarianceMethod::Auto, 0), (CovarianceMethod::Analytic, 0), (CovarianceMethod::Auto, 64)]
    {
        let config = EphemerisConfig {
            compute_covariance: true,
            covariance_method,
            num_samples,
            compute_jacobian: true,
        };
        let out = propagator().generate_ephemeris(
            &orbit(sigma),
            &[observer("500", 60810.0), observer("X05", 60811.0)],
            &config,
            &constants(),
            &spherical_jacobian,
            &sighting_each,
            &drifting,
        );
        results.push(out.unwrap());
    }
    assert_eq!(results[0], results[1]);
    assert_eq!(results[0], results[2]);
}

#[test]
fn misplaced_orbit_is_refused() {
    let mut wrong = orbit(None);
    wrong.state.origin = Origin::SolarSystemBarycenter;
    let out = propagator().generate_ephemeris(
        &wrong,
        &[observer("500", 60810.0)],
        &request(false, false),
        &constants(),
        &no_jacobian,
        &unasked_sky,
        &unasked,
    );
    assert_eq!(
        out,
        Err(PropagatorError::InvalidOrbit(
            "AssistPropagator requires Sun origin (heliocentric), got SolarSystemBarycenter".into()
        ))
    );
}

#[test]
fn engine_failures_are_passed_on() {
    let out = propagator().generate_ephemeris(
        &orbit(None),
        &[observer("500", 60810.0)],
        &request(false, true),
        &constants(),
        &no_jacobian,
        &blind,
        &unasked,
    );
    assert_eq!(out, Err(PropagatorError::PropagationFailed("no light-time solution".into())));
    let out = propagator().generate_ephemeris(
        &orbit(None),
        &[observer("500", 60810.0)],
        &request(false, true),
        &constants(),
        &no_jacobian,
        &sighting_each,
        &failing,
    );
    assert_eq!(out, Err(PropagatorError::PropagationFailed("step underflow".into())));
}

#[test]
fn missing_matrix_fails_a_covariance_request() {
    let observers = [observer("500", 60810.0)];
    let out = propagator().generate_ephemeris(
        &orbit(Some(diagonal([1e-8; 6]))),
        &observers,
        &request(true, false),
        &constants(),
        &no_jacobian,
        &sighting_each,
        &bare,
    );
    assert_eq!(
        out,
        Err(PropagatorError::PropagationFailed(
            "AssistPropagator::generate_ephemeris: compute_covariance requested but \
             assist_propagate returned no STM for one or more emission epochs"
                .into()
        ))
    );
    // A request for the Jacobian alone goes without.
    let out = propagator()
        .generate_ephemeris(
            &orbit(None),
            &observers,
            &request(false, true),
            &constants(),
            &no_jacobian,
            &sighting_each,
            &bare,
        )
        .unwrap();
    assert_eq!(out[0].observation_jacobian, None);
}

#[test]
fn one_missing_matrix_is_enough() {
    let with = IntegratedState { state: [0.0; 6], epoch: 0.0, stm: Some(matrix(60800.0)) };
    let without = IntegratedState { state: [0.0; 6], epoch: 0.0, stm: None };
    assert!(!any_stm_missing(&Vec::<IntegratedState<f64>>::new()));
    assert!(!any_stm_missing(&vec![with, with]));
    assert!(any_stm_missing(&vec![with, without]));
}

#[test]
fn records_pair_sightings_with_observers() {
    let observers = [observer("500", 60810.0), observer("X05", 60811.0)];
    let c = constants();
    for n in 0..4_usize {
        let sightings: Vec<Sighting<f64>> = (0..n).map(|i| sighting(60810.0 + i as f64)).collect();
        let out = finish_ephemeris(
            &c,
            &no_jacobian,
            &orbit(None),
            &observers,
            &request(false, false),
            &sightings,
            None,
        )
        .unwrap();
        assert_eq!(out.len(), n.min(2));
        for (i, r) in out.iter().enumerate() {
            assert_eq!(r.observer_state, observers[i].state);
            assert_eq!(r.state.epoch, 60810.0 + i as f64);
        }
    }
}

#[test]
fn flags_add_only_derivatives() {
    let sigma = Some(diagonal([4e-8, 3e-8, 2e-8, 1e-10, 2e-10, 3e-10]));
    let observers = [observer("500", 60810.0), observer("X05", 60811.0)];
    let run = |cov: bool, jac: bool| {
        propagator()
            .generate_ephemeris(
                &orbit(sigma),
                &observers,
                &request(cov, jac),
                &constants(),
                &spherical_jacobian,
                &sighting_each,
                &drifting,
            )
            .unwrap()
    };
    let plain = run(false, false);
    for (cov, jac) in [(true, false), (false, true), (true, true)] {
        let mut out = run(cov, jac);
        for r in out.iter_mut() {
            assert_eq!(r.state.covariance.is_some(), cov);
            assert_eq!(r.observation_jacobian.is_some(), jac);
            r.state.covariance = None;
            r.aberrated_state.covariance = None;
            r.observation_jacobian = None;
        }
        assert_eq!(out, plain);
    }
}

#[test]
fn covariance_is_that_of_a_propagation_to_emission() {
    let sigma = Some(diagonal([4e-8, 3e-8, 2e-8, 1e-10, 2e-10, 3e-10]));
    let observers = [observer("500", 60810.0), observer("X05", 60811.5)];
    let out = propagator()
        .generate_ephemeris(
            &orbit(sigma),
            &observers,
            &request(true, false),
            &constants(),
            &spherical_jacobian,
            &sighting_each,
            &drifting,
        )
        .unwrap();
    let epochs: Vec<f64> = out
        .iter()
        .zip(&observers)
        .map(|(r, o)| o.state.epoch - r.light_time.unwrap())
        .collect();
    let config = PropagationConfig {
        compute_stm: false,
        profile: PropagationProfile {
            events: true,
            integrator: IntegratorProfile::Accurate,
            allow_accurate_substitute: false,
            cache_dense: false,
        },
    };
    let states = propagator()
        .propagate(&orbit(sigma), &epochs, &config, &constants(), &f64::sqrt, &drifting)
        .unwrap();
    for (r, p) in out.iter().zip(&states) {
        assert!(r.aberrated_state.covariance.is_some());
        assert_eq!(r.aberrated_state.covariance, p.state.covariance);
    }
}

#[test]
fn jacobian_for_a_matrix_is_that_for_the_identity_times_it() {
    let c = constants();
    let body = [2.0, 0.5, 0.25, 0.003, 0.0075, -0.001];
    let o = observer("500", 60810.0).state;
    let phi = matrix(60807.0);
    let one = observation_jacobian_assist(&c, &spherical_jacobian, &diagonal([1.0; 6]), &body, &o);
    let j = observation_jacobian_assist(&c, &spherical_jacobian, &phi, &body, &o);
    let want = mat6_mul(0.0, &one, &phi);
    for i in 0..6 {
        for k in 0..6 {
            assert!((j[i][k] - want[i][k]).abs() <= 1e-12 * (1.0 + want[i][k].abs()));
        }
    }
    let none = observation_jacobian_assist(&c, &spherical_jacobian, &[[0.0; 6]; 6], &body, &o);
    assert_eq!(none, [[0.0; 6]; 6]);
}

#[test]
fn jacobian_reads_only_the_difference() {
    let c = constants();
    let phi = matrix(60807.0);
    let body = [2.0, 0.5, 0.25, 0.0, 0.0625, 0.0];
    let o = observer("500", 60810.0).state;
    let j = observation_jacobian_assist(&c, &spherical_jacobian, &phi, &body, &o);
    let mut labelled = o;
    labelled.epoch = 1.0;
    labelled.frame = Frame::Equatorial;
    labelled.origin = Origin::Earth;
    labelled.covariance = Some(diagonal([1.0; 6]));
    assert_eq!(j, observation_jacobian_assist(&c, &spherical_jacobian, &phi, &body, &labelled));
    let mut shifted = o;
    shifted.x += 0.5;
    shifted.y -= 0.25;
    let mut other = body;
    other[0] += 0.5;
    other[1] -= 0.25;
    let k = observation_jacobian_assist(&c, &spherical_jacobian, &phi, &other, &shifted);
    for i in 0..6 {
        for n in 0..6 {
            assert!((j[i][n] - k[i][n]).abs() <= 1e-10 * (1.0 + j[i][n].abs()));
        }
    }
}

#[test]
fn short_reply_without_a_matrix_is_an_error_of_its_own() {
    let observers = [observer("500", 60810.0), observer("X05", 60811.0)];
    let sightings = vec![sighting(60810.0), sighting(60811.0)];
    let short = vec![IntegratedState { state: [0.0; 6], epoch: 60810.0, stm: None }];
    let out = finish_ephemeris(
        &constants(),
        &no_jacobian,
        &orbit(Some(diagonal([1e-8; 6]))),
        &observers,
        &request(true, true),
        &sightings,
        Some(Ok(short)),
    );
    assert_eq!(
        out,
        Err(PropagatorError::PropagationFailed(
            "AssistPropagator::generate_ephemeris: compute_covariance requested but \
             assist_propagate returned no STM for one or more emission epochs"
                .into()
        ))
    );
}
