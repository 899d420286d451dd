//! Propagation over engines that the tests provide.

use std::cell::Cell;

use thor_rs_assist::constants::{Constants, Decimal};
use thor_rs_assist::engine::{
    AdaptiveMode, AssistObserver, AssistOrbit, AssistOrigin, BodyState, IntegratedState,
    IntegratorConfig, Reply, Sighting,
};
use thor_rs_assist::linalg::{mat6_mul, mat6_transpose};
use thor_rs_assist::loading::{load_failure, LoadStep};
use thor_rs_assist::observation::Topocentric;
use thor_rs_assist::propagator::{
    default_integrator_config, finish_propagation, from_helio_ecliptic, propagated_state,
};
use thor_rs_assist::requests::{check_profile, substitutes_accurate, to_assist_orbit};
use thor_rs_assist::types::{
    CartesianState, CovarianceKind, CovarianceMethod, CovarianceQuality, EphemerisConfig, Frame,
    IntegratorProfile, Origin, PropagationConfig, PropagationProfile, PropagatorError, TestOrbit,
};
use thor_rs_assist::AssistPropagator;

fn read(d: Decimal) -> f64 {
    format!("{}e{}", d.mantissa, d.exponent).parse().unwrap()
}

fn constants() -> Constants<f64> {
    Constants::new(read)
}

fn sqrt(x: f64) -> f64 {
    x.sqrt()
}

fn propagator() -> AssistPropagator<f64, ()> {
    AssistPropagator { data: (), integrator: default_integrator_config(&constants()) }
}

fn mba() -> TestOrbit<f64> {
    TestOrbit {
        id: "smoke_mba".into(),
        state: CartesianState {
            x: 2.3,
            y: 1.0,
            z: 0.1,
            vx: -0.005,
            vy: 0.009,
            vz: 0.0001,
            epoch: 60800.0,
            frame: Frame::EclipticJ2000,
            origin: Origin::Sun,
            covariance: None,
        },
    }
}

fn profile() -> PropagationProfile {
    PropagationProfile {
        events: true,
        integrator: IntegratorProfile::Accurate,
        allow_accurate_substitute: false,
        cache_dense: false,
    }
}

fn config(compute_stm: bool) -> PropagationConfig {
    PropagationConfig { compute_stm, profile: profile() }
}

fn diagonal(d: [f64; 6]) -> [[f64; 6]; 6] {
    let mut m = [[0.0; 6]; 6];
    for i in 0..6 {
        m[i][i] = d[i];
    }
    m
}

/// Free motion, whose state transition matrix is known.
fn drift(orbit: &AssistOrbit<f64>, epoch: f64, stm: bool) -> IntegratedState<f64> {
    let dt = epoch - orbit.epoch;
    let mut state = orbit.state;
    let mut phi = diagonal([1.0; 6]);
    for i in 0..3 {
        state[i] += dt * state[i + 3];
        phi[i][i + 3] = dt;
    }
    IntegratedState { state, epoch, stm: if stm { Some(phi) } else { None } }
}

fn drifting(
    _: &(),
    orbit: &AssistOrbit<f64>,
    epochs: &[f64],
    stm: bool,
    _: &IntegratorConfig<f64>,
) -> Reply<IntegratedState<f64>> {
    Ok(epochs.iter().map(|&e| drift(orbit, e, stm)).collect())
}

fn failing(
    _: &(),
    _: &AssistOrbit<f64>,
    _: &[f64],
    _: bool,
    _: &IntegratorConfig<f64>,
) -> Reply<IntegratedState<f64>> {
    Err("step underflow".into())
}

fn unasked(
    _: &(),
    _: &AssistOrbit<f64>,
    _: &[f64],
    _: bool,
    _: &IntegratorConfig<f64>,
) -> Reply<IntegratedState<f64>> {
    panic!("the engine is not to be asked")
}

/// Motion about the Sun alone, by Runge-Kutta steps of a hundredth of a day.
fn kepler(
    _: &(),
    orbit: &AssistOrbit<f64>,
    epochs: &[f64],
    _: bool,
    _: &IntegratorConfig<f64>,
) -> Reply<IntegratedState<f64>> {
    let mu = 0.000_295_912_208_284_119_6;
    let slope = |s: &[f64; 6]| {
        let r = (s[0] * s[0] + s[1] * s[1] + s[2] * s[2]).sqrt();
        let k = -mu / (r * r * r);
        [s[3], s[4], s[5], k * s[0], k * s[1], k * s[2]]
    };
    let along = |s: &[f64; 6], d: &[f64; 6], h: f64| {
        let mut t = *s;
        for i in 0..6 {
            t[i] += h * d[i];
        }
        t
    };
    let mut out = Vec::new();
    for &epoch in epochs {
        let steps = 1000;
        let h = (epoch - orbit.epoch) / steps as f64;
        let mut s = orbit.state;
        for _ in 0..steps {
            let a = slope(&s);
            let b = slope(&along(&s, &a, h / 2.0));
            let c = slope(&along(&s, &b, h / 2.0));
            let d = slope(&along(&s, &c, h));
            for i in 0..6 {
                s[i] += h / 6.0 * (a[i] + 2.0 * b[i] + 2.0 * c[i] + d[i]);
            }
        }
        out.push(IntegratedState { state: s, epoch, stm: None });
    }
    Ok(out)
}

fn earth_at(epoch: f64) -> [f64; 6] {
    let w = 2.0 * std::f64::consts::PI / 365.25;
    let (sin, cos) = (w * (epoch - 60800.0)).sin_cos();
    [cos, sin, 0.0, -w * sin, w * cos, 0.0]
}

fn earthbound(
    _: &(),
    origin: &AssistOrigin,
    epochs: &[f64],
    _: Option<usize>,
) -> Reply<BodyState<f64>> {
    match origin {
        AssistOrigin::Observatory(code) if code == "500" => {
            Ok(epochs.iter().map(|&epoch| BodyState { state: earth_at(epoch), epoch }).collect())
        }
        _ => Err("unknown observatory".into()),
    }
}

fn seen_from_earth(
    data: &(),
    orbit: &AssistOrbit<f64>,
    observers: &[AssistObserver<f64>],
    _: Option<usize>,
    config: &IntegratorConfig<f64>,
) -> Reply<Sighting<f64>> {
    let mut out = Vec::new();
    for o in observers {
        let e = earth_at(o.epoch);
        let mut light_time = 0.0;
        let mut body = orbit.state;
        for _ in 0..5 {
            body = kepler(data, orbit, &[o.epoch - light_time], false, config)?[0].state;
            let d = [body[0] - e[0], body[1] - e[1], body[2] - e[2]];
            light_time = (d[0] * d[0] + d[1] * d[1] + d[2] * d[2]).sqrt() / 173.144_632_674_240_3;
        }
        let b = assist_rs::ecliptic_to_equatorial(&body);
        let e = assist_rs::ecliptic_to_equatorial(&e);
        let spherical = assist_rs::coordinates::cartesian_to_spherical(
            [b[0] - e[0], b[1] - e[1], b[2] - e[2]],
            [b[3] - e[3], b[4] - e[4], b[5] - e[5]],
        );
        out.push(Sighting { spherical, aberrated_state: body, light_time, epoch: o.epoch });
    }
    Ok(out)
}

fn spherical_jacobian(t: Topocentric<f64>) -> [[f64; 6]; 6] {
    assist_rs::coordinates::cartesian_to_spherical_jacobian(t.position, t.velocity)
}

#[test]
fn propagate_and_ephemeris_roundtrip() {
    let prop = propagator();
    let c = constants();
    let states = prop
        .propagate(&mba(), &[60810.0], &config(false), &c, &sqrt, &kepler)
        .expect("propagate");
    assert_eq!(states.len(), 1);
    let s = &states[0].state;
    assert!(s.x.is_finite() && s.y.is_finite() && s.z.is_finite());
    let r = (s.x * s.x + s.y * s.y + s.z * s.z).sqrt();
    assert!((1.5..4.0).contains(&r), "MBA stayed in the belt: r = {r}");

    let observers = prop
        .compute_observers(&["500".into()], &[60810.0], &earthbound)
        .expect("observers");
    let request = EphemerisConfig {
        compute_covariance: false,
        covariance_method: CovarianceMethod::Auto,
        num_samples: 1000,
        compute_jacobian: false,
    };
    let eph = prop
        .generate_ephemeris(
            &mba(),
            &observers,
            &request,
            &c,
            &spherical_jacobian,
            &seen_from_earth,
            &kepler,
        )
        .expect("ephemeris");
    assert_eq!(eph.len(), 1);
    assert!(eph[0].state.lon.is_finite() && eph[0].state.lat.is_finite());
    assert_eq!(prop.force_model(), "assist:de440+sb441-n16+ias15-prs23");
}

#[test]
fn default_settings() {
    let c = default_integrator_config(&constants());
    assert_eq!(c.initial_dt, Some(1e-6));
    assert_eq!(c.min_dt, Some(1e-6));
    assert_eq!(c.epsilon, Some(1e-9));
    assert_eq!(c.adaptive_mode, Some(AdaptiveMode::Prs23));
}

#[test]
fn settings_reach_the_engine() {
    let settings = IntegratorConfig {
        initial_dt: None,
        min_dt: Some(1e-9),
        epsilon: Some(1e-6),
        adaptive_mode: Some(AdaptiveMode::Global),
    };
    let prop = propagator().with_integrator_config(settings);
    let seen = Cell::new(false);
    let engine = |_: &(),
                  o: &AssistOrbit<f64>,
                  e: &[f64],
                  w: bool,
                  k: &IntegratorConfig<f64>|
     -> Reply<IntegratedState<f64>> {
        assert_eq!(k.initial_dt, None);
        assert_eq!(k.min_dt, Some(1e-9));
        assert_eq!(k.epsilon, Some(1e-6));
        assert_eq!(k.adaptive_mode, Some(AdaptiveMode::Global));
        seen.set(true);
        drifting(&(), o, e, w, k)
    };
    prop.propagate(&mba(), &[60801.0], &config(false), &constants(), &sqrt, &engine).unwrap();
    assert!(seen.get());
}

#[test]
fn states_come_in_the_order_of_the_epochs() {
    let out = propagator()
        .propagate(
            &mba(),
            &[60810.0, 60790.0, 60800.0],
            &config(false),
            &constants(),
            &sqrt,
            &drifting,
        )
        .unwrap();
    let epochs: Vec<f64> = out.iter().map(|p| p.state.epoch).collect();
    assert_eq!(epochs, vec![60810.0, 60790.0, 60800.0]);
    assert_eq!(out[0].state.x, 2.3 + 10.0 * -0.005);
    assert_eq!(out[2].state.y, 1.0);
    for p in &out {
        assert_eq!(p.state.frame, Frame::EclipticJ2000);
        assert_eq!(p.state.origin, Origin::Sun);
        assert_eq!(p.state.covariance, None);
        assert_eq!(p.covariance_kind, None);
        assert_eq!(p.covariance_quality, None);
        assert_eq!(p.stm, None);
    }
}

#[test]
fn no_epochs_no_states() {
    let out = propagator()
        .propagate(&mba(), &[], &config(true), &constants(), &sqrt, &drifting)
        .unwrap();
    assert!(out.is_empty());
}

#[test]
fn matrices_are_asked_for_where_they_are_needed() {
    for (compute_stm, covariance, want) in [
        (false, None, false),
        (true, None, true),
        (false, Some(diagonal([1e-8; 6])), true),
        (true, Some(diagonal([1e-8; 6])), true),
    ] {
        let mut orbit = mba();
        orbit.state.covariance = covariance;
        let asked = Cell::new(None);
        let engine = |d: &(),
                      o: &AssistOrbit<f64>,
                      e: &[f64],
                      w: bool,
                      k: &IntegratorConfig<f64>|
         -> Reply<IntegratedState<f64>> {
            asked.set(Some(w));
            drifting(d, o, e, w, k)
        };
        let out = propagator()
            .propagate(&orbit, &[60801.0], &config(compute_stm), &constants(), &sqrt, &engine)
            .unwrap();
        assert_eq!(asked.get(), Some(want));
        assert_eq!(out[0].stm.is_some(), compute_stm);
        assert_eq!(out[0].state.covariance.is_some(), covariance.is_some());
    }
}

#[test]
fn covariance_is_mapped_and_tagged() {
    let sigma = diagonal([4.0, 4.0, 4.0, 1.0, 1.0, 1.0]);
    let mut orbit = mba();
    orbit.state.covariance = Some(sigma);
    let out = propagator()
        .propagate(&orbit, &[60802.0], &config(true), &constants(), &sqrt, &drifting)
        .unwrap();
    let phi = out[0].stm.unwrap();
    assert_eq!(phi[0][3], 2.0);
    let cov = out[0].state.covariance.unwrap();
    assert_eq!(cov[0][0], 8.0);
    assert_eq!(cov[0][3], 2.0);
    assert_eq!(cov[3][0], 2.0);
    assert_eq!(cov[3][3], 1.0);
    assert_eq!(
        cov,
        mat6_mul(0.0, &mat6_mul(0.0, &phi, &sigma), &mat6_transpose(0.0, &phi))
    );
    assert_eq!(out[0].covariance_kind, Some(CovarianceKind::Linear));
    assert_eq!(out[0].covariance_quality, Some(CovarianceQuality::PositiveDefinite));
}

#[test]
fn indefinite_covariance_is_tagged_so() {
    let mut orbit = mba();
    orbit.state.covariance = Some(diagonal([1.0, 1.0, 1.0, 1.0, 1.0, -2.0]));
    let out = propagator()
        .propagate(&orbit, &[60800.0], &config(false), &constants(), &sqrt, &drifting)
        .unwrap();
    match out[0].covariance_quality {
        Some(CovarianceQuality::Indefinite { min_eig }) => assert!((min_eig + 2.0).abs() < 1e-9),
        _ => panic!("the covariance is indefinite"),
    }
}

#[test]
fn engine_without_a_matrix_gives_no_covariance() {
    let r = IntegratedState { state: [1.0; 6], epoch: 60801.0, stm: None };
    let p = propagated_state(&constants(), &sqrt, &Some(diagonal([1.0; 6])), true, &r);
    assert_eq!(p.state, from_helio_ecliptic([1.0; 6], 60801.0));
    assert_eq!(p.covariance_kind, None);
    assert_eq!(p.stm, None);
}

#[test]
fn engine_failure_is_passed_on() {
    let r = propagator().propagate(&mba(), &[1.0], &config(false), &constants(), &sqrt, &failing);
    assert_eq!(r, Err(PropagatorError::PropagationFailed("step underflow".into())));
    let r = finish_propagation(&constants(), &sqrt, &mba(), &config(false), Err("lost".into()));
    assert_eq!(r, Err(PropagatorError::PropagationFailed("lost".into())));
}

#[test]
fn fast_profile_is_refused() {
    let mut request = config(false);
    request.profile.integrator = IntegratorProfile::Fast;
    let want = PropagatorError::Unsupported(
        "AssistPropagator has no Fast (survey-grade) integrator — only IAS15. \
         Set PropagationProfile::allow_accurate_substitute to run IAS15 instead, \
         or use the empyrean backend for DOP853."
            .into(),
    );
    assert_eq!(check_profile(&request.profile), Err(want.clone()));
    assert!(!substitutes_accurate(&request.profile));
    // The profile is looked at before the orbit.
    let mut orbit = mba();
    orbit.state.frame = Frame::Equatorial;
    let r = propagator().propagate(&orbit, &[1.0], &request, &constants(), &sqrt, &unasked);
    assert_eq!(r, Err(want));
}

#[test]
fn accepted_profiles_give_one_result() {
    let plain = propagator()
        .propagate(&mba(), &[60805.0], &config(true), &constants(), &sqrt, &drifting)
        .unwrap();
    for integrator in [IntegratorProfile::Accurate, IntegratorProfile::Fast] {
        for events in [false, true] {
            for cache_dense in [false, true] {
                let profile = PropagationProfile {
                    events,
                    integrator,
                    allow_accurate_substitute: true,
                    cache_dense,
                };
                let request = PropagationConfig { compute_stm: true, profile };
                let out = propagator()
                    .propagate(&mba(), &[60805.0], &request, &constants(), &sqrt, &drifting)
                    .unwrap();
                assert_eq!(out, plain);
                assert_eq!(substitutes_accurate(&profile), integrator == IntegratorProfile::Fast);
            }
        }
    }
}

#[test]
fn orbit_in_another_frame_is_refused() {
    let mut orbit = mba();
    orbit.state.frame = Frame::Equatorial;
    orbit.state.origin = Origin::Earth;
    let want = PropagatorError::InvalidOrbit(
        "AssistPropagator requires EclipticJ2000 frame, got Equatorial".into(),
    );
    assert_eq!(to_assist_orbit(&orbit), Err(want.clone()));
    let r = propagator().propagate(&orbit, &[1.0], &config(false), &constants(), &sqrt, &unasked);
    assert_eq!(r, Err(want));
}

#[test]
fn orbit_about_another_origin_is_refused() {
    for (origin, name) in [
        (Origin::SolarSystemBarycenter, "SolarSystemBarycenter"),
        (Origin::Earth, "Earth"),
    ] {
        let mut orbit = mba();
        orbit.state.origin = origin;
        let r =
            propagator().propagate(&orbit, &[1.0], &config(false), &constants(), &sqrt, &unasked);
        assert_eq!(
            r,
            Err(PropagatorError::InvalidOrbit(format!(
                "AssistPropagator requires Sun origin (heliocentric), got {name}"
            )))
        );
    }
}

#[test]
fn accepted_orbit_is_handed_over() {
    let a = to_assist_orbit(&mba()).unwrap();
    assert_eq!(a.state, [2.3, 1.0, 0.1, -0.005, 0.009, 0.0001]);
    assert_eq!(a.epoch, 60800.0);
}

#[test]
fn names_are_those_of_the_variants() {
    for f in [Frame::EclipticJ2000, Frame::Equatorial] {
        assert_eq!(f.name(), format!("{f:?}"));
    }
    for o in [Origin::SolarSystemBarycenter, Origin::Sun, Origin::Earth] {
        assert_eq!(o.name(), format!("{o:?}"));
    }
    for m in [
        CovarianceMethod::Auto,
        CovarianceMethod::Analytic,
        CovarianceMethod::MonteCarlo,
        CovarianceMethod::SigmaPoint,
    ] {
        assert_eq!(m.name(), format!("{m:?}"));
    }
}

#[test]
fn failed_loads_name_their_step() {
    for (step, label) in [
        (LoadStep::DataFiles, "DataManager: "),
        (LoadStep::Ephemeris, "Failed to load ASSIST ephemeris: "),
        (LoadStep::ObservatoryCodes, "Failed to load obs codes: "),
        (LoadStep::EarthOrientation, "Failed to load EOP kernels: "),
    ] {
        assert_eq!(
            load_failure(step, "no such file"),
            PropagatorError::Other(format!("{label}no such file"))
        );
    }
}

#[test]
fn asking_for_matrices_changes_nothing_else() {
    let mut orbit = mba();
    orbit.state.covariance = Some(diagonal([4.0, 4.0, 4.0, 1.0, 1.0, 1.0]));
    let run = |stm: bool| {
        propagator()
            .propagate(&orbit, &[60802.0, 60790.0], &config(stm), &constants(), &sqrt, &drifting)
            .unwrap()
    };
    let (a, b) = (run(true), run(false));
    assert_eq!(a.len(), b.len());
    for (x, y) in a.iter().zip(&b) {
        assert!(x.stm.is_some());
        assert_eq!(y.stm, None);
        assert_eq!(x.state, y.state);
        assert_eq!(x.covariance_kind, y.covariance_kind);
        assert_eq!(x.covariance_quality, y.covariance_quality);
    }
}

#[test]
fn settings_are_handed_over_as_they_are() {
    let mut settings = default_integrator_config(&constants());
    settings.epsilon = Some(f64::NAN);
    let prop = propagator().with_integrator_config(settings);
    assert!(prop.integrator.epsilon.unwrap().is_nan());
    assert_eq!(prop.integrator.min_dt, Some(1e-6));
}
