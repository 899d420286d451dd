//! Bodies, observatories, frames and origins.

use std::cell::RefCell;

use thor_rs_assist::bodies::{
    assist_origin, body_origin, observer_from_reply, origin_from_reply, positions_from_reply,
};
use thor_rs_assist::constants::{Constants, Decimal};
use thor_rs_assist::engine::{AssistOrigin, BodyState, Reply};
use thor_rs_assist::linalg::{mat6_transpose, propagate_covariance_6x6};
use thor_rs_assist::propagator::default_integrator_config;
use thor_rs_assist::rotation::ecl_to_eq_6x6;
use thor_rs_assist::transform::{translate, turn, vec6_sub};
use thor_rs_assist::types::{CartesianState, Frame, Origin, PropagatorError};
use thor_rs_assist::AssistPropagator;

fn read(d: Decimal) -> f64 {
    format!("{}e{}", d.mantissa, d.exponent).parse().unwrap()
}

fn constants() -> Constants<f64> {
    Constants::new(read)
}

fn propagator() -> AssistPropagator<f64, ()> {
    AssistPropagator { data: (), integrator: default_integrator_config(&constants()) }
}

const EARTH: [f64; 6] = [0.5, -0.75, 0.125, 0.0078125, 0.015625, 0.0];
const BARYCENTER: [f64; 6] = [0.0078125, 0.00390625, 0.0, 0.0, 0.0009765625, 0.0];

fn almanac(
    _: &(),
    origin: &AssistOrigin,
    epochs: &[f64],
    _: Option<usize>,
) -> Reply<BodyState<f64>> {
    let state = match origin {
        AssistOrigin::Earth => EARTH,
        AssistOrigin::SolarSystemBarycenter => BARYCENTER,
        AssistOrigin::Observatory(code) if code == "X05" => [1.0, 2.0, 3.0, 4.0, 5.0, 6.0],
        AssistOrigin::Observatory(code) if code == "500" => EARTH,
        AssistOrigin::Observatory(code) if code == "000" => return Ok(Vec::new()),
        AssistOrigin::Observatory(_) => return Err("no such code".into()),
        _ => [9.0, 8.0, 7.0, 6.0, 5.0, 4.0],
    };
    Ok(epochs.iter().map(|&epoch| BodyState { state, epoch }).collect())
}

fn unasked(_: &(), _: &AssistOrigin, _: &[f64], _: Option<usize>) -> Reply<BodyState<f64>> {
    panic!("the engine is not to be asked")
}

fn failing(_: &(), _: &AssistOrigin, _: &[f64], _: Option<usize>) -> Reply<BodyState<f64>> {
    Err("out of coverage".into())
}

fn empty(_: &(), _: &AssistOrigin, _: &[f64], _: Option<usize>) -> Reply<BodyState<f64>> {
    Ok(Vec::new())
}

fn covariance() -> [[f64; 6]; 6] {
    let mut m = [[0.0; 6]; 6];
    for i in 0..6 {
        for j in 0..6 {
            m[i][j] = if i == j { 2.0 + i as f64 } else { 0.125 * (i + j) as f64 };
        }
    }
    m
}

fn state(frame: Frame, origin: Origin) -> CartesianState<f64> {
    CartesianState::from_array(
        [2.3, 1.0, 0.1, -0.005, 0.009, 0.0001],
        60800.0,
        frame,
        origin,
        Some(covariance()),
    )
}

#[test]
fn observers_in_the_order_of_their_codes() {
    let out = propagator()
        .compute_observers(&["X05".into(), "500".into()], &[60810.0, 60811.0], &almanac)
        .unwrap();
    assert_eq!(out.len(), 2);
    assert_eq!(out[0].code, "X05");
    assert_eq!(out[0].state.to_array(), [1.0, 2.0, 3.0, 4.0, 5.0, 6.0]);
    assert_eq!(out[0].state.epoch, 60810.0);
    assert_eq!(out[1].code, "500");
    assert_eq!(out[1].state.to_array(), EARTH);
    assert_eq!(out[1].state.epoch, 60811.0);
    for o in &out {
        assert_eq!(o.state.frame, Frame::EclipticJ2000);
        assert_eq!(o.state.origin, Origin::Sun);
        assert_eq!(o.state.covariance, None);
    }
}

#[test]
fn observers_are_looked_up_one_by_one() {
    let asked = RefCell::new(Vec::new());
    let engine = |d: &(),
                  o: &AssistOrigin,
                  e: &[f64],
                  threads: Option<usize>|
     -> Reply<BodyState<f64>> {
        asked.borrow_mut().push((o.clone(), e.to_vec(), threads));
        almanac(d, o, e, threads)
    };
    let r = propagator().compute_observers(
        &["500".into(), "ZZZ".into(), "X05".into()],
        &[60810.0, 60811.0, 60812.0],
        &engine,
    );
    assert_eq!(r, Err(PropagatorError::InvalidObserver("ZZZ: no such code".into())));
    assert_eq!(
        asked.into_inner(),
        vec![
            (AssistOrigin::Observatory("500".into()), vec![60810.0], Some(1)),
            (AssistOrigin::Observatory("ZZZ".into()), vec![60811.0], Some(1)),
        ]
    );
}

#[test]
fn observer_without_a_state() {
    let r = propagator().compute_observers(&["000".into()], &[60810.0], &almanac);
    assert_eq!(r, Err(PropagatorError::InvalidObserver("no state for 000".into())));
    let r = observer_from_reply::<f64>(&"I11".into(), Err("gone".into()));
    assert_eq!(r, Err(PropagatorError::InvalidObserver("I11: gone".into())));
}

#[test]
fn codes_and_epochs_of_two_lengths() {
    let r = propagator().compute_observers(&["500".into()], &[1.0; 12], &unasked);
    assert_eq!(
        r,
        Err(PropagatorError::Other("compute_observers: codes.len()=1 != epochs.len()=12".into()))
    );
    let none: Vec<f64> = Vec::new();
    assert_eq!(propagator().compute_observers(&[], &none, &unasked), Ok(Vec::new()));
}

#[test]
fn bodies_by_name() {
    for (name, origin) in [
        ("sun", AssistOrigin::Sun),
        ("mercury", AssistOrigin::MercuryBarycenter),
        ("venus", AssistOrigin::VenusBarycenter),
        ("earth", AssistOrigin::Earth),
        ("moon", AssistOrigin::Moon),
        ("mars", AssistOrigin::MarsBarycenter),
        ("jupiter", AssistOrigin::JupiterBarycenter),
        ("saturn", AssistOrigin::SaturnBarycenter),
        ("uranus", AssistOrigin::UranusBarycenter),
        ("neptune", AssistOrigin::NeptuneBarycenter),
        ("pluto", AssistOrigin::PlutoBarycenter),
    ] {
        assert_eq!(body_origin(name), Ok(origin.clone()));
        let engine = |_: &(),
                      o: &AssistOrigin,
                      e: &[f64],
                      threads: Option<usize>|
         -> Reply<BodyState<f64>> {
            assert_eq!(*o, origin);
            assert_eq!(threads, Some(2));
            Ok(e.iter().map(|&epoch| BodyState { state: [epoch; 6], epoch }).collect())
        };
        let upper = name.to_uppercase();
        for spelling in [name, upper.as_str()] {
            let out =
                propagator().compute_body_positions(spelling, &[60810.0, 60811.0], &engine).unwrap();
            assert_eq!(out, vec![[60810.0; 3], [60811.0; 3]]);
        }
    }
}

#[test]
fn case_folding_is_that_of_unicode() {
    // The Kelvin sign folds to the letter k, which names no body here.
    let r = propagator().compute_body_positions("\u{212A}ORE", &[60810.0], &unasked);
    assert_eq!(
        r,
        Err(PropagatorError::Other(
            "compute_body_positions: unknown body 'kore' (expected \
             sun/mercury/venus/earth/moon/mars/jupiter/saturn/uranus/neptune/pluto)"
                .into()
        ))
    );
}

#[test]
fn positions_are_the_first_half_of_the_state() {
    let out = propagator().compute_body_positions("Earth", &[60810.0], &almanac).unwrap();
    assert_eq!(out, vec![[0.5, -0.75, 0.125]]);
}

#[test]
fn unknown_body() {
    let r = propagator().compute_body_positions("Vulcan", &[60810.0], &unasked);
    assert_eq!(
        r,
        Err(PropagatorError::Other(
            "compute_body_positions: unknown body 'vulcan' (expected \
             sun/mercury/venus/earth/moon/mars/jupiter/saturn/uranus/neptune/pluto)"
                .into()
        ))
    );
    assert!(body_origin("Sun").is_err());
}

#[test]
fn body_lookup_failures_keep_the_given_name() {
    let r = propagator().compute_body_positions("Moon", &[60810.0], &failing);
    assert_eq!(
        r,
        Err(PropagatorError::Other("compute_body_positions(Moon): out of coverage".into()))
    );
    let r = propagator().compute_body_positions("Moon", &[1.0; 10], &empty);
    assert_eq!(
        r,
        Err(PropagatorError::Other(
            "compute_body_positions(Moon): expected 10 states, got 0".into()
        ))
    );
    let one = Ok(vec![BodyState { state: [1.0; 6], epoch: 0.0 }]);
    assert_eq!(positions_from_reply("mars", 1, one), Ok(vec![[1.0; 3]]));
}

#[test]
fn sun_is_the_hub() {
    assert_eq!(assist_origin(Origin::Sun), None);
    assert_eq!(assist_origin(Origin::Earth), Some(AssistOrigin::Earth));
    assert_eq!(
        assist_origin(Origin::SolarSystemBarycenter),
        Some(AssistOrigin::SolarSystemBarycenter)
    );
    let c = constants();
    let p = propagator();
    assert_eq!(p.origin_helio_ecl_state(Origin::Sun, 1.0, &c, &unasked), Ok([0.0; 6]));
    assert_eq!(p.origin_helio_ecl_state(Origin::Earth, 1.0, &c, &almanac), Ok(EARTH));
    assert_eq!(
        p.origin_helio_ecl_state(Origin::SolarSystemBarycenter, 1.0, &c, &almanac),
        Ok(BARYCENTER)
    );
}

#[test]
fn origin_lookup_failures() {
    let c = constants();
    let p = propagator();
    assert_eq!(
        p.origin_helio_ecl_state(Origin::Earth, 1.0, &c, &failing),
        Err(PropagatorError::Other("assist_get_state(Earth): out of coverage".into()))
    );
    assert_eq!(
        p.origin_helio_ecl_state(Origin::SolarSystemBarycenter, 1.0, &c, &empty),
        Err(PropagatorError::Other("no state returned for SolarSystemBarycenter".into()))
    );
    let one = Ok(vec![BodyState { state: EARTH, epoch: 0.0 }]);
    assert_eq!(origin_from_reply(Origin::Earth, one), Ok(EARTH));
}

#[test]
fn transform_to_itself_changes_nothing() {
    for frame in [Frame::EclipticJ2000, Frame::Equatorial] {
        for origin in [Origin::Sun, Origin::Earth, Origin::SolarSystemBarycenter] {
            let s = state(frame, origin);
            let r = propagator().transform_state(&s, frame, origin, &constants(), &unasked);
            assert_eq!(r, Ok(s));
        }
    }
}

#[test]
fn frame_change_turns_vector_and_covariance() {
    let c = constants();
    let m = ecl_to_eq_6x6(&c);
    let s = state(Frame::EclipticJ2000, Origin::Earth);
    let r = propagator()
        .transform_state(&s, Frame::Equatorial, Origin::Earth, &c, &unasked)
        .unwrap();
    assert_eq!(r.to_array(), assist_rs::ecliptic_to_equatorial(&s.to_array()));
    assert_eq!(r.covariance, Some(propagate_covariance_6x6(0.0, &m, &covariance())));
    assert_eq!((r.frame, r.origin, r.epoch), (Frame::Equatorial, Origin::Earth, 60800.0));
    let s = state(Frame::Equatorial, Origin::Sun);
    let r = turn(&c, &s, Frame::EclipticJ2000);
    assert_eq!(r.to_array(), assist_rs::equatorial_to_ecliptic(&s.to_array()));
    assert_eq!(
        r.covariance,
        Some(propagate_covariance_6x6(0.0, &mat6_transpose(0.0, &m), &covariance()))
    );
}

#[test]
fn frame_change_and_back() {
    let c = constants();
    for frame in [Frame::EclipticJ2000, Frame::Equatorial] {
        let other = match frame {
            Frame::EclipticJ2000 => Frame::Equatorial,
            Frame::Equatorial => Frame::EclipticJ2000,
        };
        let s = state(frame, Origin::Sun);
        let back = turn(&c, &turn(&c, &s, other), frame);
        let (a, b) = (s.to_array(), back.to_array());
        let (p, q) = (s.covariance.unwrap(), back.covariance.unwrap());
        for i in 0..6 {
            assert!((a[i] - b[i]).abs() < 1e-14);
            for j in 0..6 {
                assert!((p[i][j] - q[i][j]).abs() < 1e-13);
            }
        }
    }
}

#[test]
fn origin_change_subtracts_the_new_origin() {
    let s = state(Frame::EclipticJ2000, Origin::Sun);
    let r = propagator()
        .transform_state(&s, Frame::EclipticJ2000, Origin::Earth, &constants(), &almanac)
        .unwrap();
    let v = s.to_array();
    let mut want = [0.0; 6];
    for i in 0..6 {
        want[i] = v[i] - (EARTH[i] - 0.0);
    }
    assert_eq!(r.to_array(), want);
    assert_eq!(r.covariance, s.covariance);
    assert_eq!((r.frame, r.origin, r.epoch), (Frame::EclipticJ2000, Origin::Earth, 60800.0));
}

#[test]
fn origin_change_in_the_equatorial_frame_turns_the_offset() {
    let c = constants();
    let s = state(Frame::EclipticJ2000, Origin::Earth);
    let r = propagator()
        .transform_state(&s, Frame::Equatorial, Origin::SolarSystemBarycenter, &c, &almanac)
        .unwrap();
    let turned = assist_rs::ecliptic_to_equatorial(&s.to_array());
    let offset = assist_rs::ecliptic_to_equatorial(&vec6_sub(&BARYCENTER, &EARTH));
    assert_eq!(r.to_array(), vec6_sub(&turned, &offset));
    assert_eq!(r.frame, Frame::Equatorial);
    assert_eq!(r.origin, Origin::SolarSystemBarycenter);
}

#[test]
fn origins_are_looked_up_at_the_epoch_of_the_state() {
    let asked = RefCell::new(Vec::new());
    let engine = |d: &(),
                  o: &AssistOrigin,
                  e: &[f64],
                  threads: Option<usize>|
     -> Reply<BodyState<f64>> {
        asked.borrow_mut().push((o.clone(), e.to_vec(), threads));
        almanac(d, o, e, threads)
    };
    let s = state(Frame::EclipticJ2000, Origin::SolarSystemBarycenter);
    propagator()
        .transform_state(&s, Frame::EclipticJ2000, Origin::Earth, &constants(), &engine)
        .unwrap();
    assert_eq!(
        asked.into_inner(),
        vec![
            (AssistOrigin::SolarSystemBarycenter, vec![60800.0], Some(1)),
            (AssistOrigin::Earth, vec![60800.0], Some(1)),
        ]
    );
}

#[test]
fn origin_change_and_back() {
    let c = constants();
    let s = state(Frame::Equatorial, Origin::Earth);
    let there = translate(&c, &s, Origin::Sun, &EARTH, &[0.0; 6]);
    let back = translate(&c, &there, Origin::Earth, &[0.0; 6], &EARTH);
    assert_eq!(back.origin, Origin::Earth);
    for (a, b) in s.to_array().iter().zip(back.to_array()) {
        assert!((a - b).abs() < 1e-15);
    }
    let two = translate(&c, &there, Origin::SolarSystemBarycenter, &[0.0; 6], &BARYCENTER);
    let one = translate(&c, &s, Origin::SolarSystemBarycenter, &EARTH, &BARYCENTER);
    for (a, b) in one.to_array().iter().zip(two.to_array()) {
        assert!((a - b).abs() < 1e-15);
    }
}

#[test]
fn failed_lookup_fails_the_transform() {
    let c = constants();
    let s = state(Frame::EclipticJ2000, Origin::Sun);
    let r =
        propagator().transform_state(&s, Frame::Equatorial, Origin::Earth, &c, &failing);
    assert_eq!(r, Err(PropagatorError::Other("assist_get_state(Earth): out of coverage".into())));
    let s = state(Frame::EclipticJ2000, Origin::SolarSystemBarycenter);
    let r = propagator().transform_state(&s, Frame::Equatorial, Origin::Earth, &c, &empty);
    assert_eq!(
        r,
        Err(PropagatorError::Other("no state returned for SolarSystemBarycenter".into()))
    );
}

fn close(a: &CartesianState<f64>, b: &CartesianState<f64>) {
    assert_eq!((a.epoch, a.frame, a.origin), (b.epoch, b.frame, b.origin));
    for (x, y) in a.to_array().iter().zip(b.to_array()) {
        assert!((x - y).abs() < 1e-14);
    }
    let (p, q) = (a.covariance.unwrap(), b.covariance.unwrap());
    for i in 0..6 {
        for j in 0..6 {
            assert!((p[i][j] - q[i][j]).abs() < 1e-13);
        }
    }
}

#[test]
fn transform_there_and_back_and_through_others() {
    let c = constants();
    let frames = [Frame::EclipticJ2000, Frame::Equatorial];
    let origins = [Origin::Sun, Origin::Earth, Origin::SolarSystemBarycenter];
    let p = propagator();
    for f0 in frames {
        for o0 in origins {
            let s = state(f0, o0);
            for f1 in frames {
                for o1 in origins {
                    let mid = p.transform_state(&s, f1, o1, &c, &almanac).unwrap();
                    let back = p.transform_state(&mid, f0, o0, &c, &almanac).unwrap();
                    close(&back, &s);
                    if f1 == f0 {
                        assert_eq!(back.covariance, s.covariance);
                    }
                    for f2 in frames {
                        for o2 in origins {
                            let direct = p.transform_state(&s, f2, o2, &c, &almanac).unwrap();
                            let end = p.transform_state(&mid, f2, o2, &c, &almanac).unwrap();
                            close(&end, &direct);
                        }
                    }
                }
            }
        }
    }
}

#[test]
fn joined_requests_give_joined_observers() {
    let p = propagator();
    let names = |codes: &[&str]| codes.iter().map(|c| c.to_string()).collect::<Vec<String>>();
    for (first, second) in [
        (vec!["500", "X05"], vec!["X05"]),
        (vec!["500", "ZZZ"], vec!["000"]),
        (vec!["500"], vec!["000", "ZZZ"]),
        (vec![], vec!["500"]),
    ] {
        let all: Vec<&str> = first.iter().chain(&second).copied().collect();
        let times = |n: usize| vec![60810.0; n];
        let a = p.compute_observers(&names(&first), &times(first.len()), &almanac);
        let b = p.compute_observers(&names(&second), &times(second.len()), &almanac);
        let both = p.compute_observers(&names(&all), &times(all.len()), &almanac);
        let want = match (a, b) {
            (Err(e), _) => Err(e),
            (Ok(_), Err(e)) => Err(e),
            (Ok(mut x), Ok(y)) => {
                x.extend(y);
                Ok(x)
            }
        };
        assert_eq!(both, want);
    }
}

#[test]
fn engine_without_a_table_finds_no_observers() {
    let bare = |_: &(),
                o: &AssistOrigin,
                e: &[f64],
                _: Option<usize>|
     -> Reply<BodyState<f64>> {
        match o {
            AssistOrigin::Observatory(_) => {
                Err("Observatory table required for observatory codes".into())
            }
            _ => Ok(e.iter().map(|&epoch| BodyState { state: EARTH, epoch }).collect()),
        }
    };
    let r = propagator().compute_observers(&["500".into(), "X05".into()], &[1.0, 2.0], &bare);
    assert_eq!(
        r,
        Err(PropagatorError::InvalidObserver(
            "500: Observatory table required for observatory codes".into()
        ))
    );
}
