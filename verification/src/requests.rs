//! What the backend accepts: profiles, orbits and covariance requests.

use vstd::prelude::*;

use crate::engine::AssistOrbit;
use crate::types::{
    components, outcome, CovarianceMethod, EphemerisConfig, ErrorView, Frame, IntegratorProfile,
    Origin, PropagationProfile, PropagatorError, TestOrbit,
};

verus! {

/// The name of a frame.
pub open spec fn frame_name(frame: Frame) -> Seq<char> {
    match frame {
        Frame::EclipticJ2000 => "EclipticJ2000"@,
        Frame::Equatorial => "Equatorial"@,
    }
}

/// The name of an origin.
pub open spec fn origin_name(origin: Origin) -> Seq<char> {
    match origin {
        Origin::SolarSystemBarycenter => "SolarSystemBarycenter"@,
        Origin::Sun => "Sun"@,
        Origin::Earth => "Earth"@,
    }
}

/// The name of a covariance method.
pub open spec fn method_name(method: CovarianceMethod) -> Seq<char> {
    match method {
        CovarianceMethod::Auto => "Auto"@,
        CovarianceMethod::Analytic => "Analytic"@,
        CovarianceMethod::MonteCarlo => "MonteCarlo"@,
        CovarianceMethod::SigmaPoint => "SigmaPoint"@,
    }
}

impl Frame {
    /// The name of the frame.
    pub fn name(self) -> (s: &'static str)
        ensures
            s@ == frame_name(self),
    {
        match self {
            Frame::EclipticJ2000 => "EclipticJ2000",
            Frame::Equatorial => "Equatorial",
        }
    }
}

impl Origin {
    /// The name of the origin.
    pub fn name(self) -> (s: &'static str)
        ensures
            s@ == origin_name(self),
    {
        match self {
            Origin::SolarSystemBarycenter => "SolarSystemBarycenter",
            Origin::Sun => "Sun",
            Origin::Earth => "Earth",
        }
    }
}

impl CovarianceMethod {
    /// The name of the method.
    pub fn name(self) -> (s: &'static str)
        ensures
            s@ == method_name(self),
    {
        match self {
            CovarianceMethod::Auto => "Auto",
            CovarianceMethod::Analytic => "Analytic",
            CovarianceMethod::MonteCarlo => "MonteCarlo",
            CovarianceMethod::SigmaPoint => "SigmaPoint",
        }
    }
}

/// What becomes of a profile: the fast integrator is refused unless the
/// accurate one may stand in for it; everything else is accepted.
pub open spec fn profile_outcome(profile: PropagationProfile) -> Result<(), ErrorView> {
    if profile.integrator == IntegratorProfile::Fast && !profile.allow_accurate_substitute {
        Err(
            ErrorView::Unsupported(
                "AssistPropagator has no Fast (survey-grade) integrator — only IAS15. Set PropagationProfile::allow_accurate_substitute to run IAS15 instead, or use the empyrean backend for DOP853."@,
            ),
        )
    } else {
        Ok(())
    }
}

/// Checks a profile against what ASSIST can do.
///
/// ASSIST has one integrator, IAS15. It detects no events and caches no dense
/// steps, so those two settings change nothing.
pub fn check_profile(profile: &PropagationProfile) -> (r: Result<(), PropagatorError>)
    ensures
        outcome(r) == profile_outcome(*profile),
{
    if profile.integrator == IntegratorProfile::Fast && !profile.allow_accurate_substitute {
        return Err(
            PropagatorError::Unsupported(
                String::from_str(
                    "AssistPropagator has no Fast (survey-grade) integrator — only IAS15. Set PropagationProfile::allow_accurate_substitute to run IAS15 instead, or use the empyrean backend for DOP853.",
                ),
            ),
        );
    }
    Ok(())
}

/// Whether an accepted profile runs the accurate integrator in place of the
/// fast one that it asked for, which is to be logged.
pub fn substitutes_accurate(profile: &PropagationProfile) -> (r: bool)
    ensures
        r == (profile.integrator == IntegratorProfile::Fast && profile_outcome(*profile) is Ok),
{
    profile.integrator == IntegratorProfile::Fast && profile.allow_accurate_substitute
}

/// What becomes of an orbit: it must be ecliptic and heliocentric. The frame
/// is looked at first.
pub open spec fn orbit_outcome<T>(orbit: TestOrbit<T>) -> Result<AssistOrbit<T>, ErrorView> {
    if orbit.state.frame != Frame::EclipticJ2000 {
        Err(
            ErrorView::InvalidOrbit(
                "AssistPropagator requires EclipticJ2000 frame, got "@ + frame_name(
                    orbit.state.frame,
                ),
            ),
        )
    } else if orbit.state.origin != Origin::Sun {
        Err(
            ErrorView::InvalidOrbit(
                "AssistPropagator requires Sun origin (heliocentric), got "@ + origin_name(
                    orbit.state.origin,
                ),
            ),
        )
    } else {
        Ok(AssistOrbit { state: components(orbit.state), epoch: orbit.state.epoch })
    }
}

/// The orbit as the engine takes it.
pub fn to_assist_orbit<T: Copy>(orbit: &TestOrbit<T>) -> (r: Result<
    AssistOrbit<T>,
    PropagatorError,
>)
    ensures
        outcome(r) == orbit_outcome(*orbit),
{
    let s = &orbit.state;
    if s.frame != Frame::EclipticJ2000 {
        return Err(
            PropagatorError::InvalidOrbit(
                String::from_str("AssistPropagator requires EclipticJ2000 frame, got ").concat(
                    s.frame.name(),
                ),
            ),
        );
    }
    if s.origin != Origin::Sun {
        return Err(
            PropagatorError::InvalidOrbit(
                String::from_str("AssistPropagator requires Sun origin (heliocentric), got ").concat(
                    s.origin.name(),
                ),
            ),
        );
    }
    Ok(AssistOrbit { state: s.to_array(), epoch: s.epoch })
}

/// What becomes of the covariance part of an ephemeris request: covariance
/// output needs an orbit that carries a covariance, and a first-order method.
pub open spec fn covariance_request_outcome<T>(
    orbit: TestOrbit<T>,
    config: EphemerisConfig,
) -> Result<(), ErrorView> {
    if !config.compute_covariance {
        Ok(())
    } else if orbit.state.covariance is None {
        Err(
            ErrorView::MissingCovariance(
                "AssistPropagator::generate_ephemeris: compute_covariance requested for orbit "@
                    + orbit.id@ + " but the orbit carries no covariance"@,
            ),
        )
    } else if config.covariance_method == CovarianceMethod::Auto || config.covariance_method
        == CovarianceMethod::Analytic {
        Ok(())
    } else {
        Err(
            ErrorView::Unsupported(
                "AssistPropagator has no "@ + method_name(config.covariance_method)
                    + " covariance machinery — only the first-order STM (Analytic). Use the empyrean backend for sample-based covariance propagation."@,
            ),
        )
    }
}

/// Checks the covariance part of an ephemeris request.
///
/// `Auto` resolves to the first-order method, the only one there is.
pub fn check_covariance_request<T>(orbit: &TestOrbit<T>, config: &EphemerisConfig) -> (r: Result<
    (),
    PropagatorError,
>)
    ensures
        outcome(r) == covariance_request_outcome(*orbit, *config),
{
    if !config.compute_covariance {
        return Ok(());
    }
    if orbit.state.covariance.is_none() {
        return Err(
            PropagatorError::MissingCovariance(
                String::from_str(
                    "AssistPropagator::generate_ephemeris: compute_covariance requested for orbit ",
                ).concat(orbit.id.as_str()).concat(" but the orbit carries no covariance"),
            ),
        );
    }
    match config.covariance_method {
        CovarianceMethod::Auto | CovarianceMethod::Analytic => Ok(()),
        CovarianceMethod::SigmaPoint | CovarianceMethod::MonteCarlo => Err(
            PropagatorError::Unsupported(
                String::from_str("AssistPropagator has no ").concat(
                    config.covariance_method.name(),
                ).concat(
                    " covariance machinery — only the first-order STM (Analytic). Use the empyrean backend for sample-based covariance propagation.",
                ),
            ),
        ),
    }
}

} // verus!
