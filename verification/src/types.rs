//! States, ephemeris records and settings, over a scalar type `T`.
//!
//! Positions are in AU, velocities in AU/day, epochs in MJD TDB.

use vstd::prelude::*;

use crate::linalg::{Mat6, Vec6};

verus! {

/// Reference frame of a state.
#[derive(Clone, Copy, Debug, PartialEq, Eq, Structural)]
pub enum Frame {
    /// J2000 ecliptic.
    EclipticJ2000,
    /// Equatorial (ICRF).
    Equatorial,
}

/// Centre of a coordinate system.
#[derive(Clone, Copy, Debug, PartialEq, Eq, Structural)]
pub enum Origin {
    SolarSystemBarycenter,
    Sun,
    Earth,
}

/// A Cartesian state, with an optional covariance in the same frame.
#[derive(Clone, Copy, Debug, PartialEq)]
pub struct CartesianState<T> {
    pub x: T,
    pub y: T,
    pub z: T,
    pub vx: T,
    pub vy: T,
    pub vz: T,
    pub epoch: T,
    pub frame: Frame,
    pub origin: Origin,
    pub covariance: Option<Mat6<T>>,
}

/// A spherical state: range in AU, angles in degrees, and their rates per day.
#[derive(Clone, Copy, Debug, PartialEq)]
pub struct SphericalState<T> {
    pub rho: T,
    pub lon: T,
    pub lat: T,
    pub vrho: T,
    pub vlon: T,
    pub vlat: T,
    pub epoch: T,
    pub frame: Frame,
    pub origin: Origin,
    pub covariance: Option<Mat6<T>>,
}

/// An orbit to be propagated.
#[derive(Clone, Debug, PartialEq)]
pub struct TestOrbit<T> {
    pub id: String,
    pub state: CartesianState<T>,
}

/// An observer's heliocentric ecliptic state.
#[derive(Clone, Debug, PartialEq)]
pub struct ObserverState<T> {
    /// MPC observatory code.
    pub code: String,
    pub state: CartesianState<T>,
}

/// How a propagated covariance was derived.
#[derive(Clone, Copy, Debug, PartialEq, Eq, Structural)]
pub enum CovarianceKind {
    /// The linear map through the state transition matrix.
    Linear,
}

/// Definiteness of a propagated covariance.
#[derive(Clone, Copy, Debug, PartialEq)]
pub enum CovarianceQuality<T> {
    /// No eigenvalue is negative beyond round-off.
    PositiveDefinite,
    /// The least eigenvalue is negative beyond round-off.
    Indefinite { min_eig: T },
}

/// An orbit propagated to one epoch.
#[derive(Clone, Copy, Debug, PartialEq)]
pub struct PropagatedState<T> {
    pub state: CartesianState<T>,
    /// State transition matrix from the orbit's epoch.
    pub stm: Option<Mat6<T>>,
    pub covariance_kind: Option<CovarianceKind>,
    pub covariance_quality: Option<CovarianceQuality<T>>,
}

/// The prediction for one observer.
#[derive(Clone, Copy, Debug, PartialEq)]
pub struct EphemerisRecord<T> {
    /// On-sky spherical state.
    pub state: SphericalState<T>,
    /// Heliocentric ecliptic state at the emission epoch.
    pub aberrated_state: CartesianState<T>,
    /// The observer's heliocentric ecliptic state.
    pub observer_state: CartesianState<T>,
    /// One-way light time in days.
    pub light_time: Option<T>,
    /// Derivative of the spherical state with respect to the orbit's state.
    pub observation_jacobian: Option<Mat6<T>>,
    /// Second-order shift of the mean.
    pub mean_shift: Option<Vec6<T>>,
}

/// Which integrator a caller asks for.
#[derive(Clone, Copy, Debug, PartialEq, Eq, Structural)]
pub enum IntegratorProfile {
    Accurate,
    Fast,
}

/// Per-call propagation profile.
#[derive(Clone, Copy, Debug, PartialEq, Eq, Structural)]
pub struct PropagationProfile {
    /// Run event detection.
    pub events: bool,
    pub integrator: IntegratorProfile,
    /// Accept the accurate integrator where the fast one is missing.
    pub allow_accurate_substitute: bool,
    /// Cache dense integrator steps.
    pub cache_dense: bool,
}

/// Settings of a propagation.
#[derive(Clone, Copy, Debug, PartialEq, Eq, Structural)]
pub struct PropagationConfig {
    /// Return the state transition matrices.
    pub compute_stm: bool,
    pub profile: PropagationProfile,
}

/// Method of covariance propagation.
#[derive(Clone, Copy, Debug, PartialEq, Eq, Structural)]
pub enum CovarianceMethod {
    Auto,
    Analytic,
    MonteCarlo,
    SigmaPoint,
}

/// Settings of an ephemeris.
#[derive(Clone, Copy, Debug, PartialEq, Eq, Structural)]
pub struct EphemerisConfig {
    /// Return the covariances.
    pub compute_covariance: bool,
    pub covariance_method: CovarianceMethod,
    /// Sample count of the sample-based methods.
    pub num_samples: usize,
    /// Return the observation Jacobians.
    pub compute_jacobian: bool,
}

/// Why a request failed.
#[derive(Clone, Debug, PartialEq, Eq)]
pub enum PropagatorError {
    /// The integration failed.
    PropagationFailed(String),
    /// The orbit is in the wrong frame or about the wrong centre.
    InvalidOrbit(String),
    /// An observer could not be located.
    InvalidObserver(String),
    /// The request needs a capability that this backend lacks.
    Unsupported(String),
    /// Covariance output was asked for, but the orbit carries none.
    MissingCovariance(String),
    Other(String),
}

/// A [`PropagatorError`] as a specification value.
pub enum ErrorView {
    PropagationFailed(Seq<char>),
    InvalidOrbit(Seq<char>),
    InvalidObserver(Seq<char>),
    Unsupported(Seq<char>),
    MissingCovariance(Seq<char>),
    Other(Seq<char>),
}

impl View for PropagatorError {
    type V = ErrorView;

    open spec fn view(&self) -> ErrorView {
        match *self {
            PropagatorError::PropagationFailed(m) => ErrorView::PropagationFailed(m@),
            PropagatorError::InvalidOrbit(m) => ErrorView::InvalidOrbit(m@),
            PropagatorError::InvalidObserver(m) => ErrorView::InvalidObserver(m@),
            PropagatorError::Unsupported(m) => ErrorView::Unsupported(m@),
            PropagatorError::MissingCovariance(m) => ErrorView::MissingCovariance(m@),
            PropagatorError::Other(m) => ErrorView::Other(m@),
        }
    }
}

/// A result as a specification value.
pub open spec fn outcome<V>(r: Result<V, PropagatorError>) -> Result<V, ErrorView> {
    match r {
        Ok(v) => Ok(v),
        Err(e) => Err(e@),
    }
}

/// The result of a list as a specification value.
pub open spec fn list_outcome<V>(r: Result<Vec<V>, PropagatorError>) -> Result<Seq<V>, ErrorView> {
    match r {
        Ok(v) => Ok(v@),
        Err(e) => Err(e@),
    }
}

/// The six components of a state.
pub open spec fn components<T>(s: CartesianState<T>) -> Vec6<T> {
    [s.x, s.y, s.z, s.vx, s.vy, s.vz]
}

/// The state with components `v`.
pub open spec fn cartesian<T>(
    v: Vec6<T>,
    epoch: T,
    frame: Frame,
    origin: Origin,
    covariance: Option<Mat6<T>>,
) -> CartesianState<T> {
    CartesianState {
        x: v[0],
        y: v[1],
        z: v[2],
        vx: v[3],
        vy: v[4],
        vz: v[5],
        epoch,
        frame,
        origin,
        covariance,
    }
}

impl<T: Copy> CartesianState<T> {
    /// The six components.
    pub fn to_array(&self) -> (v: Vec6<T>)
        ensures
            v == components(*self),
    {
        let v = [self.x, self.y, self.z, self.vx, self.vy, self.vz];
        assert(v =~= components(*self));
        v
    }

    /// The state with components `v`.
    pub fn from_array(
        v: Vec6<T>,
        epoch: T,
        frame: Frame,
        origin: Origin,
        covariance: Option<Mat6<T>>,
    ) -> (s: CartesianState<T>)
        ensures
            s == cartesian(v, epoch, frame, origin, covariance),
    {
        CartesianState {
            x: v[0],
            y: v[1],
            z: v[2],
            vx: v[3],
            vy: v[4],
            vz: v[5],
            epoch,
            frame,
            origin,
            covariance,
        }
    }
}

} // verus!
