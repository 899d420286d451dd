//! The propagator: its data, its settings, and the propagation of orbits.

use assist_rs::AssistData;
use vstd::prelude::*;

use crate::constants::Constants;
use crate::engine::{integrated, AdaptiveMode, AssistOrbit, IntegratedState, IntegratorConfig, Reply};
use crate::linalg::{congruence, propagate_covariance_6x6, Mat6, Vec6};
use crate::requests::{check_profile, orbit_outcome, profile_outcome, to_assist_orbit};
use crate::scalar::{at_least, is_function, lawful, Scalar};
use crate::spectrum::{least_eigenvalue, mat6_min_eigenvalue_sym, round_off_tolerance, tolerance};
use crate::types::{
    cartesian, list_outcome, CartesianState, CovarianceKind, CovarianceQuality, ErrorView, Frame,
    Origin, PropagatedState, PropagationConfig, PropagatorError, TestOrbit,
};

verus! {

/// The integrator settings of a new propagator.
///
/// The least timestep of 1e-6 days lies far below what a healthy arc takes,
/// and keeps a stiff state from shrinking the timestep without end.
pub open spec fn default_integrator<T>(c: Constants<T>) -> IntegratorConfig<T> {
    IntegratorConfig {
        initial_dt: Some(c.min_step),
        min_dt: Some(c.min_step),
        epsilon: Some(c.precision),
        adaptive_mode: Some(AdaptiveMode::Prs23),
    }
}

/// The integrator settings of a new propagator.
pub fn default_integrator_config<T: Copy>(c: &Constants<T>) -> (k: IntegratorConfig<T>)
    ensures
        k == default_integrator(*c),
{
    IntegratorConfig {
        initial_dt: Some(c.min_step),
        min_dt: Some(c.min_step),
        epsilon: Some(c.precision),
        adaptive_mode: Some(AdaptiveMode::Prs23),
    }
}

/// Propagator over ASSIST and REBOUND.
///
/// `data` is what the engine works on. The propagator only hands it over.
pub struct AssistPropagator<T, D = AssistData> {
    pub data: D,
    pub integrator: IntegratorConfig<T>,
}

impl<T: Copy> AssistPropagator<T> {
    /// A propagator over a loaded ephemeris, without an observatory table.
    pub fn new(ephem: assist_rs::Ephemeris, c: &Constants<T>) -> (p: AssistPropagator<T>)
        ensures
            p.data.ephem == ephem,
            p.data.observatory is None,
            p.integrator == default_integrator(*c),
    {
        AssistPropagator {
            data: AssistData::new(ephem),
            integrator: default_integrator_config(c),
        }
    }

    /// Attaches an observatory table, which lookups by code need.
    pub fn with_obs_table(self, table: assist_rs::ObservatoryTable) -> (p: AssistPropagator<T>)
        ensures
            p.data.ephem == self.data.ephem,
            p.data.observatory == Some(table),
            p.integrator == self.integrator,
    {
        AssistPropagator {
            data: self.data.with_observatory(table),
            integrator: self.integrator,
        }
    }

    /// The loaded ephemeris.
    pub fn ephem(&self) -> (e: &assist_rs::Ephemeris)
        ensures
            *e == self.data.ephem,
    {
        &self.data.ephem
    }
}

impl<T, D> AssistPropagator<T, D> {
    /// Replaces the integrator settings.
    pub fn with_integrator_config(self, integrator: IntegratorConfig<T>) -> (p: AssistPropagator<T, D>)
        ensures
            p.data == self.data,
            p.integrator == integrator,
    {
        AssistPropagator { data: self.data, integrator }
    }

    /// The label of the force model: ephemeris, integrator and its criterion.
    pub fn force_model(&self) -> (s: &'static str)
        ensures
            s@ == "assist:de440+sb441-n16+ias15-prs23"@,
    {
        "assist:de440+sb441-n16+ias15-prs23"
    }
}

/// A heliocentric ecliptic state without covariance.
pub open spec fn helio_ecliptic<T>(v: Vec6<T>, epoch: T) -> CartesianState<T> {
    cartesian(v, epoch, Frame::EclipticJ2000, Origin::Sun, None)
}

/// A heliocentric ecliptic state without covariance.
pub fn from_helio_ecliptic<T: Copy>(v: Vec6<T>, epoch: T) -> (s: CartesianState<T>)
    ensures
        s == helio_ecliptic(v, epoch),
{
    CartesianState::from_array(v, epoch, Frame::EclipticJ2000, Origin::Sun, None)
}

/// The definiteness of a covariance. Its least eigenvalue may fall below zero
/// by round-off relative to its largest variance; beyond that it is indefinite.
pub open spec fn quality<T: Scalar, S: Fn(T) -> T>(
    c: Constants<T>,
    sqrt: S,
    cov: Mat6<T>,
) -> CovarianceQuality<T> {
    let least = least_eigenvalue(c, sqrt, cov);
    if at_least(least, tolerance(c, cov)) {
        CovarianceQuality::PositiveDefinite
    } else {
        CovarianceQuality::Indefinite { min_eig: least }
    }
}

/// The definiteness of a covariance.
pub fn covariance_quality_6x6<T: Scalar, S: Fn(T) -> T>(
    c: &Constants<T>,
    sqrt: &S,
    cov: &Mat6<T>,
) -> (q: CovarianceQuality<T>)
    requires
        lawful::<T>(),
        is_function(*sqrt),
    ensures
        q == quality(*c, *sqrt, *cov),
{
    let least = mat6_min_eigenvalue_sym(c, sqrt, cov);
    if least >= round_off_tolerance(c, cov) {
        CovarianceQuality::PositiveDefinite
    } else {
        CovarianceQuality::Indefinite { min_eig: least }
    }
}

/// The record of an orbit with covariance `cov0`, integrated to `r`. The
/// covariance is mapped through the state transition matrix where both are
/// there, and tagged; the matrix is passed on only if `compute_stm`.
pub open spec fn propagated<T: Scalar, S: Fn(T) -> T>(
    c: Constants<T>,
    sqrt: S,
    cov0: Option<Mat6<T>>,
    compute_stm: bool,
    r: IntegratedState<T>,
) -> PropagatedState<T> {
    let cov = match (cov0, r.stm) {
        (Some(sigma), Some(phi)) => Some(congruence(c.zero, phi, sigma)),
        _ => None,
    };
    PropagatedState {
        state: cartesian(r.state, r.epoch, Frame::EclipticJ2000, Origin::Sun, cov),
        stm: if compute_stm {
            r.stm
        } else {
            None
        },
        covariance_kind: match cov {
            Some(_) => Some(CovarianceKind::Linear),
            None => None,
        },
        covariance_quality: match cov {
            Some(m) => Some(quality(c, sqrt, m)),
            None => None,
        },
    }
}

/// The record of an orbit with covariance `cov0`, integrated to `r`.
pub fn propagated_state<T: Scalar, S: Fn(T) -> T>(
    c: &Constants<T>,
    sqrt: &S,
    cov0: &Option<Mat6<T>>,
    compute_stm: bool,
    r: &IntegratedState<T>,
) -> (p: PropagatedState<T>)
    requires
        lawful::<T>(),
        is_function(*sqrt),
    ensures
        p == propagated(*c, *sqrt, *cov0, compute_stm, *r),
{
    let cov = match (cov0, &r.stm) {
        (Some(sigma), Some(phi)) => Some(propagate_covariance_6x6(c.zero, phi, sigma)),
        _ => None,
    };
    let mut state = from_helio_ecliptic(r.state, r.epoch);
    state.covariance = cov;
    let (covariance_kind, covariance_quality) = match &cov {
        Some(m) => (Some(CovarianceKind::Linear), Some(covariance_quality_6x6(c, sqrt, m))),
        None => (None, None),
    };
    PropagatedState {
        state,
        stm: if compute_stm {
            r.stm
        } else {
            None
        },
        covariance_kind,
        covariance_quality,
    }
}

/// The engine is asked for state transition matrices when the caller wants
/// them or a covariance has to be mapped.
pub open spec fn wants_stm<T>(orbit: TestOrbit<T>, config: PropagationConfig) -> bool {
    config.compute_stm || orbit.state.covariance is Some
}

/// What becomes of a propagation on the engine's reply.
pub open spec fn propagate_outcome<T: Scalar, S: Fn(T) -> T>(
    c: Constants<T>,
    sqrt: S,
    orbit: TestOrbit<T>,
    config: PropagationConfig,
    reply: Reply<IntegratedState<T>>,
) -> Result<Seq<PropagatedState<T>>, ErrorView> {
    match reply {
        Err(e) => Err(ErrorView::PropagationFailed(e@)),
        Ok(states) => Ok(
            Seq::new(
                states@.len(),
                |i: int|
                    propagated(c, sqrt, orbit.state.covariance, config.compute_stm, states@[i]),
            ),
        ),
    }
}

/// The result of a propagation on the engine's reply.
pub fn finish_propagation<T: Scalar, S: Fn(T) -> T>(
    c: &Constants<T>,
    sqrt: &S,
    orbit: &TestOrbit<T>,
    config: &PropagationConfig,
    reply: Reply<IntegratedState<T>>,
) -> (r: Result<Vec<PropagatedState<T>>, PropagatorError>)
    requires
        lawful::<T>(),
        is_function(*sqrt),
    ensures
        list_outcome(r) == propagate_outcome(*c, *sqrt, *orbit, *config, reply),
{
    match reply {
        Err(e) => Err(PropagatorError::PropagationFailed(e)),
        Ok(states) => {
            let mut out: Vec<PropagatedState<T>> = Vec::with_capacity(states.len());
            let mut i: usize = 0;
            while i < states.len()
                invariant
                    lawful::<T>(),
                    is_function(*sqrt),
                    i <= states@.len(),
                    out@.len() == i,
                    forall|k: int|
                        0 <= k < i ==> #[trigger] out@[k] == propagated(
                            *c,
                            *sqrt,
                            orbit.state.covariance,
                            config.compute_stm,
                            states@[k],
                        ),
                decreases states@.len() - i,
            {
                out.push(
                    propagated_state(
                        c,
                        sqrt,
                        &orbit.state.covariance,
                        config.compute_stm,
                        &states[i],
                    ),
                );
                i = i + 1;
            }
            proof {
                let want = propagate_outcome(*c, *sqrt, *orbit, *config, Ok(states));
                assert(out@ =~= want->Ok_0);
            }
            Ok(out)
        },
    }
}

/// The results that [`AssistPropagator::propagate`] may give. The profile is
/// looked at first, then the orbit; where both are accepted, the engine is
/// asked once and its reply decides.
pub open spec fn may_propagate<
    D,
    T: Scalar,
    S: Fn(T) -> T,
    I: Fn(&D, &AssistOrbit<T>, &[T], bool, &IntegratorConfig<T>) -> Reply<
        IntegratedState<T>,
    >,
>(
    p: AssistPropagator<T, D>,
    orbit: TestOrbit<T>,
    epochs: Seq<T>,
    config: PropagationConfig,
    c: Constants<T>,
    sqrt: S,
    integrate: I,
    out: Result<Seq<PropagatedState<T>>, ErrorView>,
) -> bool {
    match (profile_outcome(config.profile), orbit_outcome(orbit)) {
        (Err(e), _) => out == Err::<Seq<PropagatedState<T>>, ErrorView>(e),
        (Ok(_), Err(e)) => out == Err::<Seq<PropagatedState<T>>, ErrorView>(e),
        (Ok(_), Ok(o)) => exists|reply: Reply<IntegratedState<T>>| #[trigger]
            integrated(
                integrate,
                p.data,
                o,
                epochs,
                wants_stm(orbit, config),
                p.integrator,
                reply,
            ) && out == propagate_outcome(c, sqrt, orbit, config, reply),
    }
}

impl<T: Scalar, D> AssistPropagator<T, D> {
    /// Propagates an orbit to `epochs`, one record per state that the engine
    /// returns, in its order.
    ///
    /// The profile is checked before the orbit, and the engine is asked only
    /// where both are accepted.
    pub fn propagate<
        S: Fn(T) -> T,
        I: Fn(&D, &AssistOrbit<T>, &[T], bool, &IntegratorConfig<T>) -> Reply<
            IntegratedState<T>,
        >,
    >(
        &self,
        orbit: &TestOrbit<T>,
        epochs: &[T],
        config: &PropagationConfig,
        c: &Constants<T>,
        sqrt: &S,
        integrate: &I,
    ) -> (r: Result<Vec<PropagatedState<T>>, PropagatorError>)
        requires
            lawful::<T>(),
            is_function(*sqrt),
            forall|d: &D, o: &AssistOrbit<T>, e: &[T], w: bool, k: &IntegratorConfig<T>|
                #[trigger] integrate.requires((d, o, e, w, k)),
        ensures
            may_propagate(
                *self,
                *orbit,
                epochs@,
                *config,
                *c,
                *sqrt,
                *integrate,
                list_outcome(r),
            ),
    {
        match check_profile(&config.profile) {
            Err(e) => {
                return Err(e);
            },
            Ok(_) => {},
        }
        let a_orbit = match to_assist_orbit(orbit) {
            Err(e) => {
                return Err(e);
            },
            Ok(o) => o,
        };
        let want_stm = config.compute_stm || orbit.state.covariance.is_some();
        let reply = integrate(&self.data, &a_orbit, epochs, want_stm, &self.integrator);
        let ghost answer = reply;
        let r = finish_propagation(c, sqrt, orbit, config, reply);
        assert(integrated(
            *integrate,
            self.data,
            orbit_outcome(*orbit)->Ok_0,
            epochs@,
            wants_stm(*orbit, *config),
            self.integrator,
            answer,
        ));
        r
    }
}

} // verus!
