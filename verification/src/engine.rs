//! What the ASSIST engine is asked, and what it answers.
//!
//! The engine itself (integration, light-time iteration, ephemeris lookups)
//! works on doubles and is handed to the library as functions. The types here
//! are the questions and the replies; the specification functions say that a
//! reply may come back for a question.

use vstd::prelude::*;

use crate::linalg::{Mat6, Vec6};

verus! {

/// The data bundle of `assist_rs`: a loaded ephemeris and, where attached, an
/// observatory table. Both fields are visible.
#[verifier::external_type_specification]
pub struct ExAssistData(assist_rs::AssistData);

/// The loaded SPK ephemeris of `assist_rs`. Its content is not visible.
#[verifier::external_type_specification]
#[verifier::external_body]
pub struct ExEphemeris(assist_rs::Ephemeris);

/// The observatory table of `assist_rs`. Its content is not visible.
#[verifier::external_type_specification]
#[verifier::external_body]
pub struct ExObservatoryTable(assist_rs::ObservatoryTable);

/// `AssistData::new` bundles the ephemeris without an observatory table.
pub assume_specification[ assist_rs::AssistData::new ](ephem: assist_rs::Ephemeris) -> (data:
    assist_rs::AssistData)
    ensures
        data.ephem == ephem,
        data.observatory is None,
;

/// `AssistData::with_observatory` replaces the observatory table and keeps the
/// ephemeris.
pub assume_specification[ assist_rs::AssistData::with_observatory ](
    data: assist_rs::AssistData,
    observatory: assist_rs::ObservatoryTable,
) -> (r: assist_rs::AssistData)
    ensures
        r.ephem == data.ephem,
        r.observatory == Some(observatory),
;

/// Timestep criterion of the IAS15 integrator.
#[derive(Clone, Copy, Debug, PartialEq, Eq, Structural)]
pub enum AdaptiveMode {
    Individual,
    Global,
    Prs23,
    Aarseth85,
}

/// Settings of the IAS15 integrator; `None` leaves the engine's default.
#[derive(Clone, Copy, Debug, PartialEq)]
pub struct IntegratorConfig<T> {
    /// First timestep, in days.
    pub initial_dt: Option<T>,
    /// Least timestep, in days.
    pub min_dt: Option<T>,
    /// Precision.
    pub epsilon: Option<T>,
    pub adaptive_mode: Option<AdaptiveMode>,
}

/// A point whose state the engine can look up.
#[derive(Clone, Debug, PartialEq, Eq)]
pub enum AssistOrigin {
    SolarSystemBarycenter,
    Sun,
    MercuryBarycenter,
    VenusBarycenter,
    Earth,
    Moon,
    MarsBarycenter,
    JupiterBarycenter,
    SaturnBarycenter,
    UranusBarycenter,
    NeptuneBarycenter,
    PlutoBarycenter,
    /// An observatory, by MPC code.
    Observatory(String),
}

/// A test particle: heliocentric ecliptic state and epoch.
#[derive(Clone, Copy, Debug, PartialEq)]
pub struct AssistOrbit<T> {
    pub state: Vec6<T>,
    pub epoch: T,
}

/// Where and when an observation is made.
#[derive(Clone, Debug, PartialEq)]
pub struct AssistObserver<T> {
    pub origin: AssistOrigin,
    pub epoch: T,
}

/// A test particle integrated to an epoch.
#[derive(Clone, Copy, Debug, PartialEq)]
pub struct IntegratedState<T> {
    /// Heliocentric ecliptic state.
    pub state: Vec6<T>,
    pub epoch: T,
    /// State transition matrix, where it was asked for.
    pub stm: Option<Mat6<T>>,
}

/// The heliocentric ecliptic state of a body or an observatory.
#[derive(Clone, Copy, Debug, PartialEq)]
pub struct BodyState<T> {
    pub state: Vec6<T>,
    pub epoch: T,
}

/// A light-time corrected observation.
#[derive(Clone, Copy, Debug, PartialEq)]
pub struct Sighting<T> {
    /// Range (AU), right ascension and declination (radians), and their rates.
    pub spherical: Vec6<T>,
    /// Heliocentric ecliptic state at the emission epoch.
    pub aberrated_state: Vec6<T>,
    /// One-way light time, in days.
    pub light_time: T,
    /// Epoch of the observation.
    pub epoch: T,
}

/// A list, or the text of the engine's error.
pub type Reply<V> = Result<Vec<V>, String>;

/// Two replies say the same.
pub open spec fn same_reply<V>(a: Reply<V>, b: Reply<V>) -> bool {
    match (a, b) {
        (Ok(v), Ok(w)) => v@ == w@,
        (Err(e), Err(f)) => e@ == f@,
        _ => false,
    }
}

/// `locate` may answer `reply` when it is asked for the states of `origin` at
/// `epochs` on `threads` threads.
pub open spec fn located<
    D,
    T,
    L: Fn(&D, &AssistOrigin, &[T], Option<usize>) -> Reply<BodyState<T>>,
>(
    locate: L,
    data: D,
    origin: AssistOrigin,
    epochs: Seq<T>,
    threads: Option<usize>,
    reply: Reply<BodyState<T>>,
) -> bool {
    exists|e: &[T]|
        e@ == epochs && #[trigger] locate.ensures((&data, &origin, e, threads), reply)
}

/// `integrate` may answer `reply` when it is asked to take `orbit` to `epochs`,
/// with state transition matrices if `stm`.
pub open spec fn integrated<
    D,
    T,
    I: Fn(&D, &AssistOrbit<T>, &[T], bool, &IntegratorConfig<T>) -> Reply<
        IntegratedState<T>,
    >,
>(
    integrate: I,
    data: D,
    orbit: AssistOrbit<T>,
    epochs: Seq<T>,
    stm: bool,
    config: IntegratorConfig<T>,
    reply: Reply<IntegratedState<T>>,
) -> bool {
    exists|e: &[T]|
        e@ == epochs && #[trigger] integrate.ensures((&data, &orbit, e, stm, &config), reply)
}

/// `observe` may answer `reply` when it is asked how `observers` see `orbit`,
/// on `threads` threads.
pub open spec fn sighted<
    D,
    T,
    O: Fn(
        &D,
        &AssistOrbit<T>,
        &[AssistObserver<T>],
        Option<usize>,
        &IntegratorConfig<T>,
    ) -> Reply<Sighting<T>>,
>(
    observe: O,
    data: D,
    orbit: AssistOrbit<T>,
    observers: Seq<AssistObserver<T>>,
    threads: Option<usize>,
    config: IntegratorConfig<T>,
    reply: Reply<Sighting<T>>,
) -> bool {
    exists|o: &[AssistObserver<T>]|
        o@ == observers && #[trigger] observe.ensures((&data, &orbit, o, threads, &config), reply)
}

} // verus!
