//! What becomes of the files that a propagator is loaded from.

use vstd::prelude::*;

use crate::constants::Constants;
use crate::propagator::{default_integrator, AssistPropagator};
use crate::types::{ErrorView, PropagatorError};

verus! {

/// The Earth-orientation kernels of `assist_rs`. Their content is not visible.
#[verifier::external_type_specification]
#[verifier::external_body]
pub struct ExEarthOrientation(assist_rs::earth_orientation::EarthOrientation);

/// The MPC codes that an observatory table lists.
pub uninterp spec fn listed_codes(table: assist_rs::ObservatoryTable) -> Set<Seq<char>>;

/// Whether an observatory table carries an Earth orientation, which ground
/// sites cannot be located without.
pub uninterp spec fn is_oriented(table: assist_rs::ObservatoryTable) -> bool;

/// `ObservatoryTable::with_earth_orientation` attaches the kernels and keeps
/// the entries. Which kernels are attached is not stated: they are not visible.
pub assume_specification[ assist_rs::ObservatoryTable::with_earth_orientation ](
    table: assist_rs::ObservatoryTable,
    eo: assist_rs::earth_orientation::EarthOrientation,
) -> (r: assist_rs::ObservatoryTable)
    ensures
        listed_codes(r) == listed_codes(table),
        is_oriented(r),
;

/// A step of loading a propagator.
#[derive(Clone, Copy, Debug, PartialEq, Eq, Structural)]
pub enum LoadStep {
    /// Fetching the files.
    DataFiles,
    /// The planet and asteroid kernels.
    Ephemeris,
    /// The observatory codes.
    ObservatoryCodes,
    /// The Earth-orientation kernels.
    EarthOrientation,
}

/// How the message of a failed step begins.
pub open spec fn step_label(step: LoadStep) -> Seq<char> {
    match step {
        LoadStep::DataFiles => "DataManager: "@,
        LoadStep::Ephemeris => "Failed to load ASSIST ephemeris: "@,
        LoadStep::ObservatoryCodes => "Failed to load obs codes: "@,
        LoadStep::EarthOrientation => "Failed to load EOP kernels: "@,
    }
}

/// The error of a failed step, with the cause that was given for it.
pub fn load_failure(step: LoadStep, cause: &str) -> (e: PropagatorError)
    ensures
        e@ == ErrorView::Other(step_label(step) + cause@),
{
    let label = match step {
        LoadStep::DataFiles => "DataManager: ",
        LoadStep::Ephemeris => "Failed to load ASSIST ephemeris: ",
        LoadStep::ObservatoryCodes => "Failed to load obs codes: ",
        LoadStep::EarthOrientation => "Failed to load EOP kernels: ",
    };
    PropagatorError::Other(String::from_str(label).concat(cause))
}

impl<T: Copy> AssistPropagator<T> {
    /// A propagator over loaded data, with an observatory table that locates
    /// ground sites.
    pub fn from_parts(
        ephem: assist_rs::Ephemeris,
        table: assist_rs::ObservatoryTable,
        eo: assist_rs::earth_orientation::EarthOrientation,
        c: &Constants<T>,
    ) -> (p: AssistPropagator<T>)
        ensures
            p.data.ephem == ephem,
            p.data.observatory matches Some(t) && listed_codes(t) == listed_codes(table)
                && is_oriented(t),
            p.integrator == default_integrator(*c),
    {
        AssistPropagator::new(ephem, c).with_obs_table(table.with_earth_orientation(eo))
    }
}

} // verus!
