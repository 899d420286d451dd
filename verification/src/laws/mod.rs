//! What holds of the library as a whole.

pub mod basics;
pub mod bodies;
pub mod calls;
pub mod constancy;
pub mod covariance;
pub mod eigen;
pub mod elimination;
pub mod entries;
pub mod ephemeris;
pub mod ephemeris_results;
pub mod forms;
pub mod frames;
pub mod functions;
pub mod lookup_results;
pub mod observation;
pub mod observation_results;
pub mod propagation;
pub mod propagation_results;
pub mod reordering;
pub mod tags;
pub mod transform_results;
