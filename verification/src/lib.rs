//! Verified core of the ASSIST propagation backend for THOR.

pub mod bodies;
pub mod constants;
pub mod definiteness;
pub mod engine;
pub mod ephemeris;
pub mod exact;
pub mod laws;
pub mod linalg;
pub mod loading;
pub mod observation;
pub mod propagator;
pub mod requests;
pub mod rotation;
pub mod scalar;
pub mod spectrum;
pub mod text;
pub mod transform;
pub mod types;

pub use propagator::AssistPropagator;
