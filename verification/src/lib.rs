//! A k-medoids clustering library in the Partitioning-Around-Medoids style.
//!
//! The engine clusters a fixed set of named entities into `k` groups using
//! only a precomputed pairwise distance matrix. Distances are non-negative
//! integers in whatever unit the caller chooses; data with fractional
//! distances should be scaled to integers before ingestion.

pub mod assign;
pub mod errors;
pub mod model;
pub mod parse;

pub use assign::assign_identities;
pub use assign::cost;
pub use errors::KmError;
pub use model::KMedoids;
