use vstd::prelude::*;

verus! {

/// The failure kinds of the clustering engine. All three are fatal for the
/// current run: a corrupted matrix or index makes every downstream distance
/// lookup meaningless, so nothing attempts partial recovery.
#[derive(Debug, PartialEq, Eq)]
pub enum KmError {
    /// A distance-matrix cell does not hold a non-negative integer distance.
    /// Carries the offending cell's raw text.
    ParseError(String),
    /// A lookup in the name index missed. Carries the unknown name. This
    /// indicates an inconsistency between the medoid set or entity list and
    /// the index; it cannot occur once ingestion has established the index.
    UnknownEntity(String),
    /// The requested number of clusters is zero or exceeds the entity count.
    InvalidK,
}

} // verus!
