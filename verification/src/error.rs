//! Error kinds preserved by the read core.  The transport layer translates
//! these into wire-level status codes; the core only keeps the distinction.

use vstd::prelude::*;

verus! {

/// Failure kinds of the read core.
///
/// `NotFound` is an id that resolves to nothing (distinct from an empty
/// list, which is a valid result).  `InconsistentData` is a station whose
/// home line cannot be resolved during single-entity enrichment: a
/// referential-integrity problem in the source data.  `ProviderFailure`
/// wraps an error reported by the storage collaborator, opaque and not
/// interpreted.  `InvalidInput` is free-text search input that cannot be
/// safely parameterized.
#[derive(Debug)]
pub enum UseCaseError {
    NotFound,
    InconsistentData,
    ProviderFailure(String),
    InvalidInput,
}

} // verus!
