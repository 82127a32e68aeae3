//! Railway network metadata as a queryable read library.
//!
//! Raw rows from a normalized relational schema carry up to three positional
//! symbol slots per line and up to three number slots per station.  The
//! attribute-enrichment engine reassembles these flat, nullable columns into
//! ordered collections attached to the right entity and resolves each
//! station's home line among its sibling lines.

pub mod company;
pub mod company_repository;
pub mod enrichment;
pub mod error;
pub mod laws;
pub mod line;
pub mod line_repository;
pub mod query;
pub mod station;
pub mod station_repository;
pub mod text;
