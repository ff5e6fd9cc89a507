//! Error taxonomy for one poll. Transport failures are fatal to the whole
//! fetch; per-record decode failures are isolated to the record, which the
//! transport hands over as an absent entry and the stream collection drops;
//! per-entity projection failures are isolated to the entity. Failures of
//! the text exposition belong to the scrape path outside the library and
//! never touch the poll task.

use vstd::prelude::*;

verus! {

/// The control-interface transport failed while serving a request. Fatal to
/// the current poll; the previously exported series are retained.
#[derive(Debug)]
pub struct TransportError {
    pub message: String,
}

/// The sub-queries that make up one snapshot fetch, in the order they are
/// issued against the control interface.
#[derive(Debug, Clone, Copy, PartialEq, Eq, Structural)]
pub enum SubQuery {
    Version,
    Statistics,
    Policies,
    Connections,
    SecurityAssociations,
    Certificates,
    Authorities,
    Pools,
}

/// A snapshot fetch failed: names the first sub-query that failed and carries
/// the underlying transport cause. No partial snapshot is ever produced.
#[derive(Debug)]
pub struct FetchError {
    pub subquery: SubQuery,
    pub cause: TransportError,
}

/// Identity fields that the daemon marks optional before negotiation
/// completes.
#[derive(Debug, Clone, Copy, PartialEq, Eq, Structural)]
pub enum IdentityField {
    LocalId,
    RemoteId,
}

/// An entity was excluded from this poll's metric update: a required identity
/// field was absent, and a partial label set could collide across entities.
#[derive(Debug, Clone, Copy, PartialEq, Eq, Structural)]
pub enum ProjectionError {
    MissingIdentityField(IdentityField),
}

} // verus!
