use vstd::prelude::*;

verus! {

/// Why a create or replace request failed.
#[derive(Clone, Copy, Debug, PartialEq, Eq, Structural)]
pub enum DdlError {
    /// The fragment-graph description is malformed or unsupported.
    Graph,
    /// The catalog refused the operation (unknown id, wrong state, ids exhausted).
    Catalog,
    /// Fragments and actors could not be placed.
    Planning,
    /// The table shape does not match the shared CDC source.
    Validation,
    /// The connector node rejected the source or sink.
    Connector,
    /// The declared schema version is not the table's current one.
    VersionConflict,
    /// The combination of job kind and options is not supported.
    Unsupported,
    /// The stream manager failed to activate or swap the actors.
    Activation,
}

} // verus!
