//! Error kinds that the operations of a key server report.

use vstd::prelude::*;

verus! {

/// Why an operation of a key server failed.
#[derive(Clone, Copy, Debug, PartialEq, Eq, Structural)]
pub enum Error {
    /// No key is stored under the given id.
    KeyNotFound,
    /// A key has already been generated under the given id.
    DuplicateKey,
    /// A different document key is already recorded for the server key.
    DocumentKeyAlreadySet,
    /// The requester is not the author of the key, or is not allowed to use it.
    AccessDenied,
    /// A signature does not verify: that of a requester, or that of a node set.
    InvalidSignature,
    /// Fewer nodes are reachable than the threshold asks for.
    InsufficientNodes,
    /// Too few participants are left that have not failed.
    ConsensusUnreachable,
    /// The threshold of the server key is too high for the operation.
    UnsupportedThreshold,
    /// A session of the same kind is already running for the key.
    SessionAlreadyActive,
    /// A migration of the node set has been started and is not confirmed yet.
    MigrationInProgress,
    /// A round has not been completed in time.
    Timeout,
    /// The transport has reported a failure.
    Network,
    /// The requester is known by address only where its public key is needed.
    BadRequesterFormat,
}

} // verus!
