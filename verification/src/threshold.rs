//! How many nodes an operation on a key needs.
//!
//! A key with threshold `t` is shared so that `t + 1` of its holders can use
//! it together, and `t` of them cannot.

use crate::error::Error;
use vstd::prelude::*;

verus! {

/// `nodes` nodes are enough to use a key with the given threshold.
pub open spec fn enough_nodes(threshold: nat, nodes: nat) -> bool {
    nodes >= threshold + 1
}

/// After `faulty` of the `participants` of a session have failed, enough of
/// them are left for a key with the given threshold.
pub open spec fn consensus_reachable(threshold: nat, participants: nat, faulty: nat) -> bool {
    participants - faulty >= threshold + 1
}

/// A key with the given threshold, shared among `nodes` nodes, can sign with
/// ECDSA: the threshold is at most half the number of nodes.
pub open spec fn ecdsa_supported(threshold: nat, nodes: nat) -> bool {
    2 * threshold <= nodes
}

/// Checks that enough nodes can be reached to use a key with the given
/// threshold.
pub fn check_nodes(threshold: usize, nodes: usize) -> (r: Result<(), Error>)
    ensures
        r == (if enough_nodes(threshold as nat, nodes as nat) {
            Ok::<(), Error>(())
        } else {
            Err::<(), Error>(Error::InsufficientNodes)
        }),
{
    if nodes > threshold {
        Ok(())
    } else {
        Err(Error::InsufficientNodes)
    }
}

/// Checks that a session can still end well after some of its participants
/// have failed, by a wrong message or by their silence.
pub fn check_consensus(threshold: usize, participants: usize, faulty: usize) -> (r: Result<
    (),
    Error,
>)
    ensures
        r == (if consensus_reachable(threshold as nat, participants as nat, faulty as nat) {
            Ok::<(), Error>(())
        } else {
            Err::<(), Error>(Error::ConsensusUnreachable)
        }),
{
    if faulty < participants && participants - faulty > threshold {
        Ok(())
    } else {
        Err(Error::ConsensusUnreachable)
    }
}

/// Checks that a key with the given threshold, shared among `nodes` nodes,
/// can sign with ECDSA.
pub fn check_ecdsa_threshold(threshold: usize, nodes: usize) -> (r: Result<(), Error>)
    ensures
        r == (if ecdsa_supported(threshold as nat, nodes as nat) {
            Ok::<(), Error>(())
        } else {
            Err::<(), Error>(Error::UnsupportedThreshold)
        }),
{
    if threshold <= nodes / 2 {
        Ok(())
    } else {
        Err(Error::UnsupportedThreshold)
    }
}

/// A key whose threshold is more than half the number of its holders cannot
/// sign with ECDSA, while all its holders together are enough to sign with
/// it otherwise.
pub proof fn lemma_high_threshold_excludes_ecdsa(threshold: nat, nodes: nat)
    requires
        threshold < nodes,
        2 * threshold > nodes,
    ensures
        !ecdsa_supported(threshold, nodes),
        enough_nodes(threshold, nodes),
{
}

} // verus!
