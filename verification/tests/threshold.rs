use secretstore_primitives::error::Error;
use secretstore_primitives::threshold::{check_consensus, check_ecdsa_threshold, check_nodes};

#[test]
fn nodes_must_exceed_the_threshold() {
    assert_eq!(check_nodes(1, 2), Ok(()));
    assert_eq!(check_nodes(1, 4), Ok(()));
    assert_eq!(check_nodes(1, 1), Err(Error::InsufficientNodes));
    assert_eq!(check_nodes(1, 0), Err(Error::InsufficientNodes));
    assert_eq!(check_nodes(0, 1), Ok(()));
    assert_eq!(check_nodes(0, 0), Err(Error::InsufficientNodes));
    assert_eq!(check_nodes(usize::MAX, usize::MAX), Err(Error::InsufficientNodes));
}

#[test]
fn consensus_needs_threshold_plus_one_participants_that_have_not_failed() {
    assert_eq!(check_consensus(1, 4, 0), Ok(()));
    assert_eq!(check_consensus(1, 4, 2), Ok(()));
    assert_eq!(check_consensus(1, 4, 3), Err(Error::ConsensusUnreachable));
    assert_eq!(check_consensus(1, 4, 4), Err(Error::ConsensusUnreachable));
    assert_eq!(check_consensus(1, 4, 5), Err(Error::ConsensusUnreachable));
    assert_eq!(check_consensus(0, 1, 0), Ok(()));
    assert_eq!(check_consensus(0, 1, 1), Err(Error::ConsensusUnreachable));
}

#[test]
fn ecdsa_needs_a_threshold_of_at_most_half_the_nodes() {
    assert_eq!(check_ecdsa_threshold(0, 1), Ok(()));
    assert_eq!(check_ecdsa_threshold(1, 2), Ok(()));
    assert_eq!(check_ecdsa_threshold(1, 3), Ok(()));
    assert_eq!(check_ecdsa_threshold(2, 4), Ok(()));
    assert_eq!(check_ecdsa_threshold(2, 5), Ok(()));
    assert_eq!(check_ecdsa_threshold(1, 1), Err(Error::UnsupportedThreshold));
    assert_eq!(check_ecdsa_threshold(2, 3), Err(Error::UnsupportedThreshold));
    assert_eq!(check_ecdsa_threshold(3, 5), Err(Error::UnsupportedThreshold));
    assert_eq!(check_ecdsa_threshold(3, 4), Err(Error::UnsupportedThreshold));
}

#[test]
fn high_threshold_excludes_ecdsa_but_not_the_quorum() {
    for nodes in 1usize..12 {
        for threshold in 0..nodes {
            if 2 * threshold > nodes {
                assert_eq!(
                    check_ecdsa_threshold(threshold, nodes),
                    Err(Error::UnsupportedThreshold)
                );
                assert_eq!(check_nodes(threshold, nodes), Ok(()));
            }
        }
    }
}
