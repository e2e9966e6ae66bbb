use secretstore_primitives::error::Error;
use secretstore_primitives::hash::FixedBytes;
use secretstore_primitives::key_server::{
    DocumentKeyCommonRetrievalArtifacts, ServerKeyRetrievalArtifacts,
};
use secretstore_primitives::key_server_set::{NodeMap, NodeSet};
use secretstore_primitives::key_storage::{DocumentKeyShare, DocumentKeyShareVersion};
use secretstore_primitives::ordered_map::OrderedMap;

fn node(n: u8) -> FixedBytes<64> {
    FixedBytes([n; 64])
}

fn point(n: u8) -> FixedBytes<64> {
    let mut bytes = [0u8; 64];
    bytes[63] = n;
    FixedBytes(bytes)
}

fn author() -> FixedBytes<20> {
    FixedBytes([0xaa; 20])
}

fn version_of(tag: u8, nodes: &[u8]) -> DocumentKeyShareVersion {
    let mut id_numbers: NodeMap<FixedBytes<32>> = OrderedMap::new();
    for n in nodes {
        id_numbers.insert(node(*n), FixedBytes([*n; 32]));
    }
    DocumentKeyShareVersion {
        hash: FixedBytes([tag; 32]),
        id_numbers,
        secret_share: FixedBytes([tag.wrapping_add(1); 32]),
    }
}

fn share_of(threshold: usize, nodes: &[u8]) -> DocumentKeyShare {
    DocumentKeyShare {
        author: author(),
        threshold,
        public: point(1),
        common_point: None,
        encrypted_point: None,
        versions: vec![version_of(1, nodes)],
    }
}

fn set_of(nodes: &[u8]) -> NodeSet {
    let mut set: NodeSet = OrderedMap::new();
    for n in nodes {
        set.insert(node(*n), ());
    }
    set
}

#[test]
fn default_share_is_empty() {
    let share = DocumentKeyShare::default();
    assert_eq!(share.author, FixedBytes([0u8; 20]));
    assert_eq!(share.threshold, 0);
    assert_eq!(share.public, FixedBytes([0u8; 64]));
    assert_eq!(share.common_point, None);
    assert_eq!(share.encrypted_point, None);
    assert!(share.versions.is_empty());
}

#[test]
fn store_then_restore_common_round_trip() {
    let mut share = share_of(1, &[1, 2, 3, 4]);
    assert_eq!(share.store_document_key(&author(), point(10), point(20)), Ok(()));
    assert_eq!(share.common_point, Some(point(10)));
    assert_eq!(share.encrypted_point, Some(point(20)));
    assert_eq!(
        share.restore_document_key_common(true),
        Ok(DocumentKeyCommonRetrievalArtifacts { common_point: point(10), threshold: 1 })
    );
}

#[test]
fn store_is_idempotent_for_the_same_points() {
    let mut share = share_of(1, &[1, 2, 3, 4]);
    assert_eq!(share.store_document_key(&author(), point(10), point(20)), Ok(()));
    let once = share.clone();
    assert_eq!(share.store_document_key(&author(), point(10), point(20)), Ok(()));
    assert_eq!(share, once);
}

#[test]
fn store_refuses_other_points_once_set() {
    let mut share = share_of(1, &[1, 2, 3, 4]);
    assert_eq!(share.store_document_key(&author(), point(10), point(20)), Ok(()));
    let once = share.clone();
    assert_eq!(
        share.store_document_key(&author(), point(11), point(20)),
        Err(Error::DocumentKeyAlreadySet)
    );
    assert_eq!(
        share.store_document_key(&author(), point(10), point(21)),
        Err(Error::DocumentKeyAlreadySet)
    );
    assert_eq!(share, once);
}

#[test]
fn store_is_for_the_author_only() {
    let mut share = share_of(1, &[1, 2, 3, 4]);
    let before = share.clone();
    let stranger = FixedBytes([0xbb; 20]);
    assert_eq!(
        share.store_document_key(&stranger, point(10), point(20)),
        Err(Error::AccessDenied)
    );
    assert_eq!(share, before);
    assert_eq!(share.store_document_key(&author(), point(10), point(20)), Ok(()));
    assert_eq!(
        share.store_document_key(&stranger, point(10), point(20)),
        Err(Error::AccessDenied)
    );
}

#[test]
fn restore_common_asks_the_access_list_first() {
    let mut share = share_of(1, &[1, 2, 3, 4]);
    assert_eq!(share.restore_document_key_common(false), Err(Error::AccessDenied));
    assert_eq!(share.restore_document_key_common(true), Err(Error::KeyNotFound));
    share.store_document_key(&author(), point(10), point(20)).unwrap();
    assert_eq!(share.restore_document_key_common(false), Err(Error::AccessDenied));
}

#[test]
fn restore_key_public_checks_the_author_when_given() {
    let share = share_of(2, &[1, 2, 3, 4]);
    let artifacts = ServerKeyRetrievalArtifacts { key: point(1), threshold: 2 };
    assert_eq!(share.restore_key_public(None), Ok(artifacts));
    assert_eq!(share.restore_key_public(Some(&author())), Ok(artifacts));
    assert_eq!(
        share.restore_key_public(Some(&FixedBytes([0xbb; 20]))),
        Err(Error::AccessDenied)
    );
}

#[test]
fn migration_preserves_data() {
    let mut share = share_of(1, &[1, 2, 3, 4]);
    share.store_document_key(&author(), point(10), point(20)).unwrap();
    let common = share.restore_document_key_common(true);
    let public = share.restore_key_public(None);
    let first = share.versions[0].clone();
    let added = version_of(2, &[3, 4, 5]);
    assert_eq!(share.add_version(added.clone()), Ok(()));
    assert_eq!(share.restore_document_key_common(true), common);
    assert_eq!(share.restore_key_public(None), public);
    assert_eq!(share.versions, vec![first, added.clone()]);
    assert_eq!(share.last_version(), Some(&added));
    assert!(share.last_version().unwrap().id_numbers.contains_key(&node(5)));
    assert!(!share.last_version().unwrap().id_numbers.contains_key(&node(1)));
}

#[test]
fn add_version_needs_more_holders_than_the_threshold() {
    let mut share = share_of(2, &[1, 2, 3, 4]);
    let before = share.clone();
    assert_eq!(share.add_version(version_of(2, &[1, 2])), Err(Error::InsufficientNodes));
    assert_eq!(share, before);
    assert_eq!(share.add_version(version_of(2, &[1, 2, 3])), Ok(()));
    assert_eq!(share.versions.len(), 2);
}

#[test]
fn versions_are_found_by_hash_latest_first() {
    let mut share = share_of(0, &[1]);
    assert_eq!(share.version(&FixedBytes([1; 32])), Some(&version_of(1, &[1])));
    assert_eq!(share.version(&FixedBytes([2; 32])), None);
    share.add_version(version_of(2, &[1, 2])).unwrap();
    share.add_version(version_of(1, &[2, 3])).unwrap();
    assert_eq!(share.version(&FixedBytes([1; 32])), Some(&version_of(1, &[2, 3])));
    assert_eq!(share.version(&FixedBytes([2; 32])), Some(&version_of(2, &[1, 2])));
    assert_eq!(share.last_version(), Some(&version_of(1, &[2, 3])));
    assert_eq!(DocumentKeyShare::default().last_version(), None);
}

#[test]
fn any_two_of_four_nodes_suffice_and_one_does_not() {
    let share = share_of(1, &[1, 2, 3, 4]);
    let version = share.last_version().unwrap();
    for a in 1u8..=4 {
        assert_eq!(
            version.select_participants(share.threshold, &set_of(&[a])),
            Err(Error::InsufficientNodes)
        );
        for b in (a + 1)..=4 {
            assert_eq!(
                version.select_participants(share.threshold, &set_of(&[a, b])),
                Ok(set_of(&[a, b]))
            );
        }
    }
    assert_eq!(
        version.select_participants(share.threshold, &set_of(&[])),
        Err(Error::InsufficientNodes)
    );
}

#[test]
fn participants_are_the_lowest_reachable_holders() {
    let version = version_of(1, &[1, 2, 3, 4, 5]);
    assert_eq!(
        version.select_participants(1, &set_of(&[5, 4, 2, 9])),
        Ok(set_of(&[2, 4]))
    );
    assert_eq!(
        version.select_participants(2, &set_of(&[1, 2, 3, 4, 5])),
        Ok(set_of(&[1, 2, 3]))
    );
    assert_eq!(version.select_participants(0, &set_of(&[7, 3])), Ok(set_of(&[3])));
    assert_eq!(
        version.select_participants(2, &set_of(&[8, 9, 1, 2])),
        Err(Error::InsufficientNodes)
    );
    assert_eq!(
        version.select_participants(usize::MAX, &set_of(&[1, 2, 3, 4, 5])),
        Err(Error::InsufficientNodes)
    );
}

#[test]
fn ecdsa_fails_on_high_threshold_where_schnorr_succeeds() {
    let share = share_of(3, &[1, 2, 3, 4]);
    assert_eq!(share.admit_ecdsa_signing(true), Err(Error::UnsupportedThreshold));
    assert_eq!(share.admit_schnorr_signing(true), Ok(()));
    let share = share_of(2, &[1, 2, 3]);
    assert_eq!(share.admit_ecdsa_signing(true), Err(Error::UnsupportedThreshold));
    assert_eq!(share.admit_schnorr_signing(true), Ok(()));
}

#[test]
fn ecdsa_succeeds_on_low_threshold() {
    assert_eq!(share_of(2, &[1, 2, 3, 4]).admit_ecdsa_signing(true), Ok(()));
    assert_eq!(share_of(1, &[1, 2, 3]).admit_ecdsa_signing(true), Ok(()));
    assert_eq!(share_of(0, &[1]).admit_ecdsa_signing(true), Ok(()));
}

#[test]
fn signing_asks_the_access_list_first() {
    let share = share_of(3, &[1, 2, 3, 4]);
    assert_eq!(share.admit_ecdsa_signing(false), Err(Error::AccessDenied));
    assert_eq!(share.admit_schnorr_signing(false), Err(Error::AccessDenied));
    let empty = DocumentKeyShare::default();
    assert_eq!(empty.admit_schnorr_signing(true), Err(Error::KeyNotFound));
    assert_eq!(empty.admit_ecdsa_signing(true), Err(Error::KeyNotFound));
    assert_eq!(empty.admit_ecdsa_signing(false), Err(Error::AccessDenied));
}

#[test]
fn generation_needs_a_free_id_and_enough_nodes() {
    let existing = share_of(1, &[1, 2]);
    assert_eq!(
        DocumentKeyShare::admit_generation(Some(&existing), 1, 4),
        Err(Error::DuplicateKey)
    );
    assert_eq!(
        DocumentKeyShare::admit_generation(Some(&existing), 1, 1),
        Err(Error::DuplicateKey)
    );
    assert_eq!(
        DocumentKeyShare::admit_generation(None, 1, 1),
        Err(Error::InsufficientNodes)
    );
    assert_eq!(DocumentKeyShare::admit_generation(None, 1, 2), Ok(()));
    assert_eq!(DocumentKeyShare::admit_generation(None, 3, 4), Ok(()));
}

#[test]
fn restoration_with_threshold_one_of_four_nodes() {
    let mut share = share_of(1, &[1, 2, 3, 4]);
    share.store_document_key(&author(), point(10), point(20)).unwrap();
    for a in 1u8..=4 {
        assert_eq!(
            share.restoration_participants(true, &set_of(&[a])),
            Err(Error::InsufficientNodes)
        );
        for b in (a + 1)..=4 {
            assert_eq!(
                share.restoration_participants(true, &set_of(&[a, b])),
                Ok(set_of(&[a, b]))
            );
        }
    }
    assert_eq!(
        share.restoration_participants(true, &set_of(&[4, 3, 2, 1])),
        Ok(set_of(&[1, 2]))
    );
}

#[test]
fn restoration_asks_for_access_and_for_a_document_key() {
    let mut share = share_of(1, &[1, 2, 3, 4]);
    let all = set_of(&[1, 2, 3, 4]);
    assert_eq!(share.restoration_participants(false, &all), Err(Error::AccessDenied));
    assert_eq!(share.restoration_participants(true, &all), Err(Error::KeyNotFound));
    share.store_document_key(&author(), point(10), point(20)).unwrap();
    assert_eq!(share.restoration_participants(false, &all), Err(Error::AccessDenied));
    assert_eq!(share.restoration_participants(false, &set_of(&[])), Err(Error::AccessDenied));
    assert_eq!(share.restoration_participants(true, &all), Ok(set_of(&[1, 2])));
    share.versions.clear();
    assert_eq!(share.restoration_participants(true, &all), Err(Error::KeyNotFound));
}

#[test]
fn restoration_after_migration_is_served_by_the_new_nodes() {
    let mut share = share_of(1, &[1, 2, 3, 4]);
    share.store_document_key(&author(), point(10), point(20)).unwrap();
    share.add_version(version_of(2, &[5, 6, 7])).unwrap();
    let all = set_of(&[1, 2, 3, 4, 5, 6, 7]);
    assert_eq!(share.restoration_participants(true, &all), Ok(set_of(&[5, 6])));
    assert_eq!(
        share.restoration_participants(true, &set_of(&[1, 2, 3, 4, 7])),
        Err(Error::InsufficientNodes)
    );
}

#[test]
fn a_key_that_the_storage_does_not_hold_is_not_found() {
    assert_eq!(DocumentKeyShare::found(None), Err(Error::KeyNotFound));
    let share = share_of(1, &[1, 2]);
    assert_eq!(DocumentKeyShare::found(Some(share.clone())), Ok(share));
}
