use parity_crypto::publickey::{sign, KeyPair, Message, Secret};
use secretstore_primitives::error::Error;
use secretstore_primitives::hash::FixedBytes;
use secretstore_primitives::key_server_set::{
    check_set_change, check_set_signature, InMemoryKeyServerSet, KeyServerSet,
    KeyServerSetMigration, KeyServerSetSnapshot, NodeAddress, NodeIp, NodeMap, NodeSet,
};
use secretstore_primitives::ordered_map::OrderedMap;

fn server(n: u8) -> FixedBytes<64> {
    FixedBytes([n; 64])
}

fn listens_at(n: u8) -> NodeAddress {
    NodeAddress { ip: NodeIp::V4([127, 0, 0, n]), port: 8000 + n as u16 }
}

fn servers(nodes: &[u8]) -> NodeMap<NodeAddress> {
    let mut map: NodeMap<NodeAddress> = OrderedMap::new();
    for n in nodes {
        map.insert(server(*n), listens_at(*n));
    }
    map
}

fn confirmations(nodes: &[u8]) -> NodeSet {
    let mut set: NodeSet = OrderedMap::new();
    for n in nodes {
        set.insert(server(*n), ());
    }
    set
}

fn snapshot_of(current: &[u8], new: &[u8]) -> KeyServerSetSnapshot {
    KeyServerSetSnapshot { current_set: servers(current), new_set: servers(new), migration: None }
}

fn authority_pair(tag: u8) -> KeyPair {
    let mut secret = [0x11u8; 32];
    secret[31] = tag;
    KeyPair::from_secret(Secret::from(secret)).unwrap()
}

fn signed_set(pair: &KeyPair, hash: &FixedBytes<32>) -> FixedBytes<65> {
    FixedBytes(sign(pair.secret(), &Message::from(hash.0)).unwrap().into())
}

#[test]
fn in_memory_set_reports_its_nodes() {
    let set = InMemoryKeyServerSet::new(true, servers(&[3, 1, 2]));
    assert!(set.is_isolated());
    let snapshot = set.snapshot();
    assert_eq!(snapshot, snapshot_of(&[1, 2, 3], &[1, 2, 3]));
    assert_eq!(snapshot.current_set.get(&server(2)), Some(&listens_at(2)));
    assert_eq!(snapshot.migration, None);
    assert!(!InMemoryKeyServerSet::new(false, servers(&[])).is_isolated());
}

#[test]
fn in_memory_set_ignores_migrations() {
    let set = InMemoryKeyServerSet::new(false, servers(&[1, 2]));
    let before = set.snapshot();
    set.start_migration(FixedBytes([1; 32]));
    assert_eq!(set.snapshot(), before);
    set.confirm_migration(FixedBytes([1; 32]));
    assert_eq!(set.snapshot(), before);
}

#[test]
fn default_set_and_snapshot_are_empty() {
    let set = InMemoryKeyServerSet::default();
    assert!(!set.is_isolated());
    assert_eq!(set.snapshot(), KeyServerSetSnapshot::default());
    let snapshot = KeyServerSetSnapshot::default();
    assert!(snapshot.current_set.is_empty());
    assert!(snapshot.new_set.is_empty());
    assert_eq!(snapshot.migration, None);
    let migration = KeyServerSetMigration::default();
    assert_eq!(migration.id, FixedBytes([0; 32]));
    assert_eq!(migration.master, FixedBytes([0; 64]));
    assert!(migration.set.is_empty());
    assert!(!migration.is_confirmed);
}

#[test]
fn master_is_the_lowest_node_of_the_new_set() {
    assert_eq!(snapshot_of(&[1, 2], &[9, 4, 7]).select_master(), Some(server(4)));
    assert_eq!(snapshot_of(&[1, 2], &[2]).select_master(), Some(server(2)));
    assert_eq!(snapshot_of(&[1, 2], &[]).select_master(), None);
}

#[test]
fn only_one_migration_at_a_time() {
    let mut snapshot = snapshot_of(&[1, 2, 3], &[2, 3, 4]);
    assert_eq!(snapshot.start_migration(FixedBytes([1; 32]), server(2)), Ok(()));
    assert_eq!(
        snapshot.migration,
        Some(KeyServerSetMigration {
            id: FixedBytes([1; 32]),
            set: servers(&[2, 3, 4]),
            master: server(2),
            is_confirmed: false,
        })
    );
    let started = snapshot.clone();
    assert_eq!(
        snapshot.start_migration(FixedBytes([2; 32]), server(3)),
        Err(Error::MigrationInProgress)
    );
    assert_eq!(
        snapshot.start_migration(FixedBytes([1; 32]), server(2)),
        Err(Error::MigrationInProgress)
    );
    assert_eq!(snapshot, started);
    assert_eq!(snapshot.current_set, servers(&[1, 2, 3]));
}

#[test]
fn confirmation_is_for_the_migration_under_way() {
    let mut snapshot = snapshot_of(&[1, 2, 3], &[2, 3, 4]);
    assert!(!snapshot.confirm_migration(FixedBytes([1; 32])));
    assert_eq!(snapshot, snapshot_of(&[1, 2, 3], &[2, 3, 4]));
    snapshot.start_migration(FixedBytes([1; 32]), server(2)).unwrap();
    let started = snapshot.clone();
    assert!(!snapshot.confirm_migration(FixedBytes([2; 32])));
    assert_eq!(snapshot, started);
    assert!(snapshot.confirm_migration(FixedBytes([1; 32])));
    assert_eq!(
        snapshot.migration,
        Some(KeyServerSetMigration {
            id: FixedBytes([1; 32]),
            set: servers(&[2, 3, 4]),
            master: server(2),
            is_confirmed: true,
        })
    );
    assert!(snapshot.confirm_migration(FixedBytes([1; 32])));
}

#[test]
fn migration_ends_when_the_whole_new_set_has_confirmed() {
    let mut snapshot = snapshot_of(&[1, 2, 3], &[2, 3, 4]);
    assert!(!snapshot.complete_migration(&confirmations(&[2, 3, 4])));
    snapshot.start_migration(FixedBytes([1; 32]), server(2)).unwrap();
    let started = snapshot.clone();
    assert!(!snapshot.complete_migration(&confirmations(&[2, 3])));
    assert!(!snapshot.complete_migration(&confirmations(&[1, 2, 3])));
    assert!(!snapshot.complete_migration(&confirmations(&[])));
    assert_eq!(snapshot, started);
    assert!(snapshot.complete_migration(&confirmations(&[1, 2, 3, 4])));
    assert_eq!(snapshot, snapshot_of(&[2, 3, 4], &[2, 3, 4]));
    assert_eq!(snapshot.start_migration(FixedBytes([2; 32]), server(2)), Ok(()));
}

#[test]
fn shares_are_purged_only_after_the_migration() {
    let mut snapshot = snapshot_of(&[1, 2, 3], &[2, 3, 4]);
    assert!(!snapshot.may_purge(&server(1)));
    assert!(snapshot.may_purge(&server(4)));
    snapshot.start_migration(FixedBytes([1; 32]), server(2)).unwrap();
    assert!(!snapshot.may_purge(&server(1)));
    assert!(!snapshot.may_purge(&server(4)));
    assert!(!snapshot.may_purge(&server(9)));
    assert!(snapshot.complete_migration(&confirmations(&[2, 3, 4])));
    assert!(snapshot.may_purge(&server(1)));
    assert!(!snapshot.may_purge(&server(2)));
    assert!(!snapshot.may_purge(&server(4)));
}

#[test]
fn set_signature_must_be_the_authority_s() {
    let authority = authority_pair(1);
    let address = FixedBytes(authority.address().0);
    let hash = FixedBytes([0x42; 32]);
    let signature = signed_set(&authority, &hash);
    assert_eq!(check_set_signature(&signature, &hash, &address), Ok(()));
    assert_eq!(
        check_set_signature(&signature, &FixedBytes([0x43; 32]), &address),
        Err(Error::InvalidSignature)
    );
    assert_eq!(
        check_set_signature(&signed_set(&authority_pair(2), &hash), &hash, &address),
        Err(Error::InvalidSignature)
    );
    assert_eq!(
        check_set_signature(&FixedBytes([0; 65]), &hash, &address),
        Err(Error::InvalidSignature)
    );
}

#[test]
fn set_change_needs_both_signatures() {
    let authority = authority_pair(1);
    let address = FixedBytes(authority.address().0);
    let old_hash = FixedBytes([0x01; 32]);
    let new_hash = FixedBytes([0x02; 32]);
    let old_signature = signed_set(&authority, &old_hash);
    let new_signature = signed_set(&authority, &new_hash);
    let forged = signed_set(&authority_pair(2), &new_hash);
    assert_eq!(
        check_set_change(&old_signature, &old_hash, &new_signature, &new_hash, &address),
        Ok(())
    );
    assert_eq!(
        check_set_change(&old_signature, &old_hash, &forged, &new_hash, &address),
        Err(Error::InvalidSignature)
    );
    assert_eq!(
        check_set_change(&new_signature, &old_hash, &new_signature, &new_hash, &address),
        Err(Error::InvalidSignature)
    );
    assert_eq!(
        check_set_change(&old_signature, &old_hash, &old_signature, &new_hash, &address),
        Err(Error::InvalidSignature)
    );
}
