//! The set of key servers, and its migration to another set.

use crate::crypto::{address_of_public, public_to_address, recover, recovered_public};
use crate::error::Error;
use crate::hash::{bytes_less, Address, FixedBytes, Signature, H256};
use crate::ordered_map::OrderedMap;
use crate::{KeyServerPublic, NodeId};
use vstd::prelude::*;

verus! {

/// Every migration process has its own unique id.
pub type MigrationId = H256;

/// A map keyed by node ids, walked in the order of the ids.
pub type NodeMap<V> = OrderedMap<64, V>;

/// A set of node ids, walked in the order of the ids.
pub type NodeSet = OrderedMap<64, ()>;

/// The host part of a network address.
#[derive(Clone, Copy, Debug, PartialEq, Eq, Hash)]
pub enum NodeIp {
    /// An IPv4 address, as its four bytes.
    V4([u8; 4]),
    /// An IPv6 address, as its sixteen bytes.
    V6([u8; 16]),
}

/// The network address at which a key server listens.
#[derive(Clone, Copy, Debug, PartialEq, Eq, Hash)]
pub struct NodeAddress {
    /// Host.
    pub ip: NodeIp,
    /// Port.
    pub port: u16,
}

/// Key Server Set state.
#[derive(Debug, Clone, PartialEq)]
pub struct KeyServerSetSnapshot {
    /// Current set of key servers.
    pub current_set: NodeMap<NodeAddress>,
    /// New set of key servers.
    pub new_set: NodeMap<NodeAddress>,
    /// Current migration data.
    pub migration: Option<KeyServerSetMigration>,
}

/// Key server set migration.
#[derive(Debug, Clone, PartialEq)]
pub struct KeyServerSetMigration {
    /// Migration id.
    pub id: MigrationId,
    /// Migration set of key servers. It is the new_set at the moment of migration start.
    pub set: NodeMap<NodeAddress>,
    /// Master node of the migration process.
    pub master: KeyServerPublic,
    /// Is migration confirmed by this node?
    pub is_confirmed: bool,
}

/// Key Server Set.
pub trait KeyServerSet: Send + Sync {
    /// Is this node currently isolated from the set?
    fn is_isolated(&self) -> bool;

    /// Get server set state.
    fn snapshot(&self) -> KeyServerSetSnapshot;

    /// Start migration.
    fn start_migration(&self, migration_id: MigrationId);

    /// Confirm migration.
    fn confirm_migration(&self, migration_id: MigrationId);
}

/// In-memory key server set implementation.
pub struct InMemoryKeyServerSet {
    is_isolated: bool,
    nodes: NodeMap<NodeAddress>,
}

/// The signature is one that the authority made of the hash.
pub open spec fn signed_by(signature: Seq<u8>, hash: Seq<u8>, authority: Seq<u8>) -> bool {
    match recovered_public(signature, hash) {
        Ok(public) => address_of_public(public) == authority,
        Err(_) => false,
    }
}

/// Checks that the signature of a set of key servers is one of the
/// authority that may change the set. `set_hash` is the hash of the set that
/// was signed.
pub fn check_set_signature(signature: &Signature, set_hash: &H256, authority: &Address) -> (r:
    Result<(), Error>)
    ensures
        r == (if signed_by(signature@, set_hash@, authority@) {
            Ok::<(), Error>(())
        } else {
            Err::<(), Error>(Error::InvalidSignature)
        }),
{
    match recover(signature, set_hash) {
        Ok(public) => {
            if public_to_address(&public) == *authority {
                Ok(())
            } else {
                Err(Error::InvalidSignature)
            }
        },
        Err(_) => Err(Error::InvalidSignature),
    }
}

/// Checks the two signatures that come with a request to change the set of
/// key servers: one of the set as it is, and one of the set as it shall be.
/// Both must be signatures of the authority.
pub fn check_set_change(
    old_set_signature: &Signature,
    old_set_hash: &H256,
    new_set_signature: &Signature,
    new_set_hash: &H256,
    authority: &Address,
) -> (r: Result<(), Error>)
    ensures
        r == (if signed_by(old_set_signature@, old_set_hash@, authority@) && signed_by(
            new_set_signature@,
            new_set_hash@,
            authority@,
        ) {
            Ok::<(), Error>(())
        } else {
            Err::<(), Error>(Error::InvalidSignature)
        }),
{
    match check_set_signature(old_set_signature, old_set_hash, authority) {
        Ok(()) => check_set_signature(new_set_signature, new_set_hash, authority),
        Err(error) => Err(error),
    }
}

impl Default for KeyServerSetMigration {
    /// A migration with a zero id and a zero master, to an empty set, not
    /// confirmed.
    fn default() -> (r: Self)
        ensures
            r.id == MigrationId::zero_spec(),
            r.set@ == Map::<Seq<u8>, NodeAddress>::empty(),
            r.master == KeyServerPublic::zero_spec(),
            !r.is_confirmed,
    {
        KeyServerSetMigration {
            id: FixedBytes::zero(),
            set: OrderedMap::new(),
            master: FixedBytes::zero(),
            is_confirmed: false,
        }
    }
}

impl Default for KeyServerSetSnapshot {
    /// Two empty sets and no migration.
    fn default() -> (r: Self)
        ensures
            r.current_set@ == Map::<Seq<u8>, NodeAddress>::empty(),
            r.new_set@ == Map::<Seq<u8>, NodeAddress>::empty(),
            r.migration is None,
    {
        KeyServerSetSnapshot {
            current_set: OrderedMap::new(),
            new_set: OrderedMap::new(),
            migration: None,
        }
    }
}

impl KeyServerSetSnapshot {
    /// The node that drives a migration to the new set: the one with the
    /// lowest id. An empty set has none.
    pub fn select_master(&self) -> (r: Option<NodeId>)
        ensures
            match r {
                Some(master) => {
                    &&& self.new_set@.dom().contains(master@)
                    &&& forall|k: Seq<u8>| #[trigger]
                        self.new_set@.dom().contains(k) ==> k == master@ || bytes_less(
                            master@,
                            k,
                        )
                },
                None => self.new_set@ == Map::<Seq<u8>, NodeAddress>::empty(),
            },
    {
        if self.new_set.is_empty() {
            None
        } else {
            let master = self.new_set.key_at(0);
            proof {
                use_type_invariant(&self.new_set);
                self.new_set.lemma_keys();
                let keys = self.new_set.spec_keys();
                assert forall|k: Seq<u8>| #[trigger]
                    self.new_set@.dom().contains(k) implies k == master@ || bytes_less(
                    master@,
                    k,
                ) by {
                    let i = choose|i: int| 0 <= i < keys.len() && keys[i] == k;
                    if i > 0 {
                        assert(bytes_less(keys[0], keys[i]));
                    }
                }
            }
            Some(master)
        }
    }

    /// Starts the migration to the new set, as it stands now, under the given
    /// master. Only one migration runs at a time: while one is recorded, the
    /// call fails and changes nothing.
    pub fn start_migration(&mut self, migration_id: MigrationId, master: KeyServerPublic) -> (r:
        Result<(), Error>)
        ensures
            final(self).current_set == old(self).current_set,
            final(self).new_set == old(self).new_set,
            old(self).migration is Some ==> r == Err::<(), Error>(Error::MigrationInProgress)
                && final(self).migration == old(self).migration,
            old(self).migration is None ==> r is Ok && final(self).migration is Some && ({
                let migration = final(self).migration->Some_0;
                &&& migration.id == migration_id
                &&& migration.set@ == old(self).new_set@
                &&& migration.master == master
                &&& !migration.is_confirmed
            }),
    {
        if self.migration.is_some() {
            return Err(Error::MigrationInProgress);
        }
        self.migration = Some(
            KeyServerSetMigration {
                id: migration_id,
                set: self.new_set.clone(),
                master,
                is_confirmed: false,
            },
        );
        Ok(())
    }

    /// Records that this node has confirmed the migration with the given id.
    /// Returns whether that migration is the one under way; if it is not,
    /// nothing changes.
    pub fn confirm_migration(&mut self, migration_id: MigrationId) -> (r: bool)
        ensures
            final(self).current_set == old(self).current_set,
            final(self).new_set == old(self).new_set,
            r == (old(self).migration is Some && old(self).migration->Some_0.id == migration_id),
            !r ==> final(self).migration == old(self).migration,
            r ==> final(self).migration is Some && ({
                let before = old(self).migration->Some_0;
                let after = final(self).migration->Some_0;
                &&& after.id == before.id
                &&& after.set@ == before.set@
                &&& after.master == before.master
                &&& after.is_confirmed
            }),
    {
        let confirmed = match &self.migration {
            Some(migration) => {
                if migration.id == migration_id {
                    proof {
                        migration.id.lemma_view_injective(migration_id);
                    }
                    Some(
                        KeyServerSetMigration {
                            id: migration.id,
                            set: migration.set.clone(),
                            master: migration.master,
                            is_confirmed: true,
                        },
                    )
                } else {
                    None
                }
            },
            None => None,
        };
        match confirmed {
            Some(migration) => {
                self.migration = Some(migration);
                true
            },
            None => false,
        }
    }

    /// Ends the migration once every node of its set has confirmed it: the
    /// set of the migration becomes the current set, and no migration is
    /// under way any more. Returns whether it did; if it did not, nothing
    /// changes.
    pub fn complete_migration(&mut self, confirmed: &NodeSet) -> (r: bool)
        ensures
            final(self).new_set == old(self).new_set,
            r == (old(self).migration is Some && old(self).migration->Some_0.set@.dom().subset_of(
                confirmed@.dom(),
            )),
            r ==> final(self).migration is None && final(self).current_set@ == old(
                self,
            ).migration->Some_0.set@,
            !r ==> final(self).migration == old(self).migration && final(self).current_set == old(
                self,
            ).current_set,
    {
        let current = match &self.migration {
            Some(migration) => {
                if migration.set.keys_within(confirmed) {
                    Some(migration.set.clone())
                } else {
                    None
                }
            },
            None => None,
        };
        match current {
            Some(set) => {
                self.current_set = set;
                self.migration = None;
                true
            },
            None => false,
        }
    }

    /// Whether the node may delete the shares that it holds: only when no
    /// migration is under way and the node is not in the current set.
    pub fn may_purge(&self, node: &NodeId) -> (r: bool)
        ensures
            r == (self.migration is None && !self.current_set@.dom().contains(node@)),
    {
        self.migration.is_none() && !self.current_set.contains_key(node)
    }
}

impl InMemoryKeyServerSet {
    /// Whether the node is isolated from the set.
    pub closed spec fn isolated(&self) -> bool {
        self.is_isolated
    }

    /// The key servers of the set, each with its network address.
    pub closed spec fn nodes(&self) -> Map<Seq<u8>, NodeAddress> {
        self.nodes@
    }

    /// Create new in-memory key server set.
    pub fn new(is_isolated: bool, nodes: NodeMap<NodeAddress>) -> (r: Self)
        ensures
            r.isolated() == is_isolated,
            r.nodes() == nodes@,
    {
        InMemoryKeyServerSet { is_isolated: is_isolated, nodes: nodes }
    }
}

impl Default for InMemoryKeyServerSet {
    /// An empty set, from which the node is not isolated.
    fn default() -> (r: Self)
        ensures
            !r.isolated(),
            r.nodes() == Map::<Seq<u8>, NodeAddress>::empty(),
    {
        InMemoryKeyServerSet { is_isolated: false, nodes: OrderedMap::new() }
    }
}

impl KeyServerSet for InMemoryKeyServerSet {
    fn is_isolated(&self) -> (r: bool)
        ensures
            r == self.isolated(),
    {
        self.is_isolated
    }

    /// The set never changes: it is the current set and the new set at once,
    /// and no migration is under way.
    fn snapshot(&self) -> (r: KeyServerSetSnapshot)
        ensures
            r.current_set@ == self.nodes(),
            r.new_set@ == self.nodes(),
            r.migration is None,
    {
        KeyServerSetSnapshot {
            current_set: self.nodes.clone(),
            new_set: self.nodes.clone(),
            migration: None,
        }
    }

    fn start_migration(&self, _migration_id: MigrationId) {
    }

    fn confirm_migration(&self, _migration_id: MigrationId) {
    }
}

} // verus!
