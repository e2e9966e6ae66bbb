//! The share of a key that one key server holds, and the storage of such
//! shares.

use crate::error::Error;
use crate::hash::{bytes_less, Address, FixedBytes, Public, Secret, H256};
use crate::key_server::{DocumentKeyCommonRetrievalArtifacts, ServerKeyRetrievalArtifacts};
use crate::key_server_set::{NodeMap, NodeSet};
use crate::ordered_map::OrderedMap;
use crate::threshold::{check_ecdsa_threshold, check_nodes, ecdsa_supported, enough_nodes};
use crate::ServerKeyId;
use vstd::prelude::*;

verus! {

/// Encrypted key share, stored by key storage on the single key server.
#[derive(Debug, Clone, PartialEq)]
pub struct DocumentKeyShare {
    /// Author of the entry.
    pub author: Address,
    /// Decryption threshold (at least threshold + 1 nodes are required to decrypt data).
    pub threshold: usize,
    /// Server public key.
    pub public: Public,
    /// Common (shared) encryption point.
    pub common_point: Option<Public>,
    /// Encrypted point.
    pub encrypted_point: Option<Public>,
    /// Key share versions.
    pub versions: Vec<DocumentKeyShareVersion>,
}

/// Versioned portion of document key share.
#[derive(Debug, Clone, PartialEq)]
pub struct DocumentKeyShareVersion {
    /// Version hash (Keccak(time + id_numbers)).
    pub hash: H256,
    /// Nodes ids numbers.
    pub id_numbers: NodeMap<Secret>,
    /// Node secret share.
    pub secret_share: Secret,
}

/// Secret Store key storage.
pub trait KeyStorage: Send + Sync {
    /// Insert new key.
    fn insert(&self, key_id: ServerKeyId, key: DocumentKeyShare) -> Result<(), Error>;

    /// Update document encryption key
    fn update(&self, document: ServerKeyId, key: DocumentKeyShare) -> Result<(), Error>;

    /// Get document encryption key
    fn get(&self, document: &ServerKeyId) -> Result<Option<DocumentKeyShare>, Error>;

    /// Remove document encryption key
    fn remove(&self, document: &ServerKeyId) -> Result<(), Error>;

    /// Clears the database
    fn clear(&self) -> Result<(), Error>;

    /// Check if storage contains document encryption key
    fn contains(&self, document: &ServerKeyId) -> bool;

    /// All the keys of the storage, each with its share.
    fn iter(&self) -> Vec<(ServerKeyId, DocumentKeyShare)>;
}

impl Default for DocumentKeyShare {
    /// A share of a key with a zero author and a zero public key, a threshold
    /// of zero, no document key and no versions.
    fn default() -> (r: Self)
        ensures
            r.author == Address::zero_spec(),
            r.threshold == 0,
            r.public == Public::zero_spec(),
            r.common_point is None,
            r.encrypted_point is None,
            r.versions@ == Seq::<DocumentKeyShareVersion>::empty(),
            r.wf(),
    {
        DocumentKeyShare {
            author: FixedBytes::zero(),
            threshold: 0,
            public: FixedBytes::zero(),
            common_point: None,
            encrypted_point: None,
            versions: Vec::new(),
        }
    }
}

impl DocumentKeyShareVersion {
    /// The number of nodes that hold a share of this version.
    pub open spec fn holders(&self) -> nat {
        self.id_numbers@.dom().len()
    }

    /// The holders of this version that are among the given nodes.
    pub open spec fn candidates(&self, reachable: Set<Seq<u8>>) -> Set<Seq<u8>> {
        self.id_numbers@.dom().intersect(reachable)
    }

    /// `chosen` are the participants of a session with the given threshold
    /// among the given nodes: `threshold + 1` of the candidates, each with a
    /// lower id than any candidate that was not chosen.
    pub open spec fn selects(&self, threshold: nat, reachable: Set<Seq<u8>>, chosen: Set<Seq<u8>>)
        -> bool {
        &&& chosen.subset_of(self.candidates(reachable))
        &&& chosen.len() == threshold + 1
        &&& forall|a: Seq<u8>, b: Seq<u8>|
            chosen.contains(a) && self.candidates(reachable).contains(b) && !chosen.contains(b)
                ==> bytes_less(a, b)
    }

    /// Chooses the nodes that take part in a session on this version: of the
    /// holders that can be reached, the `threshold + 1` with the lowest ids.
    /// Where fewer can be reached, there are not enough nodes.
    pub fn select_participants(&self, threshold: usize, reachable: &NodeSet) -> (r: Result<
        NodeSet,
        Error,
    >)
        ensures
            r is Ok <==> self.candidates(reachable@.dom()).len() > threshold,
            match r {
                Ok(chosen) => self.selects(threshold as nat, reachable@.dom(), chosen@.dom()),
                Err(error) => error == Error::InsufficientNodes,
            },
    {
        let holders = &self.id_numbers;
        let ghost keys = holders.spec_keys();
        let ghost candidates = self.candidates(reachable@.dom());
        proof {
            use_type_invariant(holders);
            holders.lemma_keys();
        }
        let mut chosen: NodeSet = OrderedMap::new();
        let mut i: usize = 0;
        while i < holders.len() && chosen.len() <= threshold
            invariant
                holders.wf(),
                keys == holders.spec_keys(),
                i <= keys.len(),
                chosen.wf(),
                chosen@.dom().finite(),
                chosen@.dom().len() <= threshold + 1,
                forall|k: Seq<u8>| #[trigger]
                    chosen@.dom().contains(k) <==> reachable@.dom().contains(k) && exists|j: int|
                        0 <= j < i && keys[j] == k,
            decreases keys.len() - i,
        {
            let node = holders.key_at(i);
            proof {
                holders.lemma_keys();
            }
            if reachable.contains_key(&node) {
                let ghost before = chosen@.dom();
                proof {
                    if before.contains(node@) {
                        let j = choose|j: int| 0 <= j < i && keys[j] == node@;
                        assert(bytes_less(keys[j], keys[i as int]));
                    }
                }
                chosen.insert(node, ());
                proof {
                    chosen.lemma_keys();
                    assert(chosen@.dom() =~= before.insert(node@));
                    assert forall|k: Seq<u8>| #[trigger]
                        chosen@.dom().contains(k) <==> reachable@.dom().contains(k) && exists|
                        j: int,
                    |
                        0 <= j < i + 1 && keys[j] == k by {
                        if k == node@ {
                            assert(keys[i as int] == k);
                        } else if before.contains(k) {
                            let j = choose|j: int| 0 <= j < i && keys[j] == k;
                            assert(0 <= j < i + 1 && keys[j] == k);
                        }
                    }
                }
            } else {
                proof {
                    assert forall|k: Seq<u8>| #[trigger]
                        chosen@.dom().contains(k) <==> reachable@.dom().contains(k) && exists|
                        j: int,
                    |
                        0 <= j < i + 1 && keys[j] == k by {
                        if chosen@.dom().contains(k) {
                            let j = choose|j: int| 0 <= j < i && keys[j] == k;
                            assert(0 <= j < i + 1 && keys[j] == k);
                        }
                    }
                }
            }
            i += 1;
        }
        proof {
            holders.lemma_keys();
            assert(candidates.finite());
            assert forall|k: Seq<u8>| chosen@.dom().contains(k) implies candidates.contains(k) by {
                let j = choose|j: int| 0 <= j < i && keys[j] == k;
                assert(holders@.dom().contains(keys[j]));
            }
            vstd::set_lib::lemma_len_subset(chosen@.dom(), candidates);
        }
        if chosen.len() > threshold {
            proof {
                assert forall|a: Seq<u8>, b: Seq<u8>|
                    chosen@.dom().contains(a) && candidates.contains(b) && !chosen@.dom().contains(
                        b,
                    ) implies bytes_less(a, b) by {
                    let ja = choose|j: int| 0 <= j < i && keys[j] == a;
                    assert(holders.spec_keys().contains(b));
                    let jb = choose|j: int| 0 <= j < keys.len() && keys[j] == b;
                    assert(jb >= i);
                    assert(bytes_less(keys[ja], keys[jb]));
                }
            }
            Ok(chosen)
        } else {
            proof {
                assert forall|k: Seq<u8>| candidates.contains(k) implies chosen@.dom().contains(
                    k,
                ) by {
                    assert(holders.spec_keys().contains(k));
                    let j = choose|j: int| 0 <= j < keys.len() && keys[j] == k;
                    assert(0 <= j < i && keys[j] == k);
                }
                assert(chosen@.dom() =~= candidates);
            }
            Err(Error::InsufficientNodes)
        }
    }
}

impl DocumentKeyShare {
    /// What a share has to fulfil: the two points of the document key are
    /// recorded together or not at all, and every version is held by more
    /// nodes than the threshold.
    pub open spec fn wf(&self) -> bool {
        &&& self.common_point is Some <==> self.encrypted_point is Some
        &&& forall|i: int|
            0 <= i < self.versions@.len() ==> self.threshold < (
            #[trigger] self.versions@[i]).holders()
    }

    /// The share after the author has asked to store the two points of a
    /// document key, or the error that the request meets. Only the author of
    /// the key may store; the points are recorded once, and storing the
    /// recorded points again changes nothing.
    pub open spec fn stored(
        self,
        author: Address,
        common_point: Public,
        encrypted_point: Public,
    ) -> Result<DocumentKeyShare, Error> {
        if self.author != author {
            Err(Error::AccessDenied)
        } else if self.common_point is None && self.encrypted_point is None {
            Ok(
                DocumentKeyShare {
                    common_point: Some(common_point),
                    encrypted_point: Some(encrypted_point),
                    ..self
                },
            )
        } else if self.common_point == Some(common_point) && self.encrypted_point == Some(
            encrypted_point,
        ) {
            Ok(self)
        } else {
            Err(Error::DocumentKeyAlreadySet)
        }
    }

    /// The common part of the document key for a requester whom the access
    /// control list allows or refuses, or the error that the request meets.
    pub open spec fn common(self, allowed: bool) -> Result<
        DocumentKeyCommonRetrievalArtifacts,
        Error,
    > {
        if !allowed {
            Err(Error::AccessDenied)
        } else {
            match self.common_point {
                Some(common_point) => Ok(
                    DocumentKeyCommonRetrievalArtifacts {
                        common_point,
                        threshold: self.threshold,
                    },
                ),
                None => Err(Error::KeyNotFound),
            }
        }
    }

    /// Whether a session that signs with Schnorr's scheme may start on this
    /// share, or the error that the request meets: the requester must be
    /// allowed, and there must be a version of the share to sign with.
    pub open spec fn schnorr_signing(self, allowed: bool) -> Result<(), Error> {
        if !allowed {
            Err(Error::AccessDenied)
        } else if self.versions@.len() == 0 {
            Err(Error::KeyNotFound)
        } else {
            Ok(())
        }
    }

    /// Whether a session that signs with ECDSA may start on this share, or
    /// the error that the request meets. Beyond what Schnorr's scheme asks,
    /// the threshold must be at most half the number of holders.
    pub open spec fn ecdsa_signing(self, allowed: bool) -> Result<(), Error> {
        if self.schnorr_signing(allowed) is Err {
            self.schnorr_signing(allowed)
        } else if !ecdsa_supported(self.threshold as nat, self.versions@.last().holders()) {
            Err(Error::UnsupportedThreshold)
        } else {
            Ok(())
        }
    }

    /// Whether a session may restore the document key from this share, or
    /// the error that the request meets before any node is chosen: the
    /// requester must be allowed, and there must be a document key and a
    /// version of the share to restore it with.
    pub open spec fn restoration(self, allowed: bool) -> Result<(), Error> {
        if !allowed {
            Err(Error::AccessDenied)
        } else if self.common_point is None || self.encrypted_point is None
            || self.versions@.len() == 0 {
            Err(Error::KeyNotFound)
        } else {
            Ok(())
        }
    }

    /// Whether a key may be generated under an id, or the error that the
    /// request meets: no key may exist under the id yet, and more nodes than
    /// the threshold must be there to share it.
    pub open spec fn generation(existing: Option<&DocumentKeyShare>, threshold: nat, nodes: nat)
        -> Result<(), Error> {
        if existing is Some {
            Err(Error::DuplicateKey)
        } else if !enough_nodes(threshold, nodes) {
            Err(Error::InsufficientNodes)
        } else {
            Ok(())
        }
    }

    /// The share `after` is the share `self` with one more version at the
    /// end, and nothing else changed.
    pub open spec fn extended_by(self, version: DocumentKeyShareVersion, after: Self) -> bool {
        &&& after.author == self.author
        &&& after.threshold == self.threshold
        &&& after.public == self.public
        &&& after.common_point == self.common_point
        &&& after.encrypted_point == self.encrypted_point
        &&& after.versions@ == self.versions@.push(version)
    }

    /// Records the common point and the encrypted point of a document key
    /// that the author has encrypted with the server key.
    pub fn store_document_key(
        &mut self,
        author: &Address,
        common_point: Public,
        encrypted_point: Public,
    ) -> (r: Result<(), Error>)
        ensures
            match old(self).stored(*author, common_point, encrypted_point) {
                Ok(share) => r is Ok && *final(self) == share,
                Err(error) => r == Err::<(), Error>(error) && *final(self) == *old(self),
            },
            old(self).wf() ==> final(self).wf(),
    {
        proof {
            self.author.lemma_same_bytes(*author);
        }
        if self.author != *author {
            return Err(Error::AccessDenied);
        }
        match (&self.common_point, &self.encrypted_point) {
            (None, None) => {
                self.common_point = Some(common_point);
                self.encrypted_point = Some(encrypted_point);
                Ok(())
            },
            (Some(recorded_common), Some(recorded_encrypted)) => {
                proof {
                    recorded_common.lemma_same_bytes(common_point);
                    recorded_encrypted.lemma_same_bytes(encrypted_point);
                }
                if *recorded_common == common_point && *recorded_encrypted == encrypted_point {
                    Ok(())
                } else {
                    Err(Error::DocumentKeyAlreadySet)
                }
            },
            _ => Err(Error::DocumentKeyAlreadySet),
        }
    }

    /// Restores the part of the document key that is the same on all key
    /// servers. `allowed` is what the access control list says of the
    /// requester.
    pub fn restore_document_key_common(&self, allowed: bool) -> (r: Result<
        DocumentKeyCommonRetrievalArtifacts,
        Error,
    >)
        ensures
            r == self.common(allowed),
    {
        if !allowed {
            return Err(Error::AccessDenied);
        }
        match self.common_point {
            Some(common_point) => Ok(
                DocumentKeyCommonRetrievalArtifacts { common_point, threshold: self.threshold },
            ),
            None => Err(Error::KeyNotFound),
        }
    }

    /// Retrieves the public portion of the server key, with its threshold.
    /// Where an author is given, it must be the author of the key.
    pub fn restore_key_public(&self, author: Option<&Address>) -> (r: Result<
        ServerKeyRetrievalArtifacts,
        Error,
    >)
        ensures
            r == (if author is Some && *author->Some_0 != self.author {
                Err::<ServerKeyRetrievalArtifacts, Error>(Error::AccessDenied)
            } else {
                Ok::<ServerKeyRetrievalArtifacts, Error>(
                    ServerKeyRetrievalArtifacts { key: self.public, threshold: self.threshold },
                )
            }),
    {
        match author {
            Some(author) => {
                proof {
                    self.author.lemma_same_bytes(*author);
                }
                if self.author != *author {
                    return Err(Error::AccessDenied);
                }
            },
            None => {},
        }
        Ok(ServerKeyRetrievalArtifacts { key: self.public, threshold: self.threshold })
    }

    /// The share that the storage holds under a key id, for an operation on
    /// an existing key: where the storage holds none, the key is not found.
    pub fn found(held: Option<DocumentKeyShare>) -> (r: Result<DocumentKeyShare, Error>)
        ensures
            r == (match held {
                Some(share) => Ok::<DocumentKeyShare, Error>(share),
                None => Err::<DocumentKeyShare, Error>(Error::KeyNotFound),
            }),
    {
        match held {
            Some(share) => Ok(share),
            None => Err(Error::KeyNotFound),
        }
    }

    /// Decides whether a session may restore the document key, in full or as
    /// a shadow, and chooses the nodes that take part in it: of the holders of
    /// the latest version that can be reached, the `threshold + 1` with the
    /// lowest ids. `allowed` is what the access control list says of the
    /// requester.
    pub fn restoration_participants(&self, allowed: bool, reachable: &NodeSet) -> (r: Result<
        NodeSet,
        Error,
    >)
        ensures
            match self.restoration(allowed) {
                Err(error) => r == Err::<NodeSet, Error>(error),
                Ok(()) => {
                    let version = self.versions@.last();
                    &&& r is Ok <==> version.candidates(reachable@.dom()).len() > self.threshold
                    &&& match r {
                        Ok(chosen) => version.selects(
                            self.threshold as nat,
                            reachable@.dom(),
                            chosen@.dom(),
                        ),
                        Err(error) => error == Error::InsufficientNodes,
                    }
                },
            },
    {
        if !allowed {
            return Err(Error::AccessDenied);
        }
        if self.common_point.is_none() || self.encrypted_point.is_none() || self.versions.len()
            == 0 {
            return Err(Error::KeyNotFound);
        }
        self.versions[self.versions.len() - 1].select_participants(self.threshold, reachable)
    }

    /// Decides whether a session may sign a message with Schnorr's scheme.
    /// `allowed` is what the access control list says of the requester.
    pub fn admit_schnorr_signing(&self, allowed: bool) -> (r: Result<(), Error>)
        ensures
            r == self.schnorr_signing(allowed),
    {
        if !allowed {
            Err(Error::AccessDenied)
        } else if self.versions.len() == 0 {
            Err(Error::KeyNotFound)
        } else {
            Ok(())
        }
    }

    /// Decides whether a session may sign a message with ECDSA. `allowed` is
    /// what the access control list says of the requester.
    pub fn admit_ecdsa_signing(&self, allowed: bool) -> (r: Result<(), Error>)
        ensures
            r == self.ecdsa_signing(allowed),
    {
        match self.admit_schnorr_signing(allowed) {
            Err(error) => Err(error),
            Ok(()) => {
                let holders = self.versions[self.versions.len() - 1].id_numbers.len();
                check_ecdsa_threshold(self.threshold, holders)
            },
        }
    }

    /// Decides whether a key may be generated under an id. `existing` is what
    /// the storage holds under the id, and `nodes` is the number of nodes that
    /// can be reached.
    pub fn admit_generation(existing: Option<&DocumentKeyShare>, threshold: usize, nodes: usize) -> (r:
        Result<(), Error>)
        ensures
            r == Self::generation(existing, threshold as nat, nodes as nat),
    {
        if existing.is_some() {
            Err(Error::DuplicateKey)
        } else {
            check_nodes(threshold, nodes)
        }
    }

    /// The latest version of the share, which new sessions work with.
    pub fn last_version(&self) -> (r: Option<&DocumentKeyShareVersion>)
        ensures
            r == (if self.versions@.len() > 0 {
                Some(&self.versions@.last())
            } else {
                None
            }),
    {
        let count = self.versions.len();
        if count > 0 {
            Some(&self.versions[count - 1])
        } else {
            None
        }
    }

    /// The latest of the versions with the given hash.
    pub fn version(&self, hash: &H256) -> (r: Option<&DocumentKeyShareVersion>)
        ensures
            match r {
                Some(version) => exists|i: int|
                    {
                        &&& 0 <= i < self.versions@.len()
                        &&& #[trigger] self.versions@[i] == *version
                        &&& version.hash == *hash
                        &&& forall|j: int|
                            i < j < self.versions@.len() ==> (#[trigger] self.versions@[j]).hash
                                != *hash
                    },
                None => forall|i: int|
                    0 <= i < self.versions@.len() ==> (#[trigger] self.versions@[i]).hash != *hash,
            },
    {
        let mut i: usize = self.versions.len();
        while i > 0
            invariant
                i <= self.versions@.len(),
                forall|j: int|
                    i <= j < self.versions@.len() ==> (#[trigger] self.versions@[j]).hash != *hash,
            decreases i,
        {
            i -= 1;
            proof {
                self.versions@[i as int].hash.lemma_same_bytes(*hash);
            }
            if self.versions[i].hash == *hash {
                return Some(&self.versions[i]);
            }
        }
        None
    }

    /// Adds a version to the share, as a migration to another set of nodes
    /// does. The versions that the share had stay as they are. A version that
    /// is held by too few nodes for the threshold is refused.
    pub fn add_version(&mut self, version: DocumentKeyShareVersion) -> (r: Result<(), Error>)
        ensures
            version.holders() > old(self).threshold ==> r is Ok && old(self).extended_by(
                version,
                *final(self),
            ),
            version.holders() <= old(self).threshold ==> r == Err::<(), Error>(
                Error::InsufficientNodes,
            ) && *final(self) == *old(self),
            old(self).wf() ==> final(self).wf(),
    {
        if version.id_numbers.len() <= self.threshold {
            return Err(Error::InsufficientNodes);
        }
        self.versions.push(version);
        Ok(())
    }
}

/// Storing the two points of a document key and then restoring its common
/// part gives back the common point that was stored, with the threshold of
/// the key.
pub proof fn lemma_store_then_restore_common(
    share: DocumentKeyShare,
    author: Address,
    common_point: Public,
    encrypted_point: Public,
)
    requires
        share.stored(author, common_point, encrypted_point) is Ok,
    ensures
        share.wf() ==> share.stored(author, common_point, encrypted_point)->Ok_0.wf(),
        share.stored(author, common_point, encrypted_point)->Ok_0.common(true) == Ok::<
            DocumentKeyCommonRetrievalArtifacts,
            Error,
        >(DocumentKeyCommonRetrievalArtifacts { common_point, threshold: share.threshold }),
{
}

/// Storing the same two points twice succeeds both times and leaves the
/// share as the first call left it; storing other points after that fails,
/// since a document key is set already.
pub proof fn lemma_store_is_idempotent(
    share: DocumentKeyShare,
    author: Address,
    common_point: Public,
    encrypted_point: Public,
    other_common_point: Public,
    other_encrypted_point: Public,
)
    requires
        share.stored(author, common_point, encrypted_point) is Ok,
    ensures
        ({
            let once = share.stored(author, common_point, encrypted_point)->Ok_0;
            &&& once.stored(author, common_point, encrypted_point) == Ok::<DocumentKeyShare, Error>(
                once,
            )
            &&& (other_common_point != common_point || other_encrypted_point != encrypted_point)
                ==> once.stored(author, other_common_point, other_encrypted_point) == Err::<
                DocumentKeyShare,
                Error,
            >(Error::DocumentKeyAlreadySet)
        }),
{
}

/// A key whose threshold is more than half the number of its holders is
/// refused for ECDSA with `UnsupportedThreshold`, while Schnorr's scheme
/// accepts the same key.
pub proof fn lemma_ecdsa_refuses_high_threshold(share: DocumentKeyShare)
    requires
        share.versions@.len() > 0,
        2 * share.threshold > share.versions@.last().holders(),
    ensures
        share.ecdsa_signing(true) == Err::<(), Error>(Error::UnsupportedThreshold),
        share.schnorr_signing(true) == Ok::<(), Error>(()),
{
}

/// A migration, which adds a version to the share, keeps what the share
/// hands out of the document key and of the server key: the common point,
/// the threshold and the public key are restored as before, now with the
/// nodes of the new version as holders.
pub proof fn lemma_migration_preserves_data(
    before: DocumentKeyShare,
    version: DocumentKeyShareVersion,
    after: DocumentKeyShare,
    allowed: bool,
)
    requires
        before.extended_by(version, after),
    ensures
        after.common(allowed) == before.common(allowed),
        after.public == before.public,
        after.threshold == before.threshold,
        after.versions@.last() == version,
        forall|i: int| 0 <= i < before.versions@.len() ==> after.versions@[i] == before.versions@[i],
{
}

} // verus!
