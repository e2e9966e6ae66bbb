//! Primitives of a threshold key-management cluster: identifiers, requester
//! resolution, key share records and the rules that every node applies to
//! them.

pub mod acl_storage;
pub mod crypto;
pub mod error;
pub mod hash;
pub mod key_server;
pub mod key_server_set;
pub mod key_storage;
pub mod ordered_map;
pub mod requester;
pub mod service;
pub mod session;
pub mod threshold;
pub mod transport;

use vstd::prelude::*;

verus! {

/// Node id.
pub type NodeId = crate::hash::Public;

/// Identity of a key server: its public key.
pub type KeyServerId = NodeId;

/// Public key of a key server.
pub type KeyServerPublic = NodeId;

/// Address of a requester.
pub type RequesterId = crate::hash::Address;

/// Server key id. When the key is used to encrypt a document, it could be the
/// hash of the document's contents.
pub type ServerKeyId = crate::hash::H256;

/// Common point of an encrypted document key: `k * T`.
pub type CommonPoint = crate::hash::Public;

/// Encrypted point of a document key: `M + k * y`.
pub type EncryptedPoint = crate::hash::Public;

/// Public portion of a server key.
pub type ServerKey = crate::hash::Public;

/// Decrypted document key.
pub type DecryptedSecret = crate::hash::Public;

/// Shadow coefficient, encrypted with the requester's public key.
pub type DocumentKeyShadow = Vec<u8>;

/// Document key, encrypted with the requester's public key.
pub type EncryptedDocumentKey = Vec<u8>;

/// Hash of a message to sign.
pub type MessageHash = crate::hash::H256;

/// Signature of a server key id, made with the requester's key.
pub type RequestSignature = crate::hash::Signature;

/// Message signature, encrypted with the requester's public key.
pub type EncryptedMessageSignature = Vec<u8>;

/// The part of a document key that is the same on all key servers.
#[derive(Clone, Copy, Debug, PartialEq, Eq)]
pub struct DocumentKeyCommon {
    /// Threshold of the server key that the document key is encrypted with.
    pub threshold: usize,
    /// Shared common point.
    pub common_point: CommonPoint,
}

/// Shadow decryption result.
#[derive(Clone, Debug, PartialEq)]
pub struct EncryptedDocumentKeyShadow {
    /// Decrypted secret point. It is partially decrypted if shadow decryption was requested.
    pub decrypted_secret: crate::hash::Public,
    /// Shared common point.
    pub common_point: Option<crate::hash::Public>,
    /// If shadow decryption was requested: shadow decryption coefficients, encrypted with requestor public.
    pub decrypt_shadows: Option<Vec<Vec<u8>>>,
}

} // verus!
