//! The tasks that can be asked of a key server from outside.

use crate::hash::{Public, Signature, H256};
use crate::key_server_set::NodeSet;
use crate::requester::Requester;
use crate::ServerKeyId;
use vstd::prelude::*;

verus! {

/// Service contract task.
#[derive(Debug, Clone, PartialEq)]
pub enum ServiceTask {
    /// Generate server key (server_key_id, author, threshold).
    GenerateServerKey(ServerKeyId, Requester, usize),
    /// Retrieve server key (server_key_id, requester).
    RetrieveServerKey(ServerKeyId, Option<Requester>),
    /// Generate document key (server_key_id, author, threshold).
    GenerateDocumentKey(ServerKeyId, Requester, usize),
    /// Store document key (server_key_id, author, common_point, encrypted_point).
    StoreDocumentKey(ServerKeyId, Requester, Public, Public),
    /// Retrieve document key (server_key_id, requester).
    RetrieveDocumentKey(ServerKeyId, Requester),
    /// Retrieve document key (server_key_id, requester).
    RetrieveShadowDocumentKey(ServerKeyId, Requester),
    /// Generate Schnorr signature for the message (server_key_id, requester, message).
    SchnorrSignMessage(ServerKeyId, Requester, H256),
    /// Generate ECDSA signature for the message.
    EcdsaSignMessage(ServerKeyId, Requester, H256),
    /// Change servers set (old_set_signature, new_set_signature, new_set).
    ChangeServersSet(Signature, Signature, NodeSet),
}

} // verus!
