//! Who may use which key.

use crate::{RequesterId, ServerKeyId};
use vstd::prelude::*;

verus! {

/// The access control list, consulted before any key is restored or used
/// for signing.
pub trait AclStorage: Send + Sync {
    /// Whether the requester with the given address may use the key.
    fn allowed(&self, requester: &RequesterId, key_id: &ServerKeyId) -> bool;
}

} // verus!
