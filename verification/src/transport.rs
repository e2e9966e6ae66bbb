//! The network between the key servers, as the sessions see it.

use crate::error::Error;
use crate::key_server_set::{NodeMap, NodeSet};
use crate::KeyServerId;
use std::sync::Arc;
use vstd::prelude::*;

verus! {

/// Network event.
#[derive(Debug, Clone, PartialEq, Eq)]
pub enum NetworkEvent {
    /// We have connected all required nodes.
    FullyConnected,
    /// Node has been disconnected.
    Disconnected(KeyServerId),
    /// Message has been received from given key server.
    MessageReceived(KeyServerId, Vec<u8>),
}

/// Network transport.
pub trait NetworkTransport: Send + Sync {
    /// Type of address we need to know to connect remote key servers.
    type Address;

    /// Type of the connections snapshot.
    type Snapshot: NetworkSnapshot;

    /// Set key servers we need to connect to.
    fn set_key_servers_set(&self, set: NodeMap<Self::Address>);

    /// Are we connected to all required nodes?
    fn is_fully_connected(&self) -> bool;

    /// Get connections snapshot.
    fn snapshot(&self) -> Arc<Self::Snapshot>;
}

/// Network connections snapshot.
pub trait NetworkSnapshot: Send + Sync {
    /// Returns IDs of all nodes that were connected when snapshot has been created.
    fn nodes(&self) -> NodeSet;

    /// Broadcast message to all other nodes.
    fn broadcast(&self, message: Vec<u8>) -> Result<(), Error>;

    /// Send message to given node.
    fn send(&self, to: &KeyServerId, message: Vec<u8>) -> Result<(), Error>;
}

} // verus!
