//! The plain data carried by the protocol: a peer's identity and
//! address, and the ping/pong packets the failure detector exchanges.

use vstd::prelude::*;

verus! {

/// A peer's identity and reachability metadata. An entry is replaced
/// wholesale on update, never mutated in place, so a reader can never
/// observe a torn record.
#[derive(Debug)]
pub struct NodeStats {
    pub node_id: String,
    pub node_address: String,
}

impl Clone for NodeStats {
    fn clone(&self) -> (r: Self)
        ensures
            r == *self,
    {
        NodeStats { node_id: self.node_id.clone(), node_address: self.node_address.clone() }
    }
}

/// A probe request. `seq` correlates the answering pong; for an indirect
/// probe `target_address` names the node the relay should forward to.
#[derive(Debug)]
pub struct PingPacket {
    pub seq: u64,
    pub source_node_id: String,
    pub source_address: String,
    pub target_node_id: String,
    pub target_address: Option<String>,
}

impl Clone for PingPacket {
    fn clone(&self) -> (r: Self)
        ensures
            r == *self,
    {
        PingPacket {
            seq: self.seq,
            source_node_id: self.source_node_id.clone(),
            source_address: self.source_address.clone(),
            target_node_id: self.target_node_id.clone(),
            target_address: match &self.target_address {
                Some(a) => Some(a.clone()),
                None => None,
            },
        }
    }
}

/// The acknowledgement of a ping, correlated by `seq`.
#[derive(Debug, Clone, Copy, PartialEq, Eq, Structural)]
pub struct PongPacket {
    pub seq: u64,
}

} // verus!
