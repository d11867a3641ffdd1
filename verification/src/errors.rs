//! Error taxonomy of the protocol core. Transport faults are recoverable
//! and stay local to one probe attempt; lifecycle faults carry the text
//! of the underlying fault.

use vstd::prelude::*;

verus! {

/// A fault of the lifecycle layer (starting or closing a transport);
/// the payload carries the underlying fault's description.
#[derive(Debug, Clone)]
pub enum CommonError {
    IO(String),
}

impl CommonError {
    /// A short description of the error kind.
    pub fn message(&self) -> (r: &'static str)
        ensures
            r@ == "io error"@,
    {
        proof {
            reveal_strlit("io error");
        }
        match self {
            CommonError::IO(_) => "io error",
        }
    }
}

/// A fault of one gossip exchange: the peer was unreachable this attempt.
/// Such errors are contained within one probe tick and never end the
/// protocol's recurring tasks.
#[derive(Debug, Clone)]
pub enum GossipError {
    Unknown,
}

impl GossipError {
    /// A short description of the error kind.
    pub fn message(&self) -> (r: &'static str)
        ensures
            r@ == "unknown gossip error"@,
    {
        proof {
            reveal_strlit("unknown gossip error");
        }
        match self {
            GossipError::Unknown => "unknown gossip error",
        }
    }
}

} // verus!
