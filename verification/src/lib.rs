//! A SWIM-style membership and failure-detection core: node selection
//! policies, retry/timeout backoff, a bandwidth-bounded gossip broadcast
//! queue, and the probe state machine that escalates failed direct pings
//! to indirect ones.

#![verifier::loop_isolation(false)]

pub mod backoff;
pub mod broadcast;
pub mod errors;
pub mod lifecycle;
pub mod options;
pub mod packet;
pub mod probe;
pub mod policy;
pub mod rng;
pub mod selector;
pub mod state;
