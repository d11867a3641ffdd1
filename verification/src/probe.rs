//! The failure detector: one probe cycle per tick. A target is drawn by
//! round-robin, pinged directly under a backoff-derived timeout, and on
//! failure the probe escalates to indirect pings relayed through a
//! random subset of peers. Any ack clears the suspicion; losing every
//! relay marks the target unreachable for this cycle. All transport
//! faults stay inside the tick — they never end the recurring task.

use crate::backoff::Backoff;
use crate::backoff::ScaleBackoff;
use crate::errors::GossipError;
use crate::lifecycle::Stateful;
use crate::options::Options;
use crate::packet::NodeStats;
use crate::packet::PingPacket;
use crate::packet::PongPacket;
use crate::selector::SkipPredicate;
use crate::state::State;
use vstd::prelude::*;

verus! {

/// The channel contract the probe engine rides on. The unreliable call
/// is a best-effort datagram exchange, the reliable one is acked; both
/// must resolve within roughly `timeout_nanos` or return an error — the
/// timeout is advisory for the transport, the probe engine enforces its
/// own deadline as a backstop. Nothing is promised of the results: any
/// outcome, ack or fault, is handled by the callers.
pub trait Transport: Stateful {
    fn ping_unreliable_rpc(
        &mut self,
        target_address: &String,
        ping_packet: &PingPacket,
        timeout_nanos: u64,
    ) -> Result<PongPacket, GossipError>;

    fn ping_reliable_rpc(
        &mut self,
        target_address: &String,
        ping_packet: &PingPacket,
        timeout_nanos: u64,
    ) -> Result<PongPacket, GossipError>;
}

/// How one probe cycle ended.
#[derive(Debug, Clone, Copy, PartialEq, Eq, Structural)]
pub enum ProbeOutcome {
    /// No peer was eligible this tick; nothing was probed.
    NoEligiblePeer,
    /// The target acked the direct ping: alive.
    DirectAck,
    /// A relay's indirect ping reached the target: alive, suspicion
    /// cleared.
    IndirectAck,
    /// Every attempt failed: the target is suspect/unreachable for this
    /// cycle.
    Unreachable,
}

/// The verdict a probe cycle owes its raw transport results: a direct
/// ack means alive; otherwise any one indirect ack clears the
/// suspicion; with none, the target is unreachable this cycle.
pub open spec fn spec_probe_outcome(
    direct: Result<PongPacket, GossipError>,
    indirect: Seq<Result<PongPacket, GossipError>>,
) -> ProbeOutcome {
    if direct is Ok {
        ProbeOutcome::DirectAck
    } else if exists|i: int| 0 <= i < indirect.len() && (#[trigger] indirect[i]) is Ok {
        ProbeOutcome::IndirectAck
    } else {
        ProbeOutcome::Unreachable
    }
}

/// Resolves one probe cycle's raw results. This is where the logic
/// meets whatever the transport returned: the verdict is exact for
/// every combination of results.
pub fn classify_probe(
    direct: &Result<PongPacket, GossipError>,
    indirect: &Vec<Result<PongPacket, GossipError>>,
) -> (r: ProbeOutcome)
    ensures
        r == spec_probe_outcome(*direct, indirect@),
{
    if direct.is_ok() {
        return ProbeOutcome::DirectAck;
    }
    let mut i: usize = 0;
    while i < indirect.len()
        invariant
            i <= indirect@.len(),
            forall|j: int| 0 <= j < i ==> !((#[trigger] indirect@[j]) is Ok),
        decreases indirect@.len() - i,
    {
        if indirect[i].is_ok() {
            return ProbeOutcome::IndirectAck;
        }
        i = i + 1;
    }
    ProbeOutcome::Unreachable
}

/// Skips the prober's own node and the probed target: neither may serve
/// as a relay for an indirect probe.
pub struct ExcludePair {
    pub first_id: String,
    pub second_id: String,
}

impl SkipPredicate<NodeStats> for ExcludePair {
    open spec fn spec_skip(&self, t: &NodeStats) -> bool {
        t.node_id@ == self.first_id@ || t.node_id@ == self.second_id@
    }

    fn skip(&self, t: &NodeStats) -> (r: bool) {
        t.node_id == self.first_id || t.node_id == self.second_id
    }
}

/// The recurring failure-detection task: owns the registry handle, the
/// configuration, the transport, and the load-scaled timeout policy.
pub struct ProbeTask<T: Transport> {
    state: State,
    options: Options,
    transport: T,
    scaled_timeout_backoff: ScaleBackoff,
}

impl<T: Transport> ProbeTask<T> {
    pub closed spec fn wf(&self) -> bool {
        self.state.wf()
    }

    pub closed spec fn nodes(&self) -> Seq<NodeStats> {
        self.state.nodes()
    }

    pub closed spec fn seq_counter(&self) -> u64 {
        self.state.seq_counter()
    }

    pub closed spec fn options_spec(&self) -> Options {
        self.options
    }

    pub fn new(options: Options, state: State, transport: T) -> (r: Self)
        requires
            state.wf(),
        ensures
            r.wf(),
            r.nodes() == state.nodes(),
            r.seq_counter() == state.seq_counter(),
            r.options_spec() == options,
    {
        Self {
            state,
            options,
            transport,
            scaled_timeout_backoff: ScaleBackoff::new(1_000_000_000, 10),
        }
    }

    /// One failure-detection cycle. Draws the round-robin target — none
    /// eligible ends the tick at once, without spinning. Otherwise one
    /// sequence number is taken for the cycle's pings, the target is
    /// pinged directly under the smaller of the scaled timeout and the
    /// configured probe deadline, and on failure up to
    /// `indirect_check_num` random relays — never the prober itself nor
    /// the target — forward the probe, every relay getting its attempt
    /// before the verdict. The membership view is left untouched, and
    /// the sequence counter advances exactly once per probed tick and
    /// not at all otherwise.
    pub fn run_probe(&mut self) -> (r: ProbeOutcome)
        requires
            old(self).wf(),
            old(self).seq_counter() < u64::MAX,
        ensures
            final(self).wf(),
            final(self).nodes() == old(self).nodes(),
            final(self).options_spec() == old(self).options_spec(),
            r == ProbeOutcome::NoEligiblePeer ==> final(self).seq_counter() == old(
                self,
            ).seq_counter(),
            r != ProbeOutcome::NoEligiblePeer ==> final(self).seq_counter() == old(
                self,
            ).seq_counter() + 1,
            old(self).nodes().len() == 0 ==> r == ProbeOutcome::NoEligiblePeer,
            old(self).nodes().len() > 0 ==> r != ProbeOutcome::NoEligiblePeer,
    {
        let candidate_opt = self.state.round_robin_next();
        let candidate = match candidate_opt {
            Some(c) => c,
            None => {
                return ProbeOutcome::NoEligiblePeer;
            },
        };
        let scaled_timeout = self.scaled_timeout_backoff.next_backoff();
        let probe_deadline = self.options.probe_timeout();
        let direct_timeout = if scaled_timeout < probe_deadline {
            scaled_timeout
        } else {
            probe_deadline
        };
        let seq = self.state.next_seq();
        let ping_packet = PingPacket {
            seq,
            source_node_id: self.options.node_id().clone(),
            source_address: self.options.bind_address().clone(),
            target_node_id: candidate.node_id.clone(),
            target_address: None,
        };
        let direct = self.transport.ping_unreliable_rpc(
            &candidate.node_address,
            &ping_packet,
            direct_timeout,
        );
        if direct.is_ok() {
            return ProbeOutcome::DirectAck;
        }
        let count = self.state.node_count();
        let fan_out = self.options.indirect_check_num();
        let draw = if (fan_out as usize) > count {
            count as u32
        } else {
            fan_out
        };
        let relays = self.state.random_nodes(draw);
        let excluded = ExcludePair {
            first_id: self.options.node_id().clone(),
            second_id: candidate.node_id.clone(),
        };
        let ghost state1 = self.state;
        let ghost options1 = self.options;
        let mut indirect_results: Vec<Result<PongPacket, GossipError>> = Vec::new();
        let mut i: usize = 0;
        while i < relays.len()
            invariant
                self.state == state1,
                self.options == options1,
            decreases relays@.len() - i,
        {
            let relay = &relays[i];
            if !excluded.skip(relay) {
                let indirect_packet = PingPacket {
                    seq,
                    source_node_id: ping_packet.source_node_id.clone(),
                    source_address: ping_packet.source_address.clone(),
                    target_node_id: candidate.node_id.clone(),
                    target_address: Some(candidate.node_address.clone()),
                };
                let attempt = self.transport.ping_unreliable_rpc(
                    &relay.node_address,
                    &indirect_packet,
                    1_000_000_000,
                );
                indirect_results.push(attempt);
            }
            i = i + 1;
        }
        classify_probe(&direct, &indirect_results)
    }
}

} // verus!
