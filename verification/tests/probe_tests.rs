use swim_gossip::errors::CommonError;
use swim_gossip::errors::GossipError;
use swim_gossip::lifecycle::Stateful;
use swim_gossip::options::Options;
use swim_gossip::packet::NodeStats;
use swim_gossip::packet::PingPacket;
use swim_gossip::packet::PongPacket;
use swim_gossip::probe::ProbeOutcome;
use swim_gossip::probe::ProbeTask;
use swim_gossip::probe::Transport;
use swim_gossip::state::State;

/// Direct pings always succeed.
struct AckTransport;

impl Stateful for AckTransport {
    fn start(&mut self) -> Result<(), CommonError> {
        Ok(())
    }

    fn close(&mut self) -> Result<(), CommonError> {
        Ok(())
    }
}

impl Transport for AckTransport {
    fn ping_unreliable_rpc(
        &mut self,
        _target_address: &String,
        ping_packet: &PingPacket,
        _timeout_nanos: u64,
    ) -> Result<PongPacket, GossipError> {
        Ok(PongPacket {
            seq: ping_packet.seq,
        })
    }

    fn ping_reliable_rpc(
        &mut self,
        _target_address: &String,
        ping_packet: &PingPacket,
        _timeout_nanos: u64,
    ) -> Result<PongPacket, GossipError> {
        Ok(PongPacket {
            seq: ping_packet.seq,
        })
    }
}

/// Direct pings time out; indirect (relayed) pings are acked.
struct RelayOnlyTransport;

impl Stateful for RelayOnlyTransport {
    fn start(&mut self) -> Result<(), CommonError> {
        Ok(())
    }

    fn close(&mut self) -> Result<(), CommonError> {
        Ok(())
    }
}

impl Transport for RelayOnlyTransport {
    fn ping_unreliable_rpc(
        &mut self,
        _target_address: &String,
        ping_packet: &PingPacket,
        _timeout_nanos: u64,
    ) -> Result<PongPacket, GossipError> {
        if ping_packet.target_address.is_some() {
            Ok(PongPacket {
                seq: ping_packet.seq,
            })
        } else {
            Err(GossipError::Unknown)
        }
    }

    fn ping_reliable_rpc(
        &mut self,
        target_address: &String,
        ping_packet: &PingPacket,
        timeout_nanos: u64,
    ) -> Result<PongPacket, GossipError> {
        self.ping_unreliable_rpc(target_address, ping_packet, timeout_nanos)
    }
}

/// Every ping times out.
struct DeadTransport;

impl Stateful for DeadTransport {
    fn start(&mut self) -> Result<(), CommonError> {
        Ok(())
    }

    fn close(&mut self) -> Result<(), CommonError> {
        Ok(())
    }
}

impl Transport for DeadTransport {
    fn ping_unreliable_rpc(
        &mut self,
        _target_address: &String,
        _ping_packet: &PingPacket,
        _timeout_nanos: u64,
    ) -> Result<PongPacket, GossipError> {
        Err(GossipError::Unknown)
    }

    fn ping_reliable_rpc(
        &mut self,
        _target_address: &String,
        _ping_packet: &PingPacket,
        _timeout_nanos: u64,
    ) -> Result<PongPacket, GossipError> {
        Err(GossipError::Unknown)
    }
}

fn three_peer_state() -> State {
    let mut state = State::new();
    for (name, addr) in [
        ("peer-1", "10.0.0.1:7946"),
        ("peer-2", "10.0.0.2:7946"),
        ("peer-3", "10.0.0.3:7946"),
    ] {
        state.upsert_node(NodeStats {
            node_id: String::from(name),
            node_address: String::from(addr),
        });
    }
    state
}

fn test_options() -> Options {
    Options::new(
        String::from("self-node"),
        String::from("10.0.0.9:7946"),
        1_000_000_000,
        2,
    )
}

#[test]
fn test_probe_direct_ack() {
    let mut task = ProbeTask::new(test_options(), three_peer_state(), AckTransport);
    assert_eq!(task.run_probe(), ProbeOutcome::DirectAck);
}

#[test]
fn test_probe_escalates_to_indirect_ack() {
    // The direct target always times out; with fan-out 2 over three
    // peers at least one eligible relay answers, so the tick ends
    // without marking the target unreachable.
    let mut task = ProbeTask::new(test_options(), three_peer_state(), RelayOnlyTransport);
    assert_eq!(task.run_probe(), ProbeOutcome::IndirectAck);
}

#[test]
fn test_probe_all_relays_fail_marks_unreachable() {
    let mut task = ProbeTask::new(test_options(), three_peer_state(), DeadTransport);
    assert_eq!(task.run_probe(), ProbeOutcome::Unreachable);
}

#[test]
fn test_probe_skips_tick_without_eligible_peer() {
    let mut task = ProbeTask::new(test_options(), State::new(), AckTransport);
    assert_eq!(task.run_probe(), ProbeOutcome::NoEligiblePeer);
}

#[test]
fn test_probe_ticks_walk_the_group() {
    // Consecutive ticks probe the peers round-robin.
    let mut task = ProbeTask::new(test_options(), three_peer_state(), DeadTransport);
    for _ in 0..3 {
        assert_eq!(task.run_probe(), ProbeOutcome::Unreachable);
    }
}

#[test]
fn test_error_messages() {
    assert_eq!(GossipError::Unknown.message(), "unknown gossip error");
    assert_eq!(CommonError::IO(String::from("bind failed")).message(), "io error");
}
