use swim_gossip::broadcast::BroadCastManager;
use swim_gossip::policy::BroadCastPolicy;

#[test]
fn test_broadcast_manager_remove_same_key() {
    let policy = BroadCastPolicy::new(3, 3);
    // init manager
    let mut manager = BroadCastManager::new(policy);

    // offer two payloads under one key; the first must be superseded
    let mut first_payload: Vec<u8> = vec![0];
    first_payload.extend_from_slice(b"node-1node-2node-3");
    let mut second_payload: Vec<u8> = vec![1];
    second_payload.extend_from_slice(b"node-1node-2node-3");

    manager.offer(String::from("node_1"), first_payload);
    manager.offer(String::from("node_1"), second_payload.clone());

    let vec = manager.get_broadcast_messages(1024);
    assert_eq!(vec.len(), 1);
    assert_eq!(vec[0].packet, second_payload);
    assert_eq!(vec[0].key, String::from("node_1"));
}

#[test]
fn test_broadcast_manager_get_messages_by_size() {
    let policy = BroadCastPolicy::new(3, 3);
    // init manager
    let mut manager = BroadCastManager::new(policy);

    // two 19-byte payloads: each fits a 30-byte budget, together they
    // exceed it
    let mut first_payload: Vec<u8> = vec![0];
    first_payload.extend_from_slice(b"node-1node-2node-3");
    let mut second_payload: Vec<u8> = vec![1];
    second_payload.extend_from_slice(b"node-1node-2node-3");

    manager.offer(String::from("node_2"), first_payload);
    manager.offer(String::from("node_3"), second_payload);

    assert_eq!(manager.len(), 2);
    let vec = manager.get_broadcast_messages(30);
    assert_eq!(vec.len(), 1);
    assert_eq!(manager.len(), 1);
    let vec = manager.get_broadcast_messages(30);
    assert_eq!(vec.len(), 1);
    assert_eq!(manager.len(), 0);
}

#[test]
fn test_broadcast_manager_drain_keeps_order() {
    let policy = BroadCastPolicy::new(3, 3);
    let mut manager = BroadCastManager::new(policy);
    manager.offer(String::from("k1"), vec![1, 1]);
    manager.offer(String::from("k2"), vec![2, 2]);
    manager.offer(String::from("k3"), vec![3, 3]);
    let vec = manager.get_broadcast_messages(1024);
    assert_eq!(vec.len(), 3);
    assert_eq!(vec[0].key, String::from("k1"));
    assert_eq!(vec[1].key, String::from("k2"));
    assert_eq!(vec[2].key, String::from("k3"));
}

#[test]
fn test_broadcast_manager_holds_entries_at_retransmit_ceiling() {
    // With no peers the policy grants a limit of 0, so nothing may be
    // sent: a drain yields nothing, and the entry stays pending for a
    // later round instead of looping or being lost.
    let policy = BroadCastPolicy::new(0, 3);
    assert_eq!(policy.get_retransmit_limit(), 0);
    let mut manager = BroadCastManager::new(policy);
    manager.offer(String::from("k1"), vec![9, 9, 9]);
    let vec = manager.get_broadcast_messages(1024);
    assert_eq!(vec.len(), 0);
    assert_eq!(manager.len(), 1);
}

#[test]
fn test_broadcast_manager_len_counts_live_entries() {
    let policy = BroadCastPolicy::new(3, 3);
    let mut manager = BroadCastManager::new(policy);
    assert_eq!(manager.len(), 0);
    manager.offer(String::from("k1"), vec![1]);
    manager.offer(String::from("k2"), vec![2]);
    // superseding k1 must not grow the count
    manager.offer(String::from("k1"), vec![3]);
    assert_eq!(manager.len(), 2);
}

#[test]
fn test_broadcast_message_tombstone_flag() {
    let mut message = swim_gossip::broadcast::BroadCastMessage {
        key: String::from("k1"),
        packet: vec![7],
        transmit_count: 0,
        invalid: false,
    };
    message.invalid();
    assert!(message.invalid);
    assert_eq!(message.packet, vec![7]);
    assert_eq!(message.transmit_count, 0);
}

#[test]
fn test_broad_cast_policy() {
    let policy = BroadCastPolicy::new(3, 3);
    let value = policy.get_retransmit_limit();
    assert_eq!(value, 3);
}

#[test]
fn test_broad_cast_policy_log_scaling() {
    // limit = quota * ceil(log10(node_num + 1))
    assert_eq!(BroadCastPolicy::new(0, 3).get_retransmit_limit(), 0);
    assert_eq!(BroadCastPolicy::new(9, 3).get_retransmit_limit(), 3);
    assert_eq!(BroadCastPolicy::new(10, 3).get_retransmit_limit(), 6);
    assert_eq!(BroadCastPolicy::new(99, 3).get_retransmit_limit(), 6);
    assert_eq!(BroadCastPolicy::new(100, 3).get_retransmit_limit(), 9);
    assert_eq!(BroadCastPolicy::new(500, 4).get_retransmit_limit(), 12);
}
