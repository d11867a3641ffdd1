use std::collections::HashSet;
use swim_gossip::packet::NodeStats;
use swim_gossip::state::State;

#[test]
fn test_next_seq_counts_up() {
    let mut state = State::new();
    assert_eq!(state.next_seq(), 0);
    assert_eq!(state.next_seq(), 1);
    assert_eq!(state.next_seq(), 2);
}

#[test]
fn test_round_robin_next_on_empty_registry() {
    let mut state = State::new();
    assert!(state.round_robin_next().is_none());
    assert!(state.round_robin_next().is_none());
}

#[test]
fn test_round_robin_next_cycles_in_insertion_order() {
    let mut state = State::new();
    for name in ["n1", "n2", "n3"] {
        state.upsert_node(NodeStats {
            node_id: String::from(name),
            node_address: String::from("127.0.0.1:7946"),
        });
    }
    let ids: Vec<String> = (0..4)
        .map(|_| state.round_robin_next().unwrap().node_id)
        .collect();
    assert_eq!(ids, vec!["n1", "n2", "n3", "n1"]);
}

#[test]
fn test_upsert_replaces_entry_under_same_id() {
    let mut state = State::new();
    state.upsert_node(NodeStats {
        node_id: String::from("n1"),
        node_address: String::from("127.0.0.1:7946"),
    });
    state.upsert_node(NodeStats {
        node_id: String::from("n1"),
        node_address: String::from("127.0.0.2:7946"),
    });
    assert_eq!(state.node_count(), 1);
    let node = state.round_robin_next().unwrap();
    assert_eq!(node.node_address, String::from("127.0.0.2:7946"));
}

#[test]
fn test_remove_node_shrinks_population() {
    let mut state = State::new();
    for name in ["n1", "n2"] {
        state.upsert_node(NodeStats {
            node_id: String::from(name),
            node_address: String::from("127.0.0.1:7946"),
        });
    }
    state.remove_node(&String::from("n1"));
    assert_eq!(state.node_count(), 1);
    state.remove_node(&String::from("missing"));
    assert_eq!(state.node_count(), 1);
}

#[test]
fn test_random_nodes_returns_exactly_k_distinct() {
    let mut state = State::new();
    for name in ["n1", "n2", "n3", "n4", "n5", "n6"] {
        state.upsert_node(NodeStats {
            node_id: String::from(name),
            node_address: String::from("127.0.0.1:7946"),
        });
    }
    let picked = state.random_nodes(4);
    assert_eq!(picked.len(), 4);
    let ids: HashSet<String> = picked.into_iter().map(|n| n.node_id).collect();
    assert_eq!(ids.len(), 4);
}

#[test]
fn test_random_nodes_varies_over_trials() {
    let mut state = State::new();
    for name in ["n1", "n2", "n3", "n4", "n5", "n6", "n7", "n8"] {
        state.upsert_node(NodeStats {
            node_id: String::from(name),
            node_address: String::from("127.0.0.1:7946"),
        });
    }
    let first: HashSet<String> = state
        .random_nodes(3)
        .into_iter()
        .map(|n| n.node_id)
        .collect();
    let mut saw_different = false;
    for _ in 0..64 {
        let trial: HashSet<String> = state
            .random_nodes(3)
            .into_iter()
            .map(|n| n.node_id)
            .collect();
        if trial != first {
            saw_different = true;
        }
    }
    assert!(saw_different);
}
