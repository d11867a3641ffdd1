use swim_gossip::packet::NodeStats;
use swim_gossip::probe::ExcludePair;
use swim_gossip::selector::RandomIndexSelector;
use swim_gossip::selector::RoundRobinIndexSelector;
use swim_gossip::selector::RoundRobinSelector;

#[test]
fn test_round_robin_index_selector() {
    let init_size = 10;
    let mut selector = RoundRobinIndexSelector::new(init_size);
    for i in 0..init_size {
        let index = selector.next();
        assert_eq!(i, index);
    }
    let index = selector.next();
    assert_eq!(0, index);
}

#[test]
fn test_random_index_selector() {
    let init_size = 10;
    let mut selector = RandomIndexSelector::new(init_size);
    let selected_indexes_1 = selector.next(5);
    assert_eq!(5, selected_indexes_1.len());
    let selected_indexes_2 = selector.next(5);
    assert_eq!(5, selected_indexes_2.len());
    assert_ne!(selected_indexes_1, selected_indexes_2);
}

#[test]
fn test_random_index_selector_full_population() {
    // Drawing as many indices as the range holds must return every
    // index exactly once; any bias or out-of-range draw would fail here.
    let mut selector = RandomIndexSelector::new(3);
    let picked = selector.next(3);
    assert_eq!(3, picked.len());
    assert!(picked.contains(&0));
    assert!(picked.contains(&1));
    assert!(picked.contains(&2));
}

#[test]
fn test_random_index_selector_varies_over_trials() {
    // Non-degenerate randomness: over many trials the drawn set must
    // not always be the same one.
    let mut selector = RandomIndexSelector::new(10);
    let first = selector.next(3);
    let mut saw_different = false;
    for _ in 0..64 {
        if selector.next(3) != first {
            saw_different = true;
        }
    }
    assert!(saw_different);
}

#[test]
fn test_round_robin_selector_insertion_order() {
    // With nothing filtered, one sweep returns each element exactly
    // once, in insertion order, and the next call wraps to the first.
    let nodes = vec![
        NodeStats {
            node_id: String::from("a"),
            node_address: String::from("10.0.0.1:7946"),
        },
        NodeStats {
            node_id: String::from("b"),
            node_address: String::from("10.0.0.2:7946"),
        },
        NodeStats {
            node_id: String::from("c"),
            node_address: String::from("10.0.0.3:7946"),
        },
    ];
    let mut selector = RoundRobinSelector::new(nodes);
    let keep_all = ExcludePair {
        first_id: String::from("absent-1"),
        second_id: String::from("absent-2"),
    };
    assert_eq!(selector.next(&keep_all), Some(0));
    assert_eq!(selector.next(&keep_all), Some(1));
    assert_eq!(selector.next(&keep_all), Some(2));
    assert_eq!(selector.next(&keep_all), Some(0));
}

#[test]
fn test_round_robin_selector_skips_filtered() {
    let nodes = vec![
        NodeStats {
            node_id: String::from("a"),
            node_address: String::from("10.0.0.1:7946"),
        },
        NodeStats {
            node_id: String::from("b"),
            node_address: String::from("10.0.0.2:7946"),
        },
        NodeStats {
            node_id: String::from("c"),
            node_address: String::from("10.0.0.3:7946"),
        },
    ];
    let mut selector = RoundRobinSelector::new(nodes);
    let skip_two = ExcludePair {
        first_id: String::from("a"),
        second_id: String::from("c"),
    };
    assert_eq!(selector.next(&skip_two), Some(1));
    assert_eq!(selector.next(&skip_two), Some(1));
}

#[test]
fn test_round_robin_selector_all_filtered_returns_none() {
    // Every element filtered: next() must return None instead of
    // sweeping forever.
    let nodes = vec![
        NodeStats {
            node_id: String::from("a"),
            node_address: String::from("10.0.0.1:7946"),
        },
        NodeStats {
            node_id: String::from("b"),
            node_address: String::from("10.0.0.2:7946"),
        },
    ];
    let mut selector = RoundRobinSelector::new(nodes);
    let skip_all = ExcludePair {
        first_id: String::from("a"),
        second_id: String::from("b"),
    };
    assert_eq!(selector.next(&skip_all), None);
    assert_eq!(selector.next(&skip_all), None);
}
