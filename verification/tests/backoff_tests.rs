use swim_gossip::backoff::Backoff;
use swim_gossip::backoff::ExponentialBackoff;
use swim_gossip::backoff::ScaleBackoff;

#[test]
fn test_exponential_backoff() {
    let mut eb = ExponentialBackoff::new(100_000_000, 10_000_000_000);
    assert!(eb.next_backoff() <= 200_000_000);
    assert!(eb.next_backoff() <= 400_000_000);
    assert!(eb.next_backoff() >= 200_000_000);
    assert!(eb.next_backoff() >= 400_000_000);
    for _ in 0..100 {
        let _ = eb.next_backoff();
    }
    assert_eq!(eb.next_backoff(), 10_000_000_000);
    eb.reset();
    assert!(eb.next_backoff() <= 200_000_000);
}

#[test]
fn test_exponential_backoff_exact_schedule() {
    // The first calls return the initial value grown by 1.6 each time:
    // 100ms, 160ms, 256ms, 409.6ms.
    let mut eb = ExponentialBackoff::new(100_000_000, 10_000_000_000);
    assert_eq!(eb.next_backoff(), 100_000_000);
    assert_eq!(eb.next_backoff(), 160_000_000);
    assert_eq!(eb.next_backoff(), 256_000_000);
    assert_eq!(eb.next_backoff(), 409_600_000);
}

#[test]
fn test_exponential_backoff_saturates_at_max() {
    // Once the cap is reached every further call returns exactly the
    // cap; reset restores the first value.
    let mut eb = ExponentialBackoff::new(600_000, 1_000_000);
    assert_eq!(eb.next_backoff(), 600_000);
    assert_eq!(eb.next_backoff(), 960_000);
    assert_eq!(eb.next_backoff(), 1_000_000);
    assert_eq!(eb.next_backoff(), 1_000_000);
    eb.reset();
    assert_eq!(eb.next_backoff(), 600_000);
}

#[test]
fn test_scale_backoff() {
    let mut backoff = ScaleBackoff::new(100_000_000, 3);
    assert_eq!(backoff.next_backoff(), 100_000_000);
    assert_eq!(backoff.next_backoff(), 100_000_000);
    backoff.set_scale(2);
    assert_eq!(backoff.next_backoff(), 200_000_000);
    assert_eq!(backoff.next_backoff(), 200_000_000);
    backoff.set_scale(3);
    assert_eq!(backoff.next_backoff(), 300_000_000);
    assert_eq!(backoff.next_backoff(), 300_000_000);
    backoff.set_scale(4);
    assert_eq!(backoff.next_backoff(), 300_000_000);
    assert_eq!(backoff.next_backoff(), 300_000_000);
    backoff.reset();
    assert_eq!(backoff.next_backoff(), 100_000_000);
    assert_eq!(backoff.next_backoff(), 100_000_000);
}

#[test]
fn test_scale_backoff_clamps_below_one() {
    // The scale lives in [1, max_scale]: pushing 0 stores 1.
    let mut backoff = ScaleBackoff::new(100_000_000, 3);
    backoff.set_scale(0);
    assert_eq!(backoff.next_backoff(), 100_000_000);
    backoff.set_scale(10);
    assert_eq!(backoff.next_backoff(), 300_000_000);
}
