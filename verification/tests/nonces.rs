use bulk_keychain::{current_timestamp_millis, NonceManager, NonceStrategy};

#[test]
fn counter_nonces_are_distinct_and_increasing() {
    let mut manager = NonceManager::new(NonceStrategy::Counter);
    let mut previous: Option<u64> = None;
    let mut seen = std::collections::BTreeSet::new();
    for _ in 0..10_000 {
        let n = manager.next_nonce();
        if let Some(p) = previous {
            assert!(n > p, "counter nonces must strictly increase");
        }
        assert!(seen.insert(n), "counter nonces must never repeat");
        previous = Some(n);
    }
    assert_eq!(seen.len(), 10_000);
}

#[test]
fn counter_starts_at_origin() {
    let mut manager = NonceManager::new(NonceStrategy::Counter);
    assert_eq!(manager.next_nonce(), 0);
    assert_eq!(manager.next_nonce(), 1);
    assert_eq!(manager.next_nonce(), 2);
}

#[test]
fn high_frequency_nonces_strictly_increase() {
    let mut manager = NonceManager::new(NonceStrategy::TimestampWithCounter);
    let mut previous: u64 = 0;
    for _ in 0..10_000 {
        let n = manager.next_nonce();
        assert!(n > previous, "high-frequency nonces must strictly increase");
        previous = n;
    }
}

#[test]
fn timestamp_nonce_tracks_clock() {
    let before = current_timestamp_millis();
    let mut manager = NonceManager::new(NonceStrategy::Timestamp);
    let n = manager.next_nonce();
    let after = current_timestamp_millis();
    assert!(before <= n && n <= after);
}

#[test]
fn current_timestamp_is_plausible() {
    let now = current_timestamp_millis();
    // After 2020-01-01 in milliseconds.
    assert!(now > 1_577_836_800_000);
}

#[test]
fn fresh_managers_are_independent() {
    let mut a = NonceManager::new(NonceStrategy::Counter);
    let mut b = NonceManager::new(NonceStrategy::Counter);
    assert_eq!(a.next_nonce(), 0);
    assert_eq!(a.next_nonce(), 1);
    assert_eq!(b.next_nonce(), 0);
}
