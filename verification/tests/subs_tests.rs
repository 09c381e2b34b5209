use signal_engine::subs::{next_reconnect_delay, SubscriptionSet};

#[test]
fn plan_is_symmetric_difference() {
    let mut set = SubscriptionSet::new();
    set.subscribe("AAAUSDT".to_string());
    set.subscribe("BBBUSDT".to_string());

    let tier1 = vec!["BBBUSDT".to_string(), "CCCUSDT".to_string()];
    let plan = set.plan_update(&tier1);

    assert_eq!(plan.to_stop, vec!["AAAUSDT".to_string()]);
    assert_eq!(plan.to_start, vec!["CCCUSDT".to_string()]);
}

#[test]
fn subscribe_and_unsubscribe_are_idempotent() {
    let mut set = SubscriptionSet::new();
    assert!(set.subscribe("AAAUSDT".to_string()));
    // Subscribing an already-active symbol is a no-op.
    assert!(!set.subscribe("AAAUSDT".to_string()));
    assert_eq!(set.active_count(), 1);

    assert!(set.unsubscribe(&"AAAUSDT".to_string()));
    // Unsubscribing an inactive symbol is a no-op.
    assert!(!set.unsubscribe(&"AAAUSDT".to_string()));
    assert_eq!(set.active_count(), 0);
}

#[test]
fn backoff_doubles_and_caps() {
    assert_eq!(next_reconnect_delay(1, 60), 2);
    assert_eq!(next_reconnect_delay(2, 60), 4);
    assert_eq!(next_reconnect_delay(32, 60), 60);
    assert_eq!(next_reconnect_delay(60, 60), 60);
    assert_eq!(next_reconnect_delay(0, 60), 0);
}
