use signal_engine::config::TelegramConfig;
use signal_engine::telegram::{AlertPriorityQueue, TelegramDispatcher};
use signal_engine::types::{Alert, AlertDetails, AlertType};

fn config(cooldown: u64, max_per_minute: usize) -> TelegramConfig {
    TelegramConfig {
        bot_token: "test".to_string(),
        chat_id: "test".to_string(),
        pump_screener_topic_id: None,
        alert_cooldown_secs: cooldown,
        max_alerts_per_minute: max_per_minute,
    }
}

fn alert(alert_type: AlertType, symbol: &str, price: u64, pct: Option<i64>, ts: u64) -> Alert {
    Alert {
        alert_type,
        symbol: symbol.to_string(),
        price,
        details: AlertDetails {
            price_change_pct: pct,
            volume_ratio: None,
            cvd_change: None,
            timeframe: None,
        },
        timestamp: ts,
        exchange: "Binance".to_string(),
    }
}

#[test]
fn test_priority_queue() {
    let mut queue = AlertPriorityQueue::new();

    let pump_alert = alert(
        AlertType::PumpDetected,
        "BTCUSDT",
        50_000 * 100_000_000,
        Some(50_000),
        1000,
    );
    let long_alert = alert(
        AlertType::LongSetupConfirmed,
        "ETHUSDT",
        3_000 * 100_000_000,
        Some(20_000),
        1001,
    );

    queue.push(pump_alert.clone());
    queue.push(long_alert.clone());

    // The long setup should come first (higher priority).
    let first = queue.pop().unwrap();
    assert_eq!(first.alert_type, AlertType::LongSetupConfirmed);

    let second = queue.pop().unwrap();
    assert_eq!(second.alert_type, AlertType::PumpDetected);
}

#[test]
fn test_cooldown() {
    let mut dispatcher = TelegramDispatcher::new(config(300, 10));

    let alert1 = alert(
        AlertType::PumpDetected,
        "BTCUSDT",
        50_000 * 100_000_000,
        Some(50_000),
        1000,
    );

    // The first alert should pass the cooldown check.
    assert!(dispatcher.check_cooldown(&alert1));

    // Simulate a sent alert.
    dispatcher
        .last_alert_times
        .push((alert1.symbol.clone(), alert1.alert_type, alert1.timestamp));

    // A second alert of the same type and symbol within the cooldown fails.
    let alert2 = alert(AlertType::PumpDetected, "BTCUSDT", 50_000 * 100_000_000, Some(50_000), 1200);
    assert!(!dispatcher.check_cooldown(&alert2));

    // After the cooldown period it passes.
    let alert3 = alert(AlertType::PumpDetected, "BTCUSDT", 50_000 * 100_000_000, Some(50_000), 1301);
    assert!(dispatcher.check_cooldown(&alert3));
}

#[test]
fn test_rate_limit() {
    let mut dispatcher = TelegramDispatcher::new(config(300, 3));

    let now = 1_000u64;

    // Three alerts in the last minute.
    for i in 0..3 {
        dispatcher.alerts_this_minute.push(now - 30 + i);
    }

    // The fourth is over the limit.
    assert!(!dispatcher.check_rate_limit(now));

    // Once the entries age out, dispatch is allowed again.
    assert!(dispatcher.check_rate_limit(now + 120));
}

#[test]
fn cooldown_distinct_keys_are_independent() {
    let mut dispatcher = TelegramDispatcher::new(config(300, 10));
    let a = alert(AlertType::PumpDetected, "BTCUSDT", 1, None, 1000);
    dispatcher.record_dispatch(&a);

    // Another type for the same symbol is not in cooldown.
    let b = alert(AlertType::DumpDetected, "BTCUSDT", 1, None, 1010);
    assert!(dispatcher.check_cooldown(&b));
    // Another symbol with the same type is not in cooldown.
    let c = alert(AlertType::PumpDetected, "ETHUSDT", 1, None, 1010);
    assert!(dispatcher.check_cooldown(&c));
    // The same key is.
    let d = alert(AlertType::PumpDetected, "BTCUSDT", 1, None, 1010);
    assert!(!dispatcher.check_cooldown(&d));
}

#[test]
fn rate_limit_prunes_stale_entries() {
    let mut dispatcher = TelegramDispatcher::new(config(300, 3));
    dispatcher.alerts_this_minute.push(100);
    dispatcher.alerts_this_minute.push(500);
    dispatcher.alerts_this_minute.push(990);

    // At t=1000 the first two entries are older than sixty seconds.
    assert!(dispatcher.check_rate_limit(1000));
    assert_eq!(dispatcher.get_stats().alerts_this_minute, 1);
}

#[test]
fn queue_keeps_arrival_order_within_priority() {
    let mut queue = AlertPriorityQueue::new();
    queue.push(alert(AlertType::PumpDetected, "AAAUSDT", 1, None, 1));
    queue.push(alert(AlertType::DumpDetected, "BBBUSDT", 1, None, 2));
    queue.push(alert(AlertType::AccumulationDetected, "CCCUSDT", 1, None, 3));

    assert_eq!(queue.len(), 3);
    assert_eq!(queue.pop().unwrap().symbol, "CCCUSDT");
    assert_eq!(queue.pop().unwrap().symbol, "AAAUSDT");
    assert_eq!(queue.pop().unwrap().symbol, "BBBUSDT");
    assert!(queue.is_empty());
    assert!(queue.pop().is_none());
}
