use signal_engine::config::DetectionConfig;
use signal_engine::detection::Detector;
use signal_engine::types::{AlertType, MarketState, SymbolData};

const S: u64 = 100_000_000; // PRICE_SCALE

fn detection_config() -> DetectionConfig {
    DetectionConfig {
        pump_threshold_pct: 50_000,      // 5%
        dump_threshold_pct: -50_000,     // -5%
        accumulation_range_pct: 10_000,  // 1%
        volume_spike_ratio: 30_000,      // 3x
        breakout_threshold_pct: 5_000,   // 0.5%
        window_size_secs: 600,
        accumulation_window_secs: 600,
        distribution_window_secs: 600,
    }
}

/// Ten price samples over ten minutes, linearly from `from` to `to`, with a
/// constant per-sample volume and a 24h quote volume that makes the window
/// volume ratio exactly `avg * 864_000_000 / qv24`.
fn rising_symbol(from: u64, to: u64, now: u64, volume_each: u64, qv24: u64) -> SymbolData {
    let mut s = SymbolData::new("TESTUSDT".to_string(), now);
    for i in 0..10u64 {
        let t = now - 600 + i * 60;
        let price = from + (to - from) * i / 9;
        s.price_window.push_back((t, price));
        s.volume_window.push_back((t, volume_each));
    }
    s.price = to;
    s.quote_volume_24h = qv24;
    s
}

#[test]
fn pump_detected_on_five_percent_rise_with_volume() {
    let detector = Detector::new(detection_config());
    let now = 10_000u64;

    // 5% rise over ten minutes; average volume 3e8 against a 24h quote
    // volume of 86_400 units gives a 3.0x ratio; the price is the window
    // high.
    let mut s = rising_symbol(100 * S, 105 * S, now, 3 * S, 86_400 * S);
    let alerts = detector.detect(&mut s, now);

    assert_eq!(alerts.len(), 1);
    let a = &alerts[0];
    assert_eq!(a.alert_type, AlertType::PumpDetected);
    assert!(a.details.price_change_pct.unwrap() >= 50_000);
    assert!(a.details.volume_ratio.unwrap() >= 30_000);
    assert_eq!(s.state, MarketState::PumpDetected);
}

#[test]
fn no_alert_on_two_percent_rise() {
    let detector = Detector::new(detection_config());
    let now = 10_000u64;

    // The same symbol with only a 2% rise produces no alert.
    let mut s = rising_symbol(100 * S, 102 * S, now, 3 * S, 86_400 * S);
    let alerts = detector.detect(&mut s, now);

    assert!(alerts.is_empty());
    assert_eq!(s.state, MarketState::Idle);
}

#[test]
fn no_pump_with_too_few_samples() {
    let detector = Detector::new(detection_config());
    let now = 10_000u64;

    let mut s = SymbolData::new("TESTUSDT".to_string(), now);
    for i in 0..5u64 {
        s.price_window.push_back((now - 300 + i * 60, (100 + i) * S));
        s.volume_window.push_back((now - 300 + i * 60, 3 * S));
    }
    s.price = 105 * S;
    s.quote_volume_24h = 86_400 * S;

    assert!(detector.detect(&mut s, now).is_empty());
}

#[test]
fn dump_detected_on_five_percent_fall() {
    let detector = Detector::new(detection_config());
    let now = 10_000u64;

    let mut s = rising_symbol(106 * S, 106 * S, now, 3 * S, 86_400 * S);
    // Rewrite the window as a falling sequence: 106 down to 100 is a 5.6%
    // drop.
    s.price_window.clear();
    for i in 0..10u64 {
        let t = now - 600 + i * 60;
        let price = 106 * S - 6 * S * i / 9;
        s.price_window.push_back((t, price));
    }
    s.price = 100 * S;

    let alerts = detector.detect(&mut s, now);
    assert_eq!(alerts.len(), 1);
    assert_eq!(alerts[0].alert_type, AlertType::DumpDetected);
    assert_eq!(s.state, MarketState::DumpDetected);
}

#[test]
fn accumulation_on_flat_price_with_rising_cvd() {
    let detector = Detector::new(detection_config());
    let now = 10_000u64;

    let mut s = SymbolData::new("TESTUSDT".to_string(), now);
    // Twenty samples in a tight 0.5% band, flat low then back up: the
    // current price is neither a new low nor 5% above the start.
    for i in 0..20u64 {
        let t = now - 570 + i * 30;
        let price = 100 * S + (i % 3) * S / 10;
        s.price_window.push_back((t, price));
        s.volume_window.push_back((t, 2 * S)); // 2.0x ratio >= 1.5x
    }
    s.price = 100 * S + S / 5;
    s.quote_volume_24h = 86_400 * S;
    // Rising CVD.
    for i in 0..10u64 {
        let t = now - 570 + i * 60;
        s.cvd_history.push_back((t, (i as i128) * 1_000_000));
    }
    s.cvd = 9_000_000;

    let alerts = detector.detect(&mut s, now);
    assert_eq!(alerts.len(), 1);
    assert_eq!(alerts[0].alert_type, AlertType::AccumulationDetected);
    match s.state {
        MarketState::Accumulation { start, high, low } => {
            assert_eq!(start, now);
            assert_eq!(high, s.price);
            assert_eq!(low, s.price);
        }
        other => panic!("expected accumulation, got {:?}", other),
    }
}

#[test]
fn breakout_state_reverts_after_timeout() {
    let detector = Detector::new(detection_config());
    let now = 10_000u64;

    let mut s = SymbolData::new("TESTUSDT".to_string(), now);
    s.state = MarketState::BreakoutLong { start: now - 301 };
    s.cvd_history.push_back((now - 10, 1));

    let alerts = detector.detect(&mut s, now);
    assert!(alerts.is_empty());
    assert_eq!(s.state, MarketState::Idle);

    // Within the five minutes the state is kept.
    let mut s2 = SymbolData::new("TESTUSDT".to_string(), now);
    s2.state = MarketState::BreakoutLong { start: now - 100 };
    s2.cvd_history.push_back((now - 10, 1));
    detector.detect(&mut s2, now);
    assert_eq!(s2.state, MarketState::BreakoutLong { start: now - 100 });
}

/// A symbol sitting in a range state with a fresh volume spike and CVD data
/// in the last thirty seconds.
fn ranging_symbol(now: u64, state: MarketState, cvd_rising: bool) -> SymbolData {
    let mut s = SymbolData::new("TESTUSDT".to_string(), now);
    // Too few price samples for the momentum phase to fire.
    s.price_window.push_back((now - 60, 100 * S));
    s.price_window.push_back((now - 10, 100 * S));
    // A strong volume spike within the last thirty seconds.
    s.volume_window.push_back((now - 20, 10 * S));
    s.volume_window.push_back((now - 5, 10 * S));
    s.quote_volume_24h = 86_400 * S;
    // CVD rising or falling within the last thirty seconds.
    if cvd_rising {
        s.cvd_history.push_back((now - 20, 1_000));
        s.cvd_history.push_back((now - 5, 2_000));
    } else {
        s.cvd_history.push_back((now - 20, 2_000));
        s.cvd_history.push_back((now - 5, 1_000));
    }
    s.state = state;
    s
}

#[test]
fn breakout_fires_and_confirms_long_setup() {
    // The captured high is extended with the current price before the
    // breakout check, so the price clause can only hold at a zero
    // threshold: the breakout then triggers on any touch of the range top.
    let mut cfg = detection_config();
    cfg.breakout_threshold_pct = 0;
    let detector = Detector::new(cfg);
    let now = 10_000u64;

    let mut s = ranging_symbol(
        now,
        MarketState::Accumulation { start: now - 120, high: 100 * S, low: 99 * S },
        true,
    );
    s.price = 101 * S; // above the captured high

    let alerts = detector.detect(&mut s, now);
    assert_eq!(alerts.len(), 1);
    let a = &alerts[0];
    assert_eq!(a.alert_type, AlertType::LongSetupConfirmed);
    assert_eq!(a.details.price_change_pct, Some(0)); // vs the extended high
    assert_eq!(a.details.timeframe.as_deref(), Some("breakout"));
    assert_eq!(s.state, MarketState::BreakoutLong { start: now - 120 });
}

#[test]
fn breakdown_fires_and_confirms_short_setup() {
    let mut cfg = detection_config();
    cfg.breakout_threshold_pct = 0;
    let detector = Detector::new(cfg);
    let now = 10_000u64;

    let mut s = ranging_symbol(
        now,
        MarketState::Distribution { start: now - 120, high: 102 * S, low: 100 * S },
        false,
    );
    s.price = 99 * S; // below the captured low

    let alerts = detector.detect(&mut s, now);
    assert_eq!(alerts.len(), 1);
    let a = &alerts[0];
    assert_eq!(a.alert_type, AlertType::ShortSetupConfirmed);
    assert_eq!(a.details.timeframe.as_deref(), Some("breakdown"));
    assert_eq!(s.state, MarketState::BreakdownShort { start: now - 120 });
}

#[test]
fn breakout_respects_positive_threshold_scale() {
    // With a 0.5% threshold, the extended high already includes the current
    // price, so even a 1% move above the old range top stays below
    // high * 1.005 and only extends the range.
    let detector = Detector::new(detection_config()); // 0.5% threshold
    let now = 10_000u64;

    let mut s = ranging_symbol(
        now,
        MarketState::Accumulation { start: now - 120, high: 100 * S, low: 99 * S },
        true,
    );
    s.price = 101 * S;

    let alerts = detector.detect(&mut s, now);
    assert!(alerts.is_empty());
    assert_eq!(
        s.state,
        MarketState::Accumulation { start: now - 120, high: 101 * S, low: 99 * S }
    );
}
