use signal_engine::scan::{
    average_volume_per_window_from_24h, highest_met_tier, percent_change, MarketTickerScanner,
    TickerAlertsConfig, TickerInfo,
};

const S: u64 = 100_000_000;

fn ticker(symbol: &str, close_time_ms: u64, price: &str, quote_vol_24h: &str) -> TickerInfo {
    TickerInfo {
        symbol: symbol.to_string(),
        price_change: "0".to_string(),
        price_change_percent: "0".to_string(),
        weighted_average_price: "0".to_string(),
        last_price: price.to_string(),
        last_quantity: "0".to_string(),
        open_price: "0".to_string(),
        high_price: "0".to_string(),
        low_price: "0".to_string(),
        total_traded_base_asset_volume: "0".to_string(),
        total_traded_quote_asset_volume: quote_vol_24h.to_string(),
        statistics_open_time: close_time_ms.saturating_sub(86_400_000),
        statistics_close_time: close_time_ms,
        total_number_of_trades: 0,
    }
}

#[test]
fn percent_change_works() {
    assert_eq!(percent_change(100 * S, 110 * S), 100_000);
    assert_eq!(percent_change(100 * S, 90 * S), -100_000);
    assert_eq!(percent_change(0, 10 * S), 0);
}

#[test]
fn triggers_on_price_and_volume_tier() {
    let mut cfg = TickerAlertsConfig::default();
    cfg.min_abs_percent_change = 50_000; // 5%
    cfg.min_quote_volume_in_window = 10_000 * S;
    cfg.volume_multipliers = vec![50_000, 100_000]; // 5x, 10x
    cfg.alert_cooldown_minutes = 0;
    cfg.sample_every_seconds = 1;
    cfg.lookback_minutes = 15;
    cfg.symbol_suffix = "USDT".to_string();

    let mut scanner = MarketTickerScanner::new(cfg);

    let t0 = ticker("ABCUSDT", 1_000_000, "100", "1000000");
    let t1 = ticker("ABCUSDT", 1_000_000 + 15 * 60_000, "110", "1200000");

    assert!(scanner.on_ticker(&t0).is_none());
    let alert = scanner.on_ticker(&t1).expect("should alert");
    assert_eq!(alert.direction, "PUMP");
    assert!(alert.percent_change_window >= 100_000);
    assert!(alert.quote_volume_window >= 200_000 * S);
    assert!(alert.volume_tier == 100_000 || alert.volume_tier == 50_000);
}

#[test]
fn respects_cooldown() {
    let mut cfg = TickerAlertsConfig::default();
    cfg.min_abs_percent_change = 10_000; // 1%
    cfg.min_quote_volume_in_window = S; // 1.0
    cfg.volume_multipliers = vec![10_000]; // 1x
    cfg.alert_cooldown_minutes = 30;
    cfg.sample_every_seconds = 1;
    cfg.lookback_minutes = 15;
    cfg.symbol_suffix = "USDT".to_string();

    let mut scanner = MarketTickerScanner::new(cfg);

    let base = 10_000_000u64;
    let t0 = ticker("XYZUSDT", base, "100", "1000000");
    let t1 = ticker("XYZUSDT", base + 15 * 60_000, "101.5", "1020000");
    let t2 = ticker("XYZUSDT", base + 16 * 60_000, "103", "1020000");

    assert!(scanner.on_ticker(&t0).is_none());
    assert!(scanner.on_ticker(&t1).is_some());
    assert!(scanner.on_ticker(&t2).is_none());
}

#[test]
fn ignores_wrong_suffix_and_bad_numbers() {
    let mut cfg = TickerAlertsConfig::default();
    cfg.symbol_suffix = "USDT".to_string();
    let mut scanner = MarketTickerScanner::new(cfg);

    assert!(scanner.on_ticker(&ticker("ABCEUR", 1_000, "100", "1000")).is_none());
    assert!(scanner.on_ticker(&ticker("ABCUSDT", 1_000, "oops", "1000")).is_none());
    // Neither attempt created any per-symbol state.
    assert_eq!(scanner.per_symbol.len(), 0);
}

#[test]
fn highest_tier_picks_largest_met() {
    assert_eq!(highest_met_tier(&vec![50_000, 100_000], 160_000), Some(100_000));
    assert_eq!(highest_met_tier(&vec![50_000, 100_000], 60_000), Some(50_000));
    assert_eq!(highest_met_tier(&vec![50_000, 100_000], 10_000), None);
    assert_eq!(highest_met_tier(&vec![], 10_000), None);
}

#[test]
fn window_baseline_formula() {
    // 86_400 units over a day is 900 units per 15-minute window.
    assert_eq!(average_volume_per_window_from_24h(86_400 * S, 15), 900 * S);
    assert_eq!(average_volume_per_window_from_24h(0, 15), 0);
    assert_eq!(average_volume_per_window_from_24h(86_400 * S, 0), 0);
}
