use signal_engine::config::{
    BinanceConfig, BybitConfig, Config, DerivativesConfig, DetectionConfig, FilterConfig,
    PerformanceConfig, PumpConfig, ScoringConfig, ScoringWeights, TechnicalConfig, TelegramConfig,
    WebSocketConfig,
};
use signal_engine::engine::SignalEngine;
use signal_engine::types::{MarketState, SymbolData, TickerData, Tier, TradeData};

const S: u64 = 100_000_000;

fn config() -> Config {
    Config {
        binance: BinanceConfig {
            ws_url: "wss://stream.example".to_string(),
            api_url: "https://api.example".to_string(),
        },
        bybit: BybitConfig {
            ws_url: "wss://stream.example".to_string(),
            api_url: "https://api.example".to_string(),
        },
        filters: FilterConfig {
            min_quote_volume: 1_000_000 * S,
            min_price: S / 100,
            min_trades_24h: 1_000,
            stale_data_threshold_secs: 300,
        },
        scoring: ScoringConfig {
            tier1_threshold: 700_000,
            tier2_threshold: 400_000,
            max_tier1_symbols: 10,
            rescore_interval_secs: 10,
            weights: ScoringWeights {
                volume_weight: 400_000,
                volatility_weight: 400_000,
                activity_weight: 200_000,
            },
        },
        detection: DetectionConfig {
            pump_threshold_pct: 50_000,
            dump_threshold_pct: -50_000,
            accumulation_range_pct: 10_000,
            volume_spike_ratio: 30_000,
            breakout_threshold_pct: 5_000,
            window_size_secs: 600,
            accumulation_window_secs: 600,
            distribution_window_secs: 600,
        },
        pump: PumpConfig {
            price_threshold_pct: 50_000,
            min_window_mins: 5,
            max_window_mins: 60,
            volume_multiplier: 20_000,
        },
        derivatives: DerivativesConfig {
            min_funding_rate: 0,
            min_long_ratio: 500_000,
            min_oi_increase_pct: 0,
            poll_interval_secs: 60,
        },
        technical: TechnicalConfig {
            ema_extension: false,
            pivot_proximity: false,
            pivot_timeframe_mins: 15,
            emas: vec![50, 200],
        },
        telegram: TelegramConfig {
            bot_token: "token".to_string(),
            chat_id: "chat".to_string(),
            pump_screener_topic_id: None,
            alert_cooldown_secs: 300,
            max_alerts_per_minute: 10,
        },
        performance: PerformanceConfig {
            ticker_channel_size: 100,
            trade_channel_size: 1000,
            alert_channel_size: 100,
            price_window_size: 120,
            cvd_history_size: 100,
        },
        websocket: WebSocketConfig {
            ping_interval_secs: 30,
            reconnect_base_delay_secs: 1,
            reconnect_max_delay_secs: 60,
            target_latency_ms: 100,
        },
    }
}

fn ticker(symbol: &str, price: &str, quote_volume: &str, trades: u64) -> TickerData {
    TickerData {
        symbol: symbol.to_string(),
        current_price: price.to_string(),
        price_change: "0".to_string(),
        price_change_percent: "2.5".to_string(),
        volume: "1000".to_string(),
        quote_volume: quote_volume.to_string(),
        open_price: "99".to_string(),
        high_price: "101".to_string(),
        low_price: "98".to_string(),
        number_of_trades: trades,
    }
}

#[test]
fn hard_filters_accept_and_reject() {
    let engine = SignalEngine::new(config());

    // A USDT pair above every minimum passes.
    assert!(engine.passes_hard_filters(&ticker("BTCUSDT", "50000", "2000000", 5000)));
    // The wrong quote asset fails.
    assert!(!engine.passes_hard_filters(&ticker("BTCEUR", "50000", "2000000", 5000)));
    // Too little quote volume fails.
    assert!(!engine.passes_hard_filters(&ticker("BTCUSDT", "50000", "999999", 5000)));
    // Too few trades fail.
    assert!(!engine.passes_hard_filters(&ticker("BTCUSDT", "50000", "2000000", 10)));
    // An unparseable price is a silent rejection, not an error.
    assert!(!engine.passes_hard_filters(&ticker("BTCUSDT", "fifty", "2000000", 5000)));
}

#[test]
fn ticker_creates_and_updates_snapshot() {
    let mut engine = SignalEngine::new(config());
    let batch = vec![ticker("BTCUSDT", "50000", "2000000", 5000)];
    let r = engine.process_ticker(&batch, 1_000);
    assert!(r.is_empty());
    assert_eq!(engine.symbols.len(), 1);
    assert_eq!(engine.symbols[0].symbol, "BTCUSDT");
    assert_eq!(engine.symbols[0].price, 50_000 * S);
    assert_eq!(engine.symbols[0].price_change_pct_24h, 25_000);
    assert_eq!(engine.symbols[0].price_window.len(), 1);

    // A second ticker for the same symbol updates in place.
    let batch2 = vec![ticker("BTCUSDT", "50100", "2100000", 5100)];
    engine.process_ticker(&batch2, 1_010);
    assert_eq!(engine.symbols.len(), 1);
    assert_eq!(engine.symbols[0].price, 50_100 * S);
    assert_eq!(engine.symbols[0].price_window.len(), 2);

    // A rejected ticker changes nothing.
    let batch3 = vec![ticker("DOGEEUR", "1", "2000000", 5000)];
    engine.process_ticker(&batch3, 1_020);
    assert_eq!(engine.symbols.len(), 1);
}

fn trade(symbol: &str, price: &str, quantity: &str, buyer_maker: bool) -> TradeData {
    TradeData {
        symbol: symbol.to_string(),
        price: price.to_string(),
        quantity: quantity.to_string(),
        is_buyer_maker: buyer_maker,
        trade_time: 1_000,
    }
}

#[test]
fn trades_ignored_for_unknown_or_low_tier_symbols() {
    let mut engine = SignalEngine::new(config());

    // Unknown symbol: a no-op.
    assert!(engine.process_trade(&trade("BTCUSDT", "50000", "1", false), 1_000).is_empty());

    // Known but not Tier1: still a no-op.
    let batch = vec![ticker("BTCUSDT", "50000", "2000000", 5000)];
    engine.process_ticker(&batch, 1_000);
    assert!(engine.process_trade(&trade("BTCUSDT", "50000", "1", false), 1_001).is_empty());
    assert_eq!(engine.symbols[0].cvd, 0);
}

#[test]
fn trade_updates_cvd_with_signed_notional() {
    let mut engine = SignalEngine::new(config());
    let batch = vec![ticker("BTCUSDT", "50000", "2000000", 5000)];
    engine.process_ticker(&batch, 1_000);
    engine.symbols[0].tier = Tier::Tier1;

    // The resting order was a sell, so the taker bought: +notional.
    engine.process_trade(&trade("BTCUSDT", "50000", "2", false), 1_001);
    assert_eq!(engine.symbols[0].cvd, (100_000 * S) as i128);
    assert_eq!(engine.symbols[0].cvd_history.len(), 1);

    // The resting order was a buy, so the taker sold: -notional.
    engine.process_trade(&trade("BTCUSDT", "50000", "1", true), 1_002);
    assert_eq!(engine.symbols[0].cvd, (50_000 * S) as i128);
    assert_eq!(engine.symbols[0].cvd_history.len(), 2);
}

#[test]
fn tier1_demotion_clears_cvd_and_resets_state() {
    let mut engine = SignalEngine::new(config());

    // A Tier1 symbol with CVD history whose data now scores below the
    // Tier2 threshold.
    let mut s = SymbolData::new("OLDUSDT".to_string(), 1_000);
    s.tier = Tier::Tier1;
    s.cvd = 123_456;
    s.cvd_history.push_back((999, 123_456));
    s.state = MarketState::PumpDetected;
    s.quote_volume_24h = 0;
    s.price_change_pct_24h = 0;
    s.trades_24h = 0;
    s.last_update_time = 1_000;
    engine.symbols.push(s);

    let tier1 = engine.rescore_symbols(1_001);
    assert!(tier1.is_empty());
    assert_eq!(engine.symbols.len(), 1);
    assert_eq!(engine.symbols[0].tier, Tier::Ignored);
    assert_eq!(engine.symbols[0].cvd, 0);
    assert!(engine.symbols[0].cvd_history.is_empty());
    assert_eq!(engine.symbols[0].state, MarketState::Idle);
}

#[test]
fn rescore_selects_top_symbols_and_evicts_stale() {
    let mut engine = SignalEngine::new(config());

    // A high scorer, updated recently.
    let mut hot = SymbolData::new("HOTUSDT".to_string(), 10_000);
    hot.quote_volume_24h = 1_000_000_000 * S; // volume score 1.0
    hot.price_change_pct_24h = 100_000; // volatility score 1.0
    hot.trades_24h = 10_000; // activity score 1.0
    hot.last_update_time = 10_000;
    engine.symbols.push(hot);

    // A stale snapshot, last updated long ago.
    let mut stale = SymbolData::new("STALEUSDT".to_string(), 1_000);
    stale.last_update_time = 1_000;
    engine.symbols.push(stale);

    let tier1 = engine.rescore_symbols(10_001);
    assert_eq!(tier1, vec!["HOTUSDT".to_string()]);
    assert_eq!(engine.symbols.len(), 1);
    assert_eq!(engine.symbols[0].tier, Tier::Tier1);
    assert_eq!(engine.symbols[0].score, 1_000_000);
}

#[test]
fn stats_count_tiers_and_states() {
    let mut engine = SignalEngine::new(config());
    let mut a = SymbolData::new("AAAUSDT".to_string(), 0);
    a.tier = Tier::Tier1;
    a.state = MarketState::PumpDetected;
    let mut b = SymbolData::new("BBBUSDT".to_string(), 0);
    b.tier = Tier::Tier2;
    let mut c = SymbolData::new("CCCUSDT".to_string(), 0);
    c.tier = Tier::Tier2;
    c.state = MarketState::Accumulation { start: 1, high: 2, low: 1 };
    engine.symbols.push(a);
    engine.symbols.push(b);
    engine.symbols.push(c);

    let stats = engine.get_stats();
    assert_eq!(stats.total_symbols, 3);
    assert_eq!(stats.tier1_symbols, 1);
    assert_eq!(stats.tier2_symbols, 2);
    assert_eq!(stats.state_counts.idle, 1);
    assert_eq!(stats.state_counts.pump_detected, 1);
    assert_eq!(stats.state_counts.accumulation, 1);
}

#[test]
fn config_validation_accepts_and_rejects() {
    let good = config();
    assert!(good.validate().is_ok());

    let mut bad = config();
    bad.telegram.bot_token = "YOUR_BOT_TOKEN_HERE".to_string();
    assert!(bad.validate().is_err());

    let mut bad = config();
    bad.scoring.tier1_threshold = 300_000; // not above tier2
    assert!(bad.validate().is_err());

    let mut bad = config();
    bad.filters.min_quote_volume = 0;
    assert!(bad.validate().is_err());

    let mut bad = config();
    bad.technical.emas = vec![];
    assert!(bad.validate().is_err());
}
