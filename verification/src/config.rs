//! Typed configuration surface, in the library's fixed-point units.
//!
//! Volumes and prices are `PRICE_SCALE`-scaled, percentages and ratios
//! `PCT_SCALE`-scaled, scores and weights `SCORE_SCALE`-scaled.

use vstd::prelude::*;
use crate::types::PCT_SCALE;
use crate::types::SCORE_SCALE;

verus! {

#[derive(Debug, Clone)]
pub struct BinanceConfig {
    pub ws_url: String,
    pub api_url: String,
}

#[derive(Debug, Clone)]
pub struct BybitConfig {
    pub ws_url: String,
    pub api_url: String,
}

/// Hard admission filters a ticker must pass before its symbol is tracked.
#[derive(Debug, Clone, Copy)]
pub struct FilterConfig {
    /// Minimum 24h quote volume, `PRICE_SCALE` fixed point.
    pub min_quote_volume: u64,
    /// Minimum price, `PRICE_SCALE` fixed point.
    pub min_price: u64,
    pub min_trades_24h: u64,
    /// Snapshots older than this many seconds are evicted on rescore.
    pub stale_data_threshold_secs: u64,
}

/// Relative weights of the three sub-scores, `SCORE_SCALE` fixed point.
#[derive(Debug, Clone, Copy)]
pub struct ScoringWeights {
    pub volume_weight: u64,
    pub volatility_weight: u64,
    pub activity_weight: u64,
}

#[derive(Debug, Clone, Copy)]
pub struct ScoringConfig {
    /// `SCORE_SCALE` fixed point.
    pub tier1_threshold: u64,
    /// `SCORE_SCALE` fixed point.
    pub tier2_threshold: u64,
    pub max_tier1_symbols: usize,
    pub rescore_interval_secs: u64,
    pub weights: ScoringWeights,
}

impl ScoringConfig {
    /// The weights together stay within the headroom the weighted sum
    /// needs: their sum times a full sub-score must fit a machine word.
    /// Eighteen million in real terms — far beyond any sensible
    /// configuration, and purely a machine limit.
    pub open spec fn wf(self) -> bool {
        self.weights.volume_weight + self.weights.volatility_weight
            + self.weights.activity_weight <= 18_000_000_000_000
    }
}

/// Thresholds of the pattern detector.  Percentages are `PCT_SCALE`-scaled;
/// `dump_threshold_pct` is negative.
#[derive(Debug, Clone, Copy)]
pub struct DetectionConfig {
    pub pump_threshold_pct: i64,
    pub dump_threshold_pct: i64,
    pub accumulation_range_pct: i64,
    /// Volume-spike ratio floor, `PCT_SCALE`-scaled (3x is `30_000`).
    pub volume_spike_ratio: u64,
    pub breakout_threshold_pct: i64,
    pub window_size_secs: u64,
    pub accumulation_window_secs: u64,
    pub distribution_window_secs: u64,
}

#[derive(Debug, Clone, Copy)]
pub struct PumpConfig {
    pub price_threshold_pct: i64,
    pub min_window_mins: u64,
    pub max_window_mins: u64,
    /// `PCT_SCALE`-scaled multiplier (1.5x is `15_000`).
    pub volume_multiplier: u64,
}

#[derive(Debug, Clone, Copy)]
pub struct DerivativesConfig {
    /// `PCT_SCALE`-scaled.
    pub min_funding_rate: i64,
    /// Fraction of accounts long, `SCORE_SCALE`-scaled.
    pub min_long_ratio: u64,
    pub min_oi_increase_pct: i64,
    pub poll_interval_secs: u64,
}

#[derive(Debug, Clone)]
pub struct TechnicalConfig {
    pub ema_extension: bool,
    pub pivot_proximity: bool,
    pub pivot_timeframe_mins: u64,
    pub emas: Vec<u32>,
}

#[derive(Debug, Clone)]
pub struct TelegramConfig {
    pub bot_token: String,
    pub chat_id: String,
    pub pump_screener_topic_id: Option<String>,
    pub alert_cooldown_secs: u64,
    pub max_alerts_per_minute: usize,
}

#[derive(Debug, Clone, Copy)]
pub struct PerformanceConfig {
    pub ticker_channel_size: usize,
    pub trade_channel_size: usize,
    pub alert_channel_size: usize,
    pub price_window_size: usize,
    pub cvd_history_size: usize,
}

#[derive(Debug, Clone, Copy)]
pub struct WebSocketConfig {
    pub ping_interval_secs: u64,
    pub reconnect_base_delay_secs: u64,
    pub reconnect_max_delay_secs: u64,
    pub target_latency_ms: u64,
}

#[derive(Debug, Clone)]
pub struct Config {
    pub binance: BinanceConfig,
    pub bybit: BybitConfig,
    pub filters: FilterConfig,
    pub scoring: ScoringConfig,
    pub detection: DetectionConfig,
    pub pump: PumpConfig,
    pub derivatives: DerivativesConfig,
    pub technical: TechnicalConfig,
    pub telegram: TelegramConfig,
    pub performance: PerformanceConfig,
    pub websocket: WebSocketConfig,
}

impl Config {
    /// Every condition `validate` enforces.
    pub open spec fn valid(self) -> bool {
        &&& self.telegram.bot_token@ != "YOUR_BOT_TOKEN_HERE"@
        &&& self.telegram.chat_id@ != "YOUR_CHAT_ID_HERE"@
        &&& self.filters.min_quote_volume > 0
        &&& self.scoring.tier1_threshold > self.scoring.tier2_threshold
        &&& self.scoring.max_tier1_symbols > 0
        &&& self.pump.price_threshold_pct > 0
        &&& self.pump.volume_multiplier > PCT_SCALE
        &&& self.derivatives.min_funding_rate >= 0
        &&& self.derivatives.min_long_ratio <= SCORE_SCALE
        &&& self.technical.emas@.len() > 0
    }

    /// Accepts the configuration exactly when every rule of [`Config::valid`]
    /// holds; the message names the first broken rule.
    pub fn validate(&self) -> (r: Result<(), String>)
        ensures
            r is Ok <==> self.valid(),
    {
        if self.telegram.bot_token == "YOUR_BOT_TOKEN_HERE".to_owned() {
            return Err("Please set a valid Telegram bot token in config.toml".to_owned());
        }
        if self.telegram.chat_id == "YOUR_CHAT_ID_HERE".to_owned() {
            return Err("Please set a valid Telegram chat ID in config.toml".to_owned());
        }
        if self.filters.min_quote_volume == 0 {
            return Err("min_quote_volume must be positive".to_owned());
        }
        if self.scoring.tier1_threshold <= self.scoring.tier2_threshold {
            return Err("tier1_threshold must be greater than tier2_threshold".to_owned());
        }
        if self.scoring.max_tier1_symbols == 0 {
            return Err("max_tier1_symbols must be greater than 0".to_owned());
        }
        if self.pump.price_threshold_pct <= 0 {
            return Err("pump price_threshold_pct must be positive".to_owned());
        }
        if self.pump.volume_multiplier <= PCT_SCALE {
            return Err("pump volume_multiplier must be greater than 1.0".to_owned());
        }
        if self.derivatives.min_funding_rate < 0 {
            return Err("derivatives min_funding_rate must be non-negative".to_owned());
        }
        if self.derivatives.min_long_ratio > SCORE_SCALE {
            return Err("derivatives min_long_ratio must be between 0 and 1".to_owned());
        }
        if self.technical.emas.len() == 0 {
            return Err("technical.emas must contain at least one period".to_owned());
        }
        Ok(())
    }
}

} // verus!
