//! Data model: symbol snapshots, market states, alerts and raw feed records.

use vstd::prelude::*;
use std::collections::VecDeque;
use std::time::SystemTime;
use std::time::UNIX_EPOCH;

verus! {

/// Seconds since the Unix epoch.
pub type Timestamp = u64;

/// Fixed-point scale for prices, quantities and volumes: eight decimal places.
pub const PRICE_SCALE: u64 = 100_000_000;

/// Fixed-point scale for percentages: four decimal places (5% is `50_000`).
pub const PCT_SCALE: u64 = 10_000;

/// Fixed-point scale for scores and weights: a score of 1.0 is `1_000_000`.
pub const SCORE_SCALE: u64 = 1_000_000;

/// Three-level classification of symbols by score.
#[derive(Debug, Clone, Copy, PartialEq, Eq, Structural)]
pub enum Tier {
    Tier1,
    Tier2,
    Ignored,
}

/// Pattern-detection state of one symbol.  Each variant carries exactly the
/// fields that are meaningful while the symbol is in that state: the ranging
/// states track when the range began and its running high and low
/// (`PRICE_SCALE` fixed point); the breakout states keep the time the range
/// began, so the five-minute auto-revert can be measured against it.
#[derive(Debug, Clone, Copy, PartialEq, Eq, Structural)]
pub enum MarketState {
    Idle,
    Accumulation { start: Timestamp, high: u64, low: u64 },
    BreakoutLong { start: Timestamp },
    Distribution { start: Timestamp, high: u64, low: u64 },
    BreakdownShort { start: Timestamp },
    PumpDetected,
    DumpDetected,
}

/// The kind of pattern an alert reports.
#[derive(Debug, Clone, Copy, PartialEq, Eq, Hash, Structural)]
pub enum AlertType {
    PumpDetected,
    DumpDetected,
    AccumulationDetected,
    DistributionDetected,
    LongSetupConfirmed,
    ShortSetupConfirmed,
}

/// Optional context attached to an alert.  `price_change_pct` and
/// `volume_ratio` are `PCT_SCALE`-scaled; `cvd_change` is `PRICE_SCALE`-scaled
/// notional.
#[derive(Debug, Clone)]
pub struct AlertDetails {
    pub price_change_pct: Option<i64>,
    pub volume_ratio: Option<u64>,
    pub cvd_change: Option<i128>,
    pub timeframe: Option<String>,
}

/// One detected pattern, ready for dispatch.
#[derive(Debug, Clone)]
pub struct Alert {
    pub alert_type: AlertType,
    pub symbol: String,
    /// Current price, `PRICE_SCALE` fixed point.
    pub price: u64,
    pub details: AlertDetails,
    pub timestamp: Timestamp,
    pub exchange: String,
}

/// Everything the engine tracks about one symbol.
#[derive(Debug, Clone)]
pub struct SymbolData {
    pub symbol: String,

    // Ticker-derived fields, overwritten on every accepted ticker.
    /// `PRICE_SCALE` fixed point.
    pub price: u64,
    /// 24h change, `PCT_SCALE` fixed point, may be negative.
    pub price_change_pct_24h: i64,
    /// Base-asset volume, `PRICE_SCALE` fixed point.
    pub volume_24h: u64,
    /// Quote-asset volume, `PRICE_SCALE` fixed point.
    pub quote_volume_24h: u64,
    pub trades_24h: u64,
    pub high_24h: u64,
    pub low_24h: u64,
    pub open_24h: u64,

    // Derived on every rescore.
    /// `SCORE_SCALE` fixed point, always within `[0, SCORE_SCALE]`.
    pub score: u64,
    pub tier: Tier,

    // Cumulative volume delta, tracked for Tier1 symbols only.
    /// Signed running sum of trade notional, `PRICE_SCALE` fixed point.
    pub cvd: i128,
    pub cvd_history: VecDeque<(Timestamp, i128)>,

    // Bounded sliding windows, oldest first, times non-decreasing.
    pub price_window: VecDeque<(Timestamp, u64)>,
    pub volume_window: VecDeque<(Timestamp, u64)>,

    pub state: MarketState,
    pub last_alert_time: Option<Timestamp>,
    pub last_update_time: Timestamp,
}

impl SymbolData {
    /// Window entries in chronological order and within the given capacity.
    pub open spec fn windows_wf(self, cap: int) -> bool {
        &&& self.price_window@.len() <= cap
        &&& self.volume_window@.len() <= cap
        &&& forall|i: int, j: int|
            0 <= i <= j < self.price_window@.len() ==> self.price_window@[i].0
                <= self.price_window@[j].0
        &&& forall|i: int, j: int|
            0 <= i <= j < self.volume_window@.len() ==> self.volume_window@[i].0
                <= self.volume_window@[j].0
    }

    /// CVD history in chronological order and within capacity; CVD data
    /// exists only while the symbol is Tier1.
    pub open spec fn cvd_wf(self, cap: int) -> bool {
        &&& self.cvd_history@.len() <= cap
        &&& forall|i: int, j: int|
            0 <= i <= j < self.cvd_history@.len() ==> self.cvd_history@[i].0
                <= self.cvd_history@[j].0
        &&& self.tier != Tier::Tier1 ==> self.cvd == 0 && self.cvd_history@.len() == 0
    }

    /// A fresh snapshot: everything zeroed, `Ignored`, `Idle`, timestamped.
    pub fn new(symbol: String, now: Timestamp) -> (s: SymbolData)
        ensures
            s.symbol@ == symbol@,
            s.price == 0,
            s.price_change_pct_24h == 0,
            s.volume_24h == 0,
            s.quote_volume_24h == 0,
            s.trades_24h == 0,
            s.high_24h == 0,
            s.low_24h == 0,
            s.open_24h == 0,
            s.score == 0,
            s.tier == Tier::Ignored,
            s.cvd == 0,
            s.cvd_history@.len() == 0,
            s.price_window@.len() == 0,
            s.volume_window@.len() == 0,
            s.state == MarketState::Idle,
            s.last_alert_time is None,
            s.last_update_time == now,
            forall|cap: int| cap >= 0 ==> s.windows_wf(cap) && s.cvd_wf(cap),
    {
        SymbolData {
            symbol,
            price: 0,
            price_change_pct_24h: 0,
            volume_24h: 0,
            quote_volume_24h: 0,
            trades_24h: 0,
            high_24h: 0,
            low_24h: 0,
            open_24h: 0,
            score: 0,
            tier: Tier::Ignored,
            cvd: 0,
            cvd_history: VecDeque::new(),
            price_window: VecDeque::new(),
            volume_window: VecDeque::new(),
            state: MarketState::Idle,
            last_alert_time: None,
            last_update_time: now,
        }
    }
}

/// One entry of the all-market ticker feed.  Numeric fields arrive as decimal
/// strings and are parsed or rejected by the engine's hard filters.
#[derive(Debug, Clone)]
pub struct TickerData {
    pub symbol: String,
    pub current_price: String,
    pub price_change: String,
    pub price_change_percent: String,
    pub volume: String,
    pub quote_volume: String,
    pub open_price: String,
    pub high_price: String,
    pub low_price: String,
    pub number_of_trades: u64,
}

/// One entry of a per-symbol trade feed.
#[derive(Debug, Clone)]
pub struct TradeData {
    pub symbol: String,
    pub price: String,
    pub quantity: String,
    pub is_buyer_maker: bool,
    pub trade_time: u64,
}

/// A parsed inbound stream message.
#[derive(Debug, Clone)]
pub enum StreamMessage {
    Ticker(Vec<TickerData>),
    Trade(TradeData),
}

/// Relies on `std::time::SystemTime::now`: seconds since the Unix epoch,
/// or zero should the clock read before it.  The result depends on the wall
/// clock, so nothing is promised of it.
#[verifier::external_body]
pub fn current_timestamp() -> Timestamp {
    SystemTime::now().duration_since(UNIX_EPOCH).map(|d| d.as_secs()).unwrap_or(0)
}

} // verus!
