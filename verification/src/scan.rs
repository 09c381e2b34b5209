//! A lightweight all-market pump/dump scanner over rolling ticker
//! statistics.
//!
//! It keeps a tiny downsampled window of (price, rolling 24h quote volume)
//! per symbol and alerts when the price moved enough over the lookback and
//! the estimated window volume cleared a configured multiplier tier.  The
//! window volume is estimated as the delta of the rolling 24h quote volume,
//! an approximation in which spikes still stand out.

use vstd::prelude::*;
use crate::detection::clamp_u64;
use crate::detection::spec_pct_change;
use crate::numeric::parse_fixed_u64;
use crate::numeric::parse_ok_u64;
use crate::numeric::dec_val;
use crate::numeric::sat_add;
use crate::numeric::sat_add_u64;
use crate::numeric::sat_mul;
use crate::numeric::sat_mul_u64;
use crate::numeric::sat_sub;
use crate::numeric::sat_sub_u64;
use crate::detection::pct_change_fp;
use crate::types::PCT_SCALE;
use std::collections::VecDeque;
use std::ops::Index;

verus! {

/// One entry of the rolling 24h ticker stream, numeric fields as decimal
/// strings.
#[derive(Debug, Clone)]
pub struct TickerInfo {
    pub symbol: String,
    pub price_change: String,
    pub price_change_percent: String,
    pub weighted_average_price: String,
    pub last_price: String,
    pub last_quantity: String,
    pub open_price: String,
    pub high_price: String,
    pub low_price: String,
    pub total_traded_base_asset_volume: String,
    pub total_traded_quote_asset_volume: String,
    pub statistics_open_time: u64,
    pub statistics_close_time: u64,
    pub total_number_of_trades: u64,
}

/// Funding information from a derivatives endpoint, as decimal strings.
#[derive(Debug, Clone)]
pub struct FundingRateInfo {
    pub funding_rate: String,
    pub average_funding_rate: String,
}

/// Scanner thresholds: percentages `PCT_SCALE`-scaled, volumes
/// `PRICE_SCALE`-scaled.
#[derive(Debug, Clone)]
pub struct TickerAlertsConfig {
    pub enabled: bool,
    pub lookback_minutes: u64,
    pub min_abs_percent_change: u64,
    pub volume_multipliers: Vec<u64>,
    pub min_quote_volume_in_window: u64,
    pub alert_cooldown_minutes: u64,
    pub sample_every_seconds: u64,
    pub channel_capacity: usize,
    pub symbol_suffix: String,
}

impl Default for TickerAlertsConfig {
    /// Fifteen-minute lookback, five percent move, five and ten times
    /// volume tiers, fifty thousand quote-volume floor, thirty-minute
    /// cooldown, thirty-second sampling, `USDT` pairs.
    fn default() -> (c: TickerAlertsConfig)
        ensures
            c.enabled == true,
            c.lookback_minutes == 15,
            c.min_abs_percent_change == 50_000,
            c.volume_multipliers@ == seq![50_000u64, 100_000u64],
            c.min_quote_volume_in_window == 5_000_000_000_000,
            c.alert_cooldown_minutes == 30,
            c.sample_every_seconds == 30,
            c.channel_capacity == 8,
            c.symbol_suffix@ == "USDT"@,
    {
        let mut multipliers: Vec<u64> = Vec::new();
        multipliers.push(50_000);
        multipliers.push(100_000);
        proof {
            assert(multipliers@ =~= seq![50_000u64, 100_000u64]);
        }
        TickerAlertsConfig {
            enabled: true,
            lookback_minutes: 15,
            min_abs_percent_change: 50_000,
            volume_multipliers: multipliers,
            min_quote_volume_in_window: 5_000_000_000_000,
            alert_cooldown_minutes: 30,
            sample_every_seconds: 30,
            channel_capacity: 8,
            symbol_suffix: "USDT".to_owned(),
        }
    }
}

#[derive(Debug, Clone)]
pub struct TelegramConfig {
    pub bot_token: String,
    pub chat_id: String,
    pub thread_id: Option<i32>,
}

#[derive(Debug, Clone)]
pub struct CoinglassConfig {
    pub login: String,
    pub password: String,
}

/// One downsampled observation.
#[derive(Debug, Clone, Copy, PartialEq, Eq, Structural)]
pub struct Sample {
    pub time_ms: u64,
    /// `PRICE_SCALE` fixed point.
    pub last_price: u64,
    /// `PRICE_SCALE` fixed point.
    pub quote_volume_24h: u64,
}

/// Per-symbol scanner state.
#[derive(Debug)]
pub struct ScanEntry {
    pub symbol: String,
    pub samples: VecDeque<Sample>,
    pub last_alert_time_ms: Option<u64>,
}

/// An alert candidate: the window's move and volume context.
#[derive(Debug, Clone)]
pub struct MarketTickerAlertCandidate {
    pub symbol: String,
    pub direction: String,
    pub window_minutes: u64,
    /// `PCT_SCALE` fixed point, signed.
    pub percent_change_window: i64,
    /// `PRICE_SCALE` fixed point.
    pub price_now: u64,
    /// `PRICE_SCALE` fixed point.
    pub quote_volume_window: u64,
    /// `PRICE_SCALE` fixed point.
    pub quote_volume_24h: u64,
    /// `PCT_SCALE` fixed point.
    pub volume_multiplier: u64,
    /// `PCT_SCALE` fixed point.
    pub volume_tier: u64,
}

/// `s` ends with `suffix`.
pub open spec fn has_suffix(s: Seq<char>, suffix: Seq<char>) -> bool {
    s.len() >= suffix.len() && forall|i: int|
        0 <= i < suffix.len() ==> s[s.len() - suffix.len() + i] == #[trigger] suffix[i]
}

/// Whether the string ends with the given suffix.
pub fn str_ends_with(s: &str, suffix: &str) -> (r: bool)
    ensures
        r == has_suffix(s@, suffix@),
{
    let n = s.unicode_len();
    let m = suffix.unicode_len();
    if n < m {
        return false;
    }
    let mut i: usize = 0;
    while i < m
        invariant
            0 <= i <= m == suffix@.len(),
            m <= n == s@.len(),
            forall|j: int| 0 <= j < i ==> s@[n - m + j] == #[trigger] suffix@[j],
        decreases m - i,
    {
        if s.get_char(n - m + i) != suffix.get_char(i) {
            return false;
        }
        i = i + 1;
    }
    true
}

/// Replaces the newest sample when it is within the sampling interval,
/// otherwise appends.
pub open spec fn spec_upsert(samples: Seq<Sample>, s: Sample, every_ms: int) -> Seq<Sample> {
    if samples.len() > 0 && sat_sub(s.time_ms as int, samples.last().time_ms as int) < every_ms {
        samples.update(samples.len() - 1, s)
    } else {
        samples.push(s)
    }
}

/// Drops samples older than the retention from the front.
pub open spec fn spec_prune(samples: Seq<Sample>, now_ms: int, retention_ms: int) -> Seq<Sample>
    decreases samples.len(),
{
    if samples.len() > 0 && sat_sub(now_ms, samples[0].time_ms as int) > retention_ms {
        spec_prune(samples.drop_first(), now_ms, retention_ms)
    } else {
        samples
    }
}

/// The newest sample at or before the target time, scanning forward and
/// stopping at the first newer one.
pub open spec fn spec_anchor(samples: Seq<Sample>, target: int) -> Option<Sample>
    decreases samples.len(),
{
    if samples.len() == 0 {
        None
    } else if samples[0].time_ms > target {
        None
    } else {
        match spec_anchor(samples.drop_first(), target) {
            Some(x) => Some(x),
            None => Some(samples[0]),
        }
    }
}

/// The largest configured tier the multiplier meets, if any.
pub open spec fn spec_highest_tier(tiers: Seq<u64>, value: int) -> Option<u64>
    decreases tiers.len(),
{
    if tiers.len() == 0 {
        None
    } else {
        let rest = spec_highest_tier(tiers.drop_last(), value);
        if value >= tiers.last() {
            match rest {
                Some(b) => if tiers.last() > b {
                    Some(tiers.last())
                } else {
                    Some(b)
                },
                None => Some(tiers.last()),
            }
        } else {
            rest
        }
    }
}

/// Per-window volume baseline derived from the rolling 24h quote volume:
/// the 24h volume split over the day's lookback windows.
pub open spec fn spec_window_baseline(qv24: int, window_minutes: int) -> int {
    if qv24 <= 0 || window_minutes <= 0 {
        0
    } else {
        (qv24 * window_minutes) / 1440
    }
}

/// Window volume over baseline, `PCT_SCALE` fixed point, saturating.
pub open spec fn spec_window_multiplier(qvol_window: int, baseline: int) -> int {
    if baseline <= 0 {
        0
    } else {
        clamp_u64((qvol_window * PCT_SCALE) / baseline)
    }
}

/// The absolute value of a clamped percent change.
pub open spec fn abs_pct(p: int) -> int {
    if p < 0 {
        -p
    } else {
        p
    }
}

/// The index of the scanner entry for this symbol, or the length.
pub open spec fn first_entry(t: Seq<ScanEntry>, sym: Seq<char>) -> int
    decreases t.len(),
{
    if t.len() == 0 {
        0
    } else if t[0].symbol@ == sym {
        0
    } else {
        1 + first_entry(t.drop_first(), sym)
    }
}

proof fn lemma_first_entry_is(t: Seq<ScanEntry>, sym: Seq<char>, i: int)
    requires
        0 <= i <= t.len(),
        forall|j: int| 0 <= j < i ==> (#[trigger] t[j].symbol)@ != sym,
        i < t.len() ==> t[i].symbol@ == sym,
    ensures
        first_entry(t, sym) == i,
    decreases i,
{
    if t.len() == 0 {
    } else if i == 0 {
    } else {
        lemma_first_entry_is(t.drop_first(), sym, i - 1);
    }
}

/// Index of the entry for this symbol, or the length if there is none.
fn find_entry(t: &Vec<ScanEntry>, sym: &String) -> (r: usize)
    ensures
        r <= t@.len(),
        r < t@.len() ==> t@[r as int].symbol@ == sym@,
        r == first_entry(t@, sym@),
{
    let n = t.len();
    let mut i: usize = 0;
    while i < n
        invariant
            0 <= i <= n == t@.len(),
            forall|j: int| 0 <= j < i ==> (#[trigger] t@[j].symbol)@ != sym@,
        decreases n - i,
    {
        if t[i].symbol == *sym {
            proof {
                lemma_first_entry_is(t@, sym@, i as int);
            }
            return i;
        }
        i = i + 1;
    }
    proof {
        lemma_first_entry_is(t@, sym@, n as int);
    }
    n
}

/// The retention horizon: the lookback plus two sampling intervals, all
/// saturating.
pub open spec fn spec_retention(cfg: TickerAlertsConfig) -> int {
    sat_add(
        sat_mul(cfg.lookback_minutes as int, 60_000),
        sat_mul(spec_every(cfg), 2),
    )
}

/// The effective sampling interval in milliseconds, at least one.
pub open spec fn spec_every(cfg: TickerAlertsConfig) -> int {
    let v = sat_mul(cfg.sample_every_seconds as int, 1_000);
    if v >= 1 {
        v
    } else {
        1
    }
}

/// Whether the pruned window and state produce an alert, given the parsed
/// price and volume.
pub open spec fn spec_fires(
    samples: Seq<Sample>,
    last_alert: Option<u64>,
    cfg: TickerAlertsConfig,
    now_ms: int,
    price: u64,
    qv24: u64,
) -> bool {
    let target = sat_sub(now_ms, sat_mul(cfg.lookback_minutes as int, 60_000));
    match spec_anchor(samples, target) {
        None => false,
        Some(anchor) => {
            let cooldown_ms = sat_mul(cfg.alert_cooldown_minutes as int, 60_000);
            let pct = spec_pct_change(anchor.last_price as int, price as int);
            let qvol = sat_sub(qv24 as int, anchor.quote_volume_24h as int);
            let baseline = spec_window_baseline(qv24 as int, cfg.lookback_minutes as int);
            let mult = spec_window_multiplier(qvol, baseline);
            &&& !(cooldown_ms > 0 && last_alert is Some && sat_sub(
                now_ms,
                last_alert->Some_0 as int,
            ) < cooldown_ms)
            &&& abs_pct(pct) >= cfg.min_abs_percent_change
            &&& qvol >= cfg.min_quote_volume_in_window
            &&& spec_highest_tier(cfg.volume_multipliers@, mult) is Some
        },
    }
}

/// The candidate's exact fields when the scanner fires.
pub open spec fn candidate_ok(
    c: MarketTickerAlertCandidate,
    samples: Seq<Sample>,
    cfg: TickerAlertsConfig,
    sym: Seq<char>,
    now_ms: int,
    price: u64,
    qv24: u64,
) -> bool {
    let target = sat_sub(now_ms, sat_mul(cfg.lookback_minutes as int, 60_000));
    match spec_anchor(samples, target) {
        None => false,
        Some(anchor) => {
            let pct = spec_pct_change(anchor.last_price as int, price as int);
            let qvol = sat_sub(qv24 as int, anchor.quote_volume_24h as int);
            let baseline = spec_window_baseline(qv24 as int, cfg.lookback_minutes as int);
            let mult = spec_window_multiplier(qvol, baseline);
            &&& c.symbol@ == sym
            &&& (if pct >= 0 {
                c.direction@ == "PUMP"@
            } else {
                c.direction@ == "DUMP"@
            })
            &&& c.window_minutes == cfg.lookback_minutes
            &&& c.percent_change_window == pct
            &&& c.price_now == price
            &&& c.quote_volume_window == qvol
            &&& c.quote_volume_24h == qv24
            &&& c.volume_multiplier == mult
            &&& spec_highest_tier(cfg.volume_multipliers@, mult) == Some(c.volume_tier)
        },
    }
}

/// The per-symbol sliding-window scanner.
pub struct MarketTickerScanner {
    pub cfg: TickerAlertsConfig,
    pub per_symbol: Vec<ScanEntry>,
}

impl MarketTickerScanner {
    pub fn new(cfg: TickerAlertsConfig) -> (m: MarketTickerScanner)
        ensures
            m.cfg == cfg,
            m.per_symbol@.len() == 0,
    {
        MarketTickerScanner { cfg, per_symbol: Vec::new() }
    }

    /// Feeds one ticker.  A disabled scanner, a symbol without the
    /// configured suffix, an unparseable price or volume, or a zero
    /// lookback leaves everything unchanged.  Otherwise the symbol's
    /// window is upserted and pruned, and a candidate comes back exactly
    /// when the pruned window fires: the price moved at least the
    /// configured percent since the anchor sample, the estimated window
    /// volume cleared its floor and met a multiplier tier, and the symbol
    /// is not in cooldown.
    pub fn on_ticker(&mut self, ticker: &TickerInfo) -> (r: Option<MarketTickerAlertCandidate>)
        ensures
            final(self).cfg == old(self).cfg,
            ({
                let cfg = old(self).cfg;
                let a = old(self).per_symbol@;
                let now_ms = ticker.statistics_close_time;
                if !cfg.enabled || (cfg.symbol_suffix@.len() > 0 && !has_suffix(
                    ticker.symbol@,
                    cfg.symbol_suffix@,
                )) || !parse_ok_u64(ticker.last_price@, 8) || !parse_ok_u64(
                    ticker.total_traded_quote_asset_volume@,
                    8,
                ) || cfg.lookback_minutes == 0 {
                    final(self).per_symbol@ == a && r is None
                } else {
                    let price = dec_val(ticker.last_price@, 8) as u64;
                    let qv24 = dec_val(ticker.total_traded_quote_asset_volume@, 8) as u64;
                    let i = first_entry(a, ticker.symbol@);
                    let before = (if i < a.len() {
                        a[i].samples@
                    } else {
                        Seq::<Sample>::empty()
                    });
                    let la = (if i < a.len() {
                        a[i].last_alert_time_ms
                    } else {
                        Option::<u64>::None
                    });
                    let pruned = spec_prune(
                        spec_upsert(
                            before,
                            Sample { time_ms: now_ms, last_price: price, quote_volume_24h: qv24 },
                            spec_every(cfg),
                        ),
                        now_ms as int,
                        spec_retention(cfg),
                    );
                    let fired = spec_fires(pruned, la, cfg, now_ms as int, price, qv24);
                    let k = (if i < a.len() {
                        i
                    } else {
                        a.len() as int
                    });
                    &&& final(self).per_symbol@.len() == (if i < a.len() {
                        a.len() as int
                    } else {
                        a.len() as int + 1
                    })
                    &&& forall|j: int|
                        0 <= j < a.len() && j != i ==> final(self).per_symbol@[j] == a[j]
                    &&& final(self).per_symbol@[k].symbol@ == ticker.symbol@
                    &&& final(self).per_symbol@[k].samples@ == pruned
                    &&& final(self).per_symbol@[k].last_alert_time_ms == (if fired {
                        Some(now_ms)
                    } else {
                        la
                    })
                    &&& (r is Some <==> fired)
                    &&& (r matches Some(c) ==> candidate_ok(
                        c,
                        pruned,
                        cfg,
                        ticker.symbol@,
                        now_ms as int,
                        price,
                        qv24,
                    ))
                }
            }),
    {
        if !self.cfg.enabled {
            return None;
        }
        if !self.cfg.symbol_suffix.as_str().is_empty() && !str_ends_with(
            ticker.symbol.as_str(),
            self.cfg.symbol_suffix.as_str(),
        ) {
            return None;
        }
        let now_ms = ticker.statistics_close_time;
        let price_now = match parse_fixed_u64(ticker.last_price.as_str(), 8) {
            Some(v) => v,
            None => {
                return None;
            },
        };
        let quote_volume_24h = match parse_fixed_u64(
            ticker.total_traded_quote_asset_volume.as_str(),
            8,
        ) {
            Some(v) => v,
            None => {
                return None;
            },
        };
        if self.cfg.lookback_minutes == 0 {
            return None;
        }
        let lookback_ms = sat_mul_u64(self.cfg.lookback_minutes, 60_000);
        let every0 = sat_mul_u64(self.cfg.sample_every_seconds, 1_000);
        let sample_every_ms = if every0 >= 1 {
            every0
        } else {
            1
        };
        let retention_ms = sat_add_u64(lookback_ms, sat_mul_u64(sample_every_ms, 2));
        let ghost a = self.per_symbol@;
        let i = find_entry(&self.per_symbol, &ticker.symbol);
        let mut entry = if i < self.per_symbol.len() {
            self.per_symbol.remove(i)
        } else {
            ScanEntry {
                symbol: ticker.symbol.clone(),
                samples: VecDeque::new(),
                last_alert_time_ms: None,
            }
        };
        let ghost before = entry.samples@;
        let ghost la = entry.last_alert_time_ms;
        let ghost sym_view = entry.symbol@;
        proof {
            if i >= a.len() {
                assert(before =~= Seq::<Sample>::empty());
            }
        }

        // Upsert a downsampled sample.
        let sample = Sample { time_ms: now_ms, last_price: price_now, quote_volume_24h };
        let slen = entry.samples.len();
        let replace_last = if slen > 0 {
            let lt = entry.samples.index(slen - 1).time_ms;
            sat_sub_u64(now_ms, lt) < sample_every_ms
        } else {
            false
        };
        if replace_last {
            entry.samples.pop_back();
            entry.samples.push_back(sample);
            proof {
                assert(entry.samples@ =~= spec_upsert(before, sample, spec_every(self.cfg)));
            }
        } else {
            entry.samples.push_back(sample);
            proof {
                assert(entry.samples@ =~= spec_upsert(before, sample, spec_every(self.cfg)));
            }
        }
        let ghost upserted = entry.samples@;

        // Prune old samples.
        while entry.samples.len() > 0 && sat_sub_u64(
            now_ms,
            entry.samples.index(0).time_ms,
        ) > retention_ms
            invariant
                retention_ms == spec_retention(self.cfg),
                entry.last_alert_time_ms == la,
                entry.symbol@ == sym_view,
                spec_prune(upserted, now_ms as int, retention_ms as int) == spec_prune(
                    entry.samples@,
                    now_ms as int,
                    retention_ms as int,
                ),
            decreases entry.samples@.len(),
        {
            let ghost pre = entry.samples@;
            entry.samples.pop_front();
            proof {
                assert(entry.samples@ =~= pre.drop_first());
            }
        }
        proof {
            assert(spec_prune(upserted, now_ms as int, retention_ms as int) == entry.samples@);
        }
        let ghost pruned = entry.samples@;

        // Find the anchor: the newest sample at or before the lookback
        // boundary.
        let target = sat_sub_u64(now_ms, lookback_ms);
        let n = entry.samples.len();
        let mut anchor_found: Option<Sample> = None;
        let mut j: usize = 0;
        let mut stopped = false;
        proof {
            assert(pruned.skip(0) =~= pruned);
        }
        while j < n && !stopped
            invariant
                0 <= j <= n == pruned.len(),
                entry.samples@ == pruned,
                target == sat_sub(now_ms as int, sat_mul(self.cfg.lookback_minutes as int, 60_000)),
                !stopped ==> spec_anchor(pruned, target as int) == (match spec_anchor(
                    pruned.skip(j as int),
                    target as int,
                ) {
                    Some(x) => Some(x),
                    None => anchor_found,
                }),
                stopped ==> spec_anchor(pruned, target as int) == anchor_found,
            decreases n - j + (if stopped {
                0int
            } else {
                1int
            }),
        {
            let s = *entry.samples.index(j);
            proof {
                assert(pruned.skip(j as int)[0] == pruned[j as int]);
                assert(pruned.skip(j as int).drop_first() =~= pruned.skip(j + 1));
            }
            if s.time_ms <= target {
                anchor_found = Some(s);
                j = j + 1;
            } else {
                proof {
                    assert(spec_anchor(pruned.skip(j as int), target as int) is None);
                }
                stopped = true;
            }
        }
        proof {
            if !stopped {
                assert(pruned.skip(pruned.len() as int) =~= Seq::<Sample>::empty());
            }
            assert(spec_anchor(pruned, target as int) == anchor_found);
        }

        let mut fired = false;
        let mut result: Option<MarketTickerAlertCandidate> = None;
        if let Some(anchor) = anchor_found {
            // Cooldown.
            let cooldown_ms = sat_mul_u64(self.cfg.alert_cooldown_minutes, 60_000);
            let in_cooldown = if cooldown_ms > 0 {
                match entry.last_alert_time_ms {
                    Some(last_alert) => sat_sub_u64(now_ms, last_alert) < cooldown_ms,
                    None => false,
                }
            } else {
                false
            };
            proof {
                assert(in_cooldown == (sat_mul(self.cfg.alert_cooldown_minutes as int, 60_000)
                    > 0 && la is Some && sat_sub(now_ms as int, la->Some_0 as int) < sat_mul(
                    self.cfg.alert_cooldown_minutes as int,
                    60_000,
                )));
            }
            if !in_cooldown {
                let pct = pct_change_fp(anchor.last_price, price_now);
                let abs_change: u64 = if pct == i64::MIN {
                    9_223_372_036_854_775_808u64
                } else if pct < 0 {
                    (-pct) as u64
                } else {
                    pct as u64
                };
                proof {
                    assert(abs_change as int == abs_pct(pct as int));
                }
                if abs_change >= self.cfg.min_abs_percent_change {
                    let qvol = sat_sub_u64(quote_volume_24h, anchor.quote_volume_24h);
                    if qvol >= self.cfg.min_quote_volume_in_window {
                        // Baseline and multiplier.
                        let baseline: u128 = if quote_volume_24h == 0 {
                            0
                        } else {
                            proof {
                                assert((quote_volume_24h as u128) * (
                                self.cfg.lookback_minutes as u128) <= (u64::MAX as u128) * (
                                u64::MAX as u128)) by (nonlinear_arith)
                                    requires
                                        quote_volume_24h as u128 <= u64::MAX as u128,
                                        self.cfg.lookback_minutes as u128 <= u64::MAX as u128,
                                ;
                            }
                            ((quote_volume_24h as u128) * (self.cfg.lookback_minutes as u128))
                                / 1440
                        };
                        let mult: u64 = if baseline == 0 {
                            0
                        } else {
                            let raw = ((qvol as u128) * (PCT_SCALE as u128)) / baseline;
                            if raw > u64::MAX as u128 {
                                u64::MAX
                            } else {
                                raw as u64
                            }
                        };
                        proof {
                            assert(mult as int == spec_window_multiplier(
                                qvol as int,
                                spec_window_baseline(
                                    quote_volume_24h as int,
                                    self.cfg.lookback_minutes as int,
                                ),
                            ));
                        }
                        if let Some(tier) = highest_met_tier(&self.cfg.volume_multipliers, mult) {
                            let direction = if pct >= 0 {
                                "PUMP".to_owned()
                            } else {
                                "DUMP".to_owned()
                            };
                            entry.last_alert_time_ms = Some(now_ms);
                            fired = true;
                            result = Some(
                                MarketTickerAlertCandidate {
                                    symbol: ticker.symbol.clone(),
                                    direction,
                                    window_minutes: self.cfg.lookback_minutes,
                                    percent_change_window: pct,
                                    price_now,
                                    quote_volume_window: qvol,
                                    quote_volume_24h,
                                    volume_multiplier: mult,
                                    volume_tier: tier,
                                },
                            );
                        }
                    }
                }
            }
        }
        proof {
            assert(fired == spec_fires(
                pruned,
                la,
                self.cfg,
                now_ms as int,
                price_now,
                quote_volume_24h,
            ));
        }
        let ghost snew = entry;
        self.per_symbol.insert(i, entry);
        proof {
            if i < a.len() {
                assert(self.per_symbol@ =~= a.update(i as int, snew));
            } else {
                assert(self.per_symbol@ =~= a.push(snew));
            }
        }
        result
    }
}

/// The largest configured tier the value meets.
pub fn highest_met_tier(tiers: &Vec<u64>, value: u64) -> (r: Option<u64>)
    ensures
        r == spec_highest_tier(tiers@, value as int),
{
    let mut best: Option<u64> = None;
    let n = tiers.len();
    let mut i: usize = 0;
    while i < n
        invariant
            0 <= i <= n == tiers@.len(),
            best == spec_highest_tier(tiers@.take(i as int), value as int),
        decreases n - i,
    {
        proof {
            assert(tiers@.take(i + 1).drop_last() =~= tiers@.take(i as int));
            assert(tiers@.take(i + 1).last() == tiers@[i as int]);
        }
        let t = tiers[i];
        if value >= t {
            best = match best {
                Some(b) => if t > b {
                    Some(t)
                } else {
                    Some(b)
                },
                None => Some(t),
            };
        }
        i = i + 1;
    }
    proof {
        assert(tiers@.take(tiers@.len() as int) =~= tiers@);
    }
    best
}

/// Percent change from the anchor price to the current price.
pub fn percent_change(old_price: u64, new_price: u64) -> (r: i64)
    ensures
        r == spec_pct_change(old_price as int, new_price as int),
{
    pct_change_fp(old_price, new_price)
}

/// Per-window volume baseline from a 24h quote volume, `PRICE_SCALE` fixed
/// point; zero when either input is zero.  Large products saturate.
pub fn average_volume_per_window_from_24h(quote_volume_24h: u64, window_minutes: u64) -> (r: u64)
    ensures
        r as int == clamp_u64(
            spec_window_baseline(quote_volume_24h as int, window_minutes as int),
        ),
{
    if quote_volume_24h == 0 || window_minutes == 0 {
        return 0;
    }
    proof {
        assert((quote_volume_24h as u128) * (window_minutes as u128) <= (u64::MAX as u128) * (
        u64::MAX as u128)) by (nonlinear_arith)
            requires
                quote_volume_24h as u128 <= u64::MAX as u128,
                window_minutes as u128 <= u64::MAX as u128,
        ;
    }
    let b = ((quote_volume_24h as u128) * (window_minutes as u128)) / 1440;
    if b > u64::MAX as u128 {
        u64::MAX
    } else {
        b as u64
    }
}

} // verus!
