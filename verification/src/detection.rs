//! The pattern detector: a per-symbol state machine fed one trade at a time.
//!
//! Each call evaluates, in strict priority order, at most one momentum alert
//! (pump or dump) and at most one range alert (accumulation, distribution,
//! breakout or breakdown), and advances the symbol's `MarketState`.

use vstd::prelude::*;
use crate::config::DetectionConfig;
use crate::numeric::sat_sub;
use crate::numeric::sat_sub_u64;
use crate::types::Alert;
use crate::types::AlertDetails;
use crate::types::AlertType;
use crate::types::MarketState;
use crate::types::SymbolData;
use crate::types::Timestamp;
use std::collections::VecDeque;
use std::ops::Index;

verus! {

/// Values of the window entries timestamped at or after `start`, oldest
/// first.
pub open spec fn vals_since<T>(w: Seq<(Timestamp, T)>, start: int) -> Seq<T>
    decreases w.len(),
{
    if w.len() == 0 {
        Seq::empty()
    } else {
        let rest = vals_since(w.drop_last(), start);
        if w.last().0 >= start {
            rest.push(w.last().1)
        } else {
            rest
        }
    }
}

pub open spec fn seq_sum(s: Seq<u64>) -> int
    decreases s.len(),
{
    if s.len() == 0 {
        0
    } else {
        seq_sum(s.drop_last()) + s.last()
    }
}

pub open spec fn seq_max(s: Seq<u64>) -> int
    decreases s.len(),
{
    if s.len() <= 1 {
        if s.len() == 0 {
            0
        } else {
            s[0] as int
        }
    } else {
        let m = seq_max(s.drop_last());
        if s.last() > m {
            s.last() as int
        } else {
            m
        }
    }
}

pub open spec fn seq_min(s: Seq<u64>) -> int
    decreases s.len(),
{
    if s.len() <= 1 {
        if s.len() == 0 {
            0
        } else {
            s[0] as int
        }
    } else {
        let m = seq_min(s.drop_last());
        if (s.last() as int) < m {
            s.last() as int
        } else {
            m
        }
    }
}

pub open spec fn clamp_i64(v: int) -> int {
    if v > i64::MAX {
        i64::MAX as int
    } else if v < i64::MIN {
        i64::MIN as int
    } else {
        v
    }
}

pub open spec fn clamp_u64(v: int) -> int {
    if v > u64::MAX {
        u64::MAX as int
    } else {
        v
    }
}

pub open spec fn clamp_i128(v: int) -> int {
    if v > i128::MAX {
        i128::MAX as int
    } else if v < i128::MIN {
        i128::MIN as int
    } else {
        v
    }
}

/// Percent change from `oldp` to `cur` in `PCT_SCALE` fixed point, clamped
/// to the machine range; zero when the base is zero.
pub open spec fn spec_pct_change(oldp: int, cur: int) -> int {
    if oldp <= 0 {
        0
    } else if cur >= oldp {
        clamp_i64(((cur - oldp) * 1_000_000) / oldp)
    } else {
        clamp_i64(-(((oldp - cur) * 1_000_000) / oldp))
    }
}

/// Ratio of the window's average volume to the per-second baseline derived
/// from 24h quote volume, in `PCT_SCALE` fixed point, saturating at the
/// machine range; zero when either side is empty.
pub open spec fn spec_volume_ratio(vols: Seq<u64>, qv24: int) -> int {
    if vols.len() == 0 || qv24 <= 0 {
        0
    } else {
        let avg = seq_sum(vols) / vols.len() as int;
        clamp_u64((avg * 864_000_000) / qv24)
    }
}

/// Difference between the last and first CVD values recorded in the window;
/// zero when fewer than two.
pub open spec fn spec_cvd_slope(cvds: Seq<i128>) -> int {
    if cvds.len() < 2 {
        0
    } else {
        clamp_i128(cvds.last() - cvds[0])
    }
}

pub open spec fn max_u64_s(a: u64, b: u64) -> u64 {
    if a >= b {
        a
    } else {
        b
    }
}

pub open spec fn min_u64_s(a: u64, b: u64) -> u64 {
    if a <= b {
        a
    } else {
        b
    }
}

/// Prices recorded within the last `secs` seconds.
pub open spec fn prices_since(s: SymbolData, now: Timestamp, secs: u64) -> Seq<u64> {
    vals_since(s.price_window@, sat_sub(now as int, secs as int))
}

pub open spec fn ratio_since(s: SymbolData, now: Timestamp, secs: u64) -> int {
    spec_volume_ratio(
        vals_since(s.volume_window@, sat_sub(now as int, secs as int)),
        s.quote_volume_24h as int,
    )
}

pub open spec fn slope_since(s: SymbolData, now: Timestamp, secs: u64) -> int {
    spec_cvd_slope(vals_since(s.cvd_history@, sat_sub(now as int, secs as int)))
}

/// The price is within a tenth of a percent of the five-minute high (or no
/// price was recorded there).
pub open spec fn spec_new_high(s: SymbolData, now: Timestamp, secs: u64) -> bool {
    let ps = prices_since(s, now, secs);
    ps.len() == 0 || s.price as int * 1000 >= seq_max(ps) * 999
}

/// The price is within a tenth of a percent of the five-minute low (or no
/// price was recorded there).
pub open spec fn spec_new_low(s: SymbolData, now: Timestamp, secs: u64) -> bool {
    let ps = prices_since(s, now, secs);
    ps.len() == 0 || s.price as int * 1000 <= seq_min(ps) * 1001
}

/// Pump: at least ten samples in the detection window, price risen by the
/// pump threshold, volume spiking, and the price making a new five-minute
/// high.
pub open spec fn pump_cond(s: SymbolData, cfg: DetectionConfig, now: Timestamp) -> bool {
    let ps = prices_since(s, now, cfg.window_size_secs);
    &&& ps.len() >= 10
    &&& spec_pct_change(ps[0] as int, s.price as int) >= cfg.pump_threshold_pct
    &&& ratio_since(s, now, cfg.window_size_secs) >= cfg.volume_spike_ratio
    &&& spec_new_high(s, now, 300)
}

/// Dump: the mirror image — price fallen to the dump threshold and making a
/// new five-minute low.
pub open spec fn dump_cond(s: SymbolData, cfg: DetectionConfig, now: Timestamp) -> bool {
    let ps = prices_since(s, now, cfg.window_size_secs);
    &&& ps.len() >= 10
    &&& spec_pct_change(ps[0] as int, s.price as int) <= cfg.dump_threshold_pct
    &&& ratio_since(s, now, cfg.window_size_secs) >= cfg.volume_spike_ratio
    &&& spec_new_low(s, now, 300)
}

/// Width of the price range over the window relative to the current price,
/// `PCT_SCALE` fixed point.
pub open spec fn spec_range_pct(ps: Seq<u64>, price: u64) -> int {
    clamp_i64(((seq_max(ps) - seq_min(ps)) * 1_000_000) / price as int)
}

/// Accumulation: at least twenty samples, a tight price range, rising CVD,
/// elevated volume, and not simultaneously making a new low.
pub open spec fn accum_cond(s: SymbolData, cfg: DetectionConfig, now: Timestamp) -> bool {
    let ps = prices_since(s, now, cfg.accumulation_window_secs);
    &&& ps.len() >= 20
    &&& s.price > 0
    &&& spec_range_pct(ps, s.price) < cfg.accumulation_range_pct
    &&& slope_since(s, now, cfg.accumulation_window_secs) > 0
    &&& ratio_since(s, now, cfg.accumulation_window_secs) >= 15_000
    &&& !spec_new_low(s, now, cfg.accumulation_window_secs)
}

/// Distribution: at least thirty samples, price no longer trending up, CVD
/// flat or falling, volume still elevated.
pub open spec fn dist_cond(s: SymbolData, cfg: DetectionConfig, now: Timestamp) -> bool {
    let ps = prices_since(s, now, cfg.distribution_window_secs);
    &&& ps.len() >= 30
    &&& spec_pct_change(ps[0] as int, ps.last() as int) <= 1000
    &&& slope_since(s, now, cfg.distribution_window_secs) <= 0
    &&& ratio_since(s, now, cfg.distribution_window_secs) >= 15_000
}

/// Breakout: price above the extended accumulation high by the breakout
/// threshold, with a thirty-second volume spike and rising CVD.
pub open spec fn breakout_cond(
    s: SymbolData,
    cfg: DetectionConfig,
    now: Timestamp,
    high: u64,
) -> bool {
    &&& s.price as int * 1_000_000 >= high as int * (1_000_000 + cfg.breakout_threshold_pct as int)
    &&& ratio_since(s, now, 30) >= cfg.volume_spike_ratio
    &&& slope_since(s, now, 30) > 0
}

/// Breakdown: price below the extended distribution low by the breakout
/// threshold, with a thirty-second volume spike and falling CVD.
pub open spec fn breakdown_cond(
    s: SymbolData,
    cfg: DetectionConfig,
    now: Timestamp,
    low: u64,
) -> bool {
    &&& s.price as int * 1_000_000 <= low as int * (1_000_000 - cfg.breakout_threshold_pct as int)
    &&& ratio_since(s, now, 30) >= cfg.volume_spike_ratio
    &&& slope_since(s, now, 30) < 0
}

/// The state after the momentum phase: a pump or dump overrides whatever
/// state the symbol was in.
pub open spec fn state_after_momentum(
    s: SymbolData,
    cfg: DetectionConfig,
    now: Timestamp,
) -> MarketState {
    if pump_cond(s, cfg, now) {
        MarketState::PumpDetected
    } else if dump_cond(s, cfg, now) {
        MarketState::DumpDetected
    } else {
        s.state
    }
}

/// The state after a full detection pass.
pub open spec fn spec_next_state(s: SymbolData, cfg: DetectionConfig, now: Timestamp) -> MarketState {
    let ms = state_after_momentum(s, cfg, now);
    if s.cvd_history@.len() == 0 {
        ms
    } else {
        match ms {
            MarketState::Idle | MarketState::PumpDetected | MarketState::DumpDetected => {
                if accum_cond(s, cfg, now) {
                    MarketState::Accumulation { start: now, high: s.price, low: s.price }
                } else if dist_cond(s, cfg, now) {
                    MarketState::Distribution { start: now, high: s.price, low: s.price }
                } else {
                    ms
                }
            },
            MarketState::Accumulation { start, high, low } => {
                let high2 = max_u64_s(high, s.price);
                let low2 = min_u64_s(low, s.price);
                if breakout_cond(s, cfg, now, high2) {
                    MarketState::BreakoutLong { start }
                } else {
                    MarketState::Accumulation { start, high: high2, low: low2 }
                }
            },
            MarketState::Distribution { start, high, low } => {
                let high2 = max_u64_s(high, s.price);
                let low2 = min_u64_s(low, s.price);
                if breakdown_cond(s, cfg, now, low2) {
                    MarketState::BreakdownShort { start }
                } else {
                    MarketState::Distribution { start, high: high2, low: low2 }
                }
            },
            MarketState::BreakoutLong { start } => {
                if sat_sub(now as int, start as int) > 300 {
                    MarketState::Idle
                } else {
                    ms
                }
            },
            MarketState::BreakdownShort { start } => {
                if sat_sub(now as int, start as int) > 300 {
                    MarketState::Idle
                } else {
                    ms
                }
            },
        }
    }
}

/// Whether the momentum phase emits an alert.
pub open spec fn momentum_fires(s: SymbolData, cfg: DetectionConfig, now: Timestamp) -> bool {
    pump_cond(s, cfg, now) || dump_cond(s, cfg, now)
}

/// Whether the range phase emits an alert.
pub open spec fn range_fires(s: SymbolData, cfg: DetectionConfig, now: Timestamp) -> bool {
    let ms = state_after_momentum(s, cfg, now);
    if s.cvd_history@.len() == 0 {
        false
    } else {
        match ms {
            MarketState::Idle | MarketState::PumpDetected | MarketState::DumpDetected => {
                accum_cond(s, cfg, now) || dist_cond(s, cfg, now)
            },
            MarketState::Accumulation { start, high, low } => breakout_cond(
                s,
                cfg,
                now,
                max_u64_s(high, s.price),
            ),
            MarketState::Distribution { start, high, low } => breakdown_cond(
                s,
                cfg,
                now,
                min_u64_s(low, s.price),
            ),
            _ => false,
        }
    }
}

pub open spec fn alert_common(a: Alert, s: SymbolData, now: Timestamp, ex: Seq<char>) -> bool {
    &&& a.symbol@ == s.symbol@
    &&& a.timestamp == now
    &&& a.exchange@ == ex
    &&& a.price == s.price
}

pub open spec fn is_pump_alert(
    a: Alert,
    s: SymbolData,
    cfg: DetectionConfig,
    now: Timestamp,
    ex: Seq<char>,
) -> bool {
    let ps = prices_since(s, now, cfg.window_size_secs);
    &&& a.alert_type == AlertType::PumpDetected
    &&& alert_common(a, s, now, ex)
    &&& a.details.price_change_pct == Some(
        spec_pct_change(ps[0] as int, s.price as int) as i64,
    )
    &&& a.details.volume_ratio == Some(ratio_since(s, now, cfg.window_size_secs) as u64)
    &&& a.details.cvd_change is None
    &&& a.details.timeframe matches Some(t) && t@ == "60s"@
}

pub open spec fn is_dump_alert(
    a: Alert,
    s: SymbolData,
    cfg: DetectionConfig,
    now: Timestamp,
    ex: Seq<char>,
) -> bool {
    let ps = prices_since(s, now, cfg.window_size_secs);
    &&& a.alert_type == AlertType::DumpDetected
    &&& alert_common(a, s, now, ex)
    &&& a.details.price_change_pct == Some(
        spec_pct_change(ps[0] as int, s.price as int) as i64,
    )
    &&& a.details.volume_ratio == Some(ratio_since(s, now, cfg.window_size_secs) as u64)
    &&& a.details.cvd_change is None
    &&& a.details.timeframe matches Some(t) && t@ == "60s"@
}

pub open spec fn is_accum_alert(
    a: Alert,
    s: SymbolData,
    cfg: DetectionConfig,
    now: Timestamp,
    ex: Seq<char>,
) -> bool {
    let ps = prices_since(s, now, cfg.accumulation_window_secs);
    &&& a.alert_type == AlertType::AccumulationDetected
    &&& alert_common(a, s, now, ex)
    &&& a.details.price_change_pct == Some(spec_range_pct(ps, s.price) as i64)
    &&& a.details.volume_ratio == Some(
        ratio_since(s, now, cfg.accumulation_window_secs) as u64,
    )
    &&& a.details.cvd_change == Some(
        slope_since(s, now, cfg.accumulation_window_secs) as i128,
    )
    &&& a.details.timeframe matches Some(t) && t@ == "2m"@
}

pub open spec fn is_dist_alert(
    a: Alert,
    s: SymbolData,
    cfg: DetectionConfig,
    now: Timestamp,
    ex: Seq<char>,
) -> bool {
    &&& a.alert_type == AlertType::DistributionDetected
    &&& alert_common(a, s, now, ex)
    &&& a.details.price_change_pct is None
    &&& a.details.volume_ratio == Some(
        ratio_since(s, now, cfg.distribution_window_secs) as u64,
    )
    &&& a.details.cvd_change == Some(
        slope_since(s, now, cfg.distribution_window_secs) as i128,
    )
    &&& a.details.timeframe matches Some(t) && t@ == "3m"@
}

pub open spec fn is_breakout_alert(
    a: Alert,
    s: SymbolData,
    cfg: DetectionConfig,
    now: Timestamp,
    ex: Seq<char>,
    high: u64,
) -> bool {
    &&& a.alert_type == AlertType::LongSetupConfirmed
    &&& alert_common(a, s, now, ex)
    &&& a.details.price_change_pct == Some(
        spec_pct_change(high as int, s.price as int) as i64,
    )
    &&& a.details.volume_ratio == Some(ratio_since(s, now, 30) as u64)
    &&& a.details.cvd_change == Some(slope_since(s, now, 30) as i128)
    &&& a.details.timeframe matches Some(t) && t@ == "breakout"@
}

pub open spec fn is_breakdown_alert(
    a: Alert,
    s: SymbolData,
    cfg: DetectionConfig,
    now: Timestamp,
    ex: Seq<char>,
    low: u64,
) -> bool {
    &&& a.alert_type == AlertType::ShortSetupConfirmed
    &&& alert_common(a, s, now, ex)
    &&& a.details.price_change_pct == Some(
        spec_pct_change(low as int, s.price as int) as i64,
    )
    &&& a.details.volume_ratio == Some(ratio_since(s, now, 30) as u64)
    &&& a.details.cvd_change == Some(slope_since(s, now, 30) as i128)
    &&& a.details.timeframe matches Some(t) && t@ == "breakdown"@
}

/// Everything one detection pass guarantees: only the state changes, it
/// changes as [`spec_next_state`] says, and the emitted alerts are exactly
/// those whose conditions held, momentum first.
pub open spec fn detect_post(
    s: SymbolData,
    s2: SymbolData,
    alerts: Seq<Alert>,
    cfg: DetectionConfig,
    now: Timestamp,
    ex: Seq<char>,
) -> bool {
    &&& same_but_state(s2, s)
    &&& s2.state == spec_next_state(s, cfg, now)
    &&& alerts.len() == (if momentum_fires(s, cfg, now) {
        1int
    } else {
        0int
    }) + (if range_fires(s, cfg, now) {
        1int
    } else {
        0int
    })
    &&& pump_cond(s, cfg, now) ==> is_pump_alert(alerts[0], s, cfg, now, ex)
    &&& !pump_cond(s, cfg, now) && dump_cond(s, cfg, now) ==> is_dump_alert(
        alerts[0],
        s,
        cfg,
        now,
        ex,
    )
    &&& ({
        let ms = state_after_momentum(s, cfg, now);
        s.cvd_history@.len() > 0 && (ms == MarketState::Idle || ms == MarketState::PumpDetected
            || ms == MarketState::DumpDetected) ==> {
            &&& accum_cond(s, cfg, now) ==> is_accum_alert(alerts.last(), s, cfg, now, ex)
            &&& !accum_cond(s, cfg, now) && dist_cond(s, cfg, now) ==> is_dist_alert(
                alerts.last(),
                s,
                cfg,
                now,
                ex,
            )
        }
    })
    &&& ({
        let ms = state_after_momentum(s, cfg, now);
        s.cvd_history@.len() > 0 ==> match ms {
            MarketState::Accumulation { start, high, low } => breakout_cond(
                s,
                cfg,
                now,
                max_u64_s(high, s.price),
            ) ==> is_breakout_alert(alerts.last(), s, cfg, now, ex, max_u64_s(high, s.price)),
            MarketState::Distribution { start, high, low } => breakdown_cond(
                s,
                cfg,
                now,
                min_u64_s(low, s.price),
            ) ==> is_breakdown_alert(alerts.last(), s, cfg, now, ex, min_u64_s(low, s.price)),
            _ => true,
        }
    })
}

/// Every field of the snapshot except the market state, unchanged.
pub open spec fn same_but_state(a: SymbolData, b: SymbolData) -> bool {
    &&& a.symbol@ == b.symbol@
    &&& a.price == b.price
    &&& a.price_change_pct_24h == b.price_change_pct_24h
    &&& a.volume_24h == b.volume_24h
    &&& a.quote_volume_24h == b.quote_volume_24h
    &&& a.trades_24h == b.trades_24h
    &&& a.high_24h == b.high_24h
    &&& a.low_24h == b.low_24h
    &&& a.open_24h == b.open_24h
    &&& a.score == b.score
    &&& a.tier == b.tier
    &&& a.cvd == b.cvd
    &&& a.cvd_history@ == b.cvd_history@
    &&& a.price_window@ == b.price_window@
    &&& a.volume_window@ == b.volume_window@
    &&& a.last_alert_time == b.last_alert_time
    &&& a.last_update_time == b.last_update_time
}

// ------------------------------------------------------------------
// Executable helpers, each exact against its spec.

/// Collects window values recorded at or after `start`.
fn collect_since<T: Copy>(w: &VecDeque<(Timestamp, T)>, start: Timestamp) -> (r: Vec<T>)
    ensures
        r@ == vals_since(w@, start as int),
{
    let ghost wv = w@;
    let mut out: Vec<T> = Vec::new();
    let mut i: usize = 0;
    while i < w.len()
        invariant
            0 <= i <= wv.len(),
            w@ == wv,
            out@ == vals_since(wv.take(i as int), start as int),
        decreases wv.len() - i,
    {
        proof {
            assert(wv.take(i + 1).drop_last() =~= wv.take(i as int));
            assert(wv.take(i + 1).last() == wv[i as int]);
        }
        let e = *w.index(i);
        if e.0 >= start {
            out.push(e.1);
        }
        i = i + 1;
    }
    proof {
        assert(wv.take(wv.len() as int) =~= wv);
    }
    out
}

/// Percent change from `oldp` to `cur`, `PCT_SCALE` fixed point, clamped.
pub fn pct_change_fp(oldp: u64, cur: u64) -> (r: i64)
    ensures
        r == spec_pct_change(oldp as int, cur as int),
{
    if oldp == 0 {
        return 0;
    }
    if cur >= oldp {
        let num = ((cur - oldp) as u128) * 1_000_000;
        let q = num / (oldp as u128);
        if q > i64::MAX as u128 {
            i64::MAX
        } else {
            q as i64
        }
    } else {
        let num = ((oldp - cur) as u128) * 1_000_000;
        let q = num / (oldp as u128);
        if q >= 9_223_372_036_854_775_808u128 {
            i64::MIN
        } else {
            -(q as i64)
        }
    }
}

/// Window-average volume over the 24h per-second baseline, `PCT_SCALE`
/// fixed point, saturating.
pub fn volume_ratio(vols: &Vec<u64>, qv24: u64) -> (r: u64)
    ensures
        r == spec_volume_ratio(vols@, qv24 as int),
{
    if vols.len() == 0 || qv24 == 0 {
        return 0;
    }
    let ghost vv = vols@;
    let mut sum: u128 = 0;
    let mut i: usize = 0;
    while i < vols.len()
        invariant
            0 <= i <= vv.len(),
            vols@ == vv,
            sum == seq_sum(vv.take(i as int)),
            sum <= (i as int) * (u64::MAX as int),
        decreases vv.len() - i,
    {
        proof {
            assert(vv.take(i + 1).drop_last() =~= vv.take(i as int));
            assert(vv.take(i + 1).last() == vv[i as int]);
        }
        sum = sum + (vols[i] as u128);
        i = i + 1;
    }
    proof {
        assert(vv.take(vv.len() as int) =~= vv);
        lemma_seq_sum_nonneg(vv);
    }
    let n = vols.len() as u128;
    let avg = sum / n;
    proof {
        assert(avg <= u64::MAX) by (nonlinear_arith)
            requires
                sum <= n * (u64::MAX as int),
                n > 0,
                avg == sum / n,
        ;
    }
    let num = avg * 864_000_000;
    let q = num / (qv24 as u128);
    if q > u64::MAX as u128 {
        u64::MAX
    } else {
        q as u64
    }
}

proof fn lemma_seq_sum_nonneg(s: Seq<u64>)
    ensures
        seq_sum(s) >= 0,
    decreases s.len(),
{
    if s.len() > 0 {
        lemma_seq_sum_nonneg(s.drop_last());
    }
}

/// Last minus first CVD value, clamped to the machine range.
pub fn cvd_slope_of(cvds: &Vec<i128>) -> (r: i128)
    ensures
        r == spec_cvd_slope(cvds@),
{
    if cvds.len() < 2 {
        return 0;
    }
    let last = cvds[cvds.len() - 1];
    let first = cvds[0];
    proof {
        assert(cvds@.last() == cvds@[cvds@.len() - 1]);
    }
    match last.checked_sub(first) {
        Some(d) => d,
        None => {
            if first < 0 {
                i128::MAX
            } else {
                i128::MIN
            }
        },
    }
}

/// Largest element of a non-empty vector.
fn max_of(v: &Vec<u64>) -> (r: u64)
    requires
        v@.len() > 0,
    ensures
        r == seq_max(v@),
{
    let ghost vv = v@;
    let mut m = v[0];
    let mut i: usize = 1;
    while i < v.len()
        invariant
            1 <= i <= vv.len(),
            v@ == vv,
            m == seq_max(vv.take(i as int)),
        decreases vv.len() - i,
    {
        proof {
            assert(vv.take(i + 1).drop_last() =~= vv.take(i as int));
            assert(vv.take(i + 1).last() == vv[i as int]);
        }
        if v[i] > m {
            m = v[i];
        }
        i = i + 1;
    }
    proof {
        assert(vv.take(vv.len() as int) =~= vv);
    }
    m
}

/// Smallest element of a non-empty vector.
fn min_of(v: &Vec<u64>) -> (r: u64)
    requires
        v@.len() > 0,
    ensures
        r == seq_min(v@),
{
    let ghost vv = v@;
    let mut m = v[0];
    let mut i: usize = 1;
    while i < v.len()
        invariant
            1 <= i <= vv.len(),
            v@ == vv,
            m == seq_min(vv.take(i as int)),
        decreases vv.len() - i,
    {
        proof {
            assert(vv.take(i + 1).drop_last() =~= vv.take(i as int));
            assert(vv.take(i + 1).last() == vv[i as int]);
        }
        if v[i] < m {
            m = v[i];
        }
        i = i + 1;
    }
    proof {
        assert(vv.take(vv.len() as int) =~= vv);
    }
    m
}

/// Detects patterns over a symbol's windows and advances its state machine.
pub struct Detector {
    pub config: DetectionConfig,
    /// Named on every alert as the source exchange.
    pub exchange: String,
}

impl Detector {
    pub fn new(config: DetectionConfig) -> (d: Detector)
        ensures
            d.config == config,
            d.exchange@ == "Binance"@,
    {
        Detector { config, exchange: "Binance".to_owned() }
    }

    fn ratio_for(&self, s: &SymbolData, now: Timestamp, secs: u64) -> (r: u64)
        ensures
            r == ratio_since(*s, now, secs),
    {
        let start = sat_sub_u64(now, secs);
        let vols = collect_since(&s.volume_window, start);
        volume_ratio(&vols, s.quote_volume_24h)
    }

    fn slope_for(&self, s: &SymbolData, now: Timestamp, secs: u64) -> (r: i128)
        ensures
            r == slope_since(*s, now, secs),
    {
        let start = sat_sub_u64(now, secs);
        let cvds = collect_since(&s.cvd_history, start);
        cvd_slope_of(&cvds)
    }

    fn is_new_high(&self, s: &SymbolData, now: Timestamp, secs: u64) -> (r: bool)
        ensures
            r == spec_new_high(*s, now, secs),
    {
        let start = sat_sub_u64(now, secs);
        let ps = collect_since(&s.price_window, start);
        if ps.len() == 0 {
            return true;
        }
        let m = max_of(&ps);
        (s.price as u128) * 1000 >= (m as u128) * 999
    }

    fn is_new_low(&self, s: &SymbolData, now: Timestamp, secs: u64) -> (r: bool)
        ensures
            r == spec_new_low(*s, now, secs),
    {
        let start = sat_sub_u64(now, secs);
        let ps = collect_since(&s.price_window, start);
        if ps.len() == 0 {
            return true;
        }
        let m = min_of(&ps);
        (s.price as u128) * 1000 <= (m as u128) * 1001
    }

    fn detect_pump(&self, s: &SymbolData, now: Timestamp) -> (r: Option<Alert>)
        ensures
            match r {
                Some(a) => pump_cond(*s, self.config, now) && is_pump_alert(
                    a,
                    *s,
                    self.config,
                    now,
                    self.exchange@,
                ),
                None => !pump_cond(*s, self.config, now),
            },
    {
        let wstart = sat_sub_u64(now, self.config.window_size_secs);
        let recent_prices = collect_since(&s.price_window, wstart);
        if recent_prices.len() < 10 {
            return None;
        }
        let pct = pct_change_fp(recent_prices[0], s.price);
        if pct < self.config.pump_threshold_pct {
            return None;
        }
        let ratio = self.ratio_for(s, now, self.config.window_size_secs);
        if ratio < self.config.volume_spike_ratio {
            return None;
        }
        if !self.is_new_high(s, now, 300) {
            return None;
        }
        Some(
            Alert {
                alert_type: AlertType::PumpDetected,
                symbol: s.symbol.clone(),
                price: s.price,
                details: AlertDetails {
                    price_change_pct: Some(pct),
                    volume_ratio: Some(ratio),
                    cvd_change: None,
                    timeframe: Some("60s".to_owned()),
                },
                timestamp: now,
                exchange: self.exchange.clone(),
            },
        )
    }

    fn detect_dump(&self, s: &SymbolData, now: Timestamp) -> (r: Option<Alert>)
        ensures
            match r {
                Some(a) => dump_cond(*s, self.config, now) && is_dump_alert(
                    a,
                    *s,
                    self.config,
                    now,
                    self.exchange@,
                ),
                None => !dump_cond(*s, self.config, now),
            },
    {
        let wstart = sat_sub_u64(now, self.config.window_size_secs);
        let recent_prices = collect_since(&s.price_window, wstart);
        if recent_prices.len() < 10 {
            return None;
        }
        let pct = pct_change_fp(recent_prices[0], s.price);
        if pct > self.config.dump_threshold_pct {
            return None;
        }
        let ratio = self.ratio_for(s, now, self.config.window_size_secs);
        if ratio < self.config.volume_spike_ratio {
            return None;
        }
        if !self.is_new_low(s, now, 300) {
            return None;
        }
        Some(
            Alert {
                alert_type: AlertType::DumpDetected,
                symbol: s.symbol.clone(),
                price: s.price,
                details: AlertDetails {
                    price_change_pct: Some(pct),
                    volume_ratio: Some(ratio),
                    cvd_change: None,
                    timeframe: Some("60s".to_owned()),
                },
                timestamp: now,
                exchange: self.exchange.clone(),
            },
        )
    }

    fn detect_accumulation(&self, s: &SymbolData, now: Timestamp) -> (r: Option<Alert>)
        ensures
            match r {
                Some(a) => accum_cond(*s, self.config, now) && is_accum_alert(
                    a,
                    *s,
                    self.config,
                    now,
                    self.exchange@,
                ),
                None => !accum_cond(*s, self.config, now),
            },
    {
        let wstart = sat_sub_u64(now, self.config.accumulation_window_secs);
        let recent_prices = collect_since(&s.price_window, wstart);
        if recent_prices.len() < 20 {
            return None;
        }
        if s.price == 0 {
            return None;
        }
        let maxp = max_of(&recent_prices);
        let minp = min_of(&recent_prices);
        proof {
            lemma_seq_max_ge_min(recent_prices@);
        }
        let range_num = ((maxp - minp) as u128) * 1_000_000;
        let q = range_num / (s.price as u128);
        let range_pct: i64 = if q > i64::MAX as u128 {
            i64::MAX
        } else {
            q as i64
        };
        if range_pct >= self.config.accumulation_range_pct {
            return None;
        }
        let slope = self.slope_for(s, now, self.config.accumulation_window_secs);
        if slope <= 0 {
            return None;
        }
        let ratio = self.ratio_for(s, now, self.config.accumulation_window_secs);
        if ratio < 15_000 {
            return None;
        }
        if self.is_new_low(s, now, self.config.accumulation_window_secs) {
            return None;
        }
        Some(
            Alert {
                alert_type: AlertType::AccumulationDetected,
                symbol: s.symbol.clone(),
                price: s.price,
                details: AlertDetails {
                    price_change_pct: Some(range_pct),
                    volume_ratio: Some(ratio),
                    cvd_change: Some(slope),
                    timeframe: Some("2m".to_owned()),
                },
                timestamp: now,
                exchange: self.exchange.clone(),
            },
        )
    }

    fn detect_distribution(&self, s: &SymbolData, now: Timestamp) -> (r: Option<Alert>)
        ensures
            match r {
                Some(a) => dist_cond(*s, self.config, now) && is_dist_alert(
                    a,
                    *s,
                    self.config,
                    now,
                    self.exchange@,
                ),
                None => !dist_cond(*s, self.config, now),
            },
    {
        let wstart = sat_sub_u64(now, self.config.distribution_window_secs);
        let recent_prices = collect_since(&s.price_window, wstart);
        if recent_prices.len() < 30 {
            return None;
        }
        let trend = pct_change_fp(recent_prices[0], recent_prices[recent_prices.len() - 1]);
        proof {
            assert(recent_prices@[recent_prices@.len() - 1] == recent_prices@.last());
        }
        if trend > 1000 {
            return None;
        }
        let slope = self.slope_for(s, now, self.config.distribution_window_secs);
        if slope > 0 {
            return None;
        }
        let ratio = self.ratio_for(s, now, self.config.distribution_window_secs);
        if ratio < 15_000 {
            return None;
        }
        Some(
            Alert {
                alert_type: AlertType::DistributionDetected,
                symbol: s.symbol.clone(),
                price: s.price,
                details: AlertDetails {
                    price_change_pct: None,
                    volume_ratio: Some(ratio),
                    cvd_change: Some(slope),
                    timeframe: Some("3m".to_owned()),
                },
                timestamp: now,
                exchange: self.exchange.clone(),
            },
        )
    }

    fn detect_breakout_long(&self, s: &SymbolData, now: Timestamp, high: u64) -> (r: Option<
        Alert,
    >)
        requires
            0 <= self.config.breakout_threshold_pct <= 1_000_000_000,
        ensures
            match r {
                Some(a) => breakout_cond(*s, self.config, now, high) && is_breakout_alert(
                    a,
                    *s,
                    self.config,
                    now,
                    self.exchange@,
                    high,
                ),
                None => !breakout_cond(*s, self.config, now, high),
            },
    {
        let mult: u128 = 1_000_000 + (self.config.breakout_threshold_pct as u128);
        proof {
            assert((high as u128) * mult <= (u64::MAX as u128) * 1_001_000_000u128)
                by (nonlinear_arith)
                requires
                    (high as u128) <= u64::MAX as u128,
                    0 <= mult <= 1_001_000_000u128,
            ;
        }
        if (s.price as u128) * 1_000_000 < (high as u128) * mult {
            return None;
        }
        let ratio = self.ratio_for(s, now, 30);
        if ratio < self.config.volume_spike_ratio {
            return None;
        }
        let slope = self.slope_for(s, now, 30);
        if slope <= 0 {
            return None;
        }
        let pct = pct_change_fp(high, s.price);
        Some(
            Alert {
                alert_type: AlertType::LongSetupConfirmed,
                symbol: s.symbol.clone(),
                price: s.price,
                details: AlertDetails {
                    price_change_pct: Some(pct),
                    volume_ratio: Some(ratio),
                    cvd_change: Some(slope),
                    timeframe: Some("breakout".to_owned()),
                },
                timestamp: now,
                exchange: self.exchange.clone(),
            },
        )
    }

    fn detect_breakdown_short(&self, s: &SymbolData, now: Timestamp, low: u64) -> (r: Option<
        Alert,
    >)
        requires
            0 <= self.config.breakout_threshold_pct <= 1_000_000_000,
        ensures
            match r {
                Some(a) => breakdown_cond(*s, self.config, now, low) && is_breakdown_alert(
                    a,
                    *s,
                    self.config,
                    now,
                    self.exchange@,
                    low,
                ),
                None => !breakdown_cond(*s, self.config, now, low),
            },
    {
        let mult: i128 = 1_000_000 - (self.config.breakout_threshold_pct as i128);
        proof {
            assert(-(u64::MAX as i128) * 1_001_000_000i128 <= (low as i128) * mult <= (
            u64::MAX as i128) * 1_000_000i128) by (nonlinear_arith)
                requires
                    0 <= (low as i128) <= u64::MAX as i128,
                    -1_001_000_000i128 <= mult <= 1_000_000i128,
            ;
        }
        if (s.price as i128) * 1_000_000 > (low as i128) * mult {
            return None;
        }
        let ratio = self.ratio_for(s, now, 30);
        if ratio < self.config.volume_spike_ratio {
            return None;
        }
        let slope = self.slope_for(s, now, 30);
        if slope >= 0 {
            return None;
        }
        let pct = pct_change_fp(low, s.price);
        Some(
            Alert {
                alert_type: AlertType::ShortSetupConfirmed,
                symbol: s.symbol.clone(),
                price: s.price,
                details: AlertDetails {
                    price_change_pct: Some(pct),
                    volume_ratio: Some(ratio),
                    cvd_change: Some(slope),
                    timeframe: Some("breakdown".to_owned()),
                },
                timestamp: now,
                exchange: self.exchange.clone(),
            },
        )
    }

    /// One full detection pass: in strict priority order, at most one
    /// momentum alert and at most one range alert, advancing the state
    /// machine as [`spec_next_state`] says.
    pub fn detect(&self, symbol: &mut SymbolData, now: Timestamp) -> (alerts: Vec<Alert>)
        requires
            0 <= self.config.breakout_threshold_pct <= 1_000_000_000,
        ensures
            detect_post(*old(symbol), *final(symbol), alerts@, self.config, now, self.exchange@),
    {
        let ghost s0 = *symbol;
        let mut alerts: Vec<Alert> = Vec::new();

        // Momentum phase.
        if let Some(alert) = self.detect_pump(symbol, now) {
            symbol.state = MarketState::PumpDetected;
            alerts.push(alert);
        } else if let Some(alert) = self.detect_dump(symbol, now) {
            symbol.state = MarketState::DumpDetected;
            alerts.push(alert);
        }

        // Range phase, only with CVD data.
        if symbol.cvd_history.len() > 0 {
            let st = symbol.state;
            match st {
                MarketState::Idle | MarketState::PumpDetected | MarketState::DumpDetected => {
                    if let Some(alert) = self.detect_accumulation(symbol, now) {
                        symbol.state = MarketState::Accumulation {
                            start: now,
                            high: symbol.price,
                            low: symbol.price,
                        };
                        alerts.push(alert);
                    } else if let Some(alert) = self.detect_distribution(symbol, now) {
                        symbol.state = MarketState::Distribution {
                            start: now,
                            high: symbol.price,
                            low: symbol.price,
                        };
                        alerts.push(alert);
                    }
                },
                MarketState::Accumulation { start, high, low } => {
                    let high2 = if high >= symbol.price {
                        high
                    } else {
                        symbol.price
                    };
                    let low2 = if low <= symbol.price {
                        low
                    } else {
                        symbol.price
                    };
                    if let Some(alert) = self.detect_breakout_long(symbol, now, high2) {
                        symbol.state = MarketState::BreakoutLong { start };
                        alerts.push(alert);
                    } else {
                        symbol.state = MarketState::Accumulation { start, high: high2, low: low2 };
                    }
                },
                MarketState::Distribution { start, high, low } => {
                    let high2 = if high >= symbol.price {
                        high
                    } else {
                        symbol.price
                    };
                    let low2 = if low <= symbol.price {
                        low
                    } else {
                        symbol.price
                    };
                    if let Some(alert) = self.detect_breakdown_short(symbol, now, low2) {
                        symbol.state = MarketState::BreakdownShort { start };
                        alerts.push(alert);
                    } else {
                        symbol.state = MarketState::Distribution { start, high: high2, low: low2 };
                    }
                },
                MarketState::BreakoutLong { start } => {
                    if sat_sub_u64(now, start) > 300 {
                        symbol.state = MarketState::Idle;
                    }
                },
                MarketState::BreakdownShort { start } => {
                    if sat_sub_u64(now, start) > 300 {
                        symbol.state = MarketState::Idle;
                    }
                },
            }
        }
        alerts
    }
}

proof fn lemma_seq_max_ge_min(s: Seq<u64>)
    requires
        s.len() > 0,
    ensures
        seq_max(s) >= seq_min(s),
        seq_max(s) <= u64::MAX,
        seq_min(s) >= 0,
    decreases s.len(),
{
    if s.len() > 1 {
        lemma_seq_max_ge_min(s.drop_last());
    }
}

} // verus!
