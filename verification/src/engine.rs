//! The signal engine: owner of the symbol table.
//!
//! Tickers pass hard admission filters and update per-symbol snapshots and
//! sliding windows; trades update CVD for Tier1 symbols and run the
//! detector; a periodic rescore evicts stale snapshots, rescores and
//! re-tiers everything, and publishes the new Tier1 symbol list.

use vstd::prelude::*;
use crate::config::Config;
use crate::config::FilterConfig;
use crate::detection::detect_post;
use crate::detection::Detector;
use crate::numeric::parse_i64_or_zero;
use crate::numeric::parse_u64_or_zero;
use crate::numeric::parse_val_i64;
use crate::numeric::parse_val_u64;
use crate::numeric::parse_ok_u64;
use crate::numeric::sat_sub;
use crate::numeric::sat_sub_u64;
use crate::detection::clamp_i128;
use crate::scoring::count_qualified;
use crate::scoring::lemma_count_qualified_same_scores;
use crate::scoring::sorted_desc;
use crate::scoring::spec_total_score;
use crate::scoring::Scorer;
use crate::types::Alert;
use crate::types::MarketState;
use crate::types::SymbolData;
use crate::types::TickerData;
use crate::types::Tier;
use crate::types::Timestamp;
use crate::types::TradeData;
use crate::types::PRICE_SCALE;
use std::collections::VecDeque;

verus! {

/// A symbol string ends in the required quote-asset suffix.
pub open spec fn has_usdt_suffix(s: Seq<char>) -> bool {
    &&& s.len() >= 4
    &&& s[s.len() - 4] == 'U'
    &&& s[s.len() - 3] == 'S'
    &&& s[s.len() - 2] == 'D'
    &&& s[s.len() - 1] == 'T'
}

/// The hard admission filters: quote-asset suffix, parseable quote volume
/// and price at their minimums, and enough trades.
pub open spec fn spec_passes_filters(t: TickerData, f: FilterConfig) -> bool {
    &&& has_usdt_suffix(t.symbol@)
    &&& parse_ok_u64(t.quote_volume@, 8)
    &&& parse_val_u64(t.quote_volume@, 8) >= f.min_quote_volume
    &&& parse_ok_u64(t.current_price@, 8)
    &&& parse_val_u64(t.current_price@, 8) >= f.min_price
    &&& t.number_of_trades >= f.min_trades_24h
}

/// A window after appending one entry and evicting from the front down to
/// the capacity.
pub open spec fn push_trim<T>(w: Seq<(Timestamp, T)>, e: (Timestamp, T), cap: int) -> Seq<
    (Timestamp, T),
> {
    let w2 = w.push(e);
    if w2.len() <= cap {
        w2
    } else {
        w2.skip(w2.len() - cap)
    }
}

/// Index of the snapshot holding this symbol, or the length if none does.
pub open spec fn first_sym(t: Seq<SymbolData>, sym: Seq<char>) -> int
    decreases t.len(),
{
    if t.len() == 0 {
        0
    } else if t[0].symbol@ == sym {
        0
    } else {
        1 + first_sym(t.drop_first(), sym)
    }
}

proof fn lemma_first_sym_is(t: Seq<SymbolData>, sym: Seq<char>, i: int)
    requires
        0 <= i <= t.len(),
        forall|j: int| 0 <= j < i ==> (#[trigger] t[j].symbol)@ != sym,
        i < t.len() ==> t[i].symbol@ == sym,
    ensures
        first_sym(t, sym) == i,
    decreases i,
{
    if t.len() == 0 {
    } else if i == 0 {
    } else {
        lemma_first_sym_is(t.drop_first(), sym, i - 1);
    }
}

/// A snapshot after a ticker overwrote its market fields and windows.
pub open spec fn ticker_applied(
    b: SymbolData,
    a: SymbolData,
    t: TickerData,
    now: Timestamp,
    cap: int,
) -> bool {
    &&& b.symbol@ == a.symbol@
    &&& b.price == parse_val_u64(t.current_price@, 8)
    &&& b.price_change_pct_24h == parse_val_i64(t.price_change_percent@, 4)
    &&& b.volume_24h == parse_val_u64(t.volume@, 8)
    &&& b.quote_volume_24h == parse_val_u64(t.quote_volume@, 8)
    &&& b.trades_24h == t.number_of_trades
    &&& b.high_24h == parse_val_u64(t.high_price@, 8)
    &&& b.low_24h == parse_val_u64(t.low_price@, 8)
    &&& b.open_24h == parse_val_u64(t.open_price@, 8)
    &&& b.last_update_time == now
    &&& b.score == a.score
    &&& b.tier == a.tier
    &&& b.cvd == a.cvd
    &&& b.cvd_history@ == a.cvd_history@
    &&& b.state == a.state
    &&& b.last_alert_time == a.last_alert_time
    &&& b.price_window@ == push_trim(a.price_window@, (now, b.price), cap)
    &&& b.volume_window@ == push_trim(a.volume_window@, (now, b.quote_volume_24h), cap)
}

/// A snapshot created by its first accepted ticker.
pub open spec fn ticker_created(b: SymbolData, t: TickerData, now: Timestamp, cap: int) -> bool {
    &&& b.symbol@ == t.symbol@
    &&& b.price == parse_val_u64(t.current_price@, 8)
    &&& b.price_change_pct_24h == parse_val_i64(t.price_change_percent@, 4)
    &&& b.volume_24h == parse_val_u64(t.volume@, 8)
    &&& b.quote_volume_24h == parse_val_u64(t.quote_volume@, 8)
    &&& b.trades_24h == t.number_of_trades
    &&& b.high_24h == parse_val_u64(t.high_price@, 8)
    &&& b.low_24h == parse_val_u64(t.low_price@, 8)
    &&& b.open_24h == parse_val_u64(t.open_price@, 8)
    &&& b.last_update_time == now
    &&& b.score == 0
    &&& b.tier == Tier::Ignored
    &&& b.cvd == 0
    &&& b.cvd_history@.len() == 0
    &&& b.state == MarketState::Idle
    &&& b.last_alert_time is None
    &&& b.price_window@ == push_trim(Seq::<(Timestamp, u64)>::empty(), (now, b.price), cap)
    &&& b.volume_window@ == push_trim(
        Seq::<(Timestamp, u64)>::empty(),
        (now, b.quote_volume_24h),
        cap,
    )
}

/// How one ticker transforms the symbol table: rejected tickers change
/// nothing; accepted ones update their symbol's snapshot or append a fresh
/// one.
pub open spec fn ticker_step(
    a: Seq<SymbolData>,
    t: TickerData,
    m: Seq<SymbolData>,
    f: FilterConfig,
    now: Timestamp,
    cap: int,
) -> bool {
    if !spec_passes_filters(t, f) {
        m == a
    } else {
        let i = first_sym(a, t.symbol@);
        if i < a.len() {
            &&& m.len() == a.len()
            &&& forall|j: int| 0 <= j < a.len() && j != i ==> m[j] == a[j]
            &&& ticker_applied(m[i], a[i], t, now, cap)
        } else {
            &&& m.len() == a.len() + 1
            &&& forall|j: int| 0 <= j < a.len() ==> m[j] == a[j]
            &&& ticker_created(m.last(), t, now, cap)
        }
    }
}

/// A whole batch of tickers applied in order.
pub open spec fn tickers_applied(
    a: Seq<SymbolData>,
    ts: Seq<TickerData>,
    b: Seq<SymbolData>,
    f: FilterConfig,
    now: Timestamp,
    cap: int,
) -> bool
    decreases ts.len(),
{
    if ts.len() == 0 {
        a == b
    } else {
        exists|m: Seq<SymbolData>|
            #[trigger] ticker_step(a, ts[0], m, f, now, cap) && tickers_applied(
                m,
                ts.drop_first(),
                b,
                f,
                now,
                cap,
            )
    }
}

proof fn lemma_tickers_applied_snoc(
    a: Seq<SymbolData>,
    ts: Seq<TickerData>,
    b: Seq<SymbolData>,
    t: TickerData,
    c: Seq<SymbolData>,
    f: FilterConfig,
    now: Timestamp,
    cap: int,
)
    requires
        tickers_applied(a, ts, b, f, now, cap),
        ticker_step(b, t, c, f, now, cap),
    ensures
        tickers_applied(a, ts.push(t), c, f, now, cap),
    decreases ts.len(),
{
    if ts.len() == 0 {
        assert(a == b);
        assert(ts.push(t)[0] == t);
        assert(ts.push(t).drop_first() =~= Seq::<TickerData>::empty());
        assert(ticker_step(a, t, c, f, now, cap));
        assert(tickers_applied(c, ts.push(t).drop_first(), c, f, now, cap));
    } else {
        let m = choose|m: Seq<SymbolData>|
            #[trigger] ticker_step(a, ts[0], m, f, now, cap) && tickers_applied(
                m,
                ts.drop_first(),
                b,
                f,
                now,
                cap,
            );
        assert(ts.push(t)[0] == ts[0]);
        assert(ts.push(t).drop_first() =~= ts.drop_first().push(t));
        lemma_tickers_applied_snoc(m, ts.drop_first(), b, t, c, f, now, cap);
    }
}

/// The update a Tier1 trade makes to a snapshot's CVD before detection: the
/// signed notional joins the running sum and its new value joins the
/// history; an unparseable or zero price or quantity changes nothing.
pub open spec fn trade_mid_ok(
    mid: SymbolData,
    s: SymbolData,
    tr: TradeData,
    now: Timestamp,
    cap: int,
) -> bool {
    let p = parse_val_u64(tr.price@, 8);
    let q = parse_val_u64(tr.quantity@, 8);
    &&& mid.symbol@ == s.symbol@
    &&& mid.price == s.price
    &&& mid.price_change_pct_24h == s.price_change_pct_24h
    &&& mid.volume_24h == s.volume_24h
    &&& mid.quote_volume_24h == s.quote_volume_24h
    &&& mid.trades_24h == s.trades_24h
    &&& mid.high_24h == s.high_24h
    &&& mid.low_24h == s.low_24h
    &&& mid.open_24h == s.open_24h
    &&& mid.score == s.score
    &&& mid.tier == s.tier
    &&& mid.state == s.state
    &&& mid.last_alert_time == s.last_alert_time
    &&& mid.last_update_time == s.last_update_time
    &&& mid.price_window@ == s.price_window@
    &&& mid.volume_window@ == s.volume_window@
    &&& if p == 0 || q == 0 {
        mid.cvd == s.cvd && mid.cvd_history@ == s.cvd_history@
    } else {
        let notional = (p * q) / PRICE_SCALE as int;
        let delta = if tr.is_buyer_maker {
            -notional
        } else {
            notional
        };
        &&& mid.cvd == clamp_i128(s.cvd + delta)
        &&& mid.cvd_history@ == push_trim(s.cvd_history@, (now, mid.cvd), cap)
    }
}

/// The tier a non-selected snapshot is demoted to: never Tier1.
pub open spec fn spec_demoted_tier(t2_threshold: u64, score: u64) -> Tier {
    if score >= t2_threshold {
        Tier::Tier2
    } else {
        Tier::Ignored
    }
}

/// Snapshots whose last update is within the staleness threshold.
pub open spec fn fresh_only(t: Seq<SymbolData>, now: Timestamp, thr: u64) -> Seq<SymbolData>
    decreases t.len(),
{
    if t.len() == 0 {
        Seq::empty()
    } else {
        let rest = fresh_only(t.drop_last(), now, thr);
        if sat_sub(now as int, t.last().last_update_time as int) <= thr {
            rest.push(t.last())
        } else {
            rest
        }
    }
}

/// A rescored snapshot: the same data, a fresh score.
pub open spec fn scored_from(b: SymbolData, a: SymbolData, cfg: crate::config::ScoringConfig) -> bool {
    &&& b.symbol@ == a.symbol@
    &&& b.price == a.price
    &&& b.price_change_pct_24h == a.price_change_pct_24h
    &&& b.volume_24h == a.volume_24h
    &&& b.quote_volume_24h == a.quote_volume_24h
    &&& b.trades_24h == a.trades_24h
    &&& b.high_24h == a.high_24h
    &&& b.low_24h == a.low_24h
    &&& b.open_24h == a.open_24h
    &&& b.score == spec_total_score(cfg, a)
    &&& b.tier == a.tier
    &&& b.cvd == a.cvd
    &&& b.cvd_history@ == a.cvd_history@
    &&& b.price_window@ == a.price_window@
    &&& b.volume_window@ == a.volume_window@
    &&& b.state == a.state
    &&& b.last_alert_time == a.last_alert_time
    &&& b.last_update_time == a.last_update_time
}

/// A snapshot after tier assignment: selected snapshots become Tier1 and
/// keep their Tier1 data; the rest are demoted by the threshold rule with
/// CVD and state cleared.
pub open spec fn tiered_from(b: SymbolData, a: SymbolData, selected: bool, t2: u64) -> bool {
    &&& b.symbol@ == a.symbol@
    &&& b.price == a.price
    &&& b.price_change_pct_24h == a.price_change_pct_24h
    &&& b.volume_24h == a.volume_24h
    &&& b.quote_volume_24h == a.quote_volume_24h
    &&& b.trades_24h == a.trades_24h
    &&& b.high_24h == a.high_24h
    &&& b.low_24h == a.low_24h
    &&& b.open_24h == a.open_24h
    &&& b.score == a.score
    &&& b.price_window@ == a.price_window@
    &&& b.volume_window@ == a.volume_window@
    &&& b.last_alert_time == a.last_alert_time
    &&& b.last_update_time == a.last_update_time
    &&& if selected {
        &&& b.tier == Tier::Tier1
        &&& b.cvd == a.cvd
        &&& b.cvd_history@ == a.cvd_history@
        &&& b.state == a.state
    } else {
        &&& b.tier == spec_demoted_tier(t2, a.score)
        &&& b.cvd == 0
        &&& b.cvd_history@.len() == 0
        &&& b.state == MarketState::Idle
    }
}

/// A snapshot after a whole rescore pass: the same market data, a fresh
/// score, and the tier (with its Tier1 data kept or cleared) assigned by
/// whether the snapshot was selected.
pub open spec fn rescored_from(
    b: SymbolData,
    a: SymbolData,
    selected: bool,
    scfg: crate::config::ScoringConfig,
) -> bool {
    &&& b.symbol@ == a.symbol@
    &&& b.price == a.price
    &&& b.price_change_pct_24h == a.price_change_pct_24h
    &&& b.volume_24h == a.volume_24h
    &&& b.quote_volume_24h == a.quote_volume_24h
    &&& b.trades_24h == a.trades_24h
    &&& b.high_24h == a.high_24h
    &&& b.low_24h == a.low_24h
    &&& b.open_24h == a.open_24h
    &&& b.score == spec_total_score(scfg, a)
    &&& b.price_window@ == a.price_window@
    &&& b.volume_window@ == a.volume_window@
    &&& b.last_alert_time == a.last_alert_time
    &&& b.last_update_time == a.last_update_time
    &&& if selected {
        &&& b.tier == Tier::Tier1
        &&& b.cvd == a.cvd
        &&& b.cvd_history@ == a.cvd_history@
        &&& b.state == a.state
    } else {
        &&& b.tier == spec_demoted_tier(scfg.tier2_threshold, b.score)
        &&& b.cvd == 0
        &&& b.cvd_history@.len() == 0
        &&& b.state == MarketState::Idle
    }
}

/// Counts by tier and market state, for observability.
#[derive(Debug, Clone)]
pub struct StateCounts {
    pub idle: usize,
    pub accumulation: usize,
    pub distribution: usize,
    pub breakout_long: usize,
    pub breakdown_short: usize,
    pub pump_detected: usize,
    pub dump_detected: usize,
}

#[derive(Debug, Clone)]
pub struct EngineStats {
    pub total_symbols: usize,
    pub tier1_symbols: usize,
    pub tier2_symbols: usize,
    pub state_counts: StateCounts,
}

pub open spec fn count_by(t: Seq<SymbolData>, f: spec_fn(SymbolData) -> bool) -> int
    decreases t.len(),
{
    if t.len() == 0 {
        0
    } else {
        count_by(t.drop_last(), f) + if f(t.last()) {
            1int
        } else {
            0int
        }
    }
}

proof fn lemma_count_by_step(t: Seq<SymbolData>, f: spec_fn(SymbolData) -> bool, i: int)
    requires
        0 <= i < t.len(),
    ensures
        count_by(t.take(i + 1), f) == count_by(t.take(i), f) + if f(t[i]) {
            1int
        } else {
            0int
        },
        count_by(t.take(i + 1), f) <= i + 1,
        count_by(t.take(i + 1), f) >= 0,
    decreases i,
{
    assert(t.take(i + 1).drop_last() =~= t.take(i));
    assert(t.take(i + 1).last() == t[i]);
    if i > 0 {
        lemma_count_by_step(t, f, i - 1);
    }
}

/// Applies hard filters, routes tickers and trades to snapshots, and
/// rescores on a timer.
pub struct SignalEngine {
    pub config: Config,
    pub symbols: Vec<SymbolData>,
    pub scorer: Scorer,
    pub detector: Detector,
}

impl SignalEngine {
    /// Configuration consistent across components: the scorer and detector
    /// carry the engine's own settings, the weights stay within overflow
    /// headroom, the tier thresholds are ordered, and the breakout
    /// threshold is within its supported range.
    pub open spec fn wf(self) -> bool {
        &&& self.scorer.config == self.config.scoring
        &&& self.detector.config == self.config.detection
        &&& self.config.scoring.wf()
        &&& self.config.scoring.tier1_threshold > self.config.scoring.tier2_threshold
        &&& 0 <= self.config.detection.breakout_threshold_pct <= 1_000_000_000
    }

    pub fn new(config: Config) -> (e: SignalEngine)
        requires
            config.scoring.wf(),
            config.scoring.tier1_threshold > config.scoring.tier2_threshold,
            0 <= config.detection.breakout_threshold_pct <= 1_000_000_000,
        ensures
            e.wf(),
            e.config == config,
            e.symbols@.len() == 0,
    {
        let scorer = Scorer::new(config.scoring);
        let detector = Detector::new(config.detection);
        SignalEngine { config, symbols: Vec::new(), scorer, detector }
    }

    /// Whether a ticker passes the hard admission filters.
    pub fn passes_hard_filters(&self, ticker: &TickerData) -> (r: bool)
        ensures
            r == spec_passes_filters(*ticker, self.config.filters),
    {
        if !ends_with_usdt(&ticker.symbol) {
            return false;
        }
        let quote_volume = match crate::numeric::parse_fixed_u64(ticker.quote_volume.as_str(), 8) {
            Some(v) => v,
            None => {
                return false;
            },
        };
        let current_price = match crate::numeric::parse_fixed_u64(ticker.current_price.as_str(), 8) {
            Some(v) => v,
            None => {
                return false;
            },
        };
        quote_volume >= self.config.filters.min_quote_volume && current_price
            >= self.config.filters.min_price && ticker.number_of_trades
            >= self.config.filters.min_trades_24h
    }

    /// Feeds one ticker through the filters and into the table.
    pub fn process_one_ticker(&mut self, ticker: &TickerData, now: Timestamp)
        requires
            old(self).wf(),
        ensures
            final(self).wf(),
            final(self).config == old(self).config,
            final(self).scorer == old(self).scorer,
            final(self).detector == old(self).detector,
            ticker_step(
                old(self).symbols@,
                *ticker,
                final(self).symbols@,
                old(self).config.filters,
                now,
                old(self).config.performance.price_window_size as int,
            ),
    {
        if !self.passes_hard_filters(ticker) {
            return ;
        }
        let cap = self.config.performance.price_window_size;
        let ghost a = self.symbols@;
        let i = find_symbol(&self.symbols, &ticker.symbol);
        if i < self.symbols.len() {
            let mut s = self.symbols.remove(i);
            update_symbol_from_ticker(&mut s, ticker, now, cap);
            let ghost snew = s;
            self.symbols.insert(i, s);
            proof {
                assert(self.symbols@ =~= a.update(i as int, snew));
                assert(forall|j: int|
                    0 <= j < a.len() && j != i ==> self.symbols@[j] == a[j]);
            }
        } else {
            let mut s = SymbolData::new(ticker.symbol.clone(), now);
            let ghost fresh = s;
            update_symbol_from_ticker(&mut s, ticker, now, cap);
            let ghost snew = s;
            self.symbols.push(s);
            proof {
                assert(self.symbols@ =~= a.push(snew));
                assert(forall|j: int| 0 <= j < a.len() ==> self.symbols@[j] == a[j]);
                assert(fresh.price_window@ =~= Seq::<(Timestamp, u64)>::empty());
                assert(fresh.volume_window@ =~= Seq::<(Timestamp, u64)>::empty());
                assert(ticker_created(self.symbols@.last(), *ticker, now, cap as int));
            }
        }
    }

    /// Feeds a batch of tickers through, in order.  The returned list is
    /// always empty: Tier1 membership only changes on rescoring.
    pub fn process_ticker(&mut self, tickers: &Vec<TickerData>, now: Timestamp) -> (r: Vec<String>)
        requires
            old(self).wf(),
        ensures
            final(self).wf(),
            final(self).config == old(self).config,
            final(self).scorer == old(self).scorer,
            final(self).detector == old(self).detector,
            r@.len() == 0,
            tickers_applied(
                old(self).symbols@,
                tickers@,
                final(self).symbols@,
                old(self).config.filters,
                now,
                old(self).config.performance.price_window_size as int,
            ),
    {
        let ghost t0 = self.symbols@;
        let ghost f = self.config.filters;
        let ghost cap = self.config.performance.price_window_size as int;
        proof {
            assert(tickers@.take(0) =~= Seq::<TickerData>::empty());
        }
        let mut i: usize = 0;
        while i < tickers.len()
            invariant
                0 <= i <= tickers@.len(),
                self.wf(),
                self.config == old(self).config,
                self.scorer == old(self).scorer,
                self.detector == old(self).detector,
                f == self.config.filters,
                cap == self.config.performance.price_window_size as int,
                t0 == old(self).symbols@,
                tickers_applied(t0, tickers@.take(i as int), self.symbols@, f, now, cap),
            decreases tickers@.len() - i,
        {
            let ghost pre = self.symbols@;
            self.process_one_ticker(&tickers[i], now);
            proof {
                assert(tickers@.take(i + 1) =~= tickers@.take(i as int).push(tickers@[i as int]));
                lemma_tickers_applied_snoc(
                    t0,
                    tickers@.take(i as int),
                    pre,
                    tickers@[i as int],
                    self.symbols@,
                    f,
                    now,
                    cap,
                );
            }
            i = i + 1;
        }
        proof {
            assert(tickers@.take(tickers@.len() as int) =~= tickers@);
        }
        Vec::new()
    }

    /// Feeds one trade through: ignored unless the symbol is known and
    /// Tier1; otherwise the CVD is updated and the detector runs, returning
    /// its alerts.
    pub fn process_trade(&mut self, trade: &TradeData, now: Timestamp) -> (alerts: Vec<Alert>)
        requires
            old(self).wf(),
        ensures
            final(self).wf(),
            final(self).config == old(self).config,
            final(self).scorer == old(self).scorer,
            final(self).detector == old(self).detector,
            ({
                let a = old(self).symbols@;
                let i = first_sym(a, trade.symbol@);
                if i == a.len() || a[i].tier != Tier::Tier1 {
                    final(self).symbols@ == a && alerts@.len() == 0
                } else {
                    &&& final(self).symbols@.len() == a.len()
                    &&& forall|j: int|
                        0 <= j < a.len() && j != i ==> final(self).symbols@[j] == a[j]
                    &&& exists|mid: SymbolData|
                        #[trigger] trade_mid_ok(
                            mid,
                            a[i],
                            *trade,
                            now,
                            old(self).config.performance.cvd_history_size as int,
                        ) && detect_post(
                            mid,
                            final(self).symbols@[i],
                            alerts@,
                            old(self).config.detection,
                            now,
                            old(self).detector.exchange@,
                        )
                }
            }),
    {
        let ghost a = self.symbols@;
        let i = find_symbol(&self.symbols, &trade.symbol);
        if i == self.symbols.len() {
            return Vec::new();
        }
        let is_tier1 = matches!(self.symbols[i].tier, Tier::Tier1);
        if !is_tier1 {
            proof {
                assert(a[i as int].tier != Tier::Tier1);
            }
            return Vec::new();
        }
        let cap = self.config.performance.cvd_history_size;
        let mut s = self.symbols.remove(i);
        update_cvd(&mut s, trade, now, cap);
        let ghost mid = s;
        let alerts = self.detector.detect(&mut s, now);
        let ghost snew = s;
        self.symbols.insert(i, s);
        proof {
            assert(self.symbols@ =~= a.update(i as int, snew));
            assert(trade_mid_ok(mid, a[i as int], *trade, now, cap as int));
            assert(forall|j: int|
                0 <= j < a.len() && j != i ==> self.symbols@[j] == a[j]);
        }
        alerts
    }

    /// The periodic rescore: evicts stale snapshots, rescores the rest,
    /// sorts them by score, selects and marks the Tier1 set, demotes and
    /// clears everything else, and returns the Tier1 symbols.
    ///
    /// Any snapshot left scoring under the Tier2 threshold holds no Tier1
    /// data afterwards: tier `Ignored`, CVD zero, history empty, state
    /// `Idle`.
    #[verifier::rlimit(100)]
    pub fn rescore_symbols(&mut self, now: Timestamp) -> (r: Vec<String>)
        requires
            old(self).wf(),
        ensures
            final(self).wf(),
            final(self).config == old(self).config,
            final(self).scorer == old(self).scorer,
            final(self).detector == old(self).detector,
            sorted_desc(final(self).symbols@),
            r@.len() == vstd::math::min(
                old(self).config.scoring.max_tier1_symbols as int,
                count_qualified(
                    final(self).symbols@,
                    old(self).config.scoring.tier1_threshold as int,
                ),
            ),
            r@.len() <= old(self).config.scoring.max_tier1_symbols,
            forall|j: int|
                0 <= j < r@.len() ==> #[trigger] r@[j]@ == final(self).symbols@[j].symbol@
                    && final(self).symbols@[j].tier == Tier::Tier1
                    && final(self).symbols@[j].score
                    >= old(self).config.scoring.tier1_threshold,
            ({
                let fs = final(self).symbols@;
                let t2 = old(self).config.scoring.tier2_threshold;
                forall|j: int|
                    r@.len() <= j < fs.len() ==> (#[trigger] fs[j]).tier == spec_demoted_tier(
                        t2,
                        fs[j].score,
                    ) && fs[j].cvd == 0 && fs[j].cvd_history@.len() == 0 && fs[j].state
                        == MarketState::Idle
            }),
            ({
                let fs = final(self).symbols@;
                let t2 = old(self).config.scoring.tier2_threshold;
                forall|j: int|
                    0 <= j < fs.len() && (#[trigger] fs[j]).score < t2 ==> fs[j].tier
                        == Tier::Ignored && fs[j].cvd == 0 && fs[j].cvd_history@.len() == 0
                        && fs[j].state == MarketState::Idle
            }),
            final(self).symbols@.len() == fresh_only(
                old(self).symbols@,
                now,
                old(self).config.filters.stale_data_threshold_secs,
            ).len(),
            ({
                let fresh = fresh_only(
                    old(self).symbols@,
                    now,
                    old(self).config.filters.stale_data_threshold_secs,
                );
                let fs = final(self).symbols@;
                let scfg = old(self).config.scoring;
                &&& forall|k: int|
                    #![trigger fs[k]]
                    0 <= k < fs.len() ==> exists|j: int|
                        #![trigger fresh[j]]
                        0 <= j < fresh.len() && rescored_from(
                            fs[k],
                            fresh[j],
                            k < r@.len(),
                            scfg,
                        )
                &&& forall|j: int|
                    #![trigger fresh[j]]
                    0 <= j < fresh.len() ==> exists|k: int|
                        #![trigger fs[k]]
                        0 <= k < fs.len() && rescored_from(
                            fs[k],
                            fresh[j],
                            k < r@.len(),
                            scfg,
                        )
            }),
    {
        self.evict_stale(now);
        let ghost fresh = self.symbols@;
        self.score_all();
        let ghost scored = self.symbols@;
        let r = self.scorer.select_tier1_symbols(&mut self.symbols);
        let ghost sorted = self.symbols@;
        let n = r.len();
        self.apply_tiers(n);
        proof {
            let t1 = old(self).config.scoring.tier1_threshold as int;
            let t2 = old(self).config.scoring.tier2_threshold;
            // Tiering leaves symbols and scores in place.
            assert forall|j: int| 0 <= j < sorted.len() implies (#[trigger] self.symbols@[j]).score
                == sorted[j].score && self.symbols@[j].symbol@ == sorted[j].symbol@ by {
                assert(tiered_from(self.symbols@[j], sorted[j], j < n, t2 as u64));
            }
            lemma_count_qualified_same_scores(self.symbols@, sorted, t1);
            assert forall|p: int, q: int|
                0 <= p <= q < self.symbols@.len() implies self.symbols@[p].score
                >= self.symbols@[q].score by {
                assert(self.symbols@[p].score == sorted[p].score);
                assert(self.symbols@[q].score == sorted[q].score);
                assert(sorted[p].score >= sorted[q].score);
            }
            assert(sorted_desc(self.symbols@));
            assert forall|j: int| 0 <= j < r@.len() implies #[trigger] r@[j]@
                == self.symbols@[j].symbol@ && self.symbols@[j].tier == Tier::Tier1
                && self.symbols@[j].score >= t1 by {
                assert(r@[j]@ == sorted[j].symbol@);
                assert(sorted[j].score >= t1);
                assert(tiered_from(self.symbols@[j], sorted[j], j < n, t2 as u64));
            }
            // A selected snapshot scores at least the Tier1 threshold, which
            // exceeds the Tier2 threshold.
            assert forall|j: int|
                0 <= j < self.symbols@.len() && (#[trigger] self.symbols@[j]).score < t2
                    implies self.symbols@[j].tier == Tier::Ignored && self.symbols@[j].cvd == 0
                && self.symbols@[j].cvd_history@.len() == 0 && self.symbols@[j].state
                == MarketState::Idle by {
                assert(tiered_from(self.symbols@[j], sorted[j], j < n, t2));
                if j < n {
                    assert(sorted[j].score >= t1);
                }
            }
            // Provenance: the final table is the fresh snapshots, rescored
            // and re-tiered, in sorted order.
            broadcast use vstd::seq_lib::group_to_multiset_ensures;

            let scfg = old(self).config.scoring;
            let fs = self.symbols@;
            assert forall|k: int| #![trigger fs[k]] 0 <= k < fs.len() implies exists|j: int|
                #![trigger fresh[j]]
                0 <= j < fresh.len() && rescored_from(fs[k], fresh[j], k < r@.len(), scfg) by {
                assert(sorted.contains(sorted[k]));
                assert(sorted.to_multiset().count(sorted[k]) > 0);
                assert(scored.to_multiset().count(sorted[k]) > 0);
                assert(scored.contains(sorted[k]));
                let j = choose|j: int| 0 <= j < scored.len() && scored[j] == sorted[k];
                assert(scored_from(scored[j], fresh[j], scfg));
                assert(tiered_from(fs[k], sorted[k], k < n, t2));
                assert(rescored_from(fs[k], fresh[j], k < r@.len(), scfg));
            }
            assert forall|j: int| #![trigger fresh[j]] 0 <= j < fresh.len() implies exists|k: int|
                #![trigger fs[k]]
                0 <= k < fs.len() && rescored_from(fs[k], fresh[j], k < r@.len(), scfg) by {
                assert(scored_from(scored[j], fresh[j], scfg));
                assert(scored.contains(scored[j]));
                assert(scored.to_multiset().count(scored[j]) > 0);
                assert(sorted.to_multiset().count(scored[j]) > 0);
                assert(sorted.contains(scored[j]));
                let k = choose|k: int| 0 <= k < sorted.len() && sorted[k] == scored[j];
                assert(tiered_from(fs[k], sorted[k], k < n, t2));
                assert(rescored_from(fs[k], fresh[j], k < r@.len(), scfg));
            }
        }
        r
    }

    /// Removes snapshots not updated within the staleness threshold.
    pub fn evict_stale(&mut self, now: Timestamp)
        requires
            old(self).wf(),
        ensures
            final(self).wf(),
            final(self).config == old(self).config,
            final(self).scorer == old(self).scorer,
            final(self).detector == old(self).detector,
            final(self).symbols@ == fresh_only(
                old(self).symbols@,
                now,
                old(self).config.filters.stale_data_threshold_secs,
            ),
    {
        let thr = self.config.filters.stale_data_threshold_secs;
        let ghost a = self.symbols@;
        let mut kept: Vec<SymbolData> = Vec::new();
        let ghost mut k: int = 0int;
        while self.symbols.len() > 0
            invariant
                0 <= k <= a.len(),
                self.symbols@ == a.skip(k),
                kept@ == fresh_only(a.take(k), now, thr),
                thr == old(self).config.filters.stale_data_threshold_secs,
                self.config == old(self).config,
                self.scorer == old(self).scorer,
                self.detector == old(self).detector,
                self.wf(),
            decreases a.len() - k,
        {
            proof {
                assert(a.take(k + 1).drop_last() =~= a.take(k));
                assert(a.take(k + 1).last() == a[k]);
            }
            let s = self.symbols.remove(0);
            proof {
                assert(s == a[k]);
                assert(self.symbols@ =~= a.skip(k + 1));
            }
            let age = sat_sub_u64(now, s.last_update_time);
            if age <= thr {
                kept.push(s);
            }
            proof {
                k = k + 1;
            }
        }
        proof {
            assert(a.take(k) =~= a);
        }
        self.symbols = kept;
    }

    /// Recomputes every snapshot's score.
    pub fn score_all(&mut self)
        requires
            old(self).wf(),
        ensures
            final(self).wf(),
            final(self).config == old(self).config,
            final(self).scorer == old(self).scorer,
            final(self).detector == old(self).detector,
            final(self).symbols@.len() == old(self).symbols@.len(),
            forall|i: int|
                0 <= i < old(self).symbols@.len() ==> scored_from(
                    #[trigger] final(self).symbols@[i],
                    old(self).symbols@[i],
                    old(self).config.scoring,
                ),
    {
        let ghost a = self.symbols@;
        let n = self.symbols.len();
        let mut i: usize = 0;
        while i < n
            invariant
                0 <= i <= n == a.len(),
                self.symbols@.len() == a.len(),
                self.wf(),
                self.config == old(self).config,
                self.scorer == old(self).scorer,
                self.detector == old(self).detector,
                forall|j: int| i <= j < a.len() ==> self.symbols@[j] == a[j],
                forall|j: int|
                    0 <= j < i ==> scored_from(
                        #[trigger] self.symbols@[j],
                        a[j],
                        old(self).config.scoring,
                    ),
            decreases n - i,
        {
            let ghost pre = self.symbols@;
            let mut s = self.symbols.remove(i);
            let score = self.scorer.calculate_score(&s);
            s.score = score;
            let ghost snew = s;
            self.symbols.insert(i, s);
            proof {
                assert(self.symbols@ =~= pre.update(i as int, snew));
            }
            i = i + 1;
        }
    }

    /// Marks the first `n` snapshots Tier1 and demotes the rest, clearing
    /// their Tier1 data.
    pub fn apply_tiers(&mut self, n: usize)
        requires
            old(self).wf(),
            n <= old(self).symbols@.len(),
        ensures
            final(self).wf(),
            final(self).config == old(self).config,
            final(self).scorer == old(self).scorer,
            final(self).detector == old(self).detector,
            final(self).symbols@.len() == old(self).symbols@.len(),
            forall|i: int|
                0 <= i < old(self).symbols@.len() ==> tiered_from(
                    #[trigger] final(self).symbols@[i],
                    old(self).symbols@[i],
                    i < n,
                    old(self).config.scoring.tier2_threshold,
                ),
    {
        let ghost a = self.symbols@;
        let t2 = self.config.scoring.tier2_threshold;
        let len = self.symbols.len();
        let mut i: usize = 0;
        while i < len
            invariant
                0 <= i <= len == a.len(),
                self.symbols@.len() == a.len(),
                self.wf(),
                self.config == old(self).config,
                self.scorer == old(self).scorer,
                self.detector == old(self).detector,
                t2 == old(self).config.scoring.tier2_threshold,
                n <= a.len(),
                forall|j: int| i <= j < a.len() ==> self.symbols@[j] == a[j],
                forall|j: int|
                    0 <= j < i ==> tiered_from(#[trigger] self.symbols@[j], a[j], j < n, t2),
            decreases len - i,
        {
            let ghost pre = self.symbols@;
            let mut s = self.symbols.remove(i);
            if i < n {
                s.tier = Tier::Tier1;
            } else {
                let t = if s.score >= t2 {
                    Tier::Tier2
                } else {
                    Tier::Ignored
                };
                s.tier = t;
                s.cvd = 0;
                s.cvd_history.clear();
                s.state = MarketState::Idle;
            }
            let ghost snew = s;
            self.symbols.insert(i, s);
            proof {
                assert(self.symbols@ =~= pre.update(i as int, snew));
            }
            i = i + 1;
        }
    }

    /// Counts by tier and market state.
    pub fn get_stats(&self) -> (st: EngineStats)
        ensures
            st.total_symbols == self.symbols@.len(),
            st.tier1_symbols == count_by(self.symbols@, |s: SymbolData| s.tier == Tier::Tier1),
            st.tier2_symbols == count_by(self.symbols@, |s: SymbolData| s.tier == Tier::Tier2),
            st.state_counts.idle == count_by(
                self.symbols@,
                |s: SymbolData| s.state is Idle,
            ),
            st.state_counts.pump_detected == count_by(
                self.symbols@,
                |s: SymbolData| s.state is PumpDetected,
            ),
            st.state_counts.dump_detected == count_by(
                self.symbols@,
                |s: SymbolData| s.state is DumpDetected,
            ),
            st.state_counts.accumulation == count_by(
                self.symbols@,
                |s: SymbolData| s.state is Accumulation,
            ),
            st.state_counts.distribution == count_by(
                self.symbols@,
                |s: SymbolData| s.state is Distribution,
            ),
            st.state_counts.breakout_long == count_by(
                self.symbols@,
                |s: SymbolData| s.state is BreakoutLong,
            ),
            st.state_counts.breakdown_short == count_by(
                self.symbols@,
                |s: SymbolData| s.state is BreakdownShort,
            ),
    {
        let ghost a = self.symbols@;
        let mut tier1: usize = 0;
        let mut tier2: usize = 0;
        let mut idle: usize = 0;
        let mut accum: usize = 0;
        let mut dist: usize = 0;
        let mut bol: usize = 0;
        let mut bds: usize = 0;
        let mut pump: usize = 0;
        let mut dump: usize = 0;
        let mut i: usize = 0;
        while i < self.symbols.len()
            invariant
                0 <= i <= a.len(),
                self.symbols@ == a,
                tier1 == count_by(a.take(i as int), |s: SymbolData| s.tier == Tier::Tier1),
                tier2 == count_by(a.take(i as int), |s: SymbolData| s.tier == Tier::Tier2),
                idle == count_by(a.take(i as int), |s: SymbolData| s.state is Idle),
                accum == count_by(a.take(i as int), |s: SymbolData| s.state is Accumulation),
                dist == count_by(a.take(i as int), |s: SymbolData| s.state is Distribution),
                bol == count_by(a.take(i as int), |s: SymbolData| s.state is BreakoutLong),
                bds == count_by(a.take(i as int), |s: SymbolData| s.state is BreakdownShort),
                pump == count_by(a.take(i as int), |s: SymbolData| s.state is PumpDetected),
                dump == count_by(a.take(i as int), |s: SymbolData| s.state is DumpDetected),
                tier1 <= i && tier2 <= i && idle <= i && accum <= i && dist <= i && bol <= i
                    && bds <= i && pump <= i && dump <= i,
            decreases a.len() - i,
        {
            proof {
                lemma_count_by_step(a, |s: SymbolData| s.tier == Tier::Tier1, i as int);
                lemma_count_by_step(a, |s: SymbolData| s.tier == Tier::Tier2, i as int);
                lemma_count_by_step(a, |s: SymbolData| s.state is Idle, i as int);
                lemma_count_by_step(a, |s: SymbolData| s.state is Accumulation, i as int);
                lemma_count_by_step(a, |s: SymbolData| s.state is Distribution, i as int);
                lemma_count_by_step(a, |s: SymbolData| s.state is BreakoutLong, i as int);
                lemma_count_by_step(a, |s: SymbolData| s.state is BreakdownShort, i as int);
                lemma_count_by_step(a, |s: SymbolData| s.state is PumpDetected, i as int);
                lemma_count_by_step(a, |s: SymbolData| s.state is DumpDetected, i as int);
            }
            let s = &self.symbols[i];
            match s.tier {
                Tier::Tier1 => {
                    tier1 = tier1 + 1;
                },
                Tier::Tier2 => {
                    tier2 = tier2 + 1;
                },
                Tier::Ignored => {},
            }
            match s.state {
                MarketState::Idle => {
                    idle = idle + 1;
                },
                MarketState::Accumulation { .. } => {
                    accum = accum + 1;
                },
                MarketState::Distribution { .. } => {
                    dist = dist + 1;
                },
                MarketState::BreakoutLong { .. } => {
                    bol = bol + 1;
                },
                MarketState::BreakdownShort { .. } => {
                    bds = bds + 1;
                },
                MarketState::PumpDetected => {
                    pump = pump + 1;
                },
                MarketState::DumpDetected => {
                    dump = dump + 1;
                },
            }
            i = i + 1;
        }
        proof {
            assert(a.take(a.len() as int) =~= a);
        }
        EngineStats {
            total_symbols: self.symbols.len(),
            tier1_symbols: tier1,
            tier2_symbols: tier2,
            state_counts: StateCounts {
                idle,
                accumulation: accum,
                distribution: dist,
                breakout_long: bol,
                breakdown_short: bds,
                pump_detected: pump,
                dump_detected: dump,
            },
        }
    }
}

/// Whether the symbol string ends in `USDT`.
fn ends_with_usdt(s: &String) -> (r: bool)
    ensures
        r == has_usdt_suffix(s@),
{
    let st = s.as_str();
    let n = st.unicode_len();
    if n < 4 {
        return false;
    }
    let c0 = st.get_char(n - 4);
    let c1 = st.get_char(n - 3);
    let c2 = st.get_char(n - 2);
    let c3 = st.get_char(n - 1);
    c0 == 'U' && c1 == 'S' && c2 == 'D' && c3 == 'T'
}

/// Index of the snapshot for this symbol, or the length if there is none.
fn find_symbol(t: &Vec<SymbolData>, sym: &String) -> (r: usize)
    ensures
        r <= t@.len(),
        r < t@.len() ==> t@[r as int].symbol@ == sym@ && forall|j: int|
            0 <= j < r ==> (#[trigger] t@[j].symbol)@ != sym@,
        r == t@.len() ==> forall|j: int| 0 <= j < t@.len() ==> (#[trigger] t@[j].symbol)@ != sym@,
        r == first_sym(t@, sym@),
{
    let n = t.len();
    let mut i: usize = 0;
    while i < n
        invariant
            0 <= i <= n == t@.len(),
            forall|j: int| 0 <= j < i ==> (#[trigger] t@[j].symbol)@ != sym@,
        decreases n - i,
    {
        if t[i].symbol == *sym {
            proof {
                lemma_first_sym_is(t@, sym@, i as int);
            }
            return i;
        }
        i = i + 1;
    }
    proof {
        lemma_first_sym_is(t@, sym@, n as int);
    }
    n
}

/// Evicts from the front until the deque is within its capacity.
fn trim_front<T>(w: &mut VecDeque<(Timestamp, T)>, cap: usize)
    ensures
        final(w)@ == (if old(w)@.len() <= cap {
            old(w)@
        } else {
            old(w)@.skip(old(w)@.len() - cap)
        }),
{
    let ghost w2 = w@;
    proof {
        assert(w@ =~= w2.skip(0));
    }
    while w.len() > cap
        invariant
            w@.len() <= w2.len(),
            w@.len() >= (if cap <= w2.len() {
                cap as int
            } else {
                w2.len() as int
            }),
            w@ == w2.skip(w2.len() - w@.len()),
        decreases w@.len(),
    {
        let ghost k = w2.len() - w@.len();
        w.pop_front();
        proof {
            assert(w@ =~= w2.skip(k + 1));
        }
    }
    proof {
        if w2.len() <= cap {
            assert(w@.len() == w2.len());
            assert(w@ =~= w2);
        } else {
            assert(w@.len() == cap);
        }
    }
}

/// Overwrites the ticker-derived fields and advances the sliding windows.
fn update_symbol_from_ticker(symbol: &mut SymbolData, ticker: &TickerData, now: Timestamp, cap: usize)
    ensures
        ticker_applied(*final(symbol), *old(symbol), *ticker, now, cap as int),
{
    let price = parse_u64_or_zero(ticker.current_price.as_str(), 8);
    let price_change_pct = parse_i64_or_zero(ticker.price_change_percent.as_str(), 4);
    let volume_24h = parse_u64_or_zero(ticker.volume.as_str(), 8);
    let quote_volume_24h = parse_u64_or_zero(ticker.quote_volume.as_str(), 8);
    let high_24h = parse_u64_or_zero(ticker.high_price.as_str(), 8);
    let low_24h = parse_u64_or_zero(ticker.low_price.as_str(), 8);
    let open_24h = parse_u64_or_zero(ticker.open_price.as_str(), 8);

    symbol.price = price;
    symbol.price_change_pct_24h = price_change_pct;
    symbol.volume_24h = volume_24h;
    symbol.quote_volume_24h = quote_volume_24h;
    symbol.trades_24h = ticker.number_of_trades;
    symbol.high_24h = high_24h;
    symbol.low_24h = low_24h;
    symbol.open_24h = open_24h;
    symbol.last_update_time = now;

    symbol.price_window.push_back((now, price));
    trim_front(&mut symbol.price_window, cap);
    proof {
        assert(symbol.price_window@ == push_trim(
            old(symbol).price_window@,
            (now, price),
            cap as int,
        ));
    }

    symbol.volume_window.push_back((now, quote_volume_24h));
    trim_front(&mut symbol.volume_window, cap);
    proof {
        assert(symbol.volume_window@ == push_trim(
            old(symbol).volume_window@,
            (now, quote_volume_24h),
            cap as int,
        ));
    }
}

/// Applies a trade's signed notional to the CVD and appends it to the
/// bounded history; unparseable or zero price or quantity changes nothing.
fn update_cvd(symbol: &mut SymbolData, trade: &TradeData, now: Timestamp, cap: usize)
    ensures
        trade_mid_ok(*final(symbol), *old(symbol), *trade, now, cap as int),
{
    let price = parse_u64_or_zero(trade.price.as_str(), 8);
    let quantity = parse_u64_or_zero(trade.quantity.as_str(), 8);
    if price == 0 || quantity == 0 {
        return ;
    }
    proof {
        assert((price as u128) * (quantity as u128) <= (u64::MAX as u128) * (u64::MAX as u128))
            by (nonlinear_arith)
            requires
                price as u128 <= u64::MAX as u128,
                quantity as u128 <= u64::MAX as u128,
        ;
    }
    let volume128: u128 = ((price as u128) * (quantity as u128)) / (PRICE_SCALE as u128);
    proof {
        vstd::arithmetic::div_mod::lemma_div_is_ordered(
            ((price as u128) * (quantity as u128)) as int,
            (u64::MAX as int) * (u64::MAX as int),
            PRICE_SCALE as int,
        );
        assert(volume128 <= ((u64::MAX as int) * (u64::MAX as int)) / (PRICE_SCALE as int));
    }
    let notional = volume128 as i128;
    let delta: i128 = if trade.is_buyer_maker {
        -notional
    } else {
        notional
    };
    let new_cvd = match symbol.cvd.checked_add(delta) {
        Some(v) => v,
        None => {
            if delta > 0 {
                i128::MAX
            } else {
                i128::MIN
            }
        },
    };
    symbol.cvd = new_cvd;
    symbol.cvd_history.push_back((now, new_cvd));
    trim_front(&mut symbol.cvd_history, cap);
    proof {
        assert(symbol.cvd_history@ == push_trim(
            old(symbol).cvd_history@,
            (now, new_cvd),
            cap as int,
        ));
    }
}

} // verus!
