//! Scoring and tiering of symbols.
//!
//! A symbol's score is a weighted sum of three sub-scores — volume,
//! volatility and activity — each clamped to `[0, SCORE_SCALE]`, as is the
//! total.  The volume sub-score follows a piecewise-linear base-ten logarithm
//! of quote volume, anchored exactly at each power of ten: one million
//! dollars of quote volume scores 0, one billion scores 1, ten million about
//! a third.

use vstd::prelude::*;
use vstd::seq_lib::*;
use crate::config::ScoringConfig;
use crate::types::SymbolData;
use crate::types::Tier;
use crate::types::SCORE_SCALE;

verus! {

/// Clamps a raw score into `[0, SCORE_SCALE]`.
pub open spec fn clamp_score(v: int) -> int {
    if v < 0 {
        0
    } else if v > SCORE_SCALE {
        SCORE_SCALE as int
    } else {
        v
    }
}

/// Volume sub-score of a `PRICE_SCALE`-scaled quote volume: a
/// piecewise-linear base-ten logarithm of the volume in millions, divided by
/// three and clamped.  Zero at or below one million, one at or above one
/// billion, and exact at each power of ten in between.
pub open spec fn spec_volume_score(q: int) -> int {
    if q < 100_000_000_000_000 {
        0
    } else if q >= 100_000_000_000_000_000 {
        SCORE_SCALE as int
    } else {
        let k: int = if q < 1_000_000_000_000_000 {
            0
        } else if q < 10_000_000_000_000_000 {
            1
        } else {
            2
        };
        let lo: int = if q < 1_000_000_000_000_000 {
            100_000_000_000_000
        } else if q < 10_000_000_000_000_000 {
            1_000_000_000_000_000
        } else {
            10_000_000_000_000_000
        };
        (k * 1_000_000 + ((q - lo) * 1_000_000) / (9 * lo)) / 3
    }
}

/// Volatility sub-score of a `PCT_SCALE`-scaled 24h change: absolute change
/// over ten percent, clamped.
pub open spec fn spec_volatility_score(p: int) -> int {
    clamp_score(10 * (if p < 0 {
        -p
    } else {
        p
    }))
}

/// Activity sub-score of a 24h trade count: count over ten thousand,
/// clamped.
pub open spec fn spec_activity_score(n: int) -> int {
    clamp_score(100 * n)
}

/// Weighted total of the three sub-scores, clamped.
pub open spec fn spec_total_score(cfg: ScoringConfig, s: SymbolData) -> int {
    clamp_score(
        (cfg.weights.volume_weight * spec_volume_score(s.quote_volume_24h as int)
            + cfg.weights.volatility_weight * spec_volatility_score(
            s.price_change_pct_24h as int,
        ) + cfg.weights.activity_weight * spec_activity_score(s.trades_24h as int))
            / SCORE_SCALE as int,
    )
}

/// The tier a score earns under the configured thresholds.
pub open spec fn spec_assign_tier(cfg: ScoringConfig, score: int) -> Tier {
    if score >= cfg.tier1_threshold {
        Tier::Tier1
    } else if score >= cfg.tier2_threshold {
        Tier::Tier2
    } else {
        Tier::Ignored
    }
}

/// Scores never descend below zero nor rise above `SCORE_SCALE`, whatever
/// the inputs: every sub-score is clamped and so is the total.
pub proof fn lemma_score_in_range(cfg: ScoringConfig, s: SymbolData)
    ensures
        0 <= spec_total_score(cfg, s) <= SCORE_SCALE,
{
}

pub open spec fn sorted_desc(s: Seq<SymbolData>) -> bool {
    forall|i: int, j: int| 0 <= i <= j < s.len() ==> s[i].score >= s[j].score
}

/// How many snapshots reach the given score threshold.
pub open spec fn count_qualified(s: Seq<SymbolData>, t: int) -> int
    decreases s.len(),
{
    if s.len() == 0 {
        0
    } else {
        count_qualified(s.drop_last(), t) + if s.last().score >= t {
            1int
        } else {
            0int
        }
    }
}

proof fn lemma_count_step(s: Seq<SymbolData>, t: int, i: int)
    requires
        0 <= i < s.len(),
    ensures
        count_qualified(s.take(i + 1), t) == count_qualified(s.take(i), t) + if s[i].score >= t {
            1int
        } else {
            0int
        },
{
    assert(s.take(i + 1).drop_last() =~= s.take(i));
    assert(s.take(i + 1).last() == s[i]);
}

proof fn lemma_count_monotone(s: Seq<SymbolData>, t: int, i: int)
    requires
        0 <= i <= s.len(),
    ensures
        count_qualified(s.take(i), t) <= count_qualified(s, t),
    decreases s.len() - i,
{
    if i < s.len() {
        lemma_count_step(s, t, i);
        lemma_count_monotone(s, t, i + 1);
    } else {
        assert(s.take(i) =~= s);
    }
}

/// Once a descending-sorted sequence drops below the threshold, no later
/// element qualifies.
proof fn lemma_count_stops(s: Seq<SymbolData>, t: int, i: int)
    requires
        0 <= i <= s.len(),
        forall|j: int| i <= j < s.len() ==> s[j].score < t,
    ensures
        count_qualified(s, t) == count_qualified(s.take(i), t),
    decreases s.len() - i,
{
    if i < s.len() {
        lemma_count_step(s, t, i);
        lemma_count_stops(s, t, i + 1);
    } else {
        assert(s.take(i) =~= s);
    }
}

/// Two tables with pointwise-equal scores agree on how many snapshots
/// qualify.
pub proof fn lemma_count_qualified_same_scores(a: Seq<SymbolData>, b: Seq<SymbolData>, t: int)
    requires
        a.len() == b.len(),
        forall|i: int| 0 <= i < a.len() ==> (#[trigger] a[i]).score == b[i].score,
    ensures
        count_qualified(a, t) == count_qualified(b, t),
    decreases a.len(),
{
    if a.len() > 0 {
        assert(forall|i: int|
            0 <= i < a.len() - 1 ==> (#[trigger] a.drop_last()[i]).score == b.drop_last()[i].score);
        lemma_count_qualified_same_scores(a.drop_last(), b.drop_last(), t);
        assert(a.last().score == b.last().score);
    }
}

/// Inserting an element inserts it into the sequence's multiset.
pub proof fn lemma_to_multiset_insert<A>(s: Seq<A>, i: int, x: A)
    requires
        0 <= i <= s.len(),
    ensures
        s.insert(i, x).to_multiset() =~= s.to_multiset().insert(x),
{
    broadcast use group_to_multiset_ensures;

    let s2 = s.insert(i, x);
    assert(s2.remove(i) =~= s);
    assert(s2[i] == x);
    assert(s.to_multiset() =~= s2.to_multiset().remove(x));
    assert(s2.contains(x));
    assert(s2.to_multiset().count(x) > 0);
    assert forall|a: A| true implies s2.to_multiset().count(a) == s.to_multiset().insert(
        x,
    ).count(a) by {
        if a == x {
            assert(s.to_multiset().count(a) == s2.to_multiset().count(a) - 1);
        } else {
            assert(s.to_multiset().count(a) == s2.to_multiset().count(a));
        }
    }
}

/// Sorts snapshots by score, highest first, preserving the collection as a
/// multiset.
pub fn sort_by_score_desc(symbols: &mut Vec<SymbolData>)
    ensures
        final(symbols)@.to_multiset() == old(symbols)@.to_multiset(),
        sorted_desc(final(symbols)@),
        final(symbols)@.len() == old(symbols)@.len(),
{
    broadcast use group_to_multiset_ensures;

    let mut out: Vec<SymbolData> = Vec::new();
    while symbols.len() > 0
        invariant
            sorted_desc(out@),
            symbols@.to_multiset().add(out@.to_multiset()) =~= old(symbols)@.to_multiset(),
            symbols@.len() + out@.len() == old(symbols)@.len(),
        decreases symbols@.len(),
    {
        let ghost pre = symbols@;
        let ghost pre_out = out@;
        let idx = symbols.len() - 1;
        let x = symbols.remove(idx);
        proof {
            broadcast use group_to_multiset_ensures;

            assert(pre =~= symbols@.push(x));
            assert(symbols@.push(x).to_multiset() =~= symbols@.to_multiset().insert(x));
            assert(pre.to_multiset() =~= symbols@.to_multiset().insert(x));
        }
        let mut p: usize = 0;
        while p < out.len() && out[p].score >= x.score
            invariant
                0 <= p <= out@.len(),
                out@ == pre_out,
                forall|q: int| 0 <= q < p ==> out@[q].score >= x.score,
            decreases out@.len() - p,
        {
            p = p + 1;
        }
        proof {
            lemma_to_multiset_insert(out@, p as int, x);
        }
        out.insert(p, x);
        proof {
            assert(sorted_desc(out@)) by {
                assert(forall|q: int|
                    0 <= q < out@.len() ==> out@[q] == if q < p {
                        pre_out[q]
                    } else if q == p {
                        x
                    } else {
                        pre_out[q - 1]
                    });
            }
        }
    }
    proof {
        broadcast use group_to_multiset_ensures;

        assert forall|a: SymbolData| true implies symbols@.to_multiset().count(a) == 0 by {
            if symbols@.to_multiset().count(a) > 0 {
                assert(symbols@.contains(a));
            }
        }
        assert(symbols@.to_multiset().add(out@.to_multiset()) =~= out@.to_multiset());
    }
    *symbols = out;
}

/// Computes scores and tiers.
pub struct Scorer {
    pub config: ScoringConfig,
}

impl Scorer {
    pub fn new(config: ScoringConfig) -> (s: Scorer)
        ensures
            s.config == config,
    {
        Scorer { config }
    }

    /// Volume sub-score of a quote volume (`PRICE_SCALE` fixed point).
    pub fn calculate_volume_score(&self, quote_volume: u64) -> (r: u64)
        ensures
            r == spec_volume_score(quote_volume as int),
            r <= SCORE_SCALE,
    {
        if quote_volume < 100_000_000_000_000 {
            return 0;
        }
        if quote_volume >= 100_000_000_000_000_000 {
            return SCORE_SCALE;
        }
        let k: u64 = if quote_volume < 1_000_000_000_000_000 {
            0
        } else if quote_volume < 10_000_000_000_000_000 {
            1
        } else {
            2
        };
        let lo: u64 = if quote_volume < 1_000_000_000_000_000 {
            100_000_000_000_000
        } else if quote_volume < 10_000_000_000_000_000 {
            1_000_000_000_000_000
        } else {
            10_000_000_000_000_000
        };
        let diff = quote_volume - lo;
        let num = (diff as u128) * 1_000_000;
        let den = (9 * lo) as u128;
        let frac128 = num / den;
        proof {
            assert(num < den * 1_000_000) by (nonlinear_arith)
                requires
                    (diff as u128) < den,
                    num == (diff as u128) * 1_000_000,
            ;
            assert(frac128 < 1_000_000) by (nonlinear_arith)
                requires
                    num < den * 1_000_000,
                    frac128 == num / den,
                    den > 0,
            ;
        }
        let frac = frac128 as u64;
        (k * 1_000_000 + frac) / 3
    }

    /// Volatility sub-score of a 24h percent change (`PCT_SCALE` fixed
    /// point).
    pub fn calculate_volatility_score(&self, price_change_pct: i64) -> (r: u64)
        ensures
            r == spec_volatility_score(price_change_pct as int),
            r <= SCORE_SCALE,
    {
        let abs_change: u64 = if price_change_pct < 0 {
            if price_change_pct == i64::MIN {
                9_223_372_036_854_775_808u64
            } else {
                (-price_change_pct) as u64
            }
        } else {
            price_change_pct as u64
        };
        if abs_change >= 100_000 {
            SCORE_SCALE
        } else {
            10 * abs_change
        }
    }

    /// Activity sub-score of a 24h trade count.
    pub fn calculate_activity_score(&self, trades_24h: u64) -> (r: u64)
        ensures
            r == spec_activity_score(trades_24h as int),
            r <= SCORE_SCALE,
    {
        if trades_24h >= 10_000 {
            SCORE_SCALE
        } else {
            100 * trades_24h
        }
    }

    /// Weighted total score of a snapshot, always within
    /// `[0, SCORE_SCALE]`.
    pub fn calculate_score(&self, symbol: &SymbolData) -> (r: u64)
        requires
            self.config.wf(),
        ensures
            r == spec_total_score(self.config, *symbol),
            r <= SCORE_SCALE,
    {
        let volume_score = self.calculate_volume_score(symbol.quote_volume_24h);
        let volatility_score = self.calculate_volatility_score(symbol.price_change_pct_24h);
        let activity_score = self.calculate_activity_score(symbol.trades_24h);
        let w = &self.config.weights;
        proof {
            assert(w.volume_weight * volume_score <= w.volume_weight * SCORE_SCALE)
                by (nonlinear_arith)
                requires
                    volume_score <= SCORE_SCALE,
            ;
            assert(w.volatility_weight * volatility_score <= w.volatility_weight * SCORE_SCALE)
                by (nonlinear_arith)
                requires
                    volatility_score <= SCORE_SCALE,
            ;
            assert(w.activity_weight * activity_score <= w.activity_weight * SCORE_SCALE)
                by (nonlinear_arith)
                requires
                    activity_score <= SCORE_SCALE,
            ;
        }
        let total = (w.volume_weight * volume_score + w.volatility_weight * volatility_score
            + w.activity_weight * activity_score) / SCORE_SCALE;
        if total > SCORE_SCALE {
            SCORE_SCALE
        } else {
            total
        }
    }

    /// The tier a score earns: at or above `tier1_threshold` is Tier1, at or
    /// above `tier2_threshold` Tier2, below both Ignored.
    pub fn assign_tier(&self, score: u64) -> (t: Tier)
        ensures
            t == spec_assign_tier(self.config, score as int),
    {
        if score >= self.config.tier1_threshold {
            Tier::Tier1
        } else if score >= self.config.tier2_threshold {
            Tier::Tier2
        } else {
            Tier::Ignored
        }
    }

    /// Sorts the snapshots by score, highest first, and returns the symbols
    /// of the highest-scoring qualified snapshots: those at or above
    /// `tier1_threshold`, capped at `max_tier1_symbols`.
    pub fn select_tier1_symbols(&self, symbols: &mut Vec<SymbolData>) -> (r: Vec<String>)
        ensures
            final(symbols)@.to_multiset() == old(symbols)@.to_multiset(),
            sorted_desc(final(symbols)@),
            final(symbols)@.len() == old(symbols)@.len(),
            r@.len() == vstd::math::min(
                self.config.max_tier1_symbols as int,
                count_qualified(final(symbols)@, self.config.tier1_threshold as int),
            ),
            r@.len() <= final(symbols)@.len(),
            forall|i: int| 0 <= i < r@.len() ==> #[trigger] r@[i]@ == final(symbols)@[i].symbol@,
            forall|i: int|
                0 <= i < r@.len() ==> #[trigger] final(symbols)@[i].score
                    >= self.config.tier1_threshold,
    {
        sort_by_score_desc(symbols);
        let t1 = self.config.tier1_threshold;
        let max = self.config.max_tier1_symbols;
        let ghost sv = symbols@;
        let mut out: Vec<String> = Vec::new();
        let mut i: usize = 0;
        while i < symbols.len() && out.len() < max && symbols[i].score >= t1
            invariant
                symbols@ == sv,
                sorted_desc(sv),
                0 <= i <= sv.len(),
                out@.len() == i,
                i <= max,
                count_qualified(sv.take(i as int), t1 as int) == i,
                forall|j: int| 0 <= j < i ==> #[trigger] out@[j]@ == sv[j].symbol@,
                forall|j: int| 0 <= j < i ==> #[trigger] sv[j].score >= t1,
            decreases sv.len() - i,
        {
            proof {
                lemma_count_step(sv, t1 as int, i as int);
            }
            out.push(symbols[i].symbol.clone());
            i = i + 1;
        }
        proof {
            let ghost t = t1 as int;
            if i < sv.len() && i < max && sv[i as int].score < t {
                assert forall|j: int| i <= j < sv.len() implies sv[j].score < t by {
                    assert(sv[j].score <= sv[i as int].score);
                }
                lemma_count_stops(sv, t, i as int);
            } else if i == sv.len() {
                assert(sv.take(i as int) =~= sv);
            } else {
                assert(i == max);
                lemma_count_monotone(sv, t, i as int);
            }
            assert(symbols@ == sv);
            assert(forall|j: int|
                0 <= j < out@.len() ==> #[trigger] out@[j]@ == symbols@[j].symbol@);
            assert forall|j: int| 0 <= j < out@.len() implies #[trigger] symbols@[j].score
                >= t1 by {
                assert(sv[j].score >= t1);
            }
        }
        out
    }
}

} // verus!
