use signal_engine::config::{ScoringConfig, ScoringWeights};
use signal_engine::scoring::Scorer;
use signal_engine::types::{SymbolData, Tier, SCORE_SCALE};

fn test_config() -> ScoringConfig {
    ScoringConfig {
        tier1_threshold: 700_000,
        tier2_threshold: 400_000,
        max_tier1_symbols: 20,
        rescore_interval_secs: 10,
        weights: ScoringWeights {
            volume_weight: 400_000,
            volatility_weight: 400_000,
            activity_weight: 200_000,
        },
    }
}

#[test]
fn test_volume_score() {
    let scorer = Scorer::new(test_config());

    // $10M quote volume should give ~0.33 score.
    assert!(scorer.calculate_volume_score(10_000_000 * 100_000_000) > 300_000);
    assert!(scorer.calculate_volume_score(10_000_000 * 100_000_000) < 400_000);

    // $100M should give ~0.66 score.
    assert!(scorer.calculate_volume_score(100_000_000 * 100_000_000) > 600_000);
    assert!(scorer.calculate_volume_score(100_000_000 * 100_000_000) < 700_000);

    // $1B should give 1.0 score.
    assert_eq!(
        scorer.calculate_volume_score(1_000_000_000 * 100_000_000),
        SCORE_SCALE
    );
}

#[test]
fn test_volatility_score() {
    let scorer = Scorer::new(test_config());

    // 5% change should give 0.5 score.
    assert_eq!(scorer.calculate_volatility_score(50_000), 500_000);

    // 10% change should give 1.0 score.
    assert_eq!(scorer.calculate_volatility_score(100_000), SCORE_SCALE);

    // Negative changes should use the absolute value.
    assert_eq!(scorer.calculate_volatility_score(-50_000), 500_000);
}

#[test]
fn test_activity_score() {
    let scorer = Scorer::new(test_config());

    // 5,000 trades should give 0.5 score.
    assert_eq!(scorer.calculate_activity_score(5_000), 500_000);

    // 10,000 trades should give 1.0 score.
    assert_eq!(scorer.calculate_activity_score(10_000), SCORE_SCALE);
}

#[test]
fn test_tier_assignment() {
    let scorer = Scorer::new(test_config());

    assert_eq!(scorer.assign_tier(800_000), Tier::Tier1);
    assert_eq!(scorer.assign_tier(700_000), Tier::Tier1);
    assert_eq!(scorer.assign_tier(500_000), Tier::Tier2);
    assert_eq!(scorer.assign_tier(400_000), Tier::Tier2);
    assert_eq!(scorer.assign_tier(300_000), Tier::Ignored);
}

fn snapshot(symbol: &str, quote_volume: u64, pct: i64, trades: u64) -> SymbolData {
    let mut s = SymbolData::new(symbol.to_string(), 0);
    s.quote_volume_24h = quote_volume;
    s.price_change_pct_24h = pct;
    s.trades_24h = trades;
    s
}

#[test]
fn total_score_clamped_for_extreme_inputs() {
    let scorer = Scorer::new(test_config());

    // Even absurd magnitudes stay within [0, 1].
    let extreme = snapshot("AAAUSDT", u64::MAX, i64::MIN, u64::MAX);
    let score = scorer.calculate_score(&extreme);
    assert!(score <= SCORE_SCALE);

    let nothing = snapshot("BBBUSDT", 0, 0, 0);
    assert_eq!(scorer.calculate_score(&nothing), 0);
}

#[test]
fn total_score_exact_value() {
    let scorer = Scorer::new(test_config());

    // $1B volume (1.0), 10% change (1.0), 10k trades (1.0):
    // 0.4 + 0.4 + 0.2 = 1.0.
    let s = snapshot("CCCUSDT", 1_000_000_000 * 100_000_000, 100_000, 10_000);
    assert_eq!(scorer.calculate_score(&s), SCORE_SCALE);

    // Volume only: 0.4 * 1.0 = 0.4.
    let s = snapshot("DDDUSDT", 1_000_000_000 * 100_000_000, 0, 0);
    assert_eq!(scorer.calculate_score(&s), 400_000);
}

#[test]
fn select_tier1_sorts_and_caps() {
    let mut cfg = test_config();
    cfg.max_tier1_symbols = 2;
    let scorer = Scorer::new(cfg);

    let mut a = snapshot("AAAUSDT", 0, 0, 0);
    a.score = 900_000;
    let mut b = snapshot("BBBUSDT", 0, 0, 0);
    b.score = 800_000;
    let mut c = snapshot("CCCUSDT", 0, 0, 0);
    c.score = 750_000;
    let mut d = snapshot("DDDUSDT", 0, 0, 0);
    d.score = 300_000;

    let mut all = vec![d, b, a, c];
    let selected = scorer.select_tier1_symbols(&mut all);

    // Top two qualified symbols, best first; the cap excludes the third.
    assert_eq!(selected, vec!["AAAUSDT".to_string(), "BBBUSDT".to_string()]);
    // The table is now sorted by score, highest first.
    assert_eq!(all[0].symbol, "AAAUSDT");
    assert_eq!(all[3].symbol, "DDDUSDT");
}
