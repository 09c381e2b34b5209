use signal_engine::api::{
    matches_filters, parse_sort_fields, sort_pairs, PairResponse, PairSnapshot, PairsQuery,
    SortDirection, SortField, SortKey,
};
use signal_engine::market::{extract_coin_from_pair, icon_url, Symbol};
use signal_engine::numeric::{parse_fixed_i64, parse_fixed_u64};
use signal_engine::types::{Alert, AlertDetails, AlertType};

#[test]
fn when_connected_usdt() {
    let pair = "ZBTUSDT";
    let coin = extract_coin_from_pair(pair);
    assert_eq!(coin, "ZBT");
}

#[test]
fn extract_leaves_other_pairs_alone() {
    assert_eq!(extract_coin_from_pair("ZBTEUR"), "ZBTEUR");
    assert_eq!(extract_coin_from_pair("USD"), "USD");
    assert_eq!(extract_coin_from_pair("USDT"), "");
}

#[test]
fn icon_url_uses_coin_name() {
    assert_eq!(icon_url("ZBTUSDT"), "https://static-app.bb-os.com/icon/ZBT.png");
    assert_eq!(icon_url("ABC"), "https://static-app.bb-os.com/icon/ABC.png");
}

#[test]
fn parse_sort_fields_multi() {
    let fields = parse_sort_fields("mfi_1h:desc,mfi_4h:asc").unwrap();
    assert_eq!(
        fields,
        vec![
            SortField { key: SortKey::Mfi1h, direction: SortDirection::Desc },
            SortField { key: SortKey::Mfi4h, direction: SortDirection::Asc },
        ]
    );
}

#[test]
fn parse_sort_fields_defaults_to_desc() {
    let fields = parse_sort_fields("mfi_1d").unwrap();
    assert_eq!(fields, vec![SortField { key: SortKey::Mfi1d, direction: SortDirection::Desc }]);
}

#[test]
fn parse_sort_fields_rejects_unknown_field() {
    let error = parse_sort_fields("foo:asc").unwrap_err();
    assert!(error.to_string().contains("Unsupported sort field"));
}

#[test]
fn parse_sort_fields_skips_empty_chunks_and_trims() {
    let fields = parse_sort_fields(" mfi_1w , ,mfi_1h:asc ").unwrap();
    assert_eq!(
        fields,
        vec![
            SortField { key: SortKey::Mfi1w, direction: SortDirection::Desc },
            SortField { key: SortKey::Mfi1h, direction: SortDirection::Asc },
        ]
    );
}

#[test]
fn parse_sort_fields_rejects_extra_colon() {
    assert!(parse_sort_fields("mfi_1h:asc:extra").is_err());
    assert!(parse_sort_fields("mfi_1h:up").is_err());
}

fn sample_pair(pair: &str, is_favorite: bool, comments: &[&str]) -> PairSnapshot {
    PairSnapshot {
        icon: "icon".to_string(),
        pair: pair.to_string(),
        mfi_1h: 0,
        mfi_4h: 0,
        mfi_1d: 0,
        mfi_1w: 0,
        is_favorite,
        comments: comments.iter().map(|value| (*value).to_string()).collect(),
    }
}

#[test]
fn matches_filters_defaults_to_all() {
    let query = PairsQuery { sort: None, favorite: None, has_comments: None };
    let pair = sample_pair("AAAUSDT", true, &[]);
    assert!(matches_filters(&pair, &query));

    let pair = sample_pair("BBBUSD", false, &[]);
    assert!(matches_filters(&pair, &query));
}

#[test]
fn matches_filters_comments_only() {
    let query = PairsQuery { sort: None, favorite: None, has_comments: Some(true) };
    let with_comments = sample_pair("AAAUSDT", false, &["note"]);
    let without_comments = sample_pair("BBBUSD", false, &[]);

    assert!(matches_filters(&with_comments, &query));
    assert!(!matches_filters(&without_comments, &query));
}

#[test]
fn matches_filters_favorites_and_comments() {
    let query = PairsQuery { sort: None, favorite: Some(true), has_comments: Some(true) };
    let matching = sample_pair("AAAUSDT", true, &["note"]);
    let missing_favorite = sample_pair("BBBUSD", false, &["note"]);
    let missing_comment = sample_pair("CCCUSD", true, &[]);

    assert!(matches_filters(&matching, &query));
    assert!(!matches_filters(&missing_favorite, &query));
    assert!(!matches_filters(&missing_comment, &query));
}

#[test]
fn decimal_parse_accepts_and_scales() {
    assert_eq!(parse_fixed_u64("123.456", 8), Some(12_345_600_000));
    assert_eq!(parse_fixed_u64("1.5", 8), Some(150_000_000));
    assert_eq!(parse_fixed_u64("0.00000001", 8), Some(1));
    assert_eq!(parse_fixed_u64("50000", 8), Some(5_000_000_000_000));
    // Digits beyond the precision are truncated.
    assert_eq!(parse_fixed_u64("0.123456789", 8), Some(12_345_678));
    // Four-place parsing for percentages.
    assert_eq!(parse_fixed_i64("-1.234", 4), Some(-12_340));
    assert_eq!(parse_fixed_i64("2.5", 4), Some(25_000));
}

#[test]
fn decimal_parse_rejects_malformed() {
    assert_eq!(parse_fixed_u64("", 8), None);
    assert_eq!(parse_fixed_u64("abc", 8), None);
    assert_eq!(parse_fixed_u64("1..2", 8), None);
    assert_eq!(parse_fixed_u64(".5", 8), None);
    assert_eq!(parse_fixed_u64("5.", 8), None);
    assert_eq!(parse_fixed_u64("1e5", 8), None);
    assert_eq!(parse_fixed_u64("-1", 8), None);
    // Too large for the fixed-point range.
    assert_eq!(parse_fixed_u64("999999999999999999999", 8), None);
    assert_eq!(parse_fixed_i64("--1", 4), None);
}

#[test]
fn symbol_validity_and_exchange_name() {
    let s = Symbol::new("BTC".to_string(), "USDT".to_string(), "binance".to_string());
    assert!(s.is_valid());
    assert_eq!(s.exchange_symbol(), "BTCUSDT");

    let bad = Symbol::new("BT-C".to_string(), "USDT".to_string(), "binance".to_string());
    assert!(!bad.is_valid());
    let empty = Symbol::new("".to_string(), "USDT".to_string(), "binance".to_string());
    assert!(!empty.is_valid());
}

#[test]
fn test_coinglass_urls() {
    let test_cases = vec![
        ("Binance", "BTCUSDT", "https://www.coinglass.com/tv/Binance_BTCUSDT"),
        ("Bybit", "ETHUSDT", "https://www.coinglass.com/tv/Bybit_ETHUSDT"),
        ("OKX", "SOLUSDT", "https://www.coinglass.com/tv/OKX_SOLUSDT"),
    ];

    for (exchange, symbol, expected_url) in test_cases {
        let alert = Alert {
            alert_type: AlertType::PumpDetected,
            symbol: symbol.to_string(),
            price: 100 * 100_000_000,
            details: AlertDetails {
                price_change_pct: None,
                volume_ratio: None,
                cvd_change: None,
                timeframe: None,
            },
            timestamp: 1000,
            exchange: exchange.to_string(),
        };

        let url = alert.get_coinglass_url();
        assert_eq!(url, expected_url, "URL mismatch for exchange: {}", exchange);
    }
}

fn pair_response(pair: &str, mfi_1h: i64, mfi_4h: i64, mfi_1d: i64, mfi_1w: i64) -> PairResponse {
    PairResponse {
        icon: "icon".to_string(),
        pair: pair.to_string(),
        mfi_1h,
        mfi_4h,
        mfi_1d,
        mfi_1w,
        is_favorite: false,
        comments: Vec::new(),
    }
}

#[test]
fn sort_pairs_multi_key() {
    let mut pairs = vec![
        pair_response("AAAUSDT", 100_000, 600_000, 500_000, 300_000),
        pair_response("BBBUSDT", 50_000, 600_000, 800_000, 300_000),
        pair_response("CCCUSDT", 120_000, 200_000, 800_000, 700_000),
    ];

    let sort_fields = vec![
        SortField { key: SortKey::Mfi1d, direction: SortDirection::Desc },
        SortField { key: SortKey::Mfi4h, direction: SortDirection::Desc },
        SortField { key: SortKey::Mfi1h, direction: SortDirection::Asc },
    ];

    sort_pairs(&mut pairs, &sort_fields);

    assert_eq!(pairs[0].pair, "BBBUSDT");
    assert_eq!(pairs[1].pair, "CCCUSDT");
    assert_eq!(pairs[2].pair, "AAAUSDT");
}

#[test]
fn pair_response_rounds_to_two_decimals() {
    let mut snapshot = sample_pair("AAAUSDT", false, &[]);
    snapshot.mfi_1h = 123_456; // 12.3456 -> 12.35
    snapshot.mfi_4h = 123_449; // 12.3449 -> 12.34
    snapshot.mfi_1d = -123_456; // -12.3456 -> -12.35
    snapshot.mfi_1w = 500_000; // already two decimals

    let response = PairResponse::from_snapshot(&snapshot);
    assert_eq!(response.mfi_1h, 123_500);
    assert_eq!(response.mfi_4h, 123_400);
    assert_eq!(response.mfi_1d, -123_500);
    assert_eq!(response.mfi_1w, 500_000);
    assert_eq!(response.pair, "AAAUSDT");
}
