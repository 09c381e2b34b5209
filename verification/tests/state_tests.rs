use signal_engine::state::{PairTable, PairUpdate};

#[test]
fn favorite_and_unfavorite() {
    let mut table = PairTable::new();

    let favored = table.favorite_pair("XTZUSDT");
    assert!(favored.is_favorite);

    let unfavored = table.unfavorite_pair("XTZUSDT").expect("pair should exist");
    assert!(!unfavored.is_favorite);

    // Unfavoriting an unknown pair is a no-op.
    assert!(table.unfavorite_pair("NOPEUSDT").is_none());
}

#[test]
fn add_and_remove_comment() {
    let mut table = PairTable::new();

    let with_comment = table.add_comment("XTZUSDT", "hello".to_string());
    assert_eq!(with_comment.comments, vec!["hello".to_string()]);

    let removed = table.remove_comment("XTZUSDT", "hello").expect("comment should exist");
    assert!(removed.comments.is_empty());

    // Removing an absent comment, or from an unknown pair, is a no-op.
    assert!(table.remove_comment("XTZUSDT", "hello").is_none());
    assert!(table.remove_comment("NOPEUSDT", "hello").is_none());
}

#[test]
fn update_creates_then_refreshes() {
    let mut table = PairTable::new();

    let update = PairUpdate { mfi_1h: Some(550_000), mfi_4h: None, mfi_1d: None, mfi_1w: None };
    table.apply_update("XTZUSDT".to_string(), "icon-a".to_string(), update);
    let pairs = table.list_pairs();
    assert_eq!(pairs.len(), 1);
    assert_eq!(pairs[0].pair, "XTZUSDT");
    assert_eq!(pairs[0].icon, "icon-a");
    assert_eq!(pairs[0].mfi_1h, 550_000);
    assert_eq!(pairs[0].mfi_4h, 0);

    // A later update overwrites what it carries and keeps the rest.
    let update = PairUpdate { mfi_1h: None, mfi_4h: Some(600_000), mfi_1d: None, mfi_1w: None };
    table.apply_update("XTZUSDT".to_string(), "icon-b".to_string(), update);
    let pairs = table.list_pairs();
    assert_eq!(pairs.len(), 1);
    assert_eq!(pairs[0].icon, "icon-b");
    assert_eq!(pairs[0].mfi_1h, 550_000);
    assert_eq!(pairs[0].mfi_4h, 600_000);
}

#[test]
fn favorites_survive_updates() {
    let mut table = PairTable::new();
    table.favorite_pair("ETHUSDT");
    let update = PairUpdate { mfi_1h: Some(1), mfi_4h: None, mfi_1d: None, mfi_1w: None };
    table.apply_update("ETHUSDT".to_string(), "icon".to_string(), update);

    let pairs = table.list_pairs();
    assert_eq!(pairs.len(), 1);
    assert!(pairs[0].is_favorite);
}
