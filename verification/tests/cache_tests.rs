use binance_websocket::book::DepthUpdateEvent;
use binance_websocket::book::OrderBookSnapshot;
use binance_websocket::book::RawLevel;
use binance_websocket::cache::MarketDataCache;
use binance_websocket::types::BookTicker;
use binance_websocket::types::Trade;

const ONE: u128 = 1_000_000_000_000_000_000;

fn ticker(symbol: &str, update_id: u64) -> BookTicker {
    BookTicker::from_raw(update_id, symbol.to_string(), "10.0", "1", "10.5", "2").unwrap()
}

fn trade(symbol: &str, trade_id: u64) -> Trade {
    Trade::from_raw(1000, symbol.to_string(), trade_id, "10.1", "0.5", 7, 8, 1001, false)
        .unwrap()
}

fn lvl(price: &str, qty: &str) -> RawLevel {
    RawLevel { price: price.to_string(), qty: qty.to_string() }
}

#[test]
fn ticker_keys_are_upper_cased() {
    let mut cache = MarketDataCache::new();
    cache.batch_update_book_tickers(vec![ticker("btcusdt", 1)]);
    // Stored under the upper-cased symbol; lookups fold case the same way.
    let from_upper = cache.get_book_ticker("BTCUSDT").unwrap();
    let from_lower = cache.get_book_ticker("btcusdt").unwrap();
    assert_eq!(from_upper, from_lower);
    assert_eq!(from_upper.update_id, 1);
    assert_eq!(from_upper.bid_price, 10 * ONE);
}

#[test]
fn missing_symbol_is_none() {
    let cache = MarketDataCache::new();
    assert_eq!(cache.get_book_ticker("BTCUSDT"), None);
    assert_eq!(cache.get_last_trade("BTCUSDT"), None);
    assert!(cache.get_order_book("BTCUSDT").is_none());
}

#[test]
fn batch_last_write_wins_per_symbol() {
    let mut cache = MarketDataCache::new();
    cache.batch_update_book_tickers(vec![ticker("BTCUSDT", 1), ticker("btcusdt", 2)]);
    assert_eq!(cache.get_book_ticker("BTCUSDT").unwrap().update_id, 2);
}

#[test]
fn trades_stored_and_overwritten() {
    let mut cache = MarketDataCache::new();
    cache.batch_update_trades(vec![trade("ethusdt", 5)]);
    assert_eq!(cache.get_last_trade("ETHUSDT").unwrap().trade_id, 5);
    cache.batch_update_trades(vec![trade("ETHUSDT", 6)]);
    assert_eq!(cache.get_last_trade("ETHUSDT").unwrap().trade_id, 6);
}

#[test]
fn depth_on_unknown_symbol_creates_unsynced_book() {
    let mut cache = MarketDataCache::new();
    let u = DepthUpdateEvent {
        symbol: "btcusdt".to_string(),
        first_sequence: 5,
        final_sequence: 6,
        previous_final_sequence: 4,
        bids: vec![lvl("10.0", "1")],
        asks: vec![],
    };
    let accepted = cache.update_order_book(&u);
    assert!(!accepted);
    let book = cache.get_order_book("BTCUSDT").unwrap();
    assert!(!book.synced);
    assert_eq!(book.best_bid(), None);
}

#[test]
fn snapshot_then_diff_through_cache() {
    let mut cache = MarketDataCache::new();
    let snap = OrderBookSnapshot {
        last_sequence: 100,
        bids: vec![lvl("10.0", "1")],
        asks: vec![lvl("10.5", "2")],
    };
    cache.apply_snapshot_event("btcusdt", &snap);
    let u = DepthUpdateEvent {
        symbol: "BTCUSDT".to_string(),
        first_sequence: 100,
        final_sequence: 101,
        previous_final_sequence: 99,
        bids: vec![lvl("10.2", "3")],
        asks: vec![],
    };
    assert!(cache.update_order_book(&u));
    let book = cache.get_order_book("btcusdt").unwrap();
    assert!(book.synced);
    assert_eq!(book.last_sequence, 101);
    assert_eq!(book.best_bid(), Some((10 * ONE + ONE / 5, 3 * ONE)));
    // The other tables are untouched.
    assert_eq!(cache.get_book_ticker("BTCUSDT"), None);
}

#[test]
fn gap_through_cache_marks_book_for_resync() {
    let mut cache = MarketDataCache::new();
    let snap = OrderBookSnapshot { last_sequence: 100, bids: vec![lvl("10.0", "1")], asks: vec![] };
    cache.apply_snapshot_event("BTCUSDT", &snap);
    let sync = DepthUpdateEvent {
        symbol: "BTCUSDT".to_string(),
        first_sequence: 100,
        final_sequence: 101,
        previous_final_sequence: 99,
        bids: vec![],
        asks: vec![],
    };
    assert!(cache.update_order_book(&sync));
    let gap = DepthUpdateEvent {
        symbol: "BTCUSDT".to_string(),
        first_sequence: 108,
        final_sequence: 109,
        previous_final_sequence: 107,
        bids: vec![],
        asks: vec![],
    };
    assert!(!cache.update_order_book(&gap));
    let book = cache.get_order_book("BTCUSDT").unwrap();
    assert!(!book.synced);
    assert_eq!(book.last_sequence, 101);
    assert_eq!(book.best_bid(), Some((10 * ONE, ONE)));
}
