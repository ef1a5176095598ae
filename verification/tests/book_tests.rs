use binance_websocket::book::DepthUpdateEvent;
use binance_websocket::book::OrderBook;
use binance_websocket::book::OrderBookSnapshot;
use binance_websocket::book::RawLevel;
use binance_websocket::book::replay;

const ONE: u128 = 1_000_000_000_000_000_000;

fn lvl(price: &str, qty: &str) -> RawLevel {
    RawLevel { price: price.to_string(), qty: qty.to_string() }
}

fn snap(last: u64, bids: Vec<RawLevel>, asks: Vec<RawLevel>) -> OrderBookSnapshot {
    OrderBookSnapshot { last_sequence: last, bids, asks }
}

fn diff(
    first: u64,
    fin: u64,
    prev: u64,
    bids: Vec<RawLevel>,
    asks: Vec<RawLevel>,
) -> DepthUpdateEvent {
    DepthUpdateEvent {
        symbol: "BTCUSDT".to_string(),
        first_sequence: first,
        final_sequence: fin,
        previous_final_sequence: prev,
        bids,
        asks,
    }
}

#[test]
fn new_book_is_empty() {
    let b = OrderBook::new("BTCUSDT".to_string());
    assert_eq!(b.best_bid(), None);
    assert_eq!(b.best_ask(), None);
    assert_eq!(b.top_bids(5), Vec::<(u128, u128)>::new());
    assert_eq!(b.last_sequence, 0);
    assert!(!b.synced);
}

#[test]
fn snapshot_populates_sides() {
    let mut b = OrderBook::new("BTCUSDT".to_string());
    b.apply_snapshot(&snap(
        100,
        vec![lvl("10.0", "1"), lvl("9.5", "2")],
        vec![lvl("10.5", "3"), lvl("11.0", "0")],
    ));
    assert_eq!(b.last_sequence, 100);
    assert!(!b.synced);
    assert_eq!(b.best_bid(), Some((10 * ONE, ONE)));
    // The zero-quantity ask level is discarded.
    assert_eq!(b.best_ask(), Some((10 * ONE + ONE / 2, 3 * ONE)));
    assert_eq!(b.top_asks(5), vec![(10 * ONE + ONE / 2, 3 * ONE)]);
    assert_eq!(b.top_bids(5), vec![(10 * ONE, ONE), (9 * ONE + ONE / 2, 2 * ONE)]);
}

#[test]
fn snapshot_is_idempotent() {
    let s = snap(100, vec![lvl("10.0", "1"), lvl("9.5", "2")], vec![lvl("10.5", "3")]);
    let mut once = OrderBook::new("BTCUSDT".to_string());
    once.apply_snapshot(&s);
    let mut twice = once.clone();
    twice.apply_snapshot(&s);
    assert_eq!(once, twice);
}

#[test]
fn presync_stale_diff_rejected() {
    let mut b = OrderBook::new("BTCUSDT".to_string());
    b.apply_snapshot(&snap(100, vec![lvl("10.0", "1")], vec![]));
    let before = b.clone();
    // final_sequence below the snapshot sequence: dropped, nothing changes.
    let accepted = b.apply_update(&diff(40, 50, 39, vec![lvl("9.0", "5")], vec![]));
    assert!(!accepted);
    assert_eq!(b, before);
}

#[test]
fn presync_nonstraddling_diff_rejected() {
    let mut b = OrderBook::new("BTCUSDT".to_string());
    b.apply_snapshot(&snap(100, vec![lvl("10.0", "1")], vec![]));
    let before = b.clone();
    // Range entirely above the snapshot sequence: not yet the sync point.
    let accepted = b.apply_update(&diff(102, 105, 101, vec![lvl("9.0", "5")], vec![]));
    assert!(!accepted);
    assert_eq!(b, before);
}

#[test]
fn straddling_diff_synchronizes() {
    let mut b = OrderBook::new("BTCUSDT".to_string());
    b.apply_snapshot(&snap(100, vec![lvl("10.0", "1")], vec![]));
    let accepted = b.apply_update(&diff(99, 101, 98, vec![lvl("9.9", "4")], vec![]));
    assert!(accepted);
    assert!(b.synced);
    assert_eq!(b.last_sequence, 101);
    assert_eq!(b.best_bid(), Some((10 * ONE, ONE)));
}

#[test]
fn gap_flips_to_unsynced_without_mutation() {
    let mut b = OrderBook::new("BTCUSDT".to_string());
    b.apply_snapshot(&snap(100, vec![lvl("10.0", "1")], vec![lvl("10.5", "2")]));
    assert!(b.apply_update(&diff(100, 101, 99, vec![], vec![])));
    assert!(b.synced);
    // A diff that does not continue at last_sequence is a gap.
    let accepted = b.apply_update(&diff(103, 104, 102, vec![lvl("1.0", "1")], vec![]));
    assert!(!accepted);
    assert!(!b.synced);
    assert_eq!(b.last_sequence, 101);
    assert_eq!(b.best_bid(), Some((10 * ONE, ONE)));
    assert_eq!(b.best_ask(), Some((10 * ONE + ONE / 2, 2 * ONE)));
}

#[test]
fn snapshot_then_removal_scenario() {
    let mut b = OrderBook::new("BTCUSDT".to_string());
    b.apply_snapshot(&snap(100, vec![lvl("10.0", "1")], vec![]));
    // The first trusted diff must straddle the snapshot sequence.
    let accepted = b.apply_update(&diff(100, 105, 100, vec![lvl("10.0", "0")], vec![]));
    assert!(accepted);
    assert!(b.synced);
    assert_eq!(b.last_sequence, 105);
    assert_eq!(b.best_bid(), None);
}

#[test]
fn zero_quantity_is_never_stored() {
    let mut b = OrderBook::new("BTCUSDT".to_string());
    b.apply_snapshot(&snap(10, vec![lvl("10.0", "0"), lvl("9.0", "2")], vec![]));
    assert_eq!(b.top_bids(10), vec![(9 * ONE, 2 * ONE)]);
    assert!(b.apply_update(&diff(10, 11, 9, vec![lvl("8.0", "0")], vec![])));
    for (_, q) in b.top_bids(10) {
        assert!(q > 0);
    }
    assert_eq!(b.top_bids(10), vec![(9 * ONE, 2 * ONE)]);
}

#[test]
fn malformed_quantity_degrades_single_level() {
    let mut b = OrderBook::new("BTCUSDT".to_string());
    b.apply_snapshot(&snap(100, vec![lvl("10.0", "1"), lvl("9.0", "2")], vec![]));
    // An unparsable quantity counts as zero: only that level is removed.
    assert!(b.apply_update(&diff(100, 101, 99, vec![lvl("10.0", "junk")], vec![])));
    assert_eq!(b.top_bids(10), vec![(9 * ONE, 2 * ONE)]);
}

#[test]
fn replay_matches_stepwise_application() {
    let s = snap(100, vec![lvl("10.0", "1"), lvl("9.0", "2")], vec![lvl("11.0", "4")]);
    let d1 = diff(100, 102, 99, vec![lvl("10.5", "3")], vec![]);
    let d2 = diff(103, 104, 102, vec![lvl("10.0", "0")], vec![lvl("11.0", "5")]);
    let replayed = replay("BTCUSDT".to_string(), &s, &vec![d1.clone(), d2.clone()]);
    let mut stepwise = OrderBook::new("BTCUSDT".to_string());
    stepwise.apply_snapshot(&s);
    assert!(stepwise.apply_update(&d1));
    assert!(stepwise.apply_update(&d2));
    assert_eq!(replayed, stepwise);
    assert_eq!(replayed.best_bid(), Some((10 * ONE + ONE / 2, 3 * ONE)));
    assert_eq!(replayed.best_ask(), Some((11 * ONE, 5 * ONE)));
    assert_eq!(replayed.last_sequence, 104);
}

#[test]
fn top_levels_are_price_ordered() {
    let mut b = OrderBook::new("ETHUSDT".to_string());
    b.apply_snapshot(&snap(
        1,
        vec![lvl("3", "1"), lvl("1", "1"), lvl("2", "1")],
        vec![lvl("6", "1"), lvl("4", "1"), lvl("5", "1")],
    ));
    assert_eq!(b.top_bids(2), vec![(3 * ONE, ONE), (2 * ONE, ONE)]);
    assert_eq!(b.top_asks(2), vec![(4 * ONE, ONE), (5 * ONE, ONE)]);
    assert_eq!(b.top_bids(10).len(), 3);
}

#[test]
fn duplicate_snapshot_price_last_wins() {
    let mut b = OrderBook::new("BTCUSDT".to_string());
    b.apply_snapshot(&snap(1, vec![lvl("10.0", "1"), lvl("10.0", "2")], vec![]));
    assert_eq!(b.best_bid(), Some((10 * ONE, 2 * ONE)));
}

#[test]
fn top_zero_levels_is_empty() {
    let mut b = OrderBook::new("BTCUSDT".to_string());
    b.apply_snapshot(&snap(1, vec![lvl("10.0", "1")], vec![lvl("11.0", "1")]));
    assert_eq!(b.top_bids(0), Vec::<(u128, u128)>::new());
    assert_eq!(b.top_asks(0), Vec::<(u128, u128)>::new());
}

#[test]
fn replay_without_diffs_is_the_snapshot() {
    let s = snap(7, vec![lvl("2.0", "1")], vec![]);
    let replayed = replay("BTCUSDT".to_string(), &s, &vec![]);
    let mut direct = OrderBook::new("BTCUSDT".to_string());
    direct.apply_snapshot(&s);
    assert_eq!(replayed, direct);
    assert_eq!(replayed.last_sequence, 7);
    assert!(!replayed.synced);
}
