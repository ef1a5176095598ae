use binance_websocket::batch::BatchBuffer;
use binance_websocket::batch::BatchConfig;
use binance_websocket::book::DepthUpdateEvent;
use binance_websocket::cache::MarketDataCache;
use binance_websocket::errors::FeedError;
use binance_websocket::router::StreamKind;
use binance_websocket::router::StreamPayload;
use binance_websocket::router::classify_stream;
use binance_websocket::router::route;
use binance_websocket::router::stream_name;
use binance_websocket::types::BookTicker;
use binance_websocket::types::Trade;

fn ticker(symbol: &str, update_id: u64) -> BookTicker {
    BookTicker::from_raw(update_id, symbol.to_string(), "10.0", "1", "10.5", "2").unwrap()
}

fn trade(symbol: &str, trade_id: u64) -> Trade {
    Trade::from_raw(1000, symbol.to_string(), trade_id, "10.1", "0.5", 7, 8, 1001, true)
        .unwrap()
}

#[test]
fn classify_known_streams() {
    let (sym, kind) = classify_stream("btcusdt@depth").unwrap();
    assert_eq!(sym, "btcusdt");
    assert_eq!(kind, StreamKind::Depth);
    let (sym, kind) = classify_stream("ethusdt@bookTicker").unwrap();
    assert_eq!(sym, "ethusdt");
    assert_eq!(kind, StreamKind::BookTicker);
    let (sym, kind) = classify_stream("ethusdt@trade").unwrap();
    assert_eq!(sym, "ethusdt");
    assert_eq!(kind, StreamKind::Trade);
}

#[test]
fn classify_rejects_malformed_names() {
    assert!(classify_stream("nodelimiter").is_none());
    assert!(classify_stream("a@b@c").is_none());
    assert!(classify_stream("btcusdt@kline").is_none());
    assert!(classify_stream("").is_none());
    assert!(classify_stream("@").is_none());
}

#[test]
fn stream_name_lower_cases_symbol() {
    assert_eq!(stream_name("BTCUSDT", StreamKind::BookTicker), "btcusdt@bookTicker");
    assert_eq!(stream_name("BTCUSDT", StreamKind::Trade), "btcusdt@trade");
    assert_eq!(stream_name("EthUsdt", StreamKind::Depth), "ethusdt@depth");
}

#[test]
fn ticker_from_raw_rejects_bad_decimal() {
    let r = BookTicker::from_raw(1, "BTCUSDT".to_string(), "oops", "1", "10.5", "2");
    assert_eq!(r.unwrap_err(), FeedError::Protocol);
    let r = Trade::from_raw(1, "BTCUSDT".to_string(), 2, "10.0", "-3", 4, 5, 6, false);
    assert_eq!(r.unwrap_err(), FeedError::Protocol);
}

#[test]
fn route_buffers_tickers_and_trades() {
    let mut buffer = BatchBuffer::new();
    let mut cache = MarketDataCache::new();
    assert!(route(StreamPayload::Ticker(ticker("btcusdt", 1)), &mut buffer, &mut cache));
    assert!(route(StreamPayload::TradeEvent(trade("btcusdt", 2)), &mut buffer, &mut cache));
    assert_eq!(buffer.book_tickers.len(), 1);
    assert_eq!(buffer.trades.len(), 1);
    // Nothing reaches the cache before a flush.
    assert_eq!(cache.get_book_ticker("BTCUSDT"), None);
    assert_eq!(cache.get_last_trade("BTCUSDT"), None);
}

#[test]
fn route_applies_depth_immediately() {
    let mut buffer = BatchBuffer::new();
    let mut cache = MarketDataCache::new();
    let u = DepthUpdateEvent {
        symbol: "btcusdt".to_string(),
        first_sequence: 5,
        final_sequence: 6,
        previous_final_sequence: 4,
        bids: vec![],
        asks: vec![],
    };
    // A first diff without a snapshot cannot synchronize, but the book exists.
    assert!(!route(StreamPayload::Depth(u), &mut buffer, &mut cache));
    assert!(cache.get_order_book("BTCUSDT").is_some());
    assert_eq!(buffer.book_tickers.len(), 0);
}

#[test]
fn batch_flushes_on_size_threshold_then_interval() {
    let cfg = BatchConfig { batch_size: 2, batch_interval_ms: 100 };
    let mut buffer = BatchBuffer::new();
    let mut cache = MarketDataCache::new();
    let last_flush_ms: u64 = 0;

    // Three updates arrive faster than the flush interval.
    buffer.push_ticker(ticker("aaausdt", 1));
    assert!(!buffer.should_flush(&cfg, 10, last_flush_ms));
    buffer.push_ticker(ticker("bbbusdt", 2));
    // The size threshold is reached: flush now.
    assert!(buffer.should_flush(&cfg, 20, last_flush_ms));
    buffer.flush_into(&mut cache);
    let last_flush_ms: u64 = 20;
    assert_eq!(cache.get_book_ticker("AAAUSDT").unwrap().update_id, 1);
    assert_eq!(cache.get_book_ticker("BBBUSDT").unwrap().update_id, 2);

    // The third update waits for the next tick.
    buffer.push_ticker(ticker("cccusdt", 3));
    assert!(!buffer.should_flush(&cfg, 60, last_flush_ms));
    assert_eq!(cache.get_book_ticker("CCCUSDT"), None);
    // The interval elapses: the flush is due.
    assert!(buffer.should_flush(&cfg, 120, last_flush_ms));
    buffer.flush_into(&mut cache);
    assert_eq!(cache.get_book_ticker("CCCUSDT").unwrap().update_id, 3);
    assert_eq!(buffer.book_tickers.len(), 0);
}

#[test]
fn flush_moves_trades_too() {
    let mut buffer = BatchBuffer::new();
    let mut cache = MarketDataCache::new();
    buffer.push_trade(trade("xrpusdt", 9));
    buffer.flush_into(&mut cache);
    assert_eq!(cache.get_last_trade("XRPUSDT").unwrap().trade_id, 9);
    assert_eq!(buffer.trades.len(), 0);
}
