//! The batched write buffer for high-frequency, order-insensitive
//! updates.
//!
//! Ticker and trade records accumulate here and are flushed into the
//! cache as one bulk overwrite per table when either a batch reaches the
//! configured size or the configured interval has passed since the last
//! flush — whichever comes first. The caller supplies the clock as plain
//! millisecond readings and runs the timer.

use vstd::prelude::*;
use crate::cache::MarketDataCache;
use crate::cache::put_tickers;
use crate::cache::put_trades;
use crate::types::BookTicker;
use crate::types::Trade;

verus! {

/// When a batch is flushed: on reaching `batch_size` records, or once
/// `batch_interval_ms` has passed since the last flush.
#[derive(Clone, Copy, Debug)]
pub struct BatchConfig {
    pub batch_size: usize,
    pub batch_interval_ms: u64,
}

/// Accumulated ticker and trade updates awaiting a flush.
pub struct BatchBuffer {
    pub book_tickers: Vec<BookTicker>,
    pub trades: Vec<Trade>,
}

impl BatchBuffer {
    /// An empty buffer.
    pub fn new() -> (b: BatchBuffer)
        ensures
            b.book_tickers@ == Seq::<BookTicker>::empty(),
            b.trades@ == Seq::<Trade>::empty(),
    {
        let b = BatchBuffer { book_tickers: Vec::new(), trades: Vec::new() };
        proof {
            assert(b.book_tickers@ =~= Seq::<BookTicker>::empty());
            assert(b.trades@ =~= Seq::<Trade>::empty());
        }
        b
    }

    /// Appends one ticker update to the pending batch.
    pub fn push_ticker(&mut self, t: BookTicker)
        ensures
            final(self).book_tickers@ == old(self).book_tickers@.push(t),
            final(self).trades@ == old(self).trades@,
    {
        self.book_tickers.push(t);
    }

    /// Appends one trade to the pending batch.
    pub fn push_trade(&mut self, t: Trade)
        ensures
            final(self).trades@ == old(self).trades@.push(t),
            final(self).book_tickers@ == old(self).book_tickers@,
    {
        self.trades.push(t);
    }

    /// Whether a flush is due: a batch has reached the size threshold, or
    /// the interval has elapsed since the last flush.
    pub fn should_flush(&self, cfg: &BatchConfig, now_ms: u64, last_flush_ms: u64) -> (r: bool)
        requires
            last_flush_ms <= now_ms,
        ensures
            r == (self.book_tickers@.len() >= cfg.batch_size || self.trades@.len()
                >= cfg.batch_size || now_ms - last_flush_ms >= cfg.batch_interval_ms),
    {
        self.book_tickers.len() >= cfg.batch_size || self.trades.len() >= cfg.batch_size || now_ms
            - last_flush_ms >= cfg.batch_interval_ms
    }

    /// Moves every pending batch into the cache as a bulk overwrite (last
    /// write wins per symbol) and leaves the buffer empty.
    pub fn flush_into(&mut self, cache: &mut MarketDataCache)
        requires
            old(cache).inv(),
        ensures
            final(cache).inv(),
            final(self).book_tickers@ == Seq::<BookTicker>::empty(),
            final(self).trades@ == Seq::<Trade>::empty(),
            final(cache).tickers() == put_tickers(old(cache).tickers(), old(self).book_tickers@),
            final(cache).trades() == put_trades(old(cache).trades(), old(self).trades@),
            final(cache).books() == old(cache).books(),
    {
        if self.book_tickers.len() > 0 {
            let mut batch: Vec<BookTicker> = Vec::new();
            core::mem::swap(&mut batch, &mut self.book_tickers);
            cache.batch_update_book_tickers(batch);
        }
        if self.trades.len() > 0 {
            let mut batch: Vec<Trade> = Vec::new();
            core::mem::swap(&mut batch, &mut self.trades);
            cache.batch_update_trades(batch);
        }
        proof {
            assert(self.book_tickers@ =~= Seq::<BookTicker>::empty());
            assert(self.trades@ =~= Seq::<Trade>::empty());
        }
    }
}

} // verus!
