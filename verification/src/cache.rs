//! The market-data cache: the concurrent read surface.
//!
//! Three tables keyed by upper-cased symbol — book tickers, last trades,
//! order books — each held in a concurrent map so readers never contend
//! with writers on unrelated symbols. The maps themselves come from an
//! outside crate; the contracts here speak of their contents through the
//! named content maps, and everything layered on top (batch overwrite
//! semantics, the occupied/vacant depth-apply path) is verified against
//! those contracts.

use vstd::prelude::*;
use dashmap::DashMap;
use crate::book::OrderBook;
use crate::book::OrderBookSnapshot;
use crate::book::DepthUpdateEvent;
use crate::book::BookModel;
use crate::book::empty_book_model;
use crate::book::spec_apply_update;
use crate::book::spec_apply_snapshot;
use crate::book::spec_update_accepted;
use crate::text::to_upper;
use crate::text::upper_of;
use crate::types::BookTicker;
use crate::types::Trade;

verus! {

#[verifier::external_type_specification]
#[verifier::external_body]
#[verifier::reject_recursive_types(K)]
#[verifier::reject_recursive_types(V)]
#[verifier::reject_recursive_types(S)]
pub struct ExDashMap<K, V, S>(DashMap<K, V, S>);

/// The contents of the ticker table.
pub uninterp spec fn ticker_map(m: DashMap<String, BookTicker>) -> Map<Seq<char>, BookTicker>;

/// The contents of the trade table.
pub uninterp spec fn trade_map(m: DashMap<String, Trade>) -> Map<Seq<char>, Trade>;

/// The contents of the order-book table.
pub uninterp spec fn book_map(m: DashMap<String, OrderBook>) -> Map<Seq<char>, OrderBook>;

/// Relies on `dashmap::DashMap::new`; nothing is assumed of the fresh
/// map's contents, which `ticker_map_clear` below establishes.
#[verifier::external_body]
fn ticker_map_new() -> (r: DashMap<String, BookTicker>) {
    DashMap::new()
}

/// Relies on `dashmap::DashMap::clear`: afterwards the map holds no key
/// it held before, hence nothing at all.
#[verifier::external_body]
fn ticker_map_clear(m: &mut DashMap<String, BookTicker>)
    ensures
        ticker_map(*final(m)) == ticker_map(*old(m)).remove_keys(ticker_map(*old(m)).dom()),
{
    m.clear();
}

/// Relies on `dashmap::DashMap::insert`: stores the value under the key,
/// replacing what was there; every other key keeps its value.
#[verifier::external_body]
fn ticker_map_insert(m: &mut DashMap<String, BookTicker>, key: String, t: BookTicker)
    ensures
        ticker_map(*final(m)) == ticker_map(*old(m)).insert(key@, t),
{
    m.insert(key, t);
}

/// Relies on `dashmap::DashMap::get`: returns (a clone of) the value
/// stored under the key, if any.
#[verifier::external_body]
fn ticker_map_get(m: &DashMap<String, BookTicker>, key: &String) -> (r: Option<BookTicker>)
    ensures
        r == (if ticker_map(*m).dom().contains(key@) {
            Some(ticker_map(*m)[key@])
        } else {
            None::<BookTicker>
        }),
{
    m.get(key).map(|e| e.value().clone())
}

/// Relies on `dashmap::DashMap::new`; nothing is assumed of the fresh
/// map's contents, which `trade_map_clear` below establishes.
#[verifier::external_body]
fn trade_map_new() -> (r: DashMap<String, Trade>) {
    DashMap::new()
}

/// Relies on `dashmap::DashMap::clear`: afterwards the map holds no key
/// it held before, hence nothing at all.
#[verifier::external_body]
fn trade_map_clear(m: &mut DashMap<String, Trade>)
    ensures
        trade_map(*final(m)) == trade_map(*old(m)).remove_keys(trade_map(*old(m)).dom()),
{
    m.clear();
}

/// Relies on `dashmap::DashMap::insert`: stores the value under the key,
/// replacing what was there; every other key keeps its value.
#[verifier::external_body]
fn trade_map_insert(m: &mut DashMap<String, Trade>, key: String, t: Trade)
    ensures
        trade_map(*final(m)) == trade_map(*old(m)).insert(key@, t),
{
    m.insert(key, t);
}

/// Relies on `dashmap::DashMap::get`: returns (a clone of) the value
/// stored under the key, if any.
#[verifier::external_body]
fn trade_map_get(m: &DashMap<String, Trade>, key: &String) -> (r: Option<Trade>)
    ensures
        r == (if trade_map(*m).dom().contains(key@) {
            Some(trade_map(*m)[key@])
        } else {
            None::<Trade>
        }),
{
    m.get(key).map(|e| e.value().clone())
}

/// Relies on `dashmap::DashMap::new`; nothing is assumed of the fresh
/// map's contents, which `book_map_clear` below establishes.
#[verifier::external_body]
fn book_map_new() -> (r: DashMap<String, OrderBook>) {
    DashMap::new()
}

/// Relies on `dashmap::DashMap::clear`: afterwards the map holds no key
/// it held before, hence nothing at all.
#[verifier::external_body]
fn book_map_clear(m: &mut DashMap<String, OrderBook>)
    ensures
        book_map(*final(m)) == book_map(*old(m)).remove_keys(book_map(*old(m)).dom()),
{
    m.clear();
}

/// Relies on `dashmap::DashMap::insert`: stores the value under the key,
/// replacing what was there; every other key keeps its value.
#[verifier::external_body]
fn book_map_insert(m: &mut DashMap<String, OrderBook>, key: String, b: OrderBook)
    ensures
        book_map(*final(m)) == book_map(*old(m)).insert(key@, b),
{
    m.insert(key, b);
}

/// Relies on `dashmap::DashMap::get`: returns (a clone of) the value
/// stored under the key, if any.
#[verifier::external_body]
fn book_map_get(m: &DashMap<String, OrderBook>, key: &String) -> (r: Option<OrderBook>)
    ensures
        r == (if book_map(*m).dom().contains(key@) {
            Some(book_map(*m)[key@])
        } else {
            None::<OrderBook>
        }),
{
    m.get(key).map(|e| e.value().clone())
}

/// A batch of tickers folded into the table: each record lands under its
/// upper-cased symbol, later records overwriting earlier ones.
pub open spec fn put_tickers(m: Map<Seq<char>, BookTicker>, ts: Seq<BookTicker>) -> Map<
    Seq<char>,
    BookTicker,
>
    decreases ts.len(),
{
    if ts.len() == 0 {
        m
    } else {
        put_tickers(m.insert(upper_of(ts[0].symbol@), ts[0]), ts.drop_first())
    }
}

/// A batch of trades folded into the table: each record lands under its
/// upper-cased symbol, later records overwriting earlier ones.
pub open spec fn put_trades(m: Map<Seq<char>, Trade>, ts: Seq<Trade>) -> Map<Seq<char>, Trade>
    decreases ts.len(),
{
    if ts.len() == 0 {
        m
    } else {
        put_trades(m.insert(upper_of(ts[0].symbol@), ts[0]), ts.drop_first())
    }
}

/// The model of the book a depth diff meets: the stored one, or a fresh
/// book created lazily on the first diff for its symbol.
pub open spec fn book_model_at(m: Map<Seq<char>, OrderBook>, key: Seq<char>) -> BookModel {
    if m.dom().contains(key) {
        m[key]@
    } else {
        empty_book_model()
    }
}

/// Latest market data per symbol: book tickers, last trades and order
/// books, each independently keyed by upper-cased symbol.
pub struct MarketDataCache {
    book_tickers: DashMap<String, BookTicker>,
    last_trades: DashMap<String, Trade>,
    order_books: DashMap<String, OrderBook>,
}

impl MarketDataCache {
    /// The ticker table's contents.
    pub closed spec fn tickers(&self) -> Map<Seq<char>, BookTicker> {
        ticker_map(self.book_tickers)
    }

    /// The trade table's contents.
    pub closed spec fn trades(&self) -> Map<Seq<char>, Trade> {
        trade_map(self.last_trades)
    }

    /// The order-book table's contents.
    pub closed spec fn books(&self) -> Map<Seq<char>, OrderBook> {
        book_map(self.order_books)
    }

    /// Every stored order book is well-formed.
    pub open spec fn inv(&self) -> bool {
        forall|k: Seq<char>| #[trigger]
            self.books().dom().contains(k) ==> self.books()[k].wf()
    }

    /// Creates an empty cache.
    pub fn new() -> (c: MarketDataCache)
        ensures
            c.inv(),
            c.tickers() == Map::<Seq<char>, BookTicker>::empty(),
            c.trades() == Map::<Seq<char>, Trade>::empty(),
            c.books() == Map::<Seq<char>, OrderBook>::empty(),
    {
        let mut book_tickers = ticker_map_new();
        ticker_map_clear(&mut book_tickers);
        let mut last_trades = trade_map_new();
        trade_map_clear(&mut last_trades);
        let mut order_books = book_map_new();
        book_map_clear(&mut order_books);
        proof {
            assert(ticker_map(book_tickers) =~= Map::<Seq<char>, BookTicker>::empty());
            assert(trade_map(last_trades) =~= Map::<Seq<char>, Trade>::empty());
            assert(book_map(order_books) =~= Map::<Seq<char>, OrderBook>::empty());
        }
        MarketDataCache { book_tickers, last_trades, order_books }
    }

    /// Publishes a flushed batch of tickers, last write winning per symbol.
    pub fn batch_update_book_tickers(&mut self, tickers: Vec<BookTicker>)
        requires
            old(self).inv(),
        ensures
            final(self).inv(),
            final(self).tickers() == put_tickers(old(self).tickers(), tickers@),
            final(self).trades() == old(self).trades(),
            final(self).books() == old(self).books(),
    {
        let ghost all = tickers@;
        let mut ts = tickers;
        proof {
            assert(ts@.skip(0) =~= all);
        }
        while ts.len() > 0
            invariant
                old(self).inv(),
                put_tickers(self.tickers(), ts@) == put_tickers(old(self).tickers(), all),
                self.trades() == old(self).trades(),
                self.books() == old(self).books(),
            decreases ts.len(),
        {
            let ghost pre = ts@;
            let t = ts.remove(0);
            proof {
                assert(ts@ =~= pre.drop_first());
                assert(t == pre[0]);
            }
            let key = to_upper(t.symbol.as_str());
            ticker_map_insert(&mut self.book_tickers, key, t);
        }
        proof {
            assert(forall|m: Map<Seq<char>, BookTicker>| put_tickers(m, ts@) == m);
        }
    }

    /// Publishes a flushed batch of trades, last write winning per symbol.
    pub fn batch_update_trades(&mut self, trades: Vec<Trade>)
        requires
            old(self).inv(),
        ensures
            final(self).inv(),
            final(self).trades() == put_trades(old(self).trades(), trades@),
            final(self).tickers() == old(self).tickers(),
            final(self).books() == old(self).books(),
    {
        let ghost all = trades@;
        let mut ts = trades;
        proof {
            assert(ts@.skip(0) =~= all);
        }
        while ts.len() > 0
            invariant
                old(self).inv(),
                put_trades(self.trades(), ts@) == put_trades(old(self).trades(), all),
                self.tickers() == old(self).tickers(),
                self.books() == old(self).books(),
            decreases ts.len(),
        {
            let ghost pre = ts@;
            let t = ts.remove(0);
            proof {
                assert(ts@ =~= pre.drop_first());
                assert(t == pre[0]);
            }
            let key = to_upper(t.symbol.as_str());
            trade_map_insert(&mut self.last_trades, key, t);
        }
        proof {
            assert(forall|m: Map<Seq<char>, Trade>| put_trades(m, ts@) == m);
        }
    }

    /// Offers a depth diff to the symbol's book — stored, or created
    /// lazily — under the continuity protocol; returns whether the diff
    /// was accepted. A rejected diff leaves the book unsynced, so the
    /// caller can re-arm it with a fresh snapshot.
    pub fn update_order_book(&mut self, update: &DepthUpdateEvent) -> (accepted: bool)
        requires
            old(self).inv(),
        ensures
            final(self).inv(),
            final(self).tickers() == old(self).tickers(),
            final(self).trades() == old(self).trades(),
            final(self).books().dom() == old(self).books().dom().insert(upper_of(update.symbol@)),
            forall|k: Seq<char>|
                k != upper_of(update.symbol@) && old(self).books().dom().contains(k)
                    ==> final(self).books()[k] == old(self).books()[k],
            accepted == spec_update_accepted(
                book_model_at(old(self).books(), upper_of(update.symbol@)),
                update@,
            ),
            ({
                let key = upper_of(update.symbol@);
                let pre = book_model_at(old(self).books(), key);
                let b = final(self).books()[key];
                b.wf() && b@ == spec_apply_update(pre, update@)
            }),
    {
        let key = to_upper(update.symbol.as_str());
        match book_map_get(&self.order_books, &key) {
            Some(book) => {
                let mut book = book;
                proof {
                    assert(old(self).books().dom().contains(key@));
                    assert(book == old(self).books()[key@]);
                    assert(book.wf());
                }
                let accepted = book.apply_update(update);
                if !accepted {
                    // The book needs resyncing before further diffs are trusted.
                    book.synced = false;
                }
                book_map_insert(&mut self.order_books, key, book);
                proof {
                    assert forall|k: Seq<char>| self.books().dom().contains(k) implies self.books()[k].wf() by {
                        if k != key@ {
                            assert(old(self).books().dom().contains(k));
                        }
                    }
                }
                accepted
            },
            None => {
                let mut book = OrderBook::new(key.clone());
                let accepted = book.apply_update(update);
                book_map_insert(&mut self.order_books, key, book);
                proof {
                    assert forall|k: Seq<char>| self.books().dom().contains(k) implies self.books()[k].wf() by {
                        if k != key@ {
                            assert(old(self).books().dom().contains(k));
                        }
                    }
                }
                accepted
            },
        }
    }

    /// Replaces — or lazily creates — the symbol's book from a snapshot.
    pub fn apply_snapshot_event(&mut self, symbol: &str, snap: &OrderBookSnapshot)
        requires
            old(self).inv(),
        ensures
            final(self).inv(),
            final(self).tickers() == old(self).tickers(),
            final(self).trades() == old(self).trades(),
            final(self).books().dom() == old(self).books().dom().insert(upper_of(symbol@)),
            forall|k: Seq<char>|
                k != upper_of(symbol@) && old(self).books().dom().contains(k)
                    ==> final(self).books()[k] == old(self).books()[k],
            ({
                let key = upper_of(symbol@);
                let pre = book_model_at(old(self).books(), key);
                let b = final(self).books()[key];
                b.wf() && b@ == spec_apply_snapshot(pre, snap@)
            }),
    {
        let key = to_upper(symbol);
        match book_map_get(&self.order_books, &key) {
            Some(book) => {
                let mut book = book;
                proof {
                    assert(old(self).books().dom().contains(key@));
                    assert(book == old(self).books()[key@]);
                    assert(book.wf());
                }
                book.apply_snapshot(snap);
                book_map_insert(&mut self.order_books, key, book);
                proof {
                    assert forall|k: Seq<char>| self.books().dom().contains(k) implies self.books()[k].wf() by {
                        if k != key@ {
                            assert(old(self).books().dom().contains(k));
                        }
                    }
                }
            },
            None => {
                let mut book = OrderBook::new(key.clone());
                book.apply_snapshot(snap);
                book_map_insert(&mut self.order_books, key, book);
                proof {
                    assert forall|k: Seq<char>| self.books().dom().contains(k) implies self.books()[k].wf() by {
                        if k != key@ {
                            assert(old(self).books().dom().contains(k));
                        }
                    }
                }
            },
        }
    }

    /// The latest ticker stored for a symbol, if any.
    pub fn get_book_ticker(&self, symbol: &str) -> (r: Option<BookTicker>)
        ensures
            r == (if self.tickers().dom().contains(upper_of(symbol@)) {
                Some(self.tickers()[upper_of(symbol@)])
            } else {
                None::<BookTicker>
            }),
    {
        let key = to_upper(symbol);
        ticker_map_get(&self.book_tickers, &key)
    }

    /// The last trade stored for a symbol, if any.
    pub fn get_last_trade(&self, symbol: &str) -> (r: Option<Trade>)
        ensures
            r == (if self.trades().dom().contains(upper_of(symbol@)) {
                Some(self.trades()[upper_of(symbol@)])
            } else {
                None::<Trade>
            }),
    {
        let key = to_upper(symbol);
        trade_map_get(&self.last_trades, &key)
    }

    /// The order book stored for a symbol, if any.
    pub fn get_order_book(&self, symbol: &str) -> (r: Option<OrderBook>)
        ensures
            r == (if self.books().dom().contains(upper_of(symbol@)) {
                Some(self.books()[upper_of(symbol@)])
            } else {
                None::<OrderBook>
            }),
    {
        let key = to_upper(symbol);
        book_map_get(&self.order_books, &key)
    }
}

} // verus!
