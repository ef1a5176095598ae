//! The ingestion router: stream names and frame dispatch.
//!
//! An inbound frame names its stream as `<symbol>@<type>`. The router
//! classifies that name, and dispatches each parsed payload: depth diffs
//! apply synchronously to the symbol's order book — arrival order per
//! symbol is what makes the continuity check sound — while ticker and
//! trade payloads only join the write buffer for the next flush.

use vstd::prelude::*;
use vstd::string::StrSliceExecFns;
use crate::batch::BatchBuffer;
use crate::book::DepthUpdateEvent;
use crate::book::spec_apply_update;
use crate::book::spec_update_accepted;
use crate::cache::MarketDataCache;
use crate::cache::book_model_at;
use crate::text::lower_of;
use crate::text::upper_of;
use crate::text::to_lower;
use crate::types::BookTicker;
use crate::types::Trade;

verus! {

/// The three stream types the feed subscribes to.
#[derive(Clone, Copy, Debug, PartialEq, Eq, Structural)]
pub enum StreamKind {
    BookTicker,
    Trade,
    Depth,
}

/// The type suffix each stream kind carries in a stream name.
pub open spec fn kind_suffix(k: StreamKind) -> Seq<char> {
    match k {
        StreamKind::BookTicker => "bookTicker"@,
        StreamKind::Trade => "trade"@,
        StreamKind::Depth => "depth"@,
    }
}

/// The stream kind a type suffix denotes, if any.
pub open spec fn kind_of_suffix(t: Seq<char>) -> Option<StreamKind> {
    if t == "bookTicker"@ {
        Some(StreamKind::BookTicker)
    } else if t == "trade"@ {
        Some(StreamKind::Trade)
    } else if t == "depth"@ {
        Some(StreamKind::Depth)
    } else {
        None
    }
}

/// Position `i` splits the name into symbol and type: it carries the one
/// and only `@`.
pub open spec fn splits_at(s: Seq<char>, i: int) -> bool {
    0 <= i < s.len() && s[i] == '@' && (forall|j: int|
        0 <= j < s.len() && j != i ==> s[j] != '@')
}

/// Splits a stream name into its symbol and its kind. Returns `None` for
/// a name without exactly one `@`, or with an unrecognized type suffix;
/// such frames are dropped.
pub fn classify_stream(name: &str) -> (r: Option<(String, StreamKind)>)
    ensures
        r is Some <==> (exists|i: int|
            #[trigger] splits_at(name@, i) && kind_of_suffix(
                name@.subrange(i + 1, name@.len() as int),
            ) is Some),
        r matches Some(pair) ==> (exists|i: int|
            #[trigger] splits_at(name@, i) && pair.0@ == name@.subrange(0, i) && kind_of_suffix(
                name@.subrange(i + 1, name@.len() as int),
            ) == Some(pair.1)),
{
    let n = name.unicode_len();
    let mut i: usize = 0;
    while i < n && name.get_char(i) != '@'
        invariant
            i <= n,
            n == name@.len(),
            forall|j: int| 0 <= j < i ==> name@[j] != '@',
        decreases n - i,
    {
        i = i + 1;
    }
    if i == n {
        proof {
            assert forall|i0: int| !(#[trigger] splits_at(name@, i0)) by {
                if 0 <= i0 < name@.len() {
                    assert(name@[i0] != '@');
                }
            }
        }
        return None;
    }
    let mut j: usize = i + 1;
    while j < n && name.get_char(j) != '@'
        invariant
            i < j <= n,
            n == name@.len(),
            name@[i as int] == '@',
            forall|k: int| 0 <= k < i ==> name@[k] != '@',
            forall|k: int| i < k < j ==> name@[k] != '@',
        decreases n - j,
    {
        j = j + 1;
    }
    if j < n {
        proof {
            assert(name@[j as int] == '@');
            assert forall|i0: int| !(#[trigger] splits_at(name@, i0)) by {
                if splits_at(name@, i0) {
                    if i0 == i as int {
                        assert(name@[j as int] != '@');
                    } else {
                        assert(name@[i as int] != '@');
                    }
                }
            }
        }
        return None;
    }
    proof {
        assert(splits_at(name@, i as int));
        assert forall|i0: int| #[trigger] splits_at(name@, i0) implies i0 == i as int by {
            if i0 != i as int {
                assert(name@[i as int] != '@');
            }
        }
    }
    let sfx = name.substring_char(i + 1, n);
    let sfx_string: String = sfx.to_owned();
    let kind: Option<StreamKind> = if sfx_string == String::from_str("bookTicker") {
        Some(StreamKind::BookTicker)
    } else if sfx_string == String::from_str("trade") {
        Some(StreamKind::Trade)
    } else if sfx_string == String::from_str("depth") {
        Some(StreamKind::Depth)
    } else {
        None
    };
    match kind {
        Some(k) => {
            let sym = name.substring_char(0, i);
            Some((sym.to_owned(), k))
        },
        None => None,
    }
}

/// Builds the stream name a subscription uses: the lower-cased symbol,
/// `@`, and the type suffix.
pub fn stream_name(symbol: &str, kind: StreamKind) -> (r: String)
    ensures
        r@ == lower_of(symbol@) + "@"@ + kind_suffix(kind),
{
    let mut s = to_lower(symbol);
    s.append("@");
    match kind {
        StreamKind::BookTicker => s.append("bookTicker"),
        StreamKind::Trade => s.append("trade"),
        StreamKind::Depth => s.append("depth"),
    }
    s
}

/// One successfully parsed frame payload.
pub enum StreamPayload {
    Ticker(BookTicker),
    TradeEvent(Trade),
    Depth(DepthUpdateEvent),
}

/// Dispatches one parsed payload: depth diffs apply to the cache's book
/// for their symbol immediately and in arrival order; ticker and trade
/// records only join the buffer, to reach the cache at the next flush.
/// Returns whether a depth diff was accepted (`true` for the buffered
/// kinds, which cannot be rejected).
pub fn route(
    payload: StreamPayload,
    buffer: &mut BatchBuffer,
    cache: &mut MarketDataCache,
) -> (accepted: bool)
    requires
        old(cache).inv(),
    ensures
        final(cache).inv(),
        payload matches StreamPayload::Ticker(t) ==> (
            final(buffer).book_tickers@ == old(buffer).book_tickers@.push(t)
                && final(buffer).trades@ == old(buffer).trades@
                && *final(cache) == *old(cache)
                && accepted),
        payload matches StreamPayload::TradeEvent(t) ==> (
            final(buffer).trades@ == old(buffer).trades@.push(t)
                && final(buffer).book_tickers@ == old(buffer).book_tickers@
                && *final(cache) == *old(cache)
                && accepted),
        payload matches StreamPayload::Depth(u) ==> (
            *final(buffer) == *old(buffer)
                && final(cache).tickers() == old(cache).tickers()
                && final(cache).trades() == old(cache).trades()
                && accepted == spec_update_accepted(
                    book_model_at(old(cache).books(), upper_of(u.symbol@)),
                    u@,
                )
                && final(cache).books().dom() == old(cache).books().dom().insert(upper_of(u.symbol@))
                && final(cache).books()[upper_of(u.symbol@)]@ == spec_apply_update(
                    book_model_at(old(cache).books(), upper_of(u.symbol@)),
                    u@,
                )
                && (forall|k: Seq<char>|
                    k != upper_of(u.symbol@) && old(cache).books().dom().contains(k)
                        ==> final(cache).books()[k] == old(cache).books()[k])),
{
    match payload {
        StreamPayload::Ticker(t) => {
            buffer.push_ticker(t);
            true
        },
        StreamPayload::TradeEvent(t) => {
            buffer.push_trade(t);
            true
        },
        StreamPayload::Depth(u) => cache.update_order_book(&u),
    }
}

} // verus!
