//! The order-book synchronization engine.
//!
//! A per-symbol `OrderBook` reconciles a point-in-time snapshot with a
//! live stream of depth diffs under a monotonic-sequence continuity
//! protocol: a book trusts diffs only while `synced` holds, drops to
//! unsynced on any gap, and never mutates its levels on a rejected diff.
//!
//! The mathematical content of a book is its `BookModel`: the two
//! price-to-quantity maps, the last applied sequence number, and the
//! sync flag. Every operation's contract states its exact effect on the
//! model, so replaying any diff stream through `apply_update` provably
//! matches the plain map-level replay `spec_replay`.

use vstd::prelude::*;
use crate::decimal::parse_or_zero;
use crate::decimal::parse_or_zero_spec;
use crate::levels::PriceLevel;
use crate::levels::lmap;
use crate::levels::wf_levels;
use crate::levels::upsert_level;
use crate::levels::remove_level;
use crate::levels::lemma_lmap_dom;
use crate::levels::lemma_lmap_get;

verus! {

/// A price/quantity pair as it arrives on the wire: two decimal strings.
#[derive(Clone, Debug, PartialEq, Eq)]
pub struct RawLevel {
    pub price: String,
    pub qty: String,
}

impl View for RawLevel {
    type V = (Seq<char>, Seq<char>);

    open spec fn view(&self) -> (Seq<char>, Seq<char>) {
        (self.price@, self.qty@)
    }
}

/// A depth diff event: the absolute quantities to store (zero removes the
/// level) for a contiguous range of sequence numbers.
#[derive(Clone, Debug, PartialEq, Eq)]
pub struct DepthUpdateEvent {
    pub symbol: String,
    pub first_sequence: u64,
    pub final_sequence: u64,
    pub previous_final_sequence: u64,
    pub bids: Vec<RawLevel>,
    pub asks: Vec<RawLevel>,
}

/// The mathematical content of a depth diff.
#[verifier::ext_equal]
pub ghost struct DepthModel {
    pub symbol: Seq<char>,
    pub first_sequence: u64,
    pub final_sequence: u64,
    pub previous_final_sequence: u64,
    pub bids: Seq<(Seq<char>, Seq<char>)>,
    pub asks: Seq<(Seq<char>, Seq<char>)>,
}

impl View for DepthUpdateEvent {
    type V = DepthModel;

    open spec fn view(&self) -> DepthModel {
        DepthModel {
            symbol: self.symbol@,
            first_sequence: self.first_sequence,
            final_sequence: self.final_sequence,
            previous_final_sequence: self.previous_final_sequence,
            bids: self.bids@.map_values(|l: RawLevel| l@),
            asks: self.asks@.map_values(|l: RawLevel| l@),
        }
    }
}

/// A full-depth replacement image of one book.
#[derive(Clone, Debug, PartialEq, Eq)]
pub struct OrderBookSnapshot {
    pub last_sequence: u64,
    pub bids: Vec<RawLevel>,
    pub asks: Vec<RawLevel>,
}

/// The mathematical content of a snapshot.
#[verifier::ext_equal]
pub ghost struct SnapshotModel {
    pub last_sequence: u64,
    pub bids: Seq<(Seq<char>, Seq<char>)>,
    pub asks: Seq<(Seq<char>, Seq<char>)>,
}

impl View for OrderBookSnapshot {
    type V = SnapshotModel;

    open spec fn view(&self) -> SnapshotModel {
        SnapshotModel {
            last_sequence: self.last_sequence,
            bids: self.bids@.map_values(|l: RawLevel| l@),
            asks: self.asks@.map_values(|l: RawLevel| l@),
        }
    }
}

/// The price a raw level denotes (zero for anything unrepresentable).
pub open spec fn level_price(l: (Seq<char>, Seq<char>)) -> u128 {
    parse_or_zero_spec(l.0)
}

/// The quantity a raw level denotes (zero for anything unrepresentable).
pub open spec fn level_qty(l: (Seq<char>, Seq<char>)) -> u128 {
    parse_or_zero_spec(l.1)
}

/// One delta applied to one side: quantity zero removes the price level,
/// anything else overwrites it.
pub open spec fn apply_delta(m: Map<u128, u128>, l: (Seq<char>, Seq<char>)) -> Map<u128, u128> {
    if level_qty(l) == 0 {
        m.remove(level_price(l))
    } else {
        m.insert(level_price(l), level_qty(l))
    }
}

/// A diff's deltas applied to one side, in order.
pub open spec fn apply_deltas(m: Map<u128, u128>, ls: Seq<(Seq<char>, Seq<char>)>) -> Map<
    u128,
    u128,
>
    decreases ls.len(),
{
    if ls.len() == 0 {
        m
    } else {
        apply_deltas(apply_delta(m, ls[0]), ls.drop_first())
    }
}

/// A snapshot side folded into a map: zero-quantity levels are discarded,
/// later duplicates overwrite earlier ones.
pub open spec fn snapshot_fold(m: Map<u128, u128>, ls: Seq<(Seq<char>, Seq<char>)>) -> Map<
    u128,
    u128,
>
    decreases ls.len(),
{
    if ls.len() == 0 {
        m
    } else {
        snapshot_fold(
            if level_qty(ls[0]) > 0 {
                m.insert(level_price(ls[0]), level_qty(ls[0]))
            } else {
                m
            },
            ls.drop_first(),
        )
    }
}

/// The map a snapshot side denotes.
pub open spec fn snapshot_side(ls: Seq<(Seq<char>, Seq<char>)>) -> Map<u128, u128> {
    snapshot_fold(Map::empty(), ls)
}

/// The mathematical content of an order book.
#[verifier::ext_equal]
pub ghost struct BookModel {
    pub last_sequence: u64,
    pub bids: Map<u128, u128>,
    pub asks: Map<u128, u128>,
    pub synced: bool,
}

/// The model of a freshly created, never-synchronized book.
pub open spec fn empty_book_model() -> BookModel {
    BookModel { last_sequence: 0, bids: Map::empty(), asks: Map::empty(), synced: false }
}

/// Whether a book in state `m` accepts the diff `u`: before sync, the
/// diff's range must straddle the snapshot sequence (and stale diffs are
/// dropped); once synced, the diff must continue exactly where the book
/// stands.
pub open spec fn spec_update_accepted(m: BookModel, u: DepthModel) -> bool {
    if !m.synced {
        if u.final_sequence < m.last_sequence {
            false
        } else {
            u.first_sequence <= m.last_sequence && m.last_sequence <= u.final_sequence
        }
    } else {
        u.previous_final_sequence == m.last_sequence
    }
}

/// The book state after offering diff `u` to a book in state `m`: an
/// accepted diff advances the sequence and rewrites both sides; a
/// continuity failure on a synced book drops it to unsynced untouched;
/// any other rejection changes nothing.
pub open spec fn spec_apply_update(m: BookModel, u: DepthModel) -> BookModel {
    if spec_update_accepted(m, u) {
        BookModel {
            last_sequence: u.final_sequence,
            bids: apply_deltas(m.bids, u.bids),
            asks: apply_deltas(m.asks, u.asks),
            synced: true,
        }
    } else if m.synced {
        BookModel {
            last_sequence: m.last_sequence,
            bids: m.bids,
            asks: m.asks,
            synced: false,
        }
    } else {
        m
    }
}

/// The book state after applying a snapshot: a wholesale replacement that
/// is independent of the state the book was in, and leaves the book
/// unsynced until the live stream proves continuity.
pub open spec fn spec_apply_snapshot(m: BookModel, s: SnapshotModel) -> BookModel {
    BookModel {
        last_sequence: s.last_sequence,
        bids: snapshot_side(s.bids),
        asks: snapshot_side(s.asks),
        synced: false,
    }
}

/// A per-symbol order book: sorted bid and ask sides, the sequence number
/// of the last applied event, and whether the book is proven to be aligned
/// with the live stream.
#[derive(Clone, Debug, PartialEq, Eq)]
pub struct OrderBook {
    pub symbol: String,
    pub last_sequence: u64,
    pub bids: Vec<PriceLevel>,
    pub asks: Vec<PriceLevel>,
    pub synced: bool,
}

impl View for OrderBook {
    type V = BookModel;

    open spec fn view(&self) -> BookModel {
        BookModel {
            last_sequence: self.last_sequence,
            bids: lmap(self.bids@),
            asks: lmap(self.asks@),
            synced: self.synced,
        }
    }
}

impl OrderBook {
    /// Both sides sorted strictly by price with only positive quantities.
    pub open spec fn wf(&self) -> bool {
        wf_levels(self.bids@) && wf_levels(self.asks@)
    }

    /// Creates an empty, unsynced book for a symbol.
    pub fn new(symbol: String) -> (b: OrderBook)
        ensures
            b.wf(),
            b@ == empty_book_model(),
            b.symbol@ == symbol@,
    {
        let b = OrderBook {
            symbol,
            last_sequence: 0,
            bids: Vec::new(),
            asks: Vec::new(),
            synced: false,
        };
        proof {
            assert(b@ =~= empty_book_model());
        }
        b
    }

    /// Replaces the book wholesale from a snapshot; the book stays
    /// unsynced until the live stream proves continuity.
    pub fn apply_snapshot(&mut self, snap: &OrderBookSnapshot)
        requires
            old(self).wf(),
        ensures
            final(self).wf(),
            final(self)@ == spec_apply_snapshot(old(self)@, snap@),
            final(self).symbol@ == old(self).symbol@,
    {
        self.bids = Vec::new();
        self.asks = Vec::new();
        self.last_sequence = snap.last_sequence;
        let ghost bs = snap@.bids;
        proof {
            assert(bs.skip(0) =~= bs);
        }
        let mut i: usize = 0;
        while i < snap.bids.len()
            invariant
                i <= snap.bids.len(),
                bs == snap@.bids,
                bs.len() == snap.bids.len(),
                wf_levels(self.bids@),
                snapshot_fold(lmap(self.bids@), bs.skip(i as int)) == snapshot_side(bs),
                self.asks@.len() == 0,
                self.last_sequence == snap.last_sequence,
                self.symbol@ == old(self).symbol@,
            decreases snap.bids.len() - i,
        {
            let ghost rest = bs.skip(i as int);
            proof {
                assert(rest[0] == bs[i as int]);
                assert(rest.drop_first() =~= bs.skip(i as int + 1));
                assert(bs[i as int] == snap.bids@[i as int]@);
            }
            let p = parse_or_zero(snap.bids[i].price.as_str());
            let q = parse_or_zero(snap.bids[i].qty.as_str());
            if q > 0 {
                upsert_level(&mut self.bids, p, q);
            }
            i = i + 1;
        }
        let ghost asq = snap@.asks;
        proof {
            assert(asq.skip(0) =~= asq);
        }
        let mut j: usize = 0;
        while j < snap.asks.len()
            invariant
                j <= snap.asks.len(),
                asq == snap@.asks,
                asq.len() == snap.asks.len(),
                wf_levels(self.asks@),
                snapshot_fold(lmap(self.asks@), asq.skip(j as int)) == snapshot_side(asq),
                wf_levels(self.bids@),
                lmap(self.bids@) == snapshot_side(snap@.bids),
                self.last_sequence == snap.last_sequence,
                self.symbol@ == old(self).symbol@,
            decreases snap.asks.len() - j,
        {
            let ghost rest = asq.skip(j as int);
            proof {
                assert(rest[0] == asq[j as int]);
                assert(rest.drop_first() =~= asq.skip(j as int + 1));
                assert(asq[j as int] == snap.asks@[j as int]@);
            }
            let p = parse_or_zero(snap.asks[j].price.as_str());
            let q = parse_or_zero(snap.asks[j].qty.as_str());
            if q > 0 {
                upsert_level(&mut self.asks, p, q);
            }
            j = j + 1;
        }
        self.synced = false;
        proof {
            assert(snap@.bids.skip(snap@.bids.len() as int) =~= Seq::<
                (Seq<char>, Seq<char>),
            >::empty());
            assert(snap@.asks.skip(snap@.asks.len() as int) =~= Seq::<
                (Seq<char>, Seq<char>),
            >::empty());
            assert(self@ =~= spec_apply_snapshot(old(self)@, snap@));
        }
    }

    /// Offers a diff to the book under the continuity protocol; returns
    /// whether the diff was accepted and applied.
    pub fn apply_update(&mut self, u: &DepthUpdateEvent) -> (accepted: bool)
        requires
            old(self).wf(),
        ensures
            final(self).wf(),
            accepted == spec_update_accepted(old(self)@, u@),
            final(self)@ == spec_apply_update(old(self)@, u@),
            final(self).symbol@ == old(self).symbol@,
            // Pre-sync filter: a stale diff is rejected and changes nothing.
            !old(self)@.synced && u@.final_sequence < old(self)@.last_sequence ==> !accepted
                && final(self)@ == old(self)@,
            // Gap detection: a synced book rejects a discontinuous diff,
            // keeps its levels and sequence, and drops to unsynced.
            old(self)@.synced && u@.previous_final_sequence != old(self)@.last_sequence ==> (
            !accepted
                && final(self)@.bids == old(self)@.bids
                && final(self)@.asks == old(self)@.asks
                && final(self)@.last_sequence == old(self)@.last_sequence
                && !final(self)@.synced),
    {
        let ghost m0 = old(self)@;
        if !self.synced {
            if u.final_sequence < self.last_sequence {
                return false;
            }
            if u.first_sequence <= self.last_sequence && self.last_sequence <= u.final_sequence {
                self.synced = true;
            } else {
                return false;
            }
        } else {
            if u.previous_final_sequence != self.last_sequence {
                self.synced = false;
                return false;
            }
        }
        self.last_sequence = u.final_sequence;
        let ghost bs = u@.bids;
        proof {
            assert(bs.skip(0) =~= bs);
        }
        let mut i: usize = 0;
        while i < u.bids.len()
            invariant
                i <= u.bids.len(),
                bs == u@.bids,
                bs.len() == u.bids.len(),
                wf_levels(self.bids@),
                apply_deltas(lmap(self.bids@), bs.skip(i as int)) == apply_deltas(m0.bids, bs),
                self.asks@ == old(self).asks@,
                wf_levels(self.asks@),
                self.last_sequence == u.final_sequence,
                self.synced,
                self.symbol@ == old(self).symbol@,
            decreases u.bids.len() - i,
        {
            let ghost rest = bs.skip(i as int);
            proof {
                assert(rest[0] == bs[i as int]);
                assert(rest.drop_first() =~= bs.skip(i as int + 1));
                assert(bs[i as int] == u.bids@[i as int]@);
            }
            let p = parse_or_zero(u.bids[i].price.as_str());
            let q = parse_or_zero(u.bids[i].qty.as_str());
            if q == 0 {
                remove_level(&mut self.bids, p);
            } else {
                upsert_level(&mut self.bids, p, q);
            }
            i = i + 1;
        }
        let ghost asq = u@.asks;
        proof {
            assert(asq.skip(0) =~= asq);
        }
        let mut j: usize = 0;
        while j < u.asks.len()
            invariant
                j <= u.asks.len(),
                asq == u@.asks,
                asq.len() == u.asks.len(),
                wf_levels(self.asks@),
                apply_deltas(lmap(self.asks@), asq.skip(j as int)) == apply_deltas(m0.asks, asq),
                wf_levels(self.bids@),
                lmap(self.bids@) == apply_deltas(m0.bids, u@.bids),
                self.last_sequence == u.final_sequence,
                self.synced,
                self.symbol@ == old(self).symbol@,
            decreases u.asks.len() - j,
        {
            let ghost rest = asq.skip(j as int);
            proof {
                assert(rest[0] == asq[j as int]);
                assert(rest.drop_first() =~= asq.skip(j as int + 1));
                assert(asq[j as int] == u.asks@[j as int]@);
            }
            let p = parse_or_zero(u.asks[j].price.as_str());
            let q = parse_or_zero(u.asks[j].qty.as_str());
            if q == 0 {
                remove_level(&mut self.asks, p);
            } else {
                upsert_level(&mut self.asks, p, q);
            }
            j = j + 1;
        }
        proof {
            assert(u@.bids.skip(u@.bids.len() as int) =~= Seq::<(Seq<char>, Seq<char>)>::empty());
            assert(u@.asks.skip(u@.asks.len() as int) =~= Seq::<(Seq<char>, Seq<char>)>::empty());
            assert(self@ =~= spec_apply_update(m0, u@));
        }
        true
    }

    /// The highest-priced bid level, if any.
    pub fn best_bid(&self) -> (r: Option<(u128, u128)>)
        requires
            self.wf(),
        ensures
            r is Some <==> self.bids@.len() > 0,
            r matches Some(pq) ==> self@.bids.dom().contains(pq.0) && self@.bids[pq.0] == pq.1 && (
            forall|k: u128| self@.bids.dom().contains(k) ==> k <= pq.0),
            r is None ==> self@.bids == Map::<u128, u128>::empty(),
    {
        if self.bids.len() == 0 {
            None
        } else {
            let l = self.bids[self.bids.len() - 1];
            proof {
                lemma_lmap_get(self.bids@, self.bids@.len() - 1);
                lemma_lmap_dom(self.bids@);
                assert forall|k: u128| self@.bids.dom().contains(k) implies k <= l.price by {
                    let i = choose|i: int|
                        0 <= i < self.bids@.len() && self.bids@[i].price == k;
                    if i < self.bids@.len() - 1 {
                        assert(self.bids@[i].price < self.bids@[self.bids@.len() - 1].price);
                    }
                }
            }
            Some((l.price, l.qty))
        }
    }

    /// The lowest-priced ask level, if any.
    pub fn best_ask(&self) -> (r: Option<(u128, u128)>)
        requires
            self.wf(),
        ensures
            r is Some <==> self.asks@.len() > 0,
            r matches Some(pq) ==> self@.asks.dom().contains(pq.0) && self@.asks[pq.0] == pq.1 && (
            forall|k: u128| self@.asks.dom().contains(k) ==> k >= pq.0),
            r is None ==> self@.asks == Map::<u128, u128>::empty(),
    {
        if self.asks.len() == 0 {
            None
        } else {
            let l = self.asks[0];
            proof {
                lemma_lmap_get(self.asks@, 0);
                lemma_lmap_dom(self.asks@);
                assert forall|k: u128| self@.asks.dom().contains(k) implies k >= l.price by {
                    let i = choose|i: int|
                        0 <= i < self.asks@.len() && self.asks@[i].price == k;
                    if i > 0 {
                        assert(self.asks@[0].price < self.asks@[i].price);
                    }
                }
            }
            Some((l.price, l.qty))
        }
    }

    /// The top `n` bid levels, best (highest price) first.
    pub fn top_bids(&self, n: usize) -> (r: Vec<(u128, u128)>)
        requires
            self.wf(),
        ensures
            r@.len() == if n <= self.bids@.len() {
                n as int
            } else {
                self.bids@.len() as int
            },
            forall|i: int|
                0 <= i < r@.len() ==> r@[i] == (
                    self.bids@[self.bids@.len() - 1 - i].price,
                    self.bids@[self.bids@.len() - 1 - i].qty,
                ),
            forall|i: int, j: int| 0 <= i < j < r@.len() ==> r@[i].0 > r@[j].0,
            forall|i: int|
                0 <= i < r@.len() ==> self@.bids.dom().contains(r@[i].0) && self@.bids[r@[i].0]
                    == r@[i].1,
    {
        let m = if n <= self.bids.len() {
            n
        } else {
            self.bids.len()
        };
        let mut r: Vec<(u128, u128)> = Vec::new();
        let mut k: usize = 0;
        while k < m
            invariant
                k <= m,
                m <= self.bids@.len(),
                r@.len() == k,
                forall|i: int|
                    0 <= i < k ==> r@[i] == (
                        self.bids@[self.bids@.len() - 1 - i].price,
                        self.bids@[self.bids@.len() - 1 - i].qty,
                    ),
            decreases m - k,
        {
            let l = self.bids[self.bids.len() - 1 - k];
            r.push((l.price, l.qty));
            k = k + 1;
        }
        proof {
            assert forall|i: int|
                0 <= i < r@.len() implies self@.bids.dom().contains(r@[i].0) && self@.bids[r@[i].0]
                == r@[i].1 by {
                lemma_lmap_get(self.bids@, self.bids@.len() - 1 - i);
            }
        }
        r
    }

    /// The top `n` ask levels, best (lowest price) first.
    pub fn top_asks(&self, n: usize) -> (r: Vec<(u128, u128)>)
        requires
            self.wf(),
        ensures
            r@.len() == if n <= self.asks@.len() {
                n as int
            } else {
                self.asks@.len() as int
            },
            forall|i: int|
                0 <= i < r@.len() ==> r@[i] == (self.asks@[i].price, self.asks@[i].qty),
            forall|i: int, j: int| 0 <= i < j < r@.len() ==> r@[i].0 < r@[j].0,
            forall|i: int|
                0 <= i < r@.len() ==> self@.asks.dom().contains(r@[i].0) && self@.asks[r@[i].0]
                    == r@[i].1,
    {
        let m = if n <= self.asks.len() {
            n
        } else {
            self.asks.len()
        };
        let mut r: Vec<(u128, u128)> = Vec::new();
        let mut k: usize = 0;
        while k < m
            invariant
                k <= m,
                m <= self.asks@.len(),
                r@.len() == k,
                forall|i: int| 0 <= i < k ==> r@[i] == (self.asks@[i].price, self.asks@[i].qty),
            decreases m - k,
        {
            let l = self.asks[k];
            r.push((l.price, l.qty));
            k = k + 1;
        }
        proof {
            assert forall|i: int|
                0 <= i < r@.len() implies self@.asks.dom().contains(r@[i].0) && self@.asks[r@[i].0]
                == r@[i].1 by {
                lemma_lmap_get(self.asks@, i);
            }
        }
        r
    }
}

/// No order book ever holds a level with a non-positive quantity: every
/// price in either side of a well-formed book maps to a positive amount.
pub proof fn lemma_no_zero_quantity(b: OrderBook)
    requires
        b.wf(),
    ensures
        forall|k: u128| b@.bids.dom().contains(k) ==> b@.bids[k] > 0,
        forall|k: u128| b@.asks.dom().contains(k) ==> b@.asks[k] > 0,
{
    lemma_lmap_dom(b.bids@);
    lemma_lmap_dom(b.asks@);
    assert forall|k: u128| b@.bids.dom().contains(k) implies b@.bids[k] > 0 by {
        let i = choose|i: int| 0 <= i < b.bids@.len() && b.bids@[i].price == k;
        lemma_lmap_get(b.bids@, i);
    }
    assert forall|k: u128| b@.asks.dom().contains(k) implies b@.asks[k] > 0 by {
        let i = choose|i: int| 0 <= i < b.asks@.len() && b.asks@[i].price == k;
        lemma_lmap_get(b.asks@, i);
    }
}

/// Applying a snapshot replaces the book wholesale, so applying the same
/// snapshot twice yields exactly the state one application gives.
pub proof fn lemma_apply_snapshot_idempotent(b: BookModel, s: SnapshotModel)
    ensures
        spec_apply_snapshot(spec_apply_snapshot(b, s), s) == spec_apply_snapshot(b, s),
{
}

/// A well-formed book is canonical: two well-formed books with the same
/// model hold the very same level vectors. With the lemma above, a book
/// that applies the same snapshot twice therefore ends bid-for-bid and
/// ask-for-ask identical to one that applied it once.
pub proof fn lemma_book_canonical(a: OrderBook, b: OrderBook)
    requires
        a.wf(),
        b.wf(),
        a@ == b@,
    ensures
        a.bids@ == b.bids@,
        a.asks@ == b.asks@,
        a.last_sequence == b.last_sequence,
        a.synced == b.synced,
{
    crate::levels::lemma_levels_canonical(a.bids@, b.bids@);
    crate::levels::lemma_levels_canonical(a.asks@, b.asks@);
}

/// The reference replay: a snapshot applied to a fresh book, then every
/// diff offered in order, all at the level of the map model.
pub open spec fn spec_replay_from(m: BookModel, ds: Seq<DepthModel>) -> BookModel
    decreases ds.len(),
{
    if ds.len() == 0 {
        m
    } else {
        spec_replay_from(spec_apply_update(m, ds[0]), ds.drop_first())
    }
}

/// The model a snapshot followed by a diff stream denotes.
pub open spec fn spec_replay(s: SnapshotModel, ds: Seq<DepthModel>) -> BookModel {
    spec_replay_from(spec_apply_snapshot(empty_book_model(), s), ds)
}

/// Replays a snapshot and a stream of diffs through the engine. The result
/// provably equals the naive map-level replay `spec_replay`, so the
/// engine's best bid and ask agree with a plain sorted reference.
pub fn replay(symbol: String, snap: &OrderBookSnapshot, diffs: &Vec<DepthUpdateEvent>) -> (b:
    OrderBook)
    ensures
        b.wf(),
        b@ == spec_replay(snap@, diffs@.map_values(|d: DepthUpdateEvent| d@)),
        b.symbol@ == symbol@,
{
    let ghost ds = diffs@.map_values(|d: DepthUpdateEvent| d@);
    let mut b = OrderBook::new(symbol);
    b.apply_snapshot(snap);
    proof {
        assert(ds.skip(0) =~= ds);
    }
    let mut i: usize = 0;
    while i < diffs.len()
        invariant
            i <= diffs.len(),
            ds == diffs@.map_values(|d: DepthUpdateEvent| d@),
            ds.len() == diffs.len(),
            b.wf(),
            spec_replay_from(b@, ds.skip(i as int)) == spec_replay(snap@, ds),
            b.symbol@ == symbol@,
        decreases diffs.len() - i,
    {
        let ghost rest = ds.skip(i as int);
        proof {
            assert(rest[0] == ds[i as int]);
            assert(rest.drop_first() =~= ds.skip(i as int + 1));
            assert(ds[i as int] == diffs@[i as int]@);
        }
        b.apply_update(&diffs[i]);
        i = i + 1;
    }
    proof {
        assert(ds.skip(ds.len() as int) =~= Seq::<DepthModel>::empty());
    }
    b
}

} // verus!
