//! One side of an order book: price levels kept sorted by price.
//!
//! A side is a price-ascending, duplicate-free vector of levels with
//! positive quantities. Its mathematical content is the price-to-quantity
//! map `lmap`; the mutators state their effect on that map.

use vstd::prelude::*;

verus! {

/// A resting price level: a price and the absolute quantity at it.
#[derive(Clone, Copy, Debug, PartialEq, Eq, Structural)]
pub struct PriceLevel {
    pub price: u128,
    pub qty: u128,
}

/// Prices strictly ascending: sorted and duplicate-free.
pub open spec fn sorted_strict(s: Seq<PriceLevel>) -> bool {
    forall|i: int, j: int| 0 <= i < j < s.len() ==> s[i].price < s[j].price
}

/// Every level holds a positive quantity.
pub open spec fn all_positive(s: Seq<PriceLevel>) -> bool {
    forall|i: int| 0 <= i < s.len() ==> s[i].qty > 0
}

/// A well-formed side: sorted, duplicate-free, no empty levels.
pub open spec fn wf_levels(s: Seq<PriceLevel>) -> bool {
    sorted_strict(s) && all_positive(s)
}

/// The price-to-quantity map a sequence of levels holds.
pub open spec fn lmap(s: Seq<PriceLevel>) -> Map<u128, u128>
    decreases s.len(),
{
    if s.len() == 0 {
        Map::empty()
    } else {
        lmap(s.drop_last()).insert(s.last().price, s.last().qty)
    }
}

/// A price is in the map exactly when some level carries it.
pub proof fn lemma_lmap_dom(s: Seq<PriceLevel>)
    ensures
        forall|k: u128|
            lmap(s).dom().contains(k) <==> (exists|i: int| 0 <= i < s.len() && s[i].price == k),
    decreases s.len(),
{
    if s.len() > 0 {
        lemma_lmap_dom(s.drop_last());
        assert forall|k: u128| lmap(s).dom().contains(k) implies (exists|i: int|
            0 <= i < s.len() && s[i].price == k) by {
            if k == s.last().price {
                assert(s[s.len() - 1].price == k);
            } else {
                assert(lmap(s) == lmap(s.drop_last()).insert(s.last().price, s.last().qty));
                assert(lmap(s.drop_last()).dom().contains(k));
                let i = choose|i: int| 0 <= i < s.drop_last().len() && s.drop_last()[i].price == k;
                assert(s.drop_last()[i] == s[i]);
                assert(s[i].price == k);
            }
        }
        assert forall|k: u128| (exists|i: int| 0 <= i < s.len() && s[i].price == k) implies lmap(
            s,
        ).dom().contains(k) by {
            let i = choose|i: int| 0 <= i < s.len() && s[i].price == k;
            assert(lmap(s) == lmap(s.drop_last()).insert(s.last().price, s.last().qty));
            if i < s.len() - 1 {
                assert(s.drop_last()[i] == s[i]);
                assert(s.drop_last()[i].price == k);
                assert(lmap(s.drop_last()).dom().contains(k));
            } else {
                assert(k == s.last().price);
            }
        }
    }
}

/// In a duplicate-free side the map sends each level's price to its quantity.
pub proof fn lemma_lmap_get(s: Seq<PriceLevel>, i: int)
    requires
        sorted_strict(s),
        0 <= i < s.len(),
    ensures
        lmap(s).dom().contains(s[i].price),
        lmap(s)[s[i].price] == s[i].qty,
    decreases s.len(),
{
    if i < s.len() - 1 {
        assert(sorted_strict(s.drop_last()));
        lemma_lmap_get(s.drop_last(), i);
        assert(s.drop_last()[i] == s[i]);
        assert(s[i].price != s.last().price);
    }
}

/// Inserting a level with a fresh price at any position inserts it into the map.
pub proof fn lemma_lmap_insert(s: Seq<PriceLevel>, i: int, v: PriceLevel)
    requires
        0 <= i <= s.len(),
        forall|j: int| 0 <= j < s.len() ==> s[j].price != v.price,
    ensures
        lmap(s.insert(i, v)) =~= lmap(s).insert(v.price, v.qty),
    decreases s.len(),
{
    let t = s.insert(i, v);
    if i == s.len() {
        assert(t.drop_last() =~= s);
        assert(t.last() == v);
    } else {
        assert(t.last() == s.last());
        assert(t.drop_last() =~= s.drop_last().insert(i, v));
        lemma_lmap_insert(s.drop_last(), i, v);
        assert(s[s.len() - 1].price != v.price);
        assert(lmap(s.drop_last()).insert(v.price, v.qty).insert(
            s.last().price,
            s.last().qty,
        ) =~= lmap(s.drop_last()).insert(s.last().price, s.last().qty).insert(v.price, v.qty));
    }
}

/// Overwriting the level that carries a price overwrites it in the map.
pub proof fn lemma_lmap_update(s: Seq<PriceLevel>, i: int, v: PriceLevel)
    requires
        sorted_strict(s),
        0 <= i < s.len(),
        s[i].price == v.price,
    ensures
        lmap(s.update(i, v)) =~= lmap(s).insert(v.price, v.qty),
    decreases s.len(),
{
    let t = s.update(i, v);
    if i == s.len() - 1 {
        assert(t.drop_last() =~= s.drop_last());
        assert(t.last() == v);
    } else {
        assert(t.last() == s.last());
        assert(t.drop_last() =~= s.drop_last().update(i, v));
        assert(sorted_strict(s.drop_last()));
        assert(s.drop_last()[i] == s[i]);
        lemma_lmap_update(s.drop_last(), i, v);
        assert(s[i].price != s.last().price);
        assert(lmap(s.drop_last()).insert(v.price, v.qty).insert(
            s.last().price,
            s.last().qty,
        ) =~= lmap(s.drop_last()).insert(s.last().price, s.last().qty).insert(v.price, v.qty));
    }
}

/// Removing the level that carries a price removes it from the map.
pub proof fn lemma_lmap_remove(s: Seq<PriceLevel>, i: int)
    requires
        sorted_strict(s),
        0 <= i < s.len(),
    ensures
        lmap(s.remove(i)) =~= lmap(s).remove(s[i].price),
    decreases s.len(),
{
    let t = s.remove(i);
    if i == s.len() - 1 {
        assert(t =~= s.drop_last());
        lemma_lmap_dom(s.drop_last());
        assert(forall|j: int|
            0 <= j < s.drop_last().len() ==> s.drop_last()[j].price != s[i].price);
        assert(!lmap(s.drop_last()).dom().contains(s[i].price));
        assert(lmap(s.drop_last()).insert(s.last().price, s.last().qty).remove(
            s.last().price,
        ) =~= lmap(s.drop_last()));
    } else {
        assert(t.last() == s.last());
        assert(t.drop_last() =~= s.drop_last().remove(i));
        assert(sorted_strict(s.drop_last()));
        assert(s.drop_last()[i] == s[i]);
        lemma_lmap_remove(s.drop_last(), i);
        assert(s[i].price != s.last().price);
        assert(lmap(s.drop_last()).remove(s[i].price).insert(
            s.last().price,
            s.last().qty,
        ) =~= lmap(s.drop_last()).insert(s.last().price, s.last().qty).remove(s[i].price));
    }
}

/// A well-formed side is canonical: two sides holding the same map are
/// the same sequence of levels.
pub proof fn lemma_levels_canonical(s1: Seq<PriceLevel>, s2: Seq<PriceLevel>)
    requires
        wf_levels(s1),
        wf_levels(s2),
        lmap(s1) == lmap(s2),
    ensures
        s1 == s2,
    decreases s1.len(),
{
    lemma_lmap_dom(s1);
    lemma_lmap_dom(s2);
    if s1.len() == 0 {
        if s2.len() > 0 {
            lemma_lmap_get(s2, s2.len() - 1);
            assert(lmap(s1).dom().contains(s2.last().price));
        }
        assert(s1 =~= s2);
    } else if s2.len() == 0 {
        lemma_lmap_get(s1, s1.len() - 1);
        assert(lmap(s2).dom().contains(s1.last().price));
    } else {
        let l1 = s1.last();
        let l2 = s2.last();
        lemma_lmap_get(s1, s1.len() - 1);
        lemma_lmap_get(s2, s2.len() - 1);
        // Each last price is the maximum of the shared domain, so they agree.
        assert(l2.price <= l1.price) by {
            let i = choose|i: int| 0 <= i < s1.len() && s1[i].price == l2.price;
            assert(s1[i].price <= s1[s1.len() - 1].price);
        }
        assert(l1.price <= l2.price) by {
            let i = choose|i: int| 0 <= i < s2.len() && s2[i].price == l1.price;
            assert(s2[i].price <= s2[s2.len() - 1].price);
        }
        assert(l1.qty == lmap(s1)[l1.price]);
        assert(l2.qty == lmap(s2)[l2.price]);
        assert(l1 == l2);
        lemma_lmap_dom(s1.drop_last());
        lemma_lmap_dom(s2.drop_last());
        assert(lmap(s1.drop_last()) =~= lmap(s1).remove(l1.price)) by {
            assert(forall|j: int|
                0 <= j < s1.drop_last().len() ==> s1.drop_last()[j].price != l1.price);
            assert(!lmap(s1.drop_last()).dom().contains(l1.price));
        }
        assert(lmap(s2.drop_last()) =~= lmap(s2).remove(l2.price)) by {
            assert(forall|j: int|
                0 <= j < s2.drop_last().len() ==> s2.drop_last()[j].price != l2.price);
            assert(!lmap(s2.drop_last()).dom().contains(l2.price));
        }
        assert(wf_levels(s1.drop_last()));
        assert(wf_levels(s2.drop_last()));
        lemma_levels_canonical(s1.drop_last(), s2.drop_last());
        assert(s1 =~= s1.drop_last().push(l1));
        assert(s2 =~= s2.drop_last().push(l2));
        assert(s1 =~= s2);
    }
}

/// Inserts the level at `price`, overwriting any level already there.
pub fn upsert_level(levels: &mut Vec<PriceLevel>, price: u128, qty: u128)
    requires
        wf_levels(old(levels)@),
        qty > 0,
    ensures
        wf_levels(final(levels)@),
        lmap(final(levels)@) == lmap(old(levels)@).insert(price, qty),
{
    let ghost s = levels@;
    let mut i: usize = 0;
    while i < levels.len() && levels[i].price < price
        invariant
            levels@ == s,
            wf_levels(s),
            i <= s.len(),
            forall|j: int| 0 <= j < i ==> s[j].price < price,
        decreases s.len() - i,
    {
        i = i + 1;
    }
    let lv = PriceLevel { price, qty };
    if i < levels.len() && levels[i].price == price {
        levels.remove(i);
        levels.insert(i, lv);
        proof {
            assert(levels@ =~= s.update(i as int, lv));
            lemma_lmap_update(s, i as int, lv);
        }
    } else {
        proof {
            assert(forall|j: int| i <= j < s.len() ==> s[j].price > price);
        }
        levels.insert(i, lv);
        proof {
            lemma_lmap_insert(s, i as int, lv);
            assert forall|a: int, b: int|
                0 <= a < b < levels@.len() implies levels@[a].price < levels@[b].price by {
                if a < i && b > i {
                    assert(s[a].price < price);
                    assert(s[b - 1].price > price);
                }
            }
        }
    }
}

/// Removes the level at `price`, if any.
pub fn remove_level(levels: &mut Vec<PriceLevel>, price: u128)
    requires
        wf_levels(old(levels)@),
    ensures
        wf_levels(final(levels)@),
        lmap(final(levels)@) == lmap(old(levels)@).remove(price),
{
    let ghost s = levels@;
    let mut i: usize = 0;
    while i < levels.len() && levels[i].price < price
        invariant
            levels@ == s,
            wf_levels(s),
            i <= s.len(),
            forall|j: int| 0 <= j < i ==> s[j].price < price,
        decreases s.len() - i,
    {
        i = i + 1;
    }
    if i < levels.len() && levels[i].price == price {
        levels.remove(i);
        proof {
            lemma_lmap_remove(s, i as int);
        }
    } else {
        proof {
            lemma_lmap_dom(s);
            assert(forall|j: int| 0 <= j < s.len() ==> s[j].price != price);
            assert(!lmap(s).dom().contains(price));
            assert(lmap(s).remove(price) =~= lmap(s));
        }
    }
}

} // verus!
