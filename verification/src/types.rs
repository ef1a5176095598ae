//! Venue-computed top-of-book and trade records.
//!
//! Both arrive with prices and quantities as decimal strings; the
//! constructors parse them into the fixed-point representation and
//! reject a whole record when any field is unrepresentable, so a
//! malformed record is dropped rather than stored corrupted.

use vstd::prelude::*;
use crate::decimal::parse_fixed;
use crate::decimal::parse_fixed_spec;
use crate::errors::FeedError;

verus! {

/// Venue-computed top-of-book for one symbol.
#[derive(Clone, Debug, PartialEq, Eq)]
pub struct BookTicker {
    pub update_id: u64,
    pub symbol: String,
    pub bid_price: u128,
    pub bid_qty: u128,
    pub ask_price: u128,
    pub ask_qty: u128,
}

impl BookTicker {
    /// Builds a ticker from wire fields, rejecting the whole record when
    /// any decimal field is unrepresentable.
    pub fn from_raw(
        update_id: u64,
        symbol: String,
        bid_price: &str,
        bid_qty: &str,
        ask_price: &str,
        ask_qty: &str,
    ) -> (r: Result<BookTicker, FeedError>)
        ensures
            r is Ok <==> parse_fixed_spec(bid_price@) is Some && parse_fixed_spec(bid_qty@)
                is Some && parse_fixed_spec(ask_price@) is Some && parse_fixed_spec(ask_qty@)
                is Some,
            r matches Ok(t) ==> t.update_id == update_id && t.symbol@ == symbol@
                && parse_fixed_spec(bid_price@) == Some(t.bid_price) && parse_fixed_spec(bid_qty@)
                == Some(t.bid_qty) && parse_fixed_spec(ask_price@) == Some(t.ask_price)
                && parse_fixed_spec(ask_qty@) == Some(t.ask_qty),
            r matches Err(e) ==> e == FeedError::Protocol,
    {
        let bp = parse_fixed(bid_price);
        let bq = parse_fixed(bid_qty);
        let ap = parse_fixed(ask_price);
        let aq = parse_fixed(ask_qty);
        match (bp, bq, ap, aq) {
            (Some(bid_price), Some(bid_qty), Some(ask_price), Some(ask_qty)) => Ok(
                BookTicker { update_id, symbol, bid_price, bid_qty, ask_price, ask_qty },
            ),
            _ => Err(FeedError::Protocol),
        }
    }
}

/// A single executed trade.
#[derive(Clone, Debug, PartialEq, Eq)]
pub struct Trade {
    pub event_time: u64,
    pub symbol: String,
    pub trade_id: u64,
    pub price: u128,
    pub quantity: u128,
    pub buyer_order_id: u64,
    pub seller_order_id: u64,
    pub trade_time: u64,
    pub is_buyer_market_maker: bool,
}

impl Trade {
    /// Builds a trade from wire fields, rejecting the whole record when
    /// either decimal field is unrepresentable.
    pub fn from_raw(
        event_time: u64,
        symbol: String,
        trade_id: u64,
        price: &str,
        quantity: &str,
        buyer_order_id: u64,
        seller_order_id: u64,
        trade_time: u64,
        is_buyer_market_maker: bool,
    ) -> (r: Result<Trade, FeedError>)
        ensures
            r is Ok <==> parse_fixed_spec(price@) is Some && parse_fixed_spec(quantity@) is Some,
            r matches Ok(t) ==> t.event_time == event_time && t.symbol@ == symbol@ && t.trade_id
                == trade_id && parse_fixed_spec(price@) == Some(t.price) && parse_fixed_spec(
                quantity@,
            ) == Some(t.quantity) && t.buyer_order_id == buyer_order_id && t.seller_order_id
                == seller_order_id && t.trade_time == trade_time && t.is_buyer_market_maker
                == is_buyer_market_maker,
            r matches Err(e) ==> e == FeedError::Protocol,
    {
        let p = parse_fixed(price);
        let q = parse_fixed(quantity);
        match (p, q) {
            (Some(price), Some(quantity)) => Ok(
                Trade {
                    event_time,
                    symbol,
                    trade_id,
                    price,
                    quantity,
                    buyer_order_id,
                    seller_order_id,
                    trade_time,
                    is_buyer_market_maker,
                },
            ),
            _ => Err(FeedError::Protocol),
        }
    }
}

} // verus!
