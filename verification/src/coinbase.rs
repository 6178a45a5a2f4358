//! The spot-exchange level-2 feed: the message shape and the decision
//! of which book update one change row means. The websocket itself
//! stays with the caller.

use vstd::prelude::*;
use crate::orderbook::{Side, Update};

verus! {

/// One level-2 message: batched `[side, price, size]` change rows as
/// decimal strings, plus the ticker fields some channels carry.
#[derive(Debug, Clone)]
pub struct CoinbaseL2Update {
    pub msg_type: String,
    pub product_id: String,
    pub changes: Vec<Vec<String>>,
    pub time: String,
    pub best_bid: String,
    pub best_ask: String,
    pub price: String,
}

/// Subscription parameters for the level-2 feed.
#[derive(Debug, Clone)]
pub struct CoinbaseFeed {
    pub url: String,
    pub products: Vec<String>,
}

impl CoinbaseFeed {
    /// A feed for the given products on the public endpoint.
    pub fn new(products: Vec<String>) -> (r: Self)
        ensures
            r.products == products,
            r.url@ == "wss://ws-feed.exchange.coinbase.com"@,
    {
        Self {
            url: String::from_str("wss://ws-feed.exchange.coinbase.com"),
            products,
        }
    }
}

/// The book update one change row means, once its side and fixed-point
/// price and quantity are read: a buy row sets a bid level, anything
/// else an ask level.
pub fn l2_change_update(is_buy: bool, price_ticks: i64, quantity_micro: u64) -> (r: Update)
    ensures
        r == (Update::SetLevel {
            price: price_ticks,
            quantity: quantity_micro,
            side: if is_buy { Side::Bid } else { Side::Ask },
        }),
{
    Update::SetLevel {
        price: price_ticks,
        quantity: quantity_micro,
        side: if is_buy { Side::Bid } else { Side::Ask },
    }
}

} // verus!
