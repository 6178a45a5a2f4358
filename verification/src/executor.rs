//! Order execution stubs: the simulator used in dry runs, and the
//! executor the strategy drives when no real venue is attached.
//! Prices are integer cents, sizes are millionths of a unit.

use vstd::prelude::*;
use crate::indicators::price_ok;
use crate::numeric::div_nn_i64;
use crate::PRICE_LIMIT;

verus! {

/// A batch of order requests as serialised for the venue.
#[derive(Debug, Clone)]
pub struct HyperliquidOrder {
    pub action: String,
    pub orders: Vec<OrderRequest>,
}

#[derive(Debug, Clone)]
pub struct OrderRequest {
    pub coin: String,
    pub is_buy: bool,
    pub sz: String,
    pub limit_px: String,
    pub reduce_only: bool,
    pub order_type: String,
}

/// A venue response carrying the ids of accepted orders.
#[derive(Debug, Clone)]
pub struct OrderResponse {
    pub status: String,
    pub response: OrderResponseData,
}

#[derive(Debug, Clone)]
pub struct OrderResponseData {
    pub order_ids: Vec<u64>,
}

/// A simulated fill.
#[derive(Debug, Clone)]
pub struct SimulatedOrder {
    pub order_id: u64,
    pub side: String,
    /// Size in millionths of a unit.
    pub size: i128,
    /// Fill price in cents.
    pub execution_price: i64,
    pub status: String,
    pub timestamp: u64,
}

/// The simulated fill price: one basis point of slippage against the
/// taker, floored.
pub open spec fn slipped_price(price: int, is_buy: bool) -> int {
    if is_buy {
        price * 10_001 / 10_000
    } else {
        price * 9_999 / 10_000
    }
}

/// Fill simulator for dry runs; ids count up from one.
pub struct OrderSimulator {
    pub next_order_id: u64,
}

impl OrderSimulator {
    pub fn new() -> (r: Self)
        ensures
            r.next_order_id == 1,
    {
        Self { next_order_id: 1 }
    }

    /// Simulate a market order at `current_price` with one basis point
    /// of adverse slippage; always fills.
    pub fn market_order(&mut self, is_buy: bool, size: i128, current_price: i64, now_ms: u64)
        -> (r: SimulatedOrder)
        requires
            price_ok(current_price),
            old(self).next_order_id < u64::MAX,
        ensures
            final(self).next_order_id == old(self).next_order_id + 1,
            r.order_id == old(self).next_order_id,
            r.size == size,
            r.execution_price == slipped_price(current_price as int, is_buy),
            r.timestamp == now_ms,
            r.side@ == (if is_buy { "BUY"@ } else { "SELL"@ }),
            r.status@ == "FILLED"@,
    {
        let order_id = self.next_order_id;
        self.next_order_id = self.next_order_id + 1;

        proof {
            assert(current_price as int * 10_001 >= 0
                && current_price as int * 10_001 <= PRICE_LIMIT as int * 10_001
                && current_price as int * 9_999 >= 0) by (nonlinear_arith)
                requires 0 < current_price as int <= PRICE_LIMIT as int;
        }
        let execution_price = if is_buy {
            div_nn_i64(current_price * 10_001, 10_000)
        } else {
            div_nn_i64(current_price * 9_999, 10_000)
        };

        let side = if is_buy {
            String::from_str("BUY")
        } else {
            String::from_str("SELL")
        };

        SimulatedOrder {
            order_id,
            side,
            size,
            execution_price,
            status: String::from_str("FILLED"),
            timestamp: now_ms,
        }
    }

    /// Simulate a limit order: fills at the limit price only when the
    /// market is at or beyond it, else stays pending (`None`).
    pub fn limit_order(
        &mut self,
        is_buy: bool,
        size: i128,
        limit_price: i64,
        current_price: i64,
        now_ms: u64,
    ) -> (r: Option<SimulatedOrder>)
        requires
            old(self).next_order_id < u64::MAX,
        ensures
            ({
                let can_execute = if is_buy {
                    current_price <= limit_price
                } else {
                    current_price >= limit_price
                };
                if can_execute {
                    &&& final(self).next_order_id == old(self).next_order_id + 1
                    &&& r is Some
                    &&& ({
                        let o = r->0;
                        &&& o.order_id == old(self).next_order_id
                        &&& o.size == size
                        &&& o.execution_price == limit_price
                        &&& o.timestamp == now_ms
                        &&& o.side@ == (if is_buy { "BUY"@ } else { "SELL"@ })
                        &&& o.status@ == "FILLED"@
                    })
                } else {
                    r is None && *final(self) == *old(self)
                }
            }),
    {
        let can_execute = if is_buy {
            current_price <= limit_price
        } else {
            current_price >= limit_price
        };

        if !can_execute {
            return None;
        }

        let order_id = self.next_order_id;
        self.next_order_id = self.next_order_id + 1;

        let side = if is_buy {
            String::from_str("BUY")
        } else {
            String::from_str("SELL")
        };

        Some(SimulatedOrder {
            order_id,
            side,
            size,
            execution_price: limit_price,
            status: String::from_str("FILLED"),
            timestamp: now_ms,
        })
    }
}

/// Executor over the simulator: market, limit, and position-close
/// orders, each returning the simulated order id.
pub struct OrderExecutor {
    pub next_order_id: u64,
    pub simulator: OrderSimulator,
}

impl OrderExecutor {
    pub fn new() -> (r: Self)
        ensures
            r.next_order_id == 1,
            r.simulator.next_order_id == 1,
    {
        Self {
            next_order_id: 1,
            simulator: OrderSimulator::new(),
        }
    }

    /// Fill a market order through the simulator.
    pub fn market_order(&mut self, is_buy: bool, size: i128, current_price: i64) -> (r: Result<u64, String>)
        requires
            price_ok(current_price),
            old(self).simulator.next_order_id < u64::MAX,
        ensures
            r is Ok,
            r == Ok::<u64, String>(old(self).simulator.next_order_id),
            final(self).simulator.next_order_id == old(self).simulator.next_order_id + 1,
            final(self).next_order_id == old(self).next_order_id,
    {
        let now_ms = crate::clock::now_unix_millis();
        let simulated = self.simulator.market_order(is_buy, size, current_price, now_ms);
        Ok(simulated.order_id)
    }

    /// Fill a limit order through the simulator; an unfilled order is
    /// an error, as the venue would report.
    pub fn limit_order(&mut self, is_buy: bool, size: i128, limit_price: i64, current_price: i64)
        -> (r: Result<u64, String>)
        requires
            old(self).simulator.next_order_id < u64::MAX,
        ensures
            ({
                let can_execute = if is_buy {
                    current_price <= limit_price
                } else {
                    current_price >= limit_price
                };
                if can_execute {
                    r == Ok::<u64, String>(old(self).simulator.next_order_id)
                        && final(self).simulator.next_order_id
                            == old(self).simulator.next_order_id + 1
                } else {
                    r is Err && final(self).simulator == old(self).simulator
                }
            }),
    {
        let now_ms = crate::clock::now_unix_millis();
        let simulated = self.simulator.limit_order(is_buy, size, limit_price, current_price, now_ms);

        match simulated {
            Some(order) => Ok(order.order_id),
            None => Err(String::from_str("Limit order not filled")),
        }
    }

    /// Close a position with a market order in the opposite direction.
    pub fn close_position(&mut self, position_size: i128, is_long: bool, current_price: i64)
        -> (r: Result<u64, String>)
        requires
            price_ok(current_price),
            old(self).simulator.next_order_id < u64::MAX,
        ensures
            r is Ok,
            r == Ok::<u64, String>(old(self).simulator.next_order_id),
            final(self).simulator.next_order_id == old(self).simulator.next_order_id + 1,
    {
        let is_buy = !is_long;
        let now_ms = crate::clock::now_unix_millis();
        let simulated = self.simulator.market_order(is_buy, position_size, current_price, now_ms);
        Ok(simulated.order_id)
    }
}

} // verus!
