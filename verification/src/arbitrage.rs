//! Triangular arbitrage detector over three order books with cached
//! best prices. Two closed paths are evaluated per tick; each leg
//! multiplies by `1 - fee` and floors, so a reported final amount
//! never overstates the real-valued one.
//!
//! Amounts are millionths of the respective currency; prices are book
//! ticks, converted through each pair's divisor.

use vstd::prelude::*;
use crate::numeric::div_nn_i128;
use crate::orderbook::OrderBookImpl;

verus! {

/// Largest tick price a detector book may quote.
pub const ARB_PRICE_LIMIT: i64 = 10_000_000_000;

/// Largest tick-to-unit divisor of a pair.
pub const ARB_DIVISOR_LIMIT: i64 = 100_000_000;

/// Largest amount a path leg accepts; beyond it the path is abandoned.
pub const LEG_CAP: i128 = 1_000_000_000_000_000_000_000_000;

/// Largest starting amount, in millionths of the quote currency.
pub const AMOUNT_LIMIT: i64 = 1_000_000_000_000_000;

/// Which closed path an opportunity takes.
#[derive(Debug, Clone, Copy, PartialEq, Eq, Structural)]
pub enum ArbitragePath {
    Forward,
    Reverse,
}

/// One detected opportunity: the profit in basis points of the input,
/// with all amounts in millionths of the quote currency.
#[derive(Debug, Clone, Copy, PartialEq, Eq, Structural)]
pub struct TriangularOpportunity {
    pub timestamp: u64,
    pub path: ArbitragePath,
    pub profit_bps: i64,
    pub input_amount: i64,
    pub expected_output: i64,
    pub net_profit: i64,
}

/// A leg that sells the held currency at `price` ticks (each worth
/// `1/divisor` of the target currency), then pays the fee.
pub open spec fn leg_mul(amount: int, price: int, divisor: int, fee_bps: int) -> int {
    amount * price * (10_000 - fee_bps) / (divisor * 10_000)
}

/// A leg that buys the target currency at `price` ticks per unit,
/// then pays the fee.
pub open spec fn leg_div(amount: int, price: int, divisor: int, fee_bps: int) -> int {
    amount * divisor * (10_000 - fee_bps) / (price * 10_000)
}

/// Final amount of the forward path (quote → base1 → base2 → quote):
/// buy pair 1 at its ask, sell through pair 3 and pair 2 at their bids.
pub open spec fn forward_final(
    amount: int,
    ask1: int, bid2: int, bid3: int,
    d1: int, d2: int, d3: int,
    fee_bps: int,
) -> int {
    leg_mul(leg_mul(leg_div(amount, ask1, d1, fee_bps), bid3, d3, fee_bps), bid2, d2, fee_bps)
}

/// Final amount of the reverse path (quote → base2 → base1 → quote):
/// buy pair 2 and pair 3 at their asks, sell pair 1 at its bid.
pub open spec fn reverse_final(
    amount: int,
    bid1: int, ask2: int, ask3: int,
    d1: int, d2: int, d3: int,
    fee_bps: int,
) -> int {
    leg_mul(leg_div(leg_div(amount, ask2, d2, fee_bps), ask3, d3, fee_bps), bid1, d1, fee_bps)
}

/// Profit of a path in basis points of the input, floored toward zero.
pub open spec fn profit_bps_of(amount: int, final_amount: int) -> int {
    let profit = final_amount - amount;
    if profit >= 0 {
        profit * 10_000 / amount
    } else {
        -((-profit) * 10_000 / amount)
    }
}

/// Detector over the three books of a triangle, with per-pair tick
/// divisors and cached best prices (zero while a side is empty).
pub struct TriangularArbitrageDetector {
    pub pair1: OrderBookImpl,
    pub pair2: OrderBookImpl,
    pub pair3: OrderBookImpl,
    pub trading_fee_bps: i64,
    pub min_profit_bps: i64,
    pub pair1_divisor: i64,
    pub pair2_divisor: i64,
    pub pair3_divisor: i64,
    pub cached_price1_ask: i64,
    pub cached_price1_bid: i64,
    pub cached_price2_ask: i64,
    pub cached_price2_bid: i64,
    pub cached_price3_ask: i64,
    pub cached_price3_bid: i64,
}

impl TriangularArbitrageDetector {
    pub open spec fn spec_fee_bps(self) -> int {
        self.trading_fee_bps as int
    }

    pub open spec fn spec_min_profit_bps(self) -> int {
        self.min_profit_bps as int
    }

    pub open spec fn spec_divisors(self) -> (int, int, int) {
        (self.pair1_divisor as int, self.pair2_divisor as int, self.pair3_divisor as int)
    }

    /// The six cached best prices, as
    /// `(ask1, bid1, ask2, bid2, ask3, bid3)` in ticks.
    pub open spec fn spec_cache(self) -> (int, int, int, int, int, int) {
        (
            self.cached_price1_ask as int,
            self.cached_price1_bid as int,
            self.cached_price2_ask as int,
            self.cached_price2_bid as int,
            self.cached_price3_ask as int,
            self.cached_price3_bid as int,
        )
    }

    pub open spec fn wf(self) -> bool {
        &&& self.pair1.wf()
        &&& self.pair2.wf()
        &&& self.pair3.wf()
        &&& 0 <= self.pair1.spec_min_price()
        &&& self.pair1.spec_max_price() <= ARB_PRICE_LIMIT
        &&& 0 <= self.pair2.spec_min_price()
        &&& self.pair2.spec_max_price() <= ARB_PRICE_LIMIT
        &&& 0 <= self.pair3.spec_min_price()
        &&& self.pair3.spec_max_price() <= ARB_PRICE_LIMIT
        &&& 0 <= self.spec_fee_bps() <= 10_000
        &&& 0 <= self.spec_min_profit_bps()
        &&& 1 <= self.spec_divisors().0 <= ARB_DIVISOR_LIMIT
        &&& 1 <= self.spec_divisors().1 <= ARB_DIVISOR_LIMIT
        &&& 1 <= self.spec_divisors().2 <= ARB_DIVISOR_LIMIT
        &&& 0 <= self.spec_cache().0 <= ARB_PRICE_LIMIT
        &&& 0 <= self.spec_cache().1 <= ARB_PRICE_LIMIT
        &&& 0 <= self.spec_cache().2 <= ARB_PRICE_LIMIT
        &&& 0 <= self.spec_cache().3 <= ARB_PRICE_LIMIT
        &&& 0 <= self.spec_cache().4 <= ARB_PRICE_LIMIT
        &&& 0 <= self.spec_cache().5 <= ARB_PRICE_LIMIT
    }

    /// A detector for the live triangle: pair 1 and pair 2 quote in
    /// ten-thousandths of the quote currency, pair 3 in
    /// hundred-millionths of its base, with a 10 bps taker fee.
    pub fn new(min_profit_bps: i64) -> (r: Self)
        requires
            0 <= min_profit_bps,
        ensures
            r.wf(),
            r.spec_min_profit_bps() == min_profit_bps,
            r.spec_fee_bps() == 10,
            r.spec_divisors() == (10_000int, 10_000int, 100_000_000int),
            r.spec_cache() == (0int, 0int, 0int, 0int, 0int, 0int),
    {
        Self {
            pair1: OrderBookImpl::with_range(20_000_000, 50_000_000),
            pair2: OrderBookImpl::with_range(700_000_000, 1_200_000_000),
            pair3: OrderBookImpl::with_range(2_000_000, 6_000_000),
            trading_fee_bps: 10,
            min_profit_bps,
            pair1_divisor: 10_000,
            pair2_divisor: 10_000,
            pair3_divisor: 100_000_000,
            cached_price1_ask: 0,
            cached_price1_bid: 0,
            cached_price2_ask: 0,
            cached_price2_bid: 0,
            cached_price3_ask: 0,
            cached_price3_bid: 0,
        }
    }

    /// Refresh the cache from the held books: each side's best price
    /// in ticks, or zero while that side is empty.
    pub fn update_price_cache(&mut self)
        requires
            old(self).wf(),
        ensures
            final(self).wf(),
            final(self).pair1 == old(self).pair1,
            final(self).pair2 == old(self).pair2,
            final(self).pair3 == old(self).pair3,
            final(self).spec_fee_bps() == old(self).spec_fee_bps(),
            final(self).spec_min_profit_bps() == old(self).spec_min_profit_bps(),
            final(self).spec_divisors() == old(self).spec_divisors(),
            final(self).spec_cache() == (
                cache_of(old(self).pair1.spec_best_ask()),
                cache_of(old(self).pair1.spec_best_bid()),
                cache_of(old(self).pair2.spec_best_ask()),
                cache_of(old(self).pair2.spec_best_bid()),
                cache_of(old(self).pair3.spec_best_ask()),
                cache_of(old(self).pair3.spec_best_bid()),
            ),
    {
        proof {
            old(self).pair1.lemma_best_bid_character();
            old(self).pair1.lemma_best_ask_character();
            old(self).pair2.lemma_best_bid_character();
            old(self).pair2.lemma_best_ask_character();
            old(self).pair3.lemma_best_bid_character();
            old(self).pair3.lemma_best_ask_character();
        }
        self.cached_price1_ask = unwrap_price(self.pair1.get_best_ask());
        self.cached_price1_bid = unwrap_price(self.pair1.get_best_bid());
        self.cached_price2_ask = unwrap_price(self.pair2.get_best_ask());
        self.cached_price2_bid = unwrap_price(self.pair2.get_best_bid());
        self.cached_price3_ask = unwrap_price(self.pair3.get_best_ask());
        self.cached_price3_bid = unwrap_price(self.pair3.get_best_bid());
    }

    /// Refresh the cache, then evaluate both closed paths on
    /// `starting_amount` and collect those whose floored profit
    /// reaches the detector's threshold: forward first, then reverse.
    pub fn detect_opportunities(&mut self, timestamp: u64, starting_amount: i64)
        -> (r: Vec<TriangularOpportunity>)
        requires
            old(self).wf(),
            10_000 <= starting_amount <= AMOUNT_LIMIT,
        ensures
            final(self).wf(),
            final(self).pair1 == old(self).pair1,
            final(self).pair2 == old(self).pair2,
            final(self).pair3 == old(self).pair3,
            final(self).spec_fee_bps() == old(self).spec_fee_bps(),
            final(self).spec_min_profit_bps() == old(self).spec_min_profit_bps(),
            final(self).spec_divisors() == old(self).spec_divisors(),
            final(self).spec_cache() == (
                cache_of(old(self).pair1.spec_best_ask()),
                cache_of(old(self).pair1.spec_best_bid()),
                cache_of(old(self).pair2.spec_best_ask()),
                cache_of(old(self).pair2.spec_best_bid()),
                cache_of(old(self).pair3.spec_best_ask()),
                cache_of(old(self).pair3.spec_best_bid()),
            ),
            ({
                let fwd = spec_forward_opportunity(
                    *final(self), timestamp as int, starting_amount as int);
                let rev = spec_reverse_opportunity(
                    *final(self), timestamp as int, starting_amount as int);
                r@ == opportunity_list(fwd, rev)
            }),
    {
        self.update_price_cache();

        let mut opportunities: Vec<TriangularOpportunity> = Vec::new();

        if let Some(opp) = self.check_forward_path_fast(timestamp, starting_amount) {
            opportunities.push(opp);
        }

        if let Some(opp) = self.check_reverse_path_fast(timestamp, starting_amount) {
            opportunities.push(opp);
        }

        proof {
            let fwd = spec_forward_opportunity(*self, timestamp as int, starting_amount as int);
            let rev = spec_reverse_opportunity(*self, timestamp as int, starting_amount as int);
            assert(opportunities@ =~= opportunity_list(fwd, rev));
        }
        opportunities
    }

    /// Evaluate the forward path on the cached prices.
    pub fn check_forward_path_fast(&self, timestamp: u64, starting_amount: i64)
        -> (r: Option<TriangularOpportunity>)
        requires
            self.wf(),
            10_000 <= starting_amount <= AMOUNT_LIMIT,
        ensures
            r == spec_forward_opportunity(*self, timestamp as int, starting_amount as int),
    {
        let ask1 = self.cached_price1_ask;
        let bid2 = self.cached_price2_bid;
        let bid3 = self.cached_price3_bid;
        if ask1 == 0 || bid2 == 0 || bid3 == 0 {
            return None;
        }

        let a1 = leg_div_exec(
            starting_amount as i128, ask1, self.pair1_divisor, self.trading_fee_bps);
        if a1 > LEG_CAP {
            return None;
        }
        let a2 = leg_mul_exec(a1, bid3, self.pair3_divisor, self.trading_fee_bps);
        if a2 > LEG_CAP {
            return None;
        }
        let a3 = leg_mul_exec(a2, bid2, self.pair2_divisor, self.trading_fee_bps);
        if a3 > AMOUNT_LIMIT as i128 {
            return None;
        }

        self.emit(timestamp, starting_amount, a3 as i64, true)
    }

    /// Evaluate the reverse path on the cached prices.
    pub fn check_reverse_path_fast(&self, timestamp: u64, starting_amount: i64)
        -> (r: Option<TriangularOpportunity>)
        requires
            self.wf(),
            10_000 <= starting_amount <= AMOUNT_LIMIT,
        ensures
            r == spec_reverse_opportunity(*self, timestamp as int, starting_amount as int),
    {
        let bid1 = self.cached_price1_bid;
        let ask2 = self.cached_price2_ask;
        let ask3 = self.cached_price3_ask;
        if bid1 == 0 || ask2 == 0 || ask3 == 0 {
            return None;
        }

        let a1 = leg_div_exec(
            starting_amount as i128, ask2, self.pair2_divisor, self.trading_fee_bps);
        if a1 > LEG_CAP {
            return None;
        }
        let a2 = leg_div_exec(a1, ask3, self.pair3_divisor, self.trading_fee_bps);
        if a2 > LEG_CAP {
            return None;
        }
        let a3 = leg_mul_exec(a2, bid1, self.pair1_divisor, self.trading_fee_bps);
        if a3 > AMOUNT_LIMIT as i128 {
            return None;
        }

        self.emit(timestamp, starting_amount, a3 as i64, false)
    }

    /// Wrap a final amount as an opportunity when it clears the
    /// profit threshold.
    fn emit(&self, timestamp: u64, starting_amount: i64, final_amount: i64, forward: bool)
        -> (r: Option<TriangularOpportunity>)
        requires
            self.wf(),
            10_000 <= starting_amount <= AMOUNT_LIMIT,
            0 <= final_amount <= AMOUNT_LIMIT,
        ensures
            r == ({
                let bps = profit_bps_of(starting_amount as int, final_amount as int);
                if bps >= self.spec_min_profit_bps() {
                    Some(TriangularOpportunity {
                        timestamp,
                        path: if forward { ArbitragePath::Forward } else { ArbitragePath::Reverse },
                        profit_bps: bps as i64,
                        input_amount: starting_amount,
                        expected_output: final_amount,
                        net_profit: (final_amount - starting_amount) as i64,
                    })
                } else {
                    None::<TriangularOpportunity>
                }
            }),
    {
        let profit: i64 = final_amount - starting_amount;
        let bps128: i128 = if profit >= 0 {
            proof {
                assert(0 <= profit as int * 10_000
                    <= AMOUNT_LIMIT as int * 10_000) by (nonlinear_arith)
                    requires 0 <= profit as int <= AMOUNT_LIMIT as int;
            }
            div_nn_i128((profit as i128) * 10_000, starting_amount as i128)
        } else {
            proof {
                assert(0 <= -(profit as int) * 10_000
                    <= AMOUNT_LIMIT as int * 10_000) by (nonlinear_arith)
                    requires 0 <= -(profit as int) <= AMOUNT_LIMIT as int;
            }
            -div_nn_i128((-(profit as i128)) * 10_000, starting_amount as i128)
        };
        proof {
            crate::position::lemma_magnitude_div_le(profit as int * 10_000, starting_amount as int);
            if profit >= 0 {
                assert(profit as int * 10_000 / starting_amount as int <= AMOUNT_LIMIT as int)
                    by (nonlinear_arith)
                    requires
                        0 <= profit as int * 10_000 <= AMOUNT_LIMIT as int * 10_000,
                        starting_amount as int >= 10_000;
            } else {
                assert((-(profit as int)) * 10_000 / starting_amount as int <= AMOUNT_LIMIT as int)
                    by (nonlinear_arith)
                    requires
                        0 <= (-(profit as int)) * 10_000 <= AMOUNT_LIMIT as int * 10_000,
                        starting_amount as int >= 10_000;
            }
        }
        let bps = bps128 as i64;
        if bps >= self.min_profit_bps {
            Some(TriangularOpportunity {
                timestamp,
                path: if forward { ArbitragePath::Forward } else { ArbitragePath::Reverse },
                profit_bps: bps,
                input_amount: starting_amount,
                expected_output: final_amount,
                net_profit: profit,
            })
        } else {
            None
        }
    }
}

/// A cached best price: the price itself, or zero for an empty side.
pub open spec fn cache_of(best: Option<i64>) -> int {
    match best {
        Some(p) => p as int,
        None => 0,
    }
}

/// The forward opportunity for raw cached prices: `None` while a
/// needed side is empty, a leg overflows its cap, or the floored
/// profit misses the threshold.
pub open spec fn forward_opportunity_from(
    ask1: int, bid2: int, bid3: int,
    d1: int, d2: int, d3: int,
    fee: int, min_profit_bps: int,
    timestamp: int, amount: int,
) -> Option<TriangularOpportunity> {
    if ask1 == 0 || bid2 == 0 || bid3 == 0 {
        None
    } else {
        let a1 = leg_div(amount, ask1, d1, fee);
        let a2 = leg_mul(a1, bid3, d3, fee);
        let a3 = leg_mul(a2, bid2, d2, fee);
        if a1 > LEG_CAP || a2 > LEG_CAP || a3 > AMOUNT_LIMIT as int {
            None
        } else {
            let bps = profit_bps_of(amount, a3);
            if bps >= min_profit_bps {
                Some(TriangularOpportunity {
                    timestamp: timestamp as u64,
                    path: ArbitragePath::Forward,
                    profit_bps: bps as i64,
                    input_amount: amount as i64,
                    expected_output: a3 as i64,
                    net_profit: (a3 - amount) as i64,
                })
            } else {
                None
            }
        }
    }
}

/// The forward opportunity the detector reports for its cache.
pub open spec fn spec_forward_opportunity(
    d: TriangularArbitrageDetector,
    timestamp: int,
    amount: int,
) -> Option<TriangularOpportunity> {
    let (ask1, _bid1, _ask2, bid2, _ask3, bid3) = d.spec_cache();
    let (d1, d2, d3) = d.spec_divisors();
    forward_opportunity_from(
        ask1, bid2, bid3, d1, d2, d3,
        d.spec_fee_bps(), d.spec_min_profit_bps(), timestamp, amount)
}

/// The reverse opportunity for raw cached prices.
pub open spec fn reverse_opportunity_from(
    bid1: int, ask2: int, ask3: int,
    d1: int, d2: int, d3: int,
    fee: int, min_profit_bps: int,
    timestamp: int, amount: int,
) -> Option<TriangularOpportunity> {
    if bid1 == 0 || ask2 == 0 || ask3 == 0 {
        None
    } else {
        let a1 = leg_div(amount, ask2, d2, fee);
        let a2 = leg_div(a1, ask3, d3, fee);
        let a3 = leg_mul(a2, bid1, d1, fee);
        if a1 > LEG_CAP || a2 > LEG_CAP || a3 > AMOUNT_LIMIT as int {
            None
        } else {
            let bps = profit_bps_of(amount, a3);
            if bps >= min_profit_bps {
                Some(TriangularOpportunity {
                    timestamp: timestamp as u64,
                    path: ArbitragePath::Reverse,
                    profit_bps: bps as i64,
                    input_amount: amount as i64,
                    expected_output: a3 as i64,
                    net_profit: (a3 - amount) as i64,
                })
            } else {
                None
            }
        }
    }
}

/// The reverse opportunity the detector reports for its cache.
pub open spec fn spec_reverse_opportunity(
    d: TriangularArbitrageDetector,
    timestamp: int,
    amount: int,
) -> Option<TriangularOpportunity> {
    let (_ask1, bid1, ask2, _bid2, ask3, _bid3) = d.spec_cache();
    let (d1, d2, d3) = d.spec_divisors();
    reverse_opportunity_from(
        bid1, ask2, ask3, d1, d2, d3,
        d.spec_fee_bps(), d.spec_min_profit_bps(), timestamp, amount)
}

/// The reported list: the forward opportunity, then the reverse one.
pub open spec fn opportunity_list(
    fwd: Option<TriangularOpportunity>,
    rev: Option<TriangularOpportunity>,
) -> Seq<TriangularOpportunity> {
    let first = match fwd {
        Some(o) => seq![o],
        None => Seq::empty(),
    };
    match rev {
        Some(o) => first.push(o),
        None => first,
    }
}

fn unwrap_price(best: Option<i64>) -> (r: i64)
    ensures
        r == cache_of(best),
{
    match best {
        Some(p) => p,
        None => 0,
    }
}

/// Executable `leg_mul`, exact on amounts under the cap.
fn leg_mul_exec(amount: i128, price: i64, divisor: i64, fee_bps: i64) -> (r: i128)
    requires
        0 <= amount <= LEG_CAP,
        0 < price <= ARB_PRICE_LIMIT,
        1 <= divisor <= ARB_DIVISOR_LIMIT,
        0 <= fee_bps <= 10_000,
    ensures
        r == leg_mul(amount as int, price as int, divisor as int, fee_bps as int),
        r >= 0,
{
    proof {
        assert(0 <= amount * price <= LEG_CAP * ARB_PRICE_LIMIT as int
            && 0 <= amount * price * (10_000 - fee_bps)
            && amount * price * (10_000 - fee_bps) <= LEG_CAP * ARB_PRICE_LIMIT as int * 10_000)
            by (nonlinear_arith)
            requires
                0 <= amount <= LEG_CAP,
                0 < price as int <= ARB_PRICE_LIMIT as int,
                0 <= (10_000 - fee_bps) as int <= 10_000;
        assert(LEG_CAP * ARB_PRICE_LIMIT as int * 10_000 < i128::MAX);
        assert(0 < divisor as int * 10_000 <= ARB_DIVISOR_LIMIT as int * 10_000)
            by (nonlinear_arith)
            requires 1 <= divisor as int <= ARB_DIVISOR_LIMIT as int;
    }
    div_nn_i128(
        amount * (price as i128) * ((10_000 - fee_bps) as i128),
        (divisor as i128) * 10_000,
    )
}

/// Executable `leg_div`, exact on amounts under the cap.
fn leg_div_exec(amount: i128, price: i64, divisor: i64, fee_bps: i64) -> (r: i128)
    requires
        0 <= amount <= LEG_CAP,
        0 < price <= ARB_PRICE_LIMIT,
        1 <= divisor <= ARB_DIVISOR_LIMIT,
        0 <= fee_bps <= 10_000,
    ensures
        r == leg_div(amount as int, price as int, divisor as int, fee_bps as int),
        r >= 0,
{
    proof {
        assert(0 <= amount * divisor * (10_000 - fee_bps)
            && amount * divisor * (10_000 - fee_bps) <= LEG_CAP * ARB_DIVISOR_LIMIT as int * 10_000)
            by (nonlinear_arith)
            requires
                0 <= amount <= LEG_CAP,
                1 <= divisor as int <= ARB_DIVISOR_LIMIT as int,
                0 <= (10_000 - fee_bps) as int <= 10_000;
        assert(0 <= amount * divisor <= LEG_CAP * ARB_DIVISOR_LIMIT as int) by (nonlinear_arith)
            requires 0 <= amount <= LEG_CAP, 1 <= divisor as int <= ARB_DIVISOR_LIMIT as int;
        assert(LEG_CAP * ARB_DIVISOR_LIMIT as int * 10_000 < i128::MAX);
        assert(0 < price as int * 10_000 <= ARB_PRICE_LIMIT as int * 10_000)
            by (nonlinear_arith)
            requires 1 <= price as int <= ARB_PRICE_LIMIT as int;
    }
    div_nn_i128(
        amount * (divisor as i128) * ((10_000 - fee_bps) as i128),
        (price as i128) * 10_000,
    )
}

proof fn lemma_floor_div_le(a: int, b: int)
    by (nonlinear_arith)
    requires
        a >= 0,
        b > 0,
    ensures
        0 <= a / b,
        (a / b) * b <= a,
{
}

/// A fee-free `leg_div` result, cross-multiplied: buying at `p` ticks
/// cannot create value.
proof fn lemma_leg_div_free(x: int, p: int, d: int)
    requires
        x >= 0,
        p > 0,
        d >= 1,
    ensures
        leg_div(x, p, d, 0) >= 0,
        leg_div(x, p, d, 0) * p <= x * d,
{
    let y = leg_div(x, p, d, 0);
    assert(x * d * 10_000 >= 0 && p * 10_000 > 0) by (nonlinear_arith)
        requires x >= 0, d >= 1, p > 0;
    lemma_floor_div_le(x * d * 10_000, p * 10_000);
    assert(y * p <= x * d) by (nonlinear_arith)
        requires y * (p * 10_000) <= x * d * 10_000, y == x * d * 10_000 / (p * 10_000);
}

/// A fee-free `leg_mul` result, cross-multiplied: selling at `p` ticks
/// cannot create value.
proof fn lemma_leg_mul_free(x: int, p: int, d: int)
    requires
        x >= 0,
        p > 0,
        d >= 1,
    ensures
        leg_mul(x, p, d, 0) >= 0,
        leg_mul(x, p, d, 0) * d <= x * p,
{
    let y = leg_mul(x, p, d, 0);
    assert(x * p * 10_000 >= 0 && d * 10_000 > 0) by (nonlinear_arith)
        requires x >= 0, d >= 1, p > 0;
    lemma_floor_div_le(x * p * 10_000, d * 10_000);
    assert(y * d <= x * p) by (nonlinear_arith)
        requires y * (d * 10_000) <= x * p * 10_000, y == x * p * 10_000 / (d * 10_000);
}

/// Multiplying both sides of an inequality by a non-negative factor.
proof fn lemma_mul_mono_nn(a: int, b: int, c: int)
    by (nonlinear_arith)
    requires
        a <= b,
        c >= 0,
    ensures
        a * c <= b * c,
{
}

/// Three cross-multiplied leg bounds compose into one product bound.
proof fn lemma_chain3(
    x0: int, x1: int, x2: int, x3: int,
    p1: int, q1: int, p2: int, q2: int, p3: int, q3: int,
)
    requires
        x1 * q1 <= x0 * p1,
        x2 * q2 <= x1 * p2,
        x3 * q3 <= x2 * p3,
        x0 >= 0, x1 >= 0, x2 >= 0, x3 >= 0,
        p1 >= 1, q1 >= 1, p2 >= 1, q2 >= 1, p3 >= 1, q3 >= 1,
    ensures
        x3 * (q3 * q2 * q1) <= x0 * (p1 * p2 * p3),
{
    lemma_mul_mono_nn(x3 * q3, x2 * p3, q2 * q1);
    assert(x3 * (q3 * q2 * q1) == (x3 * q3) * (q2 * q1)) by (nonlinear_arith);
    assert((x2 * p3) * (q2 * q1) == (x2 * q2) * (p3 * q1)) by (nonlinear_arith);
    lemma_mul_mono_nn(x2 * q2, x1 * p2, p3 * q1);
    assert((x1 * p2) * (p3 * q1) == (x1 * q1) * (p2 * p3)) by (nonlinear_arith);
    lemma_mul_mono_nn(x1 * q1, x0 * p1, p2 * p3);
    assert((x0 * p1) * (p2 * p3) == x0 * (p1 * p2 * p3)) by (nonlinear_arith);
}

/// Cancelling a strictly positive common factor from a comparison.
proof fn lemma_cancel_pos(k: int, x: int, y: int)
    by (nonlinear_arith)
    requires
        k > 0,
        k * x < k * y,
    ensures
        x < y,
{
}

/// Strict-by-weak multiplication of positive comparisons.
proof fn lemma_mul_lt_mixed(a: int, b: int, c: int, d: int)
    by (nonlinear_arith)
    requires
        0 <= a,
        a < b,
        0 <= c <= d,
        0 < d,
    ensures
        a * c < b * d,
{
}

/// A bid-side triple product never exceeds the ask-side one.
proof fn lemma_prod3_le(a1: int, b1: int, a2: int, b2: int, a3: int, b3: int)
    requires
        0 < b1 <= a1,
        0 < b2 <= a2,
        0 < b3 <= a3,
    ensures
        b1 * b2 * b3 <= a1 * a2 * a3,
{
    assert(b1 * b2 * b3 <= a1 * b2 * b3) by (nonlinear_arith)
        requires 0 < b1 <= a1, b2 > 0, b3 > 0;
    assert(a1 * b2 * b3 <= a1 * a2 * b3) by (nonlinear_arith)
        requires 0 < b2 <= a2, a1 > 0, b3 > 0;
    assert(a1 * a2 * b3 <= a1 * a2 * a3) by (nonlinear_arith)
        requires 0 < b3 <= a3, a1 > 0, a2 > 0;
}

/// No-arbitrage parity of the two closed paths: over one consistent
/// triangle (each pair's bid at most its ask, all six prices
/// positive) and with the fee at zero, a strictly profitable forward
/// path forces the reverse path to lose, and the other way round.
pub proof fn lemma_no_arbitrage_parity(
    amount: int,
    ask1: int, bid1: int,
    ask2: int, bid2: int,
    ask3: int, bid3: int,
    d1: int, d2: int, d3: int,
)
    requires
        amount > 0,
        0 < bid1 <= ask1,
        0 < bid2 <= ask2,
        0 < bid3 <= ask3,
        d1 >= 1,
        d2 >= 1,
        d3 >= 1,
    ensures
        forward_final(amount, ask1, bid2, bid3, d1, d2, d3, 0) > amount
            ==> reverse_final(amount, bid1, ask2, ask3, d1, d2, d3, 0) < amount,
        reverse_final(amount, bid1, ask2, ask3, d1, d2, d3, 0) > amount
            ==> forward_final(amount, ask1, bid2, bid3, d1, d2, d3, 0) < amount,
{
    let f1 = leg_div(amount, ask1, d1, 0);
    let f2 = leg_mul(f1, bid3, d3, 0);
    let f3 = leg_mul(f2, bid2, d2, 0);
    lemma_leg_div_free(amount, ask1, d1);
    lemma_leg_mul_free(f1, bid3, d3);
    lemma_leg_mul_free(f2, bid2, d2);

    let r1 = leg_div(amount, ask2, d2, 0);
    let r2 = leg_div(r1, ask3, d3, 0);
    let r3 = leg_mul(r2, bid1, d1, 0);
    lemma_leg_div_free(amount, ask2, d2);
    lemma_leg_div_free(r1, ask3, d3);
    lemma_leg_mul_free(r2, bid1, d1);

    lemma_chain3(amount, f1, f2, f3, d1, ask1, bid3, d3, bid2, d2);
    lemma_chain3(amount, r1, r2, r3, d2, ask2, d3, ask3, bid1, d1);

    let fwd_den = d2 * d3 * ask1;
    let fwd_num = d1 * bid3 * bid2;
    let rev_den = d1 * ask3 * ask2;
    let rev_num = d2 * d3 * bid1;
    assert(fwd_den > 0 && fwd_num > 0 && rev_den > 0 && rev_num > 0) by (nonlinear_arith)
        requires
            fwd_den == d2 * d3 * ask1,
            fwd_num == d1 * bid3 * bid2,
            rev_den == d1 * ask3 * ask2,
            rev_num == d2 * d3 * bid1,
            d1 >= 1, d2 >= 1, d3 >= 1,
            ask1 > 0, ask2 > 0, ask3 > 0, bid1 > 0, bid2 > 0, bid3 > 0;
    assert(f3 * (d2 * d3 * ask1) == f3 * fwd_den && amount * (d1 * bid3 * bid2) == amount * fwd_num)
        by (nonlinear_arith)
        requires fwd_den == d2 * d3 * ask1, fwd_num == d1 * bid3 * bid2;
    assert(r3 * (d1 * ask3 * ask2) == r3 * rev_den && amount * (d2 * d3 * bid1) == amount * rev_num)
        by (nonlinear_arith)
        requires rev_den == d1 * ask3 * ask2, rev_num == d2 * d3 * bid1;
    let dddd = d1 * d2 * d3;
    assert(dddd >= 1) by (nonlinear_arith)
        requires dddd == d1 * d2 * d3, d1 >= 1, d2 >= 1, d3 >= 1;
    assert(fwd_den * rev_den == dddd * (ask1 * ask2 * ask3)) by (nonlinear_arith)
        requires
            fwd_den == d2 * d3 * ask1,
            rev_den == d1 * ask3 * ask2,
            dddd == d1 * d2 * d3;
    assert(fwd_num * rev_num == dddd * (bid1 * bid2 * bid3)) by (nonlinear_arith)
        requires
            fwd_num == d1 * bid3 * bid2,
            rev_num == d2 * d3 * bid1,
            dddd == d1 * d2 * d3;
    lemma_prod3_le(ask1, bid1, ask2, bid2, ask3, bid3);

    if f3 > amount && r3 >= amount {
        assert(amount * fwd_den < f3 * fwd_den) by (nonlinear_arith)
            requires amount < f3, fwd_den > 0;
        lemma_cancel_pos(amount, fwd_den, fwd_num);
        assert(amount * rev_den <= r3 * rev_den) by (nonlinear_arith)
            requires amount <= r3, rev_den > 0;
        assert(amount * rev_den <= amount * rev_num);
        assert(rev_den <= rev_num) by (nonlinear_arith)
            requires amount > 0, amount * rev_den <= amount * rev_num;

        lemma_mul_lt_mixed(fwd_den, fwd_num, rev_den, rev_num);
        assert(false) by (nonlinear_arith)
            requires
                fwd_den * rev_den < fwd_num * rev_num,
                fwd_den * rev_den == dddd * (ask1 * ask2 * ask3),
                fwd_num * rev_num == dddd * (bid1 * bid2 * bid3),
                bid1 * bid2 * bid3 <= ask1 * ask2 * ask3,
                dddd >= 1;
    }
    if r3 > amount && f3 >= amount {
        assert(amount * rev_den < r3 * rev_den) by (nonlinear_arith)
            requires amount < r3, rev_den > 0;
        lemma_cancel_pos(amount, rev_den, rev_num);
        assert(amount * fwd_den <= f3 * fwd_den) by (nonlinear_arith)
            requires amount <= f3, fwd_den > 0;
        assert(amount * fwd_den <= amount * fwd_num);
        assert(fwd_den <= fwd_num) by (nonlinear_arith)
            requires amount > 0, amount * fwd_den <= amount * fwd_num;

        lemma_mul_lt_mixed(rev_den, rev_num, fwd_den, fwd_num);
        assert(false) by (nonlinear_arith)
            requires
                rev_den * fwd_den < rev_num * fwd_num,
                rev_den * fwd_den == fwd_den * rev_den,
                rev_num * fwd_num == fwd_num * rev_num,
                fwd_den * rev_den == dddd * (ask1 * ask2 * ask3),
                fwd_num * rev_num == dddd * (bid1 * bid2 * bid3),
                bid1 * bid2 * bid3 <= ask1 * ask2 * ask3,
                dddd >= 1;
    }
}

} // verus!
