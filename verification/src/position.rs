//! Position and bankroll management: risk sizing with a minimum order
//! floor and a leverage cap, one open position at a time, a closed
//! trade ledger, and the kill switch over drawdown and trade frequency.
//!
//! Money amounts are integer cents; prices are cents per whole asset
//! unit; position sizes are millionths of an asset unit (scaled by
//! `SIZE_SCALE`); percentages are basis points.

use vstd::prelude::*;
use crate::indicators::price_ok;
use crate::numeric::{div_nn_i128, div_nn_i64};
use crate::PRICE_LIMIT;

verus! {

/// One million size units make one asset unit.
pub const SIZE_SCALE: i64 = 1_000_000;

/// Largest balance the manager handles, in cents.
pub const MONEY_LIMIT: i64 = 100_000_000_000_000;

/// Largest position size, in millionths of a unit.
pub const SIZE_LIMIT: i128 = 1_000_000_000_000;

/// Largest profit or loss a single position can show, in cents.
pub const PNL_LIMIT: i64 = 1_000_000_000_000_000_000;

/// Exchange minimum order value: ten dollars, in cents.
pub const MIN_ORDER_VALUE: i64 = 1_000;

/// Side of an open position.
#[derive(Debug, Clone, Copy, PartialEq, Eq, Structural)]
pub enum PositionState {
    Flat,
    Long,
    Short,
}

/// Signed profit of a position entered at `entry` and marked at
/// `price`, for a size in millionths of a unit: the price difference
/// in the position's favour times the size, in cents.
pub open spec fn spec_pnl(state: PositionState, entry: int, price: int, size: int) -> int {
    let diff = match state {
        PositionState::Long => price - entry,
        PositionState::Short => entry - price,
        PositionState::Flat => 0,
    };
    if diff >= 0 {
        diff * size / SIZE_SCALE as int
    } else {
        -((-diff) * size / SIZE_SCALE as int)
    }
}

/// The same price difference as a fraction of the entry, in basis points.
pub open spec fn spec_pnl_bps(state: PositionState, entry: int, price: int) -> int {
    let diff = match state {
        PositionState::Long => price - entry,
        PositionState::Short => entry - price,
        PositionState::Flat => 0,
    };
    if diff >= 0 {
        diff * 10_000 / entry
    } else {
        -((-diff) * 10_000 / entry)
    }
}

/// Multiply a signed difference by a non-negative factor and divide by
/// a positive one, rounding the magnitude down.
fn signed_muldiv(diff: i64, factor: i128, divisor: i64) -> (r: i128)
    requires
        -(PRICE_LIMIT as int) <= diff <= PRICE_LIMIT,
        0 <= factor <= SIZE_LIMIT,
        0 < divisor,
    ensures
        r == if diff >= 0 {
            diff * factor / divisor as int
        } else {
            -((-diff) * factor / divisor as int)
        },
        -(PRICE_LIMIT as int * SIZE_LIMIT) <= r <= PRICE_LIMIT as int * SIZE_LIMIT,
{
    proof {
        assert(0 <= PRICE_LIMIT as int * factor <= PRICE_LIMIT as int * SIZE_LIMIT)
            by (nonlinear_arith)
            requires 0 <= factor <= SIZE_LIMIT;
        assert(diff >= 0 ==> 0 <= diff * factor <= PRICE_LIMIT as int * factor)
            by (nonlinear_arith)
            requires diff <= PRICE_LIMIT as int, factor >= 0;
        assert(diff < 0 ==> 0 <= (-diff) * factor <= PRICE_LIMIT as int * factor)
            by (nonlinear_arith)
            requires -(PRICE_LIMIT as int) <= diff as int, factor >= 0;
    }
    if diff >= 0 {
        div_nn_i128((diff as i128) * factor, divisor as i128)
    } else {
        -div_nn_i128((-(diff as i128)) * factor, divisor as i128)
    }
}

/// One open position with its stop, unrealised profit and margin.
#[derive(Debug, Clone, Copy)]
pub struct OpenPosition {
    pub state: PositionState,
    pub entry_price: i64,
    pub entry_time: u64,
    /// Size in millionths of an asset unit.
    pub position_size: i128,
    /// Notional value at entry, in cents.
    pub position_value: i64,
    pub stop_loss_price: i64,
    /// Stop distance from the entry, in basis points.
    pub stop_loss_pct: i64,
    pub take_profit_price: Option<i64>,
    pub unrealized_pnl: i64,
    /// Unrealised profit relative to the entry, in basis points.
    pub unrealized_pnl_pct: i64,
    pub entry_fee: i64,
    pub db_id: Option<i64>,
    /// Collateral actually deducted from the available balance.
    pub margin: i64,
}

impl OpenPosition {
    pub open spec fn wf(self) -> bool {
        &&& self.state != PositionState::Flat
        &&& price_ok(self.entry_price)
        &&& price_ok(self.stop_loss_price)
        &&& 0 <= self.position_size <= SIZE_LIMIT
        &&& 0 <= self.position_value <= MONEY_LIMIT
        &&& 0 <= self.margin <= MONEY_LIMIT
        &&& 0 <= self.stop_loss_pct <= 10_000
        &&& 0 <= self.entry_fee <= MONEY_LIMIT
        &&& -PNL_LIMIT <= self.unrealized_pnl <= PNL_LIMIT
        &&& match self.take_profit_price {
            Some(tp) => price_ok(tp),
            None => true,
        }
    }

    /// A long position entered at `entry_price` with a protective stop
    /// below it; the stop distance is recorded in basis points.
    pub fn new_long(entry_price: i64, entry_time: u64, position_size: i128, stop_loss_price: i64)
        -> (r: Self)
        requires
            price_ok(entry_price),
            price_ok(stop_loss_price),
            stop_loss_price < entry_price,
            0 <= position_size <= SIZE_LIMIT,
            position_size * entry_price / SIZE_SCALE as int <= MONEY_LIMIT,
        ensures
            r.wf(),
            r.state == PositionState::Long,
            r.entry_price == entry_price,
            r.entry_time == entry_time,
            r.position_size == position_size,
            r.position_value
                == position_size * entry_price as int / SIZE_SCALE as int,
            r.stop_loss_price == stop_loss_price,
            r.stop_loss_pct
                == (entry_price - stop_loss_price) * 10_000 / entry_price as int,
            r.take_profit_price is None,
            r.unrealized_pnl == 0,
            r.unrealized_pnl_pct == 0,
            r.entry_fee == 0,
            r.db_id is None,
            r.margin == 0,
    {
        let stop_loss_pct = div_nn_i64((entry_price - stop_loss_price) * 10_000, entry_price);
        proof {
            assert(stop_loss_pct as int <= 10_000) by (nonlinear_arith)
                requires
                    stop_loss_pct as int
                        == (entry_price - stop_loss_price) as int * 10_000 / entry_price as int,
                    0 < entry_price as int,
                    0 <= (entry_price - stop_loss_price) as int <= entry_price as int;
            assert(0 <= position_size * entry_price as int) by (nonlinear_arith)
                requires position_size >= 0, entry_price as int >= 0;
        }
        let value128 = div_nn_i128(position_size * (entry_price as i128), SIZE_SCALE as i128);
        Self {
            state: PositionState::Long,
            entry_price,
            entry_time,
            position_size,
            position_value: value128 as i64,
            stop_loss_price,
            stop_loss_pct,
            take_profit_price: None,
            unrealized_pnl: 0,
            unrealized_pnl_pct: 0,
            entry_fee: 0,
            db_id: None,
            margin: 0,
        }
    }

    /// A short position entered at `entry_price` with a protective stop
    /// above it.
    pub fn new_short(entry_price: i64, entry_time: u64, position_size: i128, stop_loss_price: i64)
        -> (r: Self)
        requires
            price_ok(entry_price),
            price_ok(stop_loss_price),
            entry_price < stop_loss_price,
            stop_loss_price - entry_price <= entry_price,
            0 <= position_size <= SIZE_LIMIT,
            position_size * entry_price / SIZE_SCALE as int <= MONEY_LIMIT,
        ensures
            r.wf(),
            r.state == PositionState::Short,
            r.entry_price == entry_price,
            r.entry_time == entry_time,
            r.position_size == position_size,
            r.position_value
                == position_size * entry_price as int / SIZE_SCALE as int,
            r.stop_loss_price == stop_loss_price,
            r.stop_loss_pct
                == (stop_loss_price - entry_price) * 10_000 / entry_price as int,
            r.take_profit_price is None,
            r.unrealized_pnl == 0,
            r.unrealized_pnl_pct == 0,
            r.entry_fee == 0,
            r.db_id is None,
            r.margin == 0,
    {
        let stop_loss_pct = div_nn_i64((stop_loss_price - entry_price) * 10_000, entry_price);
        proof {
            assert(stop_loss_pct as int <= 10_000) by (nonlinear_arith)
                requires
                    stop_loss_pct as int
                        == (stop_loss_price - entry_price) as int * 10_000 / entry_price as int,
                    0 < entry_price as int,
                    0 <= (stop_loss_price - entry_price) as int <= entry_price as int;
            assert(0 <= position_size * entry_price as int) by (nonlinear_arith)
                requires position_size >= 0, entry_price as int >= 0;
        }
        let value128 = div_nn_i128(position_size * (entry_price as i128), SIZE_SCALE as i128);
        Self {
            state: PositionState::Short,
            entry_price,
            entry_time,
            position_size,
            position_value: value128 as i64,
            stop_loss_price,
            stop_loss_pct,
            take_profit_price: None,
            unrealized_pnl: 0,
            unrealized_pnl_pct: 0,
            entry_fee: 0,
            db_id: None,
            margin: 0,
        }
    }

    /// Mark the position at `current_price`: refresh the unrealised
    /// profit (cents) and its size relative to the entry (basis points).
    pub fn update_pnl(&mut self, current_price: i64)
        requires
            old(self).wf(),
            price_ok(current_price),
        ensures
            final(self).wf(),
            *final(self) == (OpenPosition {
                unrealized_pnl: final(self).unrealized_pnl,
                unrealized_pnl_pct: final(self).unrealized_pnl_pct,
                ..*old(self)
            }),
            final(self).unrealized_pnl == spec_pnl(
                old(self).state,
                old(self).entry_price as int,
                current_price as int,
                old(self).position_size as int,
            ),
            final(self).unrealized_pnl_pct == spec_pnl_bps(
                old(self).state,
                old(self).entry_price as int,
                current_price as int,
            ),
    {
        let diff: i64 = match self.state {
            PositionState::Long => current_price - self.entry_price,
            PositionState::Short => self.entry_price - current_price,
            PositionState::Flat => 0,
        };
        let pnl = signed_muldiv(diff, self.position_size, SIZE_SCALE);
        proof {
            assert(PRICE_LIMIT as int * SIZE_LIMIT / SIZE_SCALE as int <= PNL_LIMIT as int);
            if diff >= 0 {
                assert(diff * self.position_size as int / SIZE_SCALE as int
                    <= PRICE_LIMIT as int * SIZE_LIMIT / SIZE_SCALE as int) by (nonlinear_arith)
                    requires
                        0 <= diff as int <= PRICE_LIMIT as int,
                        0 <= self.position_size <= SIZE_LIMIT;
            } else {
                assert((-(diff as int)) * self.position_size as int / SIZE_SCALE as int
                    <= PRICE_LIMIT as int * SIZE_LIMIT / SIZE_SCALE as int) by (nonlinear_arith)
                    requires
                        -(PRICE_LIMIT as int) <= diff as int,
                        0 <= self.position_size <= SIZE_LIMIT;
            }
        }
        self.unrealized_pnl = pnl as i64;
        let pct = signed_muldiv(diff, 10_000, self.entry_price);
        self.unrealized_pnl_pct = pct as i64;
    }

    /// Whether the protective stop has been crossed at `current_price`.
    pub fn is_stop_loss_hit(&self, current_price: i64) -> (r: bool)
        ensures
            r == match self.state {
                PositionState::Long => current_price <= self.stop_loss_price,
                PositionState::Short => current_price >= self.stop_loss_price,
                PositionState::Flat => false,
            },
    {
        match self.state {
            PositionState::Long => current_price <= self.stop_loss_price,
            PositionState::Short => current_price >= self.stop_loss_price,
            PositionState::Flat => false,
        }
    }

    /// Whether the optional take-profit has been crossed.
    pub fn is_take_profit_hit(&self, current_price: i64) -> (r: bool)
        ensures
            r == match self.take_profit_price {
                Some(tp) => match self.state {
                    PositionState::Long => current_price >= tp,
                    PositionState::Short => current_price <= tp,
                    PositionState::Flat => false,
                },
                None => false,
            },
    {
        match self.take_profit_price {
            Some(tp) => match self.state {
                PositionState::Long => current_price >= tp,
                PositionState::Short => current_price <= tp,
                PositionState::Flat => false,
            },
            None => false,
        }
    }

    /// Attach a take-profit level.
    pub fn set_take_profit(&mut self, tp_price: i64)
        requires
            old(self).wf(),
            price_ok(tp_price),
        ensures
            final(self).wf(),
            *final(self) == (OpenPosition { take_profit_price: Some(tp_price), ..*old(self) }),
    {
        self.take_profit_price = Some(tp_price);
    }
}

/// Account balances and the per-trade risk fraction.
#[derive(Debug, Clone)]
pub struct BankrollInfo {
    /// Total equity, in cents.
    pub total_balance: i64,
    /// Equity not locked in a position, in cents.
    pub available_balance: i64,
    /// Risk per trade, in basis points of the available balance.
    pub risk_percentage: i64,
}

impl BankrollInfo {
    pub open spec fn wf(self) -> bool {
        &&& 0 <= self.risk_percentage <= 10_000
        &&& -MONEY_LIMIT <= self.available_balance <= MONEY_LIMIT
        &&& -MONEY_LIMIT <= self.total_balance <= MONEY_LIMIT
    }

    pub fn new(total_balance: i64) -> (r: Self)
        requires
            0 <= total_balance <= MONEY_LIMIT,
        ensures
            r.wf(),
            r.total_balance == total_balance,
            r.available_balance == total_balance,
            r.risk_percentage == 100,
    {
        Self {
            total_balance,
            available_balance: total_balance,
            risk_percentage: 100,
        }
    }

    /// The notional (cents) that risks `risk_percentage` of the
    /// available balance when the stop sits `stop_loss_bps` away:
    /// `available * risk / stop distance`, zero for a degenerate stop.
    pub open spec fn spec_position_size(self, stop_loss_bps: int) -> int {
        if stop_loss_bps <= 0 || self.available_balance < 0 {
            0
        } else {
            self.available_balance * self.risk_percentage / stop_loss_bps
        }
    }

    pub fn calculate_position_size(&self, stop_loss_bps: i64) -> (r: i64)
        requires
            self.wf(),
        ensures
            r == self.spec_position_size(stop_loss_bps as int),
            0 <= r <= MONEY_LIMIT as int * 10_000,
    {
        if stop_loss_bps <= 0 || self.available_balance < 0 {
            return 0;
        }
        proof {
            assert(0 <= self.available_balance as int * self.risk_percentage as int
                <= MONEY_LIMIT as int * 10_000) by (nonlinear_arith)
                requires
                    0 <= self.available_balance as int <= MONEY_LIMIT as int,
                    0 <= self.risk_percentage as int <= 10_000;
        }
        let risk_value: i128 =
            (self.available_balance as i128) * (self.risk_percentage as i128);
        let q = div_nn_i128(risk_value, stop_loss_bps as i128);
        q as i64
    }

    /// Overwrite the available balance.
    pub fn update_available_balance(&mut self, new_balance: i64)
        requires
            -MONEY_LIMIT <= new_balance <= MONEY_LIMIT,
        ensures
            *final(self) == (BankrollInfo { available_balance: new_balance, ..*old(self) }),
    {
        self.available_balance = new_balance;
    }
}

/// One row of the closed-trade ledger.
#[derive(Debug, Clone, Copy)]
pub struct ClosedTrade {
    pub entry_price: i64,
    pub exit_price: i64,
    /// Size in millionths of an asset unit.
    pub position_size: i128,
    /// Realised profit, in cents.
    pub profit_loss: i64,
    /// Realised profit relative to the entry, in basis points.
    pub profit_loss_pct: i64,
    pub entry_time: u64,
    pub exit_time: u64,
    pub trade_type: PositionState,
    /// The entry fee recorded on the position, in cents.
    pub entry_fee: i64,
    pub db_id: Option<i64>,
}

/// Aggregate statistics over the ledger; rates are basis points.
#[derive(Debug, Clone, Copy)]
pub struct TradingStats {
    pub total_trades: usize,
    pub winning_trades: usize,
    pub losing_trades: usize,
    pub win_rate: i64,
    pub total_profit: i64,
    pub avg_profit: i64,
    pub current_balance: i64,
    pub initial_balance: i64,
    pub return_pct: i64,
}

/// Total realised profit over a ledger.
pub open spec fn sum_pnl(s: Seq<ClosedTrade>) -> int
    decreases s.len(),
{
    if s.len() == 0 {
        0
    } else {
        sum_pnl(s.drop_last()) + s.last().profit_loss
    }
}

/// Number of ledger rows with a strictly positive profit.
pub open spec fn count_wins(s: Seq<ClosedTrade>) -> int
    decreases s.len(),
{
    if s.len() == 0 {
        0
    } else {
        count_wins(s.drop_last()) + if s.last().profit_loss > 0 { 1int } else { 0int }
    }
}

proof fn lemma_count_wins_le_len(s: Seq<ClosedTrade>)
    ensures
        0 <= count_wins(s) <= s.len(),
    decreases s.len(),
{
    if s.len() > 0 {
        lemma_count_wins_le_len(s.drop_last());
    }
}

/// The timestamps left once every entry more than an hour older than
/// `now` has been purged from the front.
pub open spec fn drop_stale(s: Seq<u64>, now: u64) -> Seq<u64>
    decreases s.len(),
{
    if s.len() > 0 && s[0] + 3600 < now {
        drop_stale(s.subrange(1, s.len() as int), now)
    } else {
        s
    }
}

/// The drawdown from the session's initial balance, in basis points;
/// zero while the balance sits at or above it.
pub open spec fn drawdown_bps(initial: int, total: int) -> int {
    if total < initial {
        (initial - total) * 10_000 / initial
    } else {
        0
    }
}

/// The kill switch trips when the drawdown exceeds `max_dd_bps` or
/// when, after purging entries older than one hour, at least
/// `max_trades_per_hour` exits remain in the window.
pub open spec fn safety_tripped(
    pre: PositionManager,
    now: u64,
    max_dd_bps: i64,
    max_trades_per_hour: usize,
) -> bool {
    ||| drawdown_bps(pre.initial_balance_session as int, pre.bankroll.total_balance as int)
        > max_dd_bps
    ||| drop_stale(pre.trade_timestamps@, now).len() >= max_trades_per_hour
}

/// How one kill-switch check rewrites the manager and whether it trips.
pub open spec fn safety_check_rel(
    pre: PositionManager,
    post: PositionManager,
    now: u64,
    max_dd_bps: i64,
    max_trades_per_hour: usize,
    tripped: bool,
) -> bool {
    &&& post.bankroll == pre.bankroll
    &&& post.position == pre.position
    &&& post.closed_trades@ == pre.closed_trades@
    &&& post.initial_balance_session == pre.initial_balance_session
    &&& post.trade_timestamps@ == drop_stale(pre.trade_timestamps@, now)
    &&& tripped == safety_tripped(pre, now, max_dd_bps, max_trades_per_hour)
}

/// The single mutable core of the engine: balances, the one open
/// position, the ledger, and the kill-switch window of exit times.
pub struct PositionManager {
    pub bankroll: BankrollInfo,
    pub position: Option<OpenPosition>,
    pub closed_trades: Vec<ClosedTrade>,
    /// Exit timestamps (seconds) used by the trade-frequency limit.
    pub trade_timestamps: Vec<u64>,
    /// Equity at session start, in cents; the drawdown reference.
    pub initial_balance_session: i64,
    /// Last ADX reading, for the control surface.
    pub last_adx: i64,
    /// Last regime, for the control surface.
    pub last_regime: crate::strategy::MarketRegime,
    /// Last Bollinger bands, for the control surface.
    pub last_bollinger: Option<(i64, i64, i64)>,
}

impl PositionManager {
    pub open spec fn wf(self) -> bool {
        &&& self.bankroll.wf()
        &&& 0 < self.initial_balance_session <= MONEY_LIMIT
        &&& forall|i: int| 0 <= i < self.closed_trades@.len()
            ==> -PNL_LIMIT <= #[trigger] self.closed_trades@[i].profit_loss <= PNL_LIMIT
        &&& match self.position {
            Some(p) => p.wf()
                && self.bankroll.available_balance + p.margin <= self.bankroll.total_balance,
            None => self.bankroll.available_balance <= self.bankroll.total_balance,
        }
    }

    pub fn new(bankroll: i64) -> (r: Self)
        requires
            0 < bankroll <= MONEY_LIMIT,
        ensures
            r.wf(),
            r.bankroll.total_balance == bankroll,
            r.bankroll.available_balance == bankroll,
            r.bankroll.risk_percentage == 100,
            r.position is None,
            r.closed_trades@ == Seq::<ClosedTrade>::empty(),
            r.trade_timestamps@ == Seq::<u64>::empty(),
            r.initial_balance_session == bankroll,
    {
        let closed_trades: Vec<ClosedTrade> = Vec::new();
        let trade_timestamps: Vec<u64> = Vec::new();
        proof {
            assert(closed_trades@ =~= Seq::<ClosedTrade>::empty());
            assert(trade_timestamps@ =~= Seq::<u64>::empty());
        }
        Self {
            bankroll: BankrollInfo::new(bankroll),
            position: None,
            closed_trades,
            trade_timestamps,
            initial_balance_session: bankroll,
            last_adx: 0,
            last_regime: crate::strategy::MarketRegime::Ranging,
            last_bollinger: None,
        }
    }

    /// The notional the sizing rule yields before entering at
    /// `entry_price` with a stop `sl_bps` away: the raw risk-based
    /// value, floored at the exchange minimum, then capped at the
    /// available balance unless the floor itself forced the value.
    pub open spec fn sized_value(self, sl_bps: int) -> int {
        let raw = self.bankroll.spec_position_size(sl_bps);
        let floored = if raw < MIN_ORDER_VALUE { MIN_ORDER_VALUE as int } else { raw };
        if floored > self.bankroll.available_balance && floored != MIN_ORDER_VALUE {
            self.bankroll.available_balance as int
        } else {
            floored
        }
    }

    /// Open a long position at `entry_price` with a protective stop at
    /// `stop_loss_price`, sized by the risk rule; the deducted
    /// collateral is `min(value, available)` and is recorded on the
    /// position as its margin.
    ///
    /// Rejected (`None`, nothing changes) while a position is open.
    pub fn open_long(&mut self, entry_price: i64, entry_time: u64, stop_loss_price: i64)
        -> (r: Option<OpenPosition>)
        requires
            old(self).wf(),
            price_ok(entry_price),
            price_ok(stop_loss_price),
            stop_loss_price < entry_price,
            0 <= old(self).bankroll.available_balance,
            old(self).bankroll.available_balance <= entry_price as int * SIZE_SCALE as int,
        ensures
            final(self).wf(),
            old(self).position is Some ==> r is None && *final(self) == *old(self),
            old(self).position is None ==> ({
                let sl_bps = (entry_price - stop_loss_price) * 10_000 / entry_price as int;
                let value = old(self).sized_value(sl_bps);
                let cost = if value <= old(self).bankroll.available_balance {
                    value
                } else {
                    old(self).bankroll.available_balance as int
                };
                let size = value * SIZE_SCALE / entry_price as int;
                &&& final(self).position is Some
                &&& r == final(self).position
                &&& ({
                    let p = final(self).position->0;
                    &&& p.state == PositionState::Long
                    &&& p.entry_price == entry_price
                    &&& p.entry_time == entry_time
                    &&& p.position_size == size
                    &&& p.position_value == size * entry_price as int / SIZE_SCALE as int
                    &&& p.stop_loss_price == stop_loss_price
                    &&& p.stop_loss_pct == sl_bps
                    &&& p.margin == cost
                    &&& p.entry_fee == 0
                    &&& p.db_id is None
                })
                &&& final(self).bankroll.available_balance
                    == old(self).bankroll.available_balance - cost
                &&& final(self).bankroll.total_balance == old(self).bankroll.total_balance
                &&& final(self).closed_trades@ == old(self).closed_trades@
                &&& final(self).trade_timestamps@ == old(self).trade_timestamps@
                &&& final(self).initial_balance_session == old(self).initial_balance_session
            }),
    {
        if self.position.is_some() {
            return None;
        }

        let stop_loss_bps = div_nn_i64((entry_price - stop_loss_price) * 10_000, entry_price);
        let mut position_value = self.bankroll.calculate_position_size(stop_loss_bps);

        if position_value < MIN_ORDER_VALUE {
            position_value = MIN_ORDER_VALUE;
        }

        if position_value > self.bankroll.available_balance && position_value != MIN_ORDER_VALUE {
            position_value = self.bankroll.available_balance;
        }

        let cost = if position_value <= self.bankroll.available_balance {
            position_value
        } else {
            self.bankroll.available_balance
        };

        proof {
            assert(0 <= position_value as int * SIZE_SCALE as int
                && position_value as int * SIZE_SCALE as int
                    <= (entry_price as int * SIZE_SCALE as int) * SIZE_SCALE as int)
                by (nonlinear_arith)
                requires 0 <= position_value as int <= entry_price as int * SIZE_SCALE as int;
            lemma_size_in_range(position_value as int, entry_price as int);
        }
        let size128 = div_nn_i128(
            (position_value as i128) * (SIZE_SCALE as i128), entry_price as i128);

        let mut position = OpenPosition::new_long(entry_price, entry_time, size128, stop_loss_price);
        position.margin = cost;

        let new_available = self.bankroll.available_balance - cost;
        self.bankroll.update_available_balance(new_available);

        self.position = Some(position);
        Some(position)
    }

    /// Open a short position; the stop sits above the entry, at most
    /// one entry price away so the stop distance stays under 100%.
    ///
    /// Rejected (`None`, nothing changes) while a position is open.
    pub fn open_short(&mut self, entry_price: i64, entry_time: u64, stop_loss_price: i64)
        -> (r: Option<OpenPosition>)
        requires
            old(self).wf(),
            price_ok(entry_price),
            price_ok(stop_loss_price),
            entry_price < stop_loss_price,
            stop_loss_price - entry_price <= entry_price,
            0 <= old(self).bankroll.available_balance,
            old(self).bankroll.available_balance <= entry_price as int * SIZE_SCALE as int,
        ensures
            final(self).wf(),
            old(self).position is Some ==> r is None && *final(self) == *old(self),
            old(self).position is None ==> ({
                let sl_bps = (stop_loss_price - entry_price) * 10_000 / entry_price as int;
                let value = old(self).sized_value(sl_bps);
                let cost = if value <= old(self).bankroll.available_balance {
                    value
                } else {
                    old(self).bankroll.available_balance as int
                };
                let size = value * SIZE_SCALE / entry_price as int;
                &&& final(self).position is Some
                &&& r == final(self).position
                &&& ({
                    let p = final(self).position->0;
                    &&& p.state == PositionState::Short
                    &&& p.entry_price == entry_price
                    &&& p.entry_time == entry_time
                    &&& p.position_size == size
                    &&& p.position_value == size * entry_price as int / SIZE_SCALE as int
                    &&& p.stop_loss_price == stop_loss_price
                    &&& p.stop_loss_pct == sl_bps
                    &&& p.margin == cost
                    &&& p.entry_fee == 0
                    &&& p.db_id is None
                })
                &&& final(self).bankroll.available_balance
                    == old(self).bankroll.available_balance - cost
                &&& final(self).bankroll.total_balance == old(self).bankroll.total_balance
                &&& final(self).closed_trades@ == old(self).closed_trades@
                &&& final(self).trade_timestamps@ == old(self).trade_timestamps@
                &&& final(self).initial_balance_session == old(self).initial_balance_session
            }),
    {
        if self.position.is_some() {
            return None;
        }

        let stop_loss_bps = div_nn_i64((stop_loss_price - entry_price) * 10_000, entry_price);
        let mut position_value = self.bankroll.calculate_position_size(stop_loss_bps);

        if position_value < MIN_ORDER_VALUE {
            position_value = MIN_ORDER_VALUE;
        }

        if position_value > self.bankroll.available_balance && position_value != MIN_ORDER_VALUE {
            position_value = self.bankroll.available_balance;
        }

        let cost = if position_value <= self.bankroll.available_balance {
            position_value
        } else {
            self.bankroll.available_balance
        };

        proof {
            assert(0 <= position_value as int * SIZE_SCALE as int
                && position_value as int * SIZE_SCALE as int
                    <= (entry_price as int * SIZE_SCALE as int) * SIZE_SCALE as int)
                by (nonlinear_arith)
                requires 0 <= position_value as int <= entry_price as int * SIZE_SCALE as int;
            lemma_size_in_range(position_value as int, entry_price as int);
        }
        let size128 = div_nn_i128(
            (position_value as i128) * (SIZE_SCALE as i128), entry_price as i128);

        let mut position = OpenPosition::new_short(
            entry_price, entry_time, size128, stop_loss_price);
        position.margin = cost;

        let new_available = self.bankroll.available_balance - cost;
        self.bankroll.update_available_balance(new_available);

        self.position = Some(position);
        Some(position)
    }

    /// Close the open position at `exit_price`: the collateral that was
    /// deducted at entry returns to the available balance together with
    /// the realised profit, the total balance moves by exactly that
    /// profit, the trade is appended to the ledger and its exit time to
    /// the kill-switch window.
    pub fn close_position(&mut self, exit_price: i64, exit_time: u64) -> (r: Option<ClosedTrade>)
        requires
            old(self).wf(),
            price_ok(exit_price),
            match old(self).position {
                Some(p) => {
                    let pnl = spec_pnl(
                        p.state, p.entry_price as int, exit_price as int, p.position_size as int);
                    &&& -MONEY_LIMIT <= old(self).bankroll.total_balance + pnl <= MONEY_LIMIT
                    &&& -MONEY_LIMIT
                        <= old(self).bankroll.available_balance + p.margin + pnl <= MONEY_LIMIT
                },
                None => true,
            },
        ensures
            final(self).wf(),
            old(self).position is None ==> r is None && *final(self) == *old(self),
            old(self).position is Some ==> ({
                let p = old(self).position->0;
                let pnl = spec_pnl(
                    p.state, p.entry_price as int, exit_price as int, p.position_size as int);
                let pct = spec_pnl_bps(p.state, p.entry_price as int, exit_price as int);
                &&& final(self).position is None
                &&& final(self).bankroll.available_balance
                    == old(self).bankroll.available_balance + p.margin + pnl
                &&& final(self).bankroll.total_balance
                    == old(self).bankroll.total_balance + pnl
                &&& final(self).trade_timestamps@ == old(self).trade_timestamps@.push(exit_time)
                &&& final(self).closed_trades@.len() == old(self).closed_trades@.len() + 1
                &&& final(self).closed_trades@.drop_last() == old(self).closed_trades@
                &&& r is Some
                &&& final(self).closed_trades@.last() == r->0
                &&& ({
                    let t = r->0;
                    &&& t.entry_price == p.entry_price
                    &&& t.exit_price == exit_price
                    &&& t.position_size == p.position_size
                    &&& t.profit_loss == pnl
                    &&& t.profit_loss_pct == pct
                    &&& t.entry_time == p.entry_time
                    &&& t.exit_time == exit_time
                    &&& t.trade_type == p.state
                    &&& t.entry_fee == p.entry_fee
                    &&& t.db_id == p.db_id
                })
            }),
    {
        if self.position.is_none() {
            return None;
        }
        let mut pos = self.position.unwrap();
        self.position = None;

        pos.update_pnl(exit_price);

        let closed = ClosedTrade {
            entry_price: pos.entry_price,
            exit_price,
            position_size: pos.position_size,
            profit_loss: pos.unrealized_pnl,
            profit_loss_pct: pos.unrealized_pnl_pct,
            entry_time: pos.entry_time,
            exit_time,
            trade_type: pos.state,
            entry_fee: pos.entry_fee,
            db_id: pos.db_id,
        };

        let restored = self.bankroll.available_balance + pos.margin + pos.unrealized_pnl;
        self.bankroll.update_available_balance(restored);
        self.bankroll.total_balance = self.bankroll.total_balance + pos.unrealized_pnl;

        self.closed_trades.push(closed);
        self.trade_timestamps.push(exit_time);

        proof {
            assert(self.closed_trades@.drop_last() =~= old(self).closed_trades@);
        }
        Some(closed)
    }

    /// Refresh the open position's unrealised profit at `current_price`.
    pub fn update_current_pnl(&mut self, current_price: i64)
        requires
            old(self).wf(),
            price_ok(current_price),
        ensures
            final(self).wf(),
            old(self).position is None ==> *final(self) == *old(self),
            old(self).position is Some ==> ({
                let p = old(self).position->0;
                &&& final(self).position is Some
                &&& ({
                    let q = final(self).position->0;
                    &&& q == (OpenPosition {
                        unrealized_pnl: q.unrealized_pnl,
                        unrealized_pnl_pct: q.unrealized_pnl_pct,
                        ..p
                    })
                    &&& q.unrealized_pnl == spec_pnl(
                        p.state, p.entry_price as int, current_price as int, p.position_size as int)
                    &&& q.unrealized_pnl_pct == spec_pnl_bps(
                        p.state, p.entry_price as int, current_price as int)
                })
                &&& final(self).bankroll == old(self).bankroll
                &&& final(self).closed_trades@ == old(self).closed_trades@
                &&& final(self).trade_timestamps@ == old(self).trade_timestamps@
                &&& final(self).initial_balance_session == old(self).initial_balance_session
            }),
    {
        if self.position.is_some() {
            let mut pos = self.position.unwrap();
            pos.update_pnl(current_price);
            self.position = Some(pos);
        }
    }

    /// The kill switch, checked against an explicit clock reading:
    /// purge exits older than an hour, then trip on either limit.
    pub fn check_safety_limits_at(
        &mut self,
        now: u64,
        max_drawdown_bps: i64,
        max_trades_per_hour: usize,
    ) -> (r: Result<(), String>)
        requires
            old(self).wf(),
            max_drawdown_bps >= 0,
        ensures
            final(self).wf(),
            safety_check_rel(
                *old(self), *final(self), now, max_drawdown_bps, max_trades_per_hour, r is Err),
    {
        let dd_bps = if self.bankroll.total_balance < self.initial_balance_session {
            let deficit = self.initial_balance_session - self.bankroll.total_balance;
            div_nn_i64(deficit * 10_000, self.initial_balance_session)
        } else {
            0
        };

        if dd_bps > max_drawdown_bps {
            self.purge_stale_timestamps(now);
            return Err(String::from_str(
                "KILL SWITCH ACTIVATED: maximum drawdown exceeded"));
        }

        self.purge_stale_timestamps(now);

        if self.trade_timestamps.len() >= max_trades_per_hour {
            return Err(String::from_str(
                "KILL SWITCH ACTIVATED: trading frequency exceeded"));
        }

        Ok(())
    }

    /// The kill switch against the system clock; see
    /// `check_safety_limits_at` for the exact effect at a given time.
    pub fn check_safety_limits(&mut self, max_drawdown_bps: i64, max_trades_per_hour: usize)
        -> (r: Result<(), String>)
        requires
            old(self).wf(),
            max_drawdown_bps >= 0,
        ensures
            final(self).wf(),
            exists|now: u64| #[trigger] safety_check_rel(
                *old(self), *final(self), now, max_drawdown_bps, max_trades_per_hour, r is Err),
    {
        let now = crate::clock::now_unix_secs();
        let r = self.check_safety_limits_at(now, max_drawdown_bps, max_trades_per_hour);
        proof {
            assert(safety_check_rel(
                *old(self), *final(self), now, max_drawdown_bps, max_trades_per_hour,
                r is Err));
        }
        r
    }

    fn purge_stale_timestamps(&mut self, now: u64)
        ensures
            *final(self) == (PositionManager {
                trade_timestamps: final(self).trade_timestamps,
                ..*old(self)
            }),
            final(self).trade_timestamps@ == drop_stale(old(self).trade_timestamps@, now),
    {
        if now <= 3600 {
            return;
        }
        let cutoff = now - 3600;
        while self.trade_timestamps.len() > 0 && self.trade_timestamps[0] < cutoff
            invariant
                now > 3600,
                cutoff == now - 3600,
                *self == (PositionManager {
                    trade_timestamps: self.trade_timestamps,
                    ..*old(self)
                }),
                drop_stale(old(self).trade_timestamps@, now)
                    == drop_stale(self.trade_timestamps@, now),
            decreases self.trade_timestamps.len(),
    {
            self.trade_timestamps.remove(0);
        }
    }

    /// Rebuild an open position reported by the exchange (the recovery
    /// path after a restart): sized as reported, with a conservative 5%
    /// stop on the safe side, and no collateral deduction since the
    /// balances are re-fetched separately.
    pub fn sync_position_at(
        &mut self,
        coin: &str,
        amount: i128,
        entry_price: i64,
        side: &str,
        now: u64,
    )
        requires
            old(self).wf(),
            20 <= entry_price <= PRICE_LIMIT / 2,
            -SIZE_LIMIT <= amount <= SIZE_LIMIT,
            (if amount >= 0 { amount as int } else { -(amount as int) })
                * entry_price / SIZE_SCALE as int <= MONEY_LIMIT,
            old(self).bankroll.available_balance <= old(self).bankroll.total_balance,
        ensures
            final(self).wf(),
            final(self).bankroll == old(self).bankroll,
            final(self).closed_trades@ == old(self).closed_trades@,
            final(self).trade_timestamps@ == old(self).trade_timestamps@,
            final(self).initial_balance_session == old(self).initial_balance_session,
            final(self).position is Some,
            ({
                let p = final(self).position->0;
                let size = if amount >= 0 { amount as int } else { -(amount as int) };
                &&& p.state == (if side@ == "Long"@ { PositionState::Long } else {
                    PositionState::Short
                })
                &&& p.entry_price == entry_price
                &&& p.entry_time == now
                &&& p.position_size == size
                &&& p.stop_loss_price == (if side@ == "Long"@ {
                    entry_price as int * 95 / 100
                } else {
                    entry_price as int * 105 / 100
                })
                &&& p.margin == 0
            }),
    {
        let _ = coin;
        let size: i128 = if amount >= 0 { amount } else { -amount };

        let is_long = side.to_owned() == String::from_str("Long");

        let pos = if is_long {
            let sl_price = div_nn_i64(entry_price * 95, 100);
            proof {
                assert(entry_price as int * 95 / 100 >= 19) by (nonlinear_arith)
                    requires entry_price as int >= 20;
                assert(entry_price as int * 95 / 100 < entry_price as int) by (nonlinear_arith)
                    requires entry_price as int >= 20;
            }
            OpenPosition::new_long(entry_price, now, size, sl_price)
        } else {
            let sl_price = div_nn_i64(entry_price * 105, 100);
            proof {
                assert(entry_price as int * 105 / 100 > entry_price as int) by (nonlinear_arith)
                    requires entry_price as int >= 20;
                assert(entry_price as int * 105 / 100 <= PRICE_LIMIT as int
                    && entry_price as int * 105 / 100 - entry_price as int <= entry_price as int)
                    by (nonlinear_arith)
                    requires 20 <= entry_price as int <= PRICE_LIMIT as int / 2;
            }
            OpenPosition::new_short(entry_price, now, size, sl_price)
        };

        self.position = Some(pos);
    }

    /// Recovery against the system clock; see `sync_position_at`.
    pub fn sync_position(&mut self, coin: &str, amount: i128, entry_price: i64, side: &str)
        requires
            old(self).wf(),
            20 <= entry_price <= PRICE_LIMIT / 2,
            -SIZE_LIMIT <= amount <= SIZE_LIMIT,
            (if amount >= 0 { amount as int } else { -(amount as int) })
                * entry_price / SIZE_SCALE as int <= MONEY_LIMIT,
            old(self).bankroll.available_balance <= old(self).bankroll.total_balance,
        ensures
            final(self).wf(),
            final(self).bankroll == old(self).bankroll,
            final(self).closed_trades@ == old(self).closed_trades@,
            final(self).trade_timestamps@ == old(self).trade_timestamps@,
            final(self).initial_balance_session == old(self).initial_balance_session,
            final(self).position is Some,
            ({
                let p = final(self).position->0;
                let size = if amount >= 0 { amount as int } else { -(amount as int) };
                &&& p.state == (if side@ == "Long"@ { PositionState::Long } else {
                    PositionState::Short
                })
                &&& p.entry_price == entry_price
                &&& p.position_size == size
                &&& p.stop_loss_price == (if side@ == "Long"@ {
                    entry_price as int * 95 / 100
                } else {
                    entry_price as int * 105 / 100
                })
                &&& p.margin == 0
            }),
    {
        let now = crate::clock::now_unix_secs();
        self.sync_position_at(coin, amount, entry_price, side, now);
    }

    /// Aggregate the ledger: trade counts, win rate and average profit
    /// (rates in basis points, floor division on magnitudes), and the
    /// session return against `total_balance - total_profit`.
    pub fn get_stats(&self) -> (r: TradingStats)
        requires
            self.wf(),
            -PNL_LIMIT <= sum_pnl(self.closed_trades@) <= PNL_LIMIT,
            ({
                let s = sum_pnl(self.closed_trades@);
                let base = self.bankroll.total_balance - s;
                base > 0 ==> -(i64::MAX as int)
                    <= (if s >= 0 { s * 10_000 / base } else { -((-s) * 10_000 / base) })
                    <= i64::MAX
            }),
        ensures
            r.total_trades == self.closed_trades@.len(),
            r.winning_trades == count_wins(self.closed_trades@),
            r.losing_trades == self.closed_trades@.len() - count_wins(self.closed_trades@),
            r.total_profit == sum_pnl(self.closed_trades@),
            r.current_balance == self.bankroll.total_balance,
            r.initial_balance == self.bankroll.total_balance - sum_pnl(self.closed_trades@),
            r.win_rate == (if self.closed_trades@.len() == 0 { 0int } else {
                count_wins(self.closed_trades@) * 10_000 / self.closed_trades@.len() as int
            }),
            r.avg_profit == (if self.closed_trades@.len() == 0 { 0int } else {
                let s = sum_pnl(self.closed_trades@);
                let n = self.closed_trades@.len() as int;
                if s >= 0 { s / n } else { -((-s) / n) }
            }),
            r.return_pct == (if self.bankroll.total_balance - sum_pnl(self.closed_trades@) > 0 {
                let base = self.bankroll.total_balance - sum_pnl(self.closed_trades@);
                let s = sum_pnl(self.closed_trades@);
                if s >= 0 { s * 10_000 / base } else { -((-s) * 10_000 / base) }
            } else {
                0int
            }),
    {
        let total_trades = self.closed_trades.len();
        let (total_profit, winning_trades) = ledger_totals(&self.closed_trades);

        let win_rate: i64 = if total_trades > 0 {
            proof {
                lemma_count_wins_le_len(self.closed_trades@);
            }
            let q = div_nn_i128((winning_trades as i128) * 10_000, total_trades as i128);
            proof {
                assert(q as int <= 10_000) by (nonlinear_arith)
                    requires
                        q as int == winning_trades as int * 10_000 / total_trades as int,
                        0 <= winning_trades as int <= total_trades as int,
                        total_trades as int >= 1;
            }
            q as i64
        } else {
            0
        };

        let avg_profit: i64 = if total_trades > 0 {
            let q: i128 = if total_profit >= 0 {
                div_nn_i128(total_profit as i128, total_trades as i128)
            } else {
                -div_nn_i128(-(total_profit as i128), total_trades as i128)
            };
            q as i64
        } else {
            0
        };

        let initial_balance = self.bankroll.total_balance - total_profit;
        let return_pct: i64 = if initial_balance > 0 {
            proof {
                if total_profit >= 0 {
                    assert(total_profit as int * 10_000 <= PNL_LIMIT as int * 10_000
                        && total_profit as int * 10_000 >= 0) by (nonlinear_arith)
                        requires 0 <= total_profit as int <= PNL_LIMIT as int;
                } else {
                    assert((-(total_profit as int)) * 10_000 <= PNL_LIMIT as int * 10_000
                        && (-(total_profit as int)) * 10_000 >= 0) by (nonlinear_arith)
                        requires -(PNL_LIMIT as int) <= total_profit as int, (total_profit as int) < 0;
                }
            }
            let scaled: i128 = (total_profit as i128) * 10_000;
            let q: i128 = if scaled >= 0 {
                div_nn_i128(scaled, initial_balance as i128)
            } else {
                -div_nn_i128(-scaled, initial_balance as i128)
            };
            proof {
                lemma_magnitude_div_le(total_profit as int * 10_000, initial_balance as int);
            }
            q as i64
        } else {
            0
        };

        TradingStats {
            total_trades,
            winning_trades,
            losing_trades: total_trades - winning_trades,
            win_rate,
            total_profit,
            avg_profit,
            current_balance: self.bankroll.total_balance,
            initial_balance,
            return_pct,
        }
    }
}

/// A quotient's magnitude never exceeds the dividend's.
pub proof fn lemma_magnitude_div_le(a: int, b: int)
    by (nonlinear_arith)
    requires
        b > 0,
    ensures
        a >= 0 ==> 0 <= a / b <= a,
        a < 0 ==> 0 <= (-a) / b <= -a,
{
}

/// Total profit and number of winners over the ledger, in one pass.
fn ledger_totals(trades: &Vec<ClosedTrade>) -> (r: (i64, usize))
    requires
        -PNL_LIMIT <= sum_pnl(trades@) <= PNL_LIMIT,
        forall|i: int| 0 <= i < trades@.len()
            ==> -PNL_LIMIT <= #[trigger] trades@[i].profit_loss <= PNL_LIMIT,
    ensures
        r.0 == sum_pnl(trades@),
        r.1 == count_wins(trades@),
{
    let mut total: i128 = 0;
    let mut wins: usize = 0;
    let mut i: usize = 0;
    while i < trades.len()
        invariant
            i <= trades.len(),
            forall|j: int| 0 <= j < trades@.len()
                ==> -PNL_LIMIT <= #[trigger] trades@[j].profit_loss <= PNL_LIMIT,
            total == sum_pnl(trades@.take(i as int)),
            wins == count_wins(trades@.take(i as int)),
            -(i as int) * PNL_LIMIT <= total <= i as int * PNL_LIMIT,
            wins <= i,
        decreases trades.len() - i,
    {
        proof {
            assert(trades@.take(i + 1).drop_last() =~= trades@.take(i as int));
            assert((i + 1) as int * PNL_LIMIT == i as int * PNL_LIMIT + PNL_LIMIT)
                by (nonlinear_arith);
            assert(-((i + 1) as int) * PNL_LIMIT == -(i as int) * PNL_LIMIT - PNL_LIMIT)
                by (nonlinear_arith);
            assert(i as int * PNL_LIMIT <= (usize::MAX as int) * PNL_LIMIT
                && -((usize::MAX as int) * PNL_LIMIT) <= -(i as int) * PNL_LIMIT)
                by (nonlinear_arith)
                requires 0 <= i as int <= usize::MAX as int;
        }
        total += trades[i].profit_loss as i128;
        if trades[i].profit_loss > 0 {
            wins += 1;
        }
        i += 1;
    }
    proof {
        assert(trades@.take(trades@.len() as int) =~= trades@);
    }
    (total as i64, wins)
}

/// The size bought with `value` cents at `entry` stays on the grid and
/// its notional round-trips to at most `value`.
proof fn lemma_size_in_range(value: int, entry: int)
    by (nonlinear_arith)
    requires
        0 < entry <= PRICE_LIMIT,
        0 <= value <= entry * SIZE_SCALE,
        value <= MONEY_LIMIT,
    ensures
        0 <= value * SIZE_SCALE / entry <= SIZE_LIMIT,
        (value * SIZE_SCALE / entry) * entry / SIZE_SCALE as int <= MONEY_LIMIT,
{
    let size = value * SIZE_SCALE / entry;
    assert(size <= SIZE_LIMIT) by {
        assert(value * SIZE_SCALE <= (entry * SIZE_SCALE) * SIZE_SCALE);
    };
    assert(size * entry <= value * SIZE_SCALE);
    assert(size * entry / SIZE_SCALE as int <= value);
}

} // verus!
