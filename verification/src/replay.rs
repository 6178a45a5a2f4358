//! Deterministic candle replay of the adaptive strategy with the
//! stop-loss, slippage and funding model: hourly funding on the open
//! notional, intra-candle stops ordered by the candle's direction
//! (a bullish candle sweeps its low before its high, a bearish one
//! the other way round), and a fee and slippage charge on every fill.
//!
//! The accounting is exact fixed-point arithmetic: `replay_step` is a
//! spec function and every executed candle ends in precisely the state
//! it describes. Entries are skipped when the capital or the computed
//! size leaves the fixed-point grid (`MONEY_LIMIT`, `SIZE_LIMIT`);
//! everything else mirrors the live-path formulas.

use vstd::prelude::*;
use crate::feed::HyperCandle;
use crate::numeric::div_nn_i128;
use crate::position::{MONEY_LIMIT, SIZE_LIMIT, SIZE_SCALE};
use crate::strategy::{
    adx_output, bb_output, config_ok, spec_regime, st_output, strategy_step, AdaptiveConfig,
    AdaptiveStrategy, Signal,
};
use crate::PRICE_LIMIT;

verus! {

/// Ceiling the replay capital can reach: one full close above the
/// largest tradable balance.
pub const REPLAY_CAPITAL_CEIL: i128 = 2_000_100_000_000_000_000;

/// Floor the replay capital may start a candle from; funding can only
/// drain a bounded amount per candle, so a bounded run stays above it.
pub const REPLAY_CAPITAL_FLOOR: i128 = -1_000_000_000_000_000_000_000_000_000_000;

/// Largest amount one candle can move the capital by.
pub const REPLAY_STEP_SWING: i128 = 10_000_000_000_000_000_000;

/// Most candles one replay accepts.
pub const REPLAY_LEN_LIMIT: usize = 1_000_000_000;

/// What kind of entry a replay position carries.
#[derive(Debug, Clone, Copy, PartialEq, Eq, Structural)]
pub enum TradeKind {
    /// No entry has tagged the state yet.
    Untagged,
    Range,
    Trend,
    Short,
}

/// One closed replay trade.
#[derive(Debug, Clone, Copy, PartialEq, Eq, Structural)]
pub struct ReplayTrade {
    pub entry_price: i64,
    pub exit_price: i64,
    /// Realised profit, in cents.
    pub profit: i128,
    /// Profit relative to the entry basis, in basis points.
    pub profit_bps: i128,
    pub kind: TradeKind,
    /// Whether the protective stop forced this exit.
    pub stop_loss: bool,
}

/// The replay's accounting state, as the specification sees it.
pub struct ReplayModel {
    pub capital: int,
    /// Size in millionths of a unit; zero while flat.
    pub position_size: int,
    pub entry_price: int,
    pub is_short: bool,
    pub kind: TradeKind,
    pub trades: Seq<ReplayTrade>,
    pub range_trades: int,
    pub trend_trades: int,
    pub short_trades: int,
    pub upgrades: int,
    pub sl_hits: int,
}

/// Fee, slippage, funding and stop parameters, all in basis points.
#[derive(Debug, Clone, Copy, PartialEq, Eq, Structural)]
pub struct ReplayParams {
    pub fee_bps: i64,
    pub slippage_bps: i64,
    pub funding_bps_per_hour: i64,
    pub stop_loss_bps: i64,
}

pub open spec fn params_ok(p: ReplayParams) -> bool {
    &&& 0 <= p.fee_bps <= 10_000
    &&& 0 <= p.slippage_bps <= 10_000
    &&& 0 <= p.funding_bps_per_hour <= 10_000
    &&& 0 <= p.stop_loss_bps <= 10_000
}

/// A ratio in basis points, floored toward zero for either sign.
pub open spec fn signed_ratio_bps(p: int, q: int) -> int
    recommends
        q > 0,
{
    if p >= 0 {
        p * 10_000 / q
    } else {
        -((-p) * 10_000 / q)
    }
}

/// A price moved down by `bps`, floored.
pub open spec fn slip_down(price: int, bps: int) -> int {
    price * (10_000 - bps) / 10_000
}

/// A price moved up by `bps`, floored.
pub open spec fn slip_up(price: int, bps: int) -> int {
    price * (10_000 + bps) / 10_000
}

/// The long stop level for an entry.
pub open spec fn long_stop(entry: int, sl_bps: int) -> int {
    slip_down(entry, sl_bps)
}

/// The short stop level for an entry.
pub open spec fn short_stop(entry: int, sl_bps: int) -> int {
    slip_up(entry, sl_bps)
}

/// Hourly funding against the open notional at the candle's close.
pub open spec fn funding_step(m: ReplayModel, close: int, funding_bps: int) -> ReplayModel {
    if m.position_size > 0 {
        let value = m.position_size * m_close_notional(close) / SIZE_SCALE as int;
        let cost = value * funding_bps / 10_000;
        ReplayModel { capital: m.capital - cost, ..m }
    } else {
        m
    }
}

/// The close used for notional valuation (kept as a name so the spec
/// reads like the formula).
pub open spec fn m_close_notional(close: int) -> int {
    close
}

/// Close a long at `exit_price`: revenue less the fee returns to the
/// capital, and the trade records profit against the entry basis.
pub open spec fn long_exit(m: ReplayModel, exit_price: int, fee_bps: int, stop: bool) -> ReplayModel {
    let revenue = m.position_size * exit_price / SIZE_SCALE as int;
    let fee = revenue * fee_bps / 10_000;
    let net = revenue - fee;
    let basis = m.position_size * m.entry_price / SIZE_SCALE as int;
    let profit = net - basis;
    let bps = if basis > 0 { signed_ratio_bps(profit, basis) } else { 0 };
    ReplayModel {
        capital: m.capital + net,
        position_size: 0,
        is_short: false,
        kind: TradeKind::Untagged,
        trades: m.trades.push(ReplayTrade {
            entry_price: m.entry_price as i64,
            exit_price: exit_price as i64,
            profit: profit as i128,
            profit_bps: bps as i128,
            kind: m.kind,
            stop_loss: stop,
        }),
        sl_hits: m.sl_hits + if stop { 1int } else { 0int },
        ..m
    }
}

/// Cover a short at `exit_price`: the capital moves by the profit of
/// buying back, fees included.
pub open spec fn short_exit(m: ReplayModel, exit_price: int, fee_bps: int, stop: bool) -> ReplayModel {
    let cost = m.position_size * exit_price / SIZE_SCALE as int;
    let fee = cost * fee_bps / 10_000;
    let total = cost + fee;
    let revenue = m.position_size * m.entry_price / SIZE_SCALE as int;
    let profit = revenue - total;
    let bps = if revenue > 0 { signed_ratio_bps(profit, revenue) } else { 0 };
    ReplayModel {
        capital: m.capital + profit,
        position_size: 0,
        is_short: false,
        kind: TradeKind::Untagged,
        trades: m.trades.push(ReplayTrade {
            entry_price: m.entry_price as i64,
            exit_price: exit_price as i64,
            profit: profit as i128,
            profit_bps: bps as i128,
            kind: m.kind,
            stop_loss: stop,
        }),
        sl_hits: m.sl_hits + if stop { 1int } else { 0int },
        ..m
    }
}

/// Try to open a position of `kind` at `price`: invest 95% of the
/// capital, pay the fee up front (shorts pay only the fee), and skip
/// the entry when the cost exceeds the capital or the fixed-point
/// grid cannot carry it (negative or over-limit capital, oversize).
pub open spec fn try_open(m: ReplayModel, kind: TradeKind, price: int, fee_bps: int) -> ReplayModel {
    if m.position_size == 0 && !m.is_short && 0 <= m.capital <= MONEY_LIMIT as int {
        let invest = m.capital * 95 / 100;
        let fee = invest * fee_bps / 10_000;
        let cost = invest + fee;
        let size = invest * SIZE_SCALE as int / price;
        if cost <= m.capital && size <= SIZE_LIMIT {
            ReplayModel {
                capital: if kind == TradeKind::Short { m.capital - fee } else { m.capital - cost },
                position_size: size,
                entry_price: price,
                is_short: kind == TradeKind::Short,
                kind: kind,
                range_trades: m.range_trades + if kind == TradeKind::Range { 1int } else { 0int },
                trend_trades: m.trend_trades + if kind == TradeKind::Trend { 1int } else { 0int },
                short_trades: m.short_trades + if kind == TradeKind::Short { 1int } else { 0int },
                ..m
            }
        } else {
            m
        }
    } else {
        m
    }
}

/// The fill bookkeeping one signal asks for at `price`: entries while
/// flat, a slipped long exit, a slipped short cover, or the
/// upgrade-to-trend retag (which moves no money).
pub open spec fn apply_signal(m: ReplayModel, signal: Signal, price: int, p: ReplayParams) -> ReplayModel {
    match signal {
        Signal::BuyRange => try_open(m, TradeKind::Range, price, p.fee_bps as int),
        Signal::BuyTrend => try_open(m, TradeKind::Trend, price, p.fee_bps as int),
        Signal::SellShort => try_open(m, TradeKind::Short, price, p.fee_bps as int),
        Signal::SellRange | Signal::SellTrend => {
            if m.position_size > 0 && !m.is_short {
                long_exit(m, slip_down(price, p.slippage_bps as int), p.fee_bps as int, false)
            } else {
                m
            }
        },
        Signal::CoverShort => {
            if m.position_size > 0 && m.is_short {
                short_exit(m, slip_up(price, p.slippage_bps as int), p.fee_bps as int, false)
            } else {
                m
            }
        },
        Signal::UpgradeToTrend => ReplayModel {
            kind: TradeKind::Trend,
            upgrades: m.upgrades + 1,
            ..m
        },
        Signal::Hold => m,
    }
}

/// Whether the long stop fires inside this candle.
pub open spec fn long_stop_hit(m: ReplayModel, candle: HyperCandle, sl_bps: int) -> bool {
    m.position_size > 0 && !m.is_short && candle.l <= long_stop(m.entry_price, sl_bps)
}

/// Whether the short stop fires inside this candle.
pub open spec fn short_stop_hit(m: ReplayModel, candle: HyperCandle, sl_bps: int) -> bool {
    m.position_size > 0 && m.is_short && candle.h >= short_stop(m.entry_price, sl_bps)
}

/// Exit a long at its stop, slippage against the taker.
pub open spec fn long_stop_exit(m: ReplayModel, p: ReplayParams) -> ReplayModel {
    long_exit(
        m,
        slip_down(long_stop(m.entry_price, p.stop_loss_bps as int), p.slippage_bps as int),
        p.fee_bps as int,
        true,
    )
}

/// Cover a short at its stop, slippage against the taker.
pub open spec fn short_stop_exit(m: ReplayModel, p: ReplayParams) -> ReplayModel {
    short_exit(
        m,
        slip_up(short_stop(m.entry_price, p.stop_loss_bps as int), p.slippage_bps as int),
        p.fee_bps as int,
        true,
    )
}

/// One replayed candle, given the signal the strategy emitted on it.
///
/// Funding first; then, on a bullish candle (close at or above open),
/// the long stop at the low, the short stop at the high, and the
/// signal only if no stop fired. On a bearish candle: the short stop,
/// then an exit signal against an open position, then the long stop,
/// and finally entry or upgrade signals — each stage skipped once an
/// exit has happened this candle.
pub open spec fn replay_step(m: ReplayModel, candle: HyperCandle, signal: Signal, p: ReplayParams) -> ReplayModel {
    let m0 = funding_step(m, candle.c as int, p.funding_bps_per_hour as int);
    let bullish = candle.c >= candle.o;
    if bullish {
        let hit_long = long_stop_hit(m0, candle, p.stop_loss_bps as int);
        let m1 = if hit_long { long_stop_exit(m0, p) } else { m0 };
        let hit_short = !hit_long && short_stop_hit(m1, candle, p.stop_loss_bps as int);
        let m2 = if hit_short { short_stop_exit(m1, p) } else { m1 };
        if hit_long || hit_short {
            m2
        } else {
            apply_signal(m2, signal, candle.c as int, p)
        }
    } else {
        let hit_short = short_stop_hit(m0, candle, p.stop_loss_bps as int);
        let m1 = if hit_short { short_stop_exit(m0, p) } else { m0 };
        let sig_exit = !hit_short && crate::strategy::is_exit(signal) && m1.position_size > 0;
        let m2 = if sig_exit { apply_signal(m1, signal, candle.c as int, p) } else { m1 };
        let hit_long = !hit_short && !sig_exit && long_stop_hit(m2, candle, p.stop_loss_bps as int);
        let m3 = if hit_long { long_stop_exit(m2, p) } else { m2 };
        if hit_short || sig_exit || hit_long {
            m3
        } else if signal == Signal::BuyRange || signal == Signal::BuyTrend
            || signal == Signal::SellShort || signal == Signal::UpgradeToTrend {
            apply_signal(m3, signal, candle.c as int, p)
        } else {
            m3
        }
    }
}

/// The replay over a candle series and the signal trace it produced.
pub open spec fn replay_fold(
    m: ReplayModel,
    candles: Seq<HyperCandle>,
    signals: Seq<Signal>,
    p: ReplayParams,
) -> ReplayModel
    decreases candles.len(),
{
    if candles.len() == 0 || signals.len() < candles.len() {
        m
    } else {
        replay_step(
            replay_fold(m, candles.drop_last(), signals.take(candles.len() - 1), p),
            candles.last(),
            signals[candles.len() - 1],
            p,
        )
    }
}

/// Accounting state the fixed-point grid can carry.
pub open spec fn model_ok(m: ReplayModel) -> bool {
    &&& REPLAY_CAPITAL_FLOOR <= m.capital <= REPLAY_CAPITAL_CEIL
    &&& 0 <= m.position_size <= SIZE_LIMIT
    &&& 0 <= m.entry_price <= PRICE_LIMIT
    &&& (m.position_size > 0 ==> m.capital <= MONEY_LIMIT && 0 < m.entry_price)
}

/// A running candle replay: the verified strategy plus the fixed-point
/// accounting that `replay_step` describes.
pub struct CandleBacktest {
    pub strategy: AdaptiveStrategy,
    pub params: ReplayParams,
    pub capital: i128,
    pub position_size: i128,
    pub entry_price: i64,
    pub is_short: bool,
    pub kind: TradeKind,
    pub trades: Vec<ReplayTrade>,
    pub range_trades: u64,
    pub trend_trades: u64,
    pub short_trades: u64,
    pub upgrades: u64,
    pub sl_hits: u64,
}

impl CandleBacktest {
    /// The accounting state as the specification sees it.
    pub open spec fn model(self) -> ReplayModel {
        ReplayModel {
            capital: self.capital as int,
            position_size: self.position_size as int,
            entry_price: self.entry_price as int,
            is_short: self.is_short,
            kind: self.kind,
            trades: self.trades@,
            range_trades: self.range_trades as int,
            trend_trades: self.trend_trades as int,
            short_trades: self.short_trades as int,
            upgrades: self.upgrades as int,
            sl_hits: self.sl_hits as int,
        }
    }

    pub open spec fn wf(self) -> bool {
        &&& self.strategy.wf()
        &&& params_ok(self.params)
        &&& model_ok(self.model())
    }

    pub fn new(config: AdaptiveConfig, initial_capital: i64, params: ReplayParams) -> (r: Self)
        requires
            config_ok(config),
            0 < initial_capital <= MONEY_LIMIT,
            params_ok(params),
        ensures
            r.wf(),
            r.params == params,
            r.strategy.spec_config() == config,
            r.strategy.adx_state().spec_samples() == 0,
            r.model() == (ReplayModel {
                capital: initial_capital as int,
                position_size: 0int,
                entry_price: 0int,
                is_short: false,
                kind: TradeKind::Untagged,
                trades: Seq::<ReplayTrade>::empty(),
                range_trades: 0int,
                trend_trades: 0int,
                short_trades: 0int,
                upgrades: 0int,
                sl_hits: 0int,
            }),
    {
        let trades: Vec<ReplayTrade> = Vec::new();
        proof {
            assert(trades@ =~= Seq::<ReplayTrade>::empty());
        }
        Self {
            strategy: AdaptiveStrategy::new(config),
            params,
            capital: initial_capital as i128,
            position_size: 0,
            entry_price: 0,
            is_short: false,
            kind: TradeKind::Untagged,
            trades,
            range_trades: 0,
            trend_trades: 0,
            short_trades: 0,
            upgrades: 0,
            sl_hits: 0,
        }
    }
}

/// `a * b / c` on non-negative inputs, exactly as the spec divides.
fn muldiv_nn(a: i128, b: i128, c: i128) -> (r: i128)
    requires
        0 <= a,
        0 <= b,
        0 < c,
        a * b <= 170_141_183_460_469_231_731_687_303_715_884_105_727,
    ensures
        r as int == a as int * b as int / c as int,
        0 <= r,
{
    proof {
        assert(0 <= a * b) by (nonlinear_arith)
            requires 0 <= a, 0 <= b;
    }
    div_nn_i128(a * b, c)
}

impl CandleBacktest {
    /// Charge hourly funding on the open notional.
    fn acct_funding(&mut self, close: i64)
        requires
            old(self).wf(),
            0 < close <= PRICE_LIMIT,
            old(self).capital >= REPLAY_CAPITAL_FLOOR + REPLAY_STEP_SWING,
        ensures
            final(self).wf(),
            final(self).strategy == old(self).strategy,
            final(self).params == old(self).params,
            final(self).model() == funding_step(
                old(self).model(), close as int, old(self).params.funding_bps_per_hour as int),
            final(self).capital >= old(self).capital - 2_000_000_000_000_000_000,
    {
        if self.position_size > 0 {
            proof {
                assert(self.position_size * close <= SIZE_LIMIT * PRICE_LIMIT as int)
                    by (nonlinear_arith)
                    requires 0 <= self.position_size <= SIZE_LIMIT,
                        0 < close as int <= PRICE_LIMIT as int;
            }
            let value = muldiv_nn(self.position_size, close as i128, SIZE_SCALE as i128);
            proof {
                assert(value <= SIZE_LIMIT * PRICE_LIMIT as int / SIZE_SCALE as int)
                    by (nonlinear_arith)
                    requires
                        value == self.position_size * close / SIZE_SCALE as int,
                        0 <= self.position_size * close <= SIZE_LIMIT * PRICE_LIMIT as int;
                assert(value * self.params.funding_bps_per_hour
                    <= 1_000_000_000_000_000_000i128 * 10_000) by (nonlinear_arith)
                    requires 0 <= value <= 1_000_000_000_000_000_000i128,
                        0 <= self.params.funding_bps_per_hour <= 10_000;
            }
            let cost = muldiv_nn(value, self.params.funding_bps_per_hour as i128, 10_000);
            proof {
                assert(cost <= value) by (nonlinear_arith)
                    requires
                        cost as int == value as int * self.params.funding_bps_per_hour / 10_000,
                        0 <= self.params.funding_bps_per_hour <= 10_000,
                        0 <= value;
            }
            self.capital = self.capital - cost;
        }
    }

    /// Close the long at `exit_price` and book the trade.
    fn acct_long_exit(&mut self, exit_price: i64, stop: bool)
        requires
            old(self).wf(),
            0 <= exit_price <= PRICE_LIMIT,
            old(self).position_size > 0,
            !old(self).is_short,
            old(self).sl_hits < u64::MAX,
        ensures
            final(self).wf(),
            final(self).strategy == old(self).strategy,
            final(self).params == old(self).params,
            final(self).model() == long_exit(
                old(self).model(), exit_price as int, old(self).params.fee_bps as int, stop),
            final(self).capital >= old(self).capital,
    {
        let ghost pre = self.model();
        proof {
            assert(self.position_size * exit_price <= SIZE_LIMIT * PRICE_LIMIT as int
                && 0 <= self.position_size * exit_price) by (nonlinear_arith)
                requires 0 <= self.position_size <= SIZE_LIMIT,
                    0 <= exit_price as int <= PRICE_LIMIT as int;
            assert(self.position_size * self.entry_price <= SIZE_LIMIT * PRICE_LIMIT as int
                && 0 <= self.position_size * self.entry_price) by (nonlinear_arith)
                requires 0 <= self.position_size <= SIZE_LIMIT,
                    0 <= self.entry_price as int <= PRICE_LIMIT as int;
        }
        let revenue = muldiv_nn(self.position_size, exit_price as i128, SIZE_SCALE as i128);
        proof {
            assert(revenue <= 1_000_000_000_000_000_000i128) by (nonlinear_arith)
                requires
                    revenue == self.position_size * exit_price / SIZE_SCALE as int,
                    0 <= self.position_size * exit_price
                        <= SIZE_LIMIT * PRICE_LIMIT as int;
            assert(revenue * self.params.fee_bps <= 1_000_000_000_000_000_000i128 * 10_000
                && 0 <= revenue * self.params.fee_bps) by (nonlinear_arith)
                requires 0 <= revenue <= 1_000_000_000_000_000_000i128,
                    0 <= self.params.fee_bps <= 10_000;
        }
        let fee = muldiv_nn(revenue, self.params.fee_bps as i128, 10_000);
        proof {
            assert(fee <= revenue) by (nonlinear_arith)
                requires
                    fee as int == revenue as int * self.params.fee_bps / 10_000,
                    0 <= self.params.fee_bps <= 10_000,
                    0 <= revenue;
        }
        let net = revenue - fee;
        let basis = muldiv_nn(self.position_size, self.entry_price as i128, SIZE_SCALE as i128);
        proof {
            assert(basis <= 1_000_000_000_000_000_000i128) by (nonlinear_arith)
                requires
                    basis == self.position_size * self.entry_price / SIZE_SCALE as int,
                    0 <= self.position_size * self.entry_price
                        <= SIZE_LIMIT * PRICE_LIMIT as int;
        }
        let profit = net - basis;
        let bps: i128 = if basis > 0 {
            ratio_bps(profit, basis)
        } else {
            0
        };

        let trade = ReplayTrade {
            entry_price: self.entry_price,
            exit_price,
            profit,
            profit_bps: bps,
            kind: self.kind,
            stop_loss: stop,
        };
        self.capital = self.capital + net;
        self.position_size = 0;
        self.is_short = false;
        self.kind = TradeKind::Untagged;
        self.trades.push(trade);
        if stop {
            self.sl_hits = self.sl_hits + 1;
        }
        proof {
            assert(self.model().trades =~= long_exit(
                pre, exit_price as int, self.params.fee_bps as int, stop).trades);
        }
    }

    /// Cover the short at `exit_price` and book the trade.
    fn acct_short_exit(&mut self, exit_price: i64, stop: bool)
        requires
            old(self).wf(),
            0 <= exit_price <= 4 * PRICE_LIMIT,
            old(self).position_size > 0,
            old(self).is_short,
            old(self).sl_hits < u64::MAX,
            old(self).capital >= REPLAY_CAPITAL_FLOOR + REPLAY_STEP_SWING,
        ensures
            final(self).wf(),
            final(self).strategy == old(self).strategy,
            final(self).params == old(self).params,
            final(self).model() == short_exit(
                old(self).model(), exit_price as int, old(self).params.fee_bps as int, stop),
            final(self).capital >= old(self).capital - 8_000_000_000_000_000_000,
    {
        let ghost pre = self.model();
        proof {
            assert(self.position_size * exit_price <= SIZE_LIMIT * (4 * PRICE_LIMIT as int)
                && 0 <= self.position_size * exit_price) by (nonlinear_arith)
                requires 0 <= self.position_size <= SIZE_LIMIT,
                    0 <= exit_price as int <= 4 * PRICE_LIMIT as int;
            assert(self.position_size * self.entry_price <= SIZE_LIMIT * PRICE_LIMIT as int
                && 0 <= self.position_size * self.entry_price) by (nonlinear_arith)
                requires 0 <= self.position_size <= SIZE_LIMIT,
                    0 <= self.entry_price as int <= PRICE_LIMIT as int;
        }
        let cost = muldiv_nn(self.position_size, exit_price as i128, SIZE_SCALE as i128);
        proof {
            assert(cost <= 4_000_000_000_000_000_000i128) by (nonlinear_arith)
                requires
                    cost == self.position_size * exit_price / SIZE_SCALE as int,
                    0 <= self.position_size * exit_price
                        <= SIZE_LIMIT * (4 * PRICE_LIMIT as int);
            assert(cost * self.params.fee_bps <= 4_000_000_000_000_000_000i128 * 10_000
                && 0 <= cost * self.params.fee_bps) by (nonlinear_arith)
                requires 0 <= cost <= 4_000_000_000_000_000_000i128,
                    0 <= self.params.fee_bps <= 10_000;
        }
        let fee = muldiv_nn(cost, self.params.fee_bps as i128, 10_000);
        proof {
            assert(fee <= cost) by (nonlinear_arith)
                requires
                    fee as int == cost as int * self.params.fee_bps / 10_000,
                    0 <= self.params.fee_bps <= 10_000,
                    0 <= cost;
        }
        let total = cost + fee;
        let revenue = muldiv_nn(self.position_size, self.entry_price as i128, SIZE_SCALE as i128);
        proof {
            assert(revenue <= 1_000_000_000_000_000_000i128) by (nonlinear_arith)
                requires
                    revenue == self.position_size * self.entry_price / SIZE_SCALE as int,
                    0 <= self.position_size * self.entry_price
                        <= SIZE_LIMIT * PRICE_LIMIT as int;
        }
        let profit = revenue - total;
        let bps: i128 = if revenue > 0 {
            ratio_bps(profit, revenue)
        } else {
            0
        };

        let trade = ReplayTrade {
            entry_price: self.entry_price,
            exit_price,
            profit,
            profit_bps: bps,
            kind: self.kind,
            stop_loss: stop,
        };
        self.capital = self.capital + profit;
        self.position_size = 0;
        self.is_short = false;
        self.kind = TradeKind::Untagged;
        self.trades.push(trade);
        if stop {
            self.sl_hits = self.sl_hits + 1;
        }
        proof {
            assert(self.model().trades =~= short_exit(
                pre, exit_price as int, self.params.fee_bps as int, stop).trades);
        }
    }

    /// Invest 95% of the capital in a new position, if it fits.
    fn acct_try_open(&mut self, kind: TradeKind, price: i64)
        requires
            old(self).wf(),
            0 < price <= PRICE_LIMIT,
            old(self).range_trades < u64::MAX,
            old(self).trend_trades < u64::MAX,
            old(self).short_trades < u64::MAX,
        ensures
            final(self).wf(),
            final(self).strategy == old(self).strategy,
            final(self).params == old(self).params,
            final(self).model() == try_open(
                old(self).model(), kind, price as int, old(self).params.fee_bps as int),
            final(self).capital <= old(self).capital,
            final(self).capital >= old(self).capital - 200_000_000_000_000,
    {
        if !(self.position_size == 0 && !self.is_short
            && 0 <= self.capital && self.capital <= MONEY_LIMIT as i128) {
            return;
        }
        let invest = muldiv_nn(self.capital, 95, 100);
        proof {
            assert(invest <= MONEY_LIMIT as int) by (nonlinear_arith)
                requires
                    invest == self.capital as int * 95 / 100,
                    0 <= self.capital as int <= MONEY_LIMIT as int;
            assert(invest * self.params.fee_bps <= MONEY_LIMIT as int * 10_000
                && 0 <= invest * self.params.fee_bps) by (nonlinear_arith)
                requires 0 <= invest <= MONEY_LIMIT as int,
                    0 <= self.params.fee_bps <= 10_000;
        }
        let fee = muldiv_nn(invest, self.params.fee_bps as i128, 10_000);
        proof {
            assert(fee <= invest) by (nonlinear_arith)
                requires
                    fee as int == invest as int * self.params.fee_bps / 10_000,
                    0 <= self.params.fee_bps <= 10_000,
                    0 <= invest;
        }
        let cost = invest + fee;
        proof {
            assert(invest * SIZE_SCALE <= MONEY_LIMIT as int * SIZE_SCALE as int
                && 0 <= invest * SIZE_SCALE) by (nonlinear_arith)
                requires 0 <= invest <= MONEY_LIMIT as int;
        }
        let size = muldiv_nn(invest, SIZE_SCALE as i128, price as i128);

        if cost <= self.capital && size <= SIZE_LIMIT as i128 {
            if kind == TradeKind::Short {
                self.capital = self.capital - fee;
            } else {
                self.capital = self.capital - cost;
            }
            self.position_size = size;
            self.entry_price = price;
            self.is_short = kind == TradeKind::Short;
            self.kind = kind;
            if kind == TradeKind::Range {
                self.range_trades = self.range_trades + 1;
            }
            if kind == TradeKind::Trend {
                self.trend_trades = self.trend_trades + 1;
            }
            if kind == TradeKind::Short {
                self.short_trades = self.short_trades + 1;
            }
        }
    }

    /// Price moved by the configured slippage, floored.
    fn slipped(&self, price: i64, up: bool) -> (r: i64)
        requires
            self.wf(),
            0 <= price <= 2 * PRICE_LIMIT,
        ensures
            r == if up {
                slip_up(price as int, self.params.slippage_bps as int)
            } else {
                slip_down(price as int, self.params.slippage_bps as int)
            },
            0 <= r <= 4 * PRICE_LIMIT,
    {
        let factor: i128 = if up {
            10_000 + self.params.slippage_bps as i128
        } else {
            10_000 - self.params.slippage_bps as i128
        };
        proof {
            assert(price as int * factor <= (2 * PRICE_LIMIT as int) * 20_000
                && 0 <= price as int * factor) by (nonlinear_arith)
                requires 0 <= price as int <= 2 * PRICE_LIMIT as int,
                    0 <= factor <= 20_000;
            assert((2 * PRICE_LIMIT as int) * 20_000 / 10_000 == 4 * PRICE_LIMIT as int);
        }
        let q = muldiv_nn(price as i128, factor, 10_000);
        proof {
            assert(q <= 4 * PRICE_LIMIT as int) by (nonlinear_arith)
                requires
                    q == price as int * factor / 10_000,
                    0 <= price as int * factor <= (2 * PRICE_LIMIT as int) * 20_000;
        }
        q as i64
    }

    /// The long stop level for the held entry.
    fn long_stop_price(&self) -> (r: i64)
        requires
            self.wf(),
        ensures
            r == long_stop(self.entry_price as int, self.params.stop_loss_bps as int),
            0 <= r <= PRICE_LIMIT,
    {
        proof {
            assert(self.entry_price as int * (10_000 - self.params.stop_loss_bps)
                <= PRICE_LIMIT as int * 10_000
                && 0 <= self.entry_price as int * (10_000 - self.params.stop_loss_bps))
                by (nonlinear_arith)
                requires 0 <= self.entry_price as int <= PRICE_LIMIT as int,
                    0 <= (10_000 - self.params.stop_loss_bps) as int <= 10_000;
        }
        let q = muldiv_nn(
            self.entry_price as i128, (10_000 - self.params.stop_loss_bps) as i128, 10_000);
        proof {
            assert(q <= PRICE_LIMIT as int) by (nonlinear_arith)
                requires
                    q == self.entry_price as int * (10_000 - self.params.stop_loss_bps) / 10_000,
                    0 <= self.entry_price as int * (10_000 - self.params.stop_loss_bps)
                        <= PRICE_LIMIT as int * 10_000;
        }
        q as i64
    }

    /// The short stop level for the held entry.
    fn short_stop_price(&self) -> (r: i64)
        requires
            self.wf(),
        ensures
            r == short_stop(self.entry_price as int, self.params.stop_loss_bps as int),
            0 <= r <= 2 * PRICE_LIMIT,
    {
        proof {
            assert(self.entry_price as int * (10_000 + self.params.stop_loss_bps)
                <= PRICE_LIMIT as int * 20_000
                && 0 <= self.entry_price as int * (10_000 + self.params.stop_loss_bps))
                by (nonlinear_arith)
                requires 0 <= self.entry_price as int <= PRICE_LIMIT as int,
                    0 <= (10_000 + self.params.stop_loss_bps) as int <= 20_000;
        }
        let q = muldiv_nn(
            self.entry_price as i128, (10_000 + self.params.stop_loss_bps) as i128, 10_000);
        proof {
            assert(q <= 2 * PRICE_LIMIT as int) by (nonlinear_arith)
                requires
                    q == self.entry_price as int * (10_000 + self.params.stop_loss_bps) / 10_000,
                    0 <= self.entry_price as int * (10_000 + self.params.stop_loss_bps)
                        <= PRICE_LIMIT as int * 20_000;
        }
        q as i64
    }

    /// Apply one signal's fills at `price`.
    fn acct_apply_signal(&mut self, signal: Signal, price: i64)
        requires
            old(self).wf(),
            0 < price <= PRICE_LIMIT,
            old(self).range_trades < u64::MAX,
            old(self).trend_trades < u64::MAX,
            old(self).short_trades < u64::MAX,
            old(self).upgrades < u64::MAX,
            old(self).sl_hits < u64::MAX,
            old(self).capital >= REPLAY_CAPITAL_FLOOR + REPLAY_STEP_SWING,
        ensures
            final(self).wf(),
            final(self).strategy == old(self).strategy,
            final(self).params == old(self).params,
            final(self).model() == apply_signal(
                old(self).model(), signal, price as int, old(self).params),
            final(self).capital >= old(self).capital - 8_000_000_000_000_000_000,
    {
        match signal {
            Signal::BuyRange => self.acct_try_open(TradeKind::Range, price),
            Signal::BuyTrend => self.acct_try_open(TradeKind::Trend, price),
            Signal::SellShort => self.acct_try_open(TradeKind::Short, price),
            Signal::SellRange | Signal::SellTrend => {
                if self.position_size > 0 && !self.is_short {
                    let exit = self.slipped(price, false);
                    proof {
                        assert(0 <= price as int * (10_000 - self.params.slippage_bps)
                            && price as int * (10_000 - self.params.slippage_bps)
                                <= PRICE_LIMIT as int * 10_000) by (nonlinear_arith)
                            requires 0 < price as int <= PRICE_LIMIT as int,
                                0 <= (10_000 - self.params.slippage_bps) as int <= 10_000;
                        assert(exit <= PRICE_LIMIT) by (nonlinear_arith)
                            requires
                                exit as int == price as int
                                    * (10_000 - self.params.slippage_bps) / 10_000,
                                0 <= price as int * (10_000 - self.params.slippage_bps)
                                    <= PRICE_LIMIT as int * 10_000;
                    }
                    self.acct_long_exit(exit, false);
                }
            },
            Signal::CoverShort => {
                if self.position_size > 0 && self.is_short {
                    let exit = self.slipped(price, true);
                    self.acct_short_exit(exit, false);
                }
            },
            Signal::UpgradeToTrend => {
                self.kind = TradeKind::Trend;
                self.upgrades = self.upgrades + 1;
            },
            Signal::Hold => {},
        }
    }
}

/// Signed basis-point ratio on a positive denominator.
fn ratio_bps(p: i128, q: i128) -> (r: i128)
    requires
        0 < q,
        -0x1000_0000_0000_0000_0000_0000 <= p <= 0x1000_0000_0000_0000_0000_0000,
    ensures
        r == signed_ratio_bps(p as int, q as int),
{
    if p >= 0 {
        proof {
            assert(0 <= p * 10_000) by (nonlinear_arith)
                requires p >= 0;
        }
        div_nn_i128(p * 10_000, q)
    } else {
        proof {
            assert(0 <= (-p) * 10_000) by (nonlinear_arith)
                requires p < 0;
        }
        -div_nn_i128((-p) * 10_000, q)
    }
}

/// The replay's starting state for a given capital.
pub open spec fn initial_model(capital: int) -> ReplayModel {
    ReplayModel {
        capital: capital,
        position_size: 0int,
        entry_price: 0int,
        is_short: false,
        kind: TradeKind::Untagged,
        trades: Seq::<ReplayTrade>::empty(),
        range_trades: 0int,
        trend_trades: 0int,
        short_trades: 0int,
        upgrades: 0int,
        sl_hits: 0int,
    }
}

impl CandleBacktest {
    /// Replay one candle: advance the strategy, then run the exact
    /// accounting of `replay_step` on the emitted signal — funding,
    /// direction-ordered stops, and the signal's fills.
    #[verifier::rlimit(100)]
    pub fn process_backtest_candle(&mut self, candle: &HyperCandle) -> (r: Signal)
        requires
            old(self).wf(),
            candle.wf(),
            old(self).strategy.adx_state().spec_samples() < u64::MAX,
            old(self).capital >= REPLAY_CAPITAL_FLOOR + 2 * REPLAY_STEP_SWING,
            old(self).range_trades < u64::MAX,
            old(self).trend_trades < u64::MAX,
            old(self).short_trades < u64::MAX,
            old(self).upgrades < u64::MAX,
            old(self).sl_hits < u64::MAX,
        ensures
            final(self).wf(),
            final(self).params == old(self).params,
            final(self).strategy.spec_config() == old(self).strategy.spec_config(),
            final(self).strategy.adx_state().spec_samples()
                == old(self).strategy.adx_state().spec_samples() + 1,
            final(self).capital >= old(self).capital - 2 * REPLAY_STEP_SWING,
            final(self).range_trades <= old(self).range_trades + 1,
            final(self).trend_trades <= old(self).trend_trades + 1,
            final(self).short_trades <= old(self).short_trades + 1,
            final(self).upgrades <= old(self).upgrades + 1,
            final(self).sl_hits <= old(self).sl_hits + 1,
            ({
                let bb = bb_output(final(self).strategy.bollinger_state());
                let st = st_output(final(self).strategy.supertrend_state());
                let adx = adx_output(final(self).strategy.adx_state());
                &&& (bb is None || st is None || adx is None ==> r == Signal::Hold)
                &&& (bb is Some && st is Some && adx is Some ==> {
                    let (lower, middle, upper) = bb->0;
                    let (_line, st_up) = st->0;
                    let regime = spec_regime(
                        adx->0 as int,
                        old(self).strategy.spec_config().adx_threshold as int);
                    let (pos, sig) = strategy_step(
                        old(self).strategy.spec_position(), regime,
                        lower as int, middle as int, upper as int,
                        st_up, candle.c as int, candle.h as int);
                    &&& r == sig
                    &&& final(self).strategy.spec_position() == pos
                })
            }),
            final(self).model() == replay_step(old(self).model(), *candle, r, old(self).params),
    {
        let signal = self.strategy.update(candle.h, candle.l, candle.c);
        let ghost m_pre = self.model();

        self.acct_funding(candle.c);
        let ghost m0 = self.model();

        if candle.c >= candle.o {
            let mut exited = false;
            if self.position_size > 0 && !self.is_short {
                let stop = self.long_stop_price();
                if candle.l <= stop {
                    let exit = self.slipped(stop, false);
                    proof {
                        lemma_slip_down_le(stop as int, self.params.slippage_bps as int);
                    }
                    self.acct_long_exit(exit, true);
                    exited = true;
                }
            }
            if !exited && self.position_size > 0 && self.is_short {
                let stop = self.short_stop_price();
                if candle.h >= stop {
                    let exit = self.slipped(stop, true);
                    self.acct_short_exit(exit, true);
                    exited = true;
                }
            }
            if !exited {
                self.acct_apply_signal(signal, candle.c);
            }
        } else {
            let mut exited = false;
            if self.position_size > 0 && self.is_short {
                let stop = self.short_stop_price();
                if candle.h >= stop {
                    let exit = self.slipped(stop, true);
                    self.acct_short_exit(exit, true);
                    exited = true;
                }
            }
            let sig_is_exit = match signal {
                Signal::SellRange | Signal::SellTrend | Signal::CoverShort => true,
                _ => false,
            };
            if !exited && sig_is_exit && self.position_size > 0 {
                self.acct_apply_signal(signal, candle.c);
                exited = true;
            }
            if !exited && self.position_size > 0 && !self.is_short {
                let stop = self.long_stop_price();
                if candle.l <= stop {
                    let exit = self.slipped(stop, false);
                    proof {
                        lemma_slip_down_le(stop as int, self.params.slippage_bps as int);
                    }
                    self.acct_long_exit(exit, true);
                    exited = true;
                }
            }
            let sig_opens = match signal {
                Signal::BuyRange | Signal::BuyTrend | Signal::SellShort
                | Signal::UpgradeToTrend => true,
                _ => false,
            };
            if !exited && sig_opens {
                self.acct_apply_signal(signal, candle.c);
            }
        }

        proof {
            assert(self.model() == replay_step(m_pre, *candle, signal, self.params));
        }
        signal
    }
}

/// Slipping a non-negative price downward never raises it.
proof fn lemma_slip_down_le(price: int, bps: int)
    by (nonlinear_arith)
    requires
        0 <= price,
        0 <= bps <= 10_000,
    ensures
        0 <= slip_down(price, bps) <= price,
{
}

/// The finished replay: the signal trace, the closed trades and the
/// aggregates, each pinned by `replay_fold` over the trace.
#[derive(Debug)]
pub struct CandleBacktestResult {
    pub signals: Vec<Signal>,
    pub trades: Vec<ReplayTrade>,
    pub final_capital: i128,
    pub range_trades: u64,
    pub trend_trades: u64,
    pub short_trades: u64,
    pub upgrades: u64,
    pub sl_hits: u64,
    pub data_points: usize,
}

/// Replay a candle series through a fresh strategy: the returned
/// trades, capital and counters are exactly `replay_fold` of the
/// accounting over the candles and the signal trace the strategy
/// produced (also returned, one signal per candle).
pub fn run_candle_backtest(
    config: AdaptiveConfig,
    initial_capital: i64,
    params: ReplayParams,
    candles: &Vec<HyperCandle>,
) -> (r: CandleBacktestResult)
    requires
        config_ok(config),
        0 < initial_capital <= MONEY_LIMIT,
        params_ok(params),
        forall|i: int| 0 <= i < candles@.len() ==> (#[trigger] candles@[i]).wf(),
        candles@.len() <= REPLAY_LEN_LIMIT,
    ensures
        r.signals@.len() == candles@.len(),
        r.data_points == candles@.len(),
        ({
            let fm = replay_fold(
                initial_model(initial_capital as int), candles@, r.signals@, params);
            &&& r.trades@ == fm.trades
            &&& r.final_capital == fm.capital
            &&& r.range_trades == fm.range_trades
            &&& r.trend_trades == fm.trend_trades
            &&& r.short_trades == fm.short_trades
            &&& r.upgrades == fm.upgrades
            &&& r.sl_hits == fm.sl_hits
        }),
{
    let mut bt = CandleBacktest::new(config, initial_capital, params);
    let mut signals: Vec<Signal> = Vec::new();
    let n = candles.len();
    let mut i: usize = 0;
    proof {
        assert(candles@.take(0int) =~= Seq::<HyperCandle>::empty());
        assert(signals@ =~= Seq::<Signal>::empty());
    }
    while i < n
        invariant
            i <= n,
            n == candles@.len() <= REPLAY_LEN_LIMIT,
            0 < initial_capital <= MONEY_LIMIT,
            forall|j: int| 0 <= j < candles@.len() ==> (#[trigger] candles@[j]).wf(),
            bt.wf(),
            bt.params == params,
            signals@.len() == i,
            bt.strategy.adx_state().spec_samples() == i,
            bt.range_trades <= i,
            bt.trend_trades <= i,
            bt.short_trades <= i,
            bt.upgrades <= i,
            bt.sl_hits <= i,
            bt.capital >= initial_capital - 2 * REPLAY_STEP_SWING * i,
            bt.model() == replay_fold(
                initial_model(initial_capital as int), candles@.take(i as int), signals@, params),
        decreases n - i,
    {
        proof {
            assert(bt.capital >= REPLAY_CAPITAL_FLOOR + 2 * REPLAY_STEP_SWING)
                by (nonlinear_arith)
                requires
                    bt.capital >= initial_capital - 2 * REPLAY_STEP_SWING * i,
                    initial_capital > 0,
                    0 <= i as int <= 1_000_000_000,
                    REPLAY_STEP_SWING == 10_000_000_000_000_000_000i128,
                    REPLAY_CAPITAL_FLOOR
                        == -1_000_000_000_000_000_000_000_000_000_000i128;
        }
        let ghost pre_model = bt.model();
        let ghost pre_signals = signals@;
        let sig = bt.process_backtest_candle(&candles[i]);
        signals.push(sig);
        i += 1;
        proof {
            assert(candles@.take(i as int).drop_last() =~= candles@.take(i - 1));
            assert(candles@.take(i as int).last() == candles@[i - 1]);
            assert(signals@.take(i - 1) =~= pre_signals);
            assert(signals@[i - 1] == sig);
            assert(bt.model() == replay_fold(
                initial_model(initial_capital as int), candles@.take(i as int), signals@, params));
            assert(bt.capital >= initial_capital - 2 * REPLAY_STEP_SWING * i)
                by (nonlinear_arith)
                requires
                    bt.capital >= pre_model.capital - 2 * REPLAY_STEP_SWING,
                    pre_model.capital >= initial_capital - 2 * REPLAY_STEP_SWING * (i - 1),
                    REPLAY_STEP_SWING > 0;
        }
    }
    proof {
        assert(candles@.take(n as int) =~= candles@);
    }

    CandleBacktestResult {
        signals,
        trades: bt.trades,
        final_capital: bt.capital,
        range_trades: bt.range_trades,
        trend_trades: bt.trend_trades,
        short_trades: bt.short_trades,
        upgrades: bt.upgrades,
        sl_hits: bt.sl_hits,
        data_points: n,
    }
}

} // verus!
