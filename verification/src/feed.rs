//! Decision core of the live candle feed: buffering of the forming
//! candle, close detection when a newer open timestamp arrives, the
//! reconnection replay guard, the hourly watchdog, warmup from
//! historical candles, and the per-signal trade plan. All I/O — the
//! websocket, REST calls, order placement — stays with the caller,
//! which feeds candles in and carries the returned decisions out.

use vstd::prelude::*;
use crate::indicators::candle_ok;
use crate::position::PositionState;
use crate::strategy::{AdaptiveStrategy, PositionType, Signal};

verus! {

/// How many candles the feed keeps buffered.
pub const CANDLE_BUFFER_SIZE: usize = 100;

/// How many buffered candles the strategy wants before it trades.
pub const WARMED_BUFFER_LEN: usize = 50;

/// One OHLCV candle with open and close timestamps in milliseconds.
/// Prices and volume are fixed-point integers.
#[derive(Debug)]
pub struct HyperCandle {
    /// Open timestamp, milliseconds.
    pub t: u64,
    /// Close timestamp, milliseconds.
    pub close_t: u64,
    /// Coin symbol.
    pub s: String,
    /// Interval tag.
    pub i: String,
    pub o: i64,
    pub c: i64,
    pub h: i64,
    pub l: i64,
    pub v: i64,
    pub n: u64,
}

impl Clone for HyperCandle {
    fn clone(&self) -> (r: Self)
        ensures
            r == *self,
    {
        HyperCandle {
            t: self.t,
            close_t: self.close_t,
            s: self.s.clone(),
            i: self.i.clone(),
            o: self.o,
            c: self.c,
            h: self.h,
            l: self.l,
            v: self.v,
            n: self.n,
        }
    }
}

impl HyperCandle {
    /// A candle the kernels accept: the low and high bound both the
    /// open and the close.
    pub open spec fn wf(self) -> bool {
        &&& candle_ok(self.h, self.l, self.c)
        &&& self.l <= self.o <= self.h
        &&& self.v >= 0
    }
}

/// A rolling candle buffer after one append: the new candle goes to
/// the back and the oldest leaves once the buffer would exceed `cap`.
pub open spec fn appended_buffer(w: Seq<HyperCandle>, x: HyperCandle, cap: int) -> Seq<HyperCandle> {
    let grown = w.push(x);
    if grown.len() > cap {
        grown.subrange(1, grown.len() as int)
    } else {
        grown
    }
}

/// A candle buffer after appending a whole series in order.
pub open spec fn appended_all(w: Seq<HyperCandle>, series: Seq<HyperCandle>, cap: int) -> Seq<HyperCandle>
    decreases series.len(),
{
    if series.len() == 0 {
        w
    } else {
        appended_buffer(appended_all(w, series.drop_last(), cap), series.last(), cap)
    }
}

/// A rolling close window after pushing a whole series of closes.
pub open spec fn pushed_all(w: Seq<i64>, closes: Seq<i64>, cap: int) -> Seq<i64>
    decreases closes.len(),
{
    if closes.len() == 0 {
        w
    } else {
        crate::indicators::pushed_window(pushed_all(w, closes.drop_last(), cap), closes.last(), cap)
    }
}

/// What one candle message asks the caller to do.
#[derive(Debug)]
pub enum CandleOutcome {
    /// Replay of an already-processed candle; dropped, nothing moved.
    Stale,
    /// First candle of the session; buffered only.
    First,
    /// The forming candle was refreshed; if the intra-candle probe
    /// fired, the caller must execute this exit at the candle's close.
    Updated { exit_signal: Option<Signal> },
    /// A candle closed: run the kill switch, then feed `closed` to
    /// `run_closed_candle` if `warmed`, and execute the signal at
    /// `execution_price`.
    CloseReady { closed: HyperCandle, execution_price: i64, signal_time: u64, warmed: bool },
    /// The closing candle was already handled (watchdog overlap).
    AlreadyProcessed,
}

/// Feed state: the candle buffer, the strategy, and the open
/// timestamp of the last candle already processed as closed.
pub struct HyperliquidFeed {
    pub coin: String,
    pub interval: String,
    pub candle_buffer: Vec<HyperCandle>,
    pub strategy: AdaptiveStrategy,
    /// Open timestamp of the last candle already processed as closed.
    pub last_processed_candle_t: u64,
}

impl HyperliquidFeed {
    pub open spec fn wf(self) -> bool {
        &&& self.strategy.wf()
        &&& self.candle_buffer@.len() <= CANDLE_BUFFER_SIZE
        &&& forall|i: int| 0 <= i < self.candle_buffer@.len()
            ==> (#[trigger] self.candle_buffer@[i]).wf()
    }

    /// Open timestamp of the last candle processed as closed.
    pub open spec fn spec_last_processed(self) -> u64 {
        self.last_processed_candle_t
    }

    pub fn new(coin: String, interval: String, strategy: AdaptiveStrategy) -> (r: Self)
        requires
            strategy.wf(),
        ensures
            r.wf(),
            r.strategy == strategy,
            r.candle_buffer@ == Seq::<HyperCandle>::empty(),
            r.spec_last_processed() == 0,
            r.coin == coin,
            r.interval == interval,
    {
        let candle_buffer: Vec<HyperCandle> = Vec::new();
        proof {
            assert(candle_buffer@ =~= Seq::<HyperCandle>::empty());
        }
        Self {
            coin,
            interval,
            candle_buffer,
            strategy,
            last_processed_candle_t: 0,
        }
    }

    pub fn last_processed(&self) -> (r: u64)
        ensures
            r == self.spec_last_processed(),
    {
        self.last_processed_candle_t
    }

    /// Take in one candle message for the primary interval.
    ///
    /// Replayed candles older than the last processed close are
    /// dropped unchanged (the reconnection replay guard). A message
    /// with the forming candle's timestamp replaces the buffer's back
    /// and probes the intra-candle exit, dropping the held position
    /// when the probe fires. A newer timestamp closes the buffered
    /// candle: the caller gets it back with the new candle's open as
    /// execution price; a watchdog force-close executes at the
    /// candle's own close. The strategy kernels only advance later,
    /// through `run_closed_candle`.
    pub fn process_candle(&mut self, candle: HyperCandle, force_close: bool) -> (r: CandleOutcome)
        requires
            old(self).wf(),
            candle.wf(),
        ensures
            final(self).wf(),
            final(self).coin == old(self).coin,
            final(self).interval == old(self).interval,
            ({
                let buf = old(self).candle_buffer@;
                let last = old(self).spec_last_processed();
                if force_close {
                    let replaced = if buf.len() > 0 && buf.last().t == candle.t {
                        buf.drop_last().push(candle)
                    } else {
                        appended_buffer(buf, candle, CANDLE_BUFFER_SIZE as int)
                    };
                    &&& final(self).candle_buffer@ == replaced
                    &&& final(self).strategy == old(self).strategy
                    &&& if candle.t > last {
                        &&& final(self).spec_last_processed() == candle.t
                        &&& r == (CandleOutcome::CloseReady {
                            closed: candle,
                            execution_price: candle.c,
                            signal_time: candle.t,
                            warmed: replaced.len() >= WARMED_BUFFER_LEN,
                        })
                    } else {
                        &&& final(self).spec_last_processed() == last
                        &&& r == CandleOutcome::AlreadyProcessed
                    }
                } else if candle.t < last {
                    &&& *final(self) == *old(self)
                    &&& r == CandleOutcome::Stale
                } else if buf.len() == 0 {
                    &&& final(self).candle_buffer@ == buf.push(candle)
                    &&& final(self).strategy == old(self).strategy
                    &&& final(self).spec_last_processed() == last
                    &&& r == CandleOutcome::First
                } else if candle.t == buf.last().t {
                    let probe = if old(self).strategy.spec_position() == PositionType::LongRange
                        && old(self).strategy.spec_last_bollinger() is Some
                        && candle.h >= (old(self).strategy.spec_last_bollinger()->0).1 {
                        Some(Signal::SellRange)
                    } else {
                        None::<Signal>
                    };
                    &&& final(self).candle_buffer@ == buf.drop_last().push(candle)
                    &&& final(self).spec_last_processed() == last
                    &&& r == (CandleOutcome::Updated { exit_signal: probe })
                    &&& (probe is Some ==> {
                        &&& final(self).strategy.spec_position() == PositionType::Flat
                        &&& final(self).strategy.spec_entry_price() is None
                        &&& final(self).strategy.bollinger_state()
                            == old(self).strategy.bollinger_state()
                        &&& final(self).strategy.adx_state() == old(self).strategy.adx_state()
                    })
                    &&& (probe is None ==> final(self).strategy == old(self).strategy)
                } else if candle.t > buf.last().t {
                    let closed = buf.last();
                    &&& final(self).candle_buffer@
                        == appended_buffer(buf, candle, CANDLE_BUFFER_SIZE as int)
                    &&& final(self).strategy == old(self).strategy
                    &&& if closed.t > last {
                        &&& final(self).spec_last_processed() == closed.t
                        &&& r == (CandleOutcome::CloseReady {
                            closed: closed,
                            execution_price: candle.o,
                            signal_time: candle.t,
                            warmed: buf.len() >= WARMED_BUFFER_LEN,
                        })
                    } else {
                        &&& final(self).spec_last_processed() == last
                        &&& r == CandleOutcome::AlreadyProcessed
                    }
                } else {
                    &&& *final(self) == *old(self)
                    &&& r == CandleOutcome::Stale
                }
            }),
    {
        let buf_len = self.candle_buffer.len();

        if force_close {
            if buf_len > 0 && self.candle_buffer[buf_len - 1].t == candle.t {
                self.candle_buffer.pop();
            }
            self.push_trimmed(candle.clone());

            if candle.t > self.last_processed_candle_t {
                self.last_processed_candle_t = candle.t;
                let warmed = self.candle_buffer.len() >= WARMED_BUFFER_LEN;
                let execution_price = candle.c;
                let signal_time = candle.t;
                return CandleOutcome::CloseReady {
                    closed: candle,
                    execution_price,
                    signal_time,
                    warmed,
                };
            }
            return CandleOutcome::AlreadyProcessed;
        }

        if candle.t < self.last_processed_candle_t {
            return CandleOutcome::Stale;
        }

        if buf_len == 0 {
            self.candle_buffer.push(candle);
            return CandleOutcome::First;
        }

        let last_t = self.candle_buffer[buf_len - 1].t;

        if candle.t == last_t {
            self.candle_buffer.pop();
            self.candle_buffer.push(candle.clone());

            let probe = self.strategy.check_exit_condition(candle.h, candle.l, candle.c);
            if probe.is_some() {
                self.strategy.force_exit();
            }
            proof {
                assert(self.candle_buffer@ =~= old(self).candle_buffer@.drop_last().push(candle));
            }
            return CandleOutcome::Updated { exit_signal: probe };
        }

        if candle.t > last_t {
            let closed = self.candle_buffer[buf_len - 1].clone();
            let warmed = buf_len >= WARMED_BUFFER_LEN;
            self.push_trimmed(candle.clone());

            if closed.t > self.last_processed_candle_t {
                self.last_processed_candle_t = closed.t;
                return CandleOutcome::CloseReady {
                    closed,
                    execution_price: candle.o,
                    signal_time: candle.t,
                    warmed,
                };
            }
            return CandleOutcome::AlreadyProcessed;
        }

        CandleOutcome::Stale
    }

    fn push_trimmed(&mut self, candle: HyperCandle)
        requires
            old(self).wf(),
            candle.wf(),
        ensures
            final(self).wf(),
            final(self).candle_buffer@ == appended_buffer(
                old(self).candle_buffer@, candle, CANDLE_BUFFER_SIZE as int),
            final(self).strategy == old(self).strategy,
            final(self).spec_last_processed() == old(self).spec_last_processed(),
            final(self).coin == old(self).coin,
            final(self).interval == old(self).interval,
    {
        self.candle_buffer.push(candle);
        if self.candle_buffer.len() > CANDLE_BUFFER_SIZE {
            self.candle_buffer.remove(0);
            proof {
                assert(self.candle_buffer@ =~= appended_buffer(
                    old(self).candle_buffer@, candle, CANDLE_BUFFER_SIZE as int));
            }
        }
    }

    /// Run the strategy on a candle that just closed and return its
    /// signal; the caller executes it at the outcome's execution price.
    pub fn run_closed_candle(&mut self, closed: &HyperCandle) -> (r: Signal)
        requires
            old(self).wf(),
            closed.wf(),
            old(self).strategy.adx_state().spec_samples() < u64::MAX,
        ensures
            final(self).wf(),
            final(self).candle_buffer@ == old(self).candle_buffer@,
            final(self).spec_last_processed() == old(self).spec_last_processed(),
            final(self).coin == old(self).coin,
            final(self).interval == old(self).interval,
            final(self).strategy.adx_state().spec_samples()
                == old(self).strategy.adx_state().spec_samples() + 1,
            ({
                let bb = crate::strategy::bb_output(final(self).strategy.bollinger_state());
                let st = crate::strategy::st_output(final(self).strategy.supertrend_state());
                let adx = crate::strategy::adx_output(final(self).strategy.adx_state());
                &&& (bb is None || st is None || adx is None ==> r == Signal::Hold
                    && final(self).strategy.spec_position() == old(self).strategy.spec_position())
                &&& (bb is Some && st is Some && adx is Some ==> {
                    let (lower, middle, upper) = bb->0;
                    let (_line, st_up) = st->0;
                    let regime = crate::strategy::spec_regime(
                        adx->0 as int,
                        old(self).strategy.spec_config().adx_threshold as int);
                    let (pos, sig) = crate::strategy::strategy_step(
                        old(self).strategy.spec_position(), regime,
                        lower as int, middle as int, upper as int,
                        st_up, closed.c as int, closed.h as int);
                    &&& r == sig
                    &&& final(self).strategy.spec_position() == pos
                })
            }),
    {
        self.strategy.update(closed.h, closed.l, closed.c)
    }

    /// Probe the intra-candle exit from a finer-interval candle; the
    /// kernels never advance here. When the probe fires the held
    /// position is dropped and the caller executes the exit.
    pub fn process_intra_candle(&mut self, candle: &HyperCandle) -> (r: Option<Signal>)
        requires
            old(self).wf(),
        ensures
            final(self).wf(),
            final(self).candle_buffer@ == old(self).candle_buffer@,
            final(self).spec_last_processed() == old(self).spec_last_processed(),
            r == if old(self).strategy.spec_position() == PositionType::LongRange
                && old(self).strategy.spec_last_bollinger() is Some
                && candle.h >= (old(self).strategy.spec_last_bollinger()->0).1 {
                Some(Signal::SellRange)
            } else {
                None::<Signal>
            },
            r is Some ==> final(self).strategy.spec_position() == PositionType::Flat,
            r is None ==> final(self).strategy == old(self).strategy,
    {
        if self.get_position_type_is_flat() {
            return None;
        }
        let probe = self.strategy.check_exit_condition(candle.h, candle.l, candle.c);
        if probe.is_some() {
            self.strategy.force_exit();
        }
        probe
    }

    fn get_position_type_is_flat(&self) -> (r: bool)
        ensures
            r == (self.strategy.spec_position() == PositionType::Flat),
    {
        match self.strategy.get_position_type() {
            PositionType::Flat => true,
            _ => false,
        }
    }

    /// Warm the kernels and the buffer from historical candles and set
    /// the replay guard to the penultimate candle's open timestamp, so
    /// the last (possibly still forming) candle is processed at its
    /// real close.
    pub fn warmup_with(&mut self, candles: &Vec<HyperCandle>)
        requires
            old(self).wf(),
            forall|i: int| 0 <= i < candles@.len() ==> (#[trigger] candles@[i]).wf(),
            old(self).strategy.adx_state().spec_samples() + candles@.len() <= u64::MAX,
        ensures
            final(self).wf(),
            final(self).coin == old(self).coin,
            final(self).interval == old(self).interval,
            final(self).strategy.adx_state().spec_samples()
                == old(self).strategy.adx_state().spec_samples() + candles@.len(),
            final(self).strategy.spec_config() == old(self).strategy.spec_config(),
            final(self).strategy.bollinger_state().window() == pushed_all(
                old(self).strategy.bollinger_state().window(),
                candles@.map_values(|c: HyperCandle| c.c),
                old(self).strategy.spec_config().bb_period as int),
            final(self).candle_buffer@ == appended_all(
                old(self).candle_buffer@, candles@, CANDLE_BUFFER_SIZE as int),
            candles@.len() >= 2
                ==> final(self).spec_last_processed() == candles@[candles@.len() - 2].t,
            candles@.len() == 1 ==> final(self).spec_last_processed() == candles@[0].t,
            candles@.len() == 0 ==> final(self).spec_last_processed()
                == old(self).spec_last_processed(),
    {
        let ghost closes = candles@.map_values(|c: HyperCandle| c.c);
        let n = candles.len();
        let mut idx: usize = 0;
        proof {
            assert(closes.take(0int) =~= Seq::<i64>::empty());
            assert(candles@.take(0int) =~= Seq::<HyperCandle>::empty());
        }
        while idx < n
            invariant
                idx <= n,
                n == candles@.len(),
                self.wf(),
                self.coin == old(self).coin,
                self.interval == old(self).interval,
                self.last_processed_candle_t == old(self).last_processed_candle_t,
                forall|i: int| 0 <= i < candles@.len() ==> (#[trigger] candles@[i]).wf(),
                self.strategy.adx_state().spec_samples()
                    == old(self).strategy.adx_state().spec_samples() + idx,
                old(self).strategy.adx_state().spec_samples() + candles@.len() <= u64::MAX,
                closes == candles@.map_values(|c: HyperCandle| c.c),
                self.strategy.spec_config() == old(self).strategy.spec_config(),
                self.strategy.bollinger_state().window() == pushed_all(
                    old(self).strategy.bollinger_state().window(),
                    closes.take(idx as int),
                    old(self).strategy.spec_config().bb_period as int),
                self.candle_buffer@ == appended_all(
                    old(self).candle_buffer@, candles@.take(idx as int),
                    CANDLE_BUFFER_SIZE as int),
            decreases n - idx,
        {
            proof {
                assert(closes.take(idx + 1).drop_last() =~= closes.take(idx as int));
                assert(closes.take(idx + 1).last() == candles@[idx as int].c);
                assert(candles@.take(idx + 1).drop_last() =~= candles@.take(idx as int));
                assert(candles@.take(idx + 1).last() == candles@[idx as int]);
            }
            let candle = candles[idx].clone();
            self.push_trimmed(candle.clone());
            self.strategy.update(candle.h, candle.l, candle.c);
            idx += 1;
        }
        proof {
            assert(closes.take(n as int) =~= closes);
            assert(candles@.take(n as int) =~= candles@);
        }

        if n >= 2 {
            self.last_processed_candle_t = candles[n - 2].t;
        } else if n == 1 {
            self.last_processed_candle_t = candles[0].t;
        }
    }
}

/// What a trading signal asks the caller to do against the position
/// manager and the exchange, given whether a position is held and on
/// which side.
#[derive(Debug, Clone, Copy, PartialEq, Eq, Structural)]
pub enum TradeAction {
    /// Open a long with a protective stop 5% under the price.
    OpenLong,
    /// Open a short with a protective stop 5% over the price.
    OpenShort,
    /// Close the held long position.
    CloseLong,
    /// Close the held short position.
    CloseShort,
    /// Nothing to execute.
    Nothing,
}

/// The action a signal demands: entries only while flat, a long close
/// only while long, a short cover only while short.
pub open spec fn spec_trade_action(sig: Signal, held: Option<PositionState>) -> TradeAction {
    match sig {
        Signal::BuyRange | Signal::BuyTrend => {
            if held is None {
                TradeAction::OpenLong
            } else {
                TradeAction::Nothing
            }
        },
        Signal::SellShort => {
            if held is None {
                TradeAction::OpenShort
            } else {
                TradeAction::Nothing
            }
        },
        Signal::SellRange | Signal::SellTrend => {
            if held == Some(PositionState::Long) {
                TradeAction::CloseLong
            } else {
                TradeAction::Nothing
            }
        },
        Signal::CoverShort => {
            if held == Some(PositionState::Short) {
                TradeAction::CloseShort
            } else {
                TradeAction::Nothing
            }
        },
        Signal::UpgradeToTrend | Signal::Hold => TradeAction::Nothing,
    }
}

/// Decide what to execute for `signal` given the held position side.
pub fn plan_signal(signal: Signal, held: Option<PositionState>) -> (r: TradeAction)
    ensures
        r == spec_trade_action(signal, held),
{
    match signal {
        Signal::BuyRange | Signal::BuyTrend => {
            if held.is_none() {
                TradeAction::OpenLong
            } else {
                TradeAction::Nothing
            }
        },
        Signal::SellShort => {
            if held.is_none() {
                TradeAction::OpenShort
            } else {
                TradeAction::Nothing
            }
        },
        Signal::SellRange | Signal::SellTrend => {
            if held == Some(PositionState::Long) {
                TradeAction::CloseLong
            } else {
                TradeAction::Nothing
            }
        },
        Signal::CoverShort => {
            if held == Some(PositionState::Short) {
                TradeAction::CloseShort
            } else {
                TradeAction::Nothing
            }
        },
        Signal::UpgradeToTrend | Signal::Hold => TradeAction::Nothing,
    }
}

/// The protective stop for an entry at `price`: 5% below for a long,
/// 5% above for a short, in whole cents.
pub fn protective_stop(price: i64, is_long: bool) -> (r: i64)
    requires
        0 < price <= crate::PRICE_LIMIT,
    ensures
        r == if is_long { price as int * 95 / 100 } else { price as int * 105 / 100 },
{
    if is_long {
        crate::numeric::div_nn_i64(price * 95, 100)
    } else {
        crate::numeric::div_nn_i64(price * 105, 100)
    }
}

/// The crossing limit price for a market-equivalent order: the price
/// moved by `slippage_bps` against the taker, floor-rounded to a cent.
pub fn aggressive_price(price: i64, is_buy: bool, slippage_bps: i64) -> (r: i64)
    requires
        0 < price <= crate::PRICE_LIMIT,
        0 <= slippage_bps <= 10_000,
    ensures
        r == if is_buy {
            price as int * (10_000 + slippage_bps) / 10_000
        } else {
            price as int * (10_000 - slippage_bps) / 10_000
        },
        0 <= r <= 2 * crate::PRICE_LIMIT,
{
    let factor: i64 = if is_buy { 10_000 + slippage_bps } else { 10_000 - slippage_bps };
    proof {
        assert(0 <= price as int * factor as int <= crate::PRICE_LIMIT as int * 20_000
            && price as int * factor as int / 10_000 <= 2 * crate::PRICE_LIMIT as int)
            by (nonlinear_arith)
            requires
                0 < price as int <= crate::PRICE_LIMIT as int,
                0 <= factor as int <= 20_000;
    }
    crate::numeric::div_nn_i64(price * factor, 10_000)
}

/// Net realised profit of a round trip: the exchange-reported profit
/// minus both fees, plus (signed) funding received.
pub fn net_pnl(realized_pnl: i64, entry_fee: i64, exit_fee: i64, funding: i64) -> (r: i64)
    requires
        -crate::position::PNL_LIMIT <= realized_pnl <= crate::position::PNL_LIMIT,
        0 <= entry_fee <= crate::position::MONEY_LIMIT,
        0 <= exit_fee <= crate::position::MONEY_LIMIT,
        -crate::position::MONEY_LIMIT <= funding <= crate::position::MONEY_LIMIT,
    ensures
        r == realized_pnl - exit_fee - entry_fee + funding,
{
    realized_pnl - exit_fee - entry_fee + funding
}

/// The exponential backoff delay before retry `attempt`: 2, 4, 8, ...
/// seconds.
pub fn retry_delay_secs(attempt: u32) -> (r: u64)
    requires
        1 <= attempt <= 62,
    ensures
        r == 1u64 << attempt,
        r >= 2,
{
    let r = 1u64 << attempt;
    proof {
        assert(1u64 << attempt >= 2 || !(1 <= attempt <= 62)) by (bit_vector);
    }
    r
}

/// Whether a candle arrived suspiciously late: more than five seconds
/// past its open timestamp.
pub fn high_latency(now_ms: u64, candle_open_ms: u64) -> (r: bool)
    ensures
        r == (now_ms > candle_open_ms && now_ms - candle_open_ms > 5000),
{
    now_ms > candle_open_ms && now_ms - candle_open_ms > 5000
}

/// The watchdog's hour tracking: round `now_ms` down to the hour; once
/// the hour advances past an initialised tracker, the candle between
/// the two boundaries must be fetched and force-closed.
pub fn watchdog_hour(now_ms: u64, last_checked_hour: u64) -> (r: (u64, Option<(u64, u64)>))
    ensures
        ({
            let current_hour = ((now_ms / 3_600_000) * 3_600_000) as u64;
            &&& (last_checked_hour != 0 && current_hour > last_checked_hour ==> r
                == (current_hour, Some((last_checked_hour, current_hour))))
            &&& (last_checked_hour == 0 ==> r == (current_hour, None::<(u64, u64)>))
            &&& (last_checked_hour != 0 && current_hour <= last_checked_hour ==> r
                == (last_checked_hour, None::<(u64, u64)>))
        }),
{
    let current_hour = (now_ms / 3_600_000) * 3_600_000;
    if last_checked_hour != 0 && current_hour > last_checked_hour {
        (current_hour, Some((last_checked_hour, current_hour)))
    } else if last_checked_hour == 0 {
        (current_hour, None)
    } else {
        (last_checked_hour, None)
    }
}

/// The estimated round-trip fee charged against a simulated close:
/// five basis points of the exit notional, twice.
pub fn estimated_fee(position_size: i128, exit_price: i64) -> (r: i64)
    requires
        0 <= position_size <= crate::position::SIZE_LIMIT,
        0 < exit_price <= crate::PRICE_LIMIT,
    ensures
        r == (position_size * exit_price / crate::position::SIZE_SCALE as int) * 10 / 10_000,
{
    proof {
        assert(0 <= position_size * exit_price
            && position_size * exit_price
                <= crate::position::SIZE_LIMIT * crate::PRICE_LIMIT as int)
            by (nonlinear_arith)
            requires
                0 <= position_size <= crate::position::SIZE_LIMIT,
                0 < exit_price as int <= crate::PRICE_LIMIT as int;
    }
    let notional = crate::numeric::div_nn_i128(
        position_size * (exit_price as i128), crate::position::SIZE_SCALE as i128);
    proof {
        assert(notional * 10 <= crate::position::SIZE_LIMIT * crate::PRICE_LIMIT as int * 10
            && 0 <= notional * 10)
            by (nonlinear_arith)
            requires 0 <= notional <= crate::position::SIZE_LIMIT * crate::PRICE_LIMIT as int;
    }
    let fee = crate::numeric::div_nn_i128(notional * 10, 10_000);
    proof {
        assert(fee <= notional);
    }
    fee as i64
}

} // verus!
