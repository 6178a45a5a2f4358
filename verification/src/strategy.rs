//! Regime-switching strategy: Bollinger mean-reversion while the
//! market ranges, SuperTrend following while it trends, with the ADX
//! deciding which regime holds. One position at a time; exits on the
//! middle band, on a SuperTrend flip, or on a hard stop below the
//! lower band.

use vstd::prelude::*;
use crate::indicators::{
    candle_ok, pushed_window, ADX, BollingerBands, RSI, SuperTrend,
    BAND_OFFSET_LIMIT, MULT_LIMIT, PERIOD_LIMIT,
};
use crate::{PRICE_LIMIT, SMOOTH_SCALE};

verus! {

/// Market regime derived from the ADX against the configured threshold.
#[derive(Debug, Clone, Copy, PartialEq, Eq, Structural)]
pub enum MarketRegime {
    Ranging,
    Trending,
}

/// What the strategy currently holds.
#[derive(Debug, Clone, Copy, PartialEq, Eq, Structural)]
pub enum PositionType {
    Flat,
    LongRange,
    LongTrend,
    ShortTrend,
}

/// The decision emitted for one closed candle.
#[derive(Debug, Clone, Copy, PartialEq, Eq, Structural)]
pub enum Signal {
    BuyRange,
    SellRange,
    BuyTrend,
    SellTrend,
    SellShort,
    CoverShort,
    UpgradeToTrend,
    Hold,
}

/// Strategy parameters. Band and SuperTrend multipliers are hundredths
/// (`200` is 2.00); the ADX threshold and RSI oversold level carry
/// `SMOOTH_SCALE`; drawdown is in hundredths of a percent.
#[derive(Debug, Clone)]
pub struct AdaptiveConfig {
    pub bb_period: usize,
    pub bb_std_dev: i64,
    pub rsi_period: usize,
    pub rsi_oversold: i64,
    pub st_period: usize,
    pub st_multiplier: i64,
    pub adx_period: usize,
    pub adx_threshold: i64,
    pub max_daily_drawdown_pct: i64,
    pub max_trades_per_hour: usize,
}

/// Bounds under which every kernel accepts the configuration.
pub open spec fn config_ok(c: AdaptiveConfig) -> bool {
    &&& 1 <= c.bb_period <= PERIOD_LIMIT
    &&& 0 <= c.bb_std_dev <= MULT_LIMIT
    &&& 1 <= c.rsi_period <= PERIOD_LIMIT
    &&& 1 <= c.st_period <= PERIOD_LIMIT
    &&& 0 <= c.st_multiplier <= MULT_LIMIT
    &&& 1 <= c.adx_period <= PERIOD_LIMIT
}

impl Default for AdaptiveConfig {
    /// Bollinger 20 x 2.00, RSI 14 (oversold 30), SuperTrend 10 x 3.00,
    /// ADX 14 with threshold 20, kill switch at 100% drawdown or 5
    /// trades per hour.
    fn default() -> (r: Self)
        ensures
            config_ok(r),
            r.bb_period == 20,
            r.bb_std_dev == 200,
            r.rsi_period == 14,
            r.rsi_oversold == 30 * SMOOTH_SCALE,
            r.st_period == 10,
            r.st_multiplier == 300,
            r.adx_period == 14,
            r.adx_threshold == 20 * SMOOTH_SCALE,
            r.max_daily_drawdown_pct == 10_000,
            r.max_trades_per_hour == 5,
    {
        AdaptiveConfig {
            bb_period: 20,
            bb_std_dev: 200,
            rsi_period: 14,
            rsi_oversold: 30 * SMOOTH_SCALE,
            st_period: 10,
            st_multiplier: 300,
            adx_period: 14,
            adx_threshold: 20 * SMOOTH_SCALE,
            max_daily_drawdown_pct: 10_000,
            max_trades_per_hour: 5,
        }
    }
}

/// What the Bollinger kernel has emitted for the current window, if full.
pub open spec fn bb_output(b: BollingerBands) -> Option<(i64, i64, i64)> {
    if b.window().len() == b.spec_period() {
        let (lo, mid, up) = BollingerBands::spec_bands(
            b.window(), b.spec_period(), b.spec_multiplier());
        Some((lo as i64, mid as i64, up as i64))
    } else {
        None
    }
}

/// What the SuperTrend kernel has emitted, once its window is full.
pub open spec fn st_output(s: SuperTrend) -> Option<(i64, bool)> {
    if s.window().len() == s.spec_period() {
        Some((s.spec_line(), s.spec_uptrend()))
    } else {
        None
    }
}

/// What the ADX kernel has emitted, once its DX window is seeded.
pub open spec fn adx_output(a: ADX) -> Option<i64> {
    if a.dx_window().len() >= a.spec_period() {
        Some(a.spec_adx())
    } else {
        None
    }
}

/// The regime for an ADX reading (both carry `SMOOTH_SCALE`).
pub open spec fn spec_regime(adx_value: int, threshold: int) -> MarketRegime {
    if adx_value >= threshold {
        MarketRegime::Trending
    } else {
        MarketRegime::Ranging
    }
}

/// One step of the position machine: from the held position, the
/// regime, the Bollinger bands, the SuperTrend direction and the
/// candle, to the next position and the emitted signal.
///
/// The hard stop fires when the close falls below 95% of the lower
/// band, compared exactly as `close * 100 < lower * 95`.
pub open spec fn strategy_step(
    pos: PositionType,
    regime: MarketRegime,
    lower: int,
    middle: int,
    upper: int,
    st_up: bool,
    close: int,
    high: int,
) -> (PositionType, Signal) {
    match pos {
        PositionType::Flat => match regime {
            MarketRegime::Ranging => if close < lower {
                (PositionType::LongRange, Signal::BuyRange)
            } else {
                (PositionType::Flat, Signal::Hold)
            },
            MarketRegime::Trending => if st_up && close > upper {
                (PositionType::LongTrend, Signal::BuyTrend)
            } else if !st_up && close < lower {
                (PositionType::ShortTrend, Signal::SellShort)
            } else {
                (PositionType::Flat, Signal::Hold)
            },
        },
        PositionType::LongRange => if high >= middle {
            (PositionType::Flat, Signal::SellRange)
        } else if regime == MarketRegime::Trending && close > middle {
            (PositionType::LongTrend, Signal::UpgradeToTrend)
        } else if close * 100 < lower * 95 {
            (PositionType::Flat, Signal::SellRange)
        } else {
            (PositionType::LongRange, Signal::Hold)
        },
        PositionType::LongTrend => if !st_up {
            (PositionType::Flat, Signal::SellTrend)
        } else {
            (PositionType::LongTrend, Signal::Hold)
        },
        PositionType::ShortTrend => if st_up {
            (PositionType::Flat, Signal::CoverShort)
        } else {
            (PositionType::ShortTrend, Signal::Hold)
        },
    }
}

/// Whether the signal opens a position.
pub open spec fn is_entry(sig: Signal) -> bool {
    sig == Signal::BuyRange || sig == Signal::BuyTrend || sig == Signal::SellShort
}

/// Whether the signal closes a position.
pub open spec fn is_exit(sig: Signal) -> bool {
    sig == Signal::SellRange || sig == Signal::SellTrend || sig == Signal::CoverShort
}

/// At most one position is ever held: the machine emits an entry
/// signal only from the flat state, never opens anything while flat
/// without an entry signal, and is flat again after every exit
/// signal. Together with `spec_trade_action`, which executes entries
/// only while the manager holds nothing, no step can stack a second
/// position on an open one.
pub proof fn lemma_single_position(
    pos: PositionType,
    regime: MarketRegime,
    lower: int,
    middle: int,
    upper: int,
    st_up: bool,
    close: int,
    high: int,
)
    ensures
        ({
            let (next, sig) = strategy_step(pos, regime, lower, middle, upper, st_up, close, high);
            &&& (is_entry(sig) ==> pos == PositionType::Flat)
            &&& (pos == PositionType::Flat && !is_entry(sig) ==> next == PositionType::Flat)
            &&& (is_exit(sig) ==> next == PositionType::Flat)
            &&& (sig == Signal::Hold ==> next == pos)
        }),
{
}

/// The complete regime-switching strategy over the four kernels.
pub struct AdaptiveStrategy {
    config: AdaptiveConfig,
    bollinger: BollingerBands,
    supertrend: SuperTrend,
    adx: ADX,
    rsi: RSI,
    current_regime: MarketRegime,
    position_type: PositionType,
    entry_price: Option<i64>,
    last_adx: i64,
    last_bollinger: Option<(i64, i64, i64)>,
    last_rsi: i64,
}

impl AdaptiveStrategy {
    pub closed spec fn spec_config(self) -> AdaptiveConfig {
        self.config
    }

    pub closed spec fn bollinger_state(self) -> BollingerBands {
        self.bollinger
    }

    pub closed spec fn supertrend_state(self) -> SuperTrend {
        self.supertrend
    }

    pub closed spec fn adx_state(self) -> ADX {
        self.adx
    }

    pub closed spec fn rsi_state(self) -> RSI {
        self.rsi
    }

    pub closed spec fn spec_regime_now(self) -> MarketRegime {
        self.current_regime
    }

    pub closed spec fn spec_position(self) -> PositionType {
        self.position_type
    }

    pub closed spec fn spec_entry_price(self) -> Option<i64> {
        self.entry_price
    }

    pub closed spec fn spec_last_adx(self) -> i64 {
        self.last_adx
    }

    pub closed spec fn spec_last_bollinger(self) -> Option<(i64, i64, i64)> {
        self.last_bollinger
    }

    pub closed spec fn spec_last_rsi(self) -> i64 {
        self.last_rsi
    }

    pub open spec fn wf(self) -> bool {
        &&& config_ok(self.spec_config())
        &&& self.bollinger_state().wf()
        &&& self.bollinger_state().spec_period() == self.spec_config().bb_period
        &&& self.bollinger_state().spec_multiplier() == self.spec_config().bb_std_dev
        &&& self.supertrend_state().wf()
        &&& self.supertrend_state().spec_period() == self.spec_config().st_period
        &&& self.supertrend_state().spec_multiplier() == self.spec_config().st_multiplier
        &&& self.adx_state().wf()
        &&& self.adx_state().spec_period() == self.spec_config().adx_period
        &&& self.rsi_state().wf()
        &&& self.rsi_state().spec_period() == self.spec_config().rsi_period
    }

    pub fn new(config: AdaptiveConfig) -> (r: Self)
        requires
            config_ok(config),
        ensures
            r.wf(),
            r.spec_config() == config,
            r.spec_position() == PositionType::Flat,
            r.spec_regime_now() == MarketRegime::Ranging,
            r.spec_entry_price() is None,
            r.spec_last_adx() == 0,
            r.spec_last_bollinger() is None,
            r.spec_last_rsi() == 50 * SMOOTH_SCALE,
            r.adx_state().spec_samples() == 0,
    {
        let bollinger = BollingerBands::new(config.bb_period, config.bb_std_dev);
        let supertrend = SuperTrend::new(config.st_period, config.st_multiplier);
        let adx = ADX::new(config.adx_period);
        let rsi = RSI::new(config.rsi_period);

        AdaptiveStrategy {
            config,
            bollinger,
            supertrend,
            adx,
            rsi,
            current_regime: MarketRegime::Ranging,
            position_type: PositionType::Flat,
            entry_price: None,
            last_adx: 0,
            last_bollinger: None,
            last_rsi: 50 * SMOOTH_SCALE,
        }
    }

    /// Probe an exit inside the still-forming candle: while long from a
    /// range entry, touching the middle band with the candle's high
    /// asks for `SellRange`. No state changes.
    pub fn check_exit_condition(&self, current_high: i64, _current_low: i64, _current_close: i64)
        -> (r: Option<Signal>)
        ensures
            r == if self.spec_position() == PositionType::LongRange
                && self.spec_last_bollinger() is Some
                && current_high >= (self.spec_last_bollinger()->0).1 {
                Some(Signal::SellRange)
            } else {
                None::<Signal>
            },
    {
        match self.position_type {
            PositionType::LongRange => {
                if let Some((_, middle_band, _)) = self.last_bollinger {
                    if current_high >= middle_band {
                        return Some(Signal::SellRange);
                    }
                }
                None
            }
            _ => None,
        }
    }

    /// Drop the held position after an intra-candle exit was executed.
    pub fn force_exit(&mut self)
        ensures
            final(self).spec_position() == PositionType::Flat,
            final(self).spec_entry_price() is None,
            final(self).spec_config() == old(self).spec_config(),
            final(self).bollinger_state() == old(self).bollinger_state(),
            final(self).supertrend_state() == old(self).supertrend_state(),
            final(self).adx_state() == old(self).adx_state(),
            final(self).rsi_state() == old(self).rsi_state(),
            final(self).spec_regime_now() == old(self).spec_regime_now(),
            final(self).spec_last_adx() == old(self).spec_last_adx(),
            final(self).spec_last_bollinger() == old(self).spec_last_bollinger(),
            final(self).spec_last_rsi() == old(self).spec_last_rsi(),
    {
        self.position_type = PositionType::Flat;
        self.entry_price = None;
    }

    /// Overwrite the held position (used when syncing recovered state).
    pub fn force_position_type(&mut self, pos_type: PositionType)
        ensures
            final(self).spec_position() == pos_type,
            final(self).spec_entry_price() == old(self).spec_entry_price(),
            final(self).spec_config() == old(self).spec_config(),
            final(self).bollinger_state() == old(self).bollinger_state(),
            final(self).supertrend_state() == old(self).supertrend_state(),
            final(self).adx_state() == old(self).adx_state(),
            final(self).rsi_state() == old(self).rsi_state(),
            final(self).spec_regime_now() == old(self).spec_regime_now(),
            final(self).spec_last_bollinger() == old(self).spec_last_bollinger(),
    {
        self.position_type = pos_type;
    }

    /// Feed one closed candle: advance all kernels, derive the regime,
    /// and step the position machine.
    ///
    /// Until every kernel has warmed up the result is `Hold` and the
    /// position is unchanged. Afterwards the result and the new
    /// position are exactly `strategy_step` over the kernel outputs,
    /// and the entry price is recorded on entries and cleared on exits.
    pub fn update(&mut self, high: i64, low: i64, close: i64) -> (r: Signal)
        requires
            old(self).wf(),
            candle_ok(high, low, close),
            old(self).adx_state().spec_samples() < u64::MAX,
        ensures
            final(self).wf(),
            final(self).spec_config() == old(self).spec_config(),
            final(self).adx_state().spec_samples()
                == old(self).adx_state().spec_samples() + 1,
            final(self).bollinger_state().window() == pushed_window(
                old(self).bollinger_state().window(), close, old(self).spec_config().bb_period as int),
            ({
                let bb = bb_output(final(self).bollinger_state());
                let st = st_output(final(self).supertrend_state());
                let adx = adx_output(final(self).adx_state());
                &&& (bb is Some ==> final(self).spec_last_bollinger() == bb)
                &&& (bb is None ==> final(self).spec_last_bollinger()
                    == old(self).spec_last_bollinger())
                &&& (bb is None || st is None || adx is None ==> {
                    &&& r == Signal::Hold
                    &&& final(self).spec_position() == old(self).spec_position()
                    &&& final(self).spec_regime_now() == old(self).spec_regime_now()
                    &&& final(self).spec_entry_price() == old(self).spec_entry_price()
                    &&& final(self).spec_last_adx() == old(self).spec_last_adx()
                    &&& final(self).spec_last_rsi() == old(self).spec_last_rsi()
                })
                &&& (bb is Some && st is Some && adx is Some ==> {
                    let (lower, middle, upper) = bb->0;
                    let (_line, st_up) = st->0;
                    let regime = spec_regime(adx->0 as int, old(self).spec_config().adx_threshold as int);
                    let (pos, sig) = strategy_step(
                        old(self).spec_position(), regime,
                        lower as int, middle as int, upper as int,
                        st_up, close as int, high as int);
                    &&& final(self).spec_last_adx() == adx->0
                    &&& final(self).spec_regime_now() == regime
                    &&& final(self).spec_position() == pos
                    &&& r == sig
                    &&& (is_entry(sig) ==> final(self).spec_entry_price() == Some(close))
                    &&& (is_exit(sig) ==> final(self).spec_entry_price() is None)
                    &&& (!is_entry(sig) && !is_exit(sig)
                        ==> final(self).spec_entry_price() == old(self).spec_entry_price())
                })
            }),
    {
        let bb_result = self.bollinger.update(close);
        let st_result = self.supertrend.update(high, low, close);
        let adx_result = self.adx.update(high, low, close);
        let rsi_result = self.rsi.update(close);

        let (lower_band, middle_band, upper_band) = match bb_result {
            Some(bands) => {
                self.last_bollinger = Some(bands);
                bands
            },
            None => {
                return Signal::Hold;
            },
        };

        let (_st_value, st_uptrend) = match st_result {
            Some(st) => st,
            None => {
                return Signal::Hold;
            },
        };

        let adx_value = match adx_result {
            Some(adx) => {
                self.last_adx = adx;
                adx
            },
            None => {
                return Signal::Hold;
            },
        };

        if let Some(rsi) = rsi_result {
            self.last_rsi = rsi;
        }

        let new_regime = if adx_value >= self.config.adx_threshold {
            MarketRegime::Trending
        } else {
            MarketRegime::Ranging
        };
        self.current_regime = new_regime;

        match self.position_type {
            PositionType::Flat => {
                match self.current_regime {
                    MarketRegime::Ranging => {
                        if close < lower_band {
                            self.position_type = PositionType::LongRange;
                            self.entry_price = Some(close);
                            return Signal::BuyRange;
                        }
                    }
                    MarketRegime::Trending => {
                        if st_uptrend && close > upper_band {
                            self.position_type = PositionType::LongTrend;
                            self.entry_price = Some(close);
                            return Signal::BuyTrend;
                        } else if !st_uptrend && close < lower_band {
                            self.position_type = PositionType::ShortTrend;
                            self.entry_price = Some(close);
                            return Signal::SellShort;
                        }
                    }
                }
            }
            PositionType::LongRange => {
                if high >= middle_band {
                    self.position_type = PositionType::Flat;
                    self.entry_price = None;
                    return Signal::SellRange;
                }

                if self.current_regime == MarketRegime::Trending && close > middle_band {
                    self.position_type = PositionType::LongTrend;
                    return Signal::UpgradeToTrend;
                }

                proof {
                    assert(-(BAND_OFFSET_LIMIT as int) <= lower_band as int <= PRICE_LIMIT as int);
                    assert(-(i64::MAX as int) <= lower_band as int * 95 <= i64::MAX as int)
                        by (nonlinear_arith)
                        requires -(BAND_OFFSET_LIMIT as int)
                            <= lower_band as int <= PRICE_LIMIT as int;
                }
                if close * 100 < lower_band * 95 {
                    self.position_type = PositionType::Flat;
                    self.entry_price = None;
                    return Signal::SellRange;
                }
            }
            PositionType::LongTrend => {
                if !st_uptrend {
                    self.position_type = PositionType::Flat;
                    self.entry_price = None;
                    return Signal::SellTrend;
                }
            }
            PositionType::ShortTrend => {
                if st_uptrend {
                    self.position_type = PositionType::Flat;
                    self.entry_price = None;
                    return Signal::CoverShort;
                }
            }
        }

        Signal::Hold
    }

    pub fn get_regime(&self) -> (r: MarketRegime)
        ensures
            r == self.spec_regime_now(),
    {
        self.current_regime
    }

    pub fn get_position_type(&self) -> (r: PositionType)
        ensures
            r == self.spec_position(),
    {
        self.position_type
    }

    /// Start over with fresh kernels, keeping the configuration.
    pub fn reset(&mut self)
        requires
            old(self).wf(),
        ensures
            final(self).wf(),
            final(self).spec_config() == old(self).spec_config(),
            final(self).spec_position() == PositionType::Flat,
            final(self).spec_regime_now() == MarketRegime::Ranging,
            final(self).spec_entry_price() is None,
            final(self).adx_state().spec_samples() == 0,
    {
        self.bollinger = BollingerBands::new(self.config.bb_period, self.config.bb_std_dev);
        self.supertrend = SuperTrend::new(self.config.st_period, self.config.st_multiplier);
        self.adx = ADX::new(self.config.adx_period);
        self.current_regime = MarketRegime::Ranging;
        self.position_type = PositionType::Flat;
        self.entry_price = None;
    }

    pub fn get_current_regime(&self) -> (r: MarketRegime)
        ensures
            r == self.spec_regime_now(),
    {
        self.current_regime
    }

    pub fn get_supertrend_status(&self) -> (r: bool)
        ensures
            r == self.supertrend_state().spec_uptrend(),
    {
        self.supertrend.get_trend()
    }

    pub fn get_adx_value(&self) -> (r: i64)
        ensures
            r == self.spec_last_adx(),
    {
        self.last_adx
    }

    pub fn get_bollinger_bands(&self) -> (r: Option<(i64, i64, i64)>)
        ensures
            r == self.spec_last_bollinger(),
    {
        self.last_bollinger
    }

    pub fn get_rsi_value(&self) -> (r: i64)
        ensures
            r == self.spec_last_rsi(),
    {
        self.last_rsi
    }
}

} // verus!
