//! Streaming technical-indicator kernels over fixed-point prices.
//!
//! Every kernel consumes one candle (or close) at a time and emits
//! `None` until its warmup window is full. Prices are positive `i64`
//! ticks bounded by `PRICE_LIMIT`; band multipliers are hundredths
//! (`200` means 2.00); smoothed averages carry `SMOOTH_SCALE`.

use vstd::prelude::*;
use crate::numeric::{
    div_nn_i128, div_nn_i64, is_sqrt_floor, isqrt_u128, lemma_scaled_ratio_le, rma_step,
    rma_step_i64, sqrt_floor,
};
use crate::{PRICE_LIMIT, SMOOTH_SCALE};

verus! {

/// Longest indicator period the kernels accept.
pub const PERIOD_LIMIT: usize = 10_000;

/// Largest band multiplier, in hundredths (a factor of 1000.00).
pub const MULT_LIMIT: i64 = 100_000;

/// Largest distance a band can sit from the middle:
/// `MULT_LIMIT / 100` times the largest standard deviation.
pub const BAND_OFFSET_LIMIT: i64 = 1_000_000_000_000_000;

/// A usable price: positive and on the bounded grid.
pub open spec fn price_ok(p: i64) -> bool {
    0 < p <= PRICE_LIMIT
}

/// A well-formed candle: low and high bound the close.
pub open spec fn candle_ok(high: i64, low: i64, close: i64) -> bool {
    &&& price_ok(low)
    &&& price_ok(high)
    &&& low <= close <= high
}

/// Sum of a window of prices.
pub open spec fn sum_i64(s: Seq<i64>) -> int
    decreases s.len(),
{
    if s.len() == 0 {
        0
    } else {
        sum_i64(s.drop_last()) + s.last()
    }
}

/// Sum of squared deviations of a window from `mean`.
pub open spec fn sq_dev_sum(s: Seq<i64>, mean: int) -> int
    decreases s.len(),
{
    if s.len() == 0 {
        0
    } else {
        sq_dev_sum(s.drop_last(), mean) + (mean - s.last()) * (mean - s.last())
    }
}

/// A rolling window after one push: the new value goes to the back and
/// the oldest value leaves once the window would exceed `cap`.
pub open spec fn pushed_window(w: Seq<i64>, x: i64, cap: int) -> Seq<i64> {
    let grown = w.push(x);
    if grown.len() > cap {
        grown.subrange(1, grown.len() as int)
    } else {
        grown
    }
}

proof fn lemma_sum_bounds(s: Seq<i64>, lo: int, hi: int)
    requires
        forall|i: int| 0 <= i < s.len() ==> lo <= #[trigger] s[i] <= hi,
        lo >= 0,
    ensures
        s.len() * lo <= sum_i64(s) <= s.len() * hi,
    decreases s.len(),
{
    if s.len() > 0 {
        lemma_sum_bounds(s.drop_last(), lo, hi);
        assert((s.len() - 1) * lo + lo == s.len() * lo) by (nonlinear_arith);
        assert((s.len() - 1) * hi + hi == s.len() * hi) by (nonlinear_arith);
    }
}

/// Sum a window of prices; every element lies in `(0, PRICE_LIMIT]`.
fn sum_window(prices: &Vec<i64>) -> (r: i64)
    requires
        forall|i: int| 0 <= i < prices@.len() ==> price_ok(#[trigger] prices@[i]),
        prices@.len() <= PERIOD_LIMIT,
    ensures
        r == sum_i64(prices@),
        0 <= r <= prices@.len() * PRICE_LIMIT,
{
    let mut total: i64 = 0;
    let mut i: usize = 0;
    while i < prices.len()
        invariant
            i <= prices.len() <= PERIOD_LIMIT,
            forall|j: int| 0 <= j < prices@.len() ==> price_ok(#[trigger] prices@[j]),
            total == sum_i64(prices@.take(i as int)),
            0 <= total <= i * PRICE_LIMIT,
        decreases prices.len() - i,
    {
        proof {
            assert(prices@.take(i + 1).drop_last() =~= prices@.take(i as int));
            assert((i + 1) * PRICE_LIMIT == i * PRICE_LIMIT + PRICE_LIMIT) by (nonlinear_arith);
            assert(i * PRICE_LIMIT <= PERIOD_LIMIT * PRICE_LIMIT) by (nonlinear_arith)
                requires 0 <= i <= PERIOD_LIMIT;
        }
        total += prices[i];
        i += 1;
    }
    proof {
        assert(prices@.take(prices@.len() as int) =~= prices@);
    }
    total
}

/// Sum of squared deviations from `mean`, in 128-bit arithmetic.
fn sq_dev_window(prices: &Vec<i64>, mean: i64) -> (r: i128)
    requires
        forall|i: int| 0 <= i < prices@.len() ==> price_ok(#[trigger] prices@[i]),
        prices@.len() <= PERIOD_LIMIT,
        0 <= mean <= PRICE_LIMIT,
    ensures
        r == sq_dev_sum(prices@, mean as int),
        0 <= r <= prices@.len() * (PRICE_LIMIT as int * PRICE_LIMIT as int),
{
    let ghost sq: int = PRICE_LIMIT as int * PRICE_LIMIT as int;
    let mut total: i128 = 0;
    let mut i: usize = 0;
    while i < prices.len()
        invariant
            i <= prices.len() <= PERIOD_LIMIT,
            forall|j: int| 0 <= j < prices@.len() ==> price_ok(#[trigger] prices@[j]),
            0 <= mean <= PRICE_LIMIT,
            sq == PRICE_LIMIT as int * PRICE_LIMIT as int,
            total == sq_dev_sum(prices@.take(i as int), mean as int),
            0 <= total <= i * sq,
        decreases prices.len() - i,
    {
        proof {
            assert(prices@.take(i + 1).drop_last() =~= prices@.take(i as int));
            assert((i + 1) * sq == i * sq + sq) by (nonlinear_arith);
            assert(i * sq <= PERIOD_LIMIT * sq) by (nonlinear_arith)
                requires 0 <= i <= PERIOD_LIMIT, sq >= 0;
        }
        let d: i64 = mean - prices[i];
        proof {
            assert(0 <= d as int * d as int <= sq) by (nonlinear_arith)
                requires -(PRICE_LIMIT as int) <= d as int <= PRICE_LIMIT as int,
                    sq == PRICE_LIMIT as int * PRICE_LIMIT as int;
        }
        let dd: i128 = (d as i128) * (d as i128);
        total += dd;
        i += 1;
    }
    proof {
        assert(prices@.take(prices@.len() as int) =~= prices@);
    }
    total
}

/// Bollinger Bands: mean of the last `period` closes plus and minus
/// `multiplier` (hundredths) times the population standard deviation.
pub struct BollingerBands {
    period: usize,
    std_dev_multiplier: i64,
    prices: Vec<i64>,
}

impl BollingerBands {
    pub closed spec fn spec_period(self) -> int {
        self.period as int
    }

    pub closed spec fn spec_multiplier(self) -> int {
        self.std_dev_multiplier as int
    }

    /// The stored window of recent closes, oldest first.
    pub closed spec fn window(self) -> Seq<i64> {
        self.prices@
    }

    pub open spec fn wf(self) -> bool {
        &&& 1 <= self.spec_period() <= PERIOD_LIMIT
        &&& 0 <= self.spec_multiplier() <= MULT_LIMIT
        &&& self.window().len() <= self.spec_period()
        &&& forall|i: int| 0 <= i < self.window().len() ==> price_ok(#[trigger] self.window()[i])
    }

    /// The middle band: floor mean of the window.
    pub open spec fn spec_middle(w: Seq<i64>, period: int) -> int {
        sum_i64(w) / period
    }

    /// Population variance (divisor `period`) of the window.
    pub open spec fn spec_variance(w: Seq<i64>, period: int) -> int {
        sq_dev_sum(w, Self::spec_middle(w, period)) / period
    }

    /// The three bands `(lower, middle, upper)` of a full window.
    pub open spec fn spec_bands(w: Seq<i64>, period: int, multiplier: int) -> (int, int, int) {
        let mid = Self::spec_middle(w, period);
        let sd = sqrt_floor(Self::spec_variance(w, period));
        (mid - multiplier * sd / 100, mid, mid + multiplier * sd / 100)
    }

    pub fn new(period: usize, std_dev_multiplier: i64) -> (r: Self)
        requires
            1 <= period <= PERIOD_LIMIT,
            0 <= std_dev_multiplier <= MULT_LIMIT,
        ensures
            r.wf(),
            r.spec_period() == period,
            r.spec_multiplier() == std_dev_multiplier,
            r.window() == Seq::<i64>::empty(),
    {
        let prices: Vec<i64> = Vec::new();
        proof {
            assert(prices@ =~= Seq::<i64>::empty());
        }
        Self { period, std_dev_multiplier, prices }
    }

    /// Feed one close. Emits `(lower, middle, upper)` once `period`
    /// closes have been seen; the middle band is the floor mean of the
    /// window and the band offset is `multiplier * std / 100`.
    pub fn update(&mut self, price: i64) -> (r: Option<(i64, i64, i64)>)
        requires
            old(self).wf(),
            price_ok(price),
        ensures
            final(self).wf(),
            final(self).spec_period() == old(self).spec_period(),
            final(self).spec_multiplier() == old(self).spec_multiplier(),
            final(self).window()
                == pushed_window(old(self).window(), price, old(self).spec_period()),
            final(self).window().len() < final(self).spec_period() ==> r is None,
            final(self).window().len() == final(self).spec_period() ==> {
                let (lo, mid, up) = Self::spec_bands(
                    final(self).window(),
                    final(self).spec_period(),
                    final(self).spec_multiplier(),
                );
                r == Some((lo as i64, mid as i64, up as i64))
            },
            match r {
                Some((lo, mid, up)) => {
                    &&& 0 <= mid <= PRICE_LIMIT
                    &&& mid - BAND_OFFSET_LIMIT <= lo <= mid
                    &&& mid <= up <= mid + BAND_OFFSET_LIMIT
                },
                None => true,
            },
    {
        self.prices.push(price);
        if self.prices.len() > self.period {
            self.prices.remove(0);
            proof {
                assert(self.prices@ =~= pushed_window(
                    old(self).window(), price, old(self).spec_period()));
            }
        }
        if self.prices.len() < self.period {
            return None;
        }

        let n = self.period as i64;
        let sum = sum_window(&self.prices);
        proof {
            lemma_sum_bounds(self.prices@, 1, PRICE_LIMIT as int);
            assert(self.prices@.len() * PRICE_LIMIT <= PERIOD_LIMIT * PRICE_LIMIT)
                by (nonlinear_arith)
                requires self.prices@.len() <= PERIOD_LIMIT as int;
        }
        let mean = div_nn_i64(sum, n);
        proof {
            assert(mean as int <= PRICE_LIMIT) by (nonlinear_arith)
                requires
                    mean as int == sum as int / n as int,
                    0 <= sum as int <= n as int * PRICE_LIMIT,
                    n as int >= 1;
        }
        let devs = sq_dev_window(&self.prices, mean);
        proof {
            let sq: int = PRICE_LIMIT as int * PRICE_LIMIT as int;
            assert(self.prices@.len() * sq <= PERIOD_LIMIT * sq) by (nonlinear_arith)
                requires self.prices@.len() <= PERIOD_LIMIT as int, sq >= 0;
            assert(1u128 << 126 == 0x4000_0000_0000_0000_0000_0000_0000_0000u128) by (bit_vector);
            assert(PERIOD_LIMIT * (PRICE_LIMIT as int * PRICE_LIMIT as int)
                < 0x4000_0000_0000_0000_0000_0000_0000_0000);
        }
        let variance = div_nn_i128(devs, n as i128);
        let sd128 = isqrt_u128(variance as u128);
        proof {
            let sq: int = PRICE_LIMIT as int * PRICE_LIMIT as int;
            assert(variance as int <= sq) by (nonlinear_arith)
                requires
                    variance as int == devs as int / n as int,
                    0 <= devs as int <= n as int * sq,
                    n as int >= 1,
                    sq >= 0;
            assert(sd128 as int <= PRICE_LIMIT) by (nonlinear_arith)
                requires
                    is_sqrt_floor(variance as int, sd128 as int),
                    variance as int <= PRICE_LIMIT as int * PRICE_LIMIT as int;
        }
        let sd = sd128 as i64;
        proof {
            assert(self.std_dev_multiplier as int * sd as int <= MULT_LIMIT as int * PRICE_LIMIT as int)
                by (nonlinear_arith)
                requires
                    0 <= self.std_dev_multiplier as int <= MULT_LIMIT as int,
                    0 <= sd as int <= PRICE_LIMIT as int;
            assert(self.std_dev_multiplier as int * sd as int >= 0) by (nonlinear_arith)
                requires self.std_dev_multiplier as int >= 0, sd as int >= 0;
        }
        let offset = div_nn_i64(self.std_dev_multiplier * sd, 100);
        proof {
            assert(offset as int <= BAND_OFFSET_LIMIT) by (nonlinear_arith)
                requires
                    offset as int == self.std_dev_multiplier as int * sd as int / 100,
                    0 <= self.std_dev_multiplier as int * sd as int
                        <= MULT_LIMIT as int * PRICE_LIMIT as int;
        }
        Some((mean - offset, mean, mean + offset))
    }
}

/// True range of a candle given the previous close, when one exists.
pub open spec fn spec_true_range(high: i64, low: i64, prev_close: Option<i64>) -> int {
    match prev_close {
        Some(pc) => {
            let hl = high - low;
            let hc = if high >= pc { high - pc } else { pc - high };
            let lc = if low >= pc { low - pc } else { pc - low };
            if hl >= hc && hl >= lc { hl } else if hc >= lc { hc } else { lc }
        },
        None => high - low,
    }
}

/// Largest spread the true range can reach on valid candles.
pub proof fn lemma_true_range_bounds(high: i64, low: i64, prev_close: Option<i64>)
    requires
        candle_ok(high, low, high),
        match prev_close {
            Some(pc) => price_ok(pc),
            None => true,
        },
    ensures
        0 <= spec_true_range(high, low, prev_close) <= PRICE_LIMIT,
{
}

/// SuperTrend: an ATR band that trails price and flips direction when
/// the close crosses the trailing line.
pub struct SuperTrend {
    period: usize,
    multiplier: i64,
    atr_values: Vec<i64>,
    prev_close: Option<i64>,
    supertrend_value: i64,
    is_uptrend: bool,
}

/// Bound on the trailing line: a price plus the largest band offset.
pub const ST_BOUND: i64 = 1_100_000_000_000_000;

/// One SuperTrend transition from the previous line and direction,
/// given the basic bands and the close: the result is the new
/// `(line, is_uptrend)` pair.
pub open spec fn st_step(prev_line: int, prev_up: bool, basic_upper: int, basic_lower: int, close: int) -> (int, bool) {
    if prev_up {
        let lower_band = if basic_lower >= prev_line { basic_lower } else { prev_line };
        if close <= lower_band {
            (basic_upper, false)
        } else {
            (lower_band, true)
        }
    } else {
        let upper_band = if basic_upper <= prev_line { basic_upper } else { prev_line };
        if close >= upper_band {
            (basic_lower, true)
        } else {
            (upper_band, false)
        }
    }
}

impl SuperTrend {
    pub closed spec fn spec_period(self) -> int {
        self.period as int
    }

    pub closed spec fn spec_multiplier(self) -> int {
        self.multiplier as int
    }

    /// The stored window of recent true ranges, oldest first.
    pub closed spec fn window(self) -> Seq<i64> {
        self.atr_values@
    }

    pub closed spec fn spec_prev_close(self) -> Option<i64> {
        self.prev_close
    }

    /// The current trailing line.
    pub closed spec fn spec_line(self) -> i64 {
        self.supertrend_value
    }

    /// The current direction: true while in an uptrend.
    pub closed spec fn spec_uptrend(self) -> bool {
        self.is_uptrend
    }

    pub open spec fn wf(self) -> bool {
        &&& 1 <= self.spec_period() <= PERIOD_LIMIT
        &&& 0 <= self.spec_multiplier() <= MULT_LIMIT
        &&& self.window().len() <= self.spec_period()
        &&& forall|i: int| 0 <= i < self.window().len()
            ==> 0 <= #[trigger] self.window()[i] <= PRICE_LIMIT
        &&& match self.spec_prev_close() {
            Some(pc) => price_ok(pc),
            None => true,
        }
        &&& -ST_BOUND <= self.spec_line() <= ST_BOUND
    }

    pub fn new(period: usize, multiplier: i64) -> (r: Self)
        requires
            1 <= period <= PERIOD_LIMIT,
            0 <= multiplier <= MULT_LIMIT,
        ensures
            r.wf(),
            r.spec_period() == period,
            r.spec_multiplier() == multiplier,
            r.window() == Seq::<i64>::empty(),
            r.spec_prev_close() is None,
            r.spec_line() == 0,
            r.spec_uptrend(),
    {
        let atr_values: Vec<i64> = Vec::new();
        proof {
            assert(atr_values@ =~= Seq::<i64>::empty());
        }
        Self {
            period,
            multiplier,
            atr_values,
            prev_close: None,
            supertrend_value: 0,
            is_uptrend: true,
        }
    }

    pub fn get_trend(&self) -> (r: bool)
        ensures
            r == self.spec_uptrend(),
    {
        self.is_uptrend
    }

    /// Feed one candle. Once `period` true ranges are stored, emits the
    /// new trailing line and direction as given by `st_step` over the
    /// basic bands `mid = (high+low)/2 ± multiplier * ATR / 100`.
    pub fn update(&mut self, high: i64, low: i64, close: i64) -> (r: Option<(i64, bool)>)
        requires
            old(self).wf(),
            candle_ok(high, low, close),
        ensures
            final(self).wf(),
            final(self).spec_period() == old(self).spec_period(),
            final(self).spec_multiplier() == old(self).spec_multiplier(),
            final(self).spec_prev_close() == Some(close),
            final(self).window() == pushed_window(
                old(self).window(),
                spec_true_range(high, low, old(self).spec_prev_close()) as i64,
                old(self).spec_period(),
            ),
            final(self).window().len() < final(self).spec_period() ==> {
                &&& r is None
                &&& final(self).spec_line() == old(self).spec_line()
                &&& final(self).spec_uptrend() == old(self).spec_uptrend()
            },
            final(self).window().len() == final(self).spec_period() ==> {
                let atr = sum_i64(final(self).window()) / final(self).spec_period();
                let mid = (high + low) / 2;
                let offset = final(self).spec_multiplier() * atr / 100;
                let (line, up) = st_step(
                    old(self).spec_line() as int,
                    old(self).spec_uptrend(),
                    mid + offset,
                    mid - offset,
                    close as int,
                );
                &&& final(self).spec_line() == line
                &&& final(self).spec_uptrend() == up
                &&& r == Some((line as i64, up))
            },
    {
        let tr: i64 = match self.prev_close {
            Some(pc) => {
                let hl = high - low;
                let hc = if high >= pc { high - pc } else { pc - high };
                let lc = if low >= pc { low - pc } else { pc - low };
                if hl >= hc && hl >= lc { hl } else if hc >= lc { hc } else { lc }
            },
            None => high - low,
        };

        self.atr_values.push(tr);
        if self.atr_values.len() > self.period {
            self.atr_values.remove(0);
            proof {
                assert(self.atr_values@ =~= pushed_window(
                    old(self).window(), tr, old(self).spec_period()));
            }
        }

        self.prev_close = Some(close);

        if self.atr_values.len() < self.period {
            return None;
        }

        let n = self.period as i64;
        let tr_sum = sum_tr_window(&self.atr_values);
        let atr = div_nn_i64(tr_sum, n);
        proof {
            assert(atr as int <= PRICE_LIMIT) by (nonlinear_arith)
                requires
                    atr as int == tr_sum as int / n as int,
                    0 <= tr_sum as int <= n as int * PRICE_LIMIT,
                    n as int >= 1;
        }

        let hl_avg = div_nn_i64(high + low, 2);
        proof {
            assert(self.multiplier as int * atr as int <= MULT_LIMIT as int * PRICE_LIMIT as int)
                by (nonlinear_arith)
                requires
                    0 <= self.multiplier as int <= MULT_LIMIT as int,
                    0 <= atr as int <= PRICE_LIMIT as int;
            assert(self.multiplier as int * atr as int >= 0) by (nonlinear_arith)
                requires self.multiplier as int >= 0, atr as int >= 0;
        }
        let offset = div_nn_i64(self.multiplier * atr, 100);
        let basic_upper = hl_avg + offset;
        let basic_lower = hl_avg - offset;

        let new_supertrend: i64 = if self.is_uptrend {
            let lower_band = if basic_lower >= self.supertrend_value {
                basic_lower
            } else {
                self.supertrend_value
            };
            if close <= lower_band {
                self.is_uptrend = false;
                basic_upper
            } else {
                lower_band
            }
        } else {
            let upper_band = if basic_upper <= self.supertrend_value {
                basic_upper
            } else {
                self.supertrend_value
            };
            if close >= upper_band {
                self.is_uptrend = true;
                basic_lower
            } else {
                upper_band
            }
        };

        self.supertrend_value = new_supertrend;
        Some((new_supertrend, self.is_uptrend))
    }
}

/// Sum a window of true ranges; every element lies in `[0, PRICE_LIMIT]`.
fn sum_tr_window(values: &Vec<i64>) -> (r: i64)
    requires
        forall|i: int| 0 <= i < values@.len()
            ==> 0 <= #[trigger] values@[i] <= PRICE_LIMIT,
        values@.len() <= PERIOD_LIMIT,
    ensures
        r == sum_i64(values@),
        0 <= r <= values@.len() * PRICE_LIMIT,
{
    let mut total: i64 = 0;
    let mut i: usize = 0;
    while i < values.len()
        invariant
            i <= values.len() <= PERIOD_LIMIT,
            forall|j: int| 0 <= j < values@.len()
                ==> 0 <= #[trigger] values@[j] <= PRICE_LIMIT,
            total == sum_i64(values@.take(i as int)),
            0 <= total <= i * PRICE_LIMIT,
        decreases values.len() - i,
    {
        proof {
            assert(values@.take(i + 1).drop_last() =~= values@.take(i as int));
            assert((i + 1) * PRICE_LIMIT == i * PRICE_LIMIT + PRICE_LIMIT) by (nonlinear_arith);
            assert(i * PRICE_LIMIT <= PERIOD_LIMIT * PRICE_LIMIT) by (nonlinear_arith)
                requires 0 <= i <= PERIOD_LIMIT;
        }
        total += values[i];
        i += 1;
    }
    proof {
        assert(values@.take(values@.len() as int) =~= values@);
    }
    total
}

/// Sum of the upward moves between adjacent window entries.
pub open spec fn gains_sum(w: Seq<i64>) -> int
    decreases w.len(),
{
    if w.len() < 2 {
        0
    } else {
        gains_sum(w.drop_last()) + if w.last() > w[w.len() - 2] {
            w.last() - w[w.len() - 2]
        } else {
            0
        }
    }
}

/// Sum of the downward moves between adjacent window entries.
pub open spec fn losses_sum(w: Seq<i64>) -> int
    decreases w.len(),
{
    if w.len() < 2 {
        0
    } else {
        losses_sum(w.drop_last()) + if w.last() < w[w.len() - 2] {
            w[w.len() - 2] - w.last()
        } else {
            0
        }
    }
}

proof fn lemma_gains_losses_bounds(w: Seq<i64>)
    requires
        forall|i: int| 0 <= i < w.len() ==> price_ok(#[trigger] w[i]),
    ensures
        0 <= gains_sum(w) <= (if w.len() < 2 { 0int } else { (w.len() - 1) * PRICE_LIMIT }),
        0 <= losses_sum(w) <= (if w.len() < 2 { 0int } else { (w.len() - 1) * PRICE_LIMIT }),
    decreases w.len(),
{
    if w.len() >= 2 {
        lemma_gains_losses_bounds(w.drop_last());
        assert((w.len() - 2) * PRICE_LIMIT + PRICE_LIMIT == (w.len() - 1) * PRICE_LIMIT)
            by (nonlinear_arith);
    }
}

/// The RSI reading for smoothed gain `g` and loss `l`, carrying
/// `SMOOTH_SCALE`: 100 when no losses, else `100 * g / (g + l)`.
pub open spec fn rsi_value(g: int, l: int) -> int {
    if l == 0 {
        100 * (SMOOTH_SCALE as int)
    } else {
        100 * (SMOOTH_SCALE as int) * g / (g + l)
    }
}

/// Relative Strength Index with Wilder smoothing of average gain and
/// loss; readings carry `SMOOTH_SCALE` (so 100.0 is `100 * SMOOTH_SCALE`).
pub struct RSI {
    period: usize,
    prices: Vec<i64>,
    prev_avg_gain: Option<i64>,
    prev_avg_loss: Option<i64>,
}

impl RSI {
    pub closed spec fn spec_period(self) -> int {
        self.period as int
    }

    /// The stored window of recent closes, oldest first.
    pub closed spec fn window(self) -> Seq<i64> {
        self.prices@
    }

    /// Smoothed average gain, scaled by `SMOOTH_SCALE`.
    pub closed spec fn spec_avg_gain(self) -> Option<i64> {
        self.prev_avg_gain
    }

    /// Smoothed average loss, scaled by `SMOOTH_SCALE`.
    pub closed spec fn spec_avg_loss(self) -> Option<i64> {
        self.prev_avg_loss
    }

    pub open spec fn wf(self) -> bool {
        &&& 1 <= self.spec_period() <= PERIOD_LIMIT
        &&& self.window().len() <= self.spec_period() + 1
        &&& forall|i: int| 0 <= i < self.window().len() ==> price_ok(#[trigger] self.window()[i])
        &&& (self.spec_avg_gain() is Some <==> self.spec_avg_loss() is Some)
        &&& match self.spec_avg_gain() {
            Some(g) => 0 <= g <= PRICE_LIMIT as int * SMOOTH_SCALE as int
                && self.window().len() == self.spec_period() + 1,
            None => true,
        }
        &&& match self.spec_avg_loss() {
            Some(l) => 0 <= l <= PRICE_LIMIT as int * SMOOTH_SCALE as int,
            None => true,
        }
    }

    pub fn new(period: usize) -> (r: Self)
        requires
            1 <= period <= PERIOD_LIMIT,
        ensures
            r.wf(),
            r.spec_period() == period,
            r.window() == Seq::<i64>::empty(),
            r.spec_avg_gain() is None,
            r.spec_avg_loss() is None,
    {
        let prices: Vec<i64> = Vec::new();
        proof {
            assert(prices@ =~= Seq::<i64>::empty());
        }
        Self { period, prices, prev_avg_gain: None, prev_avg_loss: None }
    }

    /// Feed one close. The first reading appears with close number
    /// `period + 1` (seeded from plain averages of gains and losses);
    /// later readings use Wilder smoothing. Readings stay in
    /// `[0, 100 * SMOOTH_SCALE]`.
    pub fn update(&mut self, price: i64) -> (r: Option<i64>)
        requires
            old(self).wf(),
            price_ok(price),
        ensures
            final(self).wf(),
            final(self).spec_period() == old(self).spec_period(),
            final(self).window()
                == pushed_window(old(self).window(), price, old(self).spec_period() + 1),
            ({
                let w = final(self).window();
                let n = old(self).spec_period();
                let scale = SMOOTH_SCALE as int;
                if w.len() < 2 {
                    r is None
                        && final(self).spec_avg_gain() == old(self).spec_avg_gain()
                        && final(self).spec_avg_loss() == old(self).spec_avg_loss()
                } else if old(self).spec_avg_gain() is None && w.len() <= n {
                    r is None
                        && final(self).spec_avg_gain() is None
                        && final(self).spec_avg_loss() is None
                } else {
                    let (g, l) = if old(self).spec_avg_gain() is None {
                        (gains_sum(w) * scale / n, losses_sum(w) * scale / n)
                    } else {
                        let change = w.last() - w[w.len() - 2];
                        let gain = if change > 0 { change * scale } else { 0 };
                        let loss = if change < 0 { -change * scale } else { 0 };
                        (
                            rma_step(old(self).spec_avg_gain()->0 as int, gain, n),
                            rma_step(old(self).spec_avg_loss()->0 as int, loss, n),
                        )
                    };
                    &&& final(self).spec_avg_gain() == Some(g as i64)
                    &&& final(self).spec_avg_loss() == Some(l as i64)
                    &&& r == Some(rsi_value(g, l) as i64)
                    &&& 0 <= rsi_value(g, l) <= 100 * scale
                }
            }),
    {
        let ghost scale: int = SMOOTH_SCALE as int;
        let ghost bound: int = PRICE_LIMIT as int * SMOOTH_SCALE as int;
        self.prices.push(price);
        if self.prices.len() > self.period + 1 {
            self.prices.remove(0);
            proof {
                assert(self.prices@ =~= pushed_window(
                    old(self).window(), price, old(self).spec_period() + 1));
            }
        }

        if self.prices.len() < 2 {
            return None;
        }

        let n = self.period as i64;

        if self.prev_avg_gain.is_none() {
            if self.prices.len() <= self.period {
                return None;
            }

            let (gains, losses) = gains_losses_window(&self.prices);
            proof {
                assert(gains as int * scale <= (PERIOD_LIMIT as int * PRICE_LIMIT as int) * scale
                    && gains as int * scale >= 0) by (nonlinear_arith)
                    requires 0 <= gains as int <= PERIOD_LIMIT as int * PRICE_LIMIT as int,
                        scale == SMOOTH_SCALE as int;
                assert(losses as int * scale <= (PERIOD_LIMIT as int * PRICE_LIMIT as int) * scale
                    && losses as int * scale >= 0) by (nonlinear_arith)
                    requires 0 <= losses as int <= PERIOD_LIMIT as int * PRICE_LIMIT as int,
                        scale == SMOOTH_SCALE as int;
                assert(self.prices@.len() - 1 == self.period as int);
            }
            let avg_gain128 = div_nn_i128((gains as i128) * (SMOOTH_SCALE as i128), n as i128);
            let avg_loss128 = div_nn_i128((losses as i128) * (SMOOTH_SCALE as i128), n as i128);
            proof {
                lemma_gains_losses_bounds(self.prices@);
                assert(avg_gain128 as int <= bound) by (nonlinear_arith)
                    requires
                        avg_gain128 as int == gains as int * scale / n as int,
                        0 <= gains as int <= n as int * PRICE_LIMIT,
                        n as int >= 1,
                        scale >= 0,
                        bound == PRICE_LIMIT as int * scale;
                assert(avg_loss128 as int <= bound) by (nonlinear_arith)
                    requires
                        avg_loss128 as int == losses as int * scale / n as int,
                        0 <= losses as int <= n as int * PRICE_LIMIT,
                        n as int >= 1,
                        scale >= 0,
                        bound == PRICE_LIMIT as int * scale;
            }
            let avg_gain = avg_gain128 as i64;
            let avg_loss = avg_loss128 as i64;

            self.prev_avg_gain = Some(avg_gain);
            self.prev_avg_loss = Some(avg_loss);

            return Some(rsi_reading(avg_gain, avg_loss));
        }

        let len = self.prices.len();
        let current_price = self.prices[len - 1];
        let prev_price = self.prices[len - 2];
        let change: i64 = current_price - prev_price;

        let current_gain: i64 = if change > 0 { change * SMOOTH_SCALE } else { 0 };
        let current_loss: i64 = if change < 0 { -(change as i128 * SMOOTH_SCALE as i128) as i64 } else { 0 };
        proof {
            assert(change as int * scale <= bound && -(change as int * scale) <= bound)
                by (nonlinear_arith)
                requires
                    -(PRICE_LIMIT as int) <= change as int <= PRICE_LIMIT as int,
                    scale == SMOOTH_SCALE as int,
                    bound == PRICE_LIMIT as int * scale;
        }

        let prev_gain = self.prev_avg_gain.unwrap();
        let prev_loss = self.prev_avg_loss.unwrap();

        let avg_gain = rma_step_i64(prev_gain, current_gain, n, Ghost(bound));
        let avg_loss = rma_step_i64(prev_loss, current_loss, n, Ghost(bound));

        self.prev_avg_gain = Some(avg_gain);
        self.prev_avg_loss = Some(avg_loss);

        Some(rsi_reading(avg_gain, avg_loss))
    }
}

/// Compute `rsi_value` on smoothed gain and loss.
fn rsi_reading(g: i64, l: i64) -> (r: i64)
    requires
        0 <= g <= PRICE_LIMIT as int * SMOOTH_SCALE as int,
        0 <= l <= PRICE_LIMIT as int * SMOOTH_SCALE as int,
    ensures
        r == rsi_value(g as int, l as int),
        0 <= r <= 100 * SMOOTH_SCALE,
{
    if l == 0 {
        100 * SMOOTH_SCALE
    } else {
        proof {
            lemma_scaled_ratio_le(g as int, g as int + l as int, 100 * SMOOTH_SCALE as int);
            assert(100 * (SMOOTH_SCALE as int) * g as int
                <= 100 * (SMOOTH_SCALE as int) * (PRICE_LIMIT as int * SMOOTH_SCALE as int))
                by (nonlinear_arith)
                requires 0 <= g as int <= PRICE_LIMIT as int * SMOOTH_SCALE as int;
            assert(100 * (SMOOTH_SCALE as int) * g as int >= 0) by (nonlinear_arith)
                requires g as int >= 0;
        }
        let num: i128 = 100 * (SMOOTH_SCALE as i128) * (g as i128);
        let q = div_nn_i128(num, (g as i128) + (l as i128));
        q as i64
    }
}

/// Sums of upward and downward adjacent moves over a window.
fn gains_losses_window(prices: &Vec<i64>) -> (r: (i64, i64))
    requires
        forall|i: int| 0 <= i < prices@.len() ==> price_ok(#[trigger] prices@[i]),
        2 <= prices@.len() <= PERIOD_LIMIT + 1,
    ensures
        r.0 == gains_sum(prices@),
        r.1 == losses_sum(prices@),
        0 <= r.0 <= PERIOD_LIMIT as int * PRICE_LIMIT as int,
        0 <= r.1 <= PERIOD_LIMIT as int * PRICE_LIMIT as int,
        0 <= r.0 <= (prices@.len() - 1) * PRICE_LIMIT,
        0 <= r.1 <= (prices@.len() - 1) * PRICE_LIMIT,
{
    let mut gains: i64 = 0;
    let mut losses: i64 = 0;
    let mut i: usize = 1;
    proof {
        assert(prices@.take(1int).len() < 2);
    }
    while i < prices.len()
        invariant
            1 <= i <= prices.len() <= PERIOD_LIMIT + 1,
            forall|j: int| 0 <= j < prices@.len() ==> price_ok(#[trigger] prices@[j]),
            gains == gains_sum(prices@.take(i as int)),
            losses == losses_sum(prices@.take(i as int)),
            0 <= gains <= (i - 1) * PRICE_LIMIT,
            0 <= losses <= (i - 1) * PRICE_LIMIT,
        decreases prices.len() - i,
    {
        proof {
            assert(prices@.take(i + 1).drop_last() =~= prices@.take(i as int));
            assert(prices@.take(i + 1).len() == i + 1);
            assert(prices@.take(i + 1).last() == prices@[i as int]);
            assert(prices@.take(i + 1)[i - 1] == prices@[i - 1]);
            assert(i * PRICE_LIMIT == (i - 1) * PRICE_LIMIT + PRICE_LIMIT) by (nonlinear_arith);
            assert(i * PRICE_LIMIT <= (PERIOD_LIMIT + 1) * PRICE_LIMIT) by (nonlinear_arith)
                requires 0 <= i as int <= PERIOD_LIMIT as int + 1;
        }
        let change: i64 = prices[i] - prices[i - 1];
        if change > 0 {
            gains += change;
        } else {
            losses += -change;
        }
        i += 1;
    }
    proof {
        assert(prices@.take(prices@.len() as int) =~= prices@);
        assert((prices@.len() - 1) * PRICE_LIMIT <= PERIOD_LIMIT as int * PRICE_LIMIT as int)
            by (nonlinear_arith)
            requires 1 <= prices@.len() <= PERIOD_LIMIT + 1;
    }
    (gains, losses)
}

/// Sum of a window of non-negative values, each at most `hi`.
fn sum_nn_window(values: &Vec<i64>, Ghost(hi): Ghost<int>) -> (r: i64)
    requires
        forall|i: int| 0 <= i < values@.len() ==> 0 <= #[trigger] values@[i] <= hi,
        hi >= 0,
        values@.len() * hi <= i64::MAX,
    ensures
        r == sum_i64(values@),
        0 <= r <= values@.len() * hi,
{
    let mut total: i64 = 0;
    let mut i: usize = 0;
    while i < values.len()
        invariant
            i <= values.len(),
            forall|j: int| 0 <= j < values@.len() ==> 0 <= #[trigger] values@[j] <= hi,
            hi >= 0,
            values@.len() * hi <= i64::MAX,
            total == sum_i64(values@.take(i as int)),
            0 <= total <= i * hi,
        decreases values.len() - i,
    {
        proof {
            assert(values@.take(i + 1).drop_last() =~= values@.take(i as int));
            assert((i + 1) * hi == i * hi + hi) by (nonlinear_arith);
            assert((i + 1) * hi <= values@.len() * hi) by (nonlinear_arith)
                requires 0 <= i + 1 <= values@.len(), hi >= 0;
        }
        total += values[i];
        i += 1;
    }
    proof {
        assert(values@.take(values@.len() as int) =~= values@);
    }
    total
}

/// Elementwise dominance carries over to window sums.
proof fn lemma_sum_dominated(a: Seq<i64>, b: Seq<i64>)
    requires
        a.len() == b.len(),
        forall|i: int| 0 <= i < a.len() ==> #[trigger] a[i] <= b[i],
    ensures
        sum_i64(a) <= sum_i64(b),
    decreases a.len(),
{
    if a.len() > 0 {
        lemma_sum_dominated(a.drop_last(), b.drop_last());
    }
}

/// Positive directional movement of a candle against the previous one.
pub open spec fn dm_plus(high: int, prev_high: int, low: int, prev_low: int) -> int {
    let up = high - prev_high;
    let down = prev_low - low;
    if up > down && up > 0 {
        up
    } else {
        0
    }
}

/// Negative directional movement of a candle against the previous one.
pub open spec fn dm_minus(high: int, prev_high: int, low: int, prev_low: int) -> int {
    let up = high - prev_high;
    let down = prev_low - low;
    if down > up && down > 0 {
        down
    } else {
        0
    }
}

/// The DX reading from smoothed TR and directional movements, all
/// carrying `SMOOTH_SCALE`; the result carries the same scale.
pub open spec fn spec_dx(tr_s: int, plus_s: int, minus_s: int) -> int {
    if tr_s == 0 {
        0
    } else {
        let scale100 = 100 * (SMOOTH_SCALE as int);
        let di_plus = scale100 * plus_s / tr_s;
        let di_minus = scale100 * minus_s / tr_s;
        let sum_di = di_plus + di_minus;
        if sum_di == 0 {
            0
        } else {
            let diff = if di_plus >= di_minus { di_plus - di_minus } else { di_minus - di_plus };
            scale100 * diff / sum_di
        }
    }
}

/// Directional movements never exceed the true range of a valid candle.
proof fn lemma_dm_le_tr(high: i64, low: i64, close: i64, ph: i64, pl: i64, pc: i64)
    requires
        candle_ok(high, low, close),
        candle_ok(ph, pl, pc),
    ensures
        0 <= dm_plus(high as int, ph as int, low as int, pl as int)
            <= spec_true_range(high, low, Some(pc)),
        0 <= dm_minus(high as int, ph as int, low as int, pl as int)
            <= spec_true_range(high, low, Some(pc)),
{
}

/// Average Directional Index with strict Wilder smoothing: TR and the
/// directional movements are seeded by a plain average of the first
/// `period` samples and Wilder-smoothed afterwards; DX readings are in
/// turn seeded by a plain average of the first `period` of them and
/// Wilder-smoothed afterwards. All smoothed values carry `SMOOTH_SCALE`.
pub struct ADX {
    period: usize,
    samples: u64,
    tr_buf: Vec<i64>,
    plus_dm_buf: Vec<i64>,
    minus_dm_buf: Vec<i64>,
    dx_buf: Vec<i64>,
    tr_smooth: i64,
    plus_dm_smooth: i64,
    minus_dm_smooth: i64,
    adx_smooth: i64,
    prev_high: Option<i64>,
    prev_low: Option<i64>,
    prev_close: Option<i64>,
}

impl ADX {
    pub closed spec fn spec_period(self) -> int {
        self.period as int
    }

    /// How many candles this kernel has consumed.
    pub closed spec fn spec_samples(self) -> int {
        self.samples as int
    }

    /// The previous candle, once one has been seen.
    pub closed spec fn spec_prev(self) -> Option<(i64, i64, i64)> {
        match (self.prev_high, self.prev_low, self.prev_close) {
            (Some(h), Some(l), Some(c)) => Some((h, l, c)),
            _ => None,
        }
    }

    /// Raw true ranges collected while seeding.
    pub closed spec fn tr_window(self) -> Seq<i64> {
        self.tr_buf@
    }

    pub closed spec fn plus_dm_window(self) -> Seq<i64> {
        self.plus_dm_buf@
    }

    pub closed spec fn minus_dm_window(self) -> Seq<i64> {
        self.minus_dm_buf@
    }

    /// DX readings collected while seeding the ADX itself.
    pub closed spec fn dx_window(self) -> Seq<i64> {
        self.dx_buf@
    }

    /// Wilder-smoothed true range, scaled by `SMOOTH_SCALE`.
    pub closed spec fn spec_tr_smooth(self) -> i64 {
        self.tr_smooth
    }

    pub closed spec fn spec_plus_smooth(self) -> i64 {
        self.plus_dm_smooth
    }

    pub closed spec fn spec_minus_smooth(self) -> i64 {
        self.minus_dm_smooth
    }

    /// The current ADX reading, scaled by `SMOOTH_SCALE`.
    pub closed spec fn spec_adx(self) -> i64 {
        self.adx_smooth
    }

    pub open spec fn wf(self) -> bool {
        let n = self.spec_period();
        let k = self.spec_samples();
        let scaled_limit = PRICE_LIMIT as int * SMOOTH_SCALE as int;
        &&& 1 <= n <= PERIOD_LIMIT
        &&& (self.spec_prev() is Some <==> k >= 1)
        &&& match self.spec_prev() {
            Some((h, l, c)) => candle_ok(h, l, c),
            None => true,
        }
        &&& self.tr_window().len() == if k <= 1 { 0int } else if k - 1 <= n { k - 1 } else { n }
        &&& self.plus_dm_window().len() == self.tr_window().len()
        &&& self.minus_dm_window().len() == self.tr_window().len()
        &&& self.dx_window().len() == if k <= n { 0int } else if k - n <= n { k - n } else { n }
        &&& forall|i: int| 0 <= i < self.tr_window().len()
            ==> 0 <= #[trigger] self.tr_window()[i] <= PRICE_LIMIT
        &&& forall|i: int| 0 <= i < self.plus_dm_window().len()
            ==> 0 <= #[trigger] self.plus_dm_window()[i] <= self.tr_window()[i]
        &&& forall|i: int| 0 <= i < self.minus_dm_window().len()
            ==> 0 <= #[trigger] self.minus_dm_window()[i] <= self.tr_window()[i]
        &&& forall|i: int| 0 <= i < self.dx_window().len()
            ==> 0 <= #[trigger] self.dx_window()[i] <= 100 * SMOOTH_SCALE
        &&& 0 <= self.spec_plus_smooth() <= self.spec_tr_smooth() <= scaled_limit
        &&& 0 <= self.spec_minus_smooth() <= self.spec_tr_smooth()
        &&& 0 <= self.spec_adx() <= 100 * SMOOTH_SCALE
    }

    pub fn new(period: usize) -> (r: Self)
        requires
            1 <= period <= PERIOD_LIMIT,
        ensures
            r.wf(),
            r.spec_period() == period,
            r.spec_samples() == 0,
    {
        let tr_buf: Vec<i64> = Vec::new();
        let plus_dm_buf: Vec<i64> = Vec::new();
        let minus_dm_buf: Vec<i64> = Vec::new();
        let dx_buf: Vec<i64> = Vec::new();
        Self {
            period,
            samples: 0,
            tr_buf,
            plus_dm_buf,
            minus_dm_buf,
            dx_buf,
            tr_smooth: 0,
            plus_dm_smooth: 0,
            minus_dm_smooth: 0,
            adx_smooth: 0,
            prev_high: None,
            prev_low: None,
            prev_close: None,
        }
    }

    /// Feed one candle.
    ///
    /// A reading appears exactly from candle `2 * period` on, and every
    /// reading lies in `[0, 100 * SMOOTH_SCALE]`. The four phases: the
    /// first `period` TR/DM samples are averaged as a seed, later ones
    /// Wilder-smoothed; DX readings start once TR is seeded, and the
    /// ADX is the average of the first `period` of them, then
    /// Wilder-smoothed.
    #[verifier::rlimit(100)]
    #[verifier::spinoff_prover]
    pub fn update(&mut self, high: i64, low: i64, close: i64) -> (r: Option<i64>)
        requires
            old(self).wf(),
            candle_ok(high, low, close),
            old(self).spec_samples() < u64::MAX,
        ensures
            final(self).wf(),
            final(self).spec_period() == old(self).spec_period(),
            final(self).spec_samples() == old(self).spec_samples() + 1,
            final(self).spec_prev() == Some((high, low, close)),
            (r is Some <==> old(self).spec_samples() + 1 >= 2 * old(self).spec_period()),
            match r {
                Some(v) => v == final(self).spec_adx() && 0 <= v <= 100 * SMOOTH_SCALE,
                None => true,
            },
            ({
                let n = old(self).spec_period();
                let scale = SMOOTH_SCALE as int;
                match old(self).spec_prev() {
                    None => {
                        &&& final(self).tr_window() == old(self).tr_window()
                        &&& final(self).dx_window() == old(self).dx_window()
                        &&& final(self).spec_tr_smooth() == old(self).spec_tr_smooth()
                        &&& final(self).spec_plus_smooth() == old(self).spec_plus_smooth()
                        &&& final(self).spec_minus_smooth() == old(self).spec_minus_smooth()
                        &&& final(self).spec_adx() == old(self).spec_adx()
                    },
                    Some((ph, pl, pc)) => {
                        let tr = spec_true_range(high, low, Some(pc));
                        let pdm = dm_plus(high as int, ph as int, low as int, pl as int);
                        let mdm = dm_minus(high as int, ph as int, low as int, pl as int);
                        let seeding = old(self).tr_window().len() < n;
                        &&& (seeding ==> {
                            &&& final(self).tr_window() == old(self).tr_window().push(tr as i64)
                            &&& final(self).plus_dm_window()
                                == old(self).plus_dm_window().push(pdm as i64)
                            &&& final(self).minus_dm_window()
                                == old(self).minus_dm_window().push(mdm as i64)
                            &&& (final(self).tr_window().len() == n ==> {
                                &&& final(self).spec_tr_smooth()
                                    == sum_i64(final(self).tr_window()) * scale / n
                                &&& final(self).spec_plus_smooth()
                                    == sum_i64(final(self).plus_dm_window()) * scale / n
                                &&& final(self).spec_minus_smooth()
                                    == sum_i64(final(self).minus_dm_window()) * scale / n
                            })
                            &&& (final(self).tr_window().len() < n ==> {
                                &&& final(self).spec_tr_smooth() == old(self).spec_tr_smooth()
                                &&& final(self).spec_plus_smooth() == old(self).spec_plus_smooth()
                                &&& final(self).spec_minus_smooth() == old(self).spec_minus_smooth()
                            })
                        })
                        &&& (!seeding ==> {
                            &&& final(self).tr_window() == old(self).tr_window()
                            &&& final(self).spec_tr_smooth() == rma_step(
                                old(self).spec_tr_smooth() as int, tr * scale, n)
                            &&& final(self).spec_plus_smooth() == rma_step(
                                old(self).spec_plus_smooth() as int, pdm * scale, n)
                            &&& final(self).spec_minus_smooth() == rma_step(
                                old(self).spec_minus_smooth() as int, mdm * scale, n)
                        })
                        &&& (final(self).tr_window().len() == n ==> {
                            let dx = spec_dx(
                                final(self).spec_tr_smooth() as int,
                                final(self).spec_plus_smooth() as int,
                                final(self).spec_minus_smooth() as int,
                            );
                            &&& (old(self).dx_window().len() < n ==> {
                                &&& final(self).dx_window()
                                    == old(self).dx_window().push(dx as i64)
                                &&& (final(self).dx_window().len() == n ==> final(self).spec_adx()
                                    == sum_i64(final(self).dx_window()) / n)
                                &&& (final(self).dx_window().len() < n
                                    ==> final(self).spec_adx() == old(self).spec_adx())
                            })
                            &&& (old(self).dx_window().len() == n ==> {
                                &&& final(self).dx_window() == old(self).dx_window()
                                &&& final(self).spec_adx() == rma_step(
                                    old(self).spec_adx() as int, dx, n)
                            })
                        })
                        &&& (final(self).tr_window().len() < n
                            ==> final(self).dx_window() == old(self).dx_window()
                                && final(self).spec_adx() == old(self).spec_adx())
                    },
                }
            }),
    {
        let ghost scale: int = SMOOTH_SCALE as int;
        let ghost scaled_limit: int = PRICE_LIMIT as int * SMOOTH_SCALE as int;
        let n64 = self.period as i64;

        if self.prev_high.is_some() && self.prev_low.is_some() && self.prev_close.is_some() {
            let ph = self.prev_high.unwrap();
            let pl = self.prev_low.unwrap();
            let pc = self.prev_close.unwrap();

            let tr: i64 = {
                let hl = high - low;
                let hc = if high >= pc { high - pc } else { pc - high };
                let lc = if low >= pc { low - pc } else { pc - low };
                if hl >= hc && hl >= lc { hl } else if hc >= lc { hc } else { lc }
            };
            let up_move: i64 = high - ph;
            let down_move: i64 = pl - low;
            let plus_dm: i64 = if up_move > down_move && up_move > 0 { up_move } else { 0 };
            let minus_dm: i64 = if down_move > up_move && down_move > 0 { down_move } else { 0 };
            proof {
                lemma_dm_le_tr(high, low, close, ph, pl, pc);
            }

            if self.tr_buf.len() < self.period {
                self.tr_buf.push(tr);
                self.plus_dm_buf.push(plus_dm);
                self.minus_dm_buf.push(minus_dm);

                if self.tr_buf.len() == self.period {
                    let tr_sum = sum_nn_window(&self.tr_buf, Ghost(PRICE_LIMIT as int));
                    let plus_sum = sum_nn_window(&self.plus_dm_buf, Ghost(PRICE_LIMIT as int));
                    let minus_sum = sum_nn_window(&self.minus_dm_buf, Ghost(PRICE_LIMIT as int));
                    proof {
                        lemma_sum_dominated(self.plus_dm_buf@, self.tr_buf@);
                        lemma_sum_dominated(self.minus_dm_buf@, self.tr_buf@);
                        assert(0 <= sum_i64(self.plus_dm_buf@)) by {
                            lemma_sum_bounds(self.plus_dm_buf@, 0, PRICE_LIMIT as int);
                        }
                        assert(0 <= sum_i64(self.minus_dm_buf@)) by {
                            lemma_sum_bounds(self.minus_dm_buf@, 0, PRICE_LIMIT as int);
                        }
                    }
                    self.tr_smooth = scaled_seed(tr_sum, n64, Ghost(scaled_limit));
                    self.plus_dm_smooth = scaled_seed(plus_sum, n64, Ghost(scaled_limit));
                    self.minus_dm_smooth = scaled_seed(minus_sum, n64, Ghost(scaled_limit));
                    proof {
                        lemma_div_monotone(
                            plus_sum as int * scale, tr_sum as int * scale, n64 as int);
                        lemma_div_monotone(
                            minus_sum as int * scale, tr_sum as int * scale, n64 as int);
                        assert(plus_sum as int * scale <= tr_sum as int * scale
                            && minus_sum as int * scale <= tr_sum as int * scale
                            && 0 <= plus_sum as int * scale && 0 <= minus_sum as int * scale)
                            by (nonlinear_arith)
                            requires
                                0 <= plus_sum as int <= tr_sum as int,
                                0 <= minus_sum as int <= tr_sum as int,
                                scale >= 0;
                    }
                }
            } else {
                proof {
                    assert(tr as int * scale <= scaled_limit && tr as int * scale >= 0
                        && plus_dm as int * scale >= 0 && minus_dm as int * scale >= 0
                        && plus_dm as int * scale <= tr as int * scale
                        && minus_dm as int * scale <= tr as int * scale)
                        by (nonlinear_arith)
                        requires
                            0 <= plus_dm as int <= tr as int <= PRICE_LIMIT as int,
                            0 <= minus_dm as int <= tr as int,
                            scale == SMOOTH_SCALE as int,
                            scaled_limit == PRICE_LIMIT as int * scale;
                }
                let tr_scaled = tr * SMOOTH_SCALE;
                let plus_scaled = plus_dm * SMOOTH_SCALE;
                let minus_scaled = minus_dm * SMOOTH_SCALE;
                let old_tr = self.tr_smooth;
                let old_plus = self.plus_dm_smooth;
                let old_minus = self.minus_dm_smooth;
                self.tr_smooth = rma_step_i64(old_tr, tr_scaled, n64, Ghost(scaled_limit));
                self.plus_dm_smooth = rma_step_i64(old_plus, plus_scaled, n64, Ghost(scaled_limit));
                self.minus_dm_smooth = rma_step_i64(
                    old_minus, minus_scaled, n64, Ghost(scaled_limit));
                proof {
                    crate::numeric::lemma_rma_monotone(
                        old_plus as int, plus_scaled as int,
                        old_tr as int, tr_scaled as int, n64 as int);
                    crate::numeric::lemma_rma_monotone(
                        old_minus as int, minus_scaled as int,
                        old_tr as int, tr_scaled as int, n64 as int);
                }
            }

            if self.tr_buf.len() >= self.period {
                let dx = dx_reading(self.tr_smooth, self.plus_dm_smooth, self.minus_dm_smooth);

                if self.dx_buf.len() < self.period {
                    self.dx_buf.push(dx);
                    if self.dx_buf.len() == self.period {
                        let dx_sum = sum_nn_window(&self.dx_buf, Ghost(100 * SMOOTH_SCALE as int));
                        let seeded = div_nn_i64(dx_sum, n64);
                        proof {
                            assert(seeded as int <= 100 * SMOOTH_SCALE) by (nonlinear_arith)
                                requires
                                    seeded as int == dx_sum as int / n64 as int,
                                    0 <= dx_sum as int <= n64 as int * (100 * SMOOTH_SCALE as int),
                                    n64 as int >= 1;
                        }
                        self.adx_smooth = seeded;
                    }
                } else {
                    self.adx_smooth = rma_step_i64(
                        self.adx_smooth, dx, n64, Ghost(100 * SMOOTH_SCALE as int));
                }
            }
        }

        self.prev_high = Some(high);
        self.prev_low = Some(low);
        self.prev_close = Some(close);
        self.samples = self.samples + 1;

        if self.dx_buf.len() >= self.period {
            Some(self.adx_smooth)
        } else {
            None
        }
    }
}

/// Seed a Wilder average: the plain average of `sum`, carrying the scale.
fn scaled_seed(sum: i64, n: i64, Ghost(scaled_limit): Ghost<int>) -> (r: i64)
    requires
        0 <= sum <= n as int * PRICE_LIMIT,
        n >= 1,
        scaled_limit == PRICE_LIMIT as int * SMOOTH_SCALE as int,
    ensures
        r == sum as int * SMOOTH_SCALE as int / n as int,
        0 <= r <= scaled_limit,
{
    proof {
        assert(sum as int * SMOOTH_SCALE as int >= 0
            && sum as int * SMOOTH_SCALE as int
                <= (n as int * PRICE_LIMIT as int) * SMOOTH_SCALE as int)
            by (nonlinear_arith)
            requires 0 <= sum as int <= n as int * PRICE_LIMIT as int;
        assert((n as int * PRICE_LIMIT as int) * SMOOTH_SCALE as int <= i128::MAX)
            by (nonlinear_arith)
            requires 1 <= n as int <= i64::MAX;
    }
    let q = div_nn_i128((sum as i128) * (SMOOTH_SCALE as i128), n as i128);
    proof {
        assert(q as int <= scaled_limit) by (nonlinear_arith)
            requires
                q as int == sum as int * SMOOTH_SCALE as int / n as int,
                0 <= sum as int <= n as int * PRICE_LIMIT as int,
                n as int >= 1,
                scaled_limit == PRICE_LIMIT as int * SMOOTH_SCALE as int;
    }
    q as i64
}

/// Division of non-negative values by a positive divisor is monotone.
proof fn lemma_div_monotone(a: int, b: int, d: int)
    by (nonlinear_arith)
    requires
        a <= b,
        d > 0,
    ensures
        a / d <= b / d,
{
}

/// Compute `spec_dx` on smoothed values.
fn dx_reading(tr_s: i64, plus_s: i64, minus_s: i64) -> (r: i64)
    requires
        0 <= plus_s <= tr_s <= PRICE_LIMIT as int * SMOOTH_SCALE as int,
        0 <= minus_s <= tr_s,
    ensures
        r == spec_dx(tr_s as int, plus_s as int, minus_s as int),
        0 <= r <= 100 * SMOOTH_SCALE,
{
    if tr_s == 0 {
        return 0;
    }
    let ghost scale100: int = 100 * SMOOTH_SCALE as int;
    proof {
        lemma_scaled_ratio_le(plus_s as int, tr_s as int, scale100);
        lemma_scaled_ratio_le(minus_s as int, tr_s as int, scale100);
        assert(scale100 * plus_s as int >= 0 && scale100 * minus_s as int >= 0
            && scale100 * plus_s as int <= scale100 * (PRICE_LIMIT as int * SMOOTH_SCALE as int)
            && scale100 * minus_s as int <= scale100 * (PRICE_LIMIT as int * SMOOTH_SCALE as int))
            by (nonlinear_arith)
            requires
                0 <= plus_s as int <= PRICE_LIMIT as int * SMOOTH_SCALE as int,
                0 <= minus_s as int <= PRICE_LIMIT as int * SMOOTH_SCALE as int,
                scale100 >= 0;
    }
    let di_plus128 = div_nn_i128(
        100 * (SMOOTH_SCALE as i128) * (plus_s as i128), tr_s as i128);
    let di_minus128 = div_nn_i128(
        100 * (SMOOTH_SCALE as i128) * (minus_s as i128), tr_s as i128);
    let di_plus = di_plus128 as i64;
    let di_minus = di_minus128 as i64;
    let sum_di = di_plus + di_minus;
    if sum_di == 0 {
        return 0;
    }
    let diff: i64 = if di_plus >= di_minus { di_plus - di_minus } else { di_minus - di_plus };
    proof {
        lemma_scaled_ratio_le(diff as int, sum_di as int, scale100);
        assert(scale100 * diff as int >= 0
            && scale100 * diff as int <= scale100 * (200 * SMOOTH_SCALE as int))
            by (nonlinear_arith)
            requires 0 <= diff as int <= 200 * SMOOTH_SCALE as int, scale100 >= 0;
    }
    let num: i128 = 100 * (SMOOTH_SCALE as i128) * (diff as i128);
    let q = div_nn_i128(num, sum_di as i128);
    q as i64
}

} // verus!
