use perpbot::feed::HyperCandle;
use perpbot::replay::{run_candle_backtest, CandleBacktest, ReplayParams, TradeKind};
use perpbot::strategy::{AdaptiveConfig, Signal};
use perpbot::SMOOTH_SCALE;

fn candle(o: i64, h: i64, l: i64, c: i64) -> HyperCandle {
    HyperCandle {
        t: 0,
        close_t: 1,
        s: String::from("SOL"),
        i: String::from("1h"),
        o,
        c,
        h,
        l,
        v: 100,
        n: 1,
    }
}

/// Short warmups and a tight band so a single drop crosses it; the
/// huge ADX threshold keeps the regime ranging throughout.
fn fast_config() -> AdaptiveConfig {
    AdaptiveConfig {
        bb_period: 3,
        bb_std_dev: 50,
        rsi_period: 2,
        rsi_oversold: 30 * SMOOTH_SCALE,
        st_period: 2,
        st_multiplier: 300,
        adx_period: 2,
        adx_threshold: 101 * SMOOTH_SCALE,
        max_daily_drawdown_pct: 10_000,
        max_trades_per_hour: 5,
    }
}

fn params() -> ReplayParams {
    ReplayParams {
        fee_bps: 10,
        slippage_bps: 50,
        funding_bps_per_hour: 1,
        stop_loss_bps: 500,
    }
}

#[test]
fn test_replay_entry_and_band_exit() {
    let mut candles: Vec<HyperCandle> = Vec::new();
    for _ in 0..5 {
        candles.push(candle(10_000, 10_000, 10_000, 10_000));
    }
    // a drop through the lower band opens a range long at the close
    candles.push(candle(10_000, 10_000, 9_000, 9_000));
    // the next high touches the middle band: a signal exit, slipped
    candles.push(candle(9_500, 10_100, 9_000, 10_050));

    let result = run_candle_backtest(fast_config(), 1_000_000, params(), &candles);

    assert_eq!(result.data_points, 7);
    assert_eq!(
        result.signals,
        vec![
            Signal::Hold, Signal::Hold, Signal::Hold, Signal::Hold, Signal::Hold,
            Signal::BuyRange, Signal::SellRange,
        ]
    );
    assert_eq!(result.trades.len(), 1);
    let t = &result.trades[0];
    assert_eq!(t.entry_price, 9_000);
    assert_eq!(t.exit_price, 9_999);
    assert_eq!(t.profit, 104_395);
    assert_eq!(t.profit_bps, 1_098);
    assert_eq!(t.kind, TradeKind::Range);
    assert!(!t.stop_loss);
    assert_eq!(result.final_capital, 1_103_338);
    assert_eq!(result.range_trades, 1);
    assert_eq!(result.sl_hits, 0);
    assert_eq!(result.upgrades, 0);
}

#[test]
fn test_replay_stop_loss_fires_before_signal() {
    let mut candles: Vec<HyperCandle> = Vec::new();
    for _ in 0..5 {
        candles.push(candle(10_000, 10_000, 10_000, 10_000));
    }
    candles.push(candle(10_000, 10_000, 9_000, 9_000));
    // a bullish candle whose low sweeps the 5% stop first
    candles.push(candle(9_000, 9_400, 8_500, 9_400));

    let result = run_candle_backtest(fast_config(), 1_000_000, params(), &candles);

    assert_eq!(result.trades.len(), 1);
    let t = &result.trades[0];
    assert_eq!(t.entry_price, 9_000);
    // the stop at 8550, slipped 50 bps against the seller
    assert_eq!(t.exit_price, 8_507);
    assert_eq!(t.profit, -52_935);
    assert_eq!(t.profit_bps, -557);
    assert!(t.stop_loss);
    assert_eq!(result.sl_hits, 1);
    assert_eq!(result.final_capital, 946_015);
}

#[test]
fn test_replay_step_funding_only() {
    // a held position pays funding every candle even when nothing fires
    let mut bt = CandleBacktest::new(fast_config(), 1_000_000, params());
    for _ in 0..5 {
        bt.process_backtest_candle(&candle(10_000, 10_000, 10_000, 10_000));
    }
    bt.process_backtest_candle(&candle(10_000, 10_000, 9_000, 9_000));
    assert_eq!(bt.position_size, 105_555_555);
    assert_eq!(bt.entry_price, 9_000);
    let capital_after_entry = bt.capital;

    // flat candle above the stop, high below the middle band: holds
    let sig = bt.process_backtest_candle(&candle(9_000, 9_050, 8_900, 9_000));
    assert_eq!(sig, Signal::Hold);
    assert_eq!(bt.position_size, 105_555_555);
    // one basis point of funding on the ~9500-dollar notional
    let notional = bt.position_size * 9_000 / 1_000_000;
    assert_eq!(bt.capital, capital_after_entry - notional * 1 / 10_000);
}

#[test]
fn test_replay_skips_oversize_entries() {
    // a one-cent price would ask for more size than the grid carries:
    // the entry is skipped and the replay carries on flat
    let mut candles: Vec<HyperCandle> = Vec::new();
    for _ in 0..5 {
        candles.push(candle(4, 4, 4, 4));
    }
    candles.push(candle(4, 4, 1, 1));
    let result = run_candle_backtest(fast_config(), 100_000_000_000_000, params(), &candles);
    assert_eq!(result.trades.len(), 0);
    assert_eq!(result.range_trades + result.trend_trades + result.short_trades, 0);
    assert_eq!(result.final_capital, 100_000_000_000_000);
}
