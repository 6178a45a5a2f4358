use perpbot::feed::{
    aggressive_price, estimated_fee, high_latency, net_pnl, plan_signal, protective_stop,
    retry_delay_secs, watchdog_hour, CandleOutcome, HyperCandle, HyperliquidFeed, TradeAction,
};
use perpbot::position::PositionState;
use perpbot::strategy::{AdaptiveConfig, AdaptiveStrategy, Signal};

fn candle(t: u64, o: i64, h: i64, l: i64, c: i64) -> HyperCandle {
    HyperCandle {
        t,
        close_t: t + 3_600_000,
        s: String::from("SOL"),
        i: String::from("1h"),
        o,
        c,
        h,
        l,
        v: 1_000,
        n: 10,
    }
}

fn fresh_feed() -> HyperliquidFeed {
    let strategy = AdaptiveStrategy::new(AdaptiveConfig::default());
    HyperliquidFeed::new(String::from("SOL"), String::from("1h"), strategy)
}

#[test]
fn test_reconnection_replay_guard() {
    let mut feed = fresh_feed();

    // First candle buffers; a newer open closes it.
    assert!(matches!(
        feed.process_candle(candle(1_000, 100, 110, 90, 105), false),
        CandleOutcome::First
    ));
    assert!(matches!(
        feed.process_candle(candle(2_000, 105, 112, 95, 108), false),
        CandleOutcome::CloseReady { .. }
    ));
    assert_eq!(feed.last_processed(), 1_000);
    let buffered = feed.candle_buffer.len();

    // Replays at or before the processed close change nothing.
    for t in [900u64, 950, 1_000] {
        let outcome = feed.process_candle(candle(t, 100, 110, 90, 105), false);
        assert!(matches!(outcome, CandleOutcome::Stale), "t={} must be dropped", t);
        assert_eq!(feed.candle_buffer.len(), buffered);
        assert_eq!(feed.last_processed(), 1_000);
    }
}

#[test]
fn test_forming_candle_update_and_close() {
    let mut feed = fresh_feed();
    feed.process_candle(candle(1_000, 100, 110, 90, 105), false);

    // Same timestamp: the forming candle is replaced in place.
    let updated = feed.process_candle(candle(1_000, 100, 115, 90, 112), false);
    assert!(matches!(updated, CandleOutcome::Updated { exit_signal: None }));
    assert_eq!(feed.candle_buffer.len(), 1);
    assert_eq!(feed.candle_buffer[0].h, 115);

    // A newer open closes the buffered candle at the new candle's open.
    match feed.process_candle(candle(2_000, 111, 120, 100, 118), false) {
        CandleOutcome::CloseReady { closed, execution_price, signal_time, warmed } => {
            assert_eq!(closed.t, 1_000);
            assert_eq!(closed.h, 115);
            assert_eq!(execution_price, 111);
            assert_eq!(signal_time, 2_000);
            assert!(!warmed);
        }
        other => panic!("expected a close, got {:?}", other),
    }
}

#[test]
fn test_force_close_executes_at_own_close() {
    let mut feed = fresh_feed();
    feed.process_candle(candle(1_000, 100, 110, 90, 105), false);
    match feed.process_candle(candle(1_000, 100, 116, 90, 109), true) {
        CandleOutcome::CloseReady { closed, execution_price, .. } => {
            assert_eq!(closed.t, 1_000);
            assert_eq!(execution_price, 109);
        }
        other => panic!("expected a forced close, got {:?}", other),
    }
    // forcing the same candle again is a no-op
    assert!(matches!(
        feed.process_candle(candle(1_000, 100, 116, 90, 109), true),
        CandleOutcome::AlreadyProcessed
    ));
}

#[test]
fn test_warmup_sets_penultimate_guard() {
    let mut feed = fresh_feed();
    let candles: Vec<HyperCandle> = (0..5u64)
        .map(|k| candle(1_000 + 100 * k, 100, 110, 90, 105))
        .collect();
    feed.warmup_with(&candles);
    assert_eq!(feed.last_processed(), 1_300);
    assert_eq!(feed.candle_buffer.len(), 5);
}

#[test]
fn test_plan_signal_actions() {
    assert_eq!(plan_signal(Signal::BuyRange, None), TradeAction::OpenLong);
    assert_eq!(plan_signal(Signal::BuyTrend, None), TradeAction::OpenLong);
    assert_eq!(plan_signal(Signal::SellShort, None), TradeAction::OpenShort);
    assert_eq!(
        plan_signal(Signal::SellRange, Some(PositionState::Long)),
        TradeAction::CloseLong
    );
    assert_eq!(
        plan_signal(Signal::CoverShort, Some(PositionState::Short)),
        TradeAction::CloseShort
    );
    // entries are refused while anything is held, exits need the side
    assert_eq!(plan_signal(Signal::BuyRange, Some(PositionState::Long)), TradeAction::Nothing);
    assert_eq!(plan_signal(Signal::SellRange, Some(PositionState::Short)), TradeAction::Nothing);
    assert_eq!(plan_signal(Signal::CoverShort, Some(PositionState::Long)), TradeAction::Nothing);
    assert_eq!(plan_signal(Signal::UpgradeToTrend, Some(PositionState::Long)), TradeAction::Nothing);
    assert_eq!(plan_signal(Signal::Hold, None), TradeAction::Nothing);
}

#[test]
fn test_order_price_helpers() {
    assert_eq!(protective_stop(20_000, true), 19_000);
    assert_eq!(protective_stop(20_000, false), 21_000);
    // 5% slippage crossing the book
    assert_eq!(aggressive_price(20_000, true, 500), 21_000);
    assert_eq!(aggressive_price(20_000, false, 500), 19_000);
    // floor rounding
    assert_eq!(aggressive_price(999, true, 500), 1_048);
}

#[test]
fn test_net_pnl_and_fees() {
    assert_eq!(net_pnl(1_000, 30, 40, -5), 925);
    assert_eq!(net_pnl(-200, 10, 10, 0), -220);
    // five bps twice on a 2 SOL exit at $150
    assert_eq!(estimated_fee(2_000_000, 15_000), 30);
}

#[test]
fn test_retry_and_watchdog() {
    assert_eq!(retry_delay_secs(1), 2);
    assert_eq!(retry_delay_secs(2), 4);
    assert_eq!(retry_delay_secs(3), 8);

    // first tick initialises the tracker
    let (h1, fetch1) = watchdog_hour(7_200_000_123, 0);
    assert_eq!(h1, 7_200_000_000);
    assert_eq!(fetch1, None);
    // same hour: nothing to fetch
    let (h2, fetch2) = watchdog_hour(7_200_500_000, h1);
    assert_eq!(h2, h1);
    assert_eq!(fetch2, None);
    // next hour: fetch the elapsed one
    let (h3, fetch3) = watchdog_hour(10_800_000_001, h2);
    assert_eq!(h3, 10_800_000_000);
    assert_eq!(fetch3, Some((7_200_000_000, 10_800_000_000)));

    assert!(high_latency(1_000_000, 990_000));
    assert!(!high_latency(1_000_000, 996_000));
}
