use perpbot::arbitrage::{ArbitragePath, TriangularArbitrageDetector};
use perpbot::backtest::{BacktestEngine, HistoricalUpdate};
use perpbot::control::{action_for_callback, action_for_text, ChatAction};
use perpbot::feed::HyperCandle;
use perpbot::history::{CoinbaseHistoricalData, HyperliquidHistoricalData, OVERLAP_MS, WINDOW_SPAN_MS};
use perpbot::orderbook::{OrderBookImpl, Side, Update};

/// A detector over small test grids (the live construction spans the
/// full venue price ranges, far too large for a test heap).
fn small_detector(min_profit_bps: i64) -> TriangularArbitrageDetector {
    TriangularArbitrageDetector {
        pair1: OrderBookImpl::with_range(0, 10_000),
        pair2: OrderBookImpl::with_range(0, 10_000),
        pair3: OrderBookImpl::with_range(0, 10_000),
        trading_fee_bps: 10,
        min_profit_bps,
        pair1_divisor: 100,
        pair2_divisor: 100,
        pair3_divisor: 10_000,
        cached_price1_ask: 0,
        cached_price1_bid: 0,
        cached_price2_ask: 0,
        cached_price2_bid: 0,
        cached_price3_ask: 0,
        cached_price3_bid: 0,
    }
}

fn seed_profitable_forward(det: &mut TriangularArbitrageDetector) {
    // pair 1 asks $3.00 in cent-ticks, pair 3 bids 0.40 of the second
    // base per unit, pair 2 bids $9.00: the forward loop turns $100
    // into roughly $119 before fees.
    det.pair1.apply_update(Update::SetLevel { price: 300, quantity: 5, side: Side::Ask });
    det.pair1.apply_update(Update::SetLevel { price: 299, quantity: 5, side: Side::Bid });
    det.pair2.apply_update(Update::SetLevel { price: 901, quantity: 5, side: Side::Ask });
    det.pair2.apply_update(Update::SetLevel { price: 900, quantity: 5, side: Side::Bid });
    det.pair3.apply_update(Update::SetLevel { price: 4_001, quantity: 5, side: Side::Ask });
    det.pair3.apply_update(Update::SetLevel { price: 4_000, quantity: 5, side: Side::Bid });
}

#[test]
fn test_forward_opportunity_detected() {
    let mut det = small_detector(10);
    seed_profitable_forward(&mut det);
    let found = det.detect_opportunities(42, 100_000_000);
    assert_eq!(found.len(), 1);
    let opp = &found[0];
    assert_eq!(opp.path, ArbitragePath::Forward);
    assert_eq!(opp.timestamp, 42);
    assert_eq!(opp.input_amount, 100_000_000);
    assert_eq!(opp.expected_output, 119_640_359);
    assert_eq!(opp.net_profit, 19_640_359);
    assert_eq!(opp.profit_bps, 1_964);
}

#[test]
fn test_empty_book_yields_nothing() {
    let mut det = small_detector(0);
    let found = det.detect_opportunities(1, 1_000_000);
    assert!(found.is_empty());
}

#[test]
fn test_paths_not_both_profitable() {
    // On a consistent triangle at most one direction can win; with the
    // detector's fee both margins shrink further.
    let mut det = small_detector(0);
    seed_profitable_forward(&mut det);
    let found = det.detect_opportunities(7, 100_000_000);
    let fwd_profit: i64 = found.iter()
        .filter(|o| o.path == ArbitragePath::Forward)
        .map(|o| o.net_profit)
        .sum();
    let rev_profit: i64 = found.iter()
        .filter(|o| o.path == ArbitragePath::Reverse)
        .map(|o| o.net_profit)
        .sum();
    assert!(!(fwd_profit > 0 && rev_profit > 0));
}

#[test]
fn test_backtest_replay_aggregates() {
    let mut engine = BacktestEngine {
        detector: small_detector(10),
        starting_capital: 100_000_000,
    };
    let upd = |price: i64, qty: u64, side: Side, t: u64| HistoricalUpdate {
        timestamp: t,
        symbol: String::from("X"),
        update: Update::SetLevel { price, quantity: qty, side },
    };
    let pair1 = vec![
        upd(300, 5, Side::Ask, 1),
        upd(299, 5, Side::Bid, 2),
    ];
    let pair2 = vec![
        upd(901, 5, Side::Ask, 3),
        upd(900, 5, Side::Bid, 4),
    ];
    let pair3 = vec![
        upd(4_001, 5, Side::Ask, 5),
        upd(4_000, 5, Side::Bid, 6),
    ];
    let result = engine.run(&pair1, &pair2, &pair3);
    assert_eq!(result.total_updates_processed, 6);
    // the loop closes only once the last bid is in
    assert_eq!(result.total_opportunities, 1);
    assert_eq!(result.opportunities[0].net_profit, 19_640_359);
    assert_eq!(result.total_profit, 19_640_359);
    assert_eq!(result.avg_profit_per_opportunity, 19_640_359);
    let best = result.best_opportunity.expect("one found");
    assert_eq!(best.profit_bps, 1_964);
}

#[test]
fn test_fetch_windows_overlap() {
    let fetcher = HyperliquidHistoricalData::new(String::from("SOL"), String::from("1h"));
    let start: u64 = 100_000_000_000;
    let end: u64 = start + 2 * WINDOW_SPAN_MS;
    let windows = fetcher.fetch_windows(start, end);
    // the budget counts full-limit blocks, so the overlap leaves the
    // schedule two windows here
    assert_eq!(windows.len(), 2);
    assert_eq!(windows[0].0, start);
    assert_eq!(windows[0].1, start + WINDOW_SPAN_MS);
    // the next window backs up by the overlap
    assert_eq!(windows[1].0, windows[0].1 - OVERLAP_MS);
    assert_eq!(windows[1].1, windows[1].0 + WINDOW_SPAN_MS);

    // a short range needs exactly one window
    let one = fetcher.fetch_windows(start, start + 3_600_000);
    assert_eq!(one.len(), 1);
    assert_eq!(one[0], (start, start + 3_600_000));
}

#[test]
fn test_merge_batch_deduplicates() {
    let fetcher = HyperliquidHistoricalData::new(String::from("SOL"), String::from("1h"));
    let mk = |t: u64| HyperCandle {
        t,
        close_t: t + 1,
        s: String::from("SOL"),
        i: String::from("1h"),
        o: 100, c: 100, h: 100, l: 100, v: 0, n: 0,
    };
    let mut acc = vec![mk(1), mk(2), mk(3)];
    let batch = vec![mk(2), mk(3), mk(4), mk(5)];
    fetcher.merge_batch(&mut acc, &batch);
    let ts: Vec<u64> = acc.iter().map(|c| c.t).collect();
    assert_eq!(ts, vec![1, 2, 3, 4, 5]);
}

#[test]
fn test_coinbase_batches() {
    let fetcher = CoinbaseHistoricalData::new();
    assert_eq!(fetcher.granularity, 3600);
    let batches = fetcher.fetch_batches(0, 2 * 300 * 3600 + 10);
    assert_eq!(batches.len(), 3);
    assert_eq!(batches[0], (0, 1_080_000));
    assert_eq!(batches[1], (1_080_000, 2_160_000));
    assert_eq!(batches[2], (2_160_000, 2_160_010));
}

#[test]
fn test_chat_actions() {
    assert_eq!(action_for_callback("start"), ChatAction::StartBot);
    assert_eq!(action_for_callback("stop"), ChatAction::StopBot);
    assert_eq!(action_for_callback("status"), ChatAction::ShowStatus);
    assert_eq!(action_for_callback("positions"), ChatAction::ShowPositions);
    assert_eq!(action_for_callback("menu"), ChatAction::ShowMenu);
    assert_eq!(action_for_callback("other"), ChatAction::Ignore);
    assert_eq!(action_for_text("/start"), ChatAction::ShowMenu);
    assert_eq!(action_for_text("/menu"), ChatAction::ShowMenu);
    assert_eq!(action_for_text("hello"), ChatAction::Ignore);
}
