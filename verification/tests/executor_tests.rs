use perpbot::executor::{OrderExecutor, OrderSimulator};

#[test]
fn test_simulated_market_order_slippage() {
    let mut sim = OrderSimulator::new();
    let buy = sim.market_order(true, 1_000_000, 10_000, 77);
    assert_eq!(buy.order_id, 1);
    assert_eq!(buy.execution_price, 10_001);
    assert_eq!(buy.side, "BUY");
    assert_eq!(buy.status, "FILLED");
    assert_eq!(buy.timestamp, 77);

    let sell = sim.market_order(false, 1_000_000, 10_000, 78);
    assert_eq!(sell.order_id, 2);
    assert_eq!(sell.execution_price, 9_999);
    assert_eq!(sell.side, "SELL");
}

#[test]
fn test_simulated_limit_order_fill_rule() {
    let mut sim = OrderSimulator::new();
    // a buy fills only when the market is at or below the limit
    assert!(sim.limit_order(true, 1, 10_000, 10_050, 1).is_none());
    let filled = sim.limit_order(true, 1, 10_000, 9_990, 2).expect("fills");
    assert_eq!(filled.execution_price, 10_000);
    // a sell fills only when the market is at or above the limit
    assert!(sim.limit_order(false, 1, 10_000, 9_990, 3).is_none());
    assert!(sim.limit_order(false, 1, 10_000, 10_010, 4).is_some());
}

#[test]
fn test_executor_wraps_simulator() {
    let mut ex = OrderExecutor::new();
    assert_eq!(ex.market_order(true, 500_000, 20_000), Ok(1));
    assert_eq!(ex.close_position(500_000, true, 20_100), Ok(2));
    assert!(ex.limit_order(true, 500_000, 19_000, 20_000).is_err());
    assert_eq!(ex.limit_order(true, 500_000, 21_000, 20_000), Ok(3));
}
