use perpbot::position::{PositionManager, PositionState, SIZE_SCALE};

#[test]
fn test_sizing_floor_and_cap() {
    // $50 available, 1% risk, 2% stop: a $25 position.
    let mut pm = PositionManager::new(5_000);
    let pos = pm.open_long(10_000, 1, 9_800).expect("opens");
    assert_eq!(pos.position_value, 2_500);
    assert_eq!(pos.stop_loss_pct, 200);

    // 0.1% stop asks for $500: capped at the $50 balance.
    let mut pm2 = PositionManager::new(5_000);
    let pos2 = pm2.open_long(10_000, 1, 9_990).expect("opens");
    assert_eq!(pos2.position_value, 5_000);
    assert_eq!(pm2.bankroll.available_balance, 0);

    // $8 available: floored to the $10 exchange minimum, margin capped
    // at what is there.
    let mut pm3 = PositionManager::new(800);
    let pos3 = pm3.open_long(10_000, 1, 9_800).expect("opens");
    assert_eq!(pos3.position_value, 1_000);
    assert_eq!(pos3.margin, 800);
    assert_eq!(pm3.bankroll.available_balance, 0);
}

#[test]
fn test_close_moves_total_by_pnl() {
    let mut pm = PositionManager::new(100_000);
    let before = pm.bankroll.total_balance;
    let pos = pm.open_long(20_000, 7, 19_000).expect("opens");
    assert_eq!(pos.state, PositionState::Long);

    let trade = pm.close_position(21_000, 9).expect("closes");
    // long profit: (21000 - 20000) * size / SIZE_SCALE
    let expected = ((21_000i128 - 20_000) * pos.position_size / SIZE_SCALE as i128) as i64;
    assert_eq!(trade.profit_loss, expected);
    assert_eq!(pm.bankroll.total_balance - before, trade.profit_loss);
    assert!(pm.position.is_none());
    assert_eq!(pm.closed_trades.len(), 1);
    assert_eq!(pm.trade_timestamps, vec![9]);
}

#[test]
fn test_double_open_rejected() {
    let mut pm = PositionManager::new(50_000);
    assert!(pm.open_long(10_000, 1, 9_500).is_some());
    assert!(pm.open_long(10_000, 2, 9_500).is_none());
    assert!(pm.open_short(10_000, 3, 10_500).is_none());
    pm.close_position(10_000, 4);
    assert!(pm.open_short(10_000, 5, 10_500).is_some());
}

#[test]
fn test_kill_switch_frequency() {
    let mut pm = PositionManager::new(1_000_000);
    let base: u64 = 1_700_000_000;
    // four exits within ten minutes
    for k in 0..4u64 {
        let t = base + 150 * k;
        assert!(pm.open_long(10_000, t, 9_500).is_some());
        assert!(pm.close_position(10_050, t + 10).is_some());
    }
    // the next entry attempt must be blocked
    let r = pm.check_safety_limits_at(base + 650, 10_000, 3);
    assert!(r.is_err());

    // an hour later the window has drained
    let r2 = pm.check_safety_limits_at(base + 10_000, 10_000, 3);
    assert!(r2.is_ok());
    assert!(pm.trade_timestamps.is_empty());
}

#[test]
fn test_kill_switch_drawdown() {
    let mut pm = PositionManager::new(100_000);
    pm.open_long(10_000, 1, 9_000);
    // close far below the stop: a heavy loss
    pm.close_position(1_000, 2);
    // more than 5% down from the session's initial balance
    let r = pm.check_safety_limits_at(10_000, 500, 100);
    assert!(r.is_err());
}

#[test]
fn test_sync_position_recovery() {
    let mut pm = PositionManager::new(10_000);
    pm.sync_position_at("SOL", 2_000_000, 15_000, "Long", 123);
    let pos = pm.position.expect("synced");
    assert_eq!(pos.state, PositionState::Long);
    assert_eq!(pos.entry_price, 15_000);
    assert_eq!(pos.position_size, 2_000_000);
    assert_eq!(pos.stop_loss_price, 15_000 * 95 / 100);
    assert_eq!(pos.margin, 0);

    let mut pm2 = PositionManager::new(10_000);
    pm2.sync_position_at("SOL", -2_000_000, 15_000, "Short", 124);
    let pos2 = pm2.position.expect("synced");
    assert_eq!(pos2.state, PositionState::Short);
    assert_eq!(pos2.position_size, 2_000_000);
    assert_eq!(pos2.stop_loss_price, 15_000 * 105 / 100);
}

#[test]
fn test_unrealized_pnl_update() {
    let mut pm = PositionManager::new(100_000);
    let pos = pm.open_short(10_000, 1, 10_400).expect("opens");
    pm.update_current_pnl(9_000);
    let held = pm.position.expect("still open");
    let expected = ((10_000i128 - 9_000) * pos.position_size / SIZE_SCALE as i128) as i64;
    assert_eq!(held.unrealized_pnl, expected);
    assert_eq!(held.unrealized_pnl_pct, 1_000);
}

#[test]
fn test_stats_aggregation() {
    let mut pm = PositionManager::new(100_000);
    pm.open_long(10_000, 1, 9_500);
    pm.close_position(11_000, 2);
    pm.open_long(10_000, 3, 9_500);
    pm.close_position(9_000, 4);
    let stats = pm.get_stats();
    assert_eq!(stats.total_trades, 2);
    assert_eq!(stats.winning_trades, 1);
    assert_eq!(stats.losing_trades, 1);
    assert_eq!(stats.win_rate, 5_000);
    assert_eq!(stats.current_balance, pm.bankroll.total_balance);
    assert_eq!(stats.initial_balance, stats.current_balance - stats.total_profit);
}
