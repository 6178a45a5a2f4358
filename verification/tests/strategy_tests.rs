use perpbot::strategy::{AdaptiveConfig, AdaptiveStrategy, MarketRegime, PositionType, Signal};

fn default_config() -> AdaptiveConfig {
    AdaptiveConfig::default()
}

#[test]
fn test_bollinger_touch_and_exit_path() {
    let mut strategy = AdaptiveStrategy::new(default_config());

    // Flat warmup: all kernels emit after two ADX periods.
    for _ in 0..30 {
        let s = strategy.update(10_000, 10_000, 10_000);
        assert_eq!(s, Signal::Hold);
        assert_eq!(strategy.get_position_type(), PositionType::Flat);
    }
    assert_eq!(strategy.get_regime(), MarketRegime::Ranging);

    // A close below the lower band while ranging opens a range long.
    let entry = strategy.update(10_100, 9_400, 9_500);
    assert_eq!(entry, Signal::BuyRange);
    assert_eq!(strategy.get_position_type(), PositionType::LongRange);

    // The next candle's high touches the middle band: exit.
    let exit = strategy.update(10_100, 9_900, 10_000);
    assert_eq!(exit, Signal::SellRange);
    assert_eq!(strategy.get_position_type(), PositionType::Flat);
}

#[test]
fn test_intra_candle_probe_and_force_exit() {
    let mut strategy = AdaptiveStrategy::new(default_config());
    for _ in 0..30 {
        strategy.update(10_000, 10_000, 10_000);
    }
    let entry = strategy.update(10_100, 9_400, 9_500);
    assert_eq!(entry, Signal::BuyRange);

    // While flat below the middle band nothing fires.
    assert_eq!(strategy.check_exit_condition(9_600, 9_500, 9_550), None);

    // A high at the middle band asks for the range exit.
    let bands = strategy.get_bollinger_bands().expect("bands emitted");
    let middle = bands.1;
    assert_eq!(strategy.check_exit_condition(middle, 9_500, 9_550), Some(Signal::SellRange));

    // The probe does not move state; force_exit does.
    assert_eq!(strategy.get_position_type(), PositionType::LongRange);
    strategy.force_exit();
    assert_eq!(strategy.get_position_type(), PositionType::Flat);
}

#[test]
fn test_hold_until_warm() {
    let mut strategy = AdaptiveStrategy::new(default_config());
    for i in 0..27 {
        let p: i64 = 10_000 + (i % 7);
        let s = strategy.update(p + 5, p - 5, p);
        assert_eq!(s, Signal::Hold, "no signal while kernels warm up");
    }
}

#[test]
fn test_force_position_type() {
    let mut strategy = AdaptiveStrategy::new(default_config());
    strategy.force_position_type(PositionType::ShortTrend);
    assert_eq!(strategy.get_position_type(), PositionType::ShortTrend);
    strategy.reset();
    assert_eq!(strategy.get_position_type(), PositionType::Flat);
    assert_eq!(strategy.get_regime(), MarketRegime::Ranging);
}
