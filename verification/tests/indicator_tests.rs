use perpbot::indicators::{BollingerBands, RSI, SuperTrend, ADX};
use perpbot::SMOOTH_SCALE;

#[test]
fn test_adx_calculation() {
    let mut adx = ADX::new(14);

    // Warmup: a full Wilder seed needs two periods of candles.
    for i in 0..30 {
        let price: i64 = 100 + i;
        adx.update(price + 1, price - 1, price);
    }

    let result = adx.update(131, 129, 130);
    assert!(result.is_some());
    assert!(result.unwrap() >= 0 && result.unwrap() <= 100 * SMOOTH_SCALE);
}

#[test]
fn test_supertrend() {
    let mut st = SuperTrend::new(10, 300);

    // Prices in tenths so the half-tick offsets of the original series
    // stay on the integer grid.
    for i in 0..15 {
        let price: i64 = 1000 + 10 * i;
        st.update(price + 5, price - 5, price);
    }

    let result = st.update(1155, 1145, 1150);
    assert!(result.is_some());
}

#[test]
fn test_adx_warmup_length() {
    let mut adx = ADX::new(14);
    let mut updates = 0;
    for i in 0..27 {
        let price: i64 = 5000 + 7 * (i % 5);
        let r = adx.update(price + 3, price - 3, price);
        updates += 1;
        assert!(r.is_none(), "no reading before two full periods (update {})", updates);
    }
    let r28 = adx.update(5030, 5010, 5020);
    assert!(r28.is_some(), "a reading from candle 28 on");
    for i in 0..12 {
        let price: i64 = 5000 + 11 * (i % 3);
        let r = adx.update(price + 4, price - 2, price);
        assert!(r.is_some());
        let v = r.unwrap();
        assert!(v >= 0 && v <= 100 * SMOOTH_SCALE);
    }
}

#[test]
fn test_bollinger_middle_is_mean() {
    let mut bb = BollingerBands::new(4, 200);
    assert!(bb.update(100).is_none());
    assert!(bb.update(104).is_none());
    assert!(bb.update(96).is_none());
    let r = bb.update(104).expect("window full");
    // mean of 100, 104, 96, 104 is 101
    assert_eq!(r.1, 101);
    // population variance: (1 + 9 + 25 + 9) / 4 = 11, std = 3
    assert_eq!(r.0, 101 - 2 * 3);
    assert_eq!(r.2, 101 + 2 * 3);

    // a flat window has no width at all
    let mut flat = BollingerBands::new(3, 200);
    flat.update(500);
    flat.update(500);
    let f = flat.update(500).unwrap();
    assert_eq!(f, (500, 500, 500));
}

#[test]
fn test_bollinger_window_slides() {
    let mut bb = BollingerBands::new(2, 200);
    bb.update(10);
    let a = bb.update(20).unwrap();
    assert_eq!(a.1, 15);
    let b = bb.update(40).unwrap();
    // window is now 20, 40
    assert_eq!(b.1, 30);
}

#[test]
fn test_rsi_warmup_and_bounds() {
    let mut rsi = RSI::new(3);
    assert!(rsi.update(100).is_none());
    assert!(rsi.update(101).is_none());
    assert!(rsi.update(102).is_none());
    let first = rsi.update(103).expect("period + 1 closes seen");
    // only gains: reading pins to 100
    assert_eq!(first, 100 * SMOOTH_SCALE);

    let after_drop = rsi.update(90).unwrap();
    assert!(after_drop < 100 * SMOOTH_SCALE);
    assert!(after_drop >= 0);
}

#[test]
fn test_supertrend_flips_on_break() {
    let mut st = SuperTrend::new(2, 100);
    st.update(105, 95, 100);
    let (_line, up) = st.update(106, 96, 101).unwrap();
    assert!(up);
    // a deep close below the trailing line flips the trend down
    let (_line2, up2) = st.update(101, 60, 62).unwrap();
    assert!(!up2);
}

#[test]
fn test_adx_exact_wilder_trace() {
    // The exact fixed-point Wilder recurrence on a known price path.
    let mut adx = ADX::new(3);
    let prices: [i64; 14] = [
        10_000, 10_150, 10_100, 10_300, 10_250, 10_400, 10_600, 10_550, 10_700, 10_650,
        10_800, 11_000, 10_900, 11_100,
    ];
    let expected: [Option<i64>; 14] = [
        None, None, None, None, None,
        Some(63_866_398), Some(70_308_692), Some(65_723_449), Some(68_395_123),
        Some(60_613_736), Some(63_234_185), Some(69_817_191), Some(58_555_119),
        Some(60_321_679),
    ];
    for (k, p) in prices.iter().enumerate() {
        let r = adx.update(p + 50, p - 50, *p);
        assert_eq!(r, expected[k], "reading {} diverges", k + 1);
    }
}
