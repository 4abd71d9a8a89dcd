use trading_common::aggregator::KlineAggregator;
use trading_common::decimal::Dec;
use trading_common::types::{OHLCData, Timeframe};

fn dec(s: &str) -> Dec {
    Dec::parse(s).unwrap()
}

fn create_kline_1m(timestamp_mins: i64, open: &str, high: &str, low: &str, close: &str, volume: &str) -> OHLCData {
    OHLCData::new(
        timestamp_mins * 60_000,
        "BTCUSDT".to_string(),
        Timeframe::OneMinute,
        dec(open),
        dec(high),
        dec(low),
        dec(close),
        dec(volume),
        10,
    )
}

fn create_test_kline_1m(timestamp: i64, close: Dec) -> OHLCData {
    OHLCData::new(
        timestamp,
        "BTCUSDT".to_string(),
        Timeframe::OneMinute,
        close.sub(Dec::from_int(10)),
        close.add(Dec::from_int(10)),
        close.sub(Dec::from_int(20)),
        close,
        Dec::from_int(100),
        10,
    )
}

#[test]
fn test_aggregate_5m() {
    let mut aggregator = KlineAggregator::new();
    let base_time = chrono::Utc::now().timestamp_millis();
    let aligned = Timeframe::FiveMinutes.align_timestamp(base_time);
    for i in 0..5 {
        let timestamp = aligned + i * 60_000;
        aggregator.update(create_test_kline_1m(timestamp, Dec::from_int(100 + i * 10)));
    }
    let klines_5m = aggregator.get_klines(Timeframe::FiveMinutes, 10);
    assert_eq!(klines_5m.len(), 1);
    let candle = &klines_5m[0];
    assert!(candle.open.eq_value(&Dec::from_int(90)));
    assert!(candle.high.eq_value(&Dec::from_int(150)));
    assert!(candle.low.eq_value(&Dec::from_int(80)));
    assert!(candle.close.eq_value(&Dec::from_int(140)));
}

#[test]
fn test_aggregate_multiple_windows() {
    let mut aggregator = KlineAggregator::new();
    let base_time = chrono::Utc::now().timestamp_millis();
    let aligned = Timeframe::FiveMinutes.align_timestamp(base_time);
    for i in 0..3 {
        aggregator.update(create_test_kline_1m(aligned + i * 60_000, Dec::from_int(100 + i * 10)));
    }
    for i in 0..2 {
        aggregator.update(create_test_kline_1m(aligned + (5 + i) * 60_000, Dec::from_int(200 + i * 10)));
    }
    let klines_5m = aggregator.get_klines(Timeframe::FiveMinutes, 10);
    assert_eq!(klines_5m.len(), 2);
}

#[test]
fn test_aggregator_initialization() {
    let aggregator = KlineAggregator::new();
    assert_eq!(aggregator.count(Timeframe::FiveMinutes), 0);
    assert_eq!(aggregator.count(Timeframe::OneHour), 0);
    assert!(aggregator.get_klines_1m(10).is_empty());
}

#[test]
fn test_aggregator_default() {
    let aggregator = KlineAggregator::default();
    assert_eq!(aggregator.count(Timeframe::FiveMinutes), 0);
}

#[test]
fn test_store_1m_klines() {
    let mut aggregator = KlineAggregator::new();
    for i in 0..10 {
        aggregator.update(create_kline_1m(i, "50000", "50100", "49900", "50050", "100"));
    }
    assert_eq!(aggregator.get_klines_1m(100).len(), 10);
}

#[test]
fn test_get_1m_klines_limit() {
    let mut aggregator = KlineAggregator::new();
    for i in 0..100 {
        aggregator.update(create_kline_1m(i, "50000", "50100", "49900", "50050", "100"));
    }
    assert_eq!(aggregator.get_klines_1m(10).len(), 10);
}

#[test]
fn test_5m_aggregation_basic() {
    let mut aggregator = KlineAggregator::new();
    for i in 0..5 {
        aggregator.update(create_kline_1m(i, "50000", "50100", "49900", "50050", "100"));
    }
    let klines_5m = aggregator.get_klines(Timeframe::FiveMinutes, 10);
    assert_eq!(klines_5m.len(), 1);
    let candle = &klines_5m[0];
    assert!(candle.open.eq_value(&Dec::from_int(50000)));
    assert!(candle.high.eq_value(&Dec::from_int(50100)));
    assert!(candle.low.eq_value(&Dec::from_int(49900)));
    assert!(candle.close.eq_value(&Dec::from_int(50050)));
    assert!(candle.volume.eq_value(&Dec::from_int(500)));
}

#[test]
fn test_5m_aggregation_window_boundary() {
    let mut aggregator = KlineAggregator::new();
    for i in 0..5 {
        aggregator.update(create_kline_1m(i, "50000", "50100", "49900", "50050", "100"));
    }
    for i in 5..10 {
        aggregator.update(create_kline_1m(i, "50100", "50200", "50000", "50150", "120"));
    }
    let klines_5m = aggregator.get_klines(Timeframe::FiveMinutes, 10);
    assert_eq!(klines_5m.len(), 2);
    let first = &klines_5m[0];
    assert!(first.open.eq_value(&Dec::from_int(50000)));
    assert!(first.close.eq_value(&Dec::from_int(50050)));
}

#[test]
fn test_15m_aggregation() {
    let mut aggregator = KlineAggregator::new();
    for i in 0..15 {
        aggregator.update(create_kline_1m(i, "50000", "50100", "49900", "50050", "100"));
    }
    let klines_15m = aggregator.get_klines(Timeframe::FifteenMinutes, 10);
    assert_eq!(klines_15m.len(), 1);
    assert!(klines_15m[0].volume.eq_value(&Dec::from_int(1500)));
}

#[test]
fn test_1h_aggregation() {
    let mut aggregator = KlineAggregator::new();
    for i in 0..60 {
        aggregator.update(create_kline_1m(i, "50000", "50100", "49900", "50050", "100"));
    }
    let klines_1h = aggregator.get_klines(Timeframe::OneHour, 10);
    assert_eq!(klines_1h.len(), 1);
    assert!(klines_1h[0].volume.eq_value(&Dec::from_int(6000)));
}

#[test]
fn test_multiple_timeframes() {
    let mut aggregator = KlineAggregator::new();
    for i in 0..60 {
        aggregator.update(create_kline_1m(i, "50000", "50100", "49900", "50050", "100"));
    }
    let all_timeframes = aggregator.get_all_timeframes();
    assert_eq!(all_timeframes.len(), 7);
    let has = |tf: Timeframe| all_timeframes.iter().any(|(t, _)| *t == tf);
    assert!(has(Timeframe::OneMinute));
    assert!(has(Timeframe::FiveMinutes));
    assert!(has(Timeframe::FifteenMinutes));
    assert!(has(Timeframe::ThirtyMinutes));
    assert!(has(Timeframe::OneHour));
    assert!(has(Timeframe::FourHour));
    assert!(has(Timeframe::OneDay));
}

#[test]
fn test_high_low_aggregation() {
    let mut aggregator = KlineAggregator::new();
    let klines = vec![
        create_kline_1m(0, "50000", "50200", "49800", "50100", "100"),
        create_kline_1m(1, "50100", "50300", "49900", "50200", "120"),
        create_kline_1m(2, "50200", "50400", "50000", "50300", "80"),
        create_kline_1m(3, "50300", "50500", "50100", "50400", "150"),
        create_kline_1m(4, "50400", "50600", "50200", "50500", "90"),
    ];
    for kline in klines {
        aggregator.update(kline);
    }
    let klines_5m = aggregator.get_klines(Timeframe::FiveMinutes, 10);
    let candle = &klines_5m[0];
    assert!(candle.high.eq_value(&Dec::from_int(50600)));
    assert!(candle.low.eq_value(&Dec::from_int(49800)));
    assert!(candle.open.eq_value(&Dec::from_int(50000)));
    assert!(candle.close.eq_value(&Dec::from_int(50500)));
}

#[test]
fn test_clear() {
    let mut aggregator = KlineAggregator::new();
    for i in 0..10 {
        aggregator.update(create_kline_1m(i, "50000", "50100", "49900", "50050", "100"));
    }
    aggregator.clear();
    assert_eq!(aggregator.count(Timeframe::FiveMinutes), 0);
    assert!(aggregator.get_klines_1m(10).is_empty());
}

#[test]
fn test_empty_aggregation() {
    let aggregator = KlineAggregator::new();
    assert!(aggregator.get_klines(Timeframe::FiveMinutes, 10).is_empty());
}

#[test]
fn test_single_kline() {
    let mut aggregator = KlineAggregator::new();
    aggregator.update(create_kline_1m(0, "50000", "50100", "49900", "50050", "100"));
    assert_eq!(aggregator.get_klines(Timeframe::FiveMinutes, 10).len(), 1);
}

#[test]
fn test_ohlc_data_creation() {
    let kline = OHLCData::new(
        chrono::Utc::now().timestamp_millis(),
        "BTCUSDT".to_string(),
        Timeframe::OneMinute,
        Dec::from_int(50000),
        Dec::from_int(50100),
        Dec::from_int(49900),
        Dec::from_int(50050),
        Dec::from_int(100),
        10,
    );
    assert_eq!(kline.symbol, "BTCUSDT");
    assert_eq!(kline.timeframe, Timeframe::OneMinute);
    assert!(kline.open.eq_value(&Dec::from_int(50000)));
    assert!(kline.high.eq_value(&Dec::from_int(50100)));
    assert!(kline.low.eq_value(&Dec::from_int(49900)));
    assert!(kline.close.eq_value(&Dec::from_int(50050)));
    assert!(kline.volume.eq_value(&Dec::from_int(100)));
    assert_eq!(kline.trade_count, 10);
}

#[test]
fn test_timeframe_alignment() {
    let timestamp = 300_000;
    assert_eq!(Timeframe::FiveMinutes.align_timestamp(timestamp), timestamp);
    let timestamp = 330_000;
    assert_eq!(Timeframe::FiveMinutes.align_timestamp(timestamp), 300_000);
}

#[test]
fn test_batch_update_performance() {
    let mut aggregator = KlineAggregator::new();
    for i in 0..1000 {
        aggregator.update(create_kline_1m(i, "50000", "50100", "49900", "50050", "100"));
    }
    assert_eq!(aggregator.get_klines_1m(1000).len(), 1000);
    assert!(aggregator.get_klines(Timeframe::FiveMinutes, 100).len() > 0);
}

// Alignment of the longer timeframes, one exact value each.
#[test]
fn alignment_of_days_weeks_and_three_days() {
    // 2024-01-03T13:45:00Z
    let ts = 1_704_289_500_000;
    assert_eq!(Timeframe::OneDay.align_timestamp(ts), 1_704_240_000_000);
    // The Monday of that week: 2024-01-01T00:00:00Z.
    assert_eq!(Timeframe::OneWeek.align_timestamp(ts), 1_704_067_200_000);
    // Day 3 of the month falls in the window starting on the 1st.
    assert_eq!(Timeframe::ThreeDay.align_timestamp(ts), 1_704_067_200_000);
    assert_eq!(Timeframe::FourHour.align_timestamp(ts), 1_704_283_200_000);
}
