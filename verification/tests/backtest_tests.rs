use trading_common::decimal::Dec;
use trading_common::engine::{BacktestConfig, RiskMetrics, RiskMetricsSource};
use trading_common::indicators::{calculate_ema, calculate_macd, calculate_rsi};
use trading_common::market_state::MarketStateAnalyzer;
use trading_common::mtf_engine::MultiTimeframeBacktestEngine;
use trading_common::multi_symbol::MultiSymbolBacktestEngine;
use trading_common::portfolio::Trade;
use trading_common::strategy::{create_multi_timeframe_strategy, MultiTimeframeStrategy};
use trading_common::trend_strategy::TrendStrategy;
use trading_common::types::{OHLCData, Timeframe};
use trading_common::walk_forward::{out_of_sample_split, OutOfSampleConfig, WalkForwardConfig, WalkForwardEngine};

/// Risk figures of zero: the figures themselves are computed elsewhere.
struct ZeroMetrics;

impl RiskMetricsSource for ZeroMetrics {
    fn compute(&self, _equity_curve: &Vec<Dec>, _trades: &Vec<Trade>) -> RiskMetrics {
        RiskMetrics {
            max_drawdown: Dec::zero(),
            sharpe_ratio: Dec::zero(),
            volatility: Dec::zero(),
            win_rate: Dec::zero(),
            profit_factor: Dec::zero(),
        }
    }
}

fn d(n: i64) -> Dec {
    Dec::from_int(n)
}

fn base_time() -> i64 {
    chrono::Utc::now().timestamp_millis()
}

fn create_test_klines_1m(count: usize, start_price: Dec, trend: &str) -> Vec<OHLCData> {
    let base = base_time();
    let mut klines = Vec::new();
    for i in 0..count {
        let step = d(i as i64 * 10);
        let price = match trend {
            "up" => start_price.add(step),
            "down" => start_price.sub(step),
            _ => start_price,
        };
        klines.push(OHLCData::new(
            base + i as i64 * 60_000,
            "BTCUSDT".to_string(),
            Timeframe::OneMinute,
            price.sub(d(5)),
            price.add(d(10)),
            price.sub(d(15)),
            price,
            d(100),
            10,
        ));
    }
    klines
}

// ---------- multi-timeframe engine ----------

#[test]
fn test_multi_timeframe_backtest_engine_creation() {
    let strategy = create_multi_timeframe_strategy("trend").unwrap();
    let config = BacktestConfig::new(d(10000));
    let engine = MultiTimeframeBacktestEngine::new(strategy, config, "BTCUSDT".to_string()).unwrap();
    assert_eq!(engine.symbol, "BTCUSDT");
    assert!(engine.portfolio.initial_capital.eq_value(&d(10000)));
}

#[test]
fn test_multi_timeframe_backtest_engine_run() {
    let strategy = create_multi_timeframe_strategy("trend").unwrap();
    let config = BacktestConfig::new(d(10000));
    let mut engine = MultiTimeframeBacktestEngine::new(strategy, config, "BTCUSDT".to_string()).unwrap();
    let klines = create_test_klines_1m(500, d(50000), "up");
    let result = engine.run(klines, &ZeroMetrics).unwrap();
    assert!(result.initial_capital.eq_value(&d(10000)));
    assert_eq!(result.strategy_name, "Multi-Timeframe Trend");
}

// ---------- walk-forward ----------

#[test]
fn test_walk_forward_insufficient_data() {
    let klines = create_test_klines_1m(100, d(50000), "up");
    let config = BacktestConfig::new(d(10000));
    let wf_config = WalkForwardConfig::default();
    let result = WalkForwardEngine::run(&|| create_multi_timeframe_strategy("trend").unwrap(), &config, &wf_config, &klines, "BTCUSDT", &ZeroMetrics)
        .unwrap();
    assert!(result.is_err());
    assert!(result.err().unwrap().contains("Insufficient data"));
}

#[test]
fn test_out_of_sample_insufficient_data() {
    let klines = create_test_klines_1m(100, d(50000), "up");
    let config = BacktestConfig::new(d(10000));
    let os_config = OutOfSampleConfig::default();
    let result = WalkForwardEngine::run_out_of_sample(
        &|| create_multi_timeframe_strategy("trend").unwrap(),
        &config,
        &os_config,
        &klines,
        "BTCUSDT",
        &ZeroMetrics,
    )
    .unwrap();
    assert!(result.is_err());
}

#[test]
fn test_overfit_ratio_calculation() {
    let ratio = WalkForwardEngine::calculate_overfit_ratio(d(2), d(0));
    assert!(ratio.eq_value(&d(1)));
    let ratio = WalkForwardEngine::calculate_overfit_ratio(d(1), d(1));
    assert!(ratio.eq_value(&Dec::zero()));
    let ratio = WalkForwardEngine::calculate_overfit_ratio(d(1), d(2));
    assert!(ratio.eq_value(&Dec::zero()));
}

#[test]
fn walk_forward_insufficient_data_message() {
    let klines = create_test_klines_1m(100, d(50000), "up");
    let config = BacktestConfig::new(d(10000));
    let wf_config = WalkForwardConfig::default().with_train_candles(80).with_test_candles(40);
    let result = WalkForwardEngine::run(&|| create_multi_timeframe_strategy("trend").unwrap(), &config, &wf_config, &klines, "BTCUSDT", &ZeroMetrics)
        .unwrap();
    assert_eq!(result.err().unwrap(), "Insufficient data: need 120 candles, have 100");
}

// ---------- market state ----------

fn create_state_klines(count: usize, trend: &str) -> Vec<OHLCData> {
    let base = base_time();
    let base_price = d(50000);
    let mut klines = Vec::new();
    for i in 0..count {
        let i_dec = d(i as i64);
        let (open, close) = match trend {
            "up" => (base_price.add(i_dec.mul(d(10))), base_price.add(i_dec.mul(d(10))).add(d(5))),
            "down" => (base_price.sub(i_dec.mul(d(10))), base_price.sub(i_dec.mul(d(10))).sub(d(5))),
            _ => (base_price, base_price.add(if i % 2 == 0 { d(5) } else { d(-5) })),
        };
        klines.push(OHLCData::new(
            base + i as i64 * 60_000,
            "BTCUSDT".to_string(),
            Timeframe::OneMinute,
            open,
            open.max(close).add(d(10)),
            open.min(close).sub(d(10)),
            close,
            d(100),
            10,
        ));
    }
    klines
}

#[test]
fn test_market_state_analyze_insufficient() {
    let klines = create_state_klines(5, "up");
    let report = MarketStateAnalyzer::analyze(&klines, 20);
    assert_eq!(report.total_candles, 5);
    assert!(report.summary.contains("Insufficient"));
}

#[test]
fn test_market_state_analyze_uptrend() {
    let klines = create_state_klines(200, "up");
    let report = MarketStateAnalyzer::analyze(&klines, 50);
    assert!(report.total_candles > 0);
    assert!(!report.state_percentages.is_empty());
}

#[test]
fn test_market_state_analyze_ranging() {
    let klines = create_state_klines(200, "flat");
    let report = MarketStateAnalyzer::analyze(&klines, 50);
    assert!(report.total_candles > 0);
}

#[test]
fn market_state_windows_and_distribution() {
    let klines = create_state_klines(200, "up");
    let report = MarketStateAnalyzer::analyze(&klines, 50);
    assert_eq!(report.total_candles, 200);
    assert_eq!(report.analysis_window, 50);
    // Windows start every half window: 0, 25, ..., 150.
    let windows: usize = report.state_distribution.iter().map(|(_, n)| *n).sum();
    assert_eq!(windows, 7);
}

// ---------- multi-symbol ----------

fn create_symbol_klines(count: usize, trend: &str) -> Vec<OHLCData> {
    let base = base_time();
    let mut klines = Vec::new();
    for i in 0..count {
        let price = match trend {
            "up" => d(50000 + i as i64 * 10),
            _ => d(50000),
        };
        klines.push(OHLCData::new(
            base + i as i64 * 60_000,
            "BTCUSDT".to_string(),
            Timeframe::OneMinute,
            price.sub(d(5)),
            price.add(d(10)),
            price.sub(d(15)),
            price,
            d(100),
            10,
        ));
    }
    klines
}

#[test]
fn test_multi_symbol_empty() {
    let config = BacktestConfig::new(d(10000));
    let symbol_data: Vec<(String, Vec<OHLCData>)> = Vec::new();
    let result = MultiSymbolBacktestEngine::run(&|| create_multi_timeframe_strategy("trend").unwrap(), &config, &symbol_data, 50, &ZeroMetrics)
        .unwrap();
    assert!(result.is_err());
}

#[test]
fn test_multi_symbol_single() {
    let config = BacktestConfig::new(d(10000));
    let symbol_data = vec![("BTCUSDT".to_string(), create_symbol_klines(500, "up"))];
    let result = MultiSymbolBacktestEngine::run(&|| create_multi_timeframe_strategy("trend").unwrap(), &config, &symbol_data, 50, &ZeroMetrics)
        .unwrap();
    assert!(result.is_ok());
    let r = result.ok().unwrap();
    assert_eq!(r.total_symbols, 1);
}

// ---------- indicators and the trend strategy ----------

#[test]
fn test_ema_calculation() {
    let prices = vec![d(10), d(11), d(12), d(11), d(13)];
    let ema = calculate_ema(&prices, 3);
    assert!(!ema.is_empty());
    let expected_first = d(10).add(d(11)).add(d(12)).div(d(3));
    assert!(ema[0].eq_value(&expected_first));
}

#[test]
fn multi_timeframe_test_rsi_calculation() {
    let prices: Vec<Dec> = [
        "44", "44.34", "44.09", "43.61", "44.33", "44.83", "45.10", "45.42", "45.84", "46.08", "45.89", "46.03",
        "45.61", "46.28", "46.28", "46.00", "46.03", "46.41", "46.22", "45.64",
    ]
    .iter()
    .map(|s| Dec::parse(s).unwrap())
    .collect();
    let rsi = calculate_rsi(&prices, 14);
    assert!(rsi[rsi.len() - 1].is_some());
}

#[test]
fn multi_timeframe_test_macd_calculation() {
    let prices = vec![d(10), d(11), d(12), d(11), d(13), d(14), d(12), d(15)];
    let (macd, signal, histogram) = calculate_macd(&prices, 3, 5, 2);
    assert!(!macd.is_empty());
    assert!(!signal.is_empty());
    assert!(!histogram.is_empty());
}

fn create_hourly_klines(count: usize, start_price: Dec, trend: &str) -> Vec<OHLCData> {
    let base = base_time();
    let mut klines = Vec::new();
    for i in 0..count {
        let step = d(i as i64 * 10);
        let price = match trend {
            "up" => start_price.add(step),
            "down" => start_price.sub(step),
            _ => start_price,
        };
        klines.push(OHLCData::new(
            base + i as i64 * 3_600_000,
            "BTCUSDT".to_string(),
            Timeframe::OneHour,
            price.sub(d(5)),
            price.add(d(10)),
            price.sub(d(15)),
            price,
            d(100),
            10,
        ));
    }
    klines
}

#[test]
fn test_trend_strategy_analyze() {
    let mut strategy = TrendStrategy::new();
    let klines = vec![
        (Timeframe::FourHour, create_hourly_klines(60, d(1000), "up")),
        (Timeframe::OneHour, create_hourly_klines(60, d(1000), "up")),
        (Timeframe::FifteenMinutes, create_hourly_klines(60, d(1000), "up")),
    ];
    let analysis = strategy.analyze(&klines).unwrap();
    assert!(analysis.overall_confidence.gt(&Dec::zero()));
}

#[test]
fn test_trend_strategy_name() {
    let strategy = TrendStrategy::new();
    assert_eq!(strategy.name(), "Multi-Timeframe Trend");
}

#[test]
fn test_required_timeframes() {
    let strategy = TrendStrategy::new();
    let timeframes = strategy.required_timeframes();
    assert_eq!(timeframes.len(), 3);
    assert!(timeframes.contains(&Timeframe::FourHour));
    assert!(timeframes.contains(&Timeframe::OneHour));
    assert!(timeframes.contains(&Timeframe::FifteenMinutes));
}

#[test]
fn test_trend_strategy_initialize_params() {
    let mut strategy = TrendStrategy::new();
    let params = vec![
        ("ema_fast".to_string(), "8".to_string()),
        ("rsi_period".to_string(), "21".to_string()),
        ("min_confidence".to_string(), "0.75".to_string()),
    ];
    assert!(strategy.initialize(&params).is_ok());
    assert_eq!(strategy.ema_fast_period, 8);
    assert_eq!(strategy.rsi_period, 21);
    assert!(strategy.min_confidence.eq_value(&Dec::parse("0.75").unwrap()));
}

#[test]
fn test_trend_strategy_initialize_invalid() {
    let mut strategy = TrendStrategy::new();
    let slow_before = strategy.ema_slow_period;
    let params = vec![
        ("ema_fast".to_string(), "12".to_string()),
        ("ema_slow".to_string(), "slow".to_string()),
    ];
    assert_eq!(strategy.initialize(&params).unwrap_err(), "Invalid ema_slow");
    assert_eq!(strategy.ema_fast_period, 12);
    assert_eq!(strategy.ema_slow_period, slow_before);
}

#[test]
fn test_out_of_sample_split_point() {
    let cfg = OutOfSampleConfig::default();
    assert_eq!(out_of_sample_split(1000, &cfg).unwrap(), 700);
    assert_eq!(out_of_sample_split(1234, &cfg).unwrap(), 863);
    assert_eq!(out_of_sample_split(999, &cfg).unwrap_err(), "Insufficient data: need at least 1000 candles");
}

// ---------- contracts on concrete values ----------

/// A strategy that never trades.
struct Holder;

impl trading_common::strategy::Strategy for Holder {
    fn name(&self) -> String {
        "Holder".to_string()
    }
    fn tick_signal(&self, _tick: trading_common::types::TickData) -> trading_common::strategy::Signal {
        trading_common::strategy::Signal::Hold
    }
    fn after_tick(&self, _tick: trading_common::types::TickData) -> Holder {
        Holder
    }
    fn bar_signal(&self, _bar: OHLCData) -> trading_common::strategy::Signal {
        trading_common::strategy::Signal::Hold
    }
    fn after_bar(&self, _bar: OHLCData) -> Holder {
        Holder
    }
    fn on_tick(&mut self, _tick: &trading_common::types::TickData) -> trading_common::strategy::Signal {
        trading_common::strategy::Signal::Hold
    }
    fn initialized_as(&self, _params: Vec<(String, String)>) -> (Holder, Result<(), String>) {
        (Holder, Ok(()))
    }
    fn initialize(&mut self, _params: &Vec<(String, String)>) -> Result<(), String> {
        Ok(())
    }
    fn after_reset(&self) -> Holder {
        Holder
    }
    fn reset(&mut self) {}
    fn on_ohlc(&mut self, _ohlc: &OHLCData) -> trading_common::strategy::Signal {
        trading_common::strategy::Signal::Hold
    }
    fn supports_ohlc(&self) -> bool {
        true
    }
    fn preferred_timeframe(&self) -> Option<Timeframe> {
        None
    }
}

#[test]
fn holding_backtest_keeps_the_capital() {
    let config = BacktestConfig::new(d(10000));
    let mut engine = trading_common::engine::BacktestEngine::new(Holder, config).unwrap();
    let bars = create_test_klines_1m(30, d(50000), "up");
    let r = engine.run_with_ohlc(bars, &ZeroMetrics).unwrap();
    assert!(r.trades.is_empty());
    assert_eq!(r.total_trades, 0);
    assert!(r.positions.is_empty());
    assert!(r.final_value.eq_value(&d(10000)));
    assert!(r.total_pnl.eq_value(&Dec::zero()));
    assert!(r.return_percentage.eq_value(&Dec::zero()));
    assert!(r.total_commission.eq_value(&Dec::zero()));
    assert_eq!(r.equity_curve.len(), 1);
    assert!(r.equity_curve[0].eq_value(&d(10000)));
}

#[test]
fn mtf_run_without_enough_bars_trades_nothing() {
    let config = BacktestConfig::new(d(10000));
    let mut engine = MultiTimeframeBacktestEngine::new(create_multi_timeframe_strategy("trend").unwrap(), config, "BTCUSDT".to_string()).unwrap();
    let klines = create_test_klines_1m(500, d(50000), "up");
    let result = engine.run(klines, &ZeroMetrics).unwrap();
    assert_eq!(result.total_trades, 0);
    assert!(result.final_value.eq_value(&d(10000)));
    assert_eq!(result.equity_curve.len(), 1);
}

#[test]
fn multi_symbol_single_names_its_symbol() {
    let config = BacktestConfig::new(d(10000));
    let symbol_data = vec![("BTCUSDT".to_string(), create_symbol_klines(500, "up"))];
    let r = MultiSymbolBacktestEngine::run(&|| create_multi_timeframe_strategy("trend").unwrap(), &config, &symbol_data, 50, &ZeroMetrics)
        .unwrap()
        .ok()
        .unwrap();
    assert_eq!(r.results.len(), 1);
    assert_eq!(r.profitable_symbols + r.losing_symbols, 1);
    assert_eq!(r.results[0].symbol, "BTCUSDT");
    assert_eq!(r.best_symbol, "BTCUSDT");
    assert_eq!(r.worst_symbol, "BTCUSDT");
}

#[test]
fn overfit_ratio_with_negative_training_sharpe() {
    // (train - test) / max(train, 0.01) = (-1 - -3) / 0.01
    let ratio = WalkForwardEngine::calculate_overfit_ratio(d(-1), d(-3));
    assert!(ratio.eq_value(&d(200)));
}

#[test]
fn unknown_multi_timeframe_strategy_is_refused() {
    let r = create_multi_timeframe_strategy("nope");
    assert_eq!(r.err().unwrap(), "Unknown multi-timeframe strategy: nope");
}

#[test]
fn trend_multi_timeframe_strategy_is_built() {
    let s = create_multi_timeframe_strategy("trend").unwrap();
    assert_eq!(s.name(), "Multi-Timeframe Trend");
    assert_eq!(s.ema_fast_period, 20);
}

#[test]
fn period_returns_skip_non_positive_bases() {
    let curve = vec![d(100), d(110), d(0), d(50), d(55)];
    let r = trading_common::equity::period_returns(&curve).unwrap();
    assert_eq!(r.len(), 3);
    assert!(r[0].eq_value(&Dec::new(1, 1)));
    assert!(r[1].eq_value(&d(-1)));
    assert!(r[2].eq_value(&Dec::new(1, 1)));
}

#[test]
fn market_state_shares_add_up() {
    let klines = create_state_klines(200, "up");
    let report = MarketStateAnalyzer::analyze(&klines, 50);
    assert!(report.trend_ratio.add(report.ranging_ratio).eq_value(&d(100)));
}
