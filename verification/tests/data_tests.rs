use trading_common::account_types::{MarginType, PositionSide as AccountSide};
use trading_common::alert::{Alert, AlertConfig, AlertLevel, AlertNotifier, AlertType, NotifyAction, WebhookConfig};
use trading_common::cache::{
    cache_key, contains_text, first_ticks, is_connection_error, memory_layer_hit, merge_symbols, pauses_after,
    symbols_from_keys, InMemoryTickCache,
};
use trading_common::decimal::Dec;
use trading_common::event_types::TradingEvent as PathEvent;
use trading_common::events::{Event, EventBusConfig, EventFilter, MarketEvent, SystemEvent};
use trading_common::performance::{
    annual_return, average_commission, cumulative_net_pnl, cumulative_pnl, max_drawdown_duration_days, summarize,
    tally_pnls,
};
use trading_common::store::{
    bars_from_ticks, calculate_required_duration_hours, change_pct, check_signal_table, date_trunc_unit,
    get_high_tf_table_name, historical_tick_limit, is_recent_at, missing_symbols, parse_trade_side,
    recent_tick_limit, scheduler_paused_from, scheduler_paused_key, scheduler_paused_text, signal_where_clause,
    latest_bars, ohlc_data_info, recent_bar_tick_limit, stored_trade_count, sort_ticks_by_time, tick_query_limit, trade_filter_clause, validate_tick_data, DataError,
};
use trading_common::types::{OHLCData, TickData, TickQuery, Timeframe, TradeSide};

fn d(n: i64) -> Dec {
    Dec::from_int(n)
}

fn dec(s: &str) -> Dec {
    Dec::parse(s).unwrap()
}

fn create_test_tick(symbol: &str, price: &str, trade_id: &str) -> TickData {
    TickData::new(
        chrono::Utc::now().timestamp_millis(),
        symbol.to_string(),
        dec(price),
        dec("1.0"),
        TradeSide::Buy,
        trade_id.to_string(),
        false,
    )
}

fn tick_at(ts: i64, price: i64, qty: i64) -> TickData {
    TickData::new(ts, "BTCUSDT".to_string(), d(price), d(qty), TradeSide::Buy, format!("t{}", ts), false)
}

// ---------- events ----------

#[test]
fn test_event_filter() {
    let filter = EventFilter::market_only();
    let tick = TickData::new(
        chrono::Utc::now().timestamp_millis(),
        "BTCUSDT".to_string(),
        d(50000),
        d(1),
        TradeSide::Buy,
        "123".to_string(),
        true,
    );
    let market_event = Event::from_market(MarketEvent::Tick(tick));
    assert!(filter.matches(&market_event));
    let system_event = Event::from_system(SystemEvent::Heartbeat { timestamp: chrono::Utc::now().timestamp_millis() });
    assert!(!filter.matches(&system_event));
}

#[test]
fn event_categories_and_instants() {
    let e = Event::from_system(SystemEvent::Heartbeat { timestamp: 42 });
    assert_eq!(e.category(), "system");
    assert_eq!(e.timestamp(), 42);
    let all = EventFilter::all();
    assert!(all.matches(&e));
    assert!(!EventFilter::trading_only().matches(&e));
    assert_eq!(EventFilter::default(), all);
    assert_eq!(EventBusConfig::default().capacity, 1024);
}

#[test]
fn trade_path_event_accessors() {
    let e = PathEvent::OrderPlaced {
        signal_id: Some(7),
        order_id: "o1".to_string(),
        exchange: "binance".to_string(),
        market_type: "spot".to_string(),
        symbol: "BTCUSDT".to_string(),
        side: "BUY".to_string(),
        quantity: d(1),
        order_type: "MARKET".to_string(),
        timestamp: 99,
    };
    assert_eq!(e.signal_id(), Some(7));
    assert_eq!(e.timestamp(), 99);
    assert_eq!(e.event_type_name(), "order_placed");
}

// ---------- alerts ----------

#[test]
fn alert_texts_and_order() {
    assert_eq!(AlertLevel::Critical.to_string(), "CRITICAL");
    assert_eq!(AlertType::CircuitBreaker.to_string(), "CIRCUIT_BREAKER");
    assert!(AlertLevel::Critical.at_least(&AlertLevel::Warning));
    assert!(!AlertLevel::Info.at_least(&AlertLevel::Warning));
    let a = Alert::trade_failure("BTCUSDT", "timeout");
    assert_eq!(a.message, "交易对: BTCUSDT, 原因: timeout");
    assert_eq!(a.log_line(), "[ALERT][WARNING][TRADE_FAILURE] 交易执行失败 | Symbol: BTCUSDT | 交易对: BTCUSDT, 原因: timeout");
    let c = Alert::circuit_breaker_triggered("loss", 30);
    assert_eq!(c.message, "原因: loss, 持续时间: 30秒");
    assert!(c.symbol.is_none());
}

#[test]
fn alert_cooldown_suppresses_same_kind() {
    let mut config = AlertConfig::default();
    config.webhook = Some(WebhookConfig {
        url: "http://hook".to_string(),
        enabled: true,
        min_level: AlertLevel::Critical,
    });
    let mut notifier = AlertNotifier::new(config);
    let warning = Alert::connection_lost("exchange");
    let first = notifier.notify(&warning, 1_000_000);
    assert_eq!(first, Some(NotifyAction { log: true, webhook: false }));
    // Within 60 s, the same kind is suppressed.
    assert_eq!(notifier.notify(&warning, 1_030_000), None);
    // Another kind goes through, to the webhook as it is critical.
    let critical = Alert::service_error("db", "down");
    assert_eq!(notifier.notify(&critical, 1_030_000), Some(NotifyAction { log: true, webhook: true }));
    // After the cooldown, the first kind goes through again.
    assert!(notifier.notify(&warning, 1_061_000).is_some());
    assert_eq!(notifier.recent_alerts.len(), 3);
}

#[test]
fn alerts_disabled_do_nothing() {
    let mut config = AlertConfig::default();
    config.enabled = false;
    let mut notifier = AlertNotifier::new(config);
    assert_eq!(notifier.notify(&Alert::connection_lost("x"), 0), None);
    assert!(notifier.recent_alerts.is_empty());
}

// ---------- memory cache ----------

#[test]
fn test_memory_cache() {
    let mut cache = InMemoryTickCache::new(100, 300);
    let tick = create_test_tick("BTCUSDT", "50000.0", "test1");
    cache.push_tick(&tick);
    let ticks = cache.get_recent_ticks("BTCUSDT", 1);
    assert_eq!(ticks.len(), 1);
    assert_eq!(ticks[0].symbol, "BTCUSDT");
    assert!(ticks[0].price.eq_value(&dec("50000.0")));
}

#[test]
fn test_memory_cache_size_limit() {
    let mut cache = InMemoryTickCache::new(2, 300);
    for i in 1..=3 {
        let price = format!("{}.0", 50000 + i);
        let tick = create_test_tick("BTCUSDT", &price, &format!("test{}", i));
        cache.push_tick(&tick);
    }
    let ticks = cache.get_recent_ticks("BTCUSDT", 10);
    assert_eq!(ticks.len(), 2);
    assert!(ticks[0].price.eq_value(&dec("50003.0")));
    assert!(ticks[1].price.eq_value(&dec("50002.0")));
}

#[test]
fn memory_cache_symbols_and_clearing() {
    let mut cache = InMemoryTickCache::new(10, 300);
    cache.push_tick(&create_test_tick("ETHUSDT", "3000", "a"));
    cache.push_tick(&create_test_tick("BTCUSDT", "50000", "b"));
    cache.push_tick(&create_test_tick("ETHUSDT", "3001", "c"));
    assert_eq!(cache.get_symbols(), vec!["ETHUSDT".to_string(), "BTCUSDT".to_string()]);
    cache.clear_symbol("ETHUSDT");
    assert!(cache.get_recent_ticks("ETHUSDT", 5).is_empty());
    assert_eq!(cache.get_symbols(), vec!["BTCUSDT".to_string()]);
    cache.backfill(&vec![create_test_tick("SOLUSDT", "100", "d")]);
    assert_eq!(cache.get_recent_ticks("SOLUSDT", 5).len(), 1);
    cache.cleanup_expired();
    assert_eq!(cache.get_symbols().len(), 2);
    cache.clear_all();
    assert!(cache.get_symbols().is_empty());
}

#[test]
fn redis_key_and_symbol_logic() {
    assert_eq!(cache_key("BTCUSDT"), "tick:BTCUSDT");
    let keys = vec!["tick:BTCUSDT".to_string(), "other".to_string(), "tick:ETHUSDT".to_string()];
    assert_eq!(symbols_from_keys(&keys), vec!["BTCUSDT".to_string(), "ETHUSDT".to_string()]);
    assert!(is_connection_error("Connection closed by server"));
    assert!(is_connection_error("os error 10058"));
    assert!(!is_connection_error("WRONGTYPE Operation against a key"));
    assert!(contains_text("broken pipe here", "pipe"));
    assert!(pauses_after(0, 3));
    assert!(!pauses_after(2, 3));
    let merged = merge_symbols(vec!["A".to_string(), "B".to_string()], &vec!["B".to_string(), "C".to_string()]);
    assert_eq!(merged, vec!["A".to_string(), "B".to_string(), "C".to_string()]);
    assert!(memory_layer_hit(5, 5));
    let firsts = first_ticks(vec![tick_at(1, 1, 1), tick_at(2, 2, 1), tick_at(3, 3, 1)], 2);
    assert_eq!(firsts.len(), 2);
    assert_eq!(firsts[1].timestamp, 2);
}

// ---------- store rules ----------

#[test]
fn test_tick_validation() {
    let mut tick = create_test_tick("BTCUSDT", "50000", "id1");
    assert!(validate_tick_data(&tick).is_ok());
    tick.symbol = String::new();
    match validate_tick_data(&tick) {
        Err(DataError::Validation(m)) => assert_eq!(m, "Symbol cannot be empty"),
        _ => panic!("expected a validation error"),
    }
    let mut tick = create_test_tick("BTCUSDT", "-1", "id1");
    match validate_tick_data(&tick) {
        Err(DataError::Validation(m)) => assert_eq!(m, "Price must be positive"),
        _ => panic!("expected a validation error"),
    }
    tick.price = d(1);
    tick.quantity = Dec::zero();
    match validate_tick_data(&tick) {
        Err(DataError::Validation(m)) => assert_eq!(m, "Quantity must be positive"),
        _ => panic!("expected a validation error"),
    }
    tick.quantity = d(1);
    tick.trade_id = String::new();
    match validate_tick_data(&tick) {
        Err(DataError::Validation(m)) => assert_eq!(m, "Trade ID cannot be empty"),
        _ => panic!("expected a validation error"),
    }
}

#[test]
fn trade_side_and_table_names() {
    assert_eq!(parse_trade_side("buy").ok(), Some(TradeSide::Buy));
    assert_eq!(parse_trade_side("SELL").ok(), Some(TradeSide::Sell));
    match parse_trade_side("hold") {
        Err(DataError::InvalidFormat(m)) => assert_eq!(m, "Invalid trade side: hold"),
        _ => panic!("expected an invalid format"),
    }
    assert_eq!(get_high_tf_table_name("4h").ok(), Some("kline_4h".to_string()));
    match get_high_tf_table_name("1m") {
        Err(DataError::Validation(m)) => {
            assert_eq!(m, "Unsupported high timeframe: 1m. Supported: 5m, 15m, 30m, 1h, 2h, 4h, 1d, 3d, 1w")
        },
        _ => panic!("expected a validation error"),
    }
    assert!(check_signal_table("strategy_signals").is_ok());
    assert!(check_signal_table("users").is_err());
    assert_eq!(signal_where_clause(true, true), "WHERE symbol=$1 AND strategy_id=$2");
    assert_eq!(signal_where_clause(false, true), "");
}

#[test]
fn query_sizes_and_clauses() {
    assert_eq!(calculate_required_duration_hours(Timeframe::OneMinute, 100), 120);
    assert_eq!(calculate_required_duration_hours(Timeframe::FourHour, 50), 240);
    assert_eq!(calculate_required_duration_hours(Timeframe::OneHour, 7), 9);
    assert_eq!(recent_tick_limit(50_000), 10_000);
    assert_eq!(recent_tick_limit(5), 5);
    assert_eq!(historical_tick_limit(None), 10_000);
    assert_eq!(date_trunc_unit("weekly"), "week");
    assert_eq!(date_trunc_unit("yearly"), "day");
    assert_eq!(
        trade_filter_clause(true, false, true),
        "trade_time > NOW() - INTERVAL '1 day' * $1 AND realized_pnl IS NOT NULL AND symbol = $2 AND market_type = $3"
    );
    let q = TickQuery::new("BTCUSDT".to_string());
    assert!(is_recent_at(&q, 0));
    let mut q2 = TickQuery::new("BTCUSDT".to_string());
    q2.start_time = Some(0);
    assert!(is_recent_at(&q2, 3_600_000));
    assert!(!is_recent_at(&q2, 3_600_001));
    let found = vec![("BTCUSDT".to_string(), d(1))];
    assert_eq!(
        missing_symbols(&vec!["BTCUSDT".to_string(), "ETHUSDT".to_string()], &found),
        vec!["ETHUSDT".to_string()]
    );
}

#[test]
fn price_change_percent() {
    assert!(change_pct(d(110), d(100)).unwrap().unwrap().eq_value(&d(10)));
    assert!(change_pct(d(110), Dec::zero()).unwrap().is_none());
}

#[test]
fn bars_from_ticks_sorted_and_grouped() {
    // Ticks out of order, over two 1-minute windows, and one outside the range.
    let ticks = vec![tick_at(70_000, 12, 1), tick_at(10_000, 10, 2), tick_at(65_000, 11, 3), tick_at(5_000, 9, 4), tick_at(200_000, 50, 1)];
    let bars = bars_from_ticks(&ticks, Timeframe::OneMinute, 0, 119_999).unwrap();
    assert_eq!(bars.len(), 2);
    assert_eq!(bars[0].timestamp, 0);
    assert!(bars[0].open.eq_value(&d(9)));
    assert!(bars[0].close.eq_value(&d(10)));
    assert!(bars[0].volume.eq_value(&d(6)));
    assert_eq!(bars[1].timestamp, 60_000);
    assert!(bars[1].open.eq_value(&d(11)));
    assert!(bars[1].high.eq_value(&d(12)));
    assert!(bars[1].close.eq_value(&d(12)));
    assert_eq!(bars[1].trade_count, 2);
    let sorted = sort_ticks_by_time(ticks);
    let times: Vec<i64> = sorted.iter().map(|t| t.timestamp).collect();
    assert_eq!(times, vec![5_000, 10_000, 65_000, 70_000, 200_000]);
}

// ---------- performance figures ----------

#[test]
fn pnl_tally_and_summary() {
    let pnls = vec![d(10), d(20), d(-5), d(0), d(30)];
    let t = tally_pnls(&pnls).unwrap();
    assert_eq!(t.winning_trades, 3);
    assert_eq!(t.losing_trades, 2);
    assert!(t.total_win.eq_value(&d(60)));
    assert!(t.total_loss.eq_value(&d(5)));
    assert!(t.largest_win.eq_value(&d(30)));
    assert!(t.largest_loss.eq_value(&d(5)));
    assert_eq!(t.max_consecutive_wins, 2);
    assert_eq!(t.max_consecutive_losses, 2);
    let s = summarize(&t).unwrap();
    assert_eq!(s.total_trades, 5);
    assert!(s.win_rate.eq_value(&d(60)));
    assert!(s.avg_win.eq_value(&d(20)));
    assert!(s.profit_factor.eq_value(&d(12)));
    // Wins and no loss: the largest decimal.
    let t2 = tally_pnls(&vec![d(1)]).unwrap();
    let s2 = summarize(&t2).unwrap();
    assert_eq!(s2.profit_factor.to_string(), "79228162514264337593543950335");
}

#[test]
fn cumulative_curves() {
    let c = cumulative_pnl(&vec![d(10), d(-3), d(5)]).unwrap();
    assert!(c[0].eq_value(&d(10)) && c[1].eq_value(&d(7)) && c[2].eq_value(&d(12)));
    let n = cumulative_net_pnl(&vec![(d(10), Some(d(1))), (d(5), None)]).unwrap();
    assert!(n[0].eq_value(&d(9)) && n[1].eq_value(&d(14)));
}

#[test]
fn drawdown_duration_in_days() {
    let day = 86_400_000;
    // Peak at day 0, below until day 3, back at or above on day 3.
    let points = vec![(0, d(10)), (day, d(5)), (2 * day, d(8)), (3 * day, d(10)), (4 * day, d(9))];
    // The open drawdown from day 3 runs to "now" = day 10: 7 days.
    assert_eq!(max_drawdown_duration_days(&points, 10 * day), 7);
    assert_eq!(max_drawdown_duration_days(&points, 5 * day), 3);
    assert_eq!(max_drawdown_duration_days(&vec![(0, d(1))], day), 0);
}

#[test]
fn annualised_return_and_commission_average() {
    assert!(annual_return(d(100), 365).unwrap().eq_value(&d(100)));
    assert!(annual_return(d(100), 0).unwrap().eq_value(&Dec::zero()));
    assert!(average_commission(Some(d(10)), 4).unwrap().eq_value(&dec("2.5")));
    assert!(average_commission(None, 4).unwrap().eq_value(&Dec::zero()));
}

// ---------- option contracts ----------

use trading_common::options::{OptionContract, OptionType};

#[test]
fn test_option_contract_intrinsic() {
    let contract = OptionContract::new(
        "BTC".to_string(),
        OptionType::Call,
        d(50000),
        chrono::Utc::now().timestamp_millis() + 30 * 86_400_000,
        d(1000),
    );
    assert!(contract.intrinsic_value(d(55000)).unwrap().eq_value(&d(5000)));
    assert!(contract.intrinsic_value(d(45000)).unwrap().eq_value(&Dec::zero()));
}

#[test]
fn option_moneyness_and_time_value() {
    let put = OptionContract::new("BTC".to_string(), OptionType::Put, d(100), 0, d(7));
    assert!(put.is_in_the_money(d(90)));
    assert!(put.is_out_of_the_money(d(110)));
    assert!(put.time_value(d(95)).unwrap().eq_value(&d(2)));
    assert_eq!(put.is_at_the_money(d(101)), Some(true));
    assert_eq!(put.is_at_the_money(d(102)), Some(false));
}

use trading_common::performance::performance_figures;

#[test]
fn performance_report_figures() {
    let day = 86_400_000;
    let rows = vec![(d(100), 0), (d(-50), day), (d(-30), 2 * day), (d(200), 5 * day)];
    let f = performance_figures(&rows, 365, 10 * day).unwrap();
    assert_eq!(f.tally.winning_trades, 2);
    assert_eq!(f.tally.losing_trades, 2);
    assert_eq!(f.equity_curve.len(), 4);
    assert!(f.total_pnl.eq_value(&d(220)));
    // Peak 100 at day 0; back above it (220) on day 5.
    assert_eq!(f.max_drawdown_duration_days, 5);
    assert!(f.annual_return.eq_value(&d(220)));
    assert!(f.summary.win_rate.eq_value(&d(50)));
}

#[test]
fn test_tick_query_limit() {
    assert_eq!(tick_query_limit(None), 1000);
    assert_eq!(tick_query_limit(Some(50)), 50);
    assert_eq!(tick_query_limit(Some(10000)), 10000);
    assert_eq!(tick_query_limit(Some(25000)), 10000);
}

#[test]
fn test_scheduler_pause_flag() {
    assert_eq!(scheduler_paused_key(), "scheduler_paused");
    assert!(scheduler_paused_from(Some("true")));
    assert!(!scheduler_paused_from(Some("TRUE")));
    assert!(!scheduler_paused_from(Some("false")));
    assert!(!scheduler_paused_from(None));
    assert_eq!(scheduler_paused_text(true), "true");
    assert_eq!(scheduler_paused_text(false), "false");
    assert!(scheduler_paused_from(Some(scheduler_paused_text(true))));
}

#[test]
fn test_account_side_and_margin_text() {
    assert_eq!(AccountSide::from_str("long"), AccountSide::Long);
    assert_eq!(AccountSide::from_str("SHORT"), AccountSide::Short);
    assert_eq!(AccountSide::from_str("both"), AccountSide::Net);
    assert_eq!(AccountSide::Short.as_str(), "SHORT");
    assert_eq!(MarginType::from_str("ISOLATED"), MarginType::Isolated);
    assert_eq!(MarginType::from_str("crossed"), MarginType::Cross);
    assert_eq!(MarginType::Isolated.as_str(), "isolated");
}

fn bar_at(ts: i64) -> OHLCData {
    OHLCData::new(ts, "BTCUSDT".to_string(), Timeframe::OneMinute, d(1), d(2), d(1), d(2), d(10), 3)
}

#[test]
fn test_latest_bars() {
    let bars: Vec<OHLCData> = (0..5).map(|i| bar_at(i * 60_000)).collect();
    let last_two = latest_bars(&bars, 2);
    assert_eq!(last_two.len(), 2);
    assert_eq!(last_two[0].timestamp, 180_000);
    assert_eq!(last_two[1].timestamp, 240_000);
    assert_eq!(latest_bars(&bars, 10).len(), 5);
    assert!(latest_bars(&bars, 0).is_empty());
}

#[test]
fn test_ohlc_data_info() {
    // 10:00:30 to 12:59:59 on the same day: windows 10:00 and 12:00 of an hour, two bars apart.
    let day = 1_700_006_400_000i64;
    let (count, first, last) = ohlc_data_info(Timeframe::OneHour, Some(day + 36_030_000), Some(day + 46_799_000));
    assert_eq!(count, 2);
    assert_eq!(first, Some(day + 36_000_000));
    assert_eq!(last, Some(day + 43_200_000));
    assert_eq!(ohlc_data_info(Timeframe::OneHour, None, Some(day)), (0, None, None));
}

#[test]
fn test_bar_storage_limits() {
    assert_eq!(recent_bar_tick_limit(Timeframe::OneMinute), 50000);
    assert_eq!(recent_bar_tick_limit(Timeframe::FourHour), 500000);
    assert_eq!(recent_bar_tick_limit(Timeframe::OneWeek), 2000000);
    assert_eq!(stored_trade_count(42), 42);
    assert_eq!(stored_trade_count(u64::MAX), i32::MAX);
}

fn snapshot(margin_ratio: Option<Dec>, maint: Option<Dec>) -> trading_common::account_types::AccountSnapshot {
    trading_common::account_types::AccountSnapshot {
        exchange: "binance".to_string(),
        market_type: "futures".to_string(),
        uid: None,
        snapshot_at: 0,
        total_equity: Dec::from_int(1000),
        total_balance: Dec::from_int(1000),
        available_balance: Dec::from_int(900),
        frozen_balance: Dec::from_int(100),
        unrealized_pnl: Dec::zero(),
        initial_margin: Some(Dec::from_int(50)),
        maint_margin: maint,
        margin_ratio,
        position_count: 1,
        raw_data: None,
    }
}

#[test]
fn margin_ratio_from_equity_and_maintenance_margin() {
    let r = snapshot(None, Some(Dec::from_int(100))).calc_margin_ratio().unwrap();
    assert!(r.eq_value(&Dec::from_int(10)));
    let stated = snapshot(Some(Dec::new(25, 1)), Some(Dec::from_int(100))).calc_margin_ratio().unwrap();
    assert!(stated.eq_value(&Dec::new(25, 1)));
    assert!(snapshot(None, Some(Dec::zero())).calc_margin_ratio().is_none());
    assert!(snapshot(None, None).calc_margin_ratio().is_none());
}
