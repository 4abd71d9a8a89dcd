use trading_common::decimal::Dec;
use trading_common::paper::{should_trigger, PaperOrderStatus, PaperOrderType, PaperTrader, PaperTraderConfig};
use trading_common::portfolio::PositionSide;
use trading_common::types::TradeSide;

fn d(n: i64) -> Dec {
    Dec::from_int(n)
}

fn dec(s: &str) -> Dec {
    Dec::parse(s).unwrap()
}

fn running_trader() -> PaperTrader {
    let mut trader = PaperTrader::new(PaperTraderConfig::default());
    trader.start();
    trader
}

#[test]
fn test_paper_market_order_requires_running() {
    let mut trader = PaperTrader::new(PaperTraderConfig::default());
    let r = trader.place_market_order("BTCUSDT", TradeSide::Buy, d(1)).unwrap();
    assert_eq!(r.unwrap_err(), "Paper Trader is not running");
    assert!(trader.get_trades().is_empty());
    assert_eq!(trader.order_counter, 0);
}

#[test]
fn test_paper_market_order_requires_price() {
    let mut trader = running_trader();
    let r = trader.place_market_order("BTCUSDT", TradeSide::Buy, d(1)).unwrap();
    assert_eq!(r.unwrap_err(), "No price data for BTCUSDT");
    assert_eq!(trader.order_counter, 0);
}

#[test]
fn test_paper_market_buy_fills_with_slippage_and_commission() {
    let mut trader = running_trader();
    trader.update_price("BTCUSDT", d(100)).unwrap();
    let order = trader.place_market_order("BTCUSDT", TradeSide::Buy, d(2)).unwrap().unwrap();
    assert_eq!(order.order_id, "PAPER-000001");
    assert_eq!(order.status, PaperOrderStatus::Filled);
    assert_eq!(order.order_type, PaperOrderType::Market);
    // 100 * (1 + 0.0001) = 100.01; commission 2 * 100.01 * 0.001 = 0.20002
    assert!(order.filled_price.unwrap().eq_value(&dec("100.01")));
    assert!(order.commission.eq_value(&dec("0.20002")));
    let position = trader.portfolio.get_position("BTCUSDT").unwrap();
    assert_eq!(position.side, PositionSide::Long);
    assert!(position.quantity.eq_value(&d(2)));
    assert_eq!(trader.get_trades().len(), 1);
}

#[test]
fn test_paper_market_sell_without_position_opens_short() {
    let mut trader = running_trader();
    trader.update_price("ETHUSDT", d(2000)).unwrap();
    let order = trader.place_market_order("ETHUSDT", TradeSide::Sell, d(1)).unwrap().unwrap();
    assert_eq!(order.status, PaperOrderStatus::Filled);
    // 2000 * (1 - 0.0001) = 1999.8
    assert!(order.filled_price.unwrap().eq_value(&dec("1999.8")));
    assert_eq!(trader.portfolio.get_position("ETHUSDT").unwrap().side, PositionSide::Short);
}

#[test]
fn test_paper_limit_order_waits_then_fills() {
    let mut trader = running_trader();
    trader.update_price("BTCUSDT", d(100)).unwrap();
    let order = trader.place_limit_order("BTCUSDT", TradeSide::Buy, d(1), d(95)).unwrap();
    assert_eq!(order.status, PaperOrderStatus::Pending);
    assert_eq!(trader.get_pending_orders().len(), 1);
    trader.update_price("BTCUSDT", d(97)).unwrap();
    assert_eq!(trader.get_pending_orders().len(), 1);
    trader.update_price("BTCUSDT", d(94)).unwrap();
    assert!(trader.get_pending_orders().is_empty());
    let trades = trader.get_trades();
    assert_eq!(trades.len(), 1);
    assert_eq!(trades[0].status, PaperOrderStatus::Filled);
    assert!(trader.portfolio.get_position("BTCUSDT").is_some());
}

#[test]
fn test_paper_cancel_order() {
    let mut trader = running_trader();
    let order = trader.place_stop_loss_order("BTCUSDT", TradeSide::Sell, d(1), d(90)).unwrap();
    assert!(trader.cancel_order(&order.order_id).is_ok());
    assert!(trader.get_pending_orders().is_empty());
    assert_eq!(trader.get_trades()[0].status, PaperOrderStatus::Canceled);
    assert_eq!(trader.cancel_order(&order.order_id).unwrap_err(), "Order PAPER-000001 not found or already filled");
}

#[test]
fn test_paper_pending_orders_refused_when_stopped() {
    let mut trader = PaperTrader::new(PaperTraderConfig::default());
    assert_eq!(
        trader.place_take_profit_order("BTCUSDT", TradeSide::Sell, d(1), d(120)).unwrap_err(),
        "Paper Trader is not running"
    );
    assert!(trader.get_pending_orders().is_empty());
}

#[test]
fn test_paper_trigger_rules() {
    let mut trader = running_trader();
    let limit_buy = trader.place_limit_order("BTCUSDT", TradeSide::Buy, d(1), d(100)).unwrap();
    let stop_sell = trader.place_stop_loss_order("BTCUSDT", TradeSide::Sell, d(1), d(90)).unwrap();
    let take_sell = trader.place_take_profit_order("BTCUSDT", TradeSide::Sell, d(1), d(120)).unwrap();
    assert!(should_trigger(&limit_buy, "BTCUSDT", d(100)));
    assert!(!should_trigger(&limit_buy, "BTCUSDT", d(101)));
    assert!(!should_trigger(&limit_buy, "ETHUSDT", d(50)));
    assert!(should_trigger(&stop_sell, "BTCUSDT", d(89)));
    assert!(!should_trigger(&stop_sell, "BTCUSDT", d(91)));
    assert!(should_trigger(&take_sell, "BTCUSDT", d(120)));
    assert!(!should_trigger(&take_sell, "BTCUSDT", d(119)));
}

#[test]
fn test_paper_reset_clears_orders() {
    let mut trader = running_trader();
    trader.update_price("BTCUSDT", d(100)).unwrap();
    trader.place_market_order("BTCUSDT", TradeSide::Buy, d(1)).unwrap().unwrap();
    trader.place_limit_order("BTCUSDT", TradeSide::Buy, d(1), d(50)).unwrap();
    trader.reset();
    assert!(!trader.is_running());
    assert!(trader.get_trades().is_empty());
    assert!(trader.get_pending_orders().is_empty());
    assert!(trader.portfolio.cash.eq_value(&d(10000)));
}

#[test]
fn test_paper_status_after_fill() {
    let mut trader = running_trader();
    trader.update_price("BTCUSDT", d(100)).unwrap();
    trader.place_market_order("BTCUSDT", TradeSide::Buy, d(1)).unwrap().unwrap();
    let status = trader.get_status().unwrap();
    assert!(status.running);
    assert_eq!(status.total_trades, 1);
    assert_eq!(status.pending_orders, 0);
    // The portfolio applies its own slippage to the fill of 100.01: it buys at 100.020001
    // and pays 0.100020001 commission.
    assert!(status.cash.eq_value(&dec("9899.879978999")));
    assert!(status.total_commission.eq_value(&dec("0.100020001")));
}
