use trading_common::decimal::Dec;
use trading_common::portfolio::{Portfolio, PositionSide};
use trading_common::types::TradeSide;

fn d(n: i64) -> Dec {
    Dec::from_int(n)
}

fn create_portfolio(initial_capital: &str) -> Portfolio {
    Portfolio::new(Dec::parse(initial_capital).unwrap())
        .with_commission_rate(Dec::parse("0.001").unwrap())
        .with_slippage_pct(Dec::zero())
}

#[test]
fn test_portfolio_initialization() {
    let portfolio = create_portfolio("10000");
    assert!(portfolio.initial_capital.eq_value(&d(10000)));
    assert!(portfolio.cash.eq_value(&d(10000)));
    assert!(portfolio.positions.is_empty());
    assert!(portfolio.trades.is_empty());
}

#[test]
fn test_total_value_no_positions() {
    let portfolio = create_portfolio("10000");
    assert!(portfolio.total_value().eq_value(&d(10000)));
}

#[test]
fn test_buy_basic() {
    let mut portfolio = create_portfolio("100000");
    let result = portfolio.execute_buy("BTCUSDT".to_string(), d(1), d(50000));
    assert!(result.is_ok());
    assert!(portfolio.cash.eq_value(&d(49950)));
    let position = portfolio.get_position("BTCUSDT").unwrap();
    assert!(position.quantity.eq_value(&d(1)));
    assert!(position.avg_price.eq_value(&d(50000)));
    assert_eq!(position.side, PositionSide::Long);
}

#[test]
fn test_buy_insufficient_funds() {
    let mut portfolio = create_portfolio("1000");
    let result = portfolio.execute_buy("BTCUSDT".to_string(), d(1), d(50000));
    assert!(result.is_err());
    assert!(portfolio.cash.eq_value(&d(1000)));
}

#[test]
fn test_buy_multiple_times() {
    let mut portfolio = create_portfolio("200000");
    portfolio.execute_buy("BTCUSDT".to_string(), d(1), d(50000)).unwrap();
    portfolio.execute_buy("BTCUSDT".to_string(), d(1), d(60000)).unwrap();
    let position = portfolio.get_position("BTCUSDT").unwrap();
    assert!(position.quantity.eq_value(&d(2)));
    assert!(position.avg_price.eq_value(&d(55000)));
}

#[test]
fn test_sell_basic() {
    let mut portfolio = create_portfolio("100000");
    portfolio.execute_buy("BTCUSDT".to_string(), d(1), d(50000)).unwrap();
    let result = portfolio.execute_sell("BTCUSDT".to_string(), d(1), d(60000));
    assert!(result.is_ok());
    let expected_cash = d(100000).sub(d(50050)).add(d(59940));
    assert!(portfolio.cash.eq_value(&expected_cash));
    assert!(portfolio.get_position("BTCUSDT").is_none());
}

#[test]
fn test_sell_partial() {
    let mut portfolio = create_portfolio("200000");
    portfolio.execute_buy("BTCUSDT".to_string(), d(2), d(50000)).unwrap();
    portfolio.execute_sell("BTCUSDT".to_string(), d(1), d(60000)).unwrap();
    let position = portfolio.get_position("BTCUSDT").unwrap();
    assert!(position.quantity.eq_value(&d(1)));
}

#[test]
fn test_sell_no_position() {
    let mut portfolio = create_portfolio("10000");
    let result = portfolio.execute_sell("BTCUSDT".to_string(), d(1), d(50000));
    assert!(result.is_err());
}

#[test]
fn test_sell_exceeds_position() {
    let mut portfolio = create_portfolio("100000");
    portfolio.execute_buy("BTCUSDT".to_string(), d(1), d(50000)).unwrap();
    let result = portfolio.execute_sell("BTCUSDT".to_string(), d(2), d(60000));
    assert!(result.is_err());
}

#[test]
fn test_short_open_basic() {
    let mut portfolio = create_portfolio("10000");
    let result = portfolio.execute_short_open("BTCUSDT".to_string(), d(1), d(50000));
    assert!(result.is_ok());
    assert!(portfolio.cash.eq_value(&d(59950)));
    let position = portfolio.get_position("BTCUSDT").unwrap();
    assert!(position.quantity.eq_value(&d(1)));
    assert!(position.avg_price.eq_value(&d(50000)));
    assert_eq!(position.side, PositionSide::Short);
}

#[test]
fn test_short_open_multiple() {
    let mut portfolio = create_portfolio("10000");
    portfolio.execute_short_open("BTCUSDT".to_string(), d(1), d(50000)).unwrap();
    portfolio.execute_short_open("BTCUSDT".to_string(), d(1), d(60000)).unwrap();
    let position = portfolio.get_position("BTCUSDT").unwrap();
    assert!(position.quantity.eq_value(&d(2)));
    assert!(position.avg_price.eq_value(&d(55000)));
    assert_eq!(position.side, PositionSide::Short);
}

#[test]
fn test_short_close_profit() {
    let mut portfolio = create_portfolio("10000");
    portfolio.execute_short_open("BTCUSDT".to_string(), d(1), d(50000)).unwrap();
    let result = portfolio.execute_short_close("BTCUSDT".to_string(), d(1), d(40000));
    assert!(result.is_ok());
    assert!(portfolio.get_position("BTCUSDT").is_none());
}

#[test]
fn test_short_close_loss() {
    let mut portfolio = create_portfolio("10000");
    portfolio.execute_short_open("BTCUSDT".to_string(), d(1), d(50000)).unwrap();
    let result = portfolio.execute_short_close("BTCUSDT".to_string(), d(1), d(60000));
    assert!(result.is_ok());
}

#[test]
fn test_short_close_no_position() {
    let mut portfolio = create_portfolio("10000");
    let result = portfolio.execute_short_close("BTCUSDT".to_string(), d(1), d(50000));
    assert!(result.is_err());
}

#[test]
fn test_short_close_exceeds_position() {
    let mut portfolio = create_portfolio("10000");
    portfolio.execute_short_open("BTCUSDT".to_string(), d(1), d(50000)).unwrap();
    let result = portfolio.execute_short_close("BTCUSDT".to_string(), d(2), d(40000));
    assert!(result.is_err());
}

#[test]
fn test_update_price_long() {
    let mut portfolio = create_portfolio("100000");
    portfolio.execute_buy("BTCUSDT".to_string(), d(1), d(50000)).unwrap();
    portfolio.update_price("BTCUSDT", d(60000));
    let position = portfolio.get_position("BTCUSDT").unwrap();
    assert!(position.market_value.eq_value(&d(60000)));
    assert!(position.unrealized_pnl.eq_value(&d(10000)));
}

#[test]
fn test_update_price_short() {
    let mut portfolio = create_portfolio("10000");
    portfolio.execute_short_open("BTCUSDT".to_string(), d(1), d(50000)).unwrap();
    portfolio.update_price("BTCUSDT", d(40000));
    let position = portfolio.get_position("BTCUSDT").unwrap();
    assert!(position.unrealized_pnl.eq_value(&d(10000)));
}

#[test]
fn test_update_price_short_loss() {
    let mut portfolio = create_portfolio("10000");
    portfolio.execute_short_open("BTCUSDT".to_string(), d(1), d(50000)).unwrap();
    portfolio.update_price("BTCUSDT", d(60000));
    let position = portfolio.get_position("BTCUSDT").unwrap();
    assert!(position.unrealized_pnl.eq_value(&d(-10000)));
}

#[test]
fn test_total_value_with_long() {
    let mut portfolio = create_portfolio("100000");
    portfolio.execute_buy("BTCUSDT".to_string(), d(1), d(50000)).unwrap();
    portfolio.update_price("BTCUSDT", d(60000));
    let total = portfolio.total_value();
    assert!(total.eq_value(&d(109950)));
}

#[test]
fn test_total_value_with_short() {
    let mut portfolio = create_portfolio("10000");
    portfolio.execute_short_open("BTCUSDT".to_string(), d(1), d(50000)).unwrap();
    portfolio.update_price("BTCUSDT", d(40000));
    let total = portfolio.total_value();
    assert!(total.eq_value(&d(69950)));
}

#[test]
fn test_trade_history() {
    let mut portfolio = create_portfolio("100000");
    portfolio.execute_buy("BTCUSDT".to_string(), d(1), d(50000)).unwrap();
    portfolio.execute_sell("BTCUSDT".to_string(), d(1), d(60000)).unwrap();
    assert_eq!(portfolio.trades.len(), 2);
    assert_eq!(portfolio.trades[0].side, TradeSide::Buy);
    assert_eq!(portfolio.trades[1].side, TradeSide::Sell);
}

#[test]
fn test_commission_tracking() {
    let mut portfolio = create_portfolio("100000");
    portfolio.execute_buy("BTCUSDT".to_string(), d(1), d(50000)).unwrap();
    assert!(portfolio.trades[0].commission.eq_value(&d(50)));
}

#[test]
fn test_buy_zero_quantity() {
    let mut portfolio = create_portfolio("10000");
    let result = portfolio.execute_buy("BTCUSDT".to_string(), Dec::zero(), d(50000));
    assert!(result.is_ok());
}

#[test]
fn test_sell_zero_quantity() {
    let mut portfolio = create_portfolio("100000");
    portfolio.execute_buy("BTCUSDT".to_string(), d(1), d(50000)).unwrap();
    let result = portfolio.execute_sell("BTCUSDT".to_string(), Dec::zero(), d(60000));
    assert!(result.is_ok());
}

#[test]
fn test_multiple_symbols() {
    let mut portfolio = create_portfolio("200000");
    portfolio.execute_buy("BTCUSDT".to_string(), d(1), d(50000)).unwrap();
    portfolio.execute_buy("ETHUSDT".to_string(), d(10), d(3000)).unwrap();
    assert_eq!(portfolio.positions.len(), 2);
    assert!(portfolio.get_position("BTCUSDT").is_some());
    assert!(portfolio.get_position("ETHUSDT").is_some());
}

#[test]
fn test_slippage_buy_price_increased() {
    let mut portfolio = Portfolio::new(Dec::parse("100000").unwrap())
        .with_commission_rate(Dec::zero())
        .with_slippage_pct(Dec::parse("0.001").unwrap());
    portfolio.execute_buy("BTCUSDT".to_string(), d(1), d(50000)).unwrap();
    let position = portfolio.get_position("BTCUSDT").unwrap();
    assert!(position.avg_price.eq_value(&d(50050)));
    assert!(portfolio.cash.eq_value(&d(49950)));
    assert!(portfolio.total_slippage_cost.eq_value(&d(50)));
}

#[test]
fn test_slippage_sell_price_decreased() {
    let mut portfolio = Portfolio::new(Dec::parse("100000").unwrap())
        .with_commission_rate(Dec::zero())
        .with_slippage_pct(Dec::parse("0.001").unwrap());
    portfolio.execute_buy("BTCUSDT".to_string(), d(1), d(50000)).unwrap();
    let cash_after_buy = portfolio.cash;
    portfolio.execute_sell("BTCUSDT".to_string(), d(1), d(60000)).unwrap();
    assert!(portfolio.cash.eq_value(&cash_after_buy.add(d(59940))));
    assert!(portfolio.total_slippage_cost.gt(&Dec::zero()));
}

#[test]
fn test_slippage_zero_disabled() {
    let mut portfolio = Portfolio::new(Dec::parse("100000").unwrap())
        .with_commission_rate(Dec::zero())
        .with_slippage_pct(Dec::zero());
    portfolio.execute_buy("BTCUSDT".to_string(), d(1), d(50000)).unwrap();
    let position = portfolio.get_position("BTCUSDT").unwrap();
    assert!(position.avg_price.eq_value(&d(50000)));
    assert!(portfolio.cash.eq_value(&d(50000)));
    assert!(portfolio.total_slippage_cost.eq_value(&Dec::zero()));
}

// A refused buy keeps the holdings (the refusal law on concrete values).
#[test]
fn refused_buy_leaves_positions_and_trades() {
    let mut portfolio = create_portfolio("1000");
    let err = portfolio.execute_buy("BTCUSDT".to_string(), d(1), d(50000)).unwrap_err();
    assert_eq!(err, "Insufficient funds: need $50050.000, available $1000");
    assert!(portfolio.positions.is_empty());
    assert!(portfolio.trades.is_empty());
}

#[test]
fn refused_sell_messages() {
    let mut portfolio = create_portfolio("100000");
    assert_eq!(
        portfolio.execute_sell("BTCUSDT".to_string(), d(1), d(50000)).unwrap_err(),
        "No position to sell"
    );
    portfolio.execute_buy("BTCUSDT".to_string(), d(1), d(50000)).unwrap();
    let err = portfolio.execute_sell("BTCUSDT".to_string(), d(2), d(60000)).unwrap_err();
    assert_eq!(err, "Insufficient position: need 2, available 1");
    assert_eq!(portfolio.trades.len(), 1);
}

#[test]
fn realized_pnl_of_a_round_trip() {
    let mut portfolio = create_portfolio("100000");
    portfolio.execute_buy("BTCUSDT".to_string(), d(1), d(50000)).unwrap();
    portfolio.execute_sell("BTCUSDT".to_string(), d(1), d(60000)).unwrap();
    // (60000 - 50000) * 1 - 60 commission on the sell
    assert!(portfolio.trades[1].realized_pnl.unwrap().eq_value(&d(9940)));
    assert!(portfolio.total_commission().eq_value(&d(110)));
}

use trading_common::report::{trade_analysis, trade_averages};

#[test]
fn trade_analysis_of_round_trips() {
    let mut portfolio = create_portfolio("1000000");
    portfolio.execute_buy("BTCUSDT".to_string(), d(1), d(50000)).unwrap();
    portfolio.execute_sell("BTCUSDT".to_string(), d(1), d(60000)).unwrap();
    portfolio.execute_buy("ETHUSDT".to_string(), d(1), d(3000)).unwrap();
    portfolio.execute_sell("ETHUSDT".to_string(), d(1), d(2000)).unwrap();
    let a = trade_analysis(&portfolio.trades).unwrap();
    assert_eq!(a.buy_trades, 2);
    assert_eq!(a.sell_trades, 2);
    assert_eq!(a.profitable_sells, 1);
    assert!(a.total_profit.eq_value(&d(9940)));
    assert!(a.total_loss.eq_value(&d(-1002)));
    let (avg_profit, avg_loss) = trade_averages(&a).unwrap();
    assert!(avg_profit.unwrap().eq_value(&d(9940)));
    assert!(avg_loss.unwrap().eq_value(&d(-1002)));
}
