//! Records exchanged with a trading venue: order requests and results,
//! account balances, and market data snapshots.
//!
//! Instants are UTC milliseconds since the epoch; identifiers given by
//! the venue are kept as text.
use crate::decimal::Dec;
use crate::types::{OrderSide, OrderStatus, OrderType, PositionSide, TimeInForce};
use vstd::prelude::*;

verus! {

/// Order request for placing orders.
#[derive(Debug, Clone)]
pub struct OrderRequest {
    pub symbol: String,
    pub side: OrderSide,
    pub order_type: OrderType,
    pub quantity: Dec,
    pub price: Option<Dec>,
    pub stop_price: Option<Dec>,
    pub time_in_force: Option<TimeInForce>,
    pub client_order_id: Option<String>,
}

/// Order result after placing.
#[derive(Debug, Clone)]
pub struct OrderResult {
    pub order_id: String,
    pub client_order_id: Option<String>,
    pub symbol: String,
    pub side: OrderSide,
    pub order_type: OrderType,
    pub status: OrderStatus,
    pub quantity: Dec,
    pub filled_quantity: Dec,
    pub price: Option<Dec>,
    pub avg_price: Option<Dec>,
    pub commission: Option<Dec>,
    pub commission_asset: Option<String>,
    pub created_at: i64,
    pub updated_at: i64,
}

/// Order information (query result).
#[derive(Debug, Clone)]
pub struct OrderInfo {
    pub order_id: String,
    pub client_order_id: Option<String>,
    pub symbol: String,
    pub side: OrderSide,
    pub order_type: OrderType,
    pub status: OrderStatus,
    pub quantity: Dec,
    pub filled_quantity: Dec,
    pub remaining_quantity: Dec,
    pub price: Option<Dec>,
    pub stop_price: Option<Dec>,
    pub time_in_force: TimeInForce,
    pub created_at: i64,
    pub updated_at: i64,
}

/// Order update pushed by the venue.
#[derive(Debug, Clone)]
pub struct OrderUpdate {
    pub order_id: String,
    pub client_order_id: Option<String>,
    pub symbol: String,
    pub side: OrderSide,
    pub order_type: OrderType,
    pub status: OrderStatus,
    pub quantity: Dec,
    pub filled_quantity: Dec,
    pub price: Option<Dec>,
    pub avg_price: Option<Dec>,
    pub commission: Option<Dec>,
    pub commission_asset: Option<String>,
    pub timestamp: i64,
}

/// Balance of one asset.
#[derive(Debug, Clone)]
pub struct Balance {
    pub asset: String,
    pub free: Dec,
    pub locked: Dec,
}

/// Account information.
#[derive(Debug, Clone)]
pub struct AccountInfo {
    pub balances: Vec<Balance>,
    pub total_equity: Dec,
    pub available_balance: Dec,
    pub unrealized_pnl: Dec,
    pub margin_used: Dec,
    pub margin_ratio: Option<Dec>,
}

/// Ticker (24h price summary).
#[derive(Debug, Clone)]
pub struct Ticker {
    pub symbol: String,
    pub last_price: Dec,
    pub bid_price: Dec,
    pub ask_price: Dec,
    pub high_price: Dec,
    pub low_price: Dec,
    pub volume: Dec,
    pub quote_volume: Dec,
    pub price_change: Dec,
    pub price_change_percent: Dec,
    pub timestamp: i64,
}

/// One level of an order book.
#[derive(Debug, Clone)]
pub struct OrderBookEntry {
    pub price: Dec,
    pub quantity: Dec,
}

/// Order book snapshot.
#[derive(Debug, Clone)]
pub struct OrderBook {
    pub symbol: String,
    pub bids: Vec<OrderBookEntry>,
    pub asks: Vec<OrderBookEntry>,
    pub last_update_id: u64,
}

/// Funding rate information.
#[derive(Debug, Clone)]
pub struct FundingRate {
    pub symbol: String,
    pub funding_rate: Dec,
    pub funding_time: i64,
    pub next_funding_time: Option<i64>,
}

/// Mark price information.
#[derive(Debug, Clone)]
pub struct MarkPrice {
    pub symbol: String,
    pub mark_price: Dec,
    pub index_price: Dec,
    pub estimated_settle_price: Option<Dec>,
    pub last_funding_rate: Dec,
    pub next_funding_time: i64,
    pub interest_rate: Dec,
    pub time: i64,
}

/// Kline (candlestick) as the venue reports it.
#[derive(Debug, Clone)]
pub struct Kline {
    pub open_time: i64,
    pub open: Dec,
    pub high: Dec,
    pub low: Dec,
    pub close: Dec,
    pub volume: Dec,
    pub close_time: i64,
    pub quote_volume: Dec,
    pub trades_count: u64,
}

/// Public trade information.
#[derive(Debug, Clone)]
pub struct PublicTrade {
    pub id: String,
    pub symbol: String,
    pub price: Dec,
    pub quantity: Dec,
    pub timestamp: i64,
    pub is_buyer_maker: bool,
}

/// Trade of the account.
#[derive(Debug, Clone)]
pub struct TradeInfo {
    pub id: String,
    pub symbol: String,
    pub price: Dec,
    pub quantity: Dec,
    pub quote_quantity: Dec,
    pub commission: Dec,
    pub commission_asset: String,
    pub time: i64,
    pub is_buyer: bool,
    pub is_maker: bool,
    pub realized_pnl: Dec,
}

/// Open position as the venue reports it.
#[derive(Debug, Clone)]
pub struct PositionInfo {
    pub symbol: String,
    pub side: PositionSide,
    pub quantity: Dec,
    pub avg_entry_price: Dec,
    pub mark_price: Option<Dec>,
    pub unrealized_pnl: Dec,
    pub leverage: u32,
    pub margin: Dec,
    pub liquidation_price: Option<Dec>,
}

/// Exchange server time.
#[derive(Debug, Clone)]
pub struct ExchangeTime {
    pub server_time: i64,
    pub local_time: i64,
    pub offset_ms: i64,
}

/// Futures account information.
#[derive(Debug, Clone)]
pub struct FuturesAccountInfo {
    pub account_info: AccountInfo,
    pub can_trade: bool,
    pub can_withdraw: bool,
    pub fee_tier: u32,
    pub max_withdraw_amount: Dec,
    pub total_initial_margin: Dec,
    pub total_maint_margin: Dec,
    pub total_wallet_balance: Dec,
    pub total_unrealized_pnl: Dec,
    pub total_margin_balance: Dec,
}

} // verus!
