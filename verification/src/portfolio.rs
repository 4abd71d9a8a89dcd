//! The backtest portfolio: cash, long and short positions, trades, commission and slippage.
//!
//! Positions and the latest prices are kept in vectors with at most one entry per symbol, in
//! the order the symbols first appeared.
use crate::decimal::{
    can_add, can_div, can_mul, can_sub, difference, fold_add, lemma_fold_add_prefix_some,
    lemma_fold_add_step, product, quotient, sum, Dec,
};
use crate::text::{join4, str_eq};
use vstd::pervasive::VecAdditionalExecFns;
use crate::types::TradeSide;
use vstd::prelude::*;
use vstd::string::StringExecFns;

verus! {

/// Direction of a position.
#[derive(Debug, Clone, Copy, PartialEq, Eq, Structural)]
pub enum PositionSide {
    Long,
    Short,
}

/// An open position.
#[derive(Debug, Clone)]
pub struct Position {
    pub symbol: String,
    pub quantity: Dec,
    pub avg_price: Dec,
    pub market_value: Dec,
    pub unrealized_pnl: Dec,
    pub side: PositionSide,
}

/// One executed trade.
#[derive(Debug, Clone)]
pub struct Trade {
    pub symbol: String,
    pub side: TradeSide,
    pub quantity: Dec,
    pub price: Dec,
    /// When the trade was executed, in milliseconds since the epoch.
    pub timestamp: i64,
    pub realized_pnl: Option<Dec>,
    pub commission: Dec,
}

impl Position {
    /// A copy of the position.
    pub fn duplicate(&self) -> (r: Position)
        ensures
            r == *self,
    {
        Position {
            symbol: self.symbol.clone(),
            quantity: self.quantity,
            avg_price: self.avg_price,
            market_value: self.market_value,
            unrealized_pnl: self.unrealized_pnl,
            side: self.side,
        }
    }
}

impl Trade {
    /// A copy of the trade.
    pub fn duplicate(&self) -> (r: Trade)
        ensures
            r == *self,
    {
        Trade {
            symbol: self.symbol.clone(),
            side: self.side,
            quantity: self.quantity,
            price: self.price,
            timestamp: self.timestamp,
            realized_pnl: self.realized_pnl,
            commission: self.commission,
        }
    }
}

/// A copy of the positions.
pub fn copy_positions(v: &Vec<Position>) -> (r: Vec<Position>)
    ensures
        r@ == v@,
{
    let mut out: Vec<Position> = Vec::new();
    let mut i: usize = 0;
    while i < v.len()
        invariant
            i <= v@.len(),
            out@ == v@.take(i as int),
        decreases v@.len() - i,
    {
        out.push(v[i].duplicate());
        proof {
            assert(out@ =~= v@.take(i + 1));
        }
        i = i + 1;
    }
    proof {
        assert(out@ =~= v@);
    }
    out
}

/// A copy of the trades.
pub fn copy_trades(v: &Vec<Trade>) -> (r: Vec<Trade>)
    ensures
        r@ == v@,
{
    let mut out: Vec<Trade> = Vec::new();
    let mut i: usize = 0;
    while i < v.len()
        invariant
            i <= v@.len(),
            out@ == v@.take(i as int),
        decreases v@.len() - i,
    {
        out.push(v[i].duplicate());
        proof {
            assert(out@ =~= v@.take(i + 1));
        }
        i = i + 1;
    }
    proof {
        assert(out@ =~= v@);
    }
    out
}

/// The portfolio of a backtest.
pub struct Portfolio {
    pub initial_capital: Dec,
    pub cash: Dec,
    /// At most one position per symbol.
    pub positions: Vec<Position>,
    pub trades: Vec<Trade>,
    /// The latest price of each symbol, at most one entry per symbol.
    pub current_prices: Vec<(String, Dec)>,
    /// e.g. 0.001 for 0.1%
    pub commission_rate: Dec,
    /// e.g. 0.0001 for 0.01%
    pub slippage_pct: Dec,
    pub total_slippage_cost: Dec,
}

/// The mathematical state of a portfolio.
pub struct PortfolioModel {
    pub initial_capital: Dec,
    pub cash: Dec,
    pub positions: Seq<Position>,
    pub trades: Seq<Trade>,
    pub current_prices: Seq<(Seq<char>, Dec)>,
    pub commission_rate: Dec,
    pub slippage_pct: Dec,
    pub total_slippage_cost: Dec,
}

/// The price entries with the symbols as texts.
pub open spec fn price_entries(prices: Seq<(String, Dec)>) -> Seq<(Seq<char>, Dec)> {
    prices.map_values(|e: (String, Dec)| (e.0@, e.1))
}

impl View for Portfolio {
    type V = PortfolioModel;

    open spec fn view(&self) -> PortfolioModel {
        PortfolioModel {
            initial_capital: self.initial_capital,
            cash: self.cash,
            positions: self.positions@,
            trades: self.trades@,
            current_prices: price_entries(self.current_prices@),
            commission_rate: self.commission_rate,
            slippage_pct: self.slippage_pct,
            total_slippage_cost: self.total_slippage_cost,
        }
    }
}

/// The index of the position for the symbol, if there is one.
pub open spec fn find_position(ps: Seq<Position>, symbol: Seq<char>) -> Option<int> {
    if exists|i: int| 0 <= i < ps.len() && ps[i].symbol@ == symbol {
        Some(choose|i: int| 0 <= i < ps.len() && ps[i].symbol@ == symbol)
    } else {
        None
    }
}

/// The index of the price entry for the symbol, if there is one.
pub open spec fn find_price(prices: Seq<(Seq<char>, Dec)>, symbol: Seq<char>) -> Option<int> {
    if exists|i: int| 0 <= i < prices.len() && prices[i].0 == symbol {
        Some(choose|i: int| 0 <= i < prices.len() && prices[i].0 == symbol)
    } else {
        None
    }
}

/// No two positions share a symbol.
pub open spec fn positions_distinct(ps: Seq<Position>) -> bool {
    forall|i: int, j: int|
        0 <= i < ps.len() && 0 <= j < ps.len() && ps[i].symbol@ == ps[j].symbol@ ==> i == j
}

/// No two price entries share a symbol.
pub open spec fn prices_distinct(prices: Seq<(Seq<char>, Dec)>) -> bool {
    forall|i: int, j: int|
        0 <= i < prices.len() && 0 <= j < prices.len() && prices[i].0 == prices[j].0 ==> i == j
}

pub proof fn lemma_find_position(ps: Seq<Position>, symbol: Seq<char>)
    requires
        positions_distinct(ps),
    ensures
        match find_position(ps, symbol) {
            Some(i) => 0 <= i < ps.len() && ps[i].symbol@ == symbol && forall|j: int|
                0 <= j < ps.len() && ps[j].symbol@ == symbol ==> j == i,
            None => forall|j: int| 0 <= j < ps.len() ==> ps[j].symbol@ != symbol,
        },
{
}

pub proof fn lemma_find_price(prices: Seq<(Seq<char>, Dec)>, symbol: Seq<char>)
    requires
        prices_distinct(prices),
    ensures
        match find_price(prices, symbol) {
            Some(i) => 0 <= i < prices.len() && prices[i].0 == symbol && forall|j: int|
                0 <= j < prices.len() && prices[j].0 == symbol ==> j == i,
            None => forall|j: int| 0 <= j < prices.len() ==> prices[j].0 != symbol,
        },
{
}

/// The error texts of the trading operations.
pub open spec fn insufficient_funds_text(need: Dec, available: Dec) -> Seq<char> {
    "Insufficient funds: need $"@ + crate::decimal::decimal_display(need) + ", available $"@
        + crate::decimal::decimal_display(available)
}

pub open spec fn insufficient_position_text(need: Dec, available: Dec) -> Seq<char> {
    "Insufficient position: need "@ + crate::decimal::decimal_display(need) + ", available "@
        + crate::decimal::decimal_display(available)
}

pub open spec fn insufficient_short_text(need: Dec, available: Dec) -> Seq<char> {
    "Insufficient short position: need "@ + crate::decimal::decimal_display(need)
        + ", available "@ + crate::decimal::decimal_display(available)
}

/// The text of an error result, if any.
pub open spec fn error_text(r: Result<(), String>) -> Option<Seq<char>> {
    match r {
        Ok(()) => None,
        Err(e) => Some(e@),
    }
}

impl PortfolioModel {
    /// No two positions and no two price entries share a symbol.
    pub open spec fn wf(self) -> bool {
        positions_distinct(self.positions) && prices_distinct(self.current_prices)
    }

    /// The price actually paid or received: moved against the trader by the slippage rate.
    pub open spec fn slipped(self, price: Dec, side: TradeSide) -> Dec {
        if self.slippage_pct.mant() == 0 {
            price
        } else {
            match side {
                TradeSide::Buy => sum(price, product(price, self.slippage_pct)),
                TradeSide::Sell => difference(price, product(price, self.slippage_pct)),
            }
        }
    }

    /// Applying slippage does not overflow.
    pub open spec fn slip_ok(self, price: Dec, side: TradeSide) -> bool {
        self.slippage_pct.mant() != 0 ==> {
            &&& can_mul(price, self.slippage_pct)
            &&& match side {
                TradeSide::Buy => can_add(price, product(price, self.slippage_pct)),
                TradeSide::Sell => can_sub(price, product(price, self.slippage_pct)),
            }
        }
    }

    /// The slippage cost, per unit, of a trade at `price` on `side`.
    pub open spec fn slip_gap(self, price: Dec, side: TradeSide) -> Dec {
        match side {
            TradeSide::Buy => difference(self.slipped(price, side), price),
            TradeSide::Sell => difference(price, self.slipped(price, side)),
        }
    }

    /// The slippage cost total after a trade of `quantity` at `price` on `side`.
    pub open spec fn slippage_after(self, quantity: Dec, price: Dec, side: TradeSide) -> Dec {
        sum(self.total_slippage_cost, product(self.slip_gap(price, side), quantity))
    }

    /// Slippage and its cost do not overflow.
    pub open spec fn slippage_ok(self, quantity: Dec, price: Dec, side: TradeSide) -> bool {
        &&& self.slip_ok(price, side)
        &&& match side {
            TradeSide::Buy => can_sub(self.slipped(price, side), price),
            TradeSide::Sell => can_sub(price, self.slipped(price, side)),
        }
        &&& can_mul(self.slip_gap(price, side), quantity)
        &&& can_add(self.total_slippage_cost, product(self.slip_gap(price, side), quantity))
    }

    // ----- buy -----

    pub open spec fn buy_cost(self, quantity: Dec, price: Dec) -> Dec {
        product(quantity, self.slipped(price, TradeSide::Buy))
    }

    pub open spec fn buy_commission(self, quantity: Dec, price: Dec) -> Dec {
        product(self.buy_cost(quantity, price), self.commission_rate)
    }

    pub open spec fn buy_total(self, quantity: Dec, price: Dec) -> Dec {
        sum(self.buy_cost(quantity, price), self.buy_commission(quantity, price))
    }

    /// The position after buying `quantity` at the (slipped) price `p`, with cost `cost`, into
    /// the existing position `pos`.
    pub open spec fn merged_long(pos: Position, quantity: Dec, p: Dec, cost: Dec) -> Position {
        let total_quantity = sum(pos.quantity, quantity);
        let total_cost = sum(product(pos.quantity, pos.avg_price), cost);
        let avg = quotient(total_cost, total_quantity);
        Position {
            avg_price: avg,
            quantity: total_quantity,
            market_value: product(total_quantity, p),
            unrealized_pnl: product(difference(p, avg), total_quantity),
            ..pos
        }
    }

    pub open spec fn merged_long_ok(pos: Position, quantity: Dec, p: Dec, cost: Dec) -> bool {
        let total_quantity = sum(pos.quantity, quantity);
        let total_cost = sum(product(pos.quantity, pos.avg_price), cost);
        let avg = quotient(total_cost, total_quantity);
        &&& can_add(pos.quantity, quantity)
        &&& can_mul(pos.quantity, pos.avg_price)
        &&& can_add(product(pos.quantity, pos.avg_price), cost)
        &&& can_div(total_cost, total_quantity)
        &&& can_mul(total_quantity, p)
        &&& can_sub(p, avg)
        &&& can_mul(difference(p, avg), total_quantity)
    }

    /// No step of `execute_buy` overflows or divides by zero.
    pub open spec fn buy_ok(self, symbol: Seq<char>, quantity: Dec, price: Dec) -> bool {
        let p = self.slipped(price, TradeSide::Buy);
        let cost = self.buy_cost(quantity, price);
        &&& self.slippage_ok(quantity, price, TradeSide::Buy)
        &&& can_mul(quantity, p)
        &&& can_mul(cost, self.commission_rate)
        &&& can_add(cost, self.buy_commission(quantity, price))
        &&& self.buy_total(quantity, price).value() <= self.cash.value() ==> {
            &&& can_sub(self.cash, self.buy_total(quantity, price))
            &&& match find_position(self.positions, symbol) {
                Some(i) => PortfolioModel::merged_long_ok(self.positions[i], quantity, p, cost),
                None => true,
            }
        }
    }

    /// Whether a buy is refused for lack of cash.
    pub open spec fn buy_refused(self, quantity: Dec, price: Dec) -> bool {
        self.buy_total(quantity, price).value() > self.cash.value()
    }

    /// The positions after a buy that went through.
    pub open spec fn positions_after_buy(self, symbol: String, quantity: Dec, price: Dec) -> Seq<
        Position,
    > {
        let p = self.slipped(price, TradeSide::Buy);
        let cost = self.buy_cost(quantity, price);
        match find_position(self.positions, symbol@) {
            Some(i) => self.positions.update(
                i,
                PortfolioModel::merged_long(self.positions[i], quantity, p, cost),
            ),
            None => self.positions.push(
                Position {
                    symbol,
                    quantity,
                    avg_price: p,
                    market_value: product(quantity, p),
                    unrealized_pnl: Dec::spec_zero(),
                    side: PositionSide::Long,
                },
            ),
        }
    }

    /// The portfolio after `execute_buy`, the new trade stamped `ts`.
    pub open spec fn after_buy(self, symbol: String, quantity: Dec, price: Dec, ts: i64) -> Self {
        let slipped_state = PortfolioModel {
            total_slippage_cost: self.slippage_after(quantity, price, TradeSide::Buy),
            ..self
        };
        if self.buy_refused(quantity, price) {
            slipped_state
        } else {
            PortfolioModel {
                cash: difference(self.cash, self.buy_total(quantity, price)),
                positions: self.positions_after_buy(symbol, quantity, price),
                trades: self.trades.push(
                    Trade {
                        symbol,
                        side: TradeSide::Buy,
                        quantity,
                        price: self.slipped(price, TradeSide::Buy),
                        timestamp: ts,
                        realized_pnl: None,
                        commission: self.buy_commission(quantity, price),
                    },
                ),
                ..slipped_state
            }
        }
    }

    // ----- sell -----

    pub open spec fn sell_proceeds(self, quantity: Dec, price: Dec) -> Dec {
        product(quantity, self.slipped(price, TradeSide::Sell))
    }

    pub open spec fn sell_commission(self, quantity: Dec, price: Dec) -> Dec {
        product(self.sell_proceeds(quantity, price), self.commission_rate)
    }

    /// How a sell ends: the position it applies to, or the reason it is refused.
    pub open spec fn sell_outcome(self, symbol: Seq<char>, quantity: Dec) -> Result<int, Seq<char>> {
        match find_position(self.positions, symbol) {
            None => Err("No position to sell"@),
            Some(i) => if quantity.value() > self.positions[i].quantity.value() {
                Err(insufficient_position_text(quantity, self.positions[i].quantity))
            } else {
                Ok(i)
            },
        }
    }

    /// No step of `execute_sell` overflows.
    pub open spec fn sell_ok(self, symbol: Seq<char>, quantity: Dec, price: Dec) -> bool {
        let p = self.slipped(price, TradeSide::Sell);
        &&& self.slippage_ok(quantity, price, TradeSide::Sell)
        &&& match self.sell_outcome(symbol, quantity) {
            Ok(i) => {
                let pos = self.positions[i];
                let proceeds = self.sell_proceeds(quantity, price);
                let commission = self.sell_commission(quantity, price);
                let left = difference(pos.quantity, quantity);
                &&& can_mul(quantity, p)
                &&& can_mul(proceeds, self.commission_rate)
                &&& can_sub(proceeds, commission)
                &&& can_add(self.cash, difference(proceeds, commission))
                &&& can_sub(p, pos.avg_price)
                &&& can_mul(difference(p, pos.avg_price), quantity)
                &&& can_sub(product(difference(p, pos.avg_price), quantity), commission)
                &&& can_sub(pos.quantity, quantity)
                &&& left.value() != 0 ==> can_mul(left, p) && can_mul(
                    difference(p, pos.avg_price),
                    left,
                )
            },
            Err(_) => true,
        }
    }

    /// The positions after a sell that went through on position `i`.
    pub open spec fn positions_after_sell(self, i: int, quantity: Dec, price: Dec) -> Seq<
        Position,
    > {
        let p = self.slipped(price, TradeSide::Sell);
        let pos = self.positions[i];
        let left = difference(pos.quantity, quantity);
        if left.value() == 0 {
            self.positions.remove(i)
        } else {
            self.positions.update(
                i,
                Position {
                    quantity: left,
                    market_value: product(left, p),
                    unrealized_pnl: product(difference(p, pos.avg_price), left),
                    ..pos
                },
            )
        }
    }

    /// The portfolio after `execute_sell`, the new trade stamped `ts`.
    pub open spec fn after_sell(self, symbol: String, quantity: Dec, price: Dec, ts: i64) -> Self {
        let slipped_state = PortfolioModel {
            total_slippage_cost: self.slippage_after(quantity, price, TradeSide::Sell),
            ..self
        };
        match self.sell_outcome(symbol@, quantity) {
            Err(_) => slipped_state,
            Ok(i) => {
                let p = self.slipped(price, TradeSide::Sell);
                let proceeds = self.sell_proceeds(quantity, price);
                let commission = self.sell_commission(quantity, price);
                PortfolioModel {
                    cash: sum(self.cash, difference(proceeds, commission)),
                    positions: self.positions_after_sell(i, quantity, price),
                    trades: self.trades.push(
                        Trade {
                            symbol,
                            side: TradeSide::Sell,
                            quantity,
                            price: p,
                            timestamp: ts,
                            realized_pnl: Some(
                                difference(
                                    product(difference(p, self.positions[i].avg_price), quantity),
                                    commission,
                                ),
                            ),
                            commission,
                        },
                    ),
                    ..slipped_state
                }
            },
        }
    }

    // ----- short open -----

    /// The position after adding a short of `quantity` at `p`, with proceeds `proceeds`, to the
    /// short position `pos`.
    pub open spec fn merged_short(pos: Position, quantity: Dec, p: Dec, proceeds: Dec) -> Position {
        let total_quantity = sum(pos.quantity, quantity);
        let total_cost = sum(product(pos.quantity, pos.avg_price), proceeds);
        let avg = quotient(total_cost, total_quantity);
        Position {
            avg_price: avg,
            quantity: total_quantity,
            unrealized_pnl: product(difference(avg, p), total_quantity),
            ..pos
        }
    }

    pub open spec fn merged_short_ok(pos: Position, quantity: Dec, p: Dec, proceeds: Dec) -> bool {
        let total_quantity = sum(pos.quantity, quantity);
        let total_cost = sum(product(pos.quantity, pos.avg_price), proceeds);
        let avg = quotient(total_cost, total_quantity);
        &&& can_add(pos.quantity, quantity)
        &&& can_mul(pos.quantity, pos.avg_price)
        &&& can_add(product(pos.quantity, pos.avg_price), proceeds)
        &&& can_div(total_cost, total_quantity)
        &&& can_sub(avg, p)
        &&& can_mul(difference(avg, p), total_quantity)
    }

    /// Whether the symbol holds a short position that a new short adds to.
    pub open spec fn adds_to_short(self, symbol: Seq<char>) -> bool {
        match find_position(self.positions, symbol) {
            Some(i) => self.positions[i].side == PositionSide::Short,
            None => false,
        }
    }

    /// No step of `execute_short_open` overflows or divides by zero.
    pub open spec fn short_open_ok(self, symbol: Seq<char>, quantity: Dec, price: Dec) -> bool {
        let p = self.slipped(price, TradeSide::Sell);
        let proceeds = self.sell_proceeds(quantity, price);
        let commission = self.sell_commission(quantity, price);
        &&& self.slippage_ok(quantity, price, TradeSide::Sell)
        &&& can_mul(quantity, p)
        &&& can_mul(proceeds, self.commission_rate)
        &&& can_sub(proceeds, commission)
        &&& can_add(self.cash, difference(proceeds, commission))
        &&& self.adds_to_short(symbol) ==> PortfolioModel::merged_short_ok(
            self.positions[find_position(self.positions, symbol)->0],
            quantity,
            p,
            proceeds,
        )
    }

    /// The portfolio after `execute_short_open`, the new trade stamped `ts`.
    pub open spec fn after_short_open(self, symbol: String, quantity: Dec, price: Dec, ts: i64) -> Self {
        let p = self.slipped(price, TradeSide::Sell);
        let proceeds = self.sell_proceeds(quantity, price);
        let commission = self.sell_commission(quantity, price);
        let fresh = Position {
            symbol,
            quantity,
            avg_price: p,
            market_value: Dec::spec_zero(),
            unrealized_pnl: Dec::spec_zero(),
            side: PositionSide::Short,
        };
        PortfolioModel {
            total_slippage_cost: self.slippage_after(quantity, price, TradeSide::Sell),
            cash: sum(self.cash, difference(proceeds, commission)),
            positions: match find_position(self.positions, symbol@) {
                Some(i) => if self.positions[i].side == PositionSide::Short {
                    self.positions.update(
                        i,
                        PortfolioModel::merged_short(self.positions[i], quantity, p, proceeds),
                    )
                } else {
                    self.positions.update(i, fresh)
                },
                None => self.positions.push(fresh),
            },
            trades: self.trades.push(
                Trade {
                    symbol,
                    side: TradeSide::Sell,
                    quantity,
                    price: p,
                    timestamp: ts,
                    realized_pnl: None,
                    commission,
                },
            ),
            ..self
        }
    }

    // ----- short close -----

    pub open spec fn close_cost(self, quantity: Dec, price: Dec) -> Dec {
        product(quantity, self.slipped(price, TradeSide::Buy))
    }

    pub open spec fn close_commission(self, quantity: Dec, price: Dec) -> Dec {
        product(self.close_cost(quantity, price), self.commission_rate)
    }

    /// How a short close ends: the position it applies to, or the reason it is refused.
    pub open spec fn short_close_outcome(self, symbol: Seq<char>, quantity: Dec) -> Result<
        int,
        Seq<char>,
    > {
        match find_position(self.positions, symbol) {
            None => Err("No short position to close"@),
            Some(i) => if self.positions[i].side != PositionSide::Short {
                Err("Position is not a short"@)
            } else if quantity.value() > self.positions[i].quantity.value() {
                Err(insufficient_short_text(quantity, self.positions[i].quantity))
            } else {
                Ok(i)
            },
        }
    }

    /// The realised PnL of closing `quantity` of the short `pos` at cost `cost` and commission
    /// `commission`: open proceeds less cost, less the opening and closing commissions.
    pub open spec fn short_close_pnl(self, pos: Position, quantity: Dec, cost: Dec, commission: Dec) -> Dec {
        let open_proceeds = product(quantity, pos.avg_price);
        let open_commission = product(open_proceeds, self.commission_rate);
        difference(difference(difference(open_proceeds, cost), open_commission), commission)
    }

    /// No step of `execute_short_close` overflows.
    pub open spec fn short_close_ok(self, symbol: Seq<char>, quantity: Dec, price: Dec) -> bool {
        let p = self.slipped(price, TradeSide::Buy);
        &&& self.slippage_ok(quantity, price, TradeSide::Buy)
        &&& match self.short_close_outcome(symbol, quantity) {
            Ok(i) => {
                let pos = self.positions[i];
                let cost = self.close_cost(quantity, price);
                let commission = self.close_commission(quantity, price);
                let open_proceeds = product(quantity, pos.avg_price);
                let open_commission = product(open_proceeds, self.commission_rate);
                let left = difference(pos.quantity, quantity);
                &&& can_mul(quantity, p)
                &&& can_mul(cost, self.commission_rate)
                &&& can_add(cost, commission)
                &&& can_sub(self.cash, sum(cost, commission))
                &&& can_mul(quantity, pos.avg_price)
                &&& can_mul(open_proceeds, self.commission_rate)
                &&& can_sub(open_proceeds, cost)
                &&& can_sub(difference(open_proceeds, cost), open_commission)
                &&& can_sub(difference(difference(open_proceeds, cost), open_commission), commission)
                &&& can_sub(pos.quantity, quantity)
                &&& left.value() != 0 ==> can_sub(pos.avg_price, p) && can_mul(
                    difference(pos.avg_price, p),
                    left,
                )
            },
            Err(_) => true,
        }
    }

    /// The portfolio after `execute_short_close`, the new trade stamped `ts`.
    pub open spec fn after_short_close(self, symbol: String, quantity: Dec, price: Dec, ts: i64) -> Self {
        let slipped_state = PortfolioModel {
            total_slippage_cost: self.slippage_after(quantity, price, TradeSide::Buy),
            ..self
        };
        match self.short_close_outcome(symbol@, quantity) {
            Err(_) => slipped_state,
            Ok(i) => {
                let p = self.slipped(price, TradeSide::Buy);
                let pos = self.positions[i];
                let cost = self.close_cost(quantity, price);
                let commission = self.close_commission(quantity, price);
                let left = difference(pos.quantity, quantity);
                PortfolioModel {
                    cash: difference(self.cash, sum(cost, commission)),
                    positions: if left.value() == 0 {
                        self.positions.remove(i)
                    } else {
                        self.positions.update(
                            i,
                            Position {
                                quantity: left,
                                unrealized_pnl: product(difference(pos.avg_price, p), left),
                                ..pos
                            },
                        )
                    },
                    trades: self.trades.push(
                        Trade {
                            symbol,
                            side: TradeSide::Buy,
                            quantity,
                            price: p,
                            timestamp: ts,
                            realized_pnl: Some(self.short_close_pnl(pos, quantity, cost, commission)),
                            commission,
                        },
                    ),
                    ..slipped_state
                }
            },
        }
    }
}

/// A buy refused for lack of cash leaves the cash, the positions and the trades as they were
/// (only the slippage total moves).
pub proof fn lemma_refused_buy_keeps_holdings(m: PortfolioModel, symbol: String, quantity: Dec, price: Dec, ts: i64)
    requires
        m.buy_refused(quantity, price),
    ensures
        m.after_buy(symbol, quantity, price, ts).cash == m.cash,
        m.after_buy(symbol, quantity, price, ts).positions == m.positions,
        m.after_buy(symbol, quantity, price, ts).trades == m.trades,
{
}

/// A sell refused (no position, or more than is held) leaves the cash, the positions and the
/// trades as they were.
pub proof fn lemma_refused_sell_keeps_holdings(m: PortfolioModel, symbol: String, quantity: Dec, price: Dec, ts: i64)
    requires
        m.sell_outcome(symbol@, quantity) is Err,
    ensures
        m.after_sell(symbol, quantity, price, ts).cash == m.cash,
        m.after_sell(symbol, quantity, price, ts).positions == m.positions,
        m.after_sell(symbol, quantity, price, ts).trades == m.trades,
{
}

/// A short close refused (no position, not a short, or more than is short) leaves the cash,
/// the positions and the trades as they were.
pub proof fn lemma_refused_short_close_keeps_holdings(m: PortfolioModel, symbol: String, quantity: Dec, price: Dec, ts: i64)
    requires
        m.short_close_outcome(symbol@, quantity) is Err,
    ensures
        m.after_short_close(symbol, quantity, price, ts).cash == m.cash,
        m.after_short_close(symbol, quantity, price, ts).positions == m.positions,
        m.after_short_close(symbol, quantity, price, ts).trades == m.trades,
{
}

/// Every trade that goes through is recorded: a buy, sell, short open or short close that is
/// not refused appends exactly one trade, on the symbol and for the quantity asked.
pub proof fn lemma_accepted_trades_recorded(m: PortfolioModel, symbol: String, quantity: Dec, price: Dec, ts: i64)
    ensures
        !m.buy_refused(quantity, price) ==> m.after_buy(symbol, quantity, price, ts).trades == m.trades.push(
            m.after_buy(symbol, quantity, price, ts).trades.last(),
        ) && m.after_buy(symbol, quantity, price, ts).trades.last().symbol == symbol
            && m.after_buy(symbol, quantity, price, ts).trades.last().quantity == quantity,
        m.sell_outcome(symbol@, quantity) is Ok ==> m.after_sell(symbol, quantity, price, ts).trades == m.trades.push(
            m.after_sell(symbol, quantity, price, ts).trades.last(),
        ) && m.after_sell(symbol, quantity, price, ts).trades.last().symbol == symbol
            && m.after_sell(symbol, quantity, price, ts).trades.last().quantity == quantity,
        m.after_short_open(symbol, quantity, price, ts).trades == m.trades.push(
            m.after_short_open(symbol, quantity, price, ts).trades.last(),
        ) && m.after_short_open(symbol, quantity, price, ts).trades.last().symbol == symbol,
        m.short_close_outcome(symbol@, quantity) is Ok ==> m.after_short_close(symbol, quantity, price, ts).trades
            == m.trades.push(m.after_short_close(symbol, quantity, price, ts).trades.last())
            && m.after_short_close(symbol, quantity, price, ts).trades.last().symbol == symbol,
{
}

impl PortfolioModel {
    // ----- price updates -----

    /// The position revalued at `price`.
    pub open spec fn revalued(pos: Position, price: Dec) -> Position {
        match pos.side {
            PositionSide::Long => Position {
                market_value: product(pos.quantity, price),
                unrealized_pnl: product(difference(price, pos.avg_price), pos.quantity),
                ..pos
            },
            PositionSide::Short => Position {
                market_value: product(
                    pos.quantity,
                    difference(product(pos.avg_price, Dec::spec_new(2, 0)), price),
                ),
                unrealized_pnl: product(difference(pos.avg_price, price), pos.quantity),
                ..pos
            },
        }
    }

    pub open spec fn revalue_ok(pos: Position, price: Dec) -> bool {
        match pos.side {
            PositionSide::Long => {
                &&& can_mul(pos.quantity, price)
                &&& can_sub(price, pos.avg_price)
                &&& can_mul(difference(price, pos.avg_price), pos.quantity)
            },
            PositionSide::Short => {
                &&& can_mul(pos.avg_price, Dec::spec_new(2, 0))
                &&& can_sub(product(pos.avg_price, Dec::spec_new(2, 0)), price)
                &&& can_mul(
                    pos.quantity,
                    difference(product(pos.avg_price, Dec::spec_new(2, 0)), price),
                )
                &&& can_sub(pos.avg_price, price)
                &&& can_mul(difference(pos.avg_price, price), pos.quantity)
            },
        }
    }

    /// No step of `update_price` overflows.
    pub open spec fn update_price_ok(self, symbol: Seq<char>, price: Dec) -> bool {
        match find_position(self.positions, symbol) {
            Some(i) => PortfolioModel::revalue_ok(self.positions[i], price),
            None => true,
        }
    }

    /// The portfolio after `update_price`.
    pub open spec fn after_update_price(self, symbol: Seq<char>, price: Dec) -> Self {
        PortfolioModel {
            current_prices: match find_price(self.current_prices, symbol) {
                Some(i) => self.current_prices.update(i, (symbol, price)),
                None => self.current_prices.push((symbol, price)),
            },
            positions: match find_position(self.positions, symbol) {
                Some(i) => self.positions.update(
                    i,
                    PortfolioModel::revalued(self.positions[i], price),
                ),
                None => self.positions,
            },
            ..self
        }
    }

    // ----- valuation -----

    /// What a position adds to the portfolio's value: the market value of a long, the
    /// unrealised PnL of a short (whose proceeds are already in cash).
    pub open spec fn value_contribution(pos: Position) -> Option<Dec> {
        match pos.side {
            PositionSide::Long => Some(pos.market_value),
            PositionSide::Short => Some(pos.unrealized_pnl),
        }
    }

    /// Cash plus what each position adds, in the order of the positions.
    pub open spec fn total_value_spec(self) -> Option<Dec> {
        fold_add(self.cash, self.positions.map_values(|p: Position| PortfolioModel::value_contribution(p)))
    }

    /// The sum of the realised PnL of the trades that have one.
    pub open spec fn realized_spec(self) -> Option<Dec> {
        fold_add(Dec::spec_zero(), self.trades.map_values(|t: Trade| t.realized_pnl))
    }

    /// The sum of the unrealised PnL of the positions.
    pub open spec fn unrealized_spec(self) -> Option<Dec> {
        fold_add(Dec::spec_zero(), self.positions.map_values(|p: Position| Some(p.unrealized_pnl)))
    }

    /// Realised plus unrealised PnL is defined.
    pub open spec fn total_pnl_ok(self) -> bool {
        &&& self.realized_spec() is Some
        &&& self.unrealized_spec() is Some
        &&& can_add(self.realized_spec()->0, self.unrealized_spec()->0)
    }

    /// Realised plus unrealised PnL.
    pub open spec fn total_pnl_spec(self) -> Dec {
        sum(self.realized_spec()->0, self.unrealized_spec()->0)
    }

    /// The sum of the commissions of the trades.
    pub open spec fn commission_spec(self) -> Option<Dec> {
        fold_add(Dec::spec_zero(), self.trades.map_values(|t: Trade| Some(t.commission)))
    }
}

/// Calls `SystemTime::now().duration_since(UNIX_EPOCH)`: the milliseconds since the epoch,
/// `None` when the system clock reads before the epoch or too far after it for an `i64`.
/// Claimed: a reading is never negative. What the clock reads is not claimed.
#[verifier::external_body]
fn clock_millis() -> (r: Option<i64>)
    ensures
        r matches Some(t) ==> t >= 0,
{
    match std::time::SystemTime::now().duration_since(std::time::UNIX_EPOCH) {
        Ok(d) => i64::try_from(d.as_millis()).ok(),
        Err(_) => None,
    }
}

/// The current time in milliseconds since the epoch, as the system clock reads it; a clock
/// that cannot be read that way (set before the epoch) counts as reading the epoch.
pub(crate) fn now_millis() -> (r: i64)
    ensures
        r >= 0,
{
    match clock_millis() {
        Some(t) => t,
        None => 0,
    }
}

impl Portfolio {
    /// A portfolio with the capital in cash, 0.1% commission and 0.01% slippage.
    pub fn new(initial_capital: Dec) -> (r: Portfolio)
        ensures
            r@.initial_capital == initial_capital,
            r@.cash == initial_capital,
            r@.positions.len() == 0,
            r@.trades.len() == 0,
            r@.current_prices.len() == 0,
            r@.commission_rate.mant() == 1 && r@.commission_rate.scl() == 3,
            r@.slippage_pct.mant() == 1 && r@.slippage_pct.scl() == 4,
            r@.total_slippage_cost == Dec::spec_zero(),
            r@.wf(),
    {
        Portfolio {
            initial_capital,
            cash: initial_capital,
            positions: Vec::new(),
            trades: Vec::new(),
            current_prices: Vec::new(),
            commission_rate: Dec::new(1, 3),
            slippage_pct: Dec::new(1, 4),
            total_slippage_cost: Dec::zero(),
        }
    }

    /// The same portfolio with another commission rate.
    pub fn with_commission_rate(self, rate: Dec) -> (r: Portfolio)
        ensures
            r@ == (PortfolioModel { commission_rate: rate, ..self@ }),
    {
        let mut s = self;
        s.commission_rate = rate;
        s
    }

    /// The same portfolio with another slippage rate.
    pub fn with_slippage_pct(self, slippage_pct: Dec) -> (r: Portfolio)
        ensures
            r@ == (PortfolioModel { slippage_pct, ..self@ }),
    {
        let mut s = self;
        s.slippage_pct = slippage_pct;
        s
    }

    /// The price moved against the trader by the slippage rate: up for a buy, down for a sell.
    fn apply_slippage(&self, price: Dec, side: TradeSide) -> (r: Dec)
        requires
            self@.slip_ok(price, side),
        ensures
            r == self@.slipped(price, side),
    {
        if self.slippage_pct.is_zero() {
            return price;
        }
        let slippage = price.mul(self.slippage_pct);
        match side {
            TradeSide::Buy => price.add(slippage),
            TradeSide::Sell => price.sub(slippage),
        }
    }

    /// Adds the slippage cost of a trade to the running total.
    fn record_slippage(&mut self, quantity: Dec, price: Dec, side: TradeSide) -> (p: Dec)
        requires
            old(self)@.slippage_ok(quantity, price, side),
        ensures
            p == old(self)@.slipped(price, side),
            final(self)@ == (PortfolioModel {
                total_slippage_cost: old(self)@.slippage_after(quantity, price, side),
                ..old(self)@
            }),
    {
        let p = self.apply_slippage(price, side);
        let gap = match side {
            TradeSide::Buy => p.sub(price),
            TradeSide::Sell => price.sub(p),
        };
        self.total_slippage_cost = self.total_slippage_cost.add(gap.mul(quantity));
        p
    }

    /// The index of the symbol's position.
    pub(crate) fn position_index(&self, symbol: &str) -> (r: Option<usize>)
        requires
            self@.wf(),
        ensures
            match r {
                Some(k) => find_position(self@.positions, symbol@) == Some(k as int) && k
                    < self@.positions.len(),
                None => find_position(self@.positions, symbol@) is None,
            },
    {
        proof {
            lemma_find_position(self@.positions, symbol@);
        }
        let mut i: usize = 0;
        while i < self.positions.len()
            invariant
                self@.wf(),
                i <= self.positions@.len(),
                forall|j: int| 0 <= j < i ==> self.positions@[j].symbol@ != symbol@,
            decreases self.positions@.len() - i,
        {
            if str_eq(self.positions[i].symbol.as_str(), symbol) {
                proof {
                    lemma_find_position(self@.positions, symbol@);
                }
                return Some(i);
            }
            i = i + 1;
        }
        None
    }

    /// The position of the symbol, if any.
    pub fn get_position(&self, symbol: &str) -> (r: Option<&Position>)
        requires
            self@.wf(),
        ensures
            r == match find_position(self@.positions, symbol@) {
                Some(i) => Some(&self@.positions[i]),
                None => None::<&Position>,
            },
    {
        proof {
            lemma_find_position(self@.positions, symbol@);
        }
        match self.position_index(symbol) {
            Some(i) => {
                let pos = &self.positions[i];
                assert(*pos == self@.positions[i as int]);
                Some(pos)
            },
            None => None,
        }
    }

    /// The index of the symbol's price entry.
    pub(crate) fn price_index(&self, symbol: &str) -> (r: Option<usize>)
        requires
            self@.wf(),
        ensures
            match r {
                Some(k) => find_price(self@.current_prices, symbol@) == Some(k as int) && k
                    < self@.current_prices.len(),
                None => find_price(self@.current_prices, symbol@) is None,
            },
    {
        let mut i: usize = 0;
        while i < self.current_prices.len()
            invariant
                self@.wf(),
                i <= self.current_prices@.len(),
                forall|j: int| 0 <= j < i ==> self@.current_prices[j].0 != symbol@,
            decreases self.current_prices@.len() - i,
        {
            proof {
                assert(self@.current_prices[i as int] == (
                    self.current_prices@[i as int].0@,
                    self.current_prices@[i as int].1,
                ));
            }
            if str_eq(self.current_prices[i].0.as_str(), symbol) {
                proof {
                    lemma_find_price(self@.current_prices, symbol@);
                }
                return Some(i);
            }
            i = i + 1;
        }
        proof {
            lemma_find_price(self@.current_prices, symbol@);
        }
        None
    }

    /// The latest price recorded for the symbol, if any.
    pub fn get_price(&self, symbol: &str) -> (r: Option<Dec>)
        requires
            self@.wf(),
        ensures
            r == match find_price(self@.current_prices, symbol@) {
                Some(i) => Some(self@.current_prices[i].1),
                None => None::<Dec>,
            },
    {
        proof {
            lemma_find_price(self@.current_prices, symbol@);
        }
        let mut i: usize = 0;
        while i < self.current_prices.len()
            invariant
                self@.wf(),
                i <= self.current_prices@.len(),
                forall|j: int| 0 <= j < i ==> self@.current_prices[j].0 != symbol@,
            decreases self.current_prices@.len() - i,
        {
            proof {
                assert(self@.current_prices[i as int] == (
                    self.current_prices@[i as int].0@,
                    self.current_prices@[i as int].1,
                ));
            }
            if str_eq(self.current_prices[i].0.as_str(), symbol) {
                proof {
                    lemma_find_price(self@.current_prices, symbol@);
                }
                return Some(self.current_prices[i].1);
            }
            i = i + 1;
        }
        None
    }
}

impl Portfolio {
    /// Records the latest price of the symbol and revalues its position, if any.
    pub fn update_price(&mut self, symbol: &str, price: Dec)
        requires
            old(self)@.wf(),
            old(self)@.update_price_ok(symbol@, price),
        ensures
            final(self)@.wf(),
            final(self)@ == old(self)@.after_update_price(symbol@, price),
    {
        let ghost old_prices = self@.current_prices;
        proof {
            lemma_find_price(old_prices, symbol@);
        }
        match self.price_index(symbol) {
            Some(i) => {
                let key = self.current_prices[i].0.clone();
                self.current_prices.set(i, (key, price));
                proof {
                    assert(price_entries(self.current_prices@) =~= old_prices.update(
                        i as int,
                        (symbol@, price),
                    ));
                }
            },
            None => {
                self.current_prices.push((String::from_str(symbol), price));
                proof {
                    assert(price_entries(self.current_prices@) =~= old_prices.push((symbol@, price)));
                }
            },
        }
        assert(prices_distinct(self@.current_prices));
        proof {
            lemma_find_position(self@.positions, symbol@);
        }
        match self.position_index(symbol) {
            Some(k) => {
                let pos = &self.positions[k];
                let new_pos = match pos.side {
                    PositionSide::Long => Position {
                        symbol: pos.symbol.clone(),
                        quantity: pos.quantity,
                        avg_price: pos.avg_price,
                        market_value: pos.quantity.mul(price),
                        unrealized_pnl: price.sub(pos.avg_price).mul(pos.quantity),
                        side: pos.side,
                    },
                    PositionSide::Short => Position {
                        symbol: pos.symbol.clone(),
                        quantity: pos.quantity,
                        avg_price: pos.avg_price,
                        market_value: pos.quantity.mul(
                            pos.avg_price.mul(Dec::from_int(2)).sub(price),
                        ),
                        unrealized_pnl: pos.avg_price.sub(price).mul(pos.quantity),
                        side: pos.side,
                    },
                };
                self.positions.set(k, new_pos);
            },
            None => {},
        }
    }

    /// Buys `quantity` at `price` (moved up by the slippage), paying cost plus commission, and
    /// adds to the symbol's position or opens a long one. Refused, with the slippage cost still
    /// counted, when the cash does not cover cost and commission.
    pub fn execute_buy(&mut self, symbol: String, quantity: Dec, price: Dec) -> (r: Result<(), String>)
        requires
            old(self)@.wf(),
            old(self)@.buy_ok(symbol@, quantity, price),
        ensures
            final(self)@.wf(),
            final(self)@ == old(self)@.after_buy(
                symbol,
                quantity,
                price,
                final(self)@.trades.last().timestamp,
            ),
            r is Ok <==> !old(self)@.buy_refused(quantity, price),
            error_text(r) == if old(self)@.buy_refused(quantity, price) {
                Some(insufficient_funds_text(old(self)@.buy_total(quantity, price), old(self)@.cash))
            } else {
                None::<Seq<char>>
            },
    {
        let ghost old_self = self@;
        let p = self.record_slippage(quantity, price, TradeSide::Buy);
        let cost = quantity.mul(p);
        let commission = cost.mul(self.commission_rate);
        let total_cost = cost.add(commission);
        if total_cost.gt(&self.cash) {
            let need = total_cost.to_string();
            let available = self.cash.to_string();
            return Err(join4("Insufficient funds: need $", need.as_str(), ", available $", available.as_str()));
        }
        self.cash = self.cash.sub(total_cost);
        proof {
            lemma_find_position(self@.positions, symbol@);
        }
        match self.position_index(symbol.as_str()) {
            Some(i) => {
                let pos = &self.positions[i];
                let total_quantity = pos.quantity.add(quantity);
                let total_cost = pos.quantity.mul(pos.avg_price).add(cost);
                let avg = total_cost.div(total_quantity);
                let new_pos = Position {
                    symbol: pos.symbol.clone(),
                    quantity: total_quantity,
                    avg_price: avg,
                    market_value: total_quantity.mul(p),
                    unrealized_pnl: p.sub(avg).mul(total_quantity),
                    side: pos.side,
                };
                self.positions.set(i, new_pos);
            },
            None => {
                self.positions.push(
                    Position {
                        symbol: symbol.clone(),
                        quantity,
                        avg_price: p,
                        market_value: quantity.mul(p),
                        unrealized_pnl: Dec::zero(),
                        side: PositionSide::Long,
                    },
                );
            },
        }
        let ts = now_millis();
        self.trades.push(
            Trade {
                symbol,
                side: TradeSide::Buy,
                quantity,
                price: p,
                timestamp: ts,
                realized_pnl: None,
                commission,
            },
        );
        proof {
            assert(self@.positions =~= old_self.positions_after_buy(symbol, quantity, price));
        }
        Ok(())
    }
}

impl Portfolio {
    /// Sells `quantity` of the symbol's position at `price` (moved down by the slippage),
    /// receiving proceeds less commission, and records the realised PnL. Refused, with the
    /// slippage cost still counted, without a position or with too small a one.
    pub fn execute_sell(&mut self, symbol: String, quantity: Dec, price: Dec) -> (r: Result<(), String>)
        requires
            old(self)@.wf(),
            old(self)@.sell_ok(symbol@, quantity, price),
        ensures
            final(self)@.wf(),
            final(self)@ == old(self)@.after_sell(
                symbol,
                quantity,
                price,
                final(self)@.trades.last().timestamp,
            ),
            r is Ok <==> old(self)@.sell_outcome(symbol@, quantity) is Ok,
            error_text(r) == match old(self)@.sell_outcome(symbol@, quantity) {
                Ok(_) => None::<Seq<char>>,
                Err(e) => Some(e),
            },
    {
        let ghost old_self = self@;
        let p = self.record_slippage(quantity, price, TradeSide::Sell);
        proof {
            lemma_find_position(self@.positions, symbol@);
        }
        let i = match self.position_index(symbol.as_str()) {
            Some(i) => i,
            None => {
                return Err(String::from_str("No position to sell"));
            },
        };
        let pos_quantity = self.positions[i].quantity;
        let pos_avg = self.positions[i].avg_price;
        if quantity.gt(&pos_quantity) {
            let need = quantity.to_string();
            let available = pos_quantity.to_string();
            return Err(join4("Insufficient position: need ", need.as_str(), ", available ", available.as_str()));
        }
        let proceeds = quantity.mul(p);
        let commission = proceeds.mul(self.commission_rate);
        let net_proceeds = proceeds.sub(commission);
        self.cash = self.cash.add(net_proceeds);
        let realized_pnl = p.sub(pos_avg).mul(quantity).sub(commission);
        let left = pos_quantity.sub(quantity);
        if left.is_zero() {
            self.positions.remove(i);
        } else {
            let pos = &self.positions[i];
            let new_pos = Position {
                symbol: pos.symbol.clone(),
                quantity: left,
                avg_price: pos.avg_price,
                market_value: left.mul(p),
                unrealized_pnl: p.sub(pos.avg_price).mul(left),
                side: pos.side,
            };
            self.positions.set(i, new_pos);
        }
        let ts = now_millis();
        self.trades.push(
            Trade {
                symbol,
                side: TradeSide::Sell,
                quantity,
                price: p,
                timestamp: ts,
                realized_pnl: Some(realized_pnl),
                commission,
            },
        );
        proof {
            assert(self@.positions =~= old_self.positions_after_sell(i as int, quantity, price));
        }
        Ok(())
    }

    /// Opens or adds to a short: sells `quantity` at `price` (moved down by the slippage) and
    /// receives the proceeds less commission. A long position of the symbol is replaced.
    pub fn execute_short_open(&mut self, symbol: String, quantity: Dec, price: Dec) -> (r: Result<(), String>)
        requires
            old(self)@.wf(),
            old(self)@.short_open_ok(symbol@, quantity, price),
        ensures
            final(self)@.wf(),
            final(self)@ == old(self)@.after_short_open(
                symbol,
                quantity,
                price,
                final(self)@.trades.last().timestamp,
            ),
            r is Ok,
    {
        let ghost old_self = self@;
        let p = self.record_slippage(quantity, price, TradeSide::Sell);
        let proceeds = quantity.mul(p);
        let commission = proceeds.mul(self.commission_rate);
        self.cash = self.cash.add(proceeds.sub(commission));
        proof {
            lemma_find_position(self@.positions, symbol@);
        }
        let fresh = Position {
            symbol: symbol.clone(),
            quantity,
            avg_price: p,
            market_value: Dec::zero(),
            unrealized_pnl: Dec::zero(),
            side: PositionSide::Short,
        };
        match self.position_index(symbol.as_str()) {
            Some(i) => {
                if self.positions[i].side == PositionSide::Short {
                    let pos = &self.positions[i];
                    let total_quantity = pos.quantity.add(quantity);
                    let total_cost = pos.quantity.mul(pos.avg_price).add(proceeds);
                    let avg = total_cost.div(total_quantity);
                    let new_pos = Position {
                        symbol: pos.symbol.clone(),
                        quantity: total_quantity,
                        avg_price: avg,
                        market_value: pos.market_value,
                        unrealized_pnl: avg.sub(p).mul(total_quantity),
                        side: pos.side,
                    };
                    self.positions.set(i, new_pos);
                } else {
                    self.positions.set(i, fresh);
                }
            },
            None => {
                self.positions.push(fresh);
            },
        }
        let ts = now_millis();
        self.trades.push(
            Trade {
                symbol,
                side: TradeSide::Sell,
                quantity,
                price: p,
                timestamp: ts,
                realized_pnl: None,
                commission,
            },
        );
        Ok(())
    }

    /// Closes `quantity` of the symbol's short: buys at `price` (moved up by the slippage),
    /// paying cost plus commission, and records the realised PnL. Refused, with the slippage
    /// cost still counted, without a position, for a long position or for too small a short.
    pub fn execute_short_close(&mut self, symbol: String, quantity: Dec, price: Dec) -> (r: Result<(), String>)
        requires
            old(self)@.wf(),
            old(self)@.short_close_ok(symbol@, quantity, price),
        ensures
            final(self)@.wf(),
            final(self)@ == old(self)@.after_short_close(
                symbol,
                quantity,
                price,
                final(self)@.trades.last().timestamp,
            ),
            r is Ok <==> old(self)@.short_close_outcome(symbol@, quantity) is Ok,
            error_text(r) == match old(self)@.short_close_outcome(symbol@, quantity) {
                Ok(_) => None::<Seq<char>>,
                Err(e) => Some(e),
            },
    {
        let ghost old_self = self@;
        let p = self.record_slippage(quantity, price, TradeSide::Buy);
        proof {
            lemma_find_position(self@.positions, symbol@);
        }
        let i = match self.position_index(symbol.as_str()) {
            Some(i) => i,
            None => {
                return Err(String::from_str("No short position to close"));
            },
        };
        if self.positions[i].side != PositionSide::Short {
            return Err(String::from_str("Position is not a short"));
        }
        let pos_quantity = self.positions[i].quantity;
        let pos_avg = self.positions[i].avg_price;
        if quantity.gt(&pos_quantity) {
            let need = quantity.to_string();
            let available = pos_quantity.to_string();
            return Err(join4("Insufficient short position: need ", need.as_str(), ", available ", available.as_str()));
        }
        let cost = quantity.mul(p);
        let commission = cost.mul(self.commission_rate);
        self.cash = self.cash.sub(cost.add(commission));
        let open_proceeds = quantity.mul(pos_avg);
        let open_commission = open_proceeds.mul(self.commission_rate);
        let realized_pnl = open_proceeds.sub(cost).sub(open_commission).sub(commission);
        let left = pos_quantity.sub(quantity);
        if left.is_zero() {
            self.positions.remove(i);
        } else {
            let pos = &self.positions[i];
            let new_pos = Position {
                symbol: pos.symbol.clone(),
                quantity: left,
                avg_price: pos.avg_price,
                market_value: pos.market_value,
                unrealized_pnl: pos.avg_price.sub(p).mul(left),
                side: pos.side,
            };
            self.positions.set(i, new_pos);
        }
        let ts = now_millis();
        self.trades.push(
            Trade {
                symbol,
                side: TradeSide::Buy,
                quantity,
                price: p,
                timestamp: ts,
                realized_pnl: Some(realized_pnl),
                commission,
            },
        );
        Ok(())
    }
}

impl Portfolio {
    /// Cash plus the market value of the longs and the unrealised PnL of the shorts.
    pub fn total_value(&self) -> (r: Dec)
        requires
            self@.total_value_spec() is Some,
        ensures
            r == self@.total_value_spec()->0,
    {
        let ghost items = self@.positions.map_values(|p: Position| PortfolioModel::value_contribution(p));
        let mut total = self.cash;
        let mut i: usize = 0;
        while i < self.positions.len()
            invariant
                items == self@.positions.map_values(|p: Position| PortfolioModel::value_contribution(p)),
                i <= self.positions@.len(),
                fold_add(self.cash, items) is Some,
                fold_add(self.cash, items.take(i as int)) == Some(total),
            decreases self.positions@.len() - i,
        {
            proof {
                lemma_fold_add_step(self.cash, items, i as nat);
                lemma_fold_add_prefix_some(self.cash, items, (i + 1) as nat);
            }
            match self.positions[i].side {
                PositionSide::Long => {
                    total = total.add(self.positions[i].market_value);
                },
                PositionSide::Short => {
                    total = total.add(self.positions[i].unrealized_pnl);
                },
            }
            i = i + 1;
        }
        proof {
            assert(items.take(items.len() as int) =~= items);
        }
        total
    }

    /// The sum of the realised PnL of the trades.
    pub fn total_realized_pnl(&self) -> (r: Dec)
        requires
            self@.realized_spec() is Some,
        ensures
            r == self@.realized_spec()->0,
    {
        let ghost items = self@.trades.map_values(|t: Trade| t.realized_pnl);
        let mut total = Dec::zero();
        let mut i: usize = 0;
        while i < self.trades.len()
            invariant
                items == self@.trades.map_values(|t: Trade| t.realized_pnl),
                i <= self.trades@.len(),
                fold_add(Dec::spec_zero(), items) is Some,
                fold_add(Dec::spec_zero(), items.take(i as int)) == Some(total),
            decreases self.trades@.len() - i,
        {
            proof {
                lemma_fold_add_step(Dec::spec_zero(), items, i as nat);
                lemma_fold_add_prefix_some(Dec::spec_zero(), items, (i + 1) as nat);
            }
            match self.trades[i].realized_pnl {
                Some(pnl) => {
                    total = total.add(pnl);
                },
                None => {},
            }
            i = i + 1;
        }
        proof {
            assert(items.take(items.len() as int) =~= items);
        }
        total
    }

    /// The sum of the unrealised PnL of the positions.
    pub fn total_unrealized_pnl(&self) -> (r: Dec)
        requires
            self@.unrealized_spec() is Some,
        ensures
            r == self@.unrealized_spec()->0,
    {
        let ghost items = self@.positions.map_values(|p: Position| Some(p.unrealized_pnl));
        let mut total = Dec::zero();
        let mut i: usize = 0;
        while i < self.positions.len()
            invariant
                items == self@.positions.map_values(|p: Position| Some(p.unrealized_pnl)),
                i <= self.positions@.len(),
                fold_add(Dec::spec_zero(), items) is Some,
                fold_add(Dec::spec_zero(), items.take(i as int)) == Some(total),
            decreases self.positions@.len() - i,
        {
            proof {
                lemma_fold_add_step(Dec::spec_zero(), items, i as nat);
                lemma_fold_add_prefix_some(Dec::spec_zero(), items, (i + 1) as nat);
            }
            total = total.add(self.positions[i].unrealized_pnl);
            i = i + 1;
        }
        proof {
            assert(items.take(items.len() as int) =~= items);
        }
        total
    }

    /// Realised plus unrealised PnL.
    pub fn total_pnl(&self) -> (r: Dec)
        requires
            self@.total_pnl_ok(),
        ensures
            r == self@.total_pnl_spec(),
    {
        self.total_realized_pnl().add(self.total_unrealized_pnl())
    }

    /// The sum of the commissions paid.
    pub fn total_commission(&self) -> (r: Dec)
        requires
            self@.commission_spec() is Some,
        ensures
            r == self@.commission_spec()->0,
    {
        let ghost items = self@.trades.map_values(|t: Trade| Some(t.commission));
        let mut total = Dec::zero();
        let mut i: usize = 0;
        while i < self.trades.len()
            invariant
                items == self@.trades.map_values(|t: Trade| Some(t.commission)),
                i <= self.trades@.len(),
                fold_add(Dec::spec_zero(), items) is Some,
                fold_add(Dec::spec_zero(), items.take(i as int)) == Some(total),
            decreases self.trades@.len() - i,
        {
            proof {
                lemma_fold_add_step(Dec::spec_zero(), items, i as nat);
                lemma_fold_add_prefix_some(Dec::spec_zero(), items, (i + 1) as nat);
            }
            total = total.add(self.trades[i].commission);
            i = i + 1;
        }
        proof {
            assert(items.take(items.len() as int) =~= items);
        }
        total
    }

    /// Whether the symbol has a position with a positive quantity.
    pub fn has_position(&self, symbol: &str) -> (r: bool)
        requires
            self@.wf(),
        ensures
            r == match find_position(self@.positions, symbol@) {
                Some(i) => self@.positions[i].quantity.value() > 0,
                None => false,
            },
    {
        match self.position_index(symbol) {
            Some(i) => self.positions[i].quantity.gt(&Dec::zero()),
            None => false,
        }
    }

    /// Whether the symbol has a long position with a positive quantity.
    pub fn has_long_position(&self, symbol: &str) -> (r: bool)
        requires
            self@.wf(),
        ensures
            r == match find_position(self@.positions, symbol@) {
                Some(i) => self@.positions[i].side == PositionSide::Long
                    && self@.positions[i].quantity.value() > 0,
                None => false,
            },
    {
        match self.position_index(symbol) {
            Some(i) => self.positions[i].side == PositionSide::Long && self.positions[i].quantity.gt(
                &Dec::zero(),
            ),
            None => false,
        }
    }

    /// Whether the symbol has a short position with a positive quantity.
    pub fn has_short_position(&self, symbol: &str) -> (r: bool)
        requires
            self@.wf(),
        ensures
            r == match find_position(self@.positions, symbol@) {
                Some(i) => self@.positions[i].side == PositionSide::Short
                    && self@.positions[i].quantity.value() > 0,
                None => false,
            },
    {
        match self.position_index(symbol) {
            Some(i) => self.positions[i].side == PositionSide::Short && self.positions[i].quantity.gt(
                &Dec::zero(),
            ),
            None => false,
        }
    }

    /// The side of the symbol's position, if it has a positive quantity.
    pub fn get_position_side(&self, symbol: &str) -> (r: Option<PositionSide>)
        requires
            self@.wf(),
        ensures
            r == match find_position(self@.positions, symbol@) {
                Some(i) => if self@.positions[i].quantity.value() > 0 {
                    Some(self@.positions[i].side)
                } else {
                    None
                },
                None => None,
            },
    {
        match self.position_index(symbol) {
            Some(i) => {
                if self.positions[i].quantity.gt(&Dec::zero()) {
                    Some(self.positions[i].side)
                } else {
                    None
                }
            },
            None => None,
        }
    }
}

} // verus!
