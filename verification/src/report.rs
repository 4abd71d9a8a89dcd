//! The figures of a backtest's trade analysis: buy and sell counts, the sells that made a
//! profit, the gross profit and loss of the sells and their averages.
use crate::decimal::{decimal_checked_add, decimal_checked_div, Dec};
use crate::portfolio::Trade;
use crate::types::TradeSide;
use vstd::prelude::*;

verus! {

/// The counts and gross figures of a list of trades.
#[derive(Clone, Copy, Debug)]
pub struct TradeAnalysis {
    pub buy_trades: usize,
    pub sell_trades: usize,
    /// Sells with a positive realised PnL.
    pub profitable_sells: usize,
    /// The sum of the positive realised PnLs of the sells.
    pub total_profit: Dec,
    /// The sum of the negative realised PnLs of the sells (a negative number or zero).
    pub total_loss: Dec,
}

/// The analysis before any trade.
pub open spec fn analysis_start() -> TradeAnalysis {
    TradeAnalysis {
        buy_trades: 0,
        sell_trades: 0,
        profitable_sells: 0,
        total_profit: Dec::spec_zero(),
        total_loss: Dec::spec_zero(),
    }
}

/// The analysis after one more trade: a buy is counted; a sell is counted, and its realised
/// PnL, if any, goes to the profit (positive) or the loss (negative). `None` when a sum
/// overflows.
pub open spec fn analysis_step(a: TradeAnalysis, t: Trade) -> Option<TradeAnalysis> {
    match t.side {
        TradeSide::Buy => Some(TradeAnalysis { buy_trades: (a.buy_trades + 1) as usize, ..a }),
        TradeSide::Sell => {
            let counted = TradeAnalysis { sell_trades: (a.sell_trades + 1) as usize, ..a };
            match t.realized_pnl {
                Some(p) => if p.value() > 0 {
                    match decimal_checked_add(a.total_profit, p) {
                        Some(s) => Some(
                            TradeAnalysis {
                                profitable_sells: (a.profitable_sells + 1) as usize,
                                total_profit: s,
                                ..counted
                            },
                        ),
                        None => None,
                    }
                } else if p.value() < 0 {
                    match decimal_checked_add(a.total_loss, p) {
                        Some(s) => Some(TradeAnalysis { total_loss: s, ..counted }),
                        None => None,
                    }
                } else {
                    Some(counted)
                },
                None => Some(counted),
            }
        },
    }
}

/// The analysis of the trades in order, or `None` when a sum overflows.
pub open spec fn analysis_of(trades: Seq<Trade>) -> Option<TradeAnalysis>
    decreases trades.len(),
{
    if trades.len() == 0 {
        Some(analysis_start())
    } else {
        match analysis_of(trades.drop_last()) {
            Some(a) => analysis_step(a, trades.last()),
            None => None,
        }
    }
}

/// Counts of an analysis of `n` trades stay within `n`.
pub open spec fn analysis_bounded(a: TradeAnalysis, n: int) -> bool {
    &&& a.buy_trades + a.sell_trades == n
    &&& a.profitable_sells <= a.sell_trades
}

/// Every trade is counted once, as a buy or a sell, and profitable sells are sells.
pub proof fn lemma_analysis_bounded(trades: Seq<Trade>)
    requires
        trades.len() <= usize::MAX,
    ensures
        analysis_of(trades) matches Some(a) ==> analysis_bounded(a, trades.len() as int),
    decreases trades.len(),
{
    if trades.len() > 0 {
        lemma_analysis_bounded(trades.drop_last());
    }
}

/// Once the analysis of a prefix fails, that of the whole does.
proof fn lemma_analysis_none_extends(trades: Seq<Trade>, k: nat)
    requires
        k < trades.len(),
        analysis_of(trades.take((k + 1) as int)) is None,
    ensures
        analysis_of(trades) is None,
    decreases trades.len() - k,
{
    if k + 1 < trades.len() {
        assert(trades.take((k + 2) as int).drop_last() =~= trades.take((k + 1) as int));
        lemma_analysis_none_extends(trades, k + 1);
    } else {
        assert(trades.take((k + 1) as int) =~= trades);
    }
}

/// The analysis of the trades; `None` when a sum overflows.
pub fn trade_analysis(trades: &Vec<Trade>) -> (r: Option<TradeAnalysis>)
    ensures
        r == analysis_of(trades@),
{
    let zero = Dec::zero();
    let mut a = TradeAnalysis { buy_trades: 0, sell_trades: 0, profitable_sells: 0, total_profit: zero, total_loss: zero };
    let mut i: usize = 0;
    while i < trades.len()
        invariant
            i <= trades@.len(),
            zero.value() == 0,
            analysis_of(trades@.take(i as int)) == Some(a),
            analysis_bounded(a, i as int),
        decreases trades@.len() - i,
    {
        proof {
            assert(trades@.take(i as int + 1).drop_last() =~= trades@.take(i as int));
            assert(trades@.take(i as int + 1).last() == trades@[i as int]);
        }
        let t = &trades[i];
        match t.side {
            TradeSide::Buy => {
                a = TradeAnalysis { buy_trades: a.buy_trades + 1, ..a };
            },
            TradeSide::Sell => {
                let counted = TradeAnalysis { sell_trades: a.sell_trades + 1, ..a };
                match t.realized_pnl {
                    Some(p) => {
                        if p.gt(&zero) {
                            match a.total_profit.checked_add(p) {
                                Some(s) => {
                                    a = TradeAnalysis {
                                        profitable_sells: a.profitable_sells + 1,
                                        total_profit: s,
                                        ..counted
                                    };
                                },
                                None => {
                                    proof {
                                        lemma_analysis_none_extends(trades@, i as nat);
                                    }
                                    return None;
                                },
                            }
                        } else if p.lt(&zero) {
                            match a.total_loss.checked_add(p) {
                                Some(s) => {
                                    a = TradeAnalysis { total_loss: s, ..counted };
                                },
                                None => {
                                    proof {
                                        lemma_analysis_none_extends(trades@, i as nat);
                                    }
                                    return None;
                                },
                            }
                        } else {
                            a = counted;
                        }
                    },
                    None => {
                        a = counted;
                    },
                }
            },
        }
        i = i + 1;
    }
    proof {
        assert(trades@.take(trades@.len() as int) =~= trades@);
    }
    Some(a)
}

/// The average profit of the profitable sells and the average loss of the others (sells that
/// did not make a profit, those without a PnL included), each `None` when there are none;
/// the outer `None` when a division fails.
pub open spec fn averages_of(a: TradeAnalysis) -> Option<(Option<Dec>, Option<Dec>)> {
    let losing = a.sell_trades - a.profitable_sells;
    let avg_profit = if a.profitable_sells > 0 {
        match decimal_checked_div(a.total_profit, Dec::spec_new(a.profitable_sells as int, 0)) {
            Some(v) => Some(Some(v)),
            None => None,
        }
    } else {
        Some(None)
    };
    let avg_loss = if losing > 0 {
        match decimal_checked_div(a.total_loss, Dec::spec_new(losing, 0)) {
            Some(v) => Some(Some(v)),
            None => None,
        }
    } else {
        Some(None)
    };
    match (avg_profit, avg_loss) {
        (Some(p), Some(l)) => Some((p, l)),
        _ => None,
    }
}

/// The average profit per profitable sell and loss per other sell.
pub fn trade_averages(a: &TradeAnalysis) -> (r: Option<(Option<Dec>, Option<Dec>)>)
    requires
        a.profitable_sells <= a.sell_trades,
    ensures
        r == averages_of(*a),
{
    let losing = a.sell_trades - a.profitable_sells;
    let avg_profit = if a.profitable_sells > 0 {
        Some(a.total_profit.checked_div(Dec::from_usize(a.profitable_sells))?)
    } else {
        None
    };
    let avg_loss = if losing > 0 {
        Some(a.total_loss.checked_div(Dec::from_usize(losing))?)
    } else {
        None
    };
    Some((avg_profit, avg_loss))
}

} // verus!
