//! Unified account snapshots of exchanges (balances, positions).
//!
//! Instants are milliseconds since the epoch; the exchange's raw JSON is kept as text.
use crate::decimal::{abs_of, can_div, can_mul, decimal_checked_div, decimal_checked_mul, product, quotient, Dec};
use crate::text::{ascii_lower_char, ascii_only, ascii_upper_char, str_eq, to_lowercase, to_uppercase, unicode_lower, unicode_upper};
use vstd::prelude::*;

verus! {

/// Account-level summary of one exchange account.
#[derive(Debug, Clone)]
pub struct AccountSnapshot {
    /// "binance" / "okx"
    pub exchange: String,
    /// "spot" / "futures" / "swap"
    pub market_type: String,
    pub uid: Option<String>,
    pub snapshot_at: i64,
    pub total_equity: Dec,
    pub total_balance: Dec,
    pub available_balance: Dec,
    pub frozen_balance: Dec,
    pub unrealized_pnl: Dec,
    pub initial_margin: Option<Dec>,
    pub maint_margin: Option<Dec>,
    pub margin_ratio: Option<Dec>,
    pub position_count: i32,
    /// The exchange's raw answer, as JSON text.
    pub raw_data: Option<String>,
}

impl AccountSnapshot {
    /// The margin ratio this snapshot implies, when it has one.
    pub open spec fn margin_ratio_spec(self) -> Option<Dec> {
        match self.margin_ratio {
            Some(ratio) => Some(ratio),
            None => match self.maint_margin {
                Some(mmr) => if mmr.value() > 0 {
                    Some(quotient(self.total_equity, mmr))
                } else {
                    None
                },
                None => None,
            },
        }
    }

    /// The margin ratio: the stated one, else the total equity over the maintenance margin
    /// when the latter is positive.
    pub fn calc_margin_ratio(&self) -> (r: Option<Dec>)
        requires
            self.margin_ratio is None ==> match self.maint_margin {
                Some(mmr) => mmr.value() > 0 ==> can_div(self.total_equity, mmr),
                None => true,
            },
        ensures
            r == self.margin_ratio_spec(),
    {
        if let Some(ratio) = self.margin_ratio {
            return Some(ratio);
        }
        match self.maint_margin {
            Some(mmr) => {
                if mmr.gt(&Dec::zero()) {
                    Some(self.total_equity.div(mmr))
                } else {
                    None
                }
            },
            None => None,
        }
    }

    /// Whether the snapshot is of a futures or swap account.
    pub fn is_futures(&self) -> (r: bool)
        ensures
            r == (self.market_type@ == seq!['f', 'u', 't', 'u', 'r', 'e', 's'] || self.market_type@
                == seq!['s', 'w', 'a', 'p']),
    {
        proof {
            reveal_strlit("futures");
            reveal_strlit("swap");
            assert("futures"@ =~= seq!['f', 'u', 't', 'u', 'r', 'e', 's']);
            assert("swap"@ =~= seq!['s', 'w', 'a', 'p']);
        }
        str_eq(self.market_type.as_str(), "futures") || str_eq(self.market_type.as_str(), "swap")
    }
}

/// Balance of one asset.
#[derive(Debug, Clone)]
pub struct AssetBalance {
    pub exchange: String,
    pub market_type: String,
    pub uid: Option<String>,
    /// "USDT" / "BTC"
    pub asset: String,
    pub snapshot_at: i64,
    pub total: Dec,
    pub available: Dec,
    pub frozen: Dec,
    pub unrealized_pnl: Dec,
    pub usd_value: Option<Dec>,
}

/// Side of an exchange position.
#[derive(Debug, Clone, Copy, PartialEq, Eq, Hash, Structural)]
pub enum PositionSide {
    Long,
    Short,
    Net,
}

impl PositionSide {
    /// The text form of each variant.
    pub open spec fn text(self) -> Seq<char> {
        match self {
            PositionSide::Long => seq!['L', 'O', 'N', 'G'],
            PositionSide::Short => seq!['S', 'H', 'O', 'R', 'T'],
            PositionSide::Net => seq!['N', 'E', 'T'],
        }
    }

    /// The variant whose text form is `t`, `Net` for any other text.
    pub open spec fn from_text(t: Seq<char>) -> PositionSide {
        if t == PositionSide::Long.text() {
            PositionSide::Long
        } else if t == PositionSide::Short.text() {
            PositionSide::Short
        } else {
            PositionSide::Net
        }
    }

    pub fn as_str(&self) -> (r: &'static str)
        ensures
            r@ == self.text(),
    {
        match self {
            PositionSide::Long => {
                proof {
                    reveal_strlit("LONG");
                }
                "LONG"
            },
            PositionSide::Short => {
                proof {
                    reveal_strlit("SHORT");
                }
                "SHORT"
            },
            PositionSide::Net => {
                proof {
                    reveal_strlit("NET");
                }
                "NET"
            },
        }
    }

    /// Parses the text form, ignoring case (the text is case-mapped by `str::to_uppercase`).
    pub fn from_str(s: &str) -> (r: PositionSide)
        ensures
            r == PositionSide::from_text(unicode_upper(s@)),
            ascii_only(s@) ==> r == PositionSide::from_text(s@.map_values(|c: char| ascii_upper_char(c))),
    {
        let mapped = to_uppercase(s);
        let u = mapped.as_str();
        proof {
            reveal_strlit("LONG");
            assert("LONG"@ =~= PositionSide::Long.text());
            reveal_strlit("SHORT");
            assert("SHORT"@ =~= PositionSide::Short.text());
            reveal_strlit("NET");
            assert("NET"@ =~= PositionSide::Net.text());
        }
        if str_eq(u, "LONG") {
            PositionSide::Long
        } else if str_eq(u, "SHORT") {
            PositionSide::Short
        } else {
            PositionSide::Net
        }
    }

    /// Each variant's text is ASCII, is left as it is by the case mapping, and parses back
    /// to the variant.
    pub proof fn lemma_text_roundtrip(self)
        ensures
            ascii_only(self.text()),
            self.text().map_values(|c: char| ascii_upper_char(c)) == self.text(),
            PositionSide::from_text(self.text()) == self,
    {
        match self {
            PositionSide::Long => {
                assert(self.text().map_values(|c: char| ascii_upper_char(c)) =~= self.text());
            },
            PositionSide::Short => {
                assert(self.text().map_values(|c: char| ascii_upper_char(c)) =~= self.text());
            },
            PositionSide::Net => {
                assert(self.text().map_values(|c: char| ascii_upper_char(c)) =~= self.text());
            },
        }
    }

}

/// Margin type of an exchange position.
#[derive(Debug, Clone, Copy, PartialEq, Eq, Hash, Structural)]
pub enum MarginType {
    Cross,
    Isolated,
}

impl MarginType {
    /// The text form of each variant.
    pub open spec fn text(self) -> Seq<char> {
        match self {
            MarginType::Cross => seq!['c', 'r', 'o', 's', 's'],
            MarginType::Isolated => seq!['i', 's', 'o', 'l', 'a', 't', 'e', 'd'],
        }
    }

    /// The variant whose text form is `t`, `Cross` for any other text.
    pub open spec fn from_text(t: Seq<char>) -> MarginType {
        if t == MarginType::Isolated.text() {
            MarginType::Isolated
        } else {
            MarginType::Cross
        }
    }

    pub fn as_str(&self) -> (r: &'static str)
        ensures
            r@ == self.text(),
    {
        match self {
            MarginType::Cross => {
                proof {
                    reveal_strlit("cross");
                }
                "cross"
            },
            MarginType::Isolated => {
                proof {
                    reveal_strlit("isolated");
                }
                "isolated"
            },
        }
    }

    /// Parses the text form, ignoring case (the text is case-mapped by `str::to_lowercase`).
    pub fn from_str(s: &str) -> (r: MarginType)
        ensures
            r == MarginType::from_text(unicode_lower(s@)),
            ascii_only(s@) ==> r == MarginType::from_text(s@.map_values(|c: char| ascii_lower_char(c))),
    {
        let mapped = to_lowercase(s);
        let u = mapped.as_str();
        proof {
            reveal_strlit("cross");
            assert("cross"@ =~= MarginType::Cross.text());
            reveal_strlit("isolated");
            assert("isolated"@ =~= MarginType::Isolated.text());
        }
        if str_eq(u, "isolated") {
            MarginType::Isolated
        } else {
            MarginType::Cross
        }
    }

    /// Each variant's text is ASCII, is left as it is by the case mapping, and parses back
    /// to the variant.
    pub proof fn lemma_text_roundtrip(self)
        ensures
            ascii_only(self.text()),
            self.text().map_values(|c: char| ascii_lower_char(c)) == self.text(),
            MarginType::from_text(self.text()) == self,
    {
        match self {
            MarginType::Cross => {
                assert(self.text().map_values(|c: char| ascii_lower_char(c)) =~= self.text());
            },
            MarginType::Isolated => {
                assert(self.text().map_values(|c: char| ascii_lower_char(c)) =~= self.text());
            },
        }
    }

}

/// One open position on an exchange.
#[derive(Debug, Clone)]
pub struct PositionInfo {
    pub exchange: String,
    pub uid: Option<String>,
    pub symbol: String,
    pub raw_symbol: String,
    pub snapshot_at: i64,
    pub position_side: PositionSide,
    pub position_amt: Dec,
    pub entry_price: Dec,
    pub mark_price: Dec,
    pub unrealized_pnl: Dec,
    pub leverage: u32,
    pub margin_type: MarginType,
    pub initial_margin: Dec,
    pub maint_margin: Dec,
    pub liquidation_price: Option<Dec>,
    pub notional: Dec,
    pub break_even_price: Option<Dec>,
    pub isolated_wallet: Option<Dec>,
    /// The exchange's raw answer, as JSON text.
    pub raw_data: Option<String>,
}

impl PositionInfo {
    /// The cost of the position: entry price times the absolute amount.
    pub open spec fn cost_spec(self) -> Dec {
        product(self.entry_price, abs_of(self.position_amt))
    }

    /// Unrealised PnL over the cost, or zero when the cost is not positive.
    pub open spec fn pnl_ratio_spec(self) -> Dec {
        if self.cost_spec().value() > 0 {
            quotient(self.unrealized_pnl, self.cost_spec())
        } else {
            Dec::spec_zero()
        }
    }

    /// Unrealised PnL relative to the position's cost.
    pub fn pnl_ratio(&self) -> (r: Dec)
        requires
            can_mul(self.entry_price, abs_of(self.position_amt)),
            self.cost_spec().value() > 0 ==> can_div(self.unrealized_pnl, self.cost_spec()),
        ensures
            r == self.pnl_ratio_spec(),
    {
        let amt = self.position_amt.abs();
        let cost = self.entry_price.mul(amt);
        if cost.gt(&Dec::zero()) {
            self.unrealized_pnl.div(cost)
        } else {
            Dec::zero()
        }
    }

    /// The ratio stored with a position snapshot: unrealised PnL over entry price times the
    /// absolute amount when the entry price is positive, none otherwise; the outer `None` where
    /// the product overflows or the division fails (a zero amount), where `Decimal` would panic.
    pub open spec fn snapshot_ratio_spec(self) -> Option<Option<Dec>> {
        if self.entry_price.value() > 0 {
            match decimal_checked_mul(self.entry_price, abs_of(self.position_amt)) {
                Some(cost) => match decimal_checked_div(self.unrealized_pnl, cost) {
                    Some(q) => Some(Some(q)),
                    None => None,
                },
                None => None,
            }
        } else {
            Some(None)
        }
    }

    /// The PnL ratio stored with a position snapshot.
    pub fn snapshot_pnl_ratio(&self) -> (r: Option<Option<Dec>>)
        ensures
            r == self.snapshot_ratio_spec(),
    {
        if self.entry_price.gt(&Dec::zero()) {
            let cost = self.entry_price.checked_mul(self.position_amt.abs())?;
            let q = self.unrealized_pnl.checked_div(cost)?;
            Some(Some(q))
        } else {
            Some(None)
        }
    }

    /// Whether the amount is positive.
    pub fn is_long(&self) -> (r: bool)
        ensures
            r == (self.position_amt.value() > 0),
    {
        self.position_amt.gt(&Dec::zero())
    }

    /// Whether the amount is negative.
    pub fn is_short(&self) -> (r: bool)
        ensures
            r == (self.position_amt.value() < 0),
    {
        self.position_amt.lt(&Dec::zero())
    }

    /// The absolute notional value.
    pub fn abs_notional(&self) -> (r: Dec)
        ensures
            r.mant() == (if self.notional.mant() < 0 { -self.notional.mant() } else { self.notional.mant() }),
            r.scl() == self.notional.scl(),
    {
        self.notional.abs()
    }
}

} // verus!
