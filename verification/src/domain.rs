//! What the backtester trades on: candles, signals, symbols and accounts.

use vstd::prelude::*;

use crate::decimal::{Decimal, Number};
use crate::time::Instant;

verus! {

/// The direction of a trade.
#[derive(Clone, Copy, Debug, PartialEq, Eq, Structural)]
pub enum Side {
    Long,
    Short,
}

/// The span of one bar.
#[derive(Clone, Copy, Debug, PartialEq, Eq, Structural)]
pub enum Timeframe {
    M1,
    M2,
    M3,
    M4,
    M5,
    M6,
    M10,
    M12,
    M15,
    M20,
    M30,
    H1,
    H2,
    H3,
    H4,
    H6,
    H8,
    H12,
    D1,
    W1,
    Mn1,
}

/// One bar of prices. Prices are bids.
#[derive(Clone, Copy, Debug)]
pub struct Candle {
    pub time: Instant,
    pub open: Decimal,
    pub high: Decimal,
    pub low: Decimal,
    pub close: Decimal,
    pub tick_volume: u64,
    pub spread: i32,
    pub real_volume: u64,
}

/// A proposed trade: where to enter, where to stop out, where to take profit.
#[derive(Clone, Copy, Debug)]
pub struct TradeSignal {
    pub side: Side,
    pub entry: Decimal,
    pub sl: Decimal,
    pub tp: Decimal,
}

/// A tradable instrument.
#[derive(Debug)]
pub struct Symbol {
    pub name: String,
    pub description: String,
    pub digits: u8,
    pub point: Decimal,
    pub bid: Decimal,
    pub ask: Decimal,
    pub spread: i32,
    pub spread_float: bool,
    pub volume_min: Decimal,
    pub volume_max: Decimal,
    pub volume_step: Decimal,
    pub trade_contract_size: Decimal,
    pub currency_base: String,
    pub currency_profit: String,
    pub category: String,
}

/// A trading account.
#[derive(Debug)]
pub struct AccountInfo {
    pub login: u64,
    pub leverage: u32,
    pub trade_allowed: bool,
    pub trade_expert: bool,
    pub currency: String,
    pub currency_digits: u8,
    pub server: String,
    pub name: String,
    pub company: String,
    pub balance: Decimal,
    pub equity: Decimal,
    pub profit: Decimal,
    pub credit: Decimal,
    pub margin: Decimal,
    pub margin_free: Decimal,
    pub margin_level: Decimal,
}

/// What position sizing needs to know of the instrument and the trader.
#[derive(Clone, Copy, Debug)]
pub struct RiskConfig {
    pub risk_pct: Decimal,
    pub value_per_lot: Decimal,
    pub min_volume: Decimal,
    pub max_volume: Decimal,
    pub volume_step: Decimal,
}

/// What position sizing needs to know, as numbers.
pub struct RiskTerms {
    pub risk_pct: Number,
    pub value_per_lot: Number,
    pub min_volume: Number,
    pub max_volume: Number,
    pub volume_step: Number,
}

impl View for RiskConfig {
    type V = RiskTerms;

    open spec fn view(&self) -> RiskTerms {
        RiskTerms {
            risk_pct: self.risk_pct@,
            value_per_lot: self.value_per_lot@,
            min_volume: self.min_volume@,
            max_volume: self.max_volume@,
            volume_step: self.volume_step@,
        }
    }
}

/// What position sizing decided of a signal.
#[derive(Clone, Copy, Debug)]
pub struct RiskDecision {
    pub approved: bool,
    pub volume: Decimal,
}

} // verus!
