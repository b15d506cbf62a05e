//! The rules of a backtest: what trading costs, how trades are managed, and
//! which entries are looked for.

use vstd::prelude::*;

use crate::decimal::Decimal;
use crate::domain::RiskConfig;
use crate::killzone::KillzoneWindow;

verus! {

/// Everything that decides what the backtester does with candles and signals.
#[derive(Debug)]
pub struct Rules {
    /// Spread in price units.
    pub spread_price: Decimal,
    /// Extra slippage on stop exits, in price units.
    pub slippage_price: Decimal,
    /// Round-trip commission per lot in account currency.
    pub commission_per_lot: Decimal,
    /// Units of the instrument in one lot.
    pub contract_size: Decimal,
    /// The instrument's profit is in dollars, the currency of the account.
    pub profit_is_usd: bool,
    /// Position sizing, before any currency conversion.
    pub risk: RiskConfig,
    /// Smallest accepted reward-to-risk ratio; zero for no filter.
    pub min_rr: Decimal,
    /// Smallest accepted stop distance.
    pub min_sl_distance: Decimal,
    /// Smallest accepted stop distance as a multiple of the ATR.
    pub atr_sl_mult: Option<Decimal>,
    /// Smallest ATR at which entries are looked for.
    pub atr_min_price: Option<Decimal>,
    /// Hours at which entries are looked for.
    pub killzone_windows: Vec<KillzoneWindow>,
    /// Skip entries on Mondays and Fridays.
    pub dow_filter: bool,
    /// First day on which entries are looked for.
    pub date_from: Option<i32>,
    /// Last day on which entries are looked for.
    pub date_to: Option<i32>,
    /// Period of the trend EMA; zero for no trend filter.
    pub trend_ema_period: usize,
    /// The trend EMA is over the traded candles themselves.
    pub trend_tf_h1: bool,
    /// Entries must agree with the EMA of the H4 candles too.
    pub trend_h4_confirm: bool,
    /// Move the stop to the entry once the price has moved by the risk.
    pub breakeven_sl_1r: bool,
    /// Close half of the position at that point.
    pub partial_tp_1r: bool,
    /// Move the stop to the 1R level once the price has moved by twice the risk.
    pub trailing_2r: bool,
    /// Close a quarter of the position at that point.
    pub partial_tp_2r: bool,
    /// Close a trade that is this many candles old; zero to leave it open.
    pub timeout_candles: usize,
    /// Close a trade on Friday at or after this hour.
    pub friday_close_hour: Option<u32>,
}

} // verus!
