//! The settings of a backtest, read from environment variables.

use vstd::prelude::*;
use vstd::string::*;

use crate::decimal::{fixed_text, less, opt_view, parsed_decimal, product, whole_number};
use crate::decimal::{exact_product, law_exact_product, lemma_unit, lemma_whole_units};
use crate::decimal::{product_is_exact, ten_to, unit, zero_number};
use crate::decimal::{Decimal, Number};
use crate::domain::{RiskConfig, Symbol};
use crate::failure::{fault, fault_by, Failure, Fault};
use crate::killzone::{lemma_session_windows, parse_killzone_windows, parsed_windows};
use crate::killzone::KillzoneWindow;
use crate::rules::Rules;
use crate::text::{chars_of, equal_ignoring_case, integer_complaint, lowercased, parse_unsigned};
use crate::text::{integer_trouble, integer_trouble_text, parsed_unsigned};
use crate::text::{same_ignoring_case, same_text, trimmed, trimmed_lowercase};
use crate::text::{all_ascii, trimmed_uppercase, two_digits, uppercased};
use crate::text::{law_case_is_the_only_difference, law_numbers_are_read_back, nat_text};
use crate::text::{lemma_nothing_to_trim, lemma_two_digits, lemma_two_digits_read_back};
use crate::time::{parse_date, read_date};

verus! {

/// The environment variables that a backtest reads, each with the reason where
/// it cannot be had.
#[derive(Debug)]
pub struct Environment {
    pub symbol: Result<String, String>,
    pub timeframe: Result<String, String>,
    pub candle_count: Result<String, String>,
    pub risk_pct: Result<String, String>,
    pub backtest_candles: Result<String, String>,
    pub backtest_balance: Result<String, String>,
    pub min_sl_distance: Result<String, String>,
    pub slippage_points: Result<String, String>,
    pub spread_override: Result<String, String>,
    pub commission_per_lot: Result<String, String>,
    pub swing_period: Result<String, String>,
    pub min_rr: Result<String, String>,
    pub killzone_windows: Result<String, String>,
    pub atr_sl_mult: Result<String, String>,
    pub breakeven_sl_1r: Result<String, String>,
    pub partial_tp_1r: Result<String, String>,
    pub timeout_candles: Result<String, String>,
    pub trend_ema_period: Result<String, String>,
    pub trend_tf: Result<String, String>,
    pub trend_h4_confirm: Result<String, String>,
    pub trend_h4_period: Result<String, String>,
    pub dow_filter: Result<String, String>,
    pub trailing_2r: Result<String, String>,
    pub partial_tp_2r: Result<String, String>,
    pub friday_close_hour: Result<String, String>,
    pub atr_min_price: Result<String, String>,
    pub date_from: Result<String, String>,
    pub date_to: Result<String, String>,
}

/// The text of a variable that has to be set.
pub open spec fn required(v: Result<String, String>, missing: Seq<char>) -> Result<
    Seq<char>,
    Fault,
> {
    match v {
        Ok(s) => Ok(s@),
        Err(e) => Err(fault_by(missing, e@)),
    }
}

/// The text of a variable, or of its default.
pub open spec fn or_default(v: Result<String, String>, default: Seq<char>) -> Seq<char> {
    match v {
        Ok(s) => s@,
        Err(_) => default,
    }
}

/// The decimal that a text writes.
pub open spec fn decimal_in(text: Seq<char>, complaint: Seq<char>) -> Result<Number, Fault> {
    match parsed_decimal(text) {
        Ok(n) => Ok(n),
        Err(e) => Err(fault_by(complaint, e)),
    }
}

/// The decimal that a variable writes, or its default.
pub open spec fn decimal_or(
    v: Result<String, String>,
    default: Number,
    complaint: Seq<char>,
) -> Result<Number, Fault> {
    match v {
        Ok(s) => decimal_in(s@, complaint),
        Err(_) => Ok(default),
    }
}

/// The unsigned integer that a text writes.
pub open spec fn unsigned_in(text: Seq<char>, max: nat, complaint: Seq<char>) -> Result<nat, Fault> {
    match parsed_unsigned(text, max) {
        Some(n) => Ok(n),
        None => Err(
            fault_by(complaint, integer_trouble_text(integer_trouble(text, max)->0)),
        ),
    }
}

/// An integer that must not be above `limit`.
pub open spec fn not_above(n: Result<nat, Fault>, limit: nat, complaint: Seq<char>) -> Result<
    nat,
    Fault,
> {
    match n {
        Ok(x) => if x > limit {
            Err(fault(complaint))
        } else {
            Ok(x)
        },
        Err(e) => Err(e),
    }
}

/// A decimal that must not be negative.
pub open spec fn not_negative(n: Result<Number, Fault>, complaint: Seq<char>) -> Result<
    Number,
    Fault,
> {
    match n {
        Ok(x) => if less(x, zero_number()) {
            Err(fault(complaint))
        } else {
            Ok(x)
        },
        Err(e) => Err(e),
    }
}

/// An integer that must not be zero.
pub open spec fn not_zero(n: Result<nat, Fault>, complaint: Seq<char>) -> Result<nat, Fault> {
    match n {
        Ok(x) => if x == 0 {
            Err(fault(complaint))
        } else {
            Ok(x)
        },
        Err(e) => Err(e),
    }
}

/// The decimal that a variable writes, where it is set.
pub open spec fn optional_decimal(v: Result<String, String>, complaint: Seq<char>) -> Result<
    Option<Number>,
    Fault,
> {
    match v {
        Err(_) => Ok(None),
        Ok(s) => match decimal_in(s@, complaint) {
            Ok(n) => Ok(Some(n)),
            Err(e) => Err(e),
        },
    }
}

/// The decimal that a variable writes, where it is set and above zero.
pub open spec fn positive_decimal(v: Result<String, String>, complaint: Seq<char>) -> Result<
    Option<Number>,
    Fault,
> {
    match optional_decimal(v, complaint) {
        Ok(Some(n)) => if less(zero_number(), n) {
            Ok(Some(n))
        } else {
            Ok(None)
        },
        other => other,
    }
}

/// The day that a variable writes, where it is set.
pub open spec fn optional_day(v: Result<String, String>, complaint: Seq<char>) -> Result<
    Option<int>,
    Fault,
> {
    match v {
        Err(_) => Ok(None),
        Ok(s) => match read_date(s@) {
            Ok(d) => Ok(Some(d)),
            Err(e) => Err(fault_by(complaint, e)),
        },
    }
}

/// A switch is on where its text is `true`, in any case and with white space
/// round it.
pub open spec fn switched_on(text: Seq<char>) -> bool {
    lowercased(trimmed(text)) == "true"@
}

/// What is wrong, where something is.
pub open spec fn fault_of<T>(r: Result<T, Fault>) -> Option<Fault> {
    match r {
        Ok(_) => None,
        Err(e) => Some(e),
    }
}

/// The first thing that is wrong.
pub open spec fn first(a: Option<Fault>, b: Option<Fault>) -> Option<Fault> {
    match a {
        Some(e) => Some(e),
        None => b,
    }
}

pub(crate) fn required_text<'a>(v: &'a Result<String, String>, missing: &str) -> (res: Result<
    &'a String,
    Failure,
>)
    ensures
        match res {
            Ok(s) => required(*v, missing@) == Ok::<Seq<char>, Fault>(s@) && *v == Ok::<
                String,
                String,
            >(*s),
            Err(e) => required(*v, missing@) == Err::<Seq<char>, Fault>(e@),
        },
{
    match v {
        Ok(s) => Ok(s),
        Err(e) => Err(Failure::caused_by(missing, e.as_str())),
    }
}

pub(crate) fn text_or<'a>(v: &'a Result<String, String>, default: &'a str) -> (res: &'a str)
    ensures
        res@ == or_default(*v, default@),
{
    match v {
        Ok(s) => s.as_str(),
        Err(_) => default,
    }
}

fn read_decimal(text: &str, complaint: &str) -> (res: Result<Decimal, Failure>)
    ensures
        match res {
            Ok(d) => decimal_in(text@, complaint@) == Ok::<Number, Fault>(d@),
            Err(e) => decimal_in(text@, complaint@) == Err::<Number, Fault>(e@),
        },
{
    match Decimal::parse(text) {
        Ok(d) => Ok(d),
        Err(e) => Err(Failure::caused_by(complaint, e.as_str())),
    }
}

fn read_decimal_or(v: &Result<String, String>, default: Decimal, complaint: &str) -> (res: Result<
    Decimal,
    Failure,
>)
    ensures
        match res {
            Ok(d) => decimal_or(*v, default@, complaint@) == Ok::<Number, Fault>(d@),
            Err(e) => decimal_or(*v, default@, complaint@) == Err::<Number, Fault>(e@),
        },
{
    match v {
        Ok(s) => read_decimal(s.as_str(), complaint),
        Err(_) => Ok(default),
    }
}

pub(crate) fn read_unsigned(text: &str, max: u64, complaint: &str) -> (res: Result<u64, Failure>)
    ensures
        match res {
            Ok(n) => n <= max && unsigned_in(text@, max as nat, complaint@) == Ok::<nat, Fault>(
                n as nat,
            ),
            Err(e) => unsigned_in(text@, max as nat, complaint@) == Err::<nat, Fault>(e@),
        },
{
    match parse_unsigned(&chars_of(text), max) {
        Ok(n) => Ok(n),
        Err(t) => Err(Failure::caused_by(complaint, integer_complaint(t))),
    }
}

fn read_optional_decimal(v: &Result<String, String>, complaint: &str) -> (res: Result<
    Option<Decimal>,
    Failure,
>)
    ensures
        match res {
            Ok(Some(d)) => optional_decimal(*v, complaint@) == Ok::<Option<Number>, Fault>(
                Some(d@),
            ),
            Ok(None) => optional_decimal(*v, complaint@) == Ok::<Option<Number>, Fault>(None),
            Err(e) => optional_decimal(*v, complaint@) == Err::<Option<Number>, Fault>(e@),
        },
{
    match v {
        Err(_) => Ok(None),
        Ok(s) => match read_decimal(s.as_str(), complaint) {
            Ok(d) => Ok(Some(d)),
            Err(e) => Err(e),
        },
    }
}

fn read_positive_decimal(v: &Result<String, String>, complaint: &str) -> (res: Result<
    Option<Decimal>,
    Failure,
>)
    ensures
        match res {
            Ok(Some(d)) => positive_decimal(*v, complaint@) == Ok::<Option<Number>, Fault>(
                Some(d@),
            ),
            Ok(None) => positive_decimal(*v, complaint@) == Ok::<Option<Number>, Fault>(None),
            Err(e) => positive_decimal(*v, complaint@) == Err::<Option<Number>, Fault>(e@),
        },
{
    match read_optional_decimal(v, complaint) {
        Ok(d) => Ok(if_positive(d)),
        Err(e) => Err(e),
    }
}

/// A decimal that must not be negative, or the complaint.
pub fn not_below_zero(d: Decimal, complaint: &str) -> (res: Result<Decimal, Failure>)
    ensures
        match res {
            Ok(x) => x == d && not_negative(Ok(d@), complaint@) == Ok::<Number, Fault>(d@),
            Err(e) => not_negative(Ok(d@), complaint@) == Err::<Number, Fault>(e@),
        },
{
    if d < Decimal::zero() {
        Err(Failure::new(complaint))
    } else {
        Ok(d)
    }
}

/// A decimal where it is above zero.
pub fn if_positive(d: Option<Decimal>) -> (res: Option<Decimal>)
    ensures
        res == match d {
            Some(x) => if less(zero_number(), x@) {
                Some(x)
            } else {
                None
            },
            None => None,
        },
{
    match d {
        Some(x) => if x > Decimal::zero() {
            Some(x)
        } else {
            None
        },
        None => None,
    }
}

fn read_optional_day(v: &Result<String, String>, complaint: &str) -> (res: Result<
    Option<i32>,
    Failure,
>)
    ensures
        match res {
            Ok(Some(d)) => optional_day(*v, complaint@) == Ok::<Option<int>, Fault>(Some(d as int)),
            Ok(None) => optional_day(*v, complaint@) == Ok::<Option<int>, Fault>(None),
            Err(e) => optional_day(*v, complaint@) == Err::<Option<int>, Fault>(e@),
        },
{
    match v {
        Err(_) => Ok(None),
        Ok(s) => match parse_date(s.as_str()) {
            Ok(d) => Ok(Some(d)),
            Err(e) => Err(Failure::caused_by(complaint, e.as_str())),
        },
    }
}

fn is_on(text: &str) -> (res: bool)
    ensures
        res == switched_on(text@),
{
    same_text(trimmed_lowercase(text).as_str(), "true")
}

/// What is traded, over how many candles, and with what money.
#[derive(Debug)]
pub struct Scope {
    pub symbol: String,
    pub timeframe: String,
    /// How many candles a signal is looked for in.
    pub window_size: usize,
    /// Share of the balance that a trade puts at risk.
    pub risk_pct: Decimal,
    pub backtest_candles: u32,
    pub backtest_balance: Decimal,
}

pub open spec fn window_setting(env: Environment) -> Result<nat, Fault> {
    match required(env.candle_count, "CANDLE_COUNT missing"@) {
        Err(e) => Err(e),
        Ok(text) => not_zero(
            unsigned_in(text, usize::MAX as nat, "CANDLE_COUNT must be a positive integer"@),
            "CANDLE_COUNT must be at least 1"@,
        ),
    }
}

pub open spec fn risk_setting(env: Environment) -> Result<Number, Fault> {
    decimal_or(
        env.risk_pct,
        Number { negative: false, magnitude: 1, scale: 2 },
        "RISK_PCT must be a decimal (e.g. 0.01)"@,
    )
}

pub open spec fn candles_setting(env: Environment) -> Result<nat, Fault> {
    match required(env.backtest_candles, "BACKTEST_CANDLES missing"@) {
        Err(e) => Err(e),
        Ok(text) => unsigned_in(text, u32::MAX as nat, "BACKTEST_CANDLES must be a u32"@),
    }
}

pub open spec fn balance_setting(env: Environment) -> Result<Number, Fault> {
    match required(env.backtest_balance, "BACKTEST_BALANCE missing"@) {
        Err(e) => Err(e),
        Ok(text) => decimal_in(text, "BACKTEST_BALANCE must be a decimal (e.g. 5000)"@),
    }
}

impl Scope {
    /// The first thing that is wrong with these settings.
    pub open spec fn fault(env: Environment) -> Option<Fault> {
        first(
            fault_of(required(env.symbol, "SYMBOL missing"@)),
            first(
                fault_of(required(env.timeframe, "TIMEFRAME missing"@)),
                first(
                    fault_of(window_setting(env)),
                    first(
                        fault_of(risk_setting(env)),
                        first(
                            fault_of(candles_setting(env)),
                            fault_of(balance_setting(env)),
                        ),
                    ),
                ),
            ),
        )
    }

    /// These are the settings in `env`.
    pub open spec fn reads(self, env: Environment) -> bool {
        &&& env.symbol == Ok::<String, String>(self.symbol)
        &&& env.timeframe == Ok::<String, String>(self.timeframe)
        &&& window_setting(env) == Ok::<nat, Fault>(self.window_size as nat)
        &&& risk_setting(env) == Ok::<Number, Fault>(self.risk_pct@)
        &&& candles_setting(env) == Ok::<nat, Fault>(self.backtest_candles as nat)
        &&& balance_setting(env) == Ok::<Number, Fault>(self.backtest_balance@)
    }

    fn read(env: &Environment) -> (res: Result<Scope, Failure>)
        ensures
            match res {
                Ok(s) => Scope::fault(*env) is None && s.reads(*env),
                Err(e) => Scope::fault(*env) == Some(e@),
            },
    {
        let symbol = required_text(&env.symbol, "SYMBOL missing")?;
        let timeframe = required_text(&env.timeframe, "TIMEFRAME missing")?;
        let text = required_text(&env.candle_count, "CANDLE_COUNT missing")?;
        let window_size: u64 = read_unsigned(
            text.as_str(),
            usize::MAX as u64,
            "CANDLE_COUNT must be a positive integer",
        )?;
        if window_size == 0 {
            return Err(Failure::new("CANDLE_COUNT must be at least 1"));
        }
        let risk_pct = read_decimal_or(
            &env.risk_pct,
            Decimal::new(1, 2),
            "RISK_PCT must be a decimal (e.g. 0.01)",
        )?;
        let text = required_text(&env.backtest_candles, "BACKTEST_CANDLES missing")?;
        let backtest_candles: u64 = read_unsigned(
            text.as_str(),
            u32::MAX as u64,
            "BACKTEST_CANDLES must be a u32",
        )?;
        let text = required_text(&env.backtest_balance, "BACKTEST_BALANCE missing")?;
        let backtest_balance = read_decimal(
            text.as_str(),
            "BACKTEST_BALANCE must be a decimal (e.g. 5000)",
        )?;
        Ok(
            Scope {
                symbol: symbol.clone(),
                timeframe: timeframe.clone(),
                window_size: window_size as usize,
                risk_pct,
                backtest_candles: backtest_candles as u32,
                backtest_balance,
            },
        )
    }
}

/// What trading costs, and which signals are good enough.
#[derive(Debug)]
pub struct Pricing {
    /// Smallest accepted stop distance.
    pub min_sl_distance: Decimal,
    /// Extra slippage on stop exits, in symbol points.
    pub slippage_points: Decimal,
    /// Spread in price units; the symbol's own where it is not set.
    pub spread_override: Option<Decimal>,
    /// Round-trip commission per lot in account currency.
    pub commission_per_lot: Decimal,
    /// A candle is a swing if it beats this many on both sides.
    pub swing_period: usize,
    /// Smallest accepted reward-to-risk ratio; zero for no filter.
    pub min_rr: Decimal,
    /// Hours at which entries are looked for.
    pub killzone_windows: Vec<KillzoneWindow>,
}

pub open spec fn stop_setting(env: Environment) -> Result<Number, Fault> {
    match decimal_or(
        env.min_sl_distance,
        zero_number(),
        "MIN_SL_DISTANCE must be a decimal (e.g. 0.0010)"@,
    ) {
        Err(e) => Err(e),
        Ok(n) => not_negative(
            Ok(n),
            "MIN_SL_DISTANCE must be >= 0, got "@ + fixed_text(n, n.scale),
        ),
    }
}

pub open spec fn slippage_setting(env: Environment) -> Result<Number, Fault> {
    not_negative(
        decimal_or(
            env.slippage_points,
            whole_number(5),
            "SLIPPAGE_POINTS must be a decimal (e.g. 5)"@,
        ),
        "SLIPPAGE_POINTS must be >= 0"@,
    )
}

pub open spec fn spread_setting(env: Environment) -> Result<Option<Number>, Fault> {
    optional_decimal(
        env.spread_override,
        "SPREAD_OVERRIDE must be a decimal (e.g. 0 or 0.00002)"@,
    )
}

pub open spec fn commission_setting(env: Environment) -> Result<Number, Fault> {
    decimal_or(
        env.commission_per_lot,
        zero_number(),
        "COMMISSION_PER_LOT must be a decimal (e.g. 7.0)"@,
    )
}

pub open spec fn swing_setting(env: Environment) -> Result<nat, Fault> {
    not_zero(
        unsigned_in(
            or_default(env.swing_period, "2"@),
            usize::MAX as nat,
            "SWING_PERIOD must be a positive integer"@,
        ),
        "SWING_PERIOD must be >= 1"@,
    )
}

pub open spec fn reward_setting(env: Environment) -> Result<Number, Fault> {
    not_negative(
        decimal_or(
            env.min_rr,
            Number { negative: false, magnitude: 25, scale: 1 },
            "MIN_RR must be a decimal (e.g. 2.0)"@,
        ),
        "MIN_RR must be >= 0"@,
    )
}

pub open spec fn killzone_setting(env: Environment) -> Result<Seq<KillzoneWindow>, Fault> {
    match parsed_windows(or_default(env.killzone_windows, "08:00-13:00,15:00-18:00"@)) {
        Ok(windows) => Ok(windows),
        Err(e) => Err(Fault { message: "KILLZONE_WINDOWS parse error"@, cause: Some(e.message) }),
    }
}

impl Pricing {
    /// The first thing that is wrong with these settings.
    pub open spec fn fault(env: Environment) -> Option<Fault> {
        first(
            fault_of(stop_setting(env)),
            first(
                fault_of(slippage_setting(env)),
                first(
                    fault_of(spread_setting(env)),
                    first(
                        fault_of(commission_setting(env)),
                        first(
                            fault_of(swing_setting(env)),
                            first(fault_of(reward_setting(env)), fault_of(killzone_setting(env))),
                        ),
                    ),
                ),
            ),
        )
    }

    /// These are the settings in `env`.
    pub open spec fn reads(self, env: Environment) -> bool {
        &&& stop_setting(env) == Ok::<Number, Fault>(self.min_sl_distance@)
        &&& slippage_setting(env) == Ok::<Number, Fault>(self.slippage_points@)
        &&& spread_setting(env) == Ok::<Option<Number>, Fault>(opt_view(self.spread_override))
        &&& commission_setting(env) == Ok::<Number, Fault>(self.commission_per_lot@)
        &&& swing_setting(env) == Ok::<nat, Fault>(self.swing_period as nat)
        &&& reward_setting(env) == Ok::<Number, Fault>(self.min_rr@)
        &&& killzone_setting(env) == Ok::<Seq<KillzoneWindow>, Fault>(self.killzone_windows@)
    }

    fn read(env: &Environment) -> (res: Result<Pricing, Failure>)
        ensures
            match res {
                Ok(s) => Pricing::fault(*env) is None && s.reads(*env),
                Err(e) => Pricing::fault(*env) == Some(e@),
            },
    {
        let min_sl_distance = read_decimal_or(
            &env.min_sl_distance,
            Decimal::zero(),
            "MIN_SL_DISTANCE must be a decimal (e.g. 0.0010)",
        )?;
        let mut complaint = "MIN_SL_DISTANCE must be >= 0, got ".to_owned();
        complaint.append(min_sl_distance.plain().as_str());
        let min_sl_distance = not_below_zero(min_sl_distance, complaint.as_str())?;
        let slippage_points = read_decimal_or(
            &env.slippage_points,
            Decimal::from_unsigned(5),
            "SLIPPAGE_POINTS must be a decimal (e.g. 5)",
        )?;
        let slippage_points = not_below_zero(slippage_points, "SLIPPAGE_POINTS must be >= 0")?;
        let spread_override = read_optional_decimal(
            &env.spread_override,
            "SPREAD_OVERRIDE must be a decimal (e.g. 0 or 0.00002)",
        )?;
        let commission_per_lot = read_decimal_or(
            &env.commission_per_lot,
            Decimal::zero(),
            "COMMISSION_PER_LOT must be a decimal (e.g. 7.0)",
        )?;
        let swing_period: u64 = read_unsigned(
            text_or(&env.swing_period, "2"),
            usize::MAX as u64,
            "SWING_PERIOD must be a positive integer",
        )?;
        if swing_period == 0 {
            return Err(Failure::new("SWING_PERIOD must be >= 1"));
        }
        let min_rr = read_decimal_or(
            &env.min_rr,
            Decimal::new(25, 1),
            "MIN_RR must be a decimal (e.g. 2.0)",
        )?;
        let min_rr = not_below_zero(min_rr, "MIN_RR must be >= 0")?;
        let killzone_windows = match parse_killzone_windows(
            text_or(&env.killzone_windows, "08:00-13:00,15:00-18:00"),
        ) {
            Ok(windows) => windows,
            Err(e) => {
                return Err(
                    Failure {
                        message: "KILLZONE_WINDOWS parse error".to_owned(),
                        cause: Some(e.message),
                    },
                );
            },
        };
        Ok(
            Pricing {
                min_sl_distance,
                slippage_points,
                spread_override,
                commission_per_lot,
                swing_period: swing_period as usize,
                min_rr,
                killzone_windows,
            },
        )
    }
}

/// How trades are managed, and which trend they must follow.
#[derive(Debug)]
pub struct Handling {
    /// Smallest accepted stop distance as a multiple of the ATR.
    pub atr_sl_mult: Option<Decimal>,
    /// Move the stop to the entry at 1R.
    pub breakeven_sl_1r: bool,
    /// Close half of the position at 1R.
    pub partial_tp_1r: bool,
    /// Close a trade that is this many candles old; zero to leave it open.
    pub timeout_candles: usize,
    /// Period of the trend EMA; zero for no trend filter.
    pub trend_ema_period: usize,
    /// The trend EMA is over the traded candles themselves.
    pub trend_tf_h1: bool,
    /// Entries must agree with the EMA of the H4 candles too.
    pub trend_h4_confirm: bool,
    /// Period of that EMA.
    pub trend_h4_period: usize,
}

pub open spec fn atr_stop_setting(env: Environment) -> Result<Option<Number>, Fault> {
    positive_decimal(env.atr_sl_mult, "ATR_SL_MULT must be a decimal (e.g. 1.0)"@)
}

pub open spec fn timeout_setting(env: Environment) -> Result<nat, Fault> {
    unsigned_in(
        or_default(env.timeout_candles, "0"@),
        usize::MAX as nat,
        "TIMEOUT_CANDLES must be a non-negative integer"@,
    )
}

pub open spec fn trend_setting(env: Environment) -> Result<nat, Fault> {
    unsigned_in(
        or_default(env.trend_ema_period, "0"@),
        usize::MAX as nat,
        "TREND_EMA_PERIOD must be a non-negative integer"@,
    )
}

pub open spec fn confirm_setting(env: Environment) -> Result<nat, Fault> {
    not_zero(
        unsigned_in(
            or_default(env.trend_h4_period, "20"@),
            usize::MAX as nat,
            "TREND_H4_PERIOD must be a positive integer"@,
        ),
        "TREND_H4_PERIOD must be a positive integer"@,
    )
}

impl Handling {
    /// The first thing that is wrong with these settings.
    pub open spec fn fault(env: Environment) -> Option<Fault> {
        first(
            fault_of(atr_stop_setting(env)),
            first(
                fault_of(timeout_setting(env)),
                first(fault_of(trend_setting(env)), fault_of(confirm_setting(env))),
            ),
        )
    }

    /// These are the settings in `env`.
    pub open spec fn reads(self, env: Environment) -> bool {
        &&& atr_stop_setting(env) == Ok::<Option<Number>, Fault>(opt_view(self.atr_sl_mult))
        &&& self.breakeven_sl_1r == switched_on(or_default(env.breakeven_sl_1r, ""@))
        &&& self.partial_tp_1r == switched_on(or_default(env.partial_tp_1r, "true"@))
        &&& timeout_setting(env) == Ok::<nat, Fault>(self.timeout_candles as nat)
        &&& trend_setting(env) == Ok::<nat, Fault>(self.trend_ema_period as nat)
        &&& self.trend_tf_h1 == (uppercased(trimmed(or_default(env.trend_tf, "H4"@))) == "H1"@)
        &&& self.trend_h4_confirm == switched_on(or_default(env.trend_h4_confirm, "true"@))
        &&& confirm_setting(env) == Ok::<nat, Fault>(self.trend_h4_period as nat)
    }

    fn read(env: &Environment) -> (res: Result<Handling, Failure>)
        ensures
            match res {
                Ok(s) => Handling::fault(*env) is None && s.reads(*env),
                Err(e) => Handling::fault(*env) == Some(e@),
            },
    {
        let atr_sl_mult = read_positive_decimal(
            &env.atr_sl_mult,
            "ATR_SL_MULT must be a decimal (e.g. 1.0)",
        )?;
        let timeout_candles: u64 = read_unsigned(
            text_or(&env.timeout_candles, "0"),
            usize::MAX as u64,
            "TIMEOUT_CANDLES must be a non-negative integer",
        )?;
        let trend_ema_period: u64 = read_unsigned(
            text_or(&env.trend_ema_period, "0"),
            usize::MAX as u64,
            "TREND_EMA_PERIOD must be a non-negative integer",
        )?;
        let trend_tf = trimmed_uppercase(text_or(&env.trend_tf, "H4"));
        let trend_h4_period: u64 = read_unsigned(
            text_or(&env.trend_h4_period, "20"),
            usize::MAX as u64,
            "TREND_H4_PERIOD must be a positive integer",
        )?;
        if trend_h4_period == 0 {
            return Err(Failure::new("TREND_H4_PERIOD must be a positive integer"));
        }
        Ok(
            Handling {
                atr_sl_mult,
                breakeven_sl_1r: is_on(text_or(&env.breakeven_sl_1r, "")),
                partial_tp_1r: is_on(text_or(&env.partial_tp_1r, "true")),
                timeout_candles: timeout_candles as usize,
                trend_ema_period: trend_ema_period as usize,
                trend_tf_h1: same_text(trend_tf.as_str(), "H1"),
                trend_h4_confirm: is_on(text_or(&env.trend_h4_confirm, "true")),
                trend_h4_period: trend_h4_period as usize,
            },
        )
    }
}

/// Where the candles of a trend filter come from.
#[derive(Clone, Copy, Debug, PartialEq, Eq, Structural)]
pub enum TrendSource {
    /// There is no filter.
    Off,
    /// The traded candles themselves.
    Own,
    /// H4 candles, fetched for the filter.
    H4,
}

/// Where the primary trend filter has its candles from: nowhere without a
/// period, from the traded candles for `TREND_TF=H1`, else from H4 candles.
pub fn trend_source(h: &Handling) -> (res: TrendSource)
    ensures
        res == (if h.trend_ema_period == 0 {
            TrendSource::Off
        } else if h.trend_tf_h1 {
            TrendSource::Own
        } else {
            TrendSource::H4
        }),
{
    if h.trend_ema_period == 0 {
        TrendSource::Off
    } else if h.trend_tf_h1 {
        TrendSource::Own
    } else {
        TrendSource::H4
    }
}

/// Where the confirmation has its candles from: H4 candles, where it is asked
/// for.
pub fn confirm_source(h: &Handling) -> (res: TrendSource)
    ensures
        res == (if h.trend_h4_confirm {
            TrendSource::H4
        } else {
            TrendSource::Off
        }),
{
    if h.trend_h4_confirm {
        TrendSource::H4
    } else {
        TrendSource::Off
    }
}

/// When entries are looked for, and when trades are closed or trailed.
#[derive(Debug)]
pub struct Calendar {
    /// Skip entries on Mondays and Fridays.
    pub dow_filter: bool,
    /// Move the stop to the 1R level at 2R.
    pub trailing_2r: bool,
    /// Close a quarter of the position at 2R.
    pub partial_tp_2r: bool,
    /// Close a trade on Friday at or after this hour.
    pub friday_close_hour: u32,
    /// Smallest ATR at which entries are looked for.
    pub atr_min_price: Option<Decimal>,
    /// First day on which entries are looked for.
    pub date_from: Option<i32>,
    /// Last day on which entries are looked for.
    pub date_to: Option<i32>,
}

pub open spec fn friday_setting(env: Environment) -> Result<nat, Fault> {
    not_above(
        unsigned_in(
            or_default(env.friday_close_hour, "21"@),
            u32::MAX as nat,
            "FRIDAY_CLOSE_HOUR must be 0-23"@,
        ),
        23,
        "FRIDAY_CLOSE_HOUR must be 0-23"@,
    )
}

pub open spec fn atr_min_setting(env: Environment) -> Result<Option<Number>, Fault> {
    positive_decimal(env.atr_min_price, "ATR_MIN_PRICE must be a decimal"@)
}

pub open spec fn from_setting(env: Environment) -> Result<Option<int>, Fault> {
    optional_day(env.date_from, "DATE_FROM must be YYYY-MM-DD"@)
}

pub open spec fn to_setting(env: Environment) -> Result<Option<int>, Fault> {
    optional_day(env.date_to, "DATE_TO must be YYYY-MM-DD"@)
}

/// A day that may not be set.
pub open spec fn opt_day(d: Option<i32>) -> Option<int> {
    match d {
        Some(x) => Some(x as int),
        None => None,
    }
}

impl Calendar {
    /// The first thing that is wrong with these settings.
    pub open spec fn fault(env: Environment) -> Option<Fault> {
        first(
            fault_of(friday_setting(env)),
            first(
                fault_of(atr_min_setting(env)),
                first(fault_of(from_setting(env)), fault_of(to_setting(env))),
            ),
        )
    }

    /// These are the settings in `env`.
    pub open spec fn reads(self, env: Environment) -> bool {
        &&& self.dow_filter == switched_on(or_default(env.dow_filter, "true"@))
        &&& self.trailing_2r == switched_on(or_default(env.trailing_2r, ""@))
        &&& self.partial_tp_2r == switched_on(or_default(env.partial_tp_2r, "true"@))
        &&& friday_setting(env) == Ok::<nat, Fault>(self.friday_close_hour as nat)
        &&& atr_min_setting(env) == Ok::<Option<Number>, Fault>(opt_view(self.atr_min_price))
        &&& from_setting(env) == Ok::<Option<int>, Fault>(opt_day(self.date_from))
        &&& to_setting(env) == Ok::<Option<int>, Fault>(opt_day(self.date_to))
    }

    fn read(env: &Environment) -> (res: Result<Calendar, Failure>)
        ensures
            match res {
                Ok(s) => Calendar::fault(*env) is None && s.reads(*env),
                Err(e) => Calendar::fault(*env) == Some(e@),
            },
    {
        let friday_close_hour: u64 = read_unsigned(
            text_or(&env.friday_close_hour, "21"),
            u32::MAX as u64,
            "FRIDAY_CLOSE_HOUR must be 0-23",
        )?;
        if friday_close_hour > 23 {
            return Err(Failure::new("FRIDAY_CLOSE_HOUR must be 0-23"));
        }
        let atr_min_price = read_positive_decimal(
            &env.atr_min_price,
            "ATR_MIN_PRICE must be a decimal",
        )?;
        let date_from = read_optional_day(&env.date_from, "DATE_FROM must be YYYY-MM-DD")?;
        let date_to = read_optional_day(&env.date_to, "DATE_TO must be YYYY-MM-DD")?;
        Ok(
            Calendar {
                dow_filter: is_on(text_or(&env.dow_filter, "true")),
                trailing_2r: is_on(text_or(&env.trailing_2r, "")),
                partial_tp_2r: is_on(text_or(&env.partial_tp_2r, "true")),
                friday_close_hour: friday_close_hour as u32,
                atr_min_price,
                date_from,
                date_to,
            },
        )
    }
}

/// The settings of a backtest.
#[derive(Debug)]
pub struct Settings {
    pub scope: Scope,
    pub pricing: Pricing,
    pub handling: Handling,
    pub calendar: Calendar,
}

impl Settings {
    /// The first thing that is wrong with the environment.
    pub open spec fn fault(env: Environment) -> Option<Fault> {
        first(
            Scope::fault(env),
            first(Pricing::fault(env), first(Handling::fault(env), Calendar::fault(env))),
        )
    }

    /// These are the settings in `env`.
    pub open spec fn reads(self, env: Environment) -> bool {
        &&& self.scope.reads(env)
        &&& self.pricing.reads(env)
        &&& self.handling.reads(env)
        &&& self.calendar.reads(env)
    }

    /// Reads the settings from the environment. The failure is the first thing
    /// that is wrong.
    pub fn read(env: &Environment) -> (res: Result<Settings, Failure>)
        ensures
            match res {
                Ok(s) => Settings::fault(*env) is None && s.reads(*env),
                Err(e) => Settings::fault(*env) == Some(e@),
            },
    {
        let scope = Scope::read(env)?;
        let pricing = Pricing::read(env)?;
        let handling = Handling::read(env)?;
        let calendar = Calendar::read(env)?;
        Ok(Settings { scope, pricing, handling, calendar })
    }
}

/// The spread in price units: the override, or the symbol's points.
pub open spec fn spread_of(override_: Option<Number>, symbol: Symbol) -> Option<Number> {
    match override_ {
        Some(s) => Some(s),
        None => product(whole_number(symbol.spread as int), symbol.point@),
    }
}

/// The rules are those of the settings for this symbol.
pub open spec fn rules_follow(rules: Rules, s: Settings, symbol: Symbol) -> bool {
    &&& Some(rules.spread_price@) == spread_of(opt_view(s.pricing.spread_override), symbol)
    &&& Some(rules.slippage_price@) == product(s.pricing.slippage_points@, symbol.point@)
    &&& rules.commission_per_lot == s.pricing.commission_per_lot
    &&& rules.contract_size == symbol.trade_contract_size
    &&& rules.profit_is_usd == same_ignoring_case(symbol.currency_profit@, "USD"@)
    &&& rules.risk == (RiskConfig {
        risk_pct: s.scope.risk_pct,
        value_per_lot: symbol.trade_contract_size,
        min_volume: symbol.volume_min,
        max_volume: symbol.volume_max,
        volume_step: symbol.volume_step,
    })
    &&& rules.min_rr == s.pricing.min_rr
    &&& rules.min_sl_distance == s.pricing.min_sl_distance
    &&& rules.atr_sl_mult == s.handling.atr_sl_mult
    &&& rules.atr_min_price == s.calendar.atr_min_price
    &&& rules.killzone_windows@ == s.pricing.killzone_windows@
    &&& rules.dow_filter == s.calendar.dow_filter
    &&& rules.date_from == s.calendar.date_from
    &&& rules.date_to == s.calendar.date_to
    &&& rules.trend_ema_period == s.handling.trend_ema_period
    &&& rules.trend_tf_h1 == s.handling.trend_tf_h1
    &&& rules.trend_h4_confirm == s.handling.trend_h4_confirm
    &&& rules.breakeven_sl_1r == s.handling.breakeven_sl_1r
    &&& rules.partial_tp_1r == s.handling.partial_tp_1r
    &&& rules.trailing_2r == s.calendar.trailing_2r
    &&& rules.partial_tp_2r == s.calendar.partial_tp_2r
    &&& rules.timeout_candles == s.handling.timeout_candles
    &&& rules.friday_close_hour == Some(s.calendar.friday_close_hour)
}

fn copied(windows: &Vec<KillzoneWindow>) -> (res: Vec<KillzoneWindow>)
    ensures
        res@ == windows@,
{
    let mut out: Vec<KillzoneWindow> = Vec::new();
    let mut i: usize = 0;
    while i < windows.len()
        invariant
            i <= windows.len(),
            out@ =~= windows@.take(i as int),
        decreases windows.len() - i,
    {
        out.push(windows[i]);
        i += 1;
    }
    out
}

/// The rules of a backtest of `symbol` under these settings; `None` where the
/// spread or the slippage overflows.
pub fn trading_rules(s: &Settings, symbol: &Symbol) -> (res: Option<Rules>)
    ensures
        match res {
            Some(rules) => rules_follow(rules, *s, *symbol),
            None => spread_of(opt_view(s.pricing.spread_override), *symbol) is None || product(
                s.pricing.slippage_points@,
                symbol.point@,
            ) is None,
        },
{
    let spread_price = match s.pricing.spread_override {
        Some(spread) => spread,
        None => Decimal::from_signed(symbol.spread).checked_mul(symbol.point)?,
    };
    let slippage_price = s.pricing.slippage_points.checked_mul(symbol.point)?;
    Some(
        Rules {
            spread_price,
            slippage_price,
            commission_per_lot: s.pricing.commission_per_lot,
            contract_size: symbol.trade_contract_size,
            profit_is_usd: equal_ignoring_case(symbol.currency_profit.as_str(), "USD"),
            risk: RiskConfig {
                risk_pct: s.scope.risk_pct,
                value_per_lot: symbol.trade_contract_size,
                min_volume: symbol.volume_min,
                max_volume: symbol.volume_max,
                volume_step: symbol.volume_step,
            },
            min_rr: s.pricing.min_rr,
            min_sl_distance: s.pricing.min_sl_distance,
            atr_sl_mult: s.handling.atr_sl_mult,
            atr_min_price: s.calendar.atr_min_price,
            killzone_windows: copied(&s.pricing.killzone_windows),
            dow_filter: s.calendar.dow_filter,
            date_from: s.calendar.date_from,
            date_to: s.calendar.date_to,
            trend_ema_period: s.handling.trend_ema_period,
            trend_tf_h1: s.handling.trend_tf_h1,
            trend_h4_confirm: s.handling.trend_h4_confirm,
            breakeven_sl_1r: s.handling.breakeven_sl_1r,
            partial_tp_1r: s.handling.partial_tp_1r,
            trailing_2r: s.calendar.trailing_2r,
            partial_tp_2r: s.calendar.partial_tp_2r,
            timeout_candles: s.handling.timeout_candles,
            friday_close_hour: Some(s.calendar.friday_close_hour),
        },
    )
}

/// Settings that were read are within their limits: a window, a swing period and
/// a confirmation period of at least one candle, an hour of the day for the
/// Friday close, and neither a stop distance, a slippage nor a reward-to-risk
/// ratio below zero.
pub proof fn law_settings_are_within_limits(s: Settings, env: Environment)
    requires
        s.reads(env),
    ensures
        s.scope.window_size >= 1,
        s.pricing.swing_period >= 1,
        s.handling.trend_h4_period >= 1,
        s.calendar.friday_close_hour <= 23,
        !less(s.pricing.min_sl_distance@, zero_number()),
        !less(s.pricing.slippage_points@, zero_number()),
        !less(s.pricing.min_rr@, zero_number()),
        s.handling.atr_sl_mult matches Some(m) ==> less(zero_number(), m@),
        s.calendar.atr_min_price matches Some(m) ==> less(zero_number(), m@),
{
}

/// The word `true` switches on.
proof fn lemma_true_switches_on()
    ensures
        switched_on("true"@),
{
    reveal_strlit("true");
    let s = "true"@;
    lemma_nothing_to_trim(s);
    assert(all_ascii(s));
    assert(lowercased(s) =~= s);
}

/// What a variable stands for that is not set: a risk of one percent, a reward
/// of at least 2.5 times the risk, the two sessions as killzone, no entries on
/// Mondays and Fridays, confirmation by the H4 candles, partial closes at 1R and
/// at 2R, and a close on Friday at 21 hours.
pub proof fn law_documented_defaults(s: Settings, env: Environment)
    requires
        s.reads(env),
    ensures
        env.risk_pct is Err ==> s.scope.risk_pct@ == (Number {
            negative: false,
            magnitude: 1,
            scale: 2,
        }),
        env.min_rr is Err ==> s.pricing.min_rr@ == (Number {
            negative: false,
            magnitude: 25,
            scale: 1,
        }),
        env.killzone_windows is Err ==> s.pricing.killzone_windows@ == seq![
            KillzoneWindow { start_min: 480, end_min: 780 },
            KillzoneWindow { start_min: 900, end_min: 1080 },
        ],
        env.dow_filter is Err ==> s.calendar.dow_filter,
        env.trend_h4_confirm is Err ==> s.handling.trend_h4_confirm,
        env.partial_tp_1r is Err ==> s.handling.partial_tp_1r,
        env.partial_tp_2r is Err ==> s.calendar.partial_tp_2r,
        env.friday_close_hour is Err ==> s.calendar.friday_close_hour == 21,
{
    lemma_true_switches_on();
    lemma_session_windows();
    lemma_two_digits(21);
    lemma_two_digits_read_back(21, u32::MAX as nat);
    reveal_strlit("21");
    assert("21"@ =~= two_digits(21));
}

/// Every setting is read from its own variable where that is set: numbers, days
/// and windows as they are written there; multiples of the ATR only where they
/// are above zero; switches as on where the variable says `true`, in any case and
/// with white space round it. Symbol, timeframe, both counts of candles and the
/// balance have to be set.
pub proof fn law_settings_are_read_from_their_own_variables(s: Settings, env: Environment)
    requires
        s.reads(env),
    ensures
        env.symbol == Ok::<String, String>(s.scope.symbol),
        env.timeframe == Ok::<String, String>(s.scope.timeframe),
        env.candle_count is Ok && env.backtest_candles is Ok && env.backtest_balance is Ok,
        env.candle_count matches Ok(text) ==> parsed_unsigned(text@, usize::MAX as nat) == Some(
            s.scope.window_size as nat,
        ),
        env.risk_pct matches Ok(text) ==> parsed_decimal(text@) == Ok::<Number, Seq<char>>(
            s.scope.risk_pct@,
        ),
        env.backtest_candles matches Ok(text) ==> parsed_unsigned(text@, u32::MAX as nat) == Some(
            s.scope.backtest_candles as nat,
        ),
        env.backtest_balance matches Ok(text) ==> parsed_decimal(text@) == Ok::<Number, Seq<char>>(
            s.scope.backtest_balance@,
        ),
        env.min_sl_distance matches Ok(text) ==> parsed_decimal(text@) == Ok::<Number, Seq<char>>(
            s.pricing.min_sl_distance@,
        ),
        env.slippage_points matches Ok(text) ==> parsed_decimal(text@) == Ok::<Number, Seq<char>>(
            s.pricing.slippage_points@,
        ),
        env.spread_override matches Ok(text) ==> (s.pricing.spread_override matches Some(d)
            && parsed_decimal(text@) == Ok::<Number, Seq<char>>(d@)),
        env.commission_per_lot matches Ok(text) ==> parsed_decimal(text@) == Ok::<Number, Seq<char>>(
            s.pricing.commission_per_lot@,
        ),
        env.swing_period matches Ok(text) ==> parsed_unsigned(text@, usize::MAX as nat) == Some(
            s.pricing.swing_period as nat,
        ),
        env.min_rr matches Ok(text) ==> parsed_decimal(text@) == Ok::<Number, Seq<char>>(
            s.pricing.min_rr@,
        ),
        env.killzone_windows matches Ok(text) ==> parsed_windows(text@) == Ok::<
            Seq<KillzoneWindow>,
            Fault,
        >(s.pricing.killzone_windows@),
        env.atr_sl_mult matches Ok(text) ==> (parsed_decimal(text@) matches Ok(n) && opt_view(
            s.handling.atr_sl_mult,
        ) == (if less(zero_number(), n) {
            Some(n)
        } else {
            None
        })),
        env.breakeven_sl_1r matches Ok(text) ==> (s.handling.breakeven_sl_1r <==> lowercased(trimmed(text@))
            == "true"@),
        env.partial_tp_1r matches Ok(text) ==> (s.handling.partial_tp_1r <==> lowercased(trimmed(text@))
            == "true"@),
        env.timeout_candles matches Ok(text) ==> parsed_unsigned(text@, usize::MAX as nat) == Some(
            s.handling.timeout_candles as nat,
        ),
        env.trend_ema_period matches Ok(text) ==> parsed_unsigned(text@, usize::MAX as nat) == Some(
            s.handling.trend_ema_period as nat,
        ),
        env.trend_tf matches Ok(text) ==> (s.handling.trend_tf_h1 <==> uppercased(trimmed(text@))
            == "H1"@),
        env.trend_h4_confirm matches Ok(text) ==> (s.handling.trend_h4_confirm <==> lowercased(trimmed(text@))
            == "true"@),
        env.trend_h4_period matches Ok(text) ==> parsed_unsigned(text@, usize::MAX as nat) == Some(
            s.handling.trend_h4_period as nat,
        ),
        env.dow_filter matches Ok(text) ==> (s.calendar.dow_filter <==> lowercased(trimmed(text@))
            == "true"@),
        env.trailing_2r matches Ok(text) ==> (s.calendar.trailing_2r <==> lowercased(trimmed(text@))
            == "true"@),
        env.partial_tp_2r matches Ok(text) ==> (s.calendar.partial_tp_2r <==> lowercased(trimmed(text@))
            == "true"@),
        env.friday_close_hour matches Ok(text) ==> parsed_unsigned(text@, u32::MAX as nat) == Some(
            s.calendar.friday_close_hour as nat,
        ),
        env.atr_min_price matches Ok(text) ==> (parsed_decimal(text@) matches Ok(n) && opt_view(
            s.calendar.atr_min_price,
        ) == (if less(zero_number(), n) {
            Some(n)
        } else {
            None
        })),
        env.date_from matches Ok(text) ==> (s.calendar.date_from matches Some(d) && read_date(
            text@,
        ) == Ok::<int, Seq<char>>(d as int)),
        env.date_to matches Ok(text) ==> (s.calendar.date_to matches Some(d) && read_date(
            text@,
        ) == Ok::<int, Seq<char>>(d as int)),
{
}

/// What the other variables stand for where they are not set: no smallest stop
/// distance, a slippage of five points, the symbol's own spread, no commission,
/// swings of two candles, no use of the ATR, no stop at breakeven, no timeout, no
/// trend filter, confirmation over twenty candles, no trailing, and all dates.
pub proof fn law_other_defaults(s: Settings, env: Environment)
    requires
        s.reads(env),
    ensures
        env.min_sl_distance is Err ==> s.pricing.min_sl_distance@.is_zero(),
        env.slippage_points is Err ==> s.pricing.slippage_points@ == whole_number(5),
        env.spread_override is Err ==> s.pricing.spread_override is None,
        env.commission_per_lot is Err ==> s.pricing.commission_per_lot@.is_zero(),
        env.swing_period is Err ==> s.pricing.swing_period == 2,
        env.atr_sl_mult is Err ==> s.handling.atr_sl_mult is None,
        env.breakeven_sl_1r is Err ==> !s.handling.breakeven_sl_1r,
        env.timeout_candles is Err ==> s.handling.timeout_candles == 0,
        env.trend_ema_period is Err ==> s.handling.trend_ema_period == 0,
        env.trend_tf is Err ==> !s.handling.trend_tf_h1,
        env.trend_h4_period is Err ==> s.handling.trend_h4_period == 20,
        env.trailing_2r is Err ==> !s.calendar.trailing_2r,
        env.atr_min_price is Err ==> s.calendar.atr_min_price is None,
        env.date_from is Err ==> s.calendar.date_from is None,
        env.date_to is Err ==> s.calendar.date_to is None,
{
    law_numbers_are_read_back(0, usize::MAX as nat);
    law_numbers_are_read_back(2, usize::MAX as nat);
    law_numbers_are_read_back(20, usize::MAX as nat);
    reveal_strlit("0");
    reveal_strlit("2");
    reveal_strlit("20");
    reveal_strlit("");
    reveal_strlit("true");
    reveal_strlit("H4");
    reveal_strlit("H1");
    reveal_with_fuel(nat_text, 2);
    assert("0"@ =~= nat_text(0));
    assert("2"@ =~= nat_text(2));
    assert("20"@ =~= nat_text(20));
    assert(lowercased(trimmed(""@)).len() == 0);
    lemma_nothing_to_trim("H4"@);
    assert(all_ascii("H4"@));
    assert(uppercased("H4"@)[1] == '4');
}

/// What is wrong with each setting, in the order in which they are read.
pub open spec fn faults_in_order(env: Environment) -> Seq<Option<Fault>> {
    seq![
            fault_of(required(env.symbol, "SYMBOL missing"@)),
            fault_of(required(env.timeframe, "TIMEFRAME missing"@)),
            fault_of(window_setting(env)),
            fault_of(risk_setting(env)),
            fault_of(candles_setting(env)),
            fault_of(balance_setting(env)),
            fault_of(stop_setting(env)),
            fault_of(slippage_setting(env)),
            fault_of(spread_setting(env)),
            fault_of(commission_setting(env)),
            fault_of(swing_setting(env)),
            fault_of(reward_setting(env)),
            fault_of(killzone_setting(env)),
            fault_of(atr_stop_setting(env)),
            fault_of(timeout_setting(env)),
            fault_of(trend_setting(env)),
            fault_of(confirm_setting(env)),
            fault_of(friday_setting(env)),
            fault_of(atr_min_setting(env)),
            fault_of(from_setting(env)),
            fault_of(to_setting(env)),
    ]
}

/// The failure is what is wrong with the first bad setting in the order in which
/// they are read, and there is none where all are good.
pub proof fn law_the_first_bad_setting_is_told(env: Environment)
    ensures
        Settings::fault(env) is None ==> forall|i: int|
            0 <= i < faults_in_order(env).len() ==> (#[trigger] faults_in_order(env)[i]) is None,
        Settings::fault(env) matches Some(e) ==> exists|i: int|
            #![trigger faults_in_order(env)[i]]
            0 <= i < faults_in_order(env).len() && faults_in_order(env)[i] == Some(e) && forall|
                j: int,
            |
                0 <= j < i ==> (#[trigger] faults_in_order(env)[j]) is None,
{
    lemma_first_fault(faults_in_order(env), 0);
    let all = faults_in_order(env);
    reveal_with_fuel(first_fault, 22);
    assert(Settings::fault(env) == first_fault(all, 0));
    if Settings::fault(env) is Some {
        let i = choose|i: int|
            #![trigger all[i]]
            0 <= i < all.len() && all[i] == first_fault(all, 0) && forall|j: int|
                0 <= j < i ==> (#[trigger] all[j]) is None;
        assert(faults_in_order(env)[i] == all[i]);
    }
}

/// The first fault from position `k` on.
spec fn first_fault(all: Seq<Option<Fault>>, k: int) -> Option<Fault>
    decreases all.len() - k,
{
    if k >= all.len() {
        None
    } else {
        first(all[k], first_fault(all, k + 1))
    }
}

proof fn lemma_first_fault(all: Seq<Option<Fault>>, k: int)
    requires
        0 <= k <= all.len(),
    ensures
        first_fault(all, k) is None ==> forall|i: int|
            k <= i < all.len() ==> (#[trigger] all[i]) is None,
        first_fault(all, k) is Some ==> exists|i: int|
            #![trigger all[i]]
            k <= i < all.len() && all[i] == first_fault(all, k) && forall|j: int|
                k <= j < i ==> (#[trigger] all[j]) is None,
    decreases all.len() - k,
{
    if k < all.len() {
        lemma_first_fault(all, k + 1);
        if all[k] is None && first_fault(all, k) is Some {
            let i = choose|i: int|
                #![trigger all[i]]
                k + 1 <= i < all.len() && all[i] == first_fault(all, k + 1) && forall|j: int|
                    k + 1 <= j < i ==> (#[trigger] all[j]) is None;
            assert forall|j: int| k <= j < i implies (#[trigger] all[j]) is None by {}
            assert(all[i] == first_fault(all, k));
        }
    }
}

/// Costs come from the symbol and the settings: a spread that is set is taken as
/// it is; otherwise it is the symbol's points times the size of a point, and so is
/// the slippage, where nothing has to be rounded. The commission is that of the
/// settings, and profits are in dollars where the symbol says so, in any case.
pub proof fn law_costs_are_in_points_of_the_symbol(rules: Rules, s: Settings, symbol: Symbol)
    requires
        rules_follow(rules, s, symbol),
        symbol.point@.valid(),
        s.pricing.slippage_points@.valid(),
    ensures
        s.pricing.spread_override matches Some(x) ==> rules.spread_price@ == x@,
        s.pricing.spread_override is None && product_is_exact(
            whole_number(symbol.spread as int),
            symbol.point@,
        ) ==> rules.spread_price@.units() == symbol.spread * symbol.point@.units(),
        product_is_exact(s.pricing.slippage_points@, symbol.point@) ==> rules.slippage_price@.units()
            * unit() == s.pricing.slippage_points@.units() * symbol.point@.units(),
        rules.commission_per_lot == s.pricing.commission_per_lot,
        rules.contract_size == symbol.trade_contract_size,
        rules.profit_is_usd <==> symbol.currency_profit@.len() == 3 && (
        symbol.currency_profit@[0] == 'U' || symbol.currency_profit@[0] == 'u') && (
        symbol.currency_profit@[1] == 'S' || symbol.currency_profit@[1] == 's') && (
        symbol.currency_profit@[2] == 'D' || symbol.currency_profit@[2] == 'd'),
{
    lemma_unit();
    lemma_whole_units(symbol.spread as int);
    let points = whole_number(symbol.spread as int);
    if product_is_exact(points, symbol.point@) {
        law_exact_product(points, symbol.point@);
        let (r, n, p, u) = (
            exact_product(points, symbol.point@).units(),
            symbol.spread as int,
            symbol.point@.units(),
            unit(),
        );
        assert(r == n * p) by (nonlinear_arith)
            requires
                r * u == (n * u) * p,
                u > 0,
        {
            assert((n * u) * p == (n * p) * u);
        }
    }
    if product_is_exact(s.pricing.slippage_points@, symbol.point@) {
        law_exact_product(s.pricing.slippage_points@, symbol.point@);
    }
    let c = symbol.currency_profit@;
    reveal_strlit("USD");
    law_case_is_the_only_difference(c, "USD"@);
    assert("USD"@.len() == 3 && "USD"@[0] == 'U' && "USD"@[1] == 'S' && "USD"@[2] == 'D');
    if c.len() == 3 && same_ignoring_case(c, "USD"@) {
        assert(c[0] == c[0] && c[1] == c[1] && c[2] == c[2]);
    }
}

/// Everything else in the rules is the setting or the figure of the symbol of
/// the same name, unchanged.
pub proof fn law_rules_are_the_settings(rules: Rules, s: Settings, symbol: Symbol)
    requires
        rules_follow(rules, s, symbol),
    ensures
        rules.risk.risk_pct == s.scope.risk_pct,
        rules.risk.value_per_lot == symbol.trade_contract_size,
        rules.risk.min_volume == symbol.volume_min,
        rules.risk.max_volume == symbol.volume_max,
        rules.risk.volume_step == symbol.volume_step,
        rules.min_rr == s.pricing.min_rr,
        rules.min_sl_distance == s.pricing.min_sl_distance,
        rules.killzone_windows@ == s.pricing.killzone_windows@,
        rules.atr_sl_mult == s.handling.atr_sl_mult,
        rules.atr_min_price == s.calendar.atr_min_price,
        rules.dow_filter == s.calendar.dow_filter,
        rules.date_from == s.calendar.date_from,
        rules.date_to == s.calendar.date_to,
        rules.trend_ema_period == s.handling.trend_ema_period,
        rules.trend_tf_h1 == s.handling.trend_tf_h1,
        rules.trend_h4_confirm == s.handling.trend_h4_confirm,
        rules.breakeven_sl_1r == s.handling.breakeven_sl_1r,
        rules.partial_tp_1r == s.handling.partial_tp_1r,
        rules.trailing_2r == s.calendar.trailing_2r,
        rules.partial_tp_2r == s.calendar.partial_tp_2r,
        rules.timeout_candles == s.handling.timeout_candles,
        rules.friday_close_hour == Some(s.calendar.friday_close_hour),
{
}

/// A text that, where it is there, writes a decimal.
pub open spec fn writes_decimal(v: Result<String, String>) -> bool {
    v matches Ok(text) ==> parsed_decimal(text@) is Ok
}

/// A text that, where it is there, writes a decimal that is not below zero.
pub open spec fn writes_amount(v: Result<String, String>) -> bool {
    v matches Ok(text) ==> (parsed_decimal(text@) matches Ok(n) && !less(n, zero_number()))
}

/// A text that, where it is there, writes an integer from `min` to `max`.
pub open spec fn writes_integer(v: Result<String, String>, min: nat, max: nat) -> bool {
    v matches Ok(text) ==> (parsed_unsigned(text@, max) matches Some(n) && n >= min)
}

/// A text that, where it is there, writes a day.
pub open spec fn writes_day(v: Result<String, String>) -> bool {
    v matches Ok(text) ==> read_date(text@) is Ok
}

/// Nothing is refused that need not be: an environment in which the five
/// variables that have to be are set, and in which each that is set writes what
/// it should, within its limits, is read.
pub proof fn law_good_environments_are_read(env: Environment)
    requires
        env.symbol is Ok && env.timeframe is Ok && env.candle_count is Ok && env.backtest_candles
            is Ok && env.backtest_balance is Ok,
        writes_integer(env.candle_count, 1, usize::MAX as nat),
        writes_integer(env.backtest_candles, 0, u32::MAX as nat),
        writes_decimal(env.backtest_balance),
        writes_decimal(env.risk_pct),
        writes_amount(env.min_sl_distance),
        writes_amount(env.slippage_points),
        writes_decimal(env.spread_override),
        writes_decimal(env.commission_per_lot),
        writes_integer(env.swing_period, 1, usize::MAX as nat),
        writes_amount(env.min_rr),
        env.killzone_windows matches Ok(text) ==> parsed_windows(text@) is Ok,
        writes_decimal(env.atr_sl_mult),
        writes_integer(env.timeout_candles, 0, usize::MAX as nat),
        writes_integer(env.trend_ema_period, 0, usize::MAX as nat),
        writes_integer(env.trend_h4_period, 1, usize::MAX as nat),
        env.friday_close_hour matches Ok(text) ==> (parsed_unsigned(
            text@,
            u32::MAX as nat,
        ) matches Some(n) && n < 24),
        writes_decimal(env.atr_min_price),
        writes_day(env.date_from),
        writes_day(env.date_to),
    ensures
        Settings::fault(env) is None,
{
    law_numbers_are_read_back(0, usize::MAX as nat);
    law_numbers_are_read_back(2, usize::MAX as nat);
    law_numbers_are_read_back(20, usize::MAX as nat);
    law_numbers_are_read_back(21, u32::MAX as nat);
    reveal_strlit("0");
    reveal_strlit("2");
    reveal_strlit("20");
    reveal_strlit("21");
    reveal_with_fuel(nat_text, 2);
    assert("0"@ =~= nat_text(0));
    assert("2"@ =~= nat_text(2));
    assert("20"@ =~= nat_text(20));
    assert("21"@ =~= nat_text(21));
    lemma_session_windows();
    lemma_unit();
    let (p, q) = (ten_to(0) as int, ten_to(1) as int);
    assert(0 * p == 0 && 0 * q == 0 && 5 * p >= 0 && 25 * p >= 0) by (nonlinear_arith)
        requires
            p >= 0,
    ;
    assert(Scope::fault(env) is None);
    assert(Pricing::fault(env) is None);
    assert(Handling::fault(env) is None);
    assert(Calendar::fault(env) is None);
}

} // verus!
