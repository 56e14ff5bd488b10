//! Settings, read from environment variables.
//!
//! The caller reads the variables and hands them over as [`EnvVars`]: `None` for a variable that
//! is not set or is not text.

use vstd::prelude::*;
use vstd::string::*;
use std::str::FromStr;
use crate::decimal::{decimal_of_text, is_read_plainly, plain_decimal, Decimal};
use crate::text::{
    ascii_lowercase, lowercase, lowercase_of, number_of, parse_unsigned, same_text, unsigned_of_text,
};

verus! {

/// The environment variables that hold settings.
pub struct EnvVars {
    pub clob_host: Option<String>,
    pub wss_url: Option<String>,
    pub gamma_host: Option<String>,
    pub private_key: Option<String>,
    pub funder_address: Option<String>,
    pub signature_type: Option<String>,
    pub dry_run: Option<String>,
    pub size: Option<String>,
    pub sum_max: Option<String>,
    pub stale_seconds: Option<String>,
    pub cooldown_seconds: Option<String>,
    pub bankroll_fraction: Option<String>,
    pub reserve_usdc: Option<String>,
    pub min_leg_notional_usd: Option<String>,
    pub min_trade_notional_usd: Option<String>,
    pub max_trade_notional_usd: Option<String>,
    pub size_decimals: Option<String>,
    pub balance_cache_ttl: Option<String>,
    pub hedge_mode: Option<String>,
    pub hedge_sum_max: Option<String>,
    pub hedge_retries: Option<String>,
    pub hedge_sleep_ms: Option<String>,
    pub unwind_retries: Option<String>,
    pub unwind_sleep_ms: Option<String>,
    pub max_daily_loss: Option<String>,
    pub max_inventory: Option<String>,
}

/// A bound on ages: the ages, in nanoseconds, up to and including `longest` are within it.
/// With `None` no age is.
#[derive(Clone, Copy, Debug, PartialEq, Eq, Structural)]
pub struct AgeLimit {
    pub longest: Option<u64>,
}

impl AgeLimit {
    /// Whether an age is within the limit.
    pub open spec fn spans(self, age: int) -> bool {
        self.longest matches Some(longest) && age <= longest
    }

    /// The limit that holds exactly the ages that `within` accepts. With an age it must accept all
    /// shorter ones.
    pub fn of<F: Fn(u64) -> bool>(within: F) -> (result: AgeLimit)
        requires
            forall|age: u64| #[trigger] call_requires(within, (age,)),
            forall|shorter: u64, age: u64|
                shorter <= age && #[trigger] call_ensures(within, (age,), true)
                    ==> !#[trigger] call_ensures(within, (shorter,), false),
        ensures
            forall|age: u64, accepts: bool| #[trigger]
                call_ensures(within, (age,), accepts) ==> accepts == result.spans(age as int),
    {
        if !within(0) {
            return AgeLimit { longest: None };
        }
        let mut low: u64 = 0;
        let mut high: u64 = u64::MAX;
        while low < high
            invariant
                low <= high,
                forall|age: u64| #[trigger] call_requires(within, (age,)),
                call_ensures(within, (low,), true),
                high < u64::MAX ==> call_ensures(within, ((high + 1) as u64,), false),
            decreases high - low,
        {
            let middle: u64 = high - (high - low) / 2;
            if within(middle) {
                low = middle;
            } else {
                high = middle - 1;
            }
        }
        AgeLimit { longest: Some(low) }
    }

    /// Whether an age is within the limit.
    pub fn covers(&self, age: u64) -> (result: bool)
        ensures
            result == self.spans(age as int),
    {
        match self.longest {
            Some(longest) => age <= longest,
            None => false,
        }
    }
}

/// The settings that are counted in seconds, as text.
pub struct SecondsTexts {
    pub stale_seconds: String,
    pub cooldown_seconds: String,
    pub balance_cache_ttl: String,
}

/// The settings that are counted in seconds, as ages in nanoseconds. `None` stands for a text that
/// is no number.
#[derive(Clone, Copy)]
pub struct AgeLimits {
    /// The ages of at most `STALE_SECONDS`.
    pub stale: Option<AgeLimit>,
    /// The ages of less than `COOLDOWN_SECONDS`.
    pub cooldown: Option<AgeLimit>,
    /// The ages of at most `BALANCE_CACHE_TTL` seconds.
    pub balance: Option<AgeLimit>,
}

/// A series of markets: the symbol, and what the slugs of its markets start with.
pub struct Series {
    pub symbol: String,
    pub prefix: String,
}

impl Clone for Series {
    fn clone(&self) -> (result: Series)
        ensures
            result == *self,
    {
        Series { symbol: self.symbol.clone(), prefix: self.prefix.clone() }
    }
}

/// The settings of the bot.
pub struct BotConfig {
    pub clob_host: String,
    pub wss_url: String,
    pub gamma_host: String,
    pub private_key: String,
    pub funder_address: Option<[u8; 20]>,
    pub signature_type: u8,
    pub dry_run: bool,
    pub size: Decimal,
    pub sum_max: Decimal,
    pub stale: AgeLimit,
    pub cooldown: AgeLimit,
    pub bankroll_fraction: Decimal,
    pub reserve_usdc: Decimal,
    pub min_leg_notional_usd: Decimal,
    pub min_trade_notional_usd: Decimal,
    pub max_trade_notional_usd: Decimal,
    pub size_decimals: u32,
    pub balance_cache: AgeLimit,
    pub hedge_mode: String,
    pub hedge_sum_max: Decimal,
    pub hedge_retries: u32,
    pub hedge_sleep_ms: u64,
    pub unwind_retries: u32,
    pub unwind_sleep_ms: u64,
    pub prefixes: Vec<Series>,
}

/// A setting whose text may not be readable.
#[derive(Clone, Copy, Debug, PartialEq, Eq, Structural)]
pub enum Setting {
    SignatureType,
    Size,
    SumMax,
    StaleSeconds,
    CooldownSeconds,
    BankrollFraction,
    ReserveUsdc,
    MinLegNotionalUsd,
    MinTradeNotionalUsd,
    MaxTradeNotionalUsd,
    SizeDecimals,
    BalanceCacheTtl,
    HedgeSumMax,
    HedgeRetries,
    HedgeSleepMs,
    UnwindRetries,
    UnwindSleepMs,
}

/// Why there are no settings.
#[derive(Clone, Copy, Debug, PartialEq, Eq, Structural)]
pub enum ConfigError {
    /// `PRIVATE_KEY` is not set.
    PrivateKeyRequired,
    /// The text of a setting is not a number of its kind.
    Unreadable(Setting),
}

/// The text of a variable, or its default.
pub open spec fn text_or(variable: Option<String>, default: Seq<char>) -> Seq<char> {
    match variable {
        Some(text) => text@,
        None => default,
    }
}

fn own_text_or(variable: &Option<String>, default: &str) -> (result: String)
    ensures
        result@ == text_or(*variable, default@),
{
    match variable {
        Some(text) => text.clone(),
        None => default.to_owned(),
    }
}

/// The decimal that a variable or its default holds.
pub open spec fn decimal_or(variable: Option<String>, default: Seq<char>) -> Option<Decimal> {
    decimal_of_text(text_or(variable, default))
}

fn read_decimal(variable: &Option<String>, default: &str) -> (result: Option<Decimal>)
    ensures
        result == decimal_or(*variable, default@),
        is_read_plainly(text_or(*variable, default@)),
{
    Decimal::parse(own_text_or(variable, default).as_str())
}

/// The unsigned number of at most `max` that a variable or its default holds.
pub open spec fn unsigned_or(variable: Option<String>, default: Seq<char>, max: int) -> Option<int> {
    unsigned_of_text(text_or(variable, default), max)
}

fn read_unsigned(variable: &Option<String>, default: &str, max: u64) -> (result: Option<u64>)
    ensures
        match result {
            Some(n) => unsigned_or(*variable, default@, max as int) == Some(n as int) && n <= max,
            None => unsigned_or(*variable, default@, max as int) is None,
        },
{
    parse_unsigned(own_text_or(variable, default).as_str(), max)
}

/// The value of a hexadecimal digit, or `None` for another character.
pub open spec fn hex_value(c: char) -> Option<int> {
    if '0' <= c <= '9' {
        Some(c as int - '0' as int)
    } else if 'a' <= c <= 'f' {
        Some(c as int - 'a' as int + 10)
    } else if 'A' <= c <= 'F' {
        Some(c as int - 'A' as int + 10)
    } else {
        None
    }
}

/// A text without the `0x` or `0X` that it may start with.
pub open spec fn without_hex_prefix(text: Seq<char>) -> Seq<char> {
    if text.len() >= 2 && text[0] == '0' && (text[1] == 'x' || text[1] == 'X') {
        text.skip(2)
    } else {
        text
    }
}

/// The twenty bytes that forty hexadecimal digits stand for, or `None` for another text.
pub open spec fn address_of_text(text: Seq<char>) -> Option<Seq<u8>> {
    let digits = without_hex_prefix(text);
    if digits.len() == 40 && forall|i: int| 0 <= i < 40 ==> hex_value(#[trigger] digits[i]) is Some {
        Some(Seq::new(20, |i: int|
            (hex_value(digits[2 * i])->0 * 16 + hex_value(digits[2 * i + 1])->0) as u8))
    } else {
        None
    }
}

/// Calls `alloy::primitives::Address::from_str`, which reads forty hexadecimal digits, in either
/// case and with or without `0x` before them, and rejects every other text.
#[verifier::external_body]
fn parse_address(text: &str) -> (result: Option<[u8; 20]>)
    ensures
        match result {
            Some(bytes) => address_of_text(text@) == Some(bytes@),
            None => address_of_text(text@) is None,
        },
{
    alloy::primitives::Address::from_str(text).ok().map(|address| address.into_array())
}

/// The series whose markets the bot trades: symbol and slug prefix.
pub open spec fn series_texts() -> Seq<(Seq<char>, Seq<char>)> {
    seq![
        ("BTC"@, "btc-updown-15m-"@),
        ("ETH"@, "eth-updown-15m-"@),
        ("SOL"@, "sol-updown-15m-"@),
        ("XRP"@, "xrp-updown-15m-"@),
    ]
}

/// The symbols and prefixes of a list of series.
pub open spec fn series_list(list: Seq<Series>) -> Seq<(Seq<char>, Seq<char>)> {
    list.map_values(|series: Series| (series.symbol@, series.prefix@))
}

fn series(symbol: &str, prefix: &str) -> (result: Series)
    ensures
        result.symbol@ == symbol@,
        result.prefix@ == prefix@,
{
    Series { symbol: symbol.to_owned(), prefix: prefix.to_owned() }
}

fn all_series() -> (result: Vec<Series>)
    ensures
        series_list(result@) == series_texts(),
{
    vec![
        series("BTC", "btc-updown-15m-"),
        series("ETH", "eth-updown-15m-"),
        series("SOL", "sol-updown-15m-"),
        series("XRP", "xrp-updown-15m-"),
    ]
}

/// The first setting, in the order in which they are read, that is not readable.
pub open spec fn first_unreadable(vars: EnvVars, limits: AgeLimits) -> Option<Setting> {
    if unsigned_or(vars.signature_type, "1"@, u8::MAX as int) is None {
        Some(Setting::SignatureType)
    } else if decimal_or(vars.size, "5"@) is None {
        Some(Setting::Size)
    } else if decimal_or(vars.sum_max, "0.97"@) is None {
        Some(Setting::SumMax)
    } else if limits.stale is None {
        Some(Setting::StaleSeconds)
    } else if limits.cooldown is None {
        Some(Setting::CooldownSeconds)
    } else if decimal_or(vars.bankroll_fraction, "0.25"@) is None {
        Some(Setting::BankrollFraction)
    } else if decimal_or(vars.reserve_usdc, "2.0"@) is None {
        Some(Setting::ReserveUsdc)
    } else if decimal_or(vars.min_leg_notional_usd, "1.0"@) is None {
        Some(Setting::MinLegNotionalUsd)
    } else if decimal_or(vars.min_trade_notional_usd, "2.0"@) is None {
        Some(Setting::MinTradeNotionalUsd)
    } else if decimal_or(vars.max_trade_notional_usd, "50.0"@) is None {
        Some(Setting::MaxTradeNotionalUsd)
    } else if unsigned_or(vars.size_decimals, "2"@, u32::MAX as int) is None {
        Some(Setting::SizeDecimals)
    } else if limits.balance is None {
        Some(Setting::BalanceCacheTtl)
    } else if decimal_or(vars.hedge_sum_max, "0.98"@) is None {
        Some(Setting::HedgeSumMax)
    } else if unsigned_or(vars.hedge_retries, "2"@, u32::MAX as int) is None {
        Some(Setting::HedgeRetries)
    } else if unsigned_or(vars.hedge_sleep_ms, "150"@, u64::MAX as int) is None {
        Some(Setting::HedgeSleepMs)
    } else if unsigned_or(vars.unwind_retries, "3"@, u32::MAX as int) is None {
        Some(Setting::UnwindRetries)
    } else if unsigned_or(vars.unwind_sleep_ms, "150"@, u64::MAX as int) is None {
        Some(Setting::UnwindSleepMs)
    } else {
        None
    }
}

/// The address of the wallet that pays, where the variable holds one.
pub open spec fn funder_of(variable: Option<String>) -> Option<Seq<u8>> {
    match variable {
        Some(text) => if text@.len() == 0 {
            None
        } else {
            address_of_text(text@)
        },
        None => None,
    }
}

/// Whether every number that the variables or their defaults hold is plainly one.
pub open spec fn has_plain_numbers(vars: EnvVars, limits: AgeLimits) -> bool {
    &&& plain_decimal(text_or(vars.size, "5"@)) is Some
    &&& plain_decimal(text_or(vars.sum_max, "0.97"@)) is Some
    &&& plain_decimal(text_or(vars.bankroll_fraction, "0.25"@)) is Some
    &&& plain_decimal(text_or(vars.reserve_usdc, "2.0"@)) is Some
    &&& plain_decimal(text_or(vars.min_leg_notional_usd, "1.0"@)) is Some
    &&& plain_decimal(text_or(vars.min_trade_notional_usd, "2.0"@)) is Some
    &&& plain_decimal(text_or(vars.max_trade_notional_usd, "50.0"@)) is Some
    &&& plain_decimal(text_or(vars.hedge_sum_max, "0.98"@)) is Some
    &&& unsigned_or(vars.signature_type, "1"@, u8::MAX as int) is Some
    &&& unsigned_or(vars.size_decimals, "2"@, u32::MAX as int) is Some
    &&& unsigned_or(vars.hedge_retries, "2"@, u32::MAX as int) is Some
    &&& unsigned_or(vars.hedge_sleep_ms, "150"@, u64::MAX as int) is Some
    &&& unsigned_or(vars.unwind_retries, "3"@, u32::MAX as int) is Some
    &&& unsigned_or(vars.unwind_sleep_ms, "150"@, u64::MAX as int) is Some
    &&& limits.stale is Some
    &&& limits.cooldown is Some
    &&& limits.balance is Some
}

/// Whether no variable is set that holds a number other than of seconds.
pub open spec fn leaves_numbers_unset(vars: EnvVars) -> bool {
    &&& vars.size is None
    &&& vars.sum_max is None
    &&& vars.bankroll_fraction is None
    &&& vars.reserve_usdc is None
    &&& vars.min_leg_notional_usd is None
    &&& vars.min_trade_notional_usd is None
    &&& vars.max_trade_notional_usd is None
    &&& vars.hedge_sum_max is None
    &&& vars.signature_type is None
    &&& vars.size_decimals is None
    &&& vars.hedge_retries is None
    &&& vars.hedge_sleep_ms is None
    &&& vars.unwind_retries is None
    &&& vars.unwind_sleep_ms is None
}

/// The defaults of the numbers are plainly numbers.
pub proof fn law_defaults_are_plain()
    ensures
        plain_decimal("5"@) == Some(Decimal::of_parts(5, 0)),
        plain_decimal("0.97"@) == Some(Decimal::of_parts(97, 2)),
        plain_decimal("0.25"@) == Some(Decimal::of_parts(25, 2)),
        plain_decimal("2.0"@) == Some(Decimal::of_parts(20, 1)),
        plain_decimal("1.0"@) == Some(Decimal::of_parts(10, 1)),
        plain_decimal("50.0"@) == Some(Decimal::of_parts(500, 1)),
        plain_decimal("0.98"@) == Some(Decimal::of_parts(98, 2)),
        forall|max: int| max >= 1 ==> #[trigger] unsigned_of_text("1"@, max) == Some(1int),
        forall|max: int| max >= 2 ==> #[trigger] unsigned_of_text("2"@, max) == Some(2int),
        forall|max: int| max >= 3 ==> #[trigger] unsigned_of_text("3"@, max) == Some(3int),
        forall|max: int| max >= 150 ==> #[trigger] unsigned_of_text("150"@, max) == Some(150int),
{
    reveal_strlit("5");
    reveal_strlit("0.97");
    reveal_strlit("0.25");
    reveal_strlit("2.0");
    reveal_strlit("1.0");
    reveal_strlit("50.0");
    reveal_strlit("0.98");
    reveal_strlit("1");
    reveal_strlit("2");
    reveal_strlit("3");
    reveal_strlit("150");
    reveal_with_fuel(number_of, 4);
    assert("0.97"@.index_of('.') == 1 && "0.97"@.contains('.')) by {
        assert("0.97"@[1] == '.');
    }
    assert("0.97"@.remove(1) == seq!['0', '9', '7']);
    assert("0.25"@.index_of('.') == 1 && "0.25"@.contains('.')) by {
        assert("0.25"@[1] == '.');
    }
    assert("0.25"@.remove(1) == seq!['0', '2', '5']);
    assert("2.0"@.index_of('.') == 1 && "2.0"@.contains('.')) by {
        assert("2.0"@[1] == '.');
    }
    assert("2.0"@.remove(1) == seq!['2', '0']);
    assert("1.0"@.index_of('.') == 1 && "1.0"@.contains('.')) by {
        assert("1.0"@[1] == '.');
    }
    assert("1.0"@.remove(1) == seq!['1', '0']);
    assert("50.0"@.index_of('.') == 2 && "50.0"@.contains('.')) by {
        assert("50.0"@[2] == '.');
    }
    assert("50.0"@.remove(2) == seq!['5', '0', '0']);
    assert("0.98"@.index_of('.') == 1 && "0.98"@.contains('.')) by {
        assert("0.98"@[1] == '.');
    }
    assert("0.98"@.remove(1) == seq!['0', '9', '8']);
}

impl EnvVars {
    /// The texts of the settings that are counted in seconds.
    pub fn seconds_texts(&self) -> (result: SecondsTexts)
        ensures
            result.stale_seconds@ == text_or(self.stale_seconds, "2.0"@),
            result.cooldown_seconds@ == text_or(self.cooldown_seconds, "1.0"@),
            result.balance_cache_ttl@ == text_or(self.balance_cache_ttl, "1.0"@),
    {
        SecondsTexts {
            stale_seconds: own_text_or(&self.stale_seconds, "2.0"),
            cooldown_seconds: own_text_or(&self.cooldown_seconds, "1.0"),
            balance_cache_ttl: own_text_or(&self.balance_cache_ttl, "1.0"),
        }
    }
}

impl BotConfig {
    /// Whether these are the settings that the variables hold.
    pub open spec fn holds(self, vars: EnvVars, limits: AgeLimits) -> bool {
        &&& self.clob_host@ == text_or(vars.clob_host, "https://clob.polymarket.com"@)
        &&& self.wss_url@ == text_or(
            vars.wss_url,
            "wss://ws-subscriptions-clob.polymarket.com"@,
        )
        &&& self.gamma_host@ == text_or(vars.gamma_host, "https://gamma-api.polymarket.com"@)
        &&& vars.private_key matches Some(key) && self.private_key@ == key@
        &&& match self.funder_address {
            Some(bytes) => funder_of(vars.funder_address) == Some(bytes@),
            None => funder_of(vars.funder_address) is None,
        }
        &&& self.dry_run == (lowercase_of(text_or(vars.dry_run, "true"@)) == "true"@)
        &&& decimal_or(vars.size, "5"@) == Some(self.size)
        &&& decimal_or(vars.sum_max, "0.97"@) == Some(self.sum_max)
        &&& decimal_or(vars.bankroll_fraction, "0.25"@) == Some(self.bankroll_fraction)
        &&& decimal_or(vars.reserve_usdc, "2.0"@) == Some(self.reserve_usdc)
        &&& decimal_or(vars.min_leg_notional_usd, "1.0"@) == Some(self.min_leg_notional_usd)
        &&& decimal_or(vars.min_trade_notional_usd, "2.0"@) == Some(self.min_trade_notional_usd)
        &&& decimal_or(vars.max_trade_notional_usd, "50.0"@) == Some(self.max_trade_notional_usd)
        &&& decimal_or(vars.hedge_sum_max, "0.98"@) == Some(self.hedge_sum_max)
        &&& unsigned_or(vars.signature_type, "1"@, u8::MAX as int) == Some(self.signature_type as int)
        &&& unsigned_or(vars.size_decimals, "2"@, u32::MAX as int) == Some(self.size_decimals as int)
        &&& unsigned_or(vars.hedge_retries, "2"@, u32::MAX as int) == Some(self.hedge_retries as int)
        &&& unsigned_or(vars.hedge_sleep_ms, "150"@, u64::MAX as int) == Some(self.hedge_sleep_ms as int)
        &&& unsigned_or(vars.unwind_retries, "3"@, u32::MAX as int) == Some(self.unwind_retries as int)
        &&& unsigned_or(vars.unwind_sleep_ms, "150"@, u64::MAX as int) == Some(self.unwind_sleep_ms as int)
        &&& limits.stale == Some(self.stale)
        &&& limits.cooldown == Some(self.cooldown)
        &&& limits.balance == Some(self.balance_cache)
        &&& self.hedge_mode@ == lowercase_of(text_or(vars.hedge_mode, "refill_then_unwind"@))
        &&& series_list(self.prefixes@) == series_texts()
    }

    /// Whether these are the numbers that the variables hold, as far as they are plainly numbers.
    pub open spec fn holds_plain_numbers(self, vars: EnvVars) -> bool {
        &&& plain_decimal(text_or(vars.size, "5"@)) matches Some(d) ==> self.size == d
        &&& plain_decimal(text_or(vars.sum_max, "0.97"@)) matches Some(d) ==> self.sum_max == d
        &&& plain_decimal(text_or(vars.bankroll_fraction, "0.25"@)) matches Some(d) ==> self.bankroll_fraction == d
        &&& plain_decimal(text_or(vars.reserve_usdc, "2.0"@)) matches Some(d) ==> self.reserve_usdc == d
        &&& plain_decimal(text_or(vars.min_leg_notional_usd, "1.0"@)) matches Some(d) ==> self.min_leg_notional_usd == d
        &&& plain_decimal(text_or(vars.min_trade_notional_usd, "2.0"@)) matches Some(d) ==> self.min_trade_notional_usd == d
        &&& plain_decimal(text_or(vars.max_trade_notional_usd, "50.0"@)) matches Some(d) ==> self.max_trade_notional_usd == d
        &&& plain_decimal(text_or(vars.hedge_sum_max, "0.98"@)) matches Some(d) ==> self.hedge_sum_max == d
    }

    /// Whether these settings have the default numbers.
    pub open spec fn has_default_numbers(self) -> bool {
        &&& self.size == Decimal::of_parts(5, 0)
        &&& self.sum_max == Decimal::of_parts(97, 2)
        &&& self.bankroll_fraction == Decimal::of_parts(25, 2)
        &&& self.reserve_usdc == Decimal::of_parts(20, 1)
        &&& self.min_leg_notional_usd == Decimal::of_parts(10, 1)
        &&& self.min_trade_notional_usd == Decimal::of_parts(20, 1)
        &&& self.max_trade_notional_usd == Decimal::of_parts(500, 1)
        &&& self.hedge_sum_max == Decimal::of_parts(98, 2)
        &&& self.signature_type == 1
        &&& self.size_decimals == 2
        &&& self.hedge_retries == 2
        &&& self.hedge_sleep_ms == 150
        &&& self.unwind_retries == 3
        &&& self.unwind_sleep_ms == 150
    }

    /// Reads the settings. With a private key and plain numbers there are some.
    ///
    /// Without a `DRY_RUN` variable the bot only pretends to trade.
    pub fn from_env(vars: &EnvVars, limits: AgeLimits) -> (result: Result<BotConfig, ConfigError>)
        ensures
            match result {
                Ok(config) => vars.private_key is Some && first_unreadable(*vars, limits) is None
                    && config.holds(*vars, limits),
                Err(ConfigError::PrivateKeyRequired) => vars.private_key is None,
                Err(ConfigError::Unreadable(setting)) => vars.private_key is Some
                    && first_unreadable(*vars, limits) == Some(setting),
            },
            vars.private_key is Some && has_plain_numbers(*vars, limits) ==> result is Ok,
            result matches Ok(config) ==> config.holds_plain_numbers(*vars),
            vars.private_key is Some && leaves_numbers_unset(*vars) && limits.stale is Some
                && limits.cooldown is Some && limits.balance is Some ==> (result matches Ok(config)
                && config.has_default_numbers()),
            vars.dry_run is None ==> (result matches Ok(config) ==> config.dry_run),
    {
        let private_key = match &vars.private_key {
            Some(key) => key.clone(),
            None => return Err(ConfigError::PrivateKeyRequired),
        };
        let funder_address = match &vars.funder_address {
            Some(text) => if text.as_str().is_empty() {
                None
            } else {
                parse_address(text.as_str())
            },
            None => None,
        };
        let dry_run_text = own_text_or(&vars.dry_run, "true");
        let dry_run = same_text(lowercase(dry_run_text.as_str()).as_str(), "true");
        proof {
            law_defaults_are_plain();
            reveal_strlit("true");
            assert("true"@.map_values(|c: char| ascii_lowercase(c)) == "true"@);
        }
        let signature_type = match read_unsigned(&vars.signature_type, "1", u8::MAX as u64) {
            Some(value) => value,
            None => return Err(ConfigError::Unreadable(Setting::SignatureType)),
        };
        let size = match read_decimal(&vars.size, "5") {
            Some(value) => value,
            None => return Err(ConfigError::Unreadable(Setting::Size)),
        };
        let sum_max = match read_decimal(&vars.sum_max, "0.97") {
            Some(value) => value,
            None => return Err(ConfigError::Unreadable(Setting::SumMax)),
        };
        let stale = match limits.stale {
            Some(value) => value,
            None => return Err(ConfigError::Unreadable(Setting::StaleSeconds)),
        };
        let cooldown = match limits.cooldown {
            Some(value) => value,
            None => return Err(ConfigError::Unreadable(Setting::CooldownSeconds)),
        };
        let bankroll_fraction = match read_decimal(&vars.bankroll_fraction, "0.25") {
            Some(value) => value,
            None => return Err(ConfigError::Unreadable(Setting::BankrollFraction)),
        };
        let reserve_usdc = match read_decimal(&vars.reserve_usdc, "2.0") {
            Some(value) => value,
            None => return Err(ConfigError::Unreadable(Setting::ReserveUsdc)),
        };
        let min_leg_notional_usd = match read_decimal(&vars.min_leg_notional_usd, "1.0") {
            Some(value) => value,
            None => return Err(ConfigError::Unreadable(Setting::MinLegNotionalUsd)),
        };
        let min_trade_notional_usd = match read_decimal(&vars.min_trade_notional_usd, "2.0") {
            Some(value) => value,
            None => return Err(ConfigError::Unreadable(Setting::MinTradeNotionalUsd)),
        };
        let max_trade_notional_usd = match read_decimal(&vars.max_trade_notional_usd, "50.0") {
            Some(value) => value,
            None => return Err(ConfigError::Unreadable(Setting::MaxTradeNotionalUsd)),
        };
        let size_decimals = match read_unsigned(&vars.size_decimals, "2", u32::MAX as u64) {
            Some(value) => value,
            None => return Err(ConfigError::Unreadable(Setting::SizeDecimals)),
        };
        let balance = match limits.balance {
            Some(value) => value,
            None => return Err(ConfigError::Unreadable(Setting::BalanceCacheTtl)),
        };
        let hedge_sum_max = match read_decimal(&vars.hedge_sum_max, "0.98") {
            Some(value) => value,
            None => return Err(ConfigError::Unreadable(Setting::HedgeSumMax)),
        };
        let hedge_retries = match read_unsigned(&vars.hedge_retries, "2", u32::MAX as u64) {
            Some(value) => value,
            None => return Err(ConfigError::Unreadable(Setting::HedgeRetries)),
        };
        let hedge_sleep_ms = match read_unsigned(&vars.hedge_sleep_ms, "150", u64::MAX) {
            Some(value) => value,
            None => return Err(ConfigError::Unreadable(Setting::HedgeSleepMs)),
        };
        let unwind_retries = match read_unsigned(&vars.unwind_retries, "3", u32::MAX as u64) {
            Some(value) => value,
            None => return Err(ConfigError::Unreadable(Setting::UnwindRetries)),
        };
        let unwind_sleep_ms = match read_unsigned(&vars.unwind_sleep_ms, "150", u64::MAX) {
            Some(value) => value,
            None => return Err(ConfigError::Unreadable(Setting::UnwindSleepMs)),
        };
        let hedge_mode = lowercase(own_text_or(&vars.hedge_mode, "refill_then_unwind").as_str());
        Ok(BotConfig {
            clob_host: own_text_or(&vars.clob_host, "https://clob.polymarket.com"),
            wss_url: own_text_or(&vars.wss_url, "wss://ws-subscriptions-clob.polymarket.com"),
            gamma_host: own_text_or(&vars.gamma_host, "https://gamma-api.polymarket.com"),
            private_key,
            funder_address,
            signature_type: signature_type as u8,
            dry_run,
            size,
            sum_max,
            stale,
            cooldown,
            bankroll_fraction,
            reserve_usdc,
            min_leg_notional_usd,
            min_trade_notional_usd,
            max_trade_notional_usd,
            size_decimals: size_decimals as u32,
            balance_cache: balance,
            hedge_mode,
            hedge_sum_max,
            hedge_retries: hedge_retries as u32,
            hedge_sleep_ms,
            unwind_retries: unwind_retries as u32,
            unwind_sleep_ms,
            prefixes: all_series(),
        })
    }
}

/// How orders are signed.
#[derive(Clone, Copy, Debug, PartialEq, Eq, Structural)]
pub enum SignatureKind {
    /// By the wallet's own key.
    Eoa,
    /// By the key of a wallet with an e-mail login.
    Proxy,
    /// By the key of a browser wallet's proxy.
    GnosisSafe,
}

/// The kind of signature that a number stands for.
pub open spec fn kind_of(signature_type: u8) -> SignatureKind {
    match signature_type {
        1 => SignatureKind::Proxy,
        2 => SignatureKind::GnosisSafe,
        _ => SignatureKind::Eoa,
    }
}

/// Each kind of signature for a proxy wallet has one number, and all other numbers stand for the
/// wallet's own key; only a proxy wallet has another that pays.
pub proof fn law_signatures(signature_type: u8, config: BotConfig)
    ensures
        kind_of(signature_type) == SignatureKind::Proxy <==> signature_type == 1,
        kind_of(signature_type) == SignatureKind::GnosisSafe <==> signature_type == 2,
        kind_of(signature_type) == SignatureKind::Eoa <==> signature_type == 0 || signature_type > 2,
        payer_of(config) is Some <==> config.funder_address is Some && 1 <= config.signature_type <= 2,
        payer_of(config) is Some ==> payer_of(config) == config.funder_address,
{
}

/// The wallet that pays for orders, where it is not the signer's own.
pub open spec fn payer_of(config: BotConfig) -> Option<[u8; 20]> {
    if kind_of(config.signature_type) == SignatureKind::Eoa {
        None
    } else {
        config.funder_address
    }
}

/// The kind of signature that a number stands for; a number without a meaning stands for `Eoa`.
pub fn signature_kind(signature_type: u8) -> (result: SignatureKind)
    ensures
        result == (if signature_type == 1 {
            SignatureKind::Proxy
        } else if signature_type == 2 {
            SignatureKind::GnosisSafe
        } else {
            SignatureKind::Eoa
        }),
        result == kind_of(signature_type),
{
    match signature_type {
        0 => SignatureKind::Eoa,
        1 => SignatureKind::Proxy,
        2 => SignatureKind::GnosisSafe,
        _ => SignatureKind::Eoa,
    }
}

/// The wallet that pays for orders, where it is not the signer's own: only an order that is signed
/// for a proxy wallet has one.
pub fn funder(config: &BotConfig) -> (result: Option<[u8; 20]>)
    ensures
        result == (if config.signature_type == 1 || config.signature_type == 2 {
            config.funder_address
        } else {
            None
        }),
        result == payer_of(*config),
{
    match signature_kind(config.signature_type) {
        SignatureKind::Eoa => None,
        _ => config.funder_address,
    }
}

/// A smaller set of settings, for runs with risk limits. The limits and prices are held as the
/// numerals that were given.
pub struct Config {
    pub clob_host: String,
    pub wss_url: String,
    pub gamma_host: String,
    pub private_key: String,
    pub funder: Option<String>,
    pub signature_type: u8,
    pub dry_run: bool,
    pub sum_max: String,
    pub size_cap: String,
    pub bankroll_fraction: String,
    pub reserve_usdc: String,
    pub max_daily_loss: String,
    pub max_inventory_per_token: String,
}

impl Config {
    /// Reads the settings. An unreadable `SIGNATURE_TYPE` counts as not set.
    pub fn load(vars: &EnvVars) -> (result: Config)
        requires
            vars.private_key is Some,
        ensures
            result.clob_host@ == text_or(vars.clob_host, "https://clob.polymarket.com"@),
            result.wss_url@ == text_or(
                vars.wss_url,
                "wss://ws-subscriptions-clob.polymarket.com/ws/market"@,
            ),
            result.gamma_host@ == text_or(vars.gamma_host, "https://gamma-api.polymarket.com"@),
            vars.private_key matches Some(key) && result.private_key@ == key@,
            result.funder == vars.funder_address,
            result.signature_type == (match vars.signature_type {
                Some(text) => match unsigned_of_text(text@, u8::MAX as int) {
                    Some(n) => n,
                    None => 1,
                },
                None => 1,
            }),
            result.dry_run == (text_or(vars.dry_run, "true"@) == "true"@),
            result.sum_max@ == text_or(vars.sum_max, "0.97"@),
            result.size_cap@ == text_or(vars.size, "5"@),
            result.bankroll_fraction@ == text_or(vars.bankroll_fraction, "0.25"@),
            result.reserve_usdc@ == text_or(vars.reserve_usdc, "2.0"@),
            result.max_daily_loss@ == text_or(vars.max_daily_loss, "25"@),
            result.max_inventory_per_token@ == text_or(vars.max_inventory, "50"@),
    {
        let signature_type: u64 = match &vars.signature_type {
            Some(text) => match parse_unsigned(text.as_str(), u8::MAX as u64) {
                Some(n) => n,
                None => 1,
            },
            None => 1,
        };
        let funder = match &vars.funder_address {
            Some(text) => Some(text.clone()),
            None => None,
        };
        Config {
            clob_host: own_text_or(&vars.clob_host, "https://clob.polymarket.com"),
            wss_url: own_text_or(
                &vars.wss_url,
                "wss://ws-subscriptions-clob.polymarket.com/ws/market",
            ),
            gamma_host: own_text_or(&vars.gamma_host, "https://gamma-api.polymarket.com"),
            private_key: own_text_or(&vars.private_key, ""),
            funder,
            signature_type: signature_type as u8,
            dry_run: same_text(own_text_or(&vars.dry_run, "true").as_str(), "true"),
            sum_max: own_text_or(&vars.sum_max, "0.97"),
            size_cap: own_text_or(&vars.size, "5"),
            bankroll_fraction: own_text_or(&vars.bankroll_fraction, "0.25"),
            reserve_usdc: own_text_or(&vars.reserve_usdc, "2.0"),
            max_daily_loss: own_text_or(&vars.max_daily_loss, "25"),
            max_inventory_per_token: own_text_or(&vars.max_inventory, "50"),
        }
    }
}

/// Each setting is what its own variable says, or its default where that is not set, and no other
/// variable bears on it.
pub proof fn law_settings(config: BotConfig, vars: EnvVars, limits: AgeLimits)
    requires
        config.holds(vars, limits),
    ensures
        match vars.clob_host {
            Some(text) => config.clob_host@ == text@,
            None => config.clob_host@ == "https://clob.polymarket.com"@,
        },
        match vars.wss_url {
            Some(text) => config.wss_url@ == text@,
            None => config.wss_url@ == "wss://ws-subscriptions-clob.polymarket.com"@,
        },
        match vars.gamma_host {
            Some(text) => config.gamma_host@ == text@,
            None => config.gamma_host@ == "https://gamma-api.polymarket.com"@,
        },
        vars.private_key matches Some(key) && config.private_key@ == key@,
        match vars.funder_address {
            Some(text) => match config.funder_address {
                Some(bytes) => address_of_text(text@) == Some(bytes@),
                None => text@.len() == 0 || address_of_text(text@) is None,
            },
            None => config.funder_address is None,
        },
        match vars.dry_run {
            Some(text) => config.dry_run <==> lowercase_of(text@) == "true"@,
            None => config.dry_run <==> lowercase_of("true"@) == "true"@,
        },
        match vars.hedge_mode {
            Some(text) => config.hedge_mode@ == lowercase_of(text@),
            None => config.hedge_mode@ == lowercase_of("refill_then_unwind"@),
        },
        match vars.size {
            Some(text) => decimal_of_text(text@) == Some(config.size),
            None => decimal_of_text("5"@) == Some(config.size),
        },
        match vars.sum_max {
            Some(text) => decimal_of_text(text@) == Some(config.sum_max),
            None => decimal_of_text("0.97"@) == Some(config.sum_max),
        },
        match vars.bankroll_fraction {
            Some(text) => decimal_of_text(text@) == Some(config.bankroll_fraction),
            None => decimal_of_text("0.25"@) == Some(config.bankroll_fraction),
        },
        match vars.reserve_usdc {
            Some(text) => decimal_of_text(text@) == Some(config.reserve_usdc),
            None => decimal_of_text("2.0"@) == Some(config.reserve_usdc),
        },
        match vars.min_leg_notional_usd {
            Some(text) => decimal_of_text(text@) == Some(config.min_leg_notional_usd),
            None => decimal_of_text("1.0"@) == Some(config.min_leg_notional_usd),
        },
        match vars.min_trade_notional_usd {
            Some(text) => decimal_of_text(text@) == Some(config.min_trade_notional_usd),
            None => decimal_of_text("2.0"@) == Some(config.min_trade_notional_usd),
        },
        match vars.max_trade_notional_usd {
            Some(text) => decimal_of_text(text@) == Some(config.max_trade_notional_usd),
            None => decimal_of_text("50.0"@) == Some(config.max_trade_notional_usd),
        },
        match vars.hedge_sum_max {
            Some(text) => decimal_of_text(text@) == Some(config.hedge_sum_max),
            None => decimal_of_text("0.98"@) == Some(config.hedge_sum_max),
        },
        match vars.signature_type {
            Some(text) => unsigned_of_text(text@, u8::MAX as int) == Some(config.signature_type as int),
            None => unsigned_of_text("1"@, u8::MAX as int) == Some(config.signature_type as int),
        },
        match vars.size_decimals {
            Some(text) => unsigned_of_text(text@, u32::MAX as int) == Some(config.size_decimals as int),
            None => unsigned_of_text("2"@, u32::MAX as int) == Some(config.size_decimals as int),
        },
        match vars.hedge_retries {
            Some(text) => unsigned_of_text(text@, u32::MAX as int) == Some(config.hedge_retries as int),
            None => unsigned_of_text("2"@, u32::MAX as int) == Some(config.hedge_retries as int),
        },
        match vars.hedge_sleep_ms {
            Some(text) => unsigned_of_text(text@, u64::MAX as int) == Some(config.hedge_sleep_ms as int),
            None => unsigned_of_text("150"@, u64::MAX as int) == Some(config.hedge_sleep_ms as int),
        },
        match vars.unwind_retries {
            Some(text) => unsigned_of_text(text@, u32::MAX as int) == Some(config.unwind_retries as int),
            None => unsigned_of_text("3"@, u32::MAX as int) == Some(config.unwind_retries as int),
        },
        match vars.unwind_sleep_ms {
            Some(text) => unsigned_of_text(text@, u64::MAX as int) == Some(config.unwind_sleep_ms as int),
            None => unsigned_of_text("150"@, u64::MAX as int) == Some(config.unwind_sleep_ms as int),
        },
        limits.stale == Some(config.stale),
        limits.cooldown == Some(config.cooldown),
        limits.balance == Some(config.balance_cache),
        config.prefixes@.len() == 4,
        config.prefixes@[0].symbol@ == "BTC"@ && config.prefixes@[0].prefix@ == "btc-updown-15m-"@,
        config.prefixes@[1].symbol@ == "ETH"@ && config.prefixes@[1].prefix@ == "eth-updown-15m-"@,
        config.prefixes@[2].symbol@ == "SOL"@ && config.prefixes@[2].prefix@ == "sol-updown-15m-"@,
        config.prefixes@[3].symbol@ == "XRP"@ && config.prefixes@[3].prefix@ == "xrp-updown-15m-"@,
{
    let list = series_list(config.prefixes@);
    assert(list.len() == config.prefixes@.len());
    assert(list[0] == (config.prefixes@[0].symbol@, config.prefixes@[0].prefix@));
    assert(list[1] == (config.prefixes@[1].symbol@, config.prefixes@[1].prefix@));
    assert(list[2] == (config.prefixes@[2].symbol@, config.prefixes@[2].prefix@));
    assert(list[3] == (config.prefixes@[3].symbol@, config.prefixes@[3].prefix@));
}

/// Whether the text of a setting, or its default where its variable is not set, is no number of its
/// kind.
pub open spec fn is_unreadable(vars: EnvVars, limits: AgeLimits, setting: Setting) -> bool {
    match setting {
        Setting::SignatureType => match vars.signature_type {
            Some(text) => unsigned_of_text(text@, u8::MAX as int) is None,
            None => unsigned_of_text("1"@, u8::MAX as int) is None,
        },
        Setting::Size => match vars.size {
            Some(text) => decimal_of_text(text@) is None,
            None => decimal_of_text("5"@) is None,
        },
        Setting::SumMax => match vars.sum_max {
            Some(text) => decimal_of_text(text@) is None,
            None => decimal_of_text("0.97"@) is None,
        },
        Setting::StaleSeconds => limits.stale is None,
        Setting::CooldownSeconds => limits.cooldown is None,
        Setting::BankrollFraction => match vars.bankroll_fraction {
            Some(text) => decimal_of_text(text@) is None,
            None => decimal_of_text("0.25"@) is None,
        },
        Setting::ReserveUsdc => match vars.reserve_usdc {
            Some(text) => decimal_of_text(text@) is None,
            None => decimal_of_text("2.0"@) is None,
        },
        Setting::MinLegNotionalUsd => match vars.min_leg_notional_usd {
            Some(text) => decimal_of_text(text@) is None,
            None => decimal_of_text("1.0"@) is None,
        },
        Setting::MinTradeNotionalUsd => match vars.min_trade_notional_usd {
            Some(text) => decimal_of_text(text@) is None,
            None => decimal_of_text("2.0"@) is None,
        },
        Setting::MaxTradeNotionalUsd => match vars.max_trade_notional_usd {
            Some(text) => decimal_of_text(text@) is None,
            None => decimal_of_text("50.0"@) is None,
        },
        Setting::SizeDecimals => match vars.size_decimals {
            Some(text) => unsigned_of_text(text@, u32::MAX as int) is None,
            None => unsigned_of_text("2"@, u32::MAX as int) is None,
        },
        Setting::BalanceCacheTtl => limits.balance is None,
        Setting::HedgeSumMax => match vars.hedge_sum_max {
            Some(text) => decimal_of_text(text@) is None,
            None => decimal_of_text("0.98"@) is None,
        },
        Setting::HedgeRetries => match vars.hedge_retries {
            Some(text) => unsigned_of_text(text@, u32::MAX as int) is None,
            None => unsigned_of_text("2"@, u32::MAX as int) is None,
        },
        Setting::HedgeSleepMs => match vars.hedge_sleep_ms {
            Some(text) => unsigned_of_text(text@, u64::MAX as int) is None,
            None => unsigned_of_text("150"@, u64::MAX as int) is None,
        },
        Setting::UnwindRetries => match vars.unwind_retries {
            Some(text) => unsigned_of_text(text@, u32::MAX as int) is None,
            None => unsigned_of_text("3"@, u32::MAX as int) is None,
        },
        Setting::UnwindSleepMs => match vars.unwind_sleep_ms {
            Some(text) => unsigned_of_text(text@, u64::MAX as int) is None,
            None => unsigned_of_text("150"@, u64::MAX as int) is None,
        },
    }
}

/// The settings in the order in which they are read.
pub open spec fn place_of(setting: Setting) -> int {
    match setting {
        Setting::SignatureType => 0,
        Setting::Size => 1,
        Setting::SumMax => 2,
        Setting::StaleSeconds => 3,
        Setting::CooldownSeconds => 4,
        Setting::BankrollFraction => 5,
        Setting::ReserveUsdc => 6,
        Setting::MinLegNotionalUsd => 7,
        Setting::MinTradeNotionalUsd => 8,
        Setting::MaxTradeNotionalUsd => 9,
        Setting::SizeDecimals => 10,
        Setting::BalanceCacheTtl => 11,
        Setting::HedgeSumMax => 12,
        Setting::HedgeRetries => 13,
        Setting::HedgeSleepMs => 14,
        Setting::UnwindRetries => 15,
        Setting::UnwindSleepMs => 16,
    }
}

/// The setting that is named as unreadable is unreadable, and none that is read before it is; if none
/// is named, none is unreadable.
pub proof fn law_first_unreadable(vars: EnvVars, limits: AgeLimits, setting: Setting)
    ensures
        match first_unreadable(vars, limits) {
            Some(first) => is_unreadable(vars, limits, first) && (place_of(setting) < place_of(first)
                ==> !is_unreadable(vars, limits, setting)),
            None => !is_unreadable(vars, limits, setting),
        },
{
}

/// An age is within a limit if and only if there is a longest age and it is no longer than that.
pub proof fn law_age_limit(limit: AgeLimit, age: int)
    ensures
        limit.longest is None ==> !limit.spans(age),
        limit.longest matches Some(longest) ==> (limit.spans(age) <==> age <= longest),
{
}

/// What a variable says counts wherever it is set, and its default only where it is not.
pub proof fn law_defaults(text: String, default: Seq<char>, max: int)
    ensures
        text_or(Some(text), default) == text@,
        text_or(None, default) == default,
        decimal_or(Some(text), default) == decimal_of_text(text@),
        decimal_or(None, default) == decimal_of_text(default),
        unsigned_or(Some(text), default, max) == unsigned_of_text(text@, max),
        unsigned_or(None, default, max) == unsigned_of_text(default, max),
{
}

} // verus!
