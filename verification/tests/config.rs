use polymarket_arb_bot::config::{
    funder, signature_kind, AgeLimit, AgeLimits, BotConfig, Config, ConfigError, EnvVars, Setting,
    SignatureKind,
};
use polymarket_arb_bot::decimal::Decimal;
use std::time::Duration;

fn no_vars() -> EnvVars {
    EnvVars {
        clob_host: None,
        wss_url: None,
        gamma_host: None,
        private_key: None,
        funder_address: None,
        signature_type: None,
        dry_run: None,
        size: None,
        sum_max: None,
        stale_seconds: None,
        cooldown_seconds: None,
        bankroll_fraction: None,
        reserve_usdc: None,
        min_leg_notional_usd: None,
        min_trade_notional_usd: None,
        max_trade_notional_usd: None,
        size_decimals: None,
        balance_cache_ttl: None,
        hedge_mode: None,
        hedge_sum_max: None,
        hedge_retries: None,
        hedge_sleep_ms: None,
        unwind_retries: None,
        unwind_sleep_ms: None,
        max_daily_loss: None,
        max_inventory: None,
    }
}

fn with_key() -> EnvVars {
    let mut vars = no_vars();
    vars.private_key = Some("0xkey".to_string());
    vars
}

fn limits() -> AgeLimits {
    AgeLimits {
        stale: Some(AgeLimit { longest: Some(2_000_000_000) }),
        cooldown: Some(AgeLimit { longest: Some(999_999_999) }),
        balance: Some(AgeLimit { longest: None }),
    }
}

fn parts(d: Decimal) -> (i128, u32) {
    (d.mantissa(), d.scale())
}

fn text(s: &str) -> Option<String> {
    Some(s.to_string())
}

#[test]
fn settings_have_defaults() {
    let config = BotConfig::from_env(&with_key(), limits()).ok().unwrap();
    assert_eq!(config.clob_host, "https://clob.polymarket.com");
    assert_eq!(config.wss_url, "wss://ws-subscriptions-clob.polymarket.com");
    assert_eq!(config.gamma_host, "https://gamma-api.polymarket.com");
    assert_eq!(config.private_key, "0xkey");
    assert_eq!(config.funder_address, None);
    assert_eq!(config.signature_type, 1);
    assert!(config.dry_run);
    assert_eq!(parts(config.size), (5, 0));
    assert_eq!(parts(config.sum_max), (97, 2));
    assert_eq!(config.stale, AgeLimit { longest: Some(2_000_000_000) });
    assert_eq!(config.cooldown, AgeLimit { longest: Some(999_999_999) });
    assert_eq!(parts(config.bankroll_fraction), (25, 2));
    assert_eq!(parts(config.reserve_usdc), (20, 1));
    assert_eq!(parts(config.min_leg_notional_usd), (10, 1));
    assert_eq!(parts(config.min_trade_notional_usd), (20, 1));
    assert_eq!(parts(config.max_trade_notional_usd), (500, 1));
    assert_eq!(config.size_decimals, 2);
    assert_eq!(config.balance_cache, AgeLimit { longest: None });
    assert_eq!(config.hedge_mode, "refill_then_unwind");
    assert_eq!(parts(config.hedge_sum_max), (98, 2));
    assert_eq!(config.hedge_retries, 2);
    assert_eq!(config.hedge_sleep_ms, 150);
    assert_eq!(config.unwind_retries, 3);
    assert_eq!(config.unwind_sleep_ms, 150);
    let series: Vec<(&str, &str)> =
        config.prefixes.iter().map(|s| (s.symbol.as_str(), s.prefix.as_str())).collect();
    assert_eq!(
        series,
        vec![
            ("BTC", "btc-updown-15m-"),
            ("ETH", "eth-updown-15m-"),
            ("SOL", "sol-updown-15m-"),
            ("XRP", "xrp-updown-15m-"),
        ]
    );
}

#[test]
fn settings_are_read() {
    let mut vars = with_key();
    vars.dry_run = text("False");
    vars.hedge_mode = text("UNWIND");
    vars.size = text("12.50");
    vars.signature_type = text("2");
    vars.size_decimals = text("+3");
    vars.clob_host = text("http://localhost");
    let config = BotConfig::from_env(&vars, limits()).ok().unwrap();
    assert!(!config.dry_run);
    assert_eq!(config.hedge_mode, "unwind");
    assert_eq!(parts(config.size), (1250, 2));
    assert_eq!(config.signature_type, 2);
    assert_eq!(config.size_decimals, 3);
    assert_eq!(config.clob_host, "http://localhost");
    vars.dry_run = text("TRUE");
    assert!(BotConfig::from_env(&vars, limits()).ok().unwrap().dry_run);
    vars.dry_run = text("yes");
    assert!(!BotConfig::from_env(&vars, limits()).ok().unwrap().dry_run);
}

#[test]
fn funder_addresses_are_hexadecimal() {
    let mut vars = with_key();
    let bytes: [u8; 20] = [
        0x01, 0x23, 0x45, 0x67, 0x89, 0xab, 0xcd, 0xef, 0x01, 0x23, 0x45, 0x67, 0x89, 0xab, 0xcd, 0xef, 0xff,
        0x00, 0x10, 0x0a,
    ];
    for good in [
        "0x0123456789abcdef0123456789abcdefff00100a",
        "0123456789ABCDEF0123456789abcdefff00100A",
        "0X0123456789abcdef0123456789abcdefff00100a",
    ] {
        vars.funder_address = text(good);
        assert_eq!(BotConfig::from_env(&vars, limits()).ok().unwrap().funder_address, Some(bytes), "{good}");
    }
    for bad in [
        "",
        "0x",
        "0x0123456789abcdef0123456789abcdefff00100",
        "0x0123456789abcdef0123456789abcdefff00100a0b",
        "0x0123456789abcdef0123456789abcdefff00100g",
        "0x0x0123456789abcdef0123456789abcdefff0010",
        " 0x0123456789abcdef0123456789abcdefff00100a",
    ] {
        vars.funder_address = text(bad);
        assert_eq!(BotConfig::from_env(&vars, limits()).ok().unwrap().funder_address, None, "{bad}");
    }
}

#[test]
fn a_private_key_is_required() {
    let mut vars = no_vars();
    vars.size = text("x");
    assert_eq!(BotConfig::from_env(&vars, limits()).err(), Some(ConfigError::PrivateKeyRequired));
}

#[test]
fn the_first_unreadable_setting_is_named() {
    fn error(change: fn(&mut EnvVars, &mut AgeLimits)) -> Option<ConfigError> {
        let mut vars = with_key();
        let mut ages = limits();
        change(&mut vars, &mut ages);
        BotConfig::from_env(&vars, ages).err()
    }
    let cases: Vec<(fn(&mut EnvVars, &mut AgeLimits), Setting)> = vec![
        (|v, _| v.signature_type = text("256"), Setting::SignatureType),
        (|v, _| v.size = text("five"), Setting::Size),
        (|v, _| v.sum_max = text(""), Setting::SumMax),
        (|_, a| a.stale = None, Setting::StaleSeconds),
        (|_, a| a.cooldown = None, Setting::CooldownSeconds),
        (|v, _| v.bankroll_fraction = text("1..2"), Setting::BankrollFraction),
        (|v, _| v.reserve_usdc = text("-"), Setting::ReserveUsdc),
        (|v, _| v.min_leg_notional_usd = text("one"), Setting::MinLegNotionalUsd),
        (|v, _| v.min_trade_notional_usd = text("two"), Setting::MinTradeNotionalUsd),
        (|v, _| v.max_trade_notional_usd = text("$50"), Setting::MaxTradeNotionalUsd),
        (|v, _| v.size_decimals = text("-1"), Setting::SizeDecimals),
        (|_, a| a.balance = None, Setting::BalanceCacheTtl),
        (|v, _| v.hedge_sum_max = text("none"), Setting::HedgeSumMax),
        (|v, _| v.hedge_retries = text("4294967296"), Setting::HedgeRetries),
        (|v, _| v.hedge_sleep_ms = text("1.5"), Setting::HedgeSleepMs),
        (|v, _| v.unwind_retries = text("many"), Setting::UnwindRetries),
        (|v, _| v.unwind_sleep_ms = text("18446744073709551616"), Setting::UnwindSleepMs),
    ];
    for (change, setting) in cases {
        assert_eq!(error(change), Some(ConfigError::Unreadable(setting)));
    }
    let first = error(|v, a| {
        v.unwind_retries = text("x");
        a.stale = None;
        v.bankroll_fraction = text("x");
    });
    assert_eq!(first, Some(ConfigError::Unreadable(Setting::StaleSeconds)));
}

#[test]
fn seconds_have_default_texts() {
    let mut vars = with_key();
    vars.cooldown_seconds = text("0.5");
    let seconds = vars.seconds_texts();
    assert_eq!(seconds.stale_seconds, "2.0");
    assert_eq!(seconds.cooldown_seconds, "0.5");
    assert_eq!(seconds.balance_cache_ttl, "1.0");
}

#[test]
fn age_limits_hold_the_accepted_ages() {
    let at_most = |limit: f64| {
        AgeLimit::of(move |nanos| Duration::from_nanos(nanos).as_secs_f64() <= limit)
    };
    let below = |limit: f64| {
        AgeLimit::of(move |nanos| Duration::from_nanos(nanos).as_secs_f64() < limit)
    };
    assert_eq!(at_most(2.0), AgeLimit { longest: Some(2_000_000_000) });
    assert_eq!(below(1.0), AgeLimit { longest: Some(999_999_999) });
    assert_eq!(at_most(0.0), AgeLimit { longest: Some(0) });
    assert_eq!(below(0.0), AgeLimit { longest: None });
    assert_eq!(at_most(-1.0), AgeLimit { longest: None });
    assert_eq!(at_most(f64::NAN), AgeLimit { longest: None });
    assert_eq!(at_most(f64::INFINITY), AgeLimit { longest: Some(u64::MAX) });
    let limit = at_most(0.1);
    assert!(limit.covers(100_000_000));
    assert!(!limit.covers(100_000_001));
    assert!(!AgeLimit { longest: None }.covers(0));
}

#[test]
fn signature_types_have_kinds() {
    assert_eq!(signature_kind(0), SignatureKind::Eoa);
    assert_eq!(signature_kind(1), SignatureKind::Proxy);
    assert_eq!(signature_kind(2), SignatureKind::GnosisSafe);
    assert_eq!(signature_kind(3), SignatureKind::Eoa);
    assert_eq!(signature_kind(255), SignatureKind::Eoa);
}

#[test]
fn only_proxy_wallets_have_a_funder() {
    let mut vars = with_key();
    vars.funder_address = text("0x00000000000000000000000000000000000000ff");
    let mut address = [0u8; 20];
    address[19] = 0xff;
    for (kind, expected) in [("0", None), ("1", Some(address)), ("2", Some(address)), ("3", None)] {
        vars.signature_type = text(kind);
        let config = BotConfig::from_env(&vars, limits()).unwrap_or_else(|_| panic!("no settings"));
        assert_eq!(config.funder_address, Some(address));
        assert_eq!(funder(&config), expected);
    }
}

#[test]
fn the_smaller_settings_are_loaded() {
    let config = Config::load(&with_key());
    assert_eq!(config.clob_host, "https://clob.polymarket.com");
    assert_eq!(config.wss_url, "wss://ws-subscriptions-clob.polymarket.com/ws/market");
    assert_eq!(config.gamma_host, "https://gamma-api.polymarket.com");
    assert_eq!(config.private_key, "0xkey");
    assert_eq!(config.funder, None);
    assert_eq!(config.signature_type, 1);
    assert!(config.dry_run);
    assert_eq!(config.sum_max, "0.97");
    assert_eq!(config.size_cap, "5");
    assert_eq!(config.bankroll_fraction, "0.25");
    assert_eq!(config.reserve_usdc, "2.0");
    assert_eq!(config.max_daily_loss, "25");
    assert_eq!(config.max_inventory_per_token, "50");
    let mut vars = with_key();
    vars.funder_address = text("");
    vars.signature_type = text("x");
    vars.dry_run = text("True");
    vars.max_daily_loss = text("10");
    let config = Config::load(&vars);
    assert_eq!(config.funder, text(""));
    assert_eq!(config.signature_type, 1);
    assert!(!config.dry_run);
    assert_eq!(config.max_daily_loss, "10");
    vars.signature_type = text("200");
    assert_eq!(Config::load(&vars).signature_type, 200);
}
