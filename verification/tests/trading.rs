use polymarket_arb_bot::book::{
    best_ask_of, best_bid_of, elapsed, good_tob, take_quotes, update_book_from_msg, BookLevel,
    TopOfBook, WsMessage,
};
use polymarket_arb_bot::config::{AgeLimit, AgeLimits, BotConfig, EnvVars};
use polymarket_arb_bot::decimal::Decimal;
use polymarket_arb_bot::market::MarketPair;
use polymarket_arb_bot::order::{plan_batch_fok, Batch, Side};
use polymarket_arb_bot::pairs::PairTable;
use polymarket_arb_bot::sizing::{
    compute_size_from_bankroll, fixed_size, try_compute_size_from_bankroll, Sizing,
};
use polymarket_arb_bot::state::{
    get_available_usdc, BalanceCache, FireDecision, FireOrder, SharedState, HOUR_NANOS,
};
use std::str::FromStr;
use vstd::hash_map::StringHashMap;

const SECOND: u64 = 1_000_000_000;

fn dec(text: &str) -> Decimal {
    let d = rust_decimal::Decimal::from_str(text).unwrap();
    Decimal::new(d.mantissa(), d.scale()).unwrap()
}

fn show(d: Decimal) -> String {
    rust_decimal::Decimal::from_i128_with_scale(d.mantissa(), d.scale()).normalize().to_string()
}

fn config() -> BotConfig {
    let vars = EnvVars {
        clob_host: None,
        wss_url: None,
        gamma_host: None,
        private_key: Some("key".to_string()),
        funder_address: None,
        signature_type: None,
        dry_run: None,
        size: None,
        sum_max: None,
        stale_seconds: None,
        cooldown_seconds: None,
        bankroll_fraction: None,
        reserve_usdc: None,
        min_leg_notional_usd: None,
        min_trade_notional_usd: None,
        max_trade_notional_usd: None,
        size_decimals: None,
        balance_cache_ttl: None,
        hedge_mode: None,
        hedge_sum_max: None,
        hedge_retries: None,
        hedge_sleep_ms: None,
        unwind_retries: None,
        unwind_sleep_ms: None,
        max_daily_loss: None,
        max_inventory: None,
    };
    let limits = AgeLimits {
        stale: Some(AgeLimit { longest: Some(2 * SECOND) }),
        cooldown: Some(AgeLimit { longest: Some(SECOND - 1) }),
        balance: Some(AgeLimit { longest: Some(SECOND) }),
    };
    BotConfig::from_env(&vars, limits).ok().unwrap()
}

fn sized(sizing: Sizing) -> Option<(String, String, String)> {
    match sizing {
        Sizing::Sized(shares, used, total) => Some((show(shares), show(used), show(total))),
        _ => None,
    }
}

fn strings(a: &str, b: &str, c: &str) -> Option<(String, String, String)> {
    Some((a.to_string(), b.to_string(), c.to_string()))
}

#[test]
fn a_balance_gives_a_size() {
    let config = config();
    let size = |available: &str, a: &str, b: &str, book_a: &str, book_b: &str| {
        let (x, y, z) = compute_size_from_bankroll(
            &config,
            dec(available),
            dec(a),
            dec(b),
            dec(book_a),
            dec(book_b),
        )?;
        strings(&show(x), &show(y), &show(z))
    };
    assert_eq!(size("100", "0.45", "0.50", "100", "100"), strings("5", "4.75", "0.95"));
    assert_eq!(size("100", "0.45", "0.50", "100", "3.337"), strings("3.33", "3.1635", "0.95"));
    assert_eq!(size("100", "0.45", "0.50", "4", "100"), strings("4", "3.8", "0.95"));
    assert_eq!(size("12", "0.45", "0.50", "100", "100"), strings("2.63", "2.4985", "0.95"));
}

#[test]
fn a_size_may_be_declined() {
    let config = config();
    let size = |available: &str, a: &str, b: &str, book_a: &str, book_b: &str| {
        compute_size_from_bankroll(&config, dec(available), dec(a), dec(b), dec(book_a), dec(book_b)).is_none()
    };
    assert!(size("100", "0", "0", "100", "100"));
    assert!(size("100", "-0.5", "0.5", "100", "100"));
    assert!(size("2", "0.45", "0.50", "100", "100"));
    assert!(size("1", "0.45", "0.50", "100", "100"));
    assert!(size("9", "0.45", "0.50", "100", "100"));
    assert!(size("100", "0.45", "0.50", "0.004", "100"));
    assert!(size("100", "0.45", "0.50", "2", "100"));
    assert!(!size("100", "0.45", "0.50", "3", "100"));
}

#[test]
fn a_leg_needs_a_least_cost() {
    let mut config = config();
    config.size = dec("1000");
    let sizing = try_compute_size_from_bankroll(
        &config,
        dec("12"),
        dec("0.90"),
        dec("0.05"),
        dec("1000"),
        dec("1000"),
    );
    assert!(matches!(sizing, Sizing::Declined));
    let sizing = try_compute_size_from_bankroll(
        &config,
        dec("22"),
        dec("0.90"),
        dec("0.05"),
        dec("1000"),
        dec("1000"),
    );
    assert_eq!(sized(sizing), strings("20", "19", "0.95"));
}

#[test]
fn a_budget_has_a_cap() {
    let mut config = config();
    config.size = dec("1000");
    let sizing = try_compute_size_from_bankroll(
        &config,
        dec("1002"),
        dec("0.40"),
        dec("0.40"),
        dec("1000"),
        dec("1000"),
    );
    assert_eq!(sized(sizing), strings("62.5", "50", "0.8"));
}

#[test]
fn the_legs_can_be_swapped() {
    let mut config = config();
    config.size = dec("1000");
    for (available, a, b, book_a, book_b) in [
        ("12", "0.45", "0.50", "100", "100"),
        ("22", "0.90", "0.05", "1000", "1000"),
        ("100", "0.4", "0.40", "7.5", "7.50"),
        ("100", "0.3", "0.6", "8", "9"),
        ("100", "0", "0.00", "8", "9"),
    ] {
        let one = try_compute_size_from_bankroll(
            &config,
            dec(available),
            dec(a),
            dec(b),
            dec(book_a),
            dec(book_b),
        );
        let other = try_compute_size_from_bankroll(
            &config,
            dec(available),
            dec(b),
            dec(a),
            dec(book_b),
            dec(book_a),
        );
        assert!(!matches!(one, Sizing::OutOfRange));
        assert_eq!(sized(one), sized(other));
    }
}

#[test]
fn deeper_books_give_no_smaller_size() {
    let mut config = config();
    config.size = dec("1000");
    let size = |book_a: &str, book_b: &str| {
        let sizing = try_compute_size_from_bankroll(
            &config,
            dec("100"),
            dec("0.3"),
            dec("0.6"),
            dec(book_a),
            dec(book_b),
        );
        sized(sizing).map(|(shares, _, _)| shares)
    };
    assert_eq!(size("7.777", "20"), Some("7.77".to_string()));
    assert_eq!(size("9.999", "20"), Some("9.99".to_string()));
    assert_eq!(size("50", "60"), Some("27.22".to_string()));
    assert_eq!(size("500", "60"), Some("27.22".to_string()));
}

#[test]
fn the_budget_is_kept_unless_a_leg_needs_more() {
    let mut config = config();
    config.size = dec("1000");
    let size = |a: &str, b: &str| {
        let sizing = try_compute_size_from_bankroll(
            &config,
            dec("22"),
            dec(a),
            dec(b),
            dec("1000"),
            dec("1000"),
        );
        sized(sizing)
    };
    assert_eq!(size("0.5", "0.4"), strings("5.55", "4.995", "0.9"));
    assert_eq!(size("0.90", "0.05"), strings("20", "19", "0.95"));
}

#[test]
fn the_reserve_is_kept() {
    let mut config = config();
    config.size = dec("1000");
    config.bankroll_fraction = dec("1");
    let sizing =
        try_compute_size_from_bankroll(&config, dec("12"), dec("0.5"), dec("0.4"), dec("99"), dec("99"));
    assert_eq!(sized(sizing), strings("11.11", "9.999", "0.9"));
}

#[test]
fn numbers_out_of_range_are_told() {
    let config = config();
    let huge = "79228162514264337593543950335";
    let sizing =
        try_compute_size_from_bankroll(&config, dec("100"), dec(huge), dec("1"), dec("1"), dec("1"));
    assert!(matches!(sizing, Sizing::OutOfRange));
    let sizing =
        try_compute_size_from_bankroll(&config, dec(huge), dec("0.4"), dec("0.4"), dec("5"), dec("5"));
    assert_eq!(sized(sizing), strings("5", "4", "0.8"));
    let mut config = config;
    config.size_decimals = 20;
    let sizing =
        try_compute_size_from_bankroll(&config, dec("100"), dec("0.4"), dec("0.4"), dec("5"), dec("5"));
    assert!(matches!(sizing, Sizing::OutOfRange));
}

#[test]
fn without_a_balance_the_size_is_fixed() {
    let config = config();
    let size = |a: &str, b: &str, book_a: &str, book_b: &str, total: &str| {
        sized(fixed_size(&config, dec(a), dec(b), dec(book_a), dec(book_b), dec(total)))
    };
    assert_eq!(size("0.45", "0.50", "5", "6", "0.95"), strings("5", "4.75", "0.95"));
    assert_eq!(size("0.19", "0.50", "5", "6", "0.69"), None);
    assert_eq!(size("0.45", "0.19", "5", "6", "0.64"), None);
    assert_eq!(size("0.45", "0.50", "4.99", "6", "0.95"), None);
    assert_eq!(size("0.45", "0.50", "5", "4.99", "0.95"), None);
    let huge = "79228162514264337593543950335";
    assert!(matches!(
        fixed_size(&config, dec(huge), dec("1"), dec("5"), dec("5"), dec("1")),
        Sizing::OutOfRange
    ));
}

fn message(token: Option<&str>) -> WsMessage {
    WsMessage {
        asset_id: token.map(|t| t.to_string()),
        asset_id_alt: None,
        event_type: None,
        msg_type: None,
        bids: None,
        asks: None,
        best_bid: None,
        best_ask: None,
        best_bid_size: None,
        best_ask_size: None,
    }
}

fn levels(list: &[(&str, &str)]) -> Option<Vec<BookLevel>> {
    Some(list.iter().map(|(p, s)| BookLevel { price: p.to_string(), size: s.to_string() }).collect())
}

fn quote(q: Option<(Decimal, Decimal)>) -> Option<(String, String)> {
    q.map(|(p, s)| (show(p), show(s)))
}

fn pair(a: &str, b: &str) -> Option<(String, String)> {
    Some((a.to_string(), b.to_string()))
}

#[test]
fn best_prices_are_taken_into_the_book() {
    let mut book = StringHashMap::new();
    let mut msg = message(Some("t"));
    msg.best_bid = Some("0.40".to_string());
    msg.best_bid_size = Some("10".to_string());
    msg.best_ask = Some("0.42".to_string());
    assert_eq!(update_book_from_msg(&mut book, &msg, 7), Some("t".to_string()));
    let quotes = book.get("t").unwrap();
    assert_eq!(quote(quotes.bid), pair("0.4", "10"));
    assert_eq!(quote(quotes.ask), None);
    assert_eq!(quotes.ts, 7);
    msg.best_bid = None;
    msg.best_ask_size = Some("3".to_string());
    assert_eq!(update_book_from_msg(&mut book, &msg, 9), Some("t".to_string()));
    let quotes = book.get("t").unwrap();
    assert_eq!(quote(quotes.bid), pair("0.4", "10"));
    assert_eq!(quote(quotes.ask), pair("0.42", "3"));
    assert_eq!(quotes.ts, 9);
}

#[test]
fn levels_are_taken_into_the_book() {
    let mut book = StringHashMap::new();
    let mut msg = message(None);
    msg.asset_id_alt = Some("u".to_string());
    msg.bids = levels(&[("0.3", "1"), ("0.45", "2"), ("bad", "9"), ("0.450", "3"), ("0.2", "4")]);
    msg.asks = levels(&[("0.7", "1"), ("0.55", "2"), ("0.550", "3"), ("0.6", "4")]);
    msg.best_bid = Some("0.9".to_string());
    msg.best_bid_size = Some("9".to_string());
    assert_eq!(update_book_from_msg(&mut book, &msg, 1), Some("u".to_string()));
    let quotes = book.get("u").unwrap();
    assert_eq!(quote(quotes.bid), pair("0.45", "3"));
    assert_eq!(quote(quotes.ask), pair("0.55", "2"));
}

#[test]
fn the_best_levels_are_found() {
    let level = |price: &str, size: &str| {
        let read = |text: &str| if text.is_empty() { None } else { Some(dec(text)) };
        (read(price), read(size))
    };
    let list = vec![level("0.3", "1"), level("0.45", "2"), level("0.450", "3"), level("0.3", "4")];
    assert_eq!(quote(best_bid_of(&list)), pair("0.45", "3"));
    assert_eq!(quote(best_ask_of(&list)), pair("0.3", "1"));
    let list = vec![level("", "1"), level("0.2", "2")];
    assert_eq!(quote(best_bid_of(&list)), pair("0.2", "2"));
    assert_eq!(quote(best_ask_of(&list)), None);
    assert_eq!(quote(best_bid_of(&vec![level("0.2", "")])), None);
    assert_eq!(quote(best_bid_of(&vec![])), None);
    assert_eq!(quote(best_ask_of(&vec![])), None);
}

#[test]
fn quotes_are_taken() {
    let bid = Some((dec("0.4"), dec("1")));
    let quotes = take_quotes(None, bid, None, 5);
    assert_eq!((quote(quotes.bid), quote(quotes.ask), quotes.ts), (pair("0.4", "1"), None, 5));
    let later = take_quotes(Some(quotes), None, None, 9);
    assert_eq!((quote(later.bid), later.ts), (pair("0.4", "1"), 5));
    let later = take_quotes(Some(quotes), None, Some((dec("0.6"), dec("2"))), 9);
    assert_eq!((quote(later.bid), quote(later.ask), later.ts), (pair("0.4", "1"), pair("0.6", "2"), 9));
}

#[test]
fn an_unreadable_price_hides_the_asks_but_not_the_bids() {
    let mut book = StringHashMap::new();
    let mut msg = message(Some("t"));
    msg.asks = levels(&[("0.7", "1"), ("oops", "2"), ("0.6", "4")]);
    assert_eq!(update_book_from_msg(&mut book, &msg, 1), None);
    assert_eq!(quote(book.get("t").unwrap().ask), None);
    msg.bids = levels(&[("oops", "2"), ("0.6", "4")]);
    assert_eq!(update_book_from_msg(&mut book, &msg, 2), Some("t".to_string()));
    assert_eq!(quote(book.get("t").unwrap().bid), pair("0.6", "4"));
    msg.bids = levels(&[("0.8", "oops"), ("0.6", "4")]);
    assert_eq!(update_book_from_msg(&mut book, &msg, 3), None);
    assert_eq!(quote(book.get("t").unwrap().bid), pair("0.6", "4"));
    assert_eq!(book.get("t").unwrap().ts, 2);
}

#[test]
fn messages_without_quotes_or_token() {
    let mut book = StringHashMap::new();
    assert_eq!(update_book_from_msg(&mut book, &message(None), 1), None);
    assert!(book.get("t").is_none());
    let mut msg = message(Some("t"));
    msg.bids = levels(&[]);
    assert_eq!(update_book_from_msg(&mut book, &msg, 5), None);
    let quotes = book.get("t").unwrap();
    assert!(quotes.bid.is_none() && quotes.ask.is_none());
    assert_eq!(quotes.ts, 5);
    assert_eq!(update_book_from_msg(&mut book, &msg, 6), None);
    assert_eq!(book.get("t").unwrap().ts, 5);
}

#[test]
fn quotes_go_stale() {
    let limit = AgeLimit { longest: Some(10) };
    let mut quotes: TopOfBook<f64> = TopOfBook::empty(100);
    assert!(!quotes.fresh(limit, 100));
    quotes.ask = Some((0.5, 1.0));
    assert!(quotes.fresh(limit, 100));
    assert!(quotes.fresh(limit, 110));
    assert!(!quotes.fresh(limit, 111));
    assert!(quotes.fresh(limit, 50));
    assert!(good_tob(Some(&quotes), limit, 105));
    assert!(!good_tob(Some(&quotes), AgeLimit { longest: None }, 105));
    assert!(!good_tob::<f64>(None, limit, 105));
    assert_eq!(elapsed(5, 9), 4);
    assert_eq!(elapsed(9, 5), 0);
}

#[test]
fn a_recent_balance_is_kept() {
    let ttl = AgeLimit { longest: Some(10) };
    let mut cache = BalanceCache::new(HOUR_NANOS + 100);
    assert_eq!((cache.available.is_none(), cache.ts), (true, 100));
    assert!(get_available_usdc(&mut cache, None, ttl, 200).is_none());
    assert_eq!(cache.ts, 200);
    let balance = get_available_usdc(&mut cache, Some(dec("7")), ttl, 205);
    assert_eq!(balance.map(show), Some("7".to_string()));
    assert_eq!(cache.ts, 205);
    let balance = get_available_usdc(&mut cache, Some(dec("8")), ttl, 215);
    assert_eq!(balance.map(show), Some("7".to_string()));
    assert_eq!(cache.ts, 205);
    let balance = get_available_usdc(&mut cache, None, ttl, 216);
    assert!(balance.is_none());
    assert_eq!(cache.ts, 216);
}

fn market_pair(symbol: &str, a: &str, b: &str) -> MarketPair {
    MarketPair {
        symbol: symbol.to_string(),
        slug: format!("{symbol}-slug"),
        condition_id: "c".to_string(),
        token_a: a.to_string(),
        token_b: b.to_string(),
    }
}

fn ask(state: &mut SharedState, token: &str, price: &str, size: &str, now: u64) -> Option<String> {
    let mut msg = message(Some(token));
    msg.best_ask = Some(price.to_string());
    msg.best_ask_size = Some(size.to_string());
    state.on_message(&msg, now)
}

fn order(decision: FireDecision) -> FireOrder {
    match decision {
        FireDecision::Fire(order) => order,
        _ => panic!("no order"),
    }
}

fn holds(decision: FireDecision) -> bool {
    matches!(decision, FireDecision::Hold)
}

const START: u64 = HOUR_NANOS;

fn ready() -> SharedState {
    let mut state = SharedState::new(config(), START);
    state.install(PairTable::new().with(market_pair("BTC", "a", "b")).with(market_pair("ETH", "c", "d")));
    assert_eq!(ask(&mut state, "a", "0.45", "10", START), Some("BTC".to_string()));
    assert_eq!(ask(&mut state, "b", "0.50", "10", START), Some("BTC".to_string()));
    state
}

#[test]
fn messages_lead_to_symbols() {
    let mut state = ready();
    assert_eq!(ask(&mut state, "d", "0.5", "1", START), Some("ETH".to_string()));
    assert_eq!(ask(&mut state, "z", "0.5", "1", START), None);
    assert!(state.book.get("z").is_some());
    assert_eq!(state.on_message(&message(Some("a")), START), None);
}

#[test]
fn an_order_is_made_when_all_is_well() {
    let mut state = ready();
    let order = order(state.maybe_fire("BTC", None, START + SECOND));
    assert_eq!(order.pair.token_a, "a");
    assert_eq!(order.pair.token_b, "b");
    assert_eq!(order.pair.slug, "BTC-slug");
    assert_eq!(show(order.ask_a), "0.45");
    assert_eq!(show(order.size_b), "10");
    assert_eq!(show(order.total), "0.95");
    assert_eq!(show(order.shares), "5");
    assert_eq!(show(order.used), "4.75");
    assert!(order.available.is_none());
    assert_eq!(state.in_flight.get("BTC"), Some(&true));
    assert_eq!(state.last_fire.get("BTC"), Some(&(START + SECOND)));
    assert!(state.in_flight.get("ETH").is_none());
}

#[test]
fn an_order_is_sized_by_the_balance() {
    let mut state = ready();
    let order = order(state.maybe_fire("BTC", Some(dec("12")), START));
    assert_eq!(show(order.shares), "2.63");
    assert_eq!(show(order.used), "2.4985");
    assert_eq!(order.available.map(show), Some("12".to_string()));
    assert_eq!(state.balance_cache.ts, START);
    let mut state = ready();
    assert!(holds(state.maybe_fire("BTC", Some(dec("2")), START)));
    assert!(state.in_flight.get("BTC").is_none());
    assert_eq!(state.balance_cache.ts, START);
}

#[test]
fn one_order_at_a_time() {
    let mut state = ready();
    order(state.maybe_fire("BTC", None, START));
    assert!(holds(state.maybe_fire("BTC", None, START + 2 * SECOND)));
    state.finish_fire("BTC");
    assert_eq!(state.in_flight.get("BTC"), Some(&false));
    order(state.maybe_fire("BTC", None, START + 2 * SECOND));
}

#[test]
fn an_order_leaves_other_symbols_free() {
    let mut state = ready();
    ask(&mut state, "c", "0.4", "10", START);
    ask(&mut state, "d", "0.5", "10", START);
    order(state.maybe_fire("BTC", None, START));
    let order = order(state.maybe_fire("ETH", None, START));
    assert_eq!(order.pair.symbol, "ETH");
    assert_eq!(show(order.total), "0.9");
    assert_eq!(state.in_flight.get("BTC"), Some(&true));
}

#[test]
fn orders_cool_down() {
    let mut state = ready();
    order(state.maybe_fire("BTC", None, START));
    state.finish_fire("BTC");
    assert!(holds(state.maybe_fire("BTC", None, START + SECOND - 1)));
    order(state.maybe_fire("BTC", None, START + SECOND));
}

#[test]
fn stale_missing_or_dear_quotes_hold() {
    let mut state = ready();
    assert!(holds(state.maybe_fire("BTC", None, START + 2 * SECOND + 1)));
    assert!(holds(state.maybe_fire("ETH", None, START)));
    assert!(holds(state.maybe_fire("DOGE", None, START)));
    ask(&mut state, "b", "0.53", "10", START);
    assert!(holds(state.maybe_fire("BTC", None, START)));
    assert_eq!(state.balance_cache.ts, START - HOUR_NANOS);
    ask(&mut state, "b", "0.52", "10", START);
    order(state.maybe_fire("BTC", None, START));
}

#[test]
fn prices_out_of_range_are_told() {
    let mut state = ready();
    ask(&mut state, "a", "79228162514264337593543950335", "10", START);
    assert!(matches!(state.maybe_fire("BTC", None, START), FireDecision::OutOfRange));
    assert!(state.in_flight.get("BTC").is_none());
}

#[test]
fn pairs_roll_over() {
    let mut state = ready();
    assert!(state.rollover(PairTable::new()).is_none());
    assert_eq!(state.markets.len(), 2);
    let next = PairTable::new().with(market_pair("BTC", "b", "e")).with(market_pair("ETH", "e", "d"));
    let change = state.rollover(next).unwrap();
    assert_eq!(change.unsubscribe, vec!["a", "c"]);
    assert_eq!(change.subscribe, vec!["e"]);
    assert_eq!(state.markets.symbol_of("a"), None);
    assert_eq!(state.markets.symbol_of("b"), Some("BTC".to_string()));
    assert_eq!(state.markets.symbol_of("e"), Some("ETH".to_string()));
    assert!(state.book.get("a").is_some());
}

#[test]
fn a_table_has_one_pair_for_each_symbol() {
    let table = PairTable::new()
        .with(market_pair("BTC", "a", "b"))
        .with(market_pair("ETH", "c", "d"))
        .with(market_pair("BTC", "e", "f"));
    assert_eq!(table.len(), 2);
    assert_eq!(table.get("BTC").unwrap().token_a, "e");
    assert_eq!(table.at(0).token_b, "f");
    assert_eq!(table.token_ids(), vec!["e", "f", "c", "d"]);
    assert!(table.get("XRP").is_none());
}

#[test]
fn both_legs_are_bought() {
    let mut config = config();
    assert!(matches!(
        plan_batch_fok(&config, "a", "b", dec("0.45"), dec("0.5"), dec("5")),
        Batch::DryRun
    ));
    config.dry_run = false;
    match plan_batch_fok(&config, "a", "b", dec("0.45"), dec("0.5"), dec("5")) {
        Batch::Orders(first, second) => {
            assert_eq!((first.token_id.as_str(), first.side), ("a", Side::Buy));
            assert_eq!((show(first.price), show(first.size)), ("0.45".to_string(), "5".to_string()));
            assert_eq!((second.token_id.as_str(), second.side), ("b", Side::Buy));
            assert_eq!((show(second.price), show(second.size)), ("0.5".to_string(), "5".to_string()));
        }
        Batch::DryRun => panic!("no orders"),
    }
}
