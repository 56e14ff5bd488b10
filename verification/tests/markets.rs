use polymarket_arb_bot::config::Series;
use polymarket_arb_bot::executor::ExecutorPool;
use polymarket_arb_bot::market::{
    default_true, gamma_event_url, pair_of_event, token_ids_in_text, GammaEvent, GammaMarket, MarketPair,
    Rejection, TokenIds,
};
use polymarket_arb_bot::pairs::{only_in, Markets, PairTable};
use polymarket_arb_bot::resolve::{Attempt, Resolver};
use polymarket_arb_bot::slot::{current_15m_start_epoch, market_slug, slot_changed};
use polymarket_arb_bot::ws::{
    market_subscription, market_ws_url, on_feed_frame, on_feed_text, on_frame, on_link,
    token_subscription, FeedStep, Frame, FrameAction, LinkAction, LinkEvent,
};
use std::sync::Arc;

fn event(ids: &[&str], accepting_orders: bool) -> GammaEvent {
    GammaEvent {
        markets: vec![GammaMarket {
            condition_id: "cond".to_string(),
            clob_token_ids: TokenIds::List(ids.iter().map(|id| Some(id.to_string())).collect()),
            accepting_orders,
        }],
    }
}

fn series() -> Vec<Series> {
    vec![
        Series { symbol: "BTC".to_string(), prefix: "btc-".to_string() },
        Series { symbol: "ETH".to_string(), prefix: "eth-".to_string() },
    ]
}

#[test]
fn slots_start_every_fifteen_minutes() {
    assert_eq!(current_15m_start_epoch(0), 0);
    assert_eq!(current_15m_start_epoch(899), 0);
    assert_eq!(current_15m_start_epoch(900), 900);
    assert_eq!(current_15m_start_epoch(1_700_000_000), 1_699_999_200);
    assert_eq!(current_15m_start_epoch(u64::MAX), u64::MAX / 900 * 900);
    assert_eq!(slot_changed(900, 1799), None);
    assert_eq!(slot_changed(900, 1800), Some(1800));
    assert_eq!(slot_changed(900, 10), Some(0));
}

#[test]
fn slugs_end_with_the_start() {
    assert_eq!(market_slug("btc-updown-15m-", 1_699_999_200), "btc-updown-15m-1699999200");
    assert_eq!(market_slug("", 0), "0");
    assert_ne!(market_slug("x", 900), market_slug("x", 1800));
}

#[test]
fn events_have_an_address() {
    assert_eq!(
        gamma_event_url("https://gamma-api.polymarket.com", "btc-1"),
        "https://gamma-api.polymarket.com/events/slug/btc-1"
    );
}

#[test]
fn markets_take_orders_unless_told_otherwise() {
    assert!(default_true());
}

#[test]
fn an_event_gives_a_pair() {
    let pair = pair_of_event("BTC", "btc-900", &event(&["1", "2"], true)).ok().unwrap();
    assert_eq!(pair.symbol, "BTC");
    assert_eq!(pair.slug, "btc-900");
    assert_eq!(pair.condition_id, "cond");
    assert_eq!(pair.token_a, "1");
    assert_eq!(pair.token_b, "2");
}

#[test]
fn an_event_may_be_rejected() {
    let reject = |event: &GammaEvent| pair_of_event("BTC", "btc-900", event).err();
    assert_eq!(reject(&GammaEvent { markets: vec![] }), Some(Rejection::NoMarkets));
    assert_eq!(reject(&event(&["1"], false)), Some(Rejection::NotAccepting));
    assert_eq!(reject(&event(&["1"], true)), Some(Rejection::TokenCount(1)));
    assert_eq!(reject(&event(&[], true)), Some(Rejection::TokenCount(0)));
    assert_eq!(reject(&event(&["1", "2", "3"], true)), Some(Rejection::TokenCount(3)));
}

#[test]
fn a_json_list_goes_before_commas() {
    assert_eq!(token_ids_in_text("a,b", None), vec!["a", "b"]);
    assert_eq!(token_ids_in_text("a,b", Some(vec!["c".to_string()])), vec!["c"]);
}

#[test]
fn the_first_tradable_slot_is_taken() {
    let resolver = Resolver::new(&series(), 900);
    assert_eq!(resolver.next_slug(), Some("btc-900".to_string()));
    assert_eq!(resolver.symbol(), "BTC");
    let (resolver, attempt) = resolver.on_reply(None);
    assert_eq!(attempt, Attempt::Retry(Rejection::Unavailable));
    assert_eq!(resolver.next_slug(), Some("btc-1800".to_string()));
    let (resolver, attempt) = resolver.on_reply(Some(&event(&["1", "2"], true)));
    assert_eq!(attempt, Attempt::Resolved);
    assert_eq!(resolver.next_slug(), Some("eth-900".to_string()));
    assert_eq!(resolver.symbol(), "ETH");
    let (resolver, attempt) = resolver.on_reply(Some(&event(&["3", "4"], false)));
    assert_eq!(attempt, Attempt::Retry(Rejection::NotAccepting));
    let (resolver, attempt) = resolver.on_reply(Some(&GammaEvent { markets: vec![] }));
    assert_eq!(attempt, Attempt::Retry(Rejection::NoMarkets));
    assert_eq!(resolver.next_slug(), Some("eth-2700".to_string()));
    let (resolver, attempt) = resolver.on_reply(Some(&event(&["3"], true)));
    assert_eq!(attempt, Attempt::GaveUp(Rejection::TokenCount(1)));
    assert_eq!(resolver.next_slug(), None);
    let pairs = resolver.into_pairs();
    assert_eq!(pairs.len(), 1);
    assert_eq!(pairs.get("BTC").unwrap().slug, "btc-1800");
    assert!(pairs.get("ETH").is_none());
}

#[test]
fn a_search_without_series_is_over_at_once() {
    let resolver = Resolver::new(&vec![], 0);
    assert_eq!(resolver.next_slug(), None);
    assert_eq!(resolver.into_pairs().len(), 0);
}

fn pair(symbol: &str, a: &str, b: &str) -> MarketPair {
    MarketPair {
        symbol: symbol.to_string(),
        slug: "s".to_string(),
        condition_id: "c".to_string(),
        token_a: a.to_string(),
        token_b: b.to_string(),
    }
}

#[test]
fn tokens_have_symbols() {
    let markets = Markets::new(PairTable::new().with(pair("BTC", "1", "2")).with(pair("ETH", "3", "4")));
    assert_eq!(markets.symbol_of("1"), Some("BTC".to_string()));
    assert_eq!(markets.symbol_of("2"), Some("BTC".to_string()));
    assert_eq!(markets.symbol_of("4"), Some("ETH".to_string()));
    assert_eq!(markets.symbol_of("5"), None);
    assert_eq!(markets.pair("ETH").unwrap().token_a, "3");
    assert_eq!(markets.at(1).symbol, "ETH");
    let subscription = market_subscription(&markets);
    assert_eq!(subscription.assets_ids, vec!["1", "2", "3", "4"]);
    assert_eq!(subscription.kind, "market");
    assert_eq!(subscription.custom_feature_enabled, Some(true));
}

#[test]
fn some_tokens_can_be_asked_for() {
    let subscription = token_subscription(vec!["7".to_string()]);
    assert_eq!(subscription.assets_ids, vec!["7"]);
    assert_eq!(subscription.kind, "market");
    assert_eq!(subscription.custom_feature_enabled, None);
}

#[test]
fn lists_are_compared() {
    let list = |texts: &[&str]| -> Vec<String> { texts.iter().map(|t| t.to_string()).collect() };
    assert_eq!(only_in(&list(&["a", "b", "a", "c"]), &list(&["b"])), vec!["a", "c"]);
    assert!(only_in(&list(&["a"]), &list(&["a"])).is_empty());
    assert!(only_in(&list(&[]), &list(&["a"])).is_empty());
}

#[test]
fn the_feed_has_an_address() {
    let expected = "wss://ws.example.com/ws/market";
    assert_eq!(market_ws_url("wss://ws.example.com"), expected);
    assert_eq!(market_ws_url("wss://ws.example.com/"), expected);
    assert_eq!(market_ws_url("wss://ws.example.com/ws"), expected);
    assert_eq!(market_ws_url("wss://ws.example.com/ws/ws"), expected);
    assert_eq!(market_ws_url("wss://ws.example.com//"), expected);
    assert_eq!(market_ws_url("wss://ws.example.com/ws/"), "wss://ws.example.com/ws/ws/market");
}

#[test]
fn frames_lead_to_actions() {
    assert_eq!(on_frame(&Frame::Text("PONG".to_string())), FrameAction::Skip);
    assert_eq!(on_frame(&Frame::Text("PING".to_string())), FrameAction::Decode);
    assert_eq!(on_frame(&Frame::Text(String::new())), FrameAction::Decode);
    assert_eq!(on_frame(&Frame::Close), FrameAction::Reconnect);
    assert_eq!(on_frame(&Frame::Failure), FrameAction::Reconnect);
    assert_eq!(on_frame(&Frame::Other), FrameAction::Skip);
}

fn delivered(step: FeedStep) -> Option<serde_json::Value> {
    match step {
        FeedStep::Deliver(value) => Some(value),
        _ => None,
    }
}

#[test]
fn every_json_text_of_a_feed_is_handed_on() {
    let value = delivered(on_feed_frame(&Frame::Text("{\"a\": [1, \"x\"]}".to_string()))).unwrap();
    assert_eq!(value["a"][0].as_u64(), Some(1));
    assert_eq!(value["a"][1].as_str(), Some("x"));
    assert!(delivered(on_feed_frame(&Frame::Text("7".to_string()))).is_some());
    assert!(matches!(on_feed_frame(&Frame::Text("PONG".to_string())), FeedStep::Fail));
    assert!(matches!(on_feed_frame(&Frame::Text("{".to_string())), FeedStep::Fail));
    assert!(matches!(on_feed_frame(&Frame::Failure), FeedStep::Fail));
    assert!(matches!(on_feed_frame(&Frame::Close), FeedStep::Skip));
    assert!(matches!(on_feed_frame(&Frame::Other), FeedStep::Skip));
    assert!(matches!(on_feed_text(None), FeedStep::Fail));
    let kept = delivered(on_feed_text(Some(serde_json::Value::Bool(true))));
    assert_eq!(kept, Some(serde_json::Value::Bool(true)));
}

#[test]
fn connections_are_made_again_or_given_up() {
    assert_eq!(on_link(LinkEvent::NotConnected), LinkAction::ReconnectAfter(4));
    assert_eq!(on_link(LinkEvent::Lost), LinkAction::ReconnectAfter(2));
    assert_eq!(on_link(LinkEvent::NotSubscribed), LinkAction::Stop);
}

#[test]
fn each_symbol_has_its_executor() {
    let pool = ExecutorPool::new(&["BTC".to_string(), "ETH".to_string(), "BTC".to_string()]);
    let btc = pool.get("BTC");
    assert!(Arc::ptr_eq(&btc, &pool.get("BTC")));
    assert!(!Arc::ptr_eq(&btc, &pool.get("ETH")));
}
