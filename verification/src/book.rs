//! The best quotes of each token's order book.

use vstd::prelude::*;
use vstd::hash_map::StringHashMap;
use crate::config::AgeLimit;
use crate::decimal::{decimal_of_text, is_read_plainly, Decimal};

verus! {

/// The best bid and the best ask of a token, each with its size, and when they were last updated,
/// in nanoseconds.
#[derive(Clone, Copy)]
pub struct TopOfBook<N> {
    pub bid: Option<(N, N)>,
    pub ask: Option<(N, N)>,
    pub ts: u64,
}

/// The age at `now` of what happened at `ts`; nothing is younger than zero.
pub open spec fn age(ts: u64, now: u64) -> int {
    if now >= ts {
        now - ts
    } else {
        0
    }
}

/// The age at `now` of what happened at `ts`.
pub fn elapsed(ts: u64, now: u64) -> (result: u64)
    ensures
        result == age(ts, now),
{
    if now >= ts {
        now - ts
    } else {
        0
    }
}

impl<N> TopOfBook<N> {
    /// Whether there is an ask, and the quotes are no older than a limit.
    pub open spec fn is_fresh(self, max_age: AgeLimit, now: u64) -> bool {
        self.ask is Some && max_age.spans(age(self.ts, now))
    }

    /// Quotes of a token of which nothing is known yet.
    pub fn empty(now: u64) -> (result: TopOfBook<N>)
        ensures
            result == (TopOfBook::<N> { bid: None, ask: None, ts: now }),
    {
        TopOfBook { bid: None, ask: None, ts: now }
    }

    /// Whether there is an ask, and the quotes are no older than a limit.
    pub fn fresh(&self, max_age: AgeLimit, now: u64) -> (result: bool)
        ensures
            result == self.is_fresh(max_age, now),
    {
        self.ask.is_some() && max_age.covers(elapsed(self.ts, now))
    }
}

/// Whether quotes can be traded on: they are there, with an ask, and are not stale.
pub open spec fn is_good<N>(tob: Option<TopOfBook<N>>, stale: AgeLimit, now: u64) -> bool {
    tob matches Some(quotes) && quotes.is_fresh(stale, now)
}

/// Whether quotes can be traded on.
pub fn good_tob<N>(tob: Option<&TopOfBook<N>>, stale: AgeLimit, now: u64) -> (result: bool)
    ensures
        result == is_good(
            match tob {
                Some(quotes) => Some(*quotes),
                None => None,
            },
            stale,
            now,
        ),
{
    match tob {
        Some(quotes) => quotes.fresh(stale, now),
        None => false,
    }
}

/// A price level of an order book, as text.
pub struct BookLevel {
    pub price: String,
    pub size: String,
}

/// A message of the market data feed. Which of the fields are there depends on its kind.
pub struct WsMessage {
    pub asset_id: Option<String>,
    pub asset_id_alt: Option<String>,
    pub event_type: Option<String>,
    pub msg_type: Option<String>,
    pub bids: Option<Vec<BookLevel>>,
    pub asks: Option<Vec<BookLevel>>,
    pub best_bid: Option<String>,
    pub best_ask: Option<String>,
    pub best_bid_size: Option<String>,
    pub best_ask_size: Option<String>,
}

/// Price and size.
pub type Quote = (Decimal, Decimal);

/// A price level as it was read: price and size, each `None` if it is no decimal.
pub type Level = (Option<Decimal>, Option<Decimal>);

/// What two texts hold, read as price and size.
pub open spec fn level_of_texts(price: Seq<char>, size: Seq<char>) -> Level {
    (decimal_of_text(price), decimal_of_text(size))
}

/// The quote of a level, if price and size are decimals.
pub open spec fn level_quote(level: Level) -> Option<Quote> {
    match level {
        (Some(price), Some(size)) => Some((price, size)),
        _ => None,
    }
}

/// The quote of a best price and its size, if both are there and are decimals.
pub open spec fn best_quote(price: Option<String>, size: Option<String>) -> Option<Quote> {
    match (price, size) {
        (Some(price), Some(size)) => level_quote(level_of_texts(price@, size@)),
        _ => None,
    }
}

/// The levels of an order book, read.
pub open spec fn levels_of(levels: Seq<BookLevel>) -> Seq<Level> {
    levels.map_values(|level: BookLevel| level_of_texts(level.price@, level.size@))
}

/// The order of level prices. A price that is no decimal is below all that are.
pub open spec fn price_le(a: Option<Decimal>, b: Option<Decimal>) -> bool {
    match (a, b) {
        (None, _) => true,
        (Some(_), None) => false,
        (Some(x), Some(y)) => x.units() <= y.units(),
    }
}

/// Whether level `i` has the highest price, and is the last that has it.
pub open spec fn is_best_bid(levels: Seq<Level>, i: int) -> bool {
    &&& 0 <= i < levels.len()
    &&& forall|j: int| 0 <= j < levels.len() ==> price_le((#[trigger] levels[j]).0, levels[i].0)
    &&& forall|j: int| i < j < levels.len() ==> !price_le(levels[i].0, (#[trigger] levels[j]).0)
}

/// Whether level `i` has the lowest price, and is the first that has it.
pub open spec fn is_best_ask(levels: Seq<Level>, i: int) -> bool {
    &&& 0 <= i < levels.len()
    &&& forall|j: int| 0 <= j < levels.len() ==> price_le(levels[i].0, (#[trigger] levels[j]).0)
    &&& forall|j: int| 0 <= j < i ==> !price_le((#[trigger] levels[j]).0, levels[i].0)
}

/// The quote of the best bid among some levels.
pub open spec fn bid_of(levels: Seq<Level>) -> Option<Quote> {
    if levels.len() == 0 {
        None
    } else {
        level_quote(levels[choose|i: int| is_best_bid(levels, i)])
    }
}

/// The quote of the best ask among some levels.
pub open spec fn ask_of(levels: Seq<Level>) -> Option<Quote> {
    if levels.len() == 0 {
        None
    } else {
        level_quote(levels[choose|i: int| is_best_ask(levels, i)])
    }
}

/// The quote of the best bid among the levels of a message, if it has any.
pub open spec fn best_bid_quote(levels: Option<Vec<BookLevel>>) -> Option<Quote> {
    match levels {
        Some(levels) => bid_of(levels_of(levels@)),
        None => None,
    }
}

/// The quote of the best ask among the levels of a message, if it has any.
pub open spec fn best_ask_quote(levels: Option<Vec<BookLevel>>) -> Option<Quote> {
    match levels {
        Some(levels) => ask_of(levels_of(levels@)),
        None => None,
    }
}

/// The later of two quotes that is there.
pub open spec fn later(first: Option<Quote>, second: Option<Quote>) -> Option<Quote> {
    if second is Some {
        second
    } else {
        first
    }
}

/// The token that a message is about.
pub open spec fn message_token(msg: WsMessage) -> Option<Seq<char>> {
    match (msg.asset_id, msg.asset_id_alt) {
        (Some(token), _) => Some(token@),
        (None, Some(token)) => Some(token@),
        (None, None) => None,
    }
}

/// The bid that a message brings. Levels go before the best price.
pub open spec fn message_bid(msg: WsMessage) -> Option<Quote> {
    later(best_quote(msg.best_bid, msg.best_bid_size), best_bid_quote(msg.bids))
}

/// The ask that a message brings. Levels go before the best price.
pub open spec fn message_ask(msg: WsMessage) -> Option<Quote> {
    later(best_quote(msg.best_ask, msg.best_ask_size), best_ask_quote(msg.asks))
}

/// Whether a message brings a quote.
pub open spec fn brings_quote(msg: WsMessage) -> bool {
    message_bid(msg) is Some || message_ask(msg) is Some
}

/// The quotes of a token with a new bid and a new ask, as far as there are any.
pub open spec fn quotes_with(
    before: Option<TopOfBook<Decimal>>,
    bid: Option<Quote>,
    ask: Option<Quote>,
    now: u64,
) -> TopOfBook<Decimal> {
    let start = match before {
        Some(quotes) => quotes,
        None => TopOfBook { bid: None, ask: None, ts: now },
    };
    TopOfBook {
        bid: later(start.bid, bid),
        ask: later(start.ask, ask),
        ts: if bid is Some || ask is Some {
            now
        } else {
            start.ts
        },
    }
}

/// The quotes of a token after a message about it.
pub open spec fn quotes_after(
    before: Option<TopOfBook<Decimal>>,
    msg: WsMessage,
    now: u64,
) -> TopOfBook<Decimal> {
    quotes_with(before, message_bid(msg), message_ask(msg), now)
}

/// The value of a map at a key.
pub open spec fn lookup<V>(map: Map<Seq<char>, V>, key: Seq<char>) -> Option<V> {
    if map.contains_key(key) {
        Some(map[key])
    } else {
        None
    }
}

/// The book after a message.
pub open spec fn book_after(
    book: Map<Seq<char>, TopOfBook<Decimal>>,
    msg: WsMessage,
    now: u64,
) -> Map<Seq<char>, TopOfBook<Decimal>> {
    match message_token(msg) {
        Some(token) => book.insert(token, quotes_after(lookup(book, token), msg, now)),
        None => book,
    }
}

/// Whether price and size, if both are there, are read as what they stand for, as far as they are
/// plain numerals.
pub open spec fn best_is_read_plainly(price: Option<String>, size: Option<String>) -> bool {
    match (price, size) {
        (Some(price), Some(size)) => is_read_plainly(price@) && is_read_plainly(size@),
        _ => true,
    }
}

/// Whether the prices and sizes of levels are read as what they stand for, as far as they are plain
/// numerals.
pub open spec fn levels_are_read_plainly(levels: Option<Vec<BookLevel>>) -> bool {
    levels matches Some(list) ==> forall|i: int|
        0 <= i < list@.len() ==> is_read_plainly((#[trigger] list@[i]).price@) && is_read_plainly(
            list@[i].size@,
        )
}

/// Whether the numbers of a message are read as what they stand for, as far as they are plain
/// numerals.
pub open spec fn message_is_read_plainly(msg: WsMessage) -> bool {
    &&& best_is_read_plainly(msg.best_bid, msg.best_bid_size)
    &&& best_is_read_plainly(msg.best_ask, msg.best_ask_size)
    &&& levels_are_read_plainly(msg.bids)
    &&& levels_are_read_plainly(msg.asks)
}

/// Reads price and size.
fn read_level(price: &String, size: &String) -> (result: Level)
    ensures
        result == level_of_texts(price@, size@),
        is_read_plainly(price@),
        is_read_plainly(size@),
{
    (Decimal::parse(price.as_str()), Decimal::parse(size.as_str()))
}

/// The quote of a level.
fn quote_of_level(level: Level) -> (result: Option<Quote>)
    ensures
        result == level_quote(level),
{
    match level {
        (Some(price), Some(size)) => Some((price, size)),
        _ => None,
    }
}

/// Reads the levels of an order book.
fn read_levels(levels: &Vec<BookLevel>) -> (result: Vec<Level>)
    ensures
        result@ == levels_of(levels@),
        levels_are_read_plainly(Some(*levels)),
{
    let mut result: Vec<Level> = Vec::new();
    let mut i: usize = 0;
    while i < levels.len()
        invariant
            i <= levels@.len(),
            result@ == levels_of(levels@.take(i as int)),
            forall|j: int|
                0 <= j < i ==> is_read_plainly((#[trigger] levels@[j]).price@) && is_read_plainly(
                    levels@[j].size@,
                ),
        decreases levels@.len() - i,
    {
        let level = read_level(&levels[i].price, &levels[i].size);
        proof {
            assert(levels_of(levels@.take(i + 1)) == levels_of(levels@.take(i as int)).push(level));
        }
        result.push(level);
        i = i + 1;
    }
    proof {
        assert(levels@.take(i as int) == levels@);
    }
    result
}

/// Compares two level prices.
fn is_price_le(a: &Option<Decimal>, b: &Option<Decimal>) -> (result: bool)
    ensures
        result == price_le(*a, *b),
{
    match (a, b) {
        (None, _) => true,
        (Some(_), None) => false,
        (Some(x), Some(y)) => !y.less_than(*x),
    }
}

/// The quote of the level with the highest price, the last of them if there are several. A price
/// that is no decimal is the lowest.
pub fn best_bid_of(levels: &Vec<Level>) -> (result: Option<Quote>)
    ensures
        result == bid_of(levels@),
{
    if levels.len() == 0 {
        return None;
    }
    let mut best: usize = 0;
    let mut i: usize = 1;
    while i < levels.len()
        invariant
            0 <= best < i <= levels@.len(),
            forall|j: int| 0 <= j < i ==> price_le((#[trigger] levels@[j]).0, levels@[best as int].0),
            forall|j: int|
                best < j < i ==> !price_le(levels@[best as int].0, (#[trigger] levels@[j]).0),
        decreases levels@.len() - i,
    {
        if is_price_le(&levels[best].0, &levels[i].0) {
            best = i;
        }
        i = i + 1;
    }
    proof {
        law_bid_of_levels(levels@, best as int);
    }
    quote_of_level(levels[best])
}

/// The quote of the level with the lowest price, the first of them if there are several. A price
/// that is no decimal is the lowest.
pub fn best_ask_of(levels: &Vec<Level>) -> (result: Option<Quote>)
    ensures
        result == ask_of(levels@),
{
    if levels.len() == 0 {
        return None;
    }
    let mut best: usize = 0;
    let mut i: usize = 1;
    while i < levels.len()
        invariant
            0 <= best < i <= levels@.len(),
            forall|j: int| 0 <= j < i ==> price_le(levels@[best as int].0, (#[trigger] levels@[j]).0),
            forall|j: int|
                0 <= j < best ==> !price_le((#[trigger] levels@[j]).0, levels@[best as int].0),
        decreases levels@.len() - i,
    {
        if !is_price_le(&levels[best].0, &levels[i].0) {
            best = i;
        }
        i = i + 1;
    }
    proof {
        law_ask_of_levels(levels@, best as int);
    }
    quote_of_level(levels[best])
}

/// The later of two quotes that is there.
fn later_quote(first: Option<Quote>, second: Option<Quote>) -> (result: Option<Quote>)
    ensures
        result == later(first, second),
{
    if second.is_some() {
        second
    } else {
        first
    }
}

/// The quotes of a token with a new bid and a new ask, as far as there are any.
pub fn take_quotes(
    before: Option<TopOfBook<Decimal>>,
    bid: Option<Quote>,
    ask: Option<Quote>,
    now: u64,
) -> (result: TopOfBook<Decimal>)
    ensures
        result == quotes_with(before, bid, ask, now),
{
    let start = match before {
        Some(quotes) => quotes,
        None => TopOfBook::empty(now),
    };
    TopOfBook {
        bid: later_quote(start.bid, bid),
        ask: later_quote(start.ask, ask),
        ts: if bid.is_some() || ask.is_some() {
            now
        } else {
            start.ts
        },
    }
}

/// The quote of a best price and its size.
fn read_best_quote(price: &Option<String>, size: &Option<String>) -> (result: Option<Quote>)
    ensures
        result == best_quote(*price, *size),
        best_is_read_plainly(*price, *size),
{
    match (price, size) {
        (Some(price), Some(size)) => quote_of_level(read_level(price, size)),
        _ => None,
    }
}

/// The bid that a message brings.
fn read_bid(msg: &WsMessage) -> (result: Option<Quote>)
    ensures
        result == message_bid(*msg),
        best_is_read_plainly(msg.best_bid, msg.best_bid_size),
        levels_are_read_plainly(msg.bids),
{
    let of_levels = match &msg.bids {
        Some(levels) => best_bid_of(&read_levels(levels)),
        None => None,
    };
    later_quote(read_best_quote(&msg.best_bid, &msg.best_bid_size), of_levels)
}

/// The ask that a message brings.
fn read_ask(msg: &WsMessage) -> (result: Option<Quote>)
    ensures
        result == message_ask(*msg),
        best_is_read_plainly(msg.best_ask, msg.best_ask_size),
        levels_are_read_plainly(msg.asks),
{
    let of_levels = match &msg.asks {
        Some(levels) => best_ask_of(&read_levels(levels)),
        None => None,
    };
    later_quote(read_best_quote(&msg.best_ask, &msg.best_ask_size), of_levels)
}

/// Takes the quotes of a message into the book. Returns the token if the message brought a quote.
pub fn update_book_from_msg(
    book: &mut StringHashMap<TopOfBook<Decimal>>,
    msg: &WsMessage,
    now: u64,
) -> (result: Option<String>)
    ensures
        final(book)@ == book_after(old(book)@, *msg, now),
        match result {
            Some(token) => message_token(*msg) == Some(token@) && brings_quote(*msg),
            None => message_token(*msg) is None || !brings_quote(*msg),
        },
        message_token(*msg) is Some ==> message_is_read_plainly(*msg),
{
    let token = match &msg.asset_id {
        Some(token) => token.clone(),
        None => match &msg.asset_id_alt {
            Some(token) => token.clone(),
            None => return None,
        },
    };
    let before = match book.get(token.as_str()) {
        Some(quotes) => Some(*quotes),
        None => None,
    };
    let bid = read_bid(msg);
    let ask = read_ask(msg);
    book.insert(token.clone(), take_quotes(before, bid, ask, now));
    if bid.is_some() || ask.is_some() {
        Some(token)
    } else {
        None
    }
}

/// The bid of some levels is the quote of the last level with the highest price.
pub proof fn law_bid_of_levels(levels: Seq<Level>, i: int)
    requires
        is_best_bid(levels, i),
    ensures
        bid_of(levels) == level_quote(levels[i]),
{
    let chosen = choose|k: int| is_best_bid(levels, k);
    assert(levels[chosen] == levels[i]);
}

/// The ask of some levels is the quote of the first level with the lowest price.
pub proof fn law_ask_of_levels(levels: Seq<Level>, i: int)
    requires
        is_best_ask(levels, i),
    ensures
        ask_of(levels) == level_quote(levels[i]),
{
    let chosen = choose|k: int| is_best_ask(levels, k);
    assert(levels[chosen] == levels[i]);
}

/// Among some levels there is a best bid.
proof fn lemma_best_bid_exists(levels: Seq<Level>)
    requires
        levels.len() > 0,
    ensures
        exists|i: int| is_best_bid(levels, i),
    decreases levels.len(),
{
    let last = levels.len() - 1;
    let before = levels.drop_last();
    if before.len() == 0 {
        assert(is_best_bid(levels, 0));
    } else {
        lemma_best_bid_exists(before);
        let i = choose|i: int| is_best_bid(before, i);
        assert forall|j: int| 0 <= j < last implies price_le((#[trigger] levels[j]).0, levels[i].0)
            && (i < j ==> !price_le(levels[i].0, levels[j].0)) by {
            assert(before[j] == levels[j]);
        }
        if price_le(levels[i].0, levels[last].0) {
            assert(is_best_bid(levels, last));
        } else {
            assert(is_best_bid(levels, i));
        }
    }
}

/// Among some levels there is a best ask.
proof fn lemma_best_ask_exists(levels: Seq<Level>)
    requires
        levels.len() > 0,
    ensures
        exists|i: int| is_best_ask(levels, i),
    decreases levels.len(),
{
    let last = levels.len() - 1;
    let before = levels.drop_last();
    if before.len() == 0 {
        assert(is_best_ask(levels, 0));
    } else {
        lemma_best_ask_exists(before);
        let i = choose|i: int| is_best_ask(before, i);
        assert forall|j: int| 0 <= j < last implies price_le(levels[i].0, (#[trigger] levels[j]).0)
            && (j < i ==> !price_le(levels[j].0, levels[i].0)) by {
            assert(before[j] == levels[j]);
        }
        if price_le(levels[i].0, levels[last].0) {
            assert(is_best_ask(levels, i));
        } else {
            assert(is_best_ask(levels, last));
        }
    }
}

/// The bid of some levels is at least every price in them.
pub proof fn law_best_bid(levels: Seq<Level>, i: int)
    requires
        0 <= i < levels.len(),
        bid_of(levels) is Some,
    ensures
        levels[i].0 matches Some(price) ==> bid_of(levels) matches Some(bid) && price.units()
            <= bid.0.units(),
{
    lemma_best_bid_exists(levels);
    let best = choose|i: int| is_best_bid(levels, i);
    assert(price_le(levels[i].0, levels[best].0));
}

/// The ask of some levels is at most every price in them, and there is none unless every price is
/// a decimal.
pub proof fn law_best_ask(levels: Seq<Level>, i: int)
    requires
        0 <= i < levels.len(),
        ask_of(levels) is Some,
    ensures
        levels[i].0 matches Some(price) && ask_of(levels) matches Some(ask) && ask.0.units()
            <= price.units(),
{
    lemma_best_ask_exists(levels);
    let best = choose|i: int| is_best_ask(levels, i);
    assert(price_le(levels[best].0, levels[i].0));
}

/// A message changes the quotes of its own token only, takes no quote away, and without a quote
/// changes none that were there.
pub proof fn law_message(
    book: Map<Seq<char>, TopOfBook<Decimal>>,
    msg: WsMessage,
    now: u64,
    token: Seq<char>,
)
    requires
        book.contains_key(token),
    ensures
        book_after(book, msg, now).contains_key(token),
        message_token(msg) != Some(token) || !brings_quote(msg) ==> book_after(book, msg, now)[token]
            == book[token],
        book[token].bid is Some ==> book_after(book, msg, now)[token].bid is Some,
        book[token].ask is Some ==> book_after(book, msg, now)[token].ask is Some,
{
}

/// A bid and an ask that are there replace what was there, whatever else is; what is not there leaves
/// what was. The quotes are as of now if either is there, and otherwise as old as they were.
pub proof fn law_quotes_replace(
    before: Option<TopOfBook<Decimal>>,
    bid: Option<Quote>,
    ask: Option<Quote>,
    now: u64,
)
    ensures
        bid is Some ==> quotes_with(before, bid, ask, now).bid == bid,
        ask is Some ==> quotes_with(before, bid, ask, now).ask == ask,
        bid is Some || ask is Some ==> quotes_with(before, bid, ask, now).ts == now,
        before matches Some(quotes) ==> {
            &&& bid is None ==> quotes_with(before, bid, ask, now).bid == quotes.bid
            &&& ask is None ==> quotes_with(before, bid, ask, now).ask == quotes.ask
            &&& bid is None && ask is None ==> quotes_with(before, bid, ask, now).ts == quotes.ts
        },
        before is None ==> {
            &&& bid is None ==> quotes_with(before, bid, ask, now).bid is None
            &&& ask is None ==> quotes_with(before, bid, ask, now).ask is None
            &&& quotes_with(before, bid, ask, now).ts == now
        },
{
}

/// The token of a message is its asset id, or the other spelling of it if the first is not there.
pub proof fn law_message_token(msg: WsMessage)
    ensures
        msg.asset_id matches Some(id) ==> message_token(msg) == Some(id@),
        msg.asset_id is None ==> match msg.asset_id_alt {
            Some(id) => message_token(msg) == Some(id@),
            None => message_token(msg) is None,
        },
{
}

/// The bid and the ask that a message brings for its token are in the book after it, whatever was
/// there before and whatever else the message brings; a side that it does not bring stays as it was.
pub proof fn law_message_quotes(
    book: Map<Seq<char>, TopOfBook<Decimal>>,
    msg: WsMessage,
    now: u64,
    token: Seq<char>,
)
    requires
        message_token(msg) == Some(token),
    ensures
        book_after(book, msg, now).contains_key(token),
        message_bid(msg) is Some ==> book_after(book, msg, now)[token].bid == message_bid(msg),
        message_ask(msg) is Some ==> book_after(book, msg, now)[token].ask == message_ask(msg),
        message_bid(msg) is Some || message_ask(msg) is Some ==> brings_quote(msg) && book_after(
            book,
            msg,
            now,
        )[token].ts == now,
        message_bid(msg) is None && message_ask(msg) is None ==> !brings_quote(msg),
        book.contains_key(token) ==> {
            let after = book_after(book, msg, now)[token];
            &&& message_bid(msg) is None ==> after.bid == book[token].bid
            &&& message_ask(msg) is None ==> after.ask == book[token].ask
            &&& !brings_quote(msg) ==> after.ts == book[token].ts
        },
        !book.contains_key(token) ==> {
            let after = book_after(book, msg, now)[token];
            &&& message_bid(msg) is None ==> after.bid is None
            &&& message_ask(msg) is None ==> after.ask is None
            &&& after.ts == now
        },
{
}

/// A message without a token changes nothing.
pub proof fn law_message_without_token(
    book: Map<Seq<char>, TopOfBook<Decimal>>,
    msg: WsMessage,
    now: u64,
)
    requires
        msg.asset_id is None,
        msg.asset_id_alt is None,
    ensures
        book_after(book, msg, now) == book,
{
}

/// A message brings the quote of its levels, or else that of its best price and size if both are
/// there and are decimals.
pub proof fn law_levels_go_first(msg: WsMessage)
    ensures
        best_bid_quote(msg.bids) is Some ==> message_bid(msg) == best_bid_quote(msg.bids),
        best_ask_quote(msg.asks) is Some ==> message_ask(msg) == best_ask_quote(msg.asks),
        best_bid_quote(msg.bids) is None ==> match (msg.best_bid, msg.best_bid_size) {
            (Some(price), Some(size)) => match (
                decimal_of_text(price@),
                decimal_of_text(size@),
            ) {
                (Some(price), Some(size)) => message_bid(msg) == Some((price, size)),
                _ => message_bid(msg) is None,
            },
            _ => message_bid(msg) is None,
        },
        best_ask_quote(msg.asks) is None ==> match (msg.best_ask, msg.best_ask_size) {
            (Some(price), Some(size)) => match (
                decimal_of_text(price@),
                decimal_of_text(size@),
            ) {
                (Some(price), Some(size)) => message_ask(msg) == Some((price, size)),
                _ => message_ask(msg) is None,
            },
            _ => message_ask(msg) is None,
        },
        best_bid_quote(None) is None,
        best_ask_quote(None) is None,
{
}

/// Levels bring the bid with the highest readable price, the last of them if there are several, if
/// its size is readable, and none if no price is.
pub proof fn law_bid_of_texts(list: Vec<BookLevel>, i: int)
    requires
        0 <= i < list@.len(),
        forall|j: int|
            #![trigger list@[j]]
            0 <= j < list@.len() ==> match (
                decimal_of_text(list@[j].price@),
                decimal_of_text(list@[i].price@),
            ) {
                (Some(other), Some(best)) => other.units() <= best.units() && (j > i ==> other.units()
                    < best.units()),
                (Some(_), None) => false,
                (None, Some(_)) => true,
                (None, None) => j <= i,
            },
    ensures
        match (decimal_of_text(list@[i].price@), decimal_of_text(list@[i].size@)) {
            (Some(price), Some(size)) => best_bid_quote(Some(list)) == Some((price, size)),
            _ => best_bid_quote(Some(list)) is None,
        },
{
    let levels = levels_of(list@);
    assert forall|j: int| 0 <= j < levels.len() implies price_le(
        (#[trigger] levels[j]).0,
        levels[i].0,
    ) && (i < j ==> !price_le(levels[i].0, levels[j].0)) by {
        assert(levels[j] == level_of_texts(list@[j].price@, list@[j].size@));
    }
    assert(levels[i] == level_of_texts(list@[i].price@, list@[i].size@));
    law_bid_of_levels(levels, i);
}

/// Levels bring the ask with the lowest price, the first of them if there are several, if every price
/// and its size are readable, and otherwise none.
pub proof fn law_ask_of_texts(list: Vec<BookLevel>, i: int)
    requires
        0 <= i < list@.len(),
        forall|j: int|
            #![trigger list@[j]]
            0 <= j < list@.len() ==> match (
                decimal_of_text(list@[j].price@),
                decimal_of_text(list@[i].price@),
            ) {
                (Some(other), Some(best)) => best.units() <= other.units() && (j < i ==> best.units()
                    < other.units()),
                (Some(_), None) => true,
                (None, Some(_)) => false,
                (None, None) => i <= j,
            },
    ensures
        match (decimal_of_text(list@[i].price@), decimal_of_text(list@[i].size@)) {
            (Some(price), Some(size)) => best_ask_quote(Some(list)) == Some((price, size)),
            _ => best_ask_quote(Some(list)) is None,
        },
{
    let levels = levels_of(list@);
    assert forall|j: int| 0 <= j < levels.len() implies price_le(
        levels[i].0,
        (#[trigger] levels[j]).0,
    ) && (j < i ==> !price_le(levels[j].0, levels[i].0)) by {
        assert(levels[j] == level_of_texts(list@[j].price@, list@[j].size@));
    }
    assert(levels[i] == level_of_texts(list@[i].price@, list@[i].size@));
    law_ask_of_levels(levels, i);
}

/// No levels bring no quote.
pub proof fn law_no_levels(list: Vec<BookLevel>)
    requires
        list@.len() == 0,
    ensures
        best_bid_quote(Some(list)) is None,
        best_ask_quote(Some(list)) is None,
{
}

/// Quotes can be traded on if and only if there is an ask and no more time than the limit has passed
/// since they came; the bid does not count.
pub proof fn law_good_quotes<N>(quotes: TopOfBook<N>, stale: AgeLimit, now: u64)
    ensures
        is_good(Some(quotes), stale, now) <==> quotes.ask is Some && (stale.longest matches Some(
            longest,
        ) && now <= quotes.ts + longest),
        quotes.is_fresh(stale, now) <==> quotes.ask is Some && (stale.longest matches Some(longest)
            && now <= quotes.ts + longest),
        !is_good(None::<TopOfBook<N>>, stale, now),
{
}

} // verus!
