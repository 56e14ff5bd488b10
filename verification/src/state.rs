//! What the bot knows, and what it decides from it.
//!
//! Times are in nanoseconds of a clock that the caller reads.

use vstd::prelude::*;
use vstd::hash_map::StringHashMap;
use vstd::string::*;
use crate::book::{
    age, book_after, brings_quote, elapsed, good_tob, is_good, lookup, message_ask, message_bid,
    message_is_read_plainly, message_token, update_book_from_msg,
    Quote, TopOfBook, WsMessage,
};
use crate::config::{AgeLimit, BotConfig};
use crate::decimal::{adds_up, decimal_product, decimal_sum, is_decimal, multiplies_out, one, Decimal};
use crate::market::MarketPair;
use crate::pairs::{
    find_pair, law_find_pair, law_no_pair, law_symbol_of_token, law_token_index, only_in, symbols_differ, token_index, tokens_of, Markets,
    PairTable,
};
use crate::sizing::{
    are_ordinary_asks, bankroll_sizing, costs_a_leg, fixed_size, fixed_sizing, has_ordinary_amounts,
    is_amount, is_ordinary_balance, is_right_fixed_size, is_right_order, law_fixed_steps, leg_costs_enough, may_decline,
    order_is_sound, size_for_bankroll, takes_amounts, Sizing, MAX_AMOUNT,
};
use crate::text::texts;

verus! {

/// An hour.
pub const HOUR_NANOS: u64 = 3_600_000_000_000;

/// The balance when it was last asked for, and when that was.
#[derive(Clone, Copy)]
pub struct BalanceCache {
    pub available: Option<Decimal>,
    pub ts: u64,
}

impl BalanceCache {
    /// A cache that holds nothing and is an hour old.
    pub fn new(now: u64) -> (result: BalanceCache)
        requires
            now >= HOUR_NANOS,
        ensures
            result == (BalanceCache { available: None, ts: (now - HOUR_NANOS) as u64 }),
    {
        BalanceCache { available: None, ts: now - HOUR_NANOS }
    }

    /// Whether the cache holds a balance that is recent enough.
    pub open spec fn is_valid(self, ttl: AgeLimit, now: u64) -> bool {
        self.available is Some && ttl.spans(age(self.ts, now))
    }

    /// The cache after the balance was asked for: as it was if it is valid, else with what the
    /// exchange says.
    pub open spec fn after(self, fetched: Option<Decimal>, ttl: AgeLimit, now: u64) -> BalanceCache {
        if self.is_valid(ttl, now) {
            self
        } else {
            BalanceCache { available: fetched, ts: now }
        }
    }
}

/// The balance: the cached one if it is recent enough, else `fetched`, what the exchange says,
/// which is then cached.
pub fn get_available_usdc(
    cache: &mut BalanceCache,
    fetched: Option<Decimal>,
    ttl: AgeLimit,
    now: u64,
) -> (result: Option<Decimal>)
    ensures
        *final(cache) == old(cache).after(fetched, ttl, now),
        result == final(cache).available,
{
    if cache.available.is_some() && ttl.covers(elapsed(cache.ts, now)) {
        return cache.available;
    }
    cache.available = fetched;
    cache.ts = now;
    fetched
}

/// An order on both legs of a pair.
pub struct FireOrder {
    pub pair: MarketPair,
    pub ask_a: Decimal,
    pub size_a: Decimal,
    pub ask_b: Decimal,
    pub size_b: Decimal,
    /// The price of a share of each leg.
    pub total: Decimal,
    /// The shares of each leg.
    pub shares: Decimal,
    /// What both legs cost.
    pub used: Decimal,
    /// The balance, if it is known.
    pub available: Option<Decimal>,
}

/// Whether to trade.
pub enum FireDecision {
    Hold,
    /// A number on the way is out of a decimal's range.
    OutOfRange,
    Fire(FireOrder),
}

/// What can be said before the balance is asked for.
pub enum Gate {
    Hold,
    OutOfRange,
    /// The pair, the asks of its tokens, and their sum.
    Open(MarketPair, Quote, Quote, Decimal),
}

/// The tokens that came and went when the pairs changed.
pub struct TokenChange {
    pub unsubscribe: Vec<String>,
    pub subscribe: Vec<String>,
}

impl TokenChange {
    /// Whether these are the tokens that went and came between two lists, each once.
    pub open spec fn is_between(self, before: Seq<Seq<char>>, after: Seq<Seq<char>>) -> bool {
        &&& texts(self.unsubscribe@).no_duplicates()
        &&& forall|token: Seq<char>| #[trigger]
            texts(self.unsubscribe@).contains(token) <==> before.contains(token)
                && !after.contains(token)
        &&& texts(self.subscribe@).no_duplicates()
        &&& forall|token: Seq<char>| #[trigger]
            texts(self.subscribe@).contains(token) <==> after.contains(token)
                && !before.contains(token)
    }
}

/// What the bot knows.
pub struct SharedState {
    pub config: BotConfig,
    pub book: StringHashMap<TopOfBook<Decimal>>,
    pub markets: Markets,
    pub last_fire: StringHashMap<u64>,
    pub in_flight: StringHashMap<bool>,
    pub balance_cache: BalanceCache,
}

impl SharedState {
    /// Whether an order for a symbol is under way.
    pub open spec fn is_in_flight(self, sym: Seq<char>) -> bool {
        lookup(self.in_flight@, sym) == Some(true)
    }

    /// Whether the last order for a symbol was too recent.
    pub open spec fn is_cooling(self, sym: Seq<char>, now: u64) -> bool {
        lookup(self.last_fire@, sym) matches Some(last) && self.config.cooldown.spans(age(last, now))
    }

    /// What can be said before the balance is asked for: a symbol with a pair, without an order
    /// under way or too recent, and with good quotes for both tokens, whose asks add up to no more
    /// than the limit.
    pub open spec fn gate(self, sym: Seq<char>, now: u64) -> Gate {
        match find_pair(self.markets.entries(), sym) {
            None => Gate::Hold,
            Some(pair) => {
                let a = lookup(self.book@, pair.token_a@);
                let b = lookup(self.book@, pair.token_b@);
                if self.is_in_flight(sym) || self.is_cooling(sym, now) || !is_good(
                    a,
                    self.config.stale,
                    now,
                ) || !is_good(b, self.config.stale, now) {
                    Gate::Hold
                } else {
                    let ask_a = a->0.ask->0;
                    let ask_b = b->0.ask->0;
                    match decimal_sum(ask_a.0, ask_b.0) {
                        None => Gate::OutOfRange,
                        Some(total) => if total.units() > self.config.sum_max.units() {
                            Gate::Hold
                        } else {
                            Gate::Open(pair, ask_a, ask_b, total)
                        },
                    }
                }
            },
        }
    }

    /// The size of an order: by the balance if it is known.
    pub open spec fn order_sizing(
        self,
        available: Option<Decimal>,
        a: Quote,
        b: Quote,
        total: Decimal,
    ) -> Sizing {
        match available {
            Some(balance) => bankroll_sizing(self.config, balance, a.0, b.0, a.1, b.1),
            None => fixed_sizing(self.config, a.0, b.0, a.1, b.1, total),
        }
    }

    /// Whether to trade, where the exchange says that the balance is `fetched`.
    pub open spec fn decision(
        self,
        sym: Seq<char>,
        fetched: Option<Decimal>,
        now: u64,
    ) -> FireDecision {
        match self.gate(sym, now) {
            Gate::Hold => FireDecision::Hold,
            Gate::OutOfRange => FireDecision::OutOfRange,
            Gate::Open(pair, a, b, total) => {
                let available = self.balance_cache.after(
                    fetched,
                    self.config.balance_cache,
                    now,
                ).available;
                match self.order_sizing(available, a, b, total) {
                    Sizing::OutOfRange => FireDecision::OutOfRange,
                    Sizing::Declined => FireDecision::Hold,
                    Sizing::Sized(shares, used, _) => FireDecision::Fire(
                        FireOrder {
                            pair,
                            ask_a: a.0,
                            size_a: a.1,
                            ask_b: b.0,
                            size_b: b.1,
                            total,
                            shares,
                            used,
                            available,
                        },
                    ),
                }
            },
        }
    }

    /// Whether the asks of a symbol's pair, as far as both are there, and their sizes are ordinary.
    pub open spec fn quotes_are_ordinary(self, sym: Seq<char>) -> bool {
        find_pair(self.markets.entries(), sym) matches Some(pair) ==> match (
            lookup(self.book@, pair.token_a@),
            lookup(self.book@, pair.token_b@),
        ) {
            (Some(a), Some(b)) => match (a.ask, b.ask) {
                (Some(a), Some(b)) => are_ordinary_asks(a.0, b.0) && is_amount(a.1) && is_amount(
                    b.1,
                ),
                _ => true,
            },
            _ => true,
        }
    }

    /// Whether all that bears on an order for a symbol is ordinary: the settings, the quotes and
    /// the balance, if it is known.
    pub open spec fn is_ordinary_for(
        self,
        sym: Seq<char>,
        fetched: Option<Decimal>,
        now: u64,
    ) -> bool {
        &&& has_ordinary_amounts(self.config)
        &&& self.quotes_are_ordinary(sym)
        &&& self.balance_cache.after(fetched, self.config.balance_cache, now).available matches Some(
            balance,
        ) ==> is_ordinary_balance(self.config, balance)
    }

    /// The symbol to decide on after a message.
    pub open spec fn symbol_for(self, msg: WsMessage) -> Option<Seq<char>> {
        match message_token(msg) {
            Some(token) => if brings_quote(msg) {
                lookup(token_index(self.markets.entries()), token)
            } else {
                None
            },
            None => None,
        }
    }

    /// Whether an order of the size cap is due for a symbol: it has a pair, no order under way or
    /// within the cooldown, both tokens have an ask no older than the limit, the sum of the asks is a
    /// decimal and no more than the limit, no balance is known, and both legs, with ordinary amounts,
    /// cost what a leg must and are offered.
    pub open spec fn is_due_at_fixed_size(
        self,
        sym: Seq<char>,
        fetched: Option<Decimal>,
        now: u64,
    ) -> bool {
        &&& !(self.in_flight@.contains_key(sym) && self.in_flight@[sym])
        &&& self.last_fire@.contains_key(sym) ==> !(self.config.cooldown.longest matches Some(longest)
            && now <= self.last_fire@[sym] + longest)
        &&& fetched is None
        &&& self.balance_cache.available is None
        &&& is_amount(self.config.size)
        &&& find_pair(self.markets.entries(), sym) matches Some(pair) && {
            let a = self.book@[pair.token_a@];
            let b = self.book@[pair.token_b@];
            &&& self.book@.contains_key(pair.token_a@)
            &&& self.book@.contains_key(pair.token_b@)
            &&& self.config.stale.longest matches Some(longest) && now <= a.ts + longest && now <= b.ts
                + longest
            &&& (a.ask, b.ask) matches (Some(a), Some(b)) && {
                let sum = a.0.units() + b.0.units();
                &&& is_decimal(sum)
                &&& sum <= self.config.sum_max.units()
                &&& is_amount(a.0)
                &&& is_amount(b.0)
                &&& costs_a_leg(self.config, a.0)
                &&& costs_a_leg(self.config, b.0)
                &&& a.1.units() >= self.config.size.units()
                &&& b.1.units() >= self.config.size.units()
            }
        }
    }

    /// Whether nothing but the markets may differ from another state.
    pub open spec fn differs_in_markets(self, other: SharedState) -> bool {
        &&& self.config == other.config
        &&& self.book == other.book
        &&& self.last_fire == other.last_fire
        &&& self.in_flight == other.in_flight
        &&& self.balance_cache == other.balance_cache
    }

    /// A bot that knows nothing but its settings.
    pub fn new(config: BotConfig, now: u64) -> (result: SharedState)
        requires
            now >= HOUR_NANOS,
        ensures
            result.config == config,
            result.book@ == Map::<Seq<char>, TopOfBook<Decimal>>::empty(),
            result.markets.entries() == Seq::<MarketPair>::empty(),
            result.last_fire@ == Map::<Seq<char>, u64>::empty(),
            result.in_flight@ == Map::<Seq<char>, bool>::empty(),
            result.balance_cache == (BalanceCache {
                available: None,
                ts: (now - HOUR_NANOS) as u64,
            }),
    {
        SharedState {
            config,
            book: StringHashMap::new(),
            markets: Markets::new(PairTable::new()),
            last_fire: StringHashMap::new(),
            in_flight: StringHashMap::new(),
            balance_cache: BalanceCache::new(now),
        }
    }

    /// What can be said before the balance is asked for.
    fn check_gate(&self, sym: &str, now: u64) -> (result: Gate)
        ensures
            result == self.gate(sym@, now),
            result matches Gate::Open(_, a, b, total) ==> adds_up(a.0, b.0, total),
            self.quotes_are_ordinary(sym@) ==> !(result is OutOfRange),
            self.is_due_at_fixed_size(sym@, None, now) ==> result is Open,
            result is OutOfRange ==> (find_pair(self.markets.entries(), sym@) matches Some(pair)
                && !is_decimal(
                self.book@[pair.token_a@].ask->Some_0.0.units()
                    + self.book@[pair.token_b@].ask->Some_0.0.units(),
            )),
    {
        let pair = match self.markets.pair(sym) {
            Some(pair) => pair.clone(),
            None => return Gate::Hold,
        };
        match self.in_flight.get(sym) {
            Some(in_flight) => if *in_flight {
                return Gate::Hold;
            },
            None => {},
        }
        match self.last_fire.get(sym) {
            Some(last) => if self.config.cooldown.covers(elapsed(*last, now)) {
                return Gate::Hold;
            },
            None => {},
        }
        let a = self.book.get(pair.token_a.as_str());
        let b = self.book.get(pair.token_b.as_str());
        if !good_tob(a, self.config.stale, now) || !good_tob(b, self.config.stale, now) {
            return Gate::Hold;
        }
        let ask_a = a.unwrap().ask.unwrap();
        let ask_b = b.unwrap().ask.unwrap();
        let total = match ask_a.0.checked_add(ask_b.0) {
            Some(total) => total,
            None => return Gate::OutOfRange,
        };
        if self.config.sum_max.less_than(total) {
            return Gate::Hold;
        }
        Gate::Open(pair, ask_a, ask_b, total)
    }

    /// Decides whether to trade on a symbol, and if so notes that an order is under way.
    ///
    /// `fetched` is the balance that the exchange tells, if it does; it counts where the cached
    /// balance is too old. An order that is due is on no more shares than either book offers, and
    /// its figures are exact as far as they are decimals. Where the balance is known the order costs
    /// no more than may be spent of it. With ordinary numbers none is out of range.
    pub fn maybe_fire(&mut self, sym: &str, fetched: Option<Decimal>, now: u64) -> (result:
        FireDecision)
        ensures
            result == old(self).decision(sym@, fetched, now),
            old(self).is_ordinary_for(sym@, fetched, now) ==> !(result is OutOfRange),
            old(self).is_due_at_fixed_size(sym@, fetched, now) ==> (
            result matches FireDecision::Fire(order) && order.shares == old(self).config.size),
            match (
                old(self).gate(sym@, now),
                old(self).balance_cache.after(fetched, old(self).config.balance_cache, now).available,
            ) {
                (Gate::Open(_, a, b, _), Some(balance)) => takes_amounts(
                    old(self).config,
                    balance,
                    a.0,
                    b.0,
                    a.1,
                    b.1,
                ) ==> match result {
                    FireDecision::Fire(order) => is_right_order(
                        old(self).config,
                        balance,
                        a.0,
                        b.0,
                        a.1,
                        b.1,
                        order.shares,
                        order.used,
                        order.total,
                    ),
                    FireDecision::Hold => may_decline(old(self).config, balance, a.0, b.0, a.1, b.1),
                    FireDecision::OutOfRange => old(self).config.size_decimals > 6,
                },
                (Gate::Open(_, a, b, _), None) => is_amount(old(self).config.size) && is_amount(
                    old(self).config.min_leg_notional_usd,
                ) && is_amount(a.0) && is_amount(b.0) && is_decimal(a.0.units() + b.0.units())
                    ==> is_right_fixed_size(
                    old(self).config,
                    a.0,
                    b.0,
                    a.1,
                    b.1,
                    match result {
                        FireDecision::Fire(order) => Sizing::Sized(
                            order.shares,
                            order.used,
                            order.total,
                        ),
                        FireDecision::Hold => Sizing::Declined,
                        FireDecision::OutOfRange => Sizing::OutOfRange,
                    },
                ),
                _ => true,
            },
            result matches FireDecision::Fire(order) ==> {
                &&& order.shares.units() <= order.size_a.units()
                &&& order.shares.units() <= order.size_b.units()
                &&& adds_up(order.ask_a, order.ask_b, order.total)
                &&& is_decimal(order.ask_a.units() + order.ask_b.units()) ==> order.ask_a.units()
                    + order.ask_b.units() <= old(self).config.sum_max.units()
                &&& multiplies_out(order.shares, order.total, order.used)
                &&& match order.available {
                    Some(balance) => order_is_sound(
                        old(self).config,
                        balance,
                        order.ask_a,
                        order.ask_b,
                        order.size_a,
                        order.size_b,
                        order.shares,
                        order.used,
                    ),
                    None => order.shares == old(self).config.size && leg_costs_enough(
                        old(self).config,
                        order.ask_a,
                        order.shares,
                    ) && leg_costs_enough(old(self).config, order.ask_b, order.shares),
                }
            },
            final(self).config == old(self).config,
            final(self).book == old(self).book,
            final(self).markets == old(self).markets,
            final(self).balance_cache == (if old(self).gate(sym@, now) is Open {
                old(self).balance_cache.after(fetched, old(self).config.balance_cache, now)
            } else {
                old(self).balance_cache
            }),
            final(self).in_flight@ == (if result is Fire {
                old(self).in_flight@.insert(sym@, true)
            } else {
                old(self).in_flight@
            }),
            final(self).last_fire@ == (if result is Fire {
                old(self).last_fire@.insert(sym@, now)
            } else {
                old(self).last_fire@
            }),
    {
        let (pair, a, b, total) = match self.check_gate(sym, now) {
            Gate::Hold => return FireDecision::Hold,
            Gate::OutOfRange => return FireDecision::OutOfRange,
            Gate::Open(pair, a, b, total) => (pair, a, b, total),
        };
        let ttl = self.config.balance_cache;
        let available = get_available_usdc(&mut self.balance_cache, fetched, ttl, now);
        proof {
            assert(2 * MAX_AMOUNT * one() == MAX_AMOUNT * one() + MAX_AMOUNT * one())
                by (nonlinear_arith);
        }
        let sizing = match available {
            Some(balance) => size_for_bankroll(&self.config, balance, a.0, b.0, a.1, b.1),
            None => fixed_size(&self.config, a.0, b.0, a.1, b.1, total),
        };
        match sizing {
            Sizing::OutOfRange => FireDecision::OutOfRange,
            Sizing::Declined => FireDecision::Hold,
            Sizing::Sized(shares, used, _) => {
                self.in_flight.insert(sym.to_owned(), true);
                self.last_fire.insert(sym.to_owned(), now);
                FireDecision::Fire(
                    FireOrder {
                        pair,
                        ask_a: a.0,
                        size_a: a.1,
                        ask_b: b.0,
                        size_b: b.1,
                        total,
                        shares,
                        used,
                        available,
                    },
                )
            },
        }
    }

    /// Notes that the order for a symbol is over, whatever became of it.
    pub fn finish_fire(&mut self, sym: &str)
        ensures
            final(self).in_flight@ == old(self).in_flight@.insert(sym@, false),
            final(self).config == old(self).config,
            final(self).book == old(self).book,
            final(self).markets == old(self).markets,
            final(self).last_fire == old(self).last_fire,
            final(self).balance_cache == old(self).balance_cache,
    {
        self.in_flight.insert(sym.to_owned(), false);
    }

    /// Takes the quotes of a message into the book. Returns the symbol to decide on, if the message
    /// brought a quote for a token of a pair.
    pub fn on_message(&mut self, msg: &WsMessage, now: u64) -> (result: Option<String>)
        ensures
            final(self).book@ == book_after(old(self).book@, *msg, now),
            message_token(*msg) is Some ==> message_is_read_plainly(*msg),
            match result {
                Some(symbol) => brings_quote(*msg) && (message_token(*msg) matches Some(token)
                    && lookup(token_index(old(self).markets.entries()), token) == Some(symbol@)),
                None => !brings_quote(*msg) || (message_token(*msg) matches Some(token) ==> lookup(
                    token_index(old(self).markets.entries()),
                    token,
                ) is None),
            },
            match result {
                Some(symbol) => old(self).symbol_for(*msg) == Some(symbol@),
                None => old(self).symbol_for(*msg) is None,
            },
            final(self).config == old(self).config,
            final(self).markets == old(self).markets,
            final(self).last_fire == old(self).last_fire,
            final(self).in_flight == old(self).in_flight,
            final(self).balance_cache == old(self).balance_cache,
    {
        match update_book_from_msg(&mut self.book, msg, now) {
            Some(token) => self.markets.symbol_of(token.as_str()),
            None => None,
        }
    }

    /// Trades the given pairs from now on.
    pub fn install(&mut self, pairs: PairTable)
        ensures
            final(self).markets.entries() == pairs.entries(),
            final(self).differs_in_markets(*old(self)),
            final(self).config == old(self).config,
            final(self).book == old(self).book,
            final(self).last_fire == old(self).last_fire,
            final(self).in_flight == old(self).in_flight,
            final(self).balance_cache == old(self).balance_cache,
    {
        self.markets = Markets::new(pairs);
    }

    /// Trades the pairs of a new slot from now on, if there are any, and says which tokens came and
    /// which went.
    pub fn rollover(&mut self, pairs: PairTable) -> (result: Option<TokenChange>)
        ensures
            final(self).differs_in_markets(*old(self)),
            final(self).config == old(self).config,
            final(self).book == old(self).book,
            final(self).last_fire == old(self).last_fire,
            final(self).in_flight == old(self).in_flight,
            final(self).balance_cache == old(self).balance_cache,
            match result {
                None => pairs.entries().len() == 0 && *final(self) == *old(self),
                Some(change) => pairs.entries().len() > 0 && final(self).markets.entries()
                    == pairs.entries() && change.is_between(
                    tokens_of(old(self).markets.entries()),
                    tokens_of(pairs.entries()),
                ),
            },
    {
        if pairs.len() == 0 {
            return None;
        }
        let old_tokens = self.markets.token_ids();
        let new_tokens = pairs.token_ids();
        self.markets = Markets::new(pairs);
        Some(
            TokenChange {
                unsubscribe: only_in(&old_tokens, &new_tokens),
                subscribe: only_in(&new_tokens, &old_tokens),
            },
        )
    }
}

/// While an order for a symbol is under way no other is made.
pub proof fn law_one_order_at_a_time(
    state: SharedState,
    sym: Seq<char>,
    fetched: Option<Decimal>,
    now: u64,
)
    requires
        state.is_in_flight(sym),
    ensures
        state.decision(sym, fetched, now) is Hold,
{
}

/// Until the cooldown after an order is over no other is made for the symbol.
pub proof fn law_cooldown(state: SharedState, sym: Seq<char>, fetched: Option<Decimal>, now: u64)
    requires
        state.is_cooling(sym, now),
    ensures
        state.decision(sym, fetched, now) is Hold,
{
}

/// After an order for a symbol no other is made for it until the first is over, and then none until
/// the cooldown is. What is decided on another symbol before its balance counts stays the same.
pub proof fn law_order_blocks_its_symbol(
    before: SharedState,
    sym: Seq<char>,
    fired: u64,
    during: SharedState,
    over: SharedState,
    fetched: Option<Decimal>,
    now: u64,
    other: Seq<char>,
)
    requires
        during.config == before.config,
        during.book == before.book,
        during.markets == before.markets,
        during.in_flight@ == before.in_flight@.insert(sym, true),
        during.last_fire@ == before.last_fire@.insert(sym, fired),
        over.config == before.config,
        over.book == before.book,
        over.markets == before.markets,
        over.in_flight@ == during.in_flight@.insert(sym, false),
        over.last_fire == during.last_fire,
        other != sym,
    ensures
        during.decision(sym, fetched, now) is Hold,
        before.config.cooldown.spans(age(fired, now)) ==> over.decision(sym, fetched, now) is Hold,
        !over.is_in_flight(sym),
        during.gate(other, now) == before.gate(other, now),
        over.gate(other, now) == before.gate(other, now),
{
}

/// Leaving the tokens that went and taking those that came leads from the old tokens to the new, with
/// no token left that stays, none taken that was there, and none twice.
pub proof fn law_token_change(
    change: TokenChange,
    before: Seq<Seq<char>>,
    after: Seq<Seq<char>>,
    token: Seq<char>,
)
    requires
        change.is_between(before, after),
    ensures
        after.contains(token) <==> before.contains(token) && !texts(change.unsubscribe@).contains(
            token,
        ) || texts(change.subscribe@).contains(token),
        texts(change.unsubscribe@).contains(token) ==> before.contains(token) && !after.contains(token),
        texts(change.subscribe@).contains(token) ==> after.contains(token) && !before.contains(token),
        texts(change.unsubscribe@).no_duplicates(),
        texts(change.subscribe@).no_duplicates(),
{
}

/// An order is made only on the current pair of the symbol, with no order under way or too recent,
/// at the asks in the book, neither of them stale, and only if they add up to no more than the
/// limit.
pub proof fn law_fire(
    state: SharedState,
    sym: Seq<char>,
    fetched: Option<Decimal>,
    now: u64,
    order: FireOrder,
)
    requires
        state.decision(sym, fetched, now) == FireDecision::Fire(order),
    ensures
        find_pair(state.markets.entries(), sym) == Some(order.pair),
        !state.is_in_flight(sym),
        !state.is_cooling(sym, now),
        ({
            let a = lookup(state.book@, order.pair.token_a@);
            &&& a matches Some(quotes) && quotes.is_fresh(state.config.stale, now) && quotes.ask
                == Some((order.ask_a, order.size_a))
        }),
        ({
            let b = lookup(state.book@, order.pair.token_b@);
            &&& b matches Some(quotes) && quotes.is_fresh(state.config.stale, now) && quotes.ask
                == Some((order.ask_b, order.size_b))
        }),
        order.total.units() <= state.config.sum_max.units(),
{
}

/// The balance that counts is the cached one if there is one and no more time than the limit has passed
/// since it was asked for, and otherwise the one that is told now, which is then cached.
pub proof fn law_balance(cache: BalanceCache, fetched: Option<Decimal>, ttl: AgeLimit, now: u64)
    ensures
        cache.available is Some && (ttl.longest matches Some(longest) && now <= cache.ts + longest)
            ==> cache.after(fetched, ttl, now) == cache,
        !(cache.available is Some && (ttl.longest matches Some(longest) && now <= cache.ts + longest))
            ==> cache.after(fetched, ttl, now).available == fetched && cache.after(
            fetched,
            ttl,
            now,
        ).ts == now,
{
}

/// Whether to trade is a question of size, where the symbol has a pair, no order for it is under way
/// or within the cooldown, both tokens have an ask no older than the limit, whenever each of them
/// came, and the asks add up to no more than the limit. The size is by the balance that counts, and
/// the fixed one if there is none.
pub proof fn law_gate_opens(
    state: SharedState,
    sym: Seq<char>,
    fetched: Option<Decimal>,
    now: u64,
    pair: MarketPair,
    a: Quote,
    b: Quote,
    total: Decimal,
)
    requires
        symbols_differ(state.markets.entries()),
        state.markets.entries().contains(pair),
        pair.symbol@ == sym,
        !(state.in_flight@.contains_key(sym) && state.in_flight@[sym]),
        state.last_fire@.contains_key(sym) ==> !(state.config.cooldown.longest matches Some(longest)
            && now <= state.last_fire@[sym] + longest),
        state.book@.contains_key(pair.token_a@),
        state.book@.contains_key(pair.token_b@),
        state.book@[pair.token_a@].ask == Some(a),
        state.book@[pair.token_b@].ask == Some(b),
        state.config.stale.longest matches Some(longest) && now <= state.book@[pair.token_a@].ts
            + longest && now <= state.book@[pair.token_b@].ts + longest,
        decimal_sum(a.0, b.0) == Some(total),
        total.units() <= state.config.sum_max.units(),
    ensures
        state.gate(sym, now) == Gate::Open(pair, a, b, total),
        ({
            let cache = state.balance_cache;
            let available = if cache.available is Some && (
            state.config.balance_cache.longest matches Some(longest) && now <= cache.ts + longest) {
                cache.available
            } else {
                fetched
            };
            let sizing = match available {
                Some(balance) => bankroll_sizing(state.config, balance, a.0, b.0, a.1, b.1),
                None => fixed_sizing(state.config, a.0, b.0, a.1, b.1, total),
            };
            match sizing {
                Sizing::Sized(shares, used, _) => state.decision(sym, fetched, now)
                    == FireDecision::Fire(
                    FireOrder {
                        pair,
                        ask_a: a.0,
                        size_a: a.1,
                        ask_b: b.0,
                        size_b: b.1,
                        total,
                        shares,
                        used,
                        available,
                    },
                ),
                Sizing::Declined => state.decision(sym, fetched, now) is Hold,
                Sizing::OutOfRange => state.decision(sym, fetched, now) is OutOfRange,
            }
        }),
{
    law_find_pair(state.markets.entries(), sym);
    let entries = state.markets.entries();
    let i = choose|i: int| 0 <= i < entries.len() && entries[i] == pair;
    assert(entries[i].symbol@ == sym);
}

/// Without a balance an order of the size cap is made, at the asks, where the symbol has a pair, no
/// order for it is under way or within the cooldown, both tokens have an ask no older than the limit,
/// the asks add up to no more than the limit, both legs of the size cap cost what a leg must, and both
/// books offer that much.
pub proof fn law_fires_without_balance(
    state: SharedState,
    sym: Seq<char>,
    now: u64,
    pair: MarketPair,
    a: Quote,
    b: Quote,
    total: Decimal,
    cost_a: Decimal,
    cost_b: Decimal,
    used: Decimal,
)
    requires
        symbols_differ(state.markets.entries()),
        state.markets.entries().contains(pair),
        pair.symbol@ == sym,
        !(state.in_flight@.contains_key(sym) && state.in_flight@[sym]),
        state.last_fire@.contains_key(sym) ==> !(state.config.cooldown.longest matches Some(longest)
            && now <= state.last_fire@[sym] + longest),
        state.book@.contains_key(pair.token_a@),
        state.book@.contains_key(pair.token_b@),
        state.book@[pair.token_a@].ask == Some(a),
        state.book@[pair.token_b@].ask == Some(b),
        state.config.stale.longest matches Some(longest) && now <= state.book@[pair.token_a@].ts
            + longest && now <= state.book@[pair.token_b@].ts + longest,
        decimal_sum(a.0, b.0) == Some(total),
        total.units() <= state.config.sum_max.units(),
        state.balance_cache.available is None,
        decimal_product(a.0, state.config.size) == Some(cost_a),
        decimal_product(b.0, state.config.size) == Some(cost_b),
        decimal_product(state.config.size, total) == Some(used),
        cost_a.units() >= state.config.min_leg_notional_usd.units(),
        cost_b.units() >= state.config.min_leg_notional_usd.units(),
        a.1.units() >= state.config.size.units(),
        b.1.units() >= state.config.size.units(),
    ensures
        state.decision(sym, None, now) == FireDecision::Fire(
            FireOrder {
                pair,
                ask_a: a.0,
                size_a: a.1,
                ask_b: b.0,
                size_b: b.1,
                total,
                shares: state.config.size,
                used,
                available: None,
            },
        ),
{
    law_gate_opens(state, sym, None, now, pair, a, b, total);
    law_fixed_steps(state.config, a.0, b.0, a.1, b.1, total, cost_a, cost_b, used);
}

/// No order is made for a symbol that has no pair, that has an order under way or within the
/// cooldown, for a token without quotes, without an ask or with one older than the limit, or for asks
/// that add up to more than the limit.
pub proof fn law_holds(state: SharedState, sym: Seq<char>, fetched: Option<Decimal>, now: u64)
    ensures
        (forall|i: int|
            0 <= i < state.markets.entries().len() ==> (
            #[trigger] state.markets.entries()[i]).symbol@ != sym) ==> state.decision(
            sym,
            fetched,
            now,
        ) is Hold,
        state.in_flight@.contains_key(sym) && state.in_flight@[sym] ==> state.decision(
            sym,
            fetched,
            now,
        ) is Hold,
        state.last_fire@.contains_key(sym) && (state.config.cooldown.longest matches Some(longest)
            && now <= state.last_fire@[sym] + longest) ==> state.decision(sym, fetched, now) is Hold,
        find_pair(state.markets.entries(), sym) matches Some(pair) ==> forall|token: Seq<char>|
            token == pair.token_a@ || token == pair.token_b@ ==> (!(#[trigger] state.book@.contains_key(
                token,
            )) || state.book@[token].ask is None || !(state.config.stale.longest matches Some(longest)
                && now <= state.book@[token].ts + longest) ==> state.decision(sym, fetched, now)
                is Hold),
        state.decision(sym, fetched, now) matches FireDecision::Fire(order) ==> decimal_sum(
            order.ask_a,
            order.ask_b,
        ) == Some(order.total) && order.total.units() <= state.config.sum_max.units(),
{
    law_no_pair(state.markets.entries(), sym);
}

/// A message that brings a bid or an ask for a token leads to the symbol of the pair that has the
/// token, whatever the book holds and whatever else is under way; one for a token that no pair has, or
/// without a quote, leads to none.
pub proof fn law_symbol_for(state: SharedState, msg: WsMessage, token: Seq<char>, i: int)
    requires
        message_token(msg) == Some(token),
        0 <= i < state.markets.entries().len(),
    ensures
        (message_bid(msg) is Some || message_ask(msg) is Some) && (
        state.markets.entries()[i].token_a@ == token || state.markets.entries()[i].token_b@ == token) && (
        forall|j: int|
            0 <= j < state.markets.entries().len() && j != i ==> (
            #[trigger] state.markets.entries()[j]).token_a@ != token
                && state.markets.entries()[j].token_b@ != token) ==> state.symbol_for(msg) == Some(
            state.markets.entries()[i].symbol@,
        ),
        message_bid(msg) is None && message_ask(msg) is None ==> state.symbol_for(msg) is None,
        !tokens_of(state.markets.entries()).contains(token) ==> state.symbol_for(msg) is None,
{
    let entries = state.markets.entries();
    law_token_index(entries, token);
    if (entries[i].token_a@ == token || entries[i].token_b@ == token) && (forall|j: int|
        0 <= j < entries.len() && j != i ==> (#[trigger] entries[j]).token_a@ != token
            && entries[j].token_b@ != token) {
        law_symbol_of_token(entries, i, token);
    }
}

/// Once an order is over none is under way for its symbol, and those for other symbols are as they
/// were.
pub proof fn law_finish(
    before: Map<Seq<char>, bool>,
    after: Map<Seq<char>, bool>,
    state: SharedState,
    sym: Seq<char>,
    other: Seq<char>,
)
    requires
        after == before.insert(sym, false),
        state.in_flight@ == after,
        other != sym,
    ensures
        !state.is_in_flight(sym),
        state.is_in_flight(other) <==> before.contains_key(other) && before[other],
{
}

} // verus!
