//! Markets: what the events service says of them, and the pairs of tokens that are traded.

use vstd::prelude::*;
use vstd::string::*;
use crate::text::{bare, split, split_bare, texts};

verus! {

/// The token ids of a market as they come: a JSON list, of which only the strings count, a JSON
/// string, or something else.
pub enum TokenIds {
    /// The strings of a list; `None` stands for an item that is no string.
    List(Vec<Option<String>>),
    Text(String),
    Other,
}

/// A market of an event.
pub struct GammaMarket {
    pub condition_id: String,
    pub clob_token_ids: TokenIds,
    pub accepting_orders: bool,
}

/// An event of the events service.
pub struct GammaEvent {
    pub markets: Vec<GammaMarket>,
}

/// Whether a market takes orders if the events service does not say.
pub fn default_true() -> (result: bool)
    ensures
        result,
{
    true
}

/// The list of strings that `serde_json` reads from a text, or `None` if it rejects the text.
pub uninterp spec fn json_strings_of_text(text: Seq<char>) -> Option<Seq<Seq<char>>>;

/// Calls `serde_json::from_str` for a list of strings. Its result is named; the reason for which
/// a text is rejected is dropped.
#[verifier::external_body]
fn parse_json_strings(text: &str) -> (result: Option<Vec<String>>)
    ensures
        match result {
            Some(list) => json_strings_of_text(text@) == Some(texts(list@)),
            None => json_strings_of_text(text@) is None,
        },
{
    serde_json::from_str::<Vec<String>>(text).ok()
}

/// The strings among the items of a list.
pub open spec fn strings_of(items: Seq<Option<String>>) -> Seq<Seq<char>>
    decreases items.len(),
{
    if items.len() == 0 {
        Seq::empty()
    } else {
        let before = strings_of(items.drop_last());
        match items.last() {
            Some(text) => before.push(text@),
            None => before,
        }
    }
}

/// The token ids in a text, given the list that the text is in JSON, if it is one. Otherwise they
/// stand between commas, with or without double quotes.
pub open spec fn ids_of_text(text: Seq<char>, list: Option<Seq<Seq<char>>>) -> Seq<Seq<char>> {
    match list {
        Some(list) => list,
        None => split(text, ',').map_values(|piece: Seq<char>| bare(piece)),
    }
}

/// The token ids of a market.
pub open spec fn ids_of(value: TokenIds) -> Seq<Seq<char>> {
    match value {
        TokenIds::List(items) => strings_of(items@),
        TokenIds::Text(text) => ids_of_text(text@, json_strings_of_text(text@)),
        TokenIds::Other => Seq::empty(),
    }
}

/// The token ids in a text, given the list that the text is in JSON, if it is one.
pub fn token_ids_in_text(text: &str, list: Option<Vec<String>>) -> (result: Vec<String>)
    ensures
        texts(result@) == ids_of_text(
            text@,
            match list {
                Some(list) => Some(texts(list@)),
                None => None,
            },
        ),
{
    match list {
        Some(list) => list,
        None => split_bare(text, ','),
    }
}

/// The strings among the items of a list.
fn strings_in(items: &Vec<Option<String>>) -> (result: Vec<String>)
    ensures
        texts(result@) == strings_of(items@),
{
    let mut result: Vec<String> = Vec::new();
    let mut i: usize = 0;
    while i < items.len()
        invariant
            i <= items.len(),
            texts(result@) == strings_of(items@.take(i as int)),
        decreases items.len() - i,
    {
        proof {
            let longer = items@.take(i + 1);
            assert(longer.drop_last() == items@.take(i as int));
        }
        match &items[i] {
            Some(text) => {
                let copy = text.clone();
                proof {
                    assert(texts(result@.push(copy)) == texts(result@).push(copy@));
                }
                result.push(copy);
            },
            None => {},
        }
        i = i + 1;
    }
    proof {
        assert(items@.take(i as int) == items@);
    }
    result
}

/// The token ids of a market.
pub fn parse_clob_token_ids(value: &TokenIds) -> (result: Vec<String>)
    ensures
        texts(result@) == ids_of(*value),
{
    match value {
        TokenIds::List(items) => strings_in(items),
        TokenIds::Text(text) => token_ids_in_text(text.as_str(), parse_json_strings(text.as_str())),
        TokenIds::Other => Vec::new(),
    }
}

/// The address at which the events service tells of a market.
pub open spec fn event_url(gamma_host: Seq<char>, slug: Seq<char>) -> Seq<char> {
    gamma_host + "/events/slug/"@ + slug
}

/// The address starts with that of the service and ends with the slug, which follows `/events/slug/`.
pub proof fn law_event_url(gamma_host: Seq<char>, slug: Seq<char>)
    ensures
        ({
            let url = event_url(gamma_host, slug);
            let n = gamma_host.len() as int;
            &&& url.len() == n + 13 + slug.len()
            &&& url.take(n) == gamma_host
            &&& url.subrange(n, n + 13) == seq![
                '/', 'e', 'v', 'e', 'n', 't', 's', '/', 's', 'l', 'u', 'g', '/',
            ]
            &&& url.skip(n + 13) == slug
        }),
{
    reveal_strlit("/events/slug/");
    let url = event_url(gamma_host, slug);
    let n = gamma_host.len() as int;
    assert("/events/slug/"@.len() == 13);
    assert(url.take(n) == gamma_host);
    assert(url.subrange(n, n + 13) == "/events/slug/"@);
    assert("/events/slug/"@ == seq![
        '/', 'e', 'v', 'e', 'n', 't', 's', '/', 's', 'l', 'u', 'g', '/',
    ]);
    assert(url.skip(n + 13) == slug);
}

/// The address at which the events service tells of a market.
pub fn gamma_event_url(gamma_host: &str, slug: &str) -> (result: String)
    ensures
        result@ == gamma_host@ + "/events/slug/"@ + slug@,
        result@ == event_url(gamma_host@, slug@),
{
    let mut url = gamma_host.to_owned();
    url.append("/events/slug/");
    url.append(slug);
    url
}

/// A market and its two tokens.
pub struct MarketPair {
    pub symbol: String,
    pub slug: String,
    pub condition_id: String,
    pub token_a: String,
    pub token_b: String,
}

impl Clone for MarketPair {
    fn clone(&self) -> (result: MarketPair)
        ensures
            result == *self,
    {
        MarketPair {
            symbol: self.symbol.clone(),
            slug: self.slug.clone(),
            condition_id: self.condition_id.clone(),
            token_a: self.token_a.clone(),
            token_b: self.token_b.clone(),
        }
    }
}

/// Why a market is not traded.
#[derive(Clone, Copy, Debug, PartialEq, Eq, Structural)]
pub enum Rejection {
    /// The events service did not tell of it.
    Unavailable,
    /// The event has no market.
    NoMarkets,
    /// The market takes no orders.
    NotAccepting,
    /// The market does not have two tokens, but this many.
    TokenCount(usize),
}

/// Why the first market of an event is not traded, if so.
pub open spec fn rejection_of(event: GammaEvent) -> Option<Rejection> {
    if event.markets@.len() == 0 {
        Some(Rejection::NoMarkets)
    } else if !event.markets@[0].accepting_orders {
        Some(Rejection::NotAccepting)
    } else {
        let ids = ids_of(event.markets@[0].clob_token_ids);
        if ids.len() != 2 {
            Some(Rejection::TokenCount(ids.len() as usize))
        } else {
            None
        }
    }
}

impl MarketPair {
    /// Whether this is the pair of the first market of an event.
    pub open spec fn is_of(
        self,
        symbol: Seq<char>,
        slug: Seq<char>,
        event: GammaEvent,
    ) -> bool {
        let ids = ids_of(event.markets@[0].clob_token_ids);
        &&& self.symbol@ == symbol
        &&& self.slug@ == slug
        &&& self.condition_id == event.markets@[0].condition_id
        &&& self.token_a@ == ids[0]
        &&& self.token_b@ == ids[1]
    }
}

/// The pair of the first market of an event, or why it is not traded.
pub fn pair_of_event(symbol: &str, slug: &str, event: &GammaEvent) -> (result: Result<
    MarketPair,
    Rejection,
>)
    ensures
        match result {
            Ok(pair) => rejection_of(*event) is None && pair.is_of(symbol@, slug@, *event),
            Err(rejection) => rejection_of(*event) == Some(rejection),
        },
{
    if event.markets.len() == 0 {
        return Err(Rejection::NoMarkets);
    }
    let market = &event.markets[0];
    if !market.accepting_orders {
        return Err(Rejection::NotAccepting);
    }
    let ids = parse_clob_token_ids(&market.clob_token_ids);
    proof {
        assert(texts(ids@).len() == ids@.len());
    }
    if ids.len() != 2 {
        return Err(Rejection::TokenCount(ids.len()));
    }
    proof {
        assert(texts(ids@)[0] == ids@[0]@);
        assert(texts(ids@)[1] == ids@[1]@);
    }
    Ok(MarketPair {
        symbol: symbol.to_owned(),
        slug: slug.to_owned(),
        condition_id: market.condition_id.clone(),
        token_a: ids[0].clone(),
        token_b: ids[1].clone(),
    })
}

/// A market is traded if and only if it is the first of its event, takes orders and has exactly two
/// token ids, in whatever form they come; otherwise the reason is the first of these that is missing.
pub proof fn law_rejection(event: GammaEvent)
    ensures
        rejection_of(event) is None <==> event.markets@.len() > 0
            && event.markets@[0].accepting_orders && ids_of(event.markets@[0].clob_token_ids).len()
            == 2,
        event.markets@.len() == 0 <==> rejection_of(event) == Some(Rejection::NoMarkets),
        event.markets@.len() > 0 && !event.markets@[0].accepting_orders <==> rejection_of(event)
            == Some(Rejection::NotAccepting),
        rejection_of(event) != Some(Rejection::Unavailable),
        rejection_of(event) matches Some(Rejection::TokenCount(count)) ==> ids_of(
            event.markets@[0].clob_token_ids,
        ).len() as usize == count,
{
}

/// The pair of an event has the symbol and slug that were asked for, the condition of the event's
/// first market, and its token ids in their order.
pub proof fn law_pair(pair: MarketPair, symbol: Seq<char>, slug: Seq<char>, event: GammaEvent)
    requires
        pair.is_of(symbol, slug, event),
    ensures
        pair.symbol@ == symbol,
        pair.slug@ == slug,
        pair.condition_id@ == event.markets@[0].condition_id@,
        pair.token_a@ == ids_of(event.markets@[0].clob_token_ids)[0],
        pair.token_b@ == ids_of(event.markets@[0].clob_token_ids)[1],
{
}

/// Token ids in a text that is a JSON list of strings are these strings; in another text they stand
/// between commas; what is neither a list nor a text has none.
pub proof fn law_ids_of_text(text: String, list: Seq<Seq<char>>)
    ensures
        json_strings_of_text(text@) == Some(list) ==> ids_of(TokenIds::Text(text)) == list,
        json_strings_of_text(text@) is None ==> {
            let pieces = split(text@, ',');
            &&& ids_of(TokenIds::Text(text)).len() == pieces.len()
            &&& forall|i: int|
                0 <= i < pieces.len() ==> #[trigger] ids_of(TokenIds::Text(text))[i] == bare(pieces[i])
        },
        ids_of(TokenIds::Other).len() == 0,
        ids_of_text(text@, Some(list)) == list,
{
}

/// Token ids in a list are the strings in it, in their order: an item adds itself if it is a string,
/// and otherwise nothing.
pub proof fn law_ids_of_list(
    items: Vec<Option<String>>,
    before: Seq<Option<String>>,
    item: Option<String>,
    after: Seq<Option<String>>,
)
    requires
        items@ == before.push(item) + after,
    ensures
        ids_of(TokenIds::List(items)) == strings_of(before) + (match item {
            Some(text) => seq![text@],
            None => Seq::<Seq<char>>::empty(),
        }) + strings_of(after),
        strings_of(Seq::empty()) == Seq::<Seq<char>>::empty(),
{
    lemma_strings_of_both(before.push(item), after);
    assert(before.push(item).drop_last() == before);
}

/// The strings in two lists together are those in one and then those in the other.
proof fn lemma_strings_of_both(first: Seq<Option<String>>, second: Seq<Option<String>>)
    ensures
        strings_of(first + second) == strings_of(first) + strings_of(second),
    decreases second.len(),
{
    if second.len() == 0 {
        assert(first + second == first);
    } else {
        lemma_strings_of_both(first, second.drop_last());
        assert((first + second).drop_last() == first + second.drop_last());
    }
}

} // verus!
