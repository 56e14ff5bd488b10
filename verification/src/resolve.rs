//! Finding the current market of each series.
//!
//! The events service is asked for the market of the current slot, then for those of the next two;
//! the first that can be traded is taken. A [`Resolver`] says what to ask for next and takes the
//! replies.

use vstd::prelude::*;
use crate::config::{series_list, series_texts, Series};
use crate::market::{ids_of, pair_of_event, rejection_of, GammaEvent, MarketPair, Rejection};
use crate::pairs::{find_pair, PairTable};
use crate::slot::{market_slug, slug_of, SLOT_SECONDS};
use crate::text::numeral;

verus! {

/// How many slots are tried for a series.
pub const ATTEMPTS: u64 = 3;

/// What became of a reply.
#[derive(Clone, Copy, Debug, PartialEq, Eq, Structural)]
pub enum Attempt {
    /// The series has its market.
    Resolved,
    /// The next slot is tried.
    Retry(Rejection),
    /// That was the last slot; the series has no market.
    GaveUp(Rejection),
}

/// The slug of the market of a series in the `attempt`-th slot from `start`.
pub open spec fn attempt_slug(series: Series, start: int, attempt: int) -> Seq<char> {
    slug_of(series.prefix@, start + 900 * attempt)
}

/// Whether a reply tells of a market that can be traded.
pub open spec fn is_tradable(reply: Option<GammaEvent>) -> bool {
    reply matches Some(event) && rejection_of(event) is None
}

/// Why the market of a reply is not traded, if so.
pub open spec fn reply_rejection(reply: Option<GammaEvent>) -> Option<Rejection> {
    match reply {
        Some(event) => rejection_of(event),
        None => Some(Rejection::Unavailable),
    }
}

/// Whether no two series have the same symbol.
pub open spec fn series_differ(list: Seq<Series>) -> bool {
    forall|i: int, j: int|
        0 <= i < j < list.len() ==> #[trigger] list[i].symbol@ != #[trigger] list[j].symbol@
}

/// The state of a search for the markets of some series.
pub struct Resolver {
    series: Vec<Series>,
    start: u64,
    position: usize,
    attempt: u64,
    resolved: PairTable,
}

impl Resolver {
    /// The series.
    pub closed spec fn list(self) -> Seq<Series> {
        self.series@
    }

    /// The start of the first slot to try.
    pub closed spec fn first_slot(self) -> int {
        self.start as int
    }

    /// The series whose market is sought now; the number of series when all are done.
    pub closed spec fn current(self) -> int {
        self.position as int
    }

    /// How many slots were tried for the current series.
    pub closed spec fn tried(self) -> int {
        self.attempt as int
    }

    /// The pairs found so far.
    pub closed spec fn entries(self) -> Seq<MarketPair> {
        self.resolved.entries()
    }

    /// Whether all series are done.
    pub open spec fn is_done(self) -> bool {
        self.current() == self.list().len()
    }

    /// The slug to ask for next.
    pub open spec fn slug(self) -> Seq<char> {
        attempt_slug(self.list()[self.current()], self.first_slot(), self.tried())
    }

    /// What holds of every search.
    pub open spec fn wf(self) -> bool {
        &&& 0 <= self.current() <= self.list().len()
        &&& 0 <= self.tried() < ATTEMPTS
        &&& self.is_done() ==> self.tried() == 0
        &&& 0 <= self.first_slot() && self.first_slot() + 1800 <= u64::MAX
    }

    #[verifier::type_invariant]
    spec fn in_range(self) -> bool {
        self.wf()
    }

    /// Whether a reply to the current question takes this search to `next`.
    pub open spec fn leads_to(self, reply: Option<GammaEvent>, next: Resolver) -> bool {
        &&& next.list() == self.list()
        &&& next.first_slot() == self.first_slot()
        &&& if is_tradable(reply) {
            let symbol = self.list()[self.current()].symbol@;
            &&& next.current() == self.current() + 1
            &&& next.tried() == 0
            &&& find_pair(next.entries(), symbol) matches Some(pair) && pair.is_of(
                symbol,
                self.slug(),
                reply->0,
            )
            &&& forall|other: Seq<char>|
                other != symbol ==> #[trigger] find_pair(next.entries(), other) == find_pair(
                    self.entries(),
                    other,
                )
        } else {
            &&& next.entries() == self.entries()
            &&& if self.tried() + 1 < ATTEMPTS {
                next.current() == self.current() && next.tried() == self.tried() + 1
            } else {
                next.current() == self.current() + 1 && next.tried() == 0
            }
        }
    }

    /// How many questions are left to ask, at most.
    pub open spec fn questions_left(self) -> int {
        ATTEMPTS * (self.list().len() - self.current()) - self.tried()
    }

    /// Starts a search at the slot that begins at `start`.
    pub fn new(series: &Vec<Series>, start: u64) -> (result: Resolver)
        requires
            start + 1800 <= u64::MAX,
        ensures
            result.wf(),
            result.list() == series@,
            result.first_slot() == start,
            result.current() == 0,
            result.tried() == 0,
            result.entries() == Seq::<MarketPair>::empty(),
    {
        let mut copy: Vec<Series> = Vec::new();
        let mut i: usize = 0;
        while i < series.len()
            invariant
                i <= series@.len(),
                copy@ == series@.take(i as int),
            decreases series@.len() - i,
        {
            copy.push(series[i].clone());
            proof {
                assert(series@.take(i + 1) == series@.take(i as int).push(series@[i as int]));
            }
            i = i + 1;
        }
        proof {
            assert(series@.take(i as int) == series@);
        }
        Resolver { series: copy, start, position: 0, attempt: 0, resolved: PairTable::new() }
    }

    /// The slug to ask for next, or `None` when all series are done.
    pub fn next_slug(&self) -> (result: Option<String>)
        ensures
            self.wf(),
            match result {
                Some(slug) => !self.is_done() && slug@ == self.slug(),
                None => self.is_done(),
            },
    {
        proof {
            use_type_invariant(self);
        }
        if self.position == self.series.len() {
            None
        } else {
            Some(
                market_slug(
                    self.series[self.position].prefix.as_str(),
                    self.start + SLOT_SECONDS * self.attempt,
                ),
            )
        }
    }

    /// The symbol of the current series.
    pub fn symbol(&self) -> (result: &str)
        requires
            !self.is_done(),
        ensures
            result@ == self.list()[self.current()].symbol@,
    {
        proof {
            use_type_invariant(self);
        }
        self.series[self.position].symbol.as_str()
    }

    /// Takes the reply to the current question; `None` stands for a reply that did not come.
    pub fn on_reply(self, reply: Option<&GammaEvent>) -> (result: (Resolver, Attempt))
        requires
            !self.is_done(),
        ensures
            self.wf(),
            result.0.wf(),
            self.leads_to(
                match reply {
                    Some(event) => Some(*event),
                    None => None,
                },
                result.0,
            ),
            result.1 == (match reply_rejection(
                match reply {
                    Some(event) => Some(*event),
                    None => None,
                },
            ) {
                None => Attempt::Resolved,
                Some(rejection) => if self.tried() + 1 < ATTEMPTS {
                    Attempt::Retry(rejection)
                } else {
                    Attempt::GaveUp(rejection)
                },
            }),
    {
        proof {
            use_type_invariant(&self);
        }
        let Resolver { series, start, position, attempt, resolved } = self;
        assert(position < series.len());
        let found = match reply {
            Some(event) => {
                let slug = market_slug(
                    series[position].prefix.as_str(),
                    start + SLOT_SECONDS * attempt,
                );
                pair_of_event(series[position].symbol.as_str(), slug.as_str(), event)
            },
            None => Err(Rejection::Unavailable),
        };
        match found {
            Ok(pair) => {
                let resolved = resolved.with(pair);
                (
                    Resolver { series, start, position: position + 1, attempt: 0, resolved },
                    Attempt::Resolved,
                )
            },
            Err(rejection) => if attempt + 1 < ATTEMPTS {
                (
                    Resolver { series, start, position, attempt: attempt + 1, resolved },
                    Attempt::Retry(rejection),
                )
            } else {
                (
                    Resolver { series, start, position: position + 1, attempt: 0, resolved },
                    Attempt::GaveUp(rejection),
                )
            },
        }
    }

    /// The pairs that were found.
    pub fn into_pairs(self) -> (result: PairTable)
        ensures
            result.entries() == self.entries(),
    {
        self.resolved
    }

    /// Whether the pairs found so far are those that a service with the given replies has:
    /// each series that is done has the market of the first slot that can be traded, or none if
    /// none of its slots can, and no other symbol has one.
    pub open spec fn follows(self, replies: spec_fn(Seq<char>) -> Option<GammaEvent>) -> bool {
        &&& forall|k: int|
            0 <= k < self.current() ==> #[trigger] series_is_settled(
                self.list()[k],
                self.first_slot(),
                self.entries(),
                replies,
            )
        &&& forall|k: int|
            self.current() <= k < self.list().len() ==> find_pair(
                self.entries(),
                (#[trigger] self.list()[k]).symbol@,
            ) is None
        &&& forall|symbol: Seq<char>| #[trigger]
            find_pair(self.entries(), symbol) is Some ==> exists|k: int|
                0 <= k < self.current() && #[trigger] self.list()[k].symbol@ == symbol
        &&& !self.is_done() ==> forall|attempt: int|
            0 <= attempt < self.tried() ==> !is_tradable(
                replies(
                    #[trigger] attempt_slug(
                        self.list()[self.current()],
                        self.first_slot(),
                        attempt,
                    ),
                ),
            )
    }
}

/// Whether the `attempt`-th slot is the first whose market can be traded.
pub open spec fn is_first_tradable(
    series: Series,
    start: int,
    replies: spec_fn(Seq<char>) -> Option<GammaEvent>,
    attempt: int,
) -> bool {
    &&& 0 <= attempt < ATTEMPTS
    &&& is_tradable(replies(attempt_slug(series, start, attempt)))
    &&& forall|earlier: int|
        0 <= earlier < attempt ==> !is_tradable(
            replies(#[trigger] attempt_slug(series, start, earlier)),
        )
}

/// Whether a series has the market of the first slot that can be traded, or none if none can.
pub open spec fn series_is_settled(
    series: Series,
    start: int,
    entries: Seq<MarketPair>,
    replies: spec_fn(Seq<char>) -> Option<GammaEvent>,
) -> bool {
    match find_pair(entries, series.symbol@) {
        Some(pair) => exists|attempt: int| #[trigger]
            is_first_tradable(series, start, replies, attempt) && pair.is_of(
                series.symbol@,
                attempt_slug(series, start, attempt),
                replies(attempt_slug(series, start, attempt))->0,
            ),
        None => forall|attempt: int|
            0 <= attempt < ATTEMPTS ==> !is_tradable(
                replies(#[trigger] attempt_slug(series, start, attempt)),
            ),
    }
}

/// A search that starts has followed every service.
pub proof fn law_resolver_starts(
    resolver: Resolver,
    replies: spec_fn(Seq<char>) -> Option<GammaEvent>,
)
    requires
        resolver.current() == 0,
        resolver.tried() == 0,
        resolver.entries() == Seq::<MarketPair>::empty(),
    ensures
        resolver.follows(replies),
{
}

/// A search that gets the replies of a service keeps following it, and comes closer to its end.
pub proof fn law_resolver_follows(
    resolver: Resolver,
    next: Resolver,
    replies: spec_fn(Seq<char>) -> Option<GammaEvent>,
)
    requires
        resolver.wf(),
        !resolver.is_done(),
        series_differ(resolver.list()),
        resolver.leads_to(replies(resolver.slug()), next),
        resolver.follows(replies),
    ensures
        next.follows(replies),
        0 <= next.questions_left() < resolver.questions_left(),
{
    let list = resolver.list();
    let start = resolver.first_slot();
    let current = resolver.current();
    let series = list[current];
    let reply = replies(resolver.slug());
    assert forall|k: int| 0 <= k < list.len() && k != current implies (#[trigger] list[k]).symbol@
        != series.symbol@ by {
        if k < current {
            assert(list[k].symbol@ != list[current].symbol@);
        } else {
            assert(list[current].symbol@ != list[k].symbol@);
        }
    }
    assert forall|k: int| 0 <= k < next.current() implies #[trigger] series_is_settled(
        next.list()[k],
        start,
        next.entries(),
        replies,
    ) by {
        if k < current {
            assert(series_is_settled(list[k], start, resolver.entries(), replies));
            assert(find_pair(next.entries(), list[k].symbol@) == find_pair(
                resolver.entries(),
                list[k].symbol@,
            ));
        } else if is_tradable(reply) {
            assert(is_first_tradable(series, start, replies, resolver.tried()));
        } else {
            assert(find_pair(resolver.entries(), list[current].symbol@) is None);
        }
    }
    assert forall|k: int| next.current() <= k < list.len() implies find_pair(
        next.entries(),
        (#[trigger] next.list()[k]).symbol@,
    ) is None by {
        assert(find_pair(resolver.entries(), list[k].symbol@) is None);
    }
}

/// The series that the bot trades have different symbols.
pub proof fn law_series_differ(list: Seq<Series>)
    requires
        series_list(list) == series_texts(),
    ensures
        series_differ(list),
{
    reveal_strlit("BTC");
    reveal_strlit("ETH");
    reveal_strlit("SOL");
    reveal_strlit("XRP");
    let names = series_texts();
    assert(series_list(list).len() == list.len());
    assert forall|i: int| 0 <= i < 4 implies #[trigger] list[i].symbol@ == names[i].0 by {
        assert(series_list(list)[i] == names[i]);
    }
    assert(names[0].0[0] == 'B');
    assert(names[1].0[0] == 'E');
    assert(names[2].0[0] == 'S');
    assert(names[3].0[0] == 'X');
}

/// What is asked for is the slug of the current series, `0`, `900` or `1800` seconds from the first
/// slot, after as many slots as were tried.
pub proof fn law_question(resolver: Resolver)
    requires
        resolver.wf(),
        !resolver.is_done(),
    ensures
        0 <= resolver.current() < resolver.list().len(),
        0 <= resolver.tried() <= 2,
        resolver.slug() == resolver.list()[resolver.current()].prefix@ + numeral(
            (resolver.first_slot() + 900 * resolver.tried()) as nat,
        ),
{
}

/// A reply settles the current series if it tells of an event whose first market takes orders and has
/// two tokens: the series then has that market, under its symbol and the slug that was asked for, and
/// the others keep theirs. Otherwise nothing is found, and the next slot is tried, or after three the
/// next series.
pub proof fn law_reply(resolver: Resolver, reply: Option<GammaEvent>, next: Resolver)
    requires
        resolver.wf(),
        !resolver.is_done(),
        resolver.leads_to(reply, next),
    ensures
        next.list() == resolver.list(),
        next.first_slot() == resolver.first_slot(),
        ({
            let series = resolver.list()[resolver.current()];
            let settles = reply matches Some(event) && event.markets@.len() > 0
                && event.markets@[0].accepting_orders && ids_of(
                event.markets@[0].clob_token_ids,
            ).len() == 2;
            &&& settles ==> {
                let market = reply->0.markets@[0];
                &&& next.current() == resolver.current() + 1
                &&& next.tried() == 0
                &&& find_pair(next.entries(), series.symbol@) matches Some(pair) && {
                    &&& pair.symbol@ == series.symbol@
                    &&& pair.slug@ == series.prefix@ + numeral(
                        (resolver.first_slot() + 900 * resolver.tried()) as nat,
                    )
                    &&& pair.condition_id@ == market.condition_id@
                    &&& pair.token_a@ == ids_of(market.clob_token_ids)[0]
                    &&& pair.token_b@ == ids_of(market.clob_token_ids)[1]
                }
                &&& forall|other: Seq<char>|
                    other != series.symbol@ ==> #[trigger] find_pair(next.entries(), other)
                        == find_pair(resolver.entries(), other)
            }
            &&& !settles ==> next.entries() == resolver.entries()
            &&& !settles && resolver.tried() < 2 ==> next.current() == resolver.current()
                && next.tried() == resolver.tried() + 1
            &&& !settles && resolver.tried() == 2 ==> next.current() == resolver.current() + 1
                && next.tried() == 0
        }),
{
}

/// A reply that did not come is no reason to trade, and one that did is judged by its event alone.
pub proof fn law_reply_rejection(event: GammaEvent)
    ensures
        reply_rejection(None) == Some(Rejection::Unavailable),
        reply_rejection(Some(event)) == rejection_of(event),
        !is_tradable(None),
        is_tradable(Some(event)) <==> event.markets@.len() > 0 && event.markets@[0].accepting_orders
            && ids_of(event.markets@[0].clob_token_ids).len() == 2,
{
}

/// When a search that got the replies of a service is over, each series has the market of the first
/// of three slots, nine hundred seconds apart, whose event's first market takes orders and has two
/// tokens, or none if there is no such slot.
pub proof fn law_search_result(
    resolver: Resolver,
    replies: spec_fn(Seq<char>) -> Option<GammaEvent>,
    k: int,
    slot: int,
)
    requires
        resolver.wf(),
        resolver.is_done(),
        resolver.follows(replies),
        0 <= k < resolver.list().len(),
        0 <= slot < 3,
        forall|earlier: int|
            0 <= earlier < slot ==> !is_tradable(
                replies(
                    resolver.list()[k].prefix@ + #[trigger] numeral(
                        (resolver.first_slot() + 900 * earlier) as nat,
                    ),
                ),
            ),
        is_tradable(
            replies(
                resolver.list()[k].prefix@ + numeral((resolver.first_slot() + 900 * slot) as nat),
            ),
        ),
    ensures
        find_pair(resolver.entries(), resolver.list()[k].symbol@) matches Some(pair)
            && pair.symbol@ == resolver.list()[k].symbol@ && pair.slug@ == resolver.list()[k].prefix@
            + numeral((resolver.first_slot() + 900 * slot) as nat),
{
    let series = resolver.list()[k];
    let start = resolver.first_slot();
    assert(series_is_settled(series, start, resolver.entries(), replies));
    assert(is_tradable(replies(attempt_slug(series, start, slot))));
    if find_pair(resolver.entries(), series.symbol@) is Some {
        let pair = find_pair(resolver.entries(), series.symbol@)->0;
        let attempt = choose|attempt: int| #[trigger]
            is_first_tradable(series, start, replies, attempt) && pair.is_of(
                series.symbol@,
                attempt_slug(series, start, attempt),
                replies(attempt_slug(series, start, attempt))->0,
            );
        if attempt < slot {
            assert(!is_tradable(
                replies(series.prefix@ + numeral((start + 900 * attempt) as nat)),
            ));
        }
        assert(attempt == slot);
    }
}

/// When a search that got the replies of a service is over, a series none of whose three slots has an
/// event whose first market takes orders and has two tokens has no market.
pub proof fn law_no_market(
    resolver: Resolver,
    replies: spec_fn(Seq<char>) -> Option<GammaEvent>,
    k: int,
)
    requires
        resolver.wf(),
        resolver.is_done(),
        resolver.follows(replies),
        0 <= k < resolver.list().len(),
        forall|slot: int|
            0 <= slot < 3 ==> !is_tradable(
                replies(
                    resolver.list()[k].prefix@ + #[trigger] numeral(
                        (resolver.first_slot() + 900 * slot) as nat,
                    ),
                ),
            ),
    ensures
        find_pair(resolver.entries(), resolver.list()[k].symbol@) is None,
{
    let series = resolver.list()[k];
    let start = resolver.first_slot();
    assert(series_is_settled(series, start, resolver.entries(), replies));
    if find_pair(resolver.entries(), series.symbol@) is Some {
        let pair = find_pair(resolver.entries(), series.symbol@)->0;
        let attempt = choose|attempt: int| #[trigger]
            is_first_tradable(series, start, replies, attempt) && pair.is_of(
                series.symbol@,
                attempt_slug(series, start, attempt),
                replies(attempt_slug(series, start, attempt))->0,
            );
        assert(!is_tradable(replies(series.prefix@ + numeral((start + 900 * attempt) as nat))));
    }
}

} // verus!
