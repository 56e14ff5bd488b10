//! The pairs that are traded, by symbol and by token.

use vstd::prelude::*;
use vstd::hash_map::StringHashMap;
use vstd::hash_set::StringHashSet;
use crate::market::MarketPair;
use crate::text::{same_text, texts};

verus! {

/// The pair of a symbol.
pub open spec fn find_pair(pairs: Seq<MarketPair>, symbol: Seq<char>) -> Option<MarketPair>
    decreases pairs.len(),
{
    if pairs.len() == 0 {
        None
    } else if pairs.last().symbol@ == symbol {
        Some(pairs.last())
    } else {
        find_pair(pairs.drop_last(), symbol)
    }
}

/// Whether no two pairs have the same symbol.
pub open spec fn symbols_differ(pairs: Seq<MarketPair>) -> bool {
    forall|i: int, j: int|
        0 <= i < j < pairs.len() ==> #[trigger] pairs[i].symbol@ != #[trigger] pairs[j].symbol@
}

/// Both tokens of each pair, in order.
pub open spec fn tokens_of(pairs: Seq<MarketPair>) -> Seq<Seq<char>>
    decreases pairs.len(),
{
    if pairs.len() == 0 {
        Seq::empty()
    } else {
        tokens_of(pairs.drop_last()).push(pairs.last().token_a@).push(pairs.last().token_b@)
    }
}

/// The symbol of each token. Of two pairs with the same token the later one counts.
pub open spec fn token_index(pairs: Seq<MarketPair>) -> Map<Seq<char>, Seq<char>>
    decreases pairs.len(),
{
    if pairs.len() == 0 {
        Map::empty()
    } else {
        token_index(pairs.drop_last()).insert(pairs.last().token_a@, pairs.last().symbol@).insert(
            pairs.last().token_b@,
            pairs.last().symbol@,
        )
    }
}

/// At most one pair for each symbol, in the order in which the symbols came.
pub struct PairTable {
    pairs: Vec<MarketPair>,
}

impl PairTable {
    /// The pairs.
    pub closed spec fn entries(self) -> Seq<MarketPair> {
        self.pairs@
    }

    #[verifier::type_invariant]
    spec fn one_per_symbol(self) -> bool {
        symbols_differ(self.pairs@)
    }

    /// A table without pairs.
    pub fn new() -> (result: PairTable)
        ensures
            result.entries() == Seq::<MarketPair>::empty(),
    {
        PairTable { pairs: Vec::new() }
    }

    /// The number of pairs.
    pub fn len(&self) -> (result: usize)
        ensures
            result == self.entries().len(),
            symbols_differ(self.entries()),
    {
        proof {
            use_type_invariant(self);
        }
        self.pairs.len()
    }

    /// The pair at a position.
    pub fn at(&self, i: usize) -> (result: &MarketPair)
        requires
            i < self.entries().len(),
        ensures
            *result == self.entries()[i as int],
    {
        &self.pairs[i]
    }

    /// The position of a symbol.
    fn position(&self, symbol: &str) -> (result: Option<usize>)
        ensures
            match result {
                Some(i) => i < self.pairs@.len() && self.pairs@[i as int].symbol@ == symbol@
                    && find_pair(self.pairs@, symbol@) == Some(self.pairs@[i as int]),
                None => find_pair(self.pairs@, symbol@) is None && forall|i: int|
                    0 <= i < self.pairs@.len() ==> #[trigger] self.pairs@[i].symbol@ != symbol@,
            },
    {
        let mut i: usize = self.pairs.len();
        proof {
            assert(self.pairs@.take(i as int) == self.pairs@);
        }
        while i > 0
            invariant
                i <= self.pairs@.len(),
                find_pair(self.pairs@, symbol@) == find_pair(self.pairs@.take(i as int), symbol@),
                forall|j: int| i <= j < self.pairs@.len() ==> #[trigger] self.pairs@[j].symbol@ != symbol@,
            decreases i,
        {
            i = i - 1;
            proof {
                assert(self.pairs@.take(i + 1).drop_last() == self.pairs@.take(i as int));
            }
            if same_text(self.pairs[i].symbol.as_str(), symbol) {
                return Some(i);
            }
        }
        None
    }

    /// The pair of a symbol.
    pub fn get(&self, symbol: &str) -> (result: Option<&MarketPair>)
        ensures
            match result {
                Some(pair) => find_pair(self.entries(), symbol@) == Some(*pair) && pair.symbol@
                    == symbol@,
                None => find_pair(self.entries(), symbol@) is None,
            },
    {
        match self.position(symbol) {
            Some(i) => Some(&self.pairs[i]),
            None => None,
        }
    }

    /// The table with one more pair, which replaces a pair with the same symbol.
    pub fn with(self, pair: MarketPair) -> (result: PairTable)
        ensures
            match find_pair(self.entries(), pair.symbol@) {
                Some(old_pair) => exists|i: int|
                    0 <= i < self.entries().len() && #[trigger] self.entries()[i] == old_pair
                        && result.entries() == self.entries().update(i, pair),
                None => result.entries() == self.entries().push(pair),
            },
            forall|symbol: Seq<char>| #[trigger]
                find_pair(result.entries(), symbol) == (if symbol == pair.symbol@ {
                    Some(pair)
                } else {
                    find_pair(self.entries(), symbol)
                }),
    {
        let ghost before = self.pairs@;
        proof {
            use_type_invariant(&self);
        }
        let position = self.position(pair.symbol.as_str());
        let mut pairs = self.pairs;
        match position {
            Some(i) => {
                proof {
                    lemma_find_after_update(before, i as int, pair);
                    assert(before[i as int] == find_pair(before, pair.symbol@)->0);
                }
                pairs.set(i, pair);
            },
            None => {
                proof {
                    lemma_find_after_push(before, pair);
                }
                pairs.push(pair);
            },
        }
        PairTable { pairs }
    }

    /// Both tokens of each pair.
    pub fn token_ids(&self) -> (result: Vec<String>)
        ensures
            texts(result@) == tokens_of(self.entries()),
    {
        let mut result: Vec<String> = Vec::new();
        let mut i: usize = 0;
        while i < self.pairs.len()
            invariant
                i <= self.pairs@.len(),
                texts(result@) == tokens_of(self.pairs@.take(i as int)),
            decreases self.pairs@.len() - i,
        {
            let a = self.pairs[i].token_a.clone();
            let b = self.pairs[i].token_b.clone();
            proof {
                assert(self.pairs@.take(i + 1).drop_last() == self.pairs@.take(i as int));
                assert(texts(result@.push(a).push(b)) == texts(result@).push(a@).push(b@));
            }
            result.push(a);
            result.push(b);
            i = i + 1;
        }
        proof {
            assert(self.pairs@.take(i as int) == self.pairs@);
        }
        result
    }
}

/// A pair that goes to the end is found under its symbol, and hides no other.
proof fn lemma_find_after_push(pairs: Seq<MarketPair>, pair: MarketPair)
    ensures
        forall|symbol: Seq<char>| #[trigger]
            find_pair(pairs.push(pair), symbol) == (if symbol == pair.symbol@ {
                Some(pair)
            } else {
                find_pair(pairs, symbol)
            }),
{
    assert(pairs.push(pair).drop_last() == pairs);
}

/// A pair that takes the place of one with the same symbol is found instead of it.
proof fn lemma_find_after_update(pairs: Seq<MarketPair>, i: int, pair: MarketPair)
    requires
        symbols_differ(pairs),
        0 <= i < pairs.len(),
        pairs[i].symbol@ == pair.symbol@,
    ensures
        forall|symbol: Seq<char>| #[trigger]
            find_pair(pairs.update(i, pair), symbol) == (if symbol == pair.symbol@ {
                Some(pair)
            } else {
                find_pair(pairs, symbol)
            }),
    decreases pairs.len(),
{
    let after = pairs.update(i, pair);
    if i == pairs.len() - 1 {
        assert(after.drop_last() == pairs.drop_last());
    } else {
        lemma_find_after_update(pairs.drop_last(), i, pair);
        assert(after.drop_last() == pairs.drop_last().update(i, pair));
        assert(after.last() == pairs.last());
        assert forall|symbol: Seq<char>| #[trigger]
            find_pair(after, symbol) == (if symbol == pair.symbol@ {
                Some(pair)
            } else {
                find_pair(pairs, symbol)
            }) by {
            assert(pairs[i].symbol@ != pairs[pairs.len() - 1].symbol@);
            assert(find_pair(pairs.drop_last().update(i, pair), symbol) == (if symbol
                == pair.symbol@ {
                Some(pair)
            } else {
                find_pair(pairs.drop_last(), symbol)
            }));
        }
    }
}

/// The symbols of a map from token to symbol.
pub open spec fn symbol_texts(map: Map<Seq<char>, String>) -> Map<Seq<char>, Seq<char>> {
    map.map_values(|symbol: String| symbol@)
}

/// The pairs that are traded, with the symbol of each token.
pub struct Markets {
    pairs: PairTable,
    symbol_by_token: StringHashMap<String>,
}

impl Markets {
    /// The pairs.
    pub closed spec fn entries(self) -> Seq<MarketPair> {
        self.pairs.entries()
    }

    #[verifier::type_invariant]
    spec fn indexed(self) -> bool {
        symbol_texts(self.symbol_by_token@) == token_index(self.pairs.entries())
    }

    /// Markets with the given pairs.
    pub fn new(pairs: PairTable) -> (result: Markets)
        ensures
            result.entries() == pairs.entries(),
    {
        let mut symbol_by_token: StringHashMap<String> = StringHashMap::new();
        let mut i: usize = 0;
        proof {
            assert(symbol_texts(symbol_by_token@) == Map::<Seq<char>, Seq<char>>::empty());
            assert(pairs.entries().take(0) == Seq::<MarketPair>::empty());
        }
        while i < pairs.len()
            invariant
                i <= pairs.entries().len(),
                symbol_texts(symbol_by_token@) == token_index(pairs.entries().take(i as int)),
            decreases pairs.entries().len() - i,
        {
            let pair = pairs.at(i);
            let ghost before = symbol_by_token@;
            proof {
                assert(pairs.entries().take(i + 1).drop_last() == pairs.entries().take(i as int));
            }
            symbol_by_token.insert(pair.token_a.clone(), pair.symbol.clone());
            symbol_by_token.insert(pair.token_b.clone(), pair.symbol.clone());
            proof {
                assert(symbol_texts(symbol_by_token@) == symbol_texts(before).insert(
                    pair.token_a@,
                    pair.symbol@,
                ).insert(pair.token_b@, pair.symbol@));
            }
            i = i + 1;
        }
        proof {
            assert(pairs.entries().take(i as int) == pairs.entries());
        }
        Markets { pairs, symbol_by_token }
    }

    /// The pair of a symbol.
    pub fn pair(&self, symbol: &str) -> (result: Option<&MarketPair>)
        ensures
            match result {
                Some(pair) => find_pair(self.entries(), symbol@) == Some(*pair) && pair.symbol@
                    == symbol@,
                None => find_pair(self.entries(), symbol@) is None,
            },
    {
        self.pairs.get(symbol)
    }

    /// The symbol of a token.
    pub fn symbol_of(&self, token: &str) -> (result: Option<String>)
        ensures
            match result {
                Some(symbol) => token_index(self.entries()).contains_key(token@) && token_index(
                    self.entries(),
                )[token@] == symbol@,
                None => !token_index(self.entries()).contains_key(token@),
            },
    {
        proof {
            use_type_invariant(self);
            assert(symbol_texts(self.symbol_by_token@).contains_key(token@)
                == self.symbol_by_token@.contains_key(token@));
        }
        match self.symbol_by_token.get(token) {
            Some(symbol) => Some(symbol.clone()),
            None => None,
        }
    }

    /// Both tokens of each pair.
    pub fn token_ids(&self) -> (result: Vec<String>)
        ensures
            texts(result@) == tokens_of(self.entries()),
    {
        self.pairs.token_ids()
    }

    /// The number of pairs.
    pub fn len(&self) -> (result: usize)
        ensures
            result == self.entries().len(),
            symbols_differ(self.entries()),
    {
        self.pairs.len()
    }

    /// The pair at a position.
    pub fn at(&self, i: usize) -> (result: &MarketPair)
        requires
            i < self.entries().len(),
        ensures
            *result == self.entries()[i as int],
    {
        self.pairs.at(i)
    }
}

/// Whether a pair has a token.
pub open spec fn has_token(pair: MarketPair, token: Seq<char>) -> bool {
    pair.token_a@ == token || pair.token_b@ == token
}

/// The tokens that have a symbol are those of the pairs, and the symbol of a token is that of a
/// pair that has it.
pub proof fn law_token_index(pairs: Seq<MarketPair>, token: Seq<char>)
    ensures
        token_index(pairs).contains_key(token) <==> tokens_of(pairs).contains(token),
        token_index(pairs).contains_key(token) <==> exists|i: int|
            0 <= i < pairs.len() && has_token(#[trigger] pairs[i], token),
        token_index(pairs).contains_key(token) ==> exists|i: int|
            0 <= i < pairs.len() && has_token(#[trigger] pairs[i], token) && pairs[i].symbol@
                == token_index(pairs)[token],
    decreases pairs.len(),
{
    if pairs.len() > 0 {
        let before = pairs.drop_last();
        let last = pairs.last();
        law_token_index(before, token);
        let tokens = tokens_of(before);
        let more = tokens.push(last.token_a@).push(last.token_b@);
        assert(more[tokens.len() as int] == last.token_a@);
        assert(more[tokens.len() as int + 1] == last.token_b@);
        if tokens.contains(token) {
            let k = choose|k: int| 0 <= k < tokens.len() && tokens[k] == token;
            assert(more[k] == token);
        }
        if more.contains(token) {
            let k = choose|k: int| 0 <= k < more.len() && more[k] == token;
            if k < tokens.len() {
                assert(tokens[k] == token);
            }
        }
        if has_token(last, token) {
            assert(has_token(pairs[pairs.len() - 1], token));
        } else if token_index(before).contains_key(token) {
            let k = choose|k: int|
                0 <= k < before.len() && has_token(#[trigger] before[k], token) && before[k].symbol@
                    == token_index(before)[token];
            assert(has_token(pairs[k], token) && pairs[k].symbol@ == token_index(pairs)[token]);
        }
        assert forall|k: int| 0 <= k < pairs.len() && has_token(#[trigger] pairs[k], token) implies
            token_index(pairs).contains_key(token) by {
            if k < before.len() {
                assert(has_token(before[k], token));
            }
        }
    }
}

/// The pair of a symbol is one of the pairs, and every pair of a table is the pair of its symbol.
pub proof fn law_find_pair(pairs: Seq<MarketPair>, symbol: Seq<char>)
    requires
        symbols_differ(pairs),
    ensures
        find_pair(pairs, symbol) matches Some(pair) ==> pairs.contains(pair) && pair.symbol@
            == symbol,
        forall|i: int|
            0 <= i < pairs.len() && (#[trigger] pairs[i]).symbol@ == symbol ==> find_pair(
                pairs,
                symbol,
            ) == Some(pairs[i]),
    decreases pairs.len(),
{
    if pairs.len() > 0 {
        let before = pairs.drop_last();
        law_find_pair(before, symbol);
        assert(pairs[pairs.len() - 1] == pairs.last());
        if pairs.last().symbol@ != symbol && find_pair(before, symbol) is Some {
            let pair = find_pair(before, symbol)->0;
            let k = choose|k: int| 0 <= k < before.len() && before[k] == pair;
            assert(pairs[k] == pair);
        }
        assert forall|i: int| 0 <= i < pairs.len() && (#[trigger] pairs[i]).symbol@ == symbol implies
            find_pair(pairs, symbol) == Some(pairs[i]) by {
            if i < before.len() {
                assert(before[i] == pairs[i]);
                assert(pairs[i].symbol@ != pairs[pairs.len() - 1].symbol@);
            }
        }
    }
}

/// The texts of a list that are not in another, each once.
pub fn only_in(list: &Vec<String>, other: &Vec<String>) -> (result: Vec<String>)
    ensures
        texts(result@).no_duplicates(),
        forall|text: Seq<char>| #[trigger]
            texts(result@).contains(text) <==> texts(list@).contains(text) && !texts(
                other@,
            ).contains(text),
{
    let mut skipped = StringHashSet::new();
    let mut i: usize = 0;
    while i < other.len()
        invariant
            i <= other@.len(),
            forall|text: Seq<char>| #[trigger]
                skipped@.contains(text) <==> texts(other@.take(i as int)).contains(text),
        decreases other@.len() - i,
    {
        let ghost before = texts(other@.take(i as int));
        proof {
            assert(texts(other@.take(i + 1)) == before.push(other@[i as int]@));
            lemma_contains_after_push(before, other@[i as int]@);
        }
        skipped.insert(other[i].clone());
        i = i + 1;
    }
    proof {
        assert(other@.take(i as int) == other@);
    }
    let mut result: Vec<String> = Vec::new();
    i = 0;
    proof {
        assert(texts(list@.take(0)) == Seq::<Seq<char>>::empty());
        assert(texts(result@) == Seq::<Seq<char>>::empty());
    }
    while i < list.len()
        invariant
            i <= list@.len(),
            texts(result@).no_duplicates(),
            forall|text: Seq<char>| #[trigger]
                skipped@.contains(text) <==> texts(other@).contains(text) || texts(
                    list@.take(i as int),
                ).contains(text),
            forall|text: Seq<char>| #[trigger]
                texts(result@).contains(text) <==> texts(list@.take(i as int)).contains(text)
                    && !texts(other@).contains(text),
        decreases list@.len() - i,
    {
        let text = list[i].clone();
        let ghost before = texts(list@.take(i as int));
        proof {
            assert(texts(list@.take(i + 1)) == before.push(text@));
            lemma_contains_after_push(before, text@);
            lemma_contains_after_push(texts(result@), text@);
            assert(texts(result@.push(text)) == texts(result@).push(text@));
        }
        if !skipped.contains(text.as_str()) {
            skipped.insert(text.clone());
            proof {
                assert(!texts(result@).contains(text@));
            }
            result.push(text);
        }
        i = i + 1;
    }
    proof {
        assert(list@.take(i as int) == list@);
    }
    result
}

/// What a sequence holds after one more item.
proof fn lemma_contains_after_push(before: Seq<Seq<char>>, item: Seq<char>)
    ensures
        forall|text: Seq<char>| #[trigger]
            before.push(item).contains(text) <==> before.contains(text) || text == item,
{
    let after = before.push(item);
    assert(after[before.len() as int] == item);
    assert forall|text: Seq<char>| #[trigger]
        after.contains(text) <==> before.contains(text) || text == item by {
        if before.contains(text) {
            let k = choose|k: int| 0 <= k < before.len() && before[k] == text;
            assert(after[k] == text);
        }
        if after.contains(text) && text != item {
            let k = choose|k: int| 0 <= k < after.len() && after[k] == text;
            assert(before[k] == text);
        }
    }
}

/// The symbol of a token has a pair, and so is never looked up in vain.
pub proof fn law_symbol_has_pair(pairs: Seq<MarketPair>, token: Seq<char>)
    requires
        symbols_differ(pairs),
        token_index(pairs).contains_key(token),
    ensures
        find_pair(pairs, token_index(pairs)[token]) matches Some(pair) && has_token(pair, token),
{
    law_token_index(pairs, token);
    law_find_pair(pairs, token_index(pairs)[token]);
}

/// The tokens are both tokens of each pair, in the order of the pairs.
pub proof fn law_tokens_of(pairs: Seq<MarketPair>, i: int)
    requires
        0 <= i < pairs.len(),
    ensures
        tokens_of(pairs).len() == 2 * pairs.len(),
        tokens_of(pairs)[2 * i] == pairs[i].token_a@,
        tokens_of(pairs)[2 * i + 1] == pairs[i].token_b@,
    decreases pairs.len(),
{
    let before = pairs.drop_last();
    lemma_tokens_len(pairs);
    lemma_tokens_len(before);
    if i < before.len() {
        law_tokens_of(before, i);
        assert(before[i] == pairs[i]);
    }
}

/// There are two tokens for each pair.
proof fn lemma_tokens_len(pairs: Seq<MarketPair>)
    ensures
        tokens_of(pairs).len() == 2 * pairs.len(),
    decreases pairs.len(),
{
    if pairs.len() > 0 {
        lemma_tokens_len(pairs.drop_last());
    }
}

/// A token that only one pair has leads to the symbol of that pair, and one that none has to none.
pub proof fn law_symbol_of_token(pairs: Seq<MarketPair>, i: int, token: Seq<char>)
    requires
        0 <= i < pairs.len(),
        pairs[i].token_a@ == token || pairs[i].token_b@ == token,
        forall|j: int|
            0 <= j < pairs.len() && j != i ==> (#[trigger] pairs[j]).token_a@ != token
                && pairs[j].token_b@ != token,
    ensures
        token_index(pairs).contains_key(token),
        token_index(pairs)[token] == pairs[i].symbol@,
{
    law_token_index(pairs, token);
    assert(has_token(pairs[i], token));
}

/// Without a pair for a symbol none is found, and a pair that is found has the symbol.
pub proof fn law_no_pair(pairs: Seq<MarketPair>, symbol: Seq<char>)
    ensures
        (forall|i: int| 0 <= i < pairs.len() ==> (#[trigger] pairs[i]).symbol@ != symbol)
            <==> find_pair(pairs, symbol) is None,
        find_pair(pairs, symbol) matches Some(pair) ==> pair.symbol@ == symbol && pairs.contains(
            pair,
        ),
    decreases pairs.len(),
{
    if pairs.len() > 0 {
        let before = pairs.drop_last();
        law_no_pair(before, symbol);
        assert(pairs.last() == pairs[pairs.len() - 1]);
        if find_pair(before, symbol) is Some {
            let pair = find_pair(before, symbol)->0;
            let k = choose|k: int| 0 <= k < before.len() && before[k] == pair;
            assert(pairs[k] == pair);
        }
        if pairs.last().symbol@ != symbol && find_pair(before, symbol) is None {
            assert forall|i: int| 0 <= i < pairs.len() implies (#[trigger] pairs[i]).symbol@
                != symbol by {
                if i < before.len() {
                    assert(before[i] == pairs[i]);
                }
            }
        }
    }
}

} // verus!
