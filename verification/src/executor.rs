//! One lock for each symbol.

use vstd::prelude::*;
use vstd::hash_map::StringHashMap;
use std::sync::Arc;
use crate::text::texts;

verus! {

/// The asynchronous lock of the `tokio` crate.
#[verifier::external_type_specification]
#[verifier::external_body]
#[verifier::reject_recursive_types(T)]
pub struct ExMutex<T: ?Sized>(tokio::sync::Mutex<T>);

/// Calls `tokio::sync::Mutex::new`. Of the lock nothing is claimed.
#[verifier::external_body]
fn new_lock() -> (result: tokio::sync::Mutex<()>) {
    tokio::sync::Mutex::new(())
}

/// What is held while an order for a symbol is made.
pub struct SymbolExecutor {
    lock: tokio::sync::Mutex<()>,
    id: Ghost<nat>,
}

impl SymbolExecutor {
    /// A number that tells the executors of a pool apart.
    pub closed spec fn id(self) -> nat {
        self.id@
    }

    /// An executor with a new lock.
    fn numbered(id: Ghost<nat>) -> (result: SymbolExecutor)
        ensures
            result.id() == id@,
    {
        SymbolExecutor { lock: new_lock(), id }
    }
}

impl Default for SymbolExecutor {
    fn default() -> (result: SymbolExecutor)
        ensures
            result.id() == 0,
    {
        SymbolExecutor::numbered(Ghost(0))
    }
}

/// The executors of some symbols.
pub struct ExecutorPool {
    inner: StringHashMap<Arc<SymbolExecutor>>,
}

impl Default for ExecutorPool {
    fn default() -> (result: ExecutorPool)
        ensures
            result.executors() == Map::<Seq<char>, Arc<SymbolExecutor>>::empty(),
    {
        ExecutorPool { inner: StringHashMap::new() }
    }
}

/// Whether no two symbols share an executor.
pub open spec fn none_shared(executors: Map<Seq<char>, Arc<SymbolExecutor>>) -> bool {
    forall|s: Seq<char>, t: Seq<char>|
        #[trigger] executors.contains_key(s) && #[trigger] executors.contains_key(t) && s != t
            ==> executors[s].id() != executors[t].id()
}

impl ExecutorPool {
    /// The executors by symbol.
    pub closed spec fn executors(self) -> Map<Seq<char>, Arc<SymbolExecutor>> {
        self.inner@
    }

    #[verifier::type_invariant]
    spec fn one_per_symbol(self) -> bool {
        none_shared(self.inner@)
    }

    /// A pool with an executor of its own for each of the symbols.
    pub fn new(symbols: &[String]) -> (result: ExecutorPool)
        ensures
            forall|symbol: Seq<char>| #[trigger]
                result.executors().contains_key(symbol) <==> texts(symbols@).contains(symbol),
            none_shared(result.executors()),
    {
        let mut inner: StringHashMap<Arc<SymbolExecutor>> = StringHashMap::new();
        let mut i: usize = 0;
        while i < symbols.len()
            invariant
                i <= symbols@.len(),
                forall|symbol: Seq<char>| #[trigger]
                    inner@.contains_key(symbol) <==> exists|j: int|
                        0 <= j < i && #[trigger] symbols@[j]@ == symbol,
                forall|symbol: Seq<char>| #[trigger]
                    inner@.contains_key(symbol) ==> inner@[symbol].id() < i,
                none_shared(inner@),
            decreases symbols@.len() - i,
        {
            let ghost before = inner@;
            inner.insert(symbols[i].clone(), Arc::new(SymbolExecutor::numbered(Ghost(i as nat))));
            proof {
                assert forall|symbol: Seq<char>| #[trigger]
                    inner@.contains_key(symbol) <==> exists|j: int|
                        0 <= j < i + 1 && #[trigger] symbols@[j]@ == symbol by {
                    assert(inner@.contains_key(symbol) <==> before.contains_key(symbol) || symbol
                        == symbols@[i as int]@);
                }
                assert forall|s: Seq<char>| #[trigger] inner@.contains_key(s) && s
                    != symbols@[i as int]@ implies before.contains_key(s) && inner@[s]
                    == before[s] by {}
            }
            i = i + 1;
        }
        proof {
            assert forall|symbol: Seq<char>| #[trigger]
                inner@.contains_key(symbol) <==> texts(symbols@).contains(symbol) by {
                if texts(symbols@).contains(symbol) {
                    let k = choose|k: int|
                        0 <= k < texts(symbols@).len() && texts(symbols@)[k] == symbol;
                    assert(symbols@[k]@ == symbol);
                }
                if inner@.contains_key(symbol) {
                    let k = choose|k: int| 0 <= k < i && #[trigger] symbols@[k]@ == symbol;
                    assert(texts(symbols@)[k] == symbol);
                }
            }
        }
        ExecutorPool { inner }
    }

    /// The executor of a symbol, which no other symbol has.
    pub fn get(&self, sym: &str) -> (result: Arc<SymbolExecutor>)
        requires
            self.executors().contains_key(sym@),
        ensures
            result == self.executors()[sym@],
            self.executors().contains_key(sym@),
            none_shared(self.executors()),
    {
        proof {
            use_type_invariant(self);
        }
        self.inner.get(sym).unwrap().clone()
    }
}

/// In a pool that shares no executor, two symbols have the same one only if they are the same.
pub proof fn law_executors_differ(pool: ExecutorPool, s: Seq<char>, t: Seq<char>)
    requires
        none_shared(pool.executors()),
        pool.executors().contains_key(s),
        pool.executors().contains_key(t),
    ensures
        pool.executors()[s].id() == pool.executors()[t].id() <==> s == t,
{
}

} // verus!
