//! The system state: the current stocks plus the simulation time.
//!
//! Stocks are kept in a vector and addressed by id. Lookups resolve to the
//! first stock with a matching id; the model's registry keeps ids unique,
//! so the first match is the only match in any state built through it.

use vstd::prelude::*;
use crate::num::Num;
use crate::stock::Stock;

verus! {

/// The index of the first stock with id `key`, if any.
pub open spec fn idx_of(stocks: Seq<Stock>, key: Seq<char>) -> Option<int>
    decreases stocks.len(),
{
    if stocks.len() == 0 {
        None
    } else if stocks[0].id@ == key {
        Some(0int)
    } else {
        match idx_of(stocks.drop_first(), key) {
            Some(i) => Some(i + 1),
            None => None,
        }
    }
}

/// The current value of the first stock with id `key`, if any.
pub open spec fn value_of(stocks: Seq<Stock>, key: Seq<char>) -> Option<Num> {
    match idx_of(stocks, key) {
        Some(i) => Some(stocks[i].current_value),
        None => None,
    }
}

/// `stocks` with the current value of the first stock with id `key`
/// replaced by `v`; unchanged when no stock has that id.
pub open spec fn with_value(stocks: Seq<Stock>, key: Seq<char>, v: Num) -> Seq<Stock> {
    match idx_of(stocks, key) {
        Some(i) => stocks.update(i, Stock { current_value: v, ..stocks[i] }),
        None => stocks,
    }
}

/// What `idx_of` finds: a match, in bounds, with no earlier match.
pub proof fn lemma_idx_of(stocks: Seq<Stock>, key: Seq<char>)
    ensures
        match idx_of(stocks, key) {
            Some(i) => {
                &&& 0 <= i < stocks.len()
                &&& stocks[i].id@ == key
                &&& forall|j: int| 0 <= j < i ==> (#[trigger] stocks[j]).id@ != key
            },
            None => forall|j: int|
                0 <= j < stocks.len() ==> (#[trigger] stocks[j]).id@ != key,
        },
    decreases stocks.len(),
{
    if stocks.len() > 0 && stocks[0].id@ != key {
        let rest = stocks.drop_first();
        lemma_idx_of(rest, key);
        assert(forall|j: int| 0 <= j < rest.len() ==> rest[j] == stocks[j + 1]);
        match idx_of(rest, key) {
            Some(i) => {
                assert(forall|j: int|
                    1 <= j < i + 1 ==> (#[trigger] stocks[j]).id@ == rest[j - 1].id@);
            },
            None => {
                assert(forall|j: int|
                    1 <= j < stocks.len() ==> (#[trigger] stocks[j]).id@ == rest[j - 1].id@);
            },
        }
    }
}

/// The complete set of current stock values plus the simulation time.
#[derive(Clone, Debug)]
pub struct SystemState {
    /// The stocks, addressed by their ids.
    pub stocks: Vec<Stock>,
    /// Current simulation time.
    pub time: Num,
}

/// The index of the first stock in `stocks` whose id is `key`, if any.
pub(crate) fn find_stock(stocks: &Vec<Stock>, key: &str) -> (r: Option<usize>)
    ensures
        match r {
            Some(i) => idx_of(stocks@, key@) == Some(i as int),
            None => idx_of(stocks@, key@) is None,
        },
{
    let owned: String = key.to_owned();
    let n = stocks.len();
    let mut i: usize = 0;
    while i < n
        invariant
            i <= n,
            n == stocks@.len(),
            owned@ == key@,
            forall|j: int| 0 <= j < i ==> (#[trigger] stocks@[j]).id@ != key@,
        decreases n - i,
    {
        if stocks[i].id == owned {
            proof {
                lemma_idx_of(stocks@, key@);
            }
            return Some(i);
        }
        i = i + 1;
    }
    proof {
        lemma_idx_of(stocks@, key@);
    }
    None
}

impl SystemState {
    /// An empty state at time zero.
    pub fn new() -> (r: SystemState)
        ensures
            r.stocks@ =~= Seq::<Stock>::empty(),
            r.time@ == 0,
    {
        SystemState { stocks: Vec::new(), time: Num { raw: 0 } }
    }

    /// The ids of all stocks, in registry order.
    pub fn get_stock_names<'a>(&'a self) -> (r: Vec<&'a str>)
        ensures
            r@.len() == self.stocks@.len(),
            forall|i: int|
                0 <= i < r@.len() ==> (#[trigger] r@[i])@ == self.stocks@[i].id@,
    {
        let mut names: Vec<&str> = Vec::new();
        let n = self.stocks.len();
        let mut i: usize = 0;
        while i < n
            invariant
                i <= n,
                n == self.stocks@.len(),
                names@.len() == i,
                forall|j: int|
                    0 <= j < i ==> (#[trigger] names@[j])@ == self.stocks@[j].id@,
            decreases n - i,
        {
            names.push(self.stocks[i].id.as_str());
            i = i + 1;
        }
        names
    }

    /// The current value of the stock with id `stock_id`; `None` when no
    /// stock has that id (callers distinguish this from a real zero).
    pub fn get_stock_value(&self, stock_id: &str) -> (r: Option<Num>)
        ensures
            r == value_of(self.stocks@, stock_id@),
    {
        proof {
            lemma_idx_of(self.stocks@, stock_id@);
        }
        match find_stock(&self.stocks, stock_id) {
            Some(i) => Some(self.stocks[i].current_value),
            None => None,
        }
    }

    /// Set the current value of the stock with id `stock_id`; setting an
    /// unknown id is a silent no-op.
    pub fn set_stock_value(&mut self, stock_id: &str, value: Num)
        ensures
            final(self).stocks@ == with_value(old(self).stocks@, stock_id@, value),
            final(self).time == old(self).time,
    {
        proof {
            lemma_idx_of(self.stocks@, stock_id@);
        }
        match find_stock(&self.stocks, stock_id) {
            Some(i) => {
                let s = &mut self.stocks[i];
                s.current_value = value;
                proof {
                    assert(self.stocks@ =~= with_value(old(self).stocks@, stock_id@, value));
                }
            },
            None => {},
        }
    }
}

} // verus!
