//! The simulation result: an append-only, time-indexed record of every
//! stock's value at every recorded time point.
//!
//! Each recording appends the time to `time_series` and, for every stock
//! present in the state, appends its current value to that stock's series
//! (creating the series on first occurrence).

use vstd::prelude::*;
use crate::num::Num;
use crate::state::SystemState;
use crate::stock::Stock;

verus! {

/// The mathematical content of one stock's recorded series.
pub ghost struct SeriesModel {
    pub id: Seq<char>,
    pub values: Seq<Num>,
}

/// The mathematical content of a whole result.
pub ghost struct RecModel {
    pub times: Seq<Num>,
    pub series: Seq<SeriesModel>,
}

/// The record before anything was recorded.
pub open spec fn rec_empty() -> RecModel {
    RecModel { times: Seq::empty(), series: Seq::empty() }
}

/// The index of the first series with id `key`, if any.
pub open spec fn series_idx_of(series: Seq<SeriesModel>, key: Seq<char>) -> Option<int>
    decreases series.len(),
{
    if series.len() == 0 {
        None
    } else if series[0].id == key {
        Some(0int)
    } else {
        match series_idx_of(series.drop_first(), key) {
            Some(i) => Some(i + 1),
            None => None,
        }
    }
}

/// What `series_idx_of` finds: a match, in bounds, with no earlier match.
pub proof fn lemma_series_idx_of(series: Seq<SeriesModel>, key: Seq<char>)
    ensures
        match series_idx_of(series, key) {
            Some(i) => {
                &&& 0 <= i < series.len()
                &&& series[i].id == key
                &&& forall|j: int| 0 <= j < i ==> (#[trigger] series[j]).id != key
            },
            None => forall|j: int| 0 <= j < series.len() ==> (#[trigger] series[j]).id != key,
        },
    decreases series.len(),
{
    if series.len() > 0 && series[0].id != key {
        let rest = series.drop_first();
        lemma_series_idx_of(rest, key);
        assert(forall|j: int| 0 <= j < rest.len() ==> rest[j] == series[j + 1]);
        match series_idx_of(rest, key) {
            Some(i) => {
                assert(forall|j: int|
                    1 <= j < i + 1 ==> (#[trigger] series[j]).id == rest[j - 1].id);
            },
            None => {
                assert(forall|j: int|
                    1 <= j < series.len() ==> (#[trigger] series[j]).id == rest[j - 1].id);
            },
        }
    }
}

/// A match at `p` with no earlier match is what `series_idx_of` returns.
pub proof fn lemma_series_idx_of_exact(series: Seq<SeriesModel>, key: Seq<char>, p: int)
    requires
        0 <= p < series.len(),
        series[p].id == key,
        forall|j: int| 0 <= j < p ==> (#[trigger] series[j]).id != key,
    ensures
        series_idx_of(series, key) == Some(p),
{
    lemma_series_idx_of(series, key);
    match series_idx_of(series, key) {
        Some(i) => {
            if i < p {
                assert(series[i].id != key);
                assert(false);
            }
            if i > p {
                assert(series[p].id != key);
                assert(false);
            }
        },
        None => {
            assert(series[p].id != key);
            assert(false);
        },
    }
}

/// With no match anywhere, `series_idx_of` finds nothing.
pub proof fn lemma_series_idx_of_none(series: Seq<SeriesModel>, key: Seq<char>)
    requires
        forall|j: int| 0 <= j < series.len() ==> (#[trigger] series[j]).id != key,
    ensures
        series_idx_of(series, key) is None,
{
    lemma_series_idx_of(series, key);
    match series_idx_of(series, key) {
        Some(i) => {
            assert(series[i].id != key);
            assert(false);
        },
        None => {},
    }
}

/// The current values, in registry order, of the stocks with id `key`.
pub open spec fn values_for(stocks: Seq<Stock>, key: Seq<char>) -> Seq<Num>
    decreases stocks.len(),
{
    if stocks.len() == 0 {
        Seq::empty()
    } else {
        let rest = values_for(stocks.drop_first(), key);
        if stocks[0].id@ == key {
            seq![stocks[0].current_value] + rest
        } else {
            rest
        }
    }
}

/// When no stock has id `key`, nothing is collected for it.
pub proof fn lemma_values_for_absent(stocks: Seq<Stock>, key: Seq<char>)
    requires
        forall|i: int| 0 <= i < stocks.len() ==> (#[trigger] stocks[i]).id@ != key,
    ensures
        values_for(stocks, key) =~= Seq::<Num>::empty(),
    decreases stocks.len(),
{
    if stocks.len() > 0 {
        let rest = stocks.drop_first();
        assert(forall|i: int| 0 <= i < rest.len() ==> rest[i] == stocks[i + 1]);
        lemma_values_for_absent(rest, key);
    }
}

/// When exactly the stock at index `j` has id `key`, its current value is
/// the one value collected for that key.
pub proof fn lemma_values_for_unique(stocks: Seq<Stock>, key: Seq<char>, j: int)
    requires
        0 <= j < stocks.len(),
        stocks[j].id@ == key,
        forall|i: int| 0 <= i < stocks.len() && i != j ==> (#[trigger] stocks[i]).id@ != key,
    ensures
        values_for(stocks, key) =~= seq![stocks[j].current_value],
    decreases stocks.len(),
{
    let rest = stocks.drop_first();
    assert(forall|i: int| 0 <= i < rest.len() ==> rest[i] == stocks[i + 1]);
    if j == 0 {
        lemma_values_for_absent(rest, key);
    } else {
        lemma_values_for_unique(rest, key, j - 1);
    }
}

/// A recording never disturbs an existing series except to append to it:
/// the series for `key` stays where it was, and gains exactly the values
/// of the stocks with id `key`, in registry order.
pub proof fn lemma_rec_stocks_at(
    series: Seq<SeriesModel>,
    stocks: Seq<Stock>,
    key: Seq<char>,
    p: int,
)
    requires
        series_idx_of(series, key) == Some(p),
    ensures
        ({
            let s2 = rec_stocks(series, stocks);
            &&& series_idx_of(s2, key) == Some(p)
            &&& s2.len() >= series.len()
            &&& 0 <= p < series.len()
            &&& s2[p].id == series[p].id
            &&& s2[p].values == series[p].values + values_for(stocks, key)
        }),
    decreases stocks.len(),
{
    lemma_series_idx_of(series, key);
    if stocks.len() == 0 {
        assert(series[p].values + values_for(stocks, key) =~= series[p].values);
    } else {
        let hk = stocks[0].id@;
        let v0 = stocks[0].current_value;
        let s1 = rec_one(series, hk, v0);
        lemma_series_idx_of(series, hk);
        if hk == key {
            assert(s1 == series.update(p, SeriesModel { id: series[p].id, values: series[p].values.push(v0) }));
            lemma_series_idx_of_exact(s1, key, p);
        } else {
            match series_idx_of(series, hk) {
                Some(q) => {
                    assert(series[q].id == hk);
                    assert(q != p);
                    lemma_series_idx_of_exact(s1, key, p);
                },
                None => {
                    lemma_series_idx_of_exact(s1, key, p);
                },
            }
        }
        lemma_rec_stocks_at(s1, stocks.drop_first(), key, p);
        let s2 = rec_stocks(series, stocks);
        if hk == key {
            assert(s1[p].values == series[p].values.push(v0));
            assert(values_for(stocks, key) == seq![v0] + values_for(stocks.drop_first(), key));
            assert(s2[p].values =~= series[p].values + values_for(stocks, key));
        } else {
            assert(s1[p].values == series[p].values);
            assert(values_for(stocks, key) == values_for(stocks.drop_first(), key));
        }
    }
}

/// Recording a state in which some stock has id `key`, while no series for
/// `key` exists yet, creates that series, holding exactly the values of
/// the stocks with id `key`, in registry order.
pub proof fn lemma_rec_stocks_fresh(series: Seq<SeriesModel>, stocks: Seq<Stock>, key: Seq<char>)
    -> (p: int)
    requires
        series_idx_of(series, key) is None,
        exists|i: int| 0 <= i < stocks.len() && (#[trigger] stocks[i]).id@ == key,
    ensures
        ({
            let s2 = rec_stocks(series, stocks);
            &&& series_idx_of(s2, key) == Some(p)
            &&& 0 <= p < s2.len()
            &&& s2[p].id == key
            &&& s2[p].values == values_for(stocks, key)
        }),
    decreases stocks.len(),
{
    lemma_series_idx_of(series, key);
    let hk = stocks[0].id@;
    let v0 = stocks[0].current_value;
    let s1 = rec_one(series, hk, v0);
    if hk == key {
        let q = series.len() as int;
        assert(s1 == series.push(SeriesModel { id: key, values: seq![v0] }));
        lemma_series_idx_of_exact(s1, key, q);
        lemma_rec_stocks_at(s1, stocks.drop_first(), key, q);
        let s2 = rec_stocks(series, stocks);
        assert(s2[q].values =~= seq![v0] + values_for(stocks.drop_first(), key));
        assert(values_for(stocks, key) == seq![v0] + values_for(stocks.drop_first(), key));
        q
    } else {
        lemma_series_idx_of(series, hk);
        match series_idx_of(series, hk) {
            Some(q) => {
                assert(forall|j: int| 0 <= j < s1.len() ==> (#[trigger] s1[j]).id == series[j].id);
                lemma_series_idx_of_none(s1, key);
            },
            None => {
                lemma_series_idx_of_none(s1, key);
            },
        }
        let i0 = choose|i: int| 0 <= i < stocks.len() && (#[trigger] stocks[i]).id@ == key;
        let rest = stocks.drop_first();
        assert(rest[i0 - 1].id@ == key);
        let p = lemma_rec_stocks_fresh(s1, rest, key);
        assert(values_for(stocks, key) == values_for(rest, key));
        p
    }
}

/// Append `v` to the series for `key`, creating the series when absent.
pub open spec fn rec_one(series: Seq<SeriesModel>, key: Seq<char>, v: Num) -> Seq<SeriesModel> {
    match series_idx_of(series, key) {
        Some(i) => series.update(
            i,
            SeriesModel { id: series[i].id, values: series[i].values.push(v) },
        ),
        None => series.push(SeriesModel { id: key, values: seq![v] }),
    }
}

/// Append the current value of every stock, in registry order.
pub open spec fn rec_stocks(series: Seq<SeriesModel>, stocks: Seq<Stock>) -> Seq<SeriesModel>
    decreases stocks.len(),
{
    if stocks.len() == 0 {
        series
    } else {
        rec_stocks(rec_one(series, stocks[0].id@, stocks[0].current_value), stocks.drop_first())
    }
}

/// One complete recording: the time, then every stock's value.
pub open spec fn rec_state(rec: RecModel, time: Num, stocks: Seq<Stock>) -> RecModel {
    RecModel { times: rec.times.push(time), series: rec_stocks(rec.series, stocks) }
}

/// One stock's recorded series: its id and the recorded values in order.
#[derive(Clone, Debug)]
pub struct Series {
    pub id: String,
    pub values: Vec<Num>,
}

impl View for Series {
    type V = SeriesModel;

    open spec fn view(&self) -> SeriesModel {
        SeriesModel { id: self.id@, values: self.values@ }
    }
}

/// The record of one simulation run: the recorded times, and one series
/// of values per stock id.
#[derive(Debug)]
pub struct SimulationResult {
    pub time_series: Vec<Num>,
    pub stock_values: Vec<Series>,
}

impl View for SimulationResult {
    type V = RecModel;

    open spec fn view(&self) -> RecModel {
        RecModel {
            times: self.time_series@,
            series: self.stock_values@.map_values(|s: Series| s@),
        }
    }
}

/// The index of the first recorded series whose id is `key`, if any.
fn find_series(series: &Vec<Series>, key: &str) -> (r: Option<usize>)
    ensures
        match r {
            Some(i) => series_idx_of(series@.map_values(|s: Series| s@), key@) == Some(i as int),
            None => series_idx_of(series@.map_values(|s: Series| s@), key@) is None,
        },
{
    let owned: String = key.to_owned();
    let n = series.len();
    let mut i: usize = 0;
    while i < n
        invariant
            i <= n,
            n == series@.len(),
            owned@ == key@,
            forall|j: int| 0 <= j < i ==> (#[trigger] series@[j]).id@ != key@,
        decreases n - i,
    {
        if series[i].id == owned {
            proof {
                let mapped = series@.map_values(|s: Series| s@);
                assert(forall|j: int|
                    0 <= j < mapped.len() ==> (#[trigger] mapped[j]).id == series@[j].id@);
                assert(mapped[i as int].id == key@);
                lemma_series_idx_of(mapped, key@);
            }
            return Some(i);
        }
        i = i + 1;
    }
    proof {
        let mapped = series@.map_values(|s: Series| s@);
        assert(forall|j: int|
            0 <= j < mapped.len() ==> (#[trigger] mapped[j]).id == series@[j].id@);
        lemma_series_idx_of(mapped, key@);
    }
    None
}

impl SimulationResult {
    /// A fresh, empty result.
    pub fn new() -> (r: SimulationResult)
        ensures
            r@.times =~= Seq::<Num>::empty(),
            r@.series =~= Seq::<SeriesModel>::empty(),
    {
        SimulationResult { time_series: Vec::new(), stock_values: Vec::new() }
    }

    /// Record `time` and the current value of every stock in `state`.
    pub fn record_state(&mut self, time: Num, state: &SystemState)
        ensures
            final(self)@.times == old(self)@.times.push(time),
            final(self)@.series == rec_stocks(old(self)@.series, state.stocks@),
    {
        self.time_series.push(time);
        let ghost times_now = self.time_series@;
        proof {
            assert(state.stocks@.skip(0) =~= state.stocks@);
        }
        let n = state.stocks.len();
        let mut k: usize = 0;
        while k < n
            invariant
                k <= n,
                n == state.stocks@.len(),
                self.time_series@ == times_now,
                rec_stocks(self@.series, state.stocks@.skip(k as int)) == rec_stocks(
                    old(self)@.series,
                    state.stocks@,
                ),
            decreases n - k,
        {
            let ghost pre = self@.series;
            let ghost rest = state.stocks@.skip(k as int);
            let stock = &state.stocks[k];
            let value = stock.current_value;
            match find_series(&self.stock_values, stock.id.as_str()) {
                Some(i) => {
                    proof {
                        lemma_series_idx_of(pre, stock.id@);
                        assert(forall|j: int|
                            0 <= j < pre.len() ==> pre[j] == (#[trigger] self.stock_values@[j])@);
                    }
                    let ghost sv_pre = self.stock_values@;
                    let s = &mut self.stock_values[i];
                    s.values.push(value);
                    proof {
                        assert(self.stock_values@ == sv_pre.update(i as int, self.stock_values@[i as int]));
                        let post = self@.series;
                        assert(post.len() == pre.len());
                        assert(forall|j: int|
                            0 <= j < pre.len() && j != i ==> post[j] == pre[j]);
                        assert(post[i as int].id == pre[i as int].id);
                        assert(post[i as int].values == pre[i as int].values.push(value));
                        assert(post =~~= rec_one(pre, stock.id@, value));
                    }
                },
                None => {
                    let ghost sv_pre = self.stock_values@;
                    let mut first: Vec<Num> = Vec::new();
                    first.push(value);
                    self.stock_values.push(Series { id: stock.id.clone(), values: first });
                    proof {
                        let post = self@.series;
                        assert(post.len() == pre.len() + 1);
                        assert(forall|j: int|
                            0 <= j < pre.len() ==> post[j] == (#[trigger] sv_pre[j])@);
                        assert(forall|j: int| 0 <= j < pre.len() ==> pre[j] == (#[trigger] sv_pre[j])@);
                        assert(post[pre.len() as int].id == stock.id@);
                        assert(post[pre.len() as int].values =~= seq![value]);
                        assert(post =~~= rec_one(pre, stock.id@, value));
                    }
                },
            }
            proof {
                assert(rest.drop_first() =~= state.stocks@.skip(k + 1));
                assert(rest[0] == state.stocks@[k as int]);
                assert(rec_stocks(pre, rest) == rec_stocks(
                    rec_one(pre, stock.id@, value),
                    rest.drop_first(),
                ));
            }
            k = k + 1;
        }
        proof {
            assert(state.stocks@.skip(n as int) =~= Seq::<Stock>::empty());
        }
    }

    /// The recorded series of values for `stock_id`, if that id was ever
    /// recorded. A pure read: the result is a function of the record alone.
    pub fn stock_series(&self, stock_id: &str) -> (r: Option<&Vec<Num>>)
        ensures
            match series_idx_of(self@.series, stock_id@) {
                Some(i) => r matches Some(v) && v@ == self@.series[i].values,
                None => r is None,
            },
    {
        proof {
            lemma_series_idx_of(self@.series, stock_id@);
        }
        match find_series(&self.stock_values, stock_id) {
            Some(i) => Some(&self.stock_values[i].values),
            None => None,
        }
    }

    /// Idempotent re-query: reading the same series twice from the same
    /// record yields identical values. Reads take `&self` and their results
    /// are functions of the record alone, which is what the proof rests on.
    pub fn stock_series_twice(&self, stock_id: &str) -> (pair: (
        Option<&Vec<Num>>,
        Option<&Vec<Num>>,
    ))
        ensures
            match pair {
                (Some(x), Some(y)) => x@ == y@,
                (None, None) => true,
                _ => false,
            },
    {
        (self.stock_series(stock_id), self.stock_series(stock_id))
    }

    /// The recorded times, in order. A pure read: the result is a function
    /// of the record alone.
    pub fn times(&self) -> (r: &Vec<Num>)
        ensures
            r@ == self@.times,
    {
        &self.time_series
    }
}

} // verus!
