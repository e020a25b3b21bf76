//! The model: the integration engine.
//!
//! A model owns the system state and the flow registry and advances the
//! state in fixed time steps by explicit (forward) Euler integration:
//! every flow's rate is read against the values at the start of the step,
//! the net derivatives are applied at once, each stock is clamped to its
//! bounds (minimum first, then maximum), time advances by the step, and
//! the post-step state is recorded. Evaluating all rates against the
//! pre-step snapshot makes the result independent of flow iteration order.

use vstd::prelude::*;
use crate::flow::{flow_idx_of, lemma_flow_idx_of, find_flow, spec_rate, Flow};
use crate::num::{sat_add, sat_sub, scale_mul, Num};
use crate::result::{rec_empty, rec_state, RecModel, SimulationResult};
use crate::state::{find_stock, idx_of, lemma_idx_of, SystemState};
use crate::stock::{Stock, StockArray};

verus! {

/// Steps left to take: how far `time` still is from `end`.
pub open spec fn run_measure(time: int, end: int) -> int {
    if time < end {
        end - time
    } else {
        0
    }
}

/// Fold the draining endpoint of `f` into the accumulator of stock `j`.
pub open spec fn apply_from(acc: int, f: Flow, stocks: Seq<Stock>, j: int) -> int {
    if f.from_stock matches Some(s) && idx_of(stocks, s@) == Some(j) {
        sat_sub(acc, spec_rate(f, stocks))
    } else {
        acc
    }
}

/// Fold the filling endpoint of `f` into the accumulator of stock `j`.
pub open spec fn apply_to(acc: int, f: Flow, stocks: Seq<Stock>, j: int) -> int {
    if f.to_stock matches Some(t) && idx_of(stocks, t@) == Some(j) {
        sat_add(acc, spec_rate(f, stocks))
    } else {
        acc
    }
}

/// Fold one flow into the accumulator of stock `j`: endpoints referencing
/// other stocks (or no stock) contribute nothing here, and a flow with
/// both endpoints on stock `j` subtracts and then adds the same rate, so
/// it nets to zero short of saturation.
pub open spec fn apply_flow(acc: int, f: Flow, stocks: Seq<Stock>, j: int) -> int {
    apply_to(apply_from(acc, f, stocks, j), f, stocks, j)
}

/// Net-derivative accumulator of stock `j` after the first `k` flows.
pub open spec fn deriv_upto(flows: Seq<Flow>, stocks: Seq<Stock>, j: int, k: int) -> int
    decreases k,
{
    if k <= 0 {
        0
    } else {
        apply_flow(deriv_upto(flows, stocks, j, k - 1), flows[k - 1], stocks, j)
    }
}

/// Net derivative of stock `j` over all flows, rates read against `stocks`.
pub open spec fn spec_deriv(flows: Seq<Flow>, stocks: Seq<Stock>, j: int) -> int {
    deriv_upto(flows, stocks, j, flows.len() as int)
}

/// The post-step value of stock `s` with net-derivative accumulator `d`:
/// the Euler update `value + d * dt`, then clamping — minimum first, then
/// maximum, so a pathological `min > max` resolves to the maximum.
pub open spec fn clamped_next(s: Stock, d: int, dt: int) -> int {
    let base = sat_add(s.current_value@, scale_mul(d, dt));
    let lo = match s.min_value {
        Some(m) => if base < m@ {
            m@
        } else {
            base
        },
        None => base,
    };
    match s.max_value {
        Some(m) => if lo > m@ {
            m@
        } else {
            lo
        },
        None => lo,
    }
}

/// All stocks after one synchronous Euler step of size `dt`.
pub open spec fn step_stocks(stocks: Seq<Stock>, flows: Seq<Flow>, dt: int) -> Seq<Stock> {
    Seq::new(
        stocks.len(),
        |j: int|
            Stock {
                current_value: Num { raw: clamped_next(stocks[j], spec_deriv(flows, stocks, j), dt) as i64 },
                ..stocks[j]
            },
    )
}

/// The outcome of running the engine: final stocks, final time, record.
pub ghost struct RunModel {
    pub stocks: Seq<Stock>,
    pub time: int,
    pub rec: RecModel,
}

/// Run the engine from `time` until it reaches `end`: step, advance time
/// (saturating), record, repeat. A non-positive step would never reach
/// `end`, so the run is defined as already finished in that case.
pub open spec fn spec_run(
    stocks: Seq<Stock>,
    flows: Seq<Flow>,
    dt: int,
    time: int,
    end: int,
    rec: RecModel,
) -> RunModel
    decreases run_measure(time, end),
{
    if !(time < end && 1 <= dt && time < i64::MAX) {
        RunModel { stocks, time, rec }
    } else {
        let stocks2 = step_stocks(stocks, flows, dt);
        let time2 = sat_add(time, dt);
        spec_run(stocks2, flows, dt, time2, end, rec_state(rec, Num { raw: time2 as i64 }, stocks2))
    }
}

/// `stocks` with `stock` inserted: replacing the first entry with the same
/// id, appended when the id is new.
pub open spec fn upsert_stock(stocks: Seq<Stock>, stock: Stock) -> Seq<Stock> {
    match idx_of(stocks, stock.id@) {
        Some(i) => stocks.update(i, stock),
        None => stocks.push(stock),
    }
}

/// `stocks` with every element of `more` inserted, in order.
pub open spec fn upsert_stocks(stocks: Seq<Stock>, more: Seq<Stock>) -> Seq<Stock>
    decreases more.len(),
{
    if more.len() == 0 {
        stocks
    } else {
        upsert_stocks(upsert_stock(stocks, more[0]), more.drop_first())
    }
}

/// `flows` with `flow` inserted: replacing the first entry with the same
/// id, appended when the id is new.
pub open spec fn upsert_flow(flows: Seq<Flow>, flow: Flow) -> Seq<Flow> {
    match flow_idx_of(flows, flow.id@) {
        Some(i) => flows.update(i, flow),
        None => flows.push(flow),
    }
}

/// Compute the net-derivative accumulator of every stock by folding the
/// flows in registry order, all rates read against the current state.
fn compute_derivs(state: &SystemState, flows: &Vec<Flow>) -> (r: Vec<i64>)
    ensures
        r@.len() == state.stocks@.len(),
        forall|j: int|
            0 <= j < state.stocks@.len() ==> (#[trigger] r@[j]) as int == spec_deriv(
                flows@,
                state.stocks@,
                j,
            ),
{
    let n = state.stocks.len();
    let mut derivs: Vec<i64> = vec![0i64; n];
    let m = flows.len();
    let mut k: usize = 0;
    while k < m
        invariant
            k <= m,
            m == flows@.len(),
            n == state.stocks@.len(),
            derivs@.len() == n,
            forall|j: int|
                0 <= j < n ==> (#[trigger] derivs@[j]) as int == deriv_upto(
                    flows@,
                    state.stocks@,
                    j,
                    k as int,
                ),
        decreases m - k,
    {
        let flow = &flows[k];
        let rate = flow.calculate_rate(state);
        let ghost prev = derivs@;
        if let Some(fs) = &flow.from_stock {
            match find_stock(&state.stocks, fs.as_str()) {
                Some(i) => {
                    proof {
                        lemma_idx_of(state.stocks@, fs@);
                    }
                    let d = (Num { raw: derivs[i] }).saturating_sub(rate);
                    derivs.set(i, d.raw);
                },
                None => {},
            }
        }
        proof {
            assert forall|j: int| 0 <= j < n implies (#[trigger] derivs@[j]) as int == apply_from(
                prev[j] as int,
                flows@[k as int],
                state.stocks@,
                j,
            ) by {}
        }
        let ghost mid = derivs@;
        if let Some(ts) = &flow.to_stock {
            match find_stock(&state.stocks, ts.as_str()) {
                Some(i) => {
                    proof {
                        lemma_idx_of(state.stocks@, ts@);
                    }
                    let d = (Num { raw: derivs[i] }).saturating_add(rate);
                    derivs.set(i, d.raw);
                },
                None => {},
            }
        }
        proof {
            assert forall|j: int| 0 <= j < n implies (#[trigger] derivs@[j]) as int == apply_to(
                mid[j] as int,
                flows@[k as int],
                state.stocks@,
                j,
            ) by {}
        }
        k = k + 1;
    }
    derivs
}

/// Commit one Euler step: give every stock its clamped post-step value.
fn apply_step(state: &mut SystemState, derivs: &Vec<i64>, dt: Num)
    requires
        derivs@.len() == old(state).stocks@.len(),
    ensures
        final(state).time == old(state).time,
        final(state).stocks@.len() == old(state).stocks@.len(),
        forall|j: int|
            0 <= j < old(state).stocks@.len() ==> (#[trigger] final(state).stocks@[j]) == (Stock {
                current_value: Num {
                    raw: clamped_next(old(state).stocks@[j], derivs@[j] as int, dt@) as i64,
                },
                ..old(state).stocks@[j]
            }),
{
    let n = state.stocks.len();
    let mut j: usize = 0;
    while j < n
        invariant
            j <= n,
            n == old(state).stocks@.len(),
            state.stocks@.len() == n,
            derivs@.len() == n,
            state.time == old(state).time,
            forall|i: int|
                0 <= i < j ==> (#[trigger] state.stocks@[i]) == (Stock {
                    current_value: Num {
                        raw: clamped_next(old(state).stocks@[i], derivs@[i] as int, dt@) as i64,
                    },
                    ..old(state).stocks@[i]
                }),
            forall|i: int| j <= i < n ==> (#[trigger] state.stocks@[i]) == old(state).stocks@[i],
        decreases n - j,
    {
        let d = Num { raw: derivs[j] };
        let stock = &state.stocks[j];
        let mut nv = stock.current_value.saturating_add(d.scaled_mul(dt));
        let minv = stock.min_value;
        let maxv = stock.max_value;
        if let Some(m) = minv {
            if nv.raw < m.raw {
                nv = m;
            }
        }
        if let Some(m) = maxv {
            if nv.raw > m.raw {
                nv = m;
            }
        }
        let s = &mut state.stocks[j];
        s.current_value = nv;
        j = j + 1;
    }
}

/// A model: a name, the system state, the flow registry, and the time
/// step. The model exclusively owns its state and registry.
#[derive(Debug)]
pub struct Model {
    pub name: String,
    pub state: SystemState,
    pub flows: Vec<Flow>,
    pub time_step: Num,
}

impl Model {
    /// An empty model at time zero, with the default time step of one
    /// tenth of a unit.
    pub fn new(name: &str) -> (r: Model)
        ensures
            r.name@ == name@,
            r.state.stocks@ =~= Seq::<Stock>::empty(),
            r.state.time@ == 0,
            r.flows@ =~= Seq::<Flow>::empty(),
            r.time_step@ == 100_000,
    {
        Model {
            name: name.to_owned(),
            state: SystemState::new(),
            flows: Vec::new(),
            time_step: Num { raw: 100_000 },
        }
    }

    /// Register a stock; a stock with the same id is silently replaced.
    pub fn add_stock(&mut self, stock: Stock)
        ensures
            final(self).state.stocks@ == upsert_stock(old(self).state.stocks@, stock),
            final(self).state.time == old(self).state.time,
            final(self).flows == old(self).flows,
            final(self).name == old(self).name,
            final(self).time_step == old(self).time_step,
    {
        proof {
            lemma_idx_of(self.state.stocks@, stock.id@);
        }
        match find_stock(&self.state.stocks, stock.id.as_str()) {
            Some(i) => {
                let s = &mut self.state.stocks[i];
                *s = stock;
                proof {
                    assert(self.state.stocks@ =~= upsert_stock(old(self).state.stocks@, stock));
                }
            },
            None => {
                self.state.stocks.push(stock);
            },
        }
    }

    /// Register every member stock of an expanded stock array, in index
    /// order; members whose ids already exist silently replace them.
    pub fn add_stock_array(&mut self, stock_array: StockArray)
        requires
            stock_array.wf(),
        ensures
            exists|es: Seq<Stock>|
                stock_array.is_expansion(es) && final(self).state.stocks@ == upsert_stocks(
                    old(self).state.stocks@,
                    es,
                ),
            final(self).state.time == old(self).state.time,
            final(self).flows == old(self).flows,
            final(self).name == old(self).name,
            final(self).time_step == old(self).time_step,
    {
        let mut expanded = stock_array.expand();
        let ghost es = expanded@;
        proof {
            assert(es.skip(0) =~= es);
        }
        let total: usize = expanded.len();
        let ghost n = es.len();
        let mut i: usize = 0;
        while expanded.len() > 0
            invariant
                i <= n,
                n == es.len(),
                n == total,
                expanded@ =~= es.skip(i as int),
                upsert_stocks(self.state.stocks@, es.skip(i as int)) == upsert_stocks(
                    old(self).state.stocks@,
                    es,
                ),
                self.state.time == old(self).state.time,
                self.flows == old(self).flows,
                self.name == old(self).name,
                self.time_step == old(self).time_step,
            decreases expanded@.len(),
        {
            let ghost rest = es.skip(i as int);
            let ghost pre = expanded@;
            let stock = expanded.remove(0);
            proof {
                assert(pre.len() == n - i);
                assert(pre[0] == es.skip(i as int)[0]);
                assert(es.skip(i as int)[0] == es[i as int]);
                assert(stock == es[i as int]);
                assert(expanded@ =~= pre.remove(0));
                assert(pre.remove(0) =~= es.skip(i as int + 1));
                assert(rest.drop_first() =~= es.skip(i as int + 1));
            }
            self.add_stock(stock);
            proof {
                assert(upsert_stocks(self.state.stocks@, es.skip(i as int + 1)) == upsert_stocks(
                    old(self).state.stocks@,
                    es,
                ));
            }
            i = i + 1;
        }
        proof {
            assert(es.skip(i as int) =~= Seq::<Stock>::empty());
            assert(stock_array.is_expansion(es));
        }
    }

    /// Register a flow; a flow with the same id is silently replaced.
    pub fn add_flow(&mut self, flow: Flow)
        ensures
            final(self).flows@ == upsert_flow(old(self).flows@, flow),
            final(self).state == old(self).state,
            final(self).name == old(self).name,
            final(self).time_step == old(self).time_step,
    {
        proof {
            lemma_flow_idx_of(self.flows@, flow.id@);
        }
        match find_flow(&self.flows, flow.id.as_str()) {
            Some(i) => {
                let f = &mut self.flows[i];
                *f = flow;
                proof {
                    assert(self.flows@ =~= upsert_flow(old(self).flows@, flow));
                }
            },
            None => {
                self.flows.push(flow);
            },
        }
    }

    /// Set the integration time step. The step must be positive: a
    /// non-positive step could never reach the end of a run.
    pub fn set_time_step(&mut self, dt: Num)
        requires
            dt@ >= 1,
        ensures
            final(self).time_step == dt,
            final(self).state == old(self).state,
            final(self).flows == old(self).flows,
            final(self).name == old(self).name,
    {
        self.time_step = dt;
    }

    /// Advance the model by `duration` from its current time, one Euler
    /// step at a time, and return the record of the run: the time and all
    /// stock values are recorded once before the first step and once after
    /// every step. The model keeps its final time and values, so repeated
    /// calls chain.
    pub fn simulate(&mut self, duration: Num) -> (res: SimulationResult)
        requires
            old(self).time_step@ >= 1,
        ensures
            ({
                let end = sat_add(old(self).state.time@, duration@);
                let rec0 = rec_state(rec_empty(), old(self).state.time, old(self).state.stocks@);
                let out = spec_run(
                    old(self).state.stocks@,
                    old(self).flows@,
                    old(self).time_step@,
                    old(self).state.time@,
                    end,
                    rec0,
                );
                &&& final(self).state.stocks@ == out.stocks
                &&& final(self).state.time@ == out.time
                &&& final(self).name == old(self).name
                &&& final(self).flows == old(self).flows
                &&& final(self).time_step == old(self).time_step
                &&& res@ == out.rec
            }),
    {
        let mut res = SimulationResult::new();
        let end: Num = self.state.time.saturating_add(duration);
        res.record_state(self.state.time, &self.state);
        proof {
            assert(res@ == rec_state(rec_empty(), old(self).state.time, old(self).state.stocks@));
        }
        let ghost out = spec_run(
            self.state.stocks@,
            self.flows@,
            self.time_step@,
            self.state.time@,
            end@,
            res@,
        );
        while self.state.time.raw < end.raw
            invariant
                self.time_step == old(self).time_step,
                self.time_step@ >= 1,
                self.flows == old(self).flows,
                self.name == old(self).name,
                end@ == sat_add(old(self).state.time@, duration@),
                spec_run(
                    self.state.stocks@,
                    self.flows@,
                    self.time_step@,
                    self.state.time@,
                    end@,
                    res@,
                ) == out,
                out == spec_run(
                    old(self).state.stocks@,
                    old(self).flows@,
                    old(self).time_step@,
                    old(self).state.time@,
                    end@,
                    rec_state(rec_empty(), old(self).state.time, old(self).state.stocks@),
                ),
            decreases run_measure(self.state.time@, end@),
        {
            let ghost stocks0 = self.state.stocks@;
            let ghost time0 = self.state.time@;
            let ghost rec_pre = res@;
            let derivs = compute_derivs(&self.state, &self.flows);
            apply_step(&mut self.state, &derivs, self.time_step);
            self.state.time = self.state.time.saturating_add(self.time_step);
            res.record_state(self.state.time, &self.state);
            proof {
                assert(self.state.stocks@ =~= step_stocks(stocks0, self.flows@, self.time_step@));
                assert(res@ == rec_state(rec_pre, self.state.time, self.state.stocks@));
                assert(spec_run(stocks0, self.flows@, self.time_step@, time0, end@, rec_pre)
                    == spec_run(
                    self.state.stocks@,
                    self.flows@,
                    self.time_step@,
                    self.state.time@,
                    end@,
                    res@,
                ));
                assert(self.state.time@ == sat_add(time0, self.time_step@));
                assert(self.state.time@ > time0);
            }
        }
        res
    }
}

} // verus!
