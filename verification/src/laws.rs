//! Engine-wide laws, proved once and for all runs.
//!
//! These relate the integration engine ([`spec_run`]) to what a run
//! records: conservation under explicit Euler for constant flows, bound
//! clamping of every recorded value, the missing-input default of linear
//! rates, and the alignment of each stock's series with the time series.

use vstd::prelude::*;
use crate::flow::{spec_rate, Flow, FlowFunction};
use crate::model::{apply_flow, clamped_next, deriv_upto, run_measure, spec_deriv, spec_run, step_stocks};
use crate::num::{fits_i64, quot_trunc, sat_add, Num, SCALE};
use crate::result::{
    lemma_rec_stocks_at, lemma_rec_stocks_fresh, lemma_values_for_unique, rec_empty, rec_state,
    series_idx_of, RecModel,
};
use crate::state::idx_of;
use crate::stock::Stock;

verus! {

/// How one run treats one stock and its recorded series: the stock keeps
/// its place, id and bounds; its series stays at position `p` and gains
/// exactly one value per recording; and when both bounds are set in order,
/// the stock's value and every value the run appends stay within them.
pub proof fn lemma_run_tracks_stock(
    stocks: Seq<Stock>,
    flows: Seq<Flow>,
    dt: int,
    time: int,
    end: int,
    rec: RecModel,
    key: Seq<char>,
    p: int,
    j: int,
)
    requires
        0 <= j < stocks.len(),
        stocks[j].id@ == key,
        forall|i: int| 0 <= i < stocks.len() && i != j ==> (#[trigger] stocks[i]).id@ != key,
        series_idx_of(rec.series, key) == Some(p),
        0 <= p < rec.series.len(),
    ensures
        ({
            let out = spec_run(stocks, flows, dt, time, end, rec);
            &&& out.stocks.len() == stocks.len()
            &&& out.stocks[j].id@ == key
            &&& out.stocks[j].min_value == stocks[j].min_value
            &&& out.stocks[j].max_value == stocks[j].max_value
            &&& series_idx_of(out.rec.series, key) == Some(p)
            &&& 0 <= p < out.rec.series.len()
            &&& out.rec.series[p].id == rec.series[p].id
            &&& out.rec.times.len() >= rec.times.len()
            &&& out.rec.series[p].values.len() >= rec.series[p].values.len()
            &&& out.rec.series[p].values.len() - rec.series[p].values.len() == out.rec.times.len()
                - rec.times.len()
            &&& forall|q: int|
                0 <= q < rec.series[p].values.len() ==> (#[trigger] out.rec.series[p].values[q])
                    == rec.series[p].values[q]
            &&& ((stocks[j].min_value matches Some(lo) && stocks[j].max_value matches Some(hi)
                && lo@ <= hi@ && lo@ <= stocks[j].current_value@ <= hi@) ==> {
                &&& stocks[j].min_value matches Some(lo2) ==> lo2@ <= out.stocks[j].current_value@
                &&& stocks[j].max_value matches Some(hi2) ==> out.stocks[j].current_value@ <= hi2@
                &&& forall|q: int|
                    rec.series[p].values.len() <= q < out.rec.series[p].values.len() ==> (
                    stocks[j].min_value matches Some(lo3) && stocks[j].max_value matches Some(hi3)
                        && lo3@ <= (#[trigger] out.rec.series[p].values[q])@ <= hi3@)
            })
        }),
    decreases run_measure(time, end),
{
    crate::result::lemma_series_idx_of(rec.series, key);
    if !(time < end && 1 <= dt && time < i64::MAX) {
    } else {
        let stepped = step_stocks(stocks, flows, dt);
        let time2 = sat_add(time, dt);
        let rec2 = rec_state(rec, Num { raw: time2 as i64 }, stepped);
        assert(stepped.len() == stocks.len());
        assert(stepped[j].id@ == key);
        assert(forall|i: int|
            0 <= i < stepped.len() && i != j ==> (#[trigger] stepped[i]).id@ != key);
        lemma_rec_stocks_at(rec.series, stepped, key, p);
        lemma_values_for_unique(stepped, key, j);
        assert(rec2.series[p].values =~= rec.series[p].values.push(stepped[j].current_value));
        lemma_run_tracks_stock(stepped, flows, dt, time2, end, rec2, key, p, j);
        let out = spec_run(stocks, flows, dt, time, end, rec);
        assert(out == spec_run(stepped, flows, dt, time2, end, rec2));
        match (stocks[j].min_value, stocks[j].max_value) {
            (Some(lo), Some(hi)) => {
                if lo@ <= hi@ && lo@ <= stocks[j].current_value@ <= hi@ {
                    assert(lo@ <= stepped[j].current_value@ <= hi@);
                    assert(forall|q: int|
                        rec.series[p].values.len() <= q < out.rec.series[p].values.len() ==> lo@
                            <= (#[trigger] out.rec.series[p].values[q])@ <= hi@) by {
                        assert(out.rec.series[p].values[rec.series[p].values.len() as int]
                            == stepped[j].current_value);
                    }
                }
            },
            _ => {},
        }
    }
}

/// Bound clamping: for a stock with both bounds set in order and starting
/// within them, every value a run records for that stock — the initial
/// recording included — and its final value lie within the bounds,
/// whatever the flows. Returns the position of the stock's series.
pub proof fn lemma_bound_clamping(
    stocks: Seq<Stock>,
    flows: Seq<Flow>,
    dt: int,
    t: Num,
    end: int,
    j: int,
    lo: Num,
    hi: Num,
) -> (p: int)
    requires
        0 <= j < stocks.len(),
        forall|i: int|
            0 <= i < stocks.len() && i != j ==> (#[trigger] stocks[i]).id@ != stocks[j].id@,
        stocks[j].min_value == Some(lo),
        stocks[j].max_value == Some(hi),
        lo@ <= hi@,
        lo@ <= stocks[j].current_value@ <= hi@,
    ensures
        ({
            let out = spec_run(stocks, flows, dt, t@, end, rec_state(rec_empty(), t, stocks));
            &&& series_idx_of(out.rec.series, stocks[j].id@) == Some(p)
            &&& 0 <= p < out.rec.series.len()
            &&& lo@ <= out.stocks[j].current_value@ <= hi@
            &&& forall|q: int|
                0 <= q < out.rec.series[p].values.len() ==> lo@ <= (
                #[trigger] out.rec.series[p].values[q])@ <= hi@
        }),
{
    let key = stocks[j].id@;
    let rec0 = rec_state(rec_empty(), t, stocks);
    let p = lemma_rec_stocks_fresh(Seq::empty(), stocks, key);
    lemma_values_for_unique(stocks, key, j);
    assert(rec0.series[p].values =~= seq![stocks[j].current_value]);
    lemma_run_tracks_stock(stocks, flows, dt, t@, end, rec0, key, p, j);
    let out = spec_run(stocks, flows, dt, t@, end, rec0);
    assert(out.rec.series[p].values[0] == stocks[j].current_value);
    p
}

/// Result alignment: for a stock present (under a unique id) throughout a
/// run that records from a fresh result, the recorded series for its id
/// is exactly as long as the time series. Returns the series position.
pub proof fn lemma_result_alignment(
    stocks: Seq<Stock>,
    flows: Seq<Flow>,
    dt: int,
    t: Num,
    end: int,
    j: int,
) -> (p: int)
    requires
        0 <= j < stocks.len(),
        forall|i: int|
            0 <= i < stocks.len() && i != j ==> (#[trigger] stocks[i]).id@ != stocks[j].id@,
    ensures
        ({
            let out = spec_run(stocks, flows, dt, t@, end, rec_state(rec_empty(), t, stocks));
            &&& series_idx_of(out.rec.series, stocks[j].id@) == Some(p)
            &&& 0 <= p < out.rec.series.len()
            &&& out.rec.series[p].values.len() == out.rec.times.len()
        }),
{
    let key = stocks[j].id@;
    let rec0 = rec_state(rec_empty(), t, stocks);
    let p = lemma_rec_stocks_fresh(Seq::empty(), stocks, key);
    lemma_values_for_unique(stocks, key, j);
    assert(rec0.series[p].values =~= seq![stocks[j].current_value]);
    assert(rec0.times.len() == 1);
    lemma_run_tracks_stock(stocks, flows, dt, t@, end, rec0, key, p, j);
    p
}

/// The exact per-step change of a stock fed by a constant inflow `r_in`
/// and drained by a constant outflow `r_out` under a step of `dt`.
pub open spec fn euler_delta(r_in: int, r_out: int, dt: int) -> int {
    quot_trunc((r_in - r_out) * dt, SCALE as int)
}

/// Conservation under explicit Euler: a stock with one constant inflow,
/// one constant outflow and no bounds gains exactly
/// `dt * (r_in - r_out)` per step, so after `n` steps its value is
/// exactly the initial value plus `n` times that change — provided no
/// intermediate value saturates and the per-step change is exactly
/// representable (the divisibility premise).
pub proof fn lemma_euler_conservation(
    stock: Stock,
    inflow: Flow,
    outflow: Flow,
    r_in: Num,
    r_out: Num,
    dt: int,
    t0: int,
    n: nat,
    rec: RecModel,
)
    requires
        stock.min_value is None,
        stock.max_value is None,
        inflow.rate_function == FlowFunction::Constant(r_in),
        inflow.from_stock is None,
        inflow.to_stock matches Some(t) && t@ == stock.id@,
        outflow.rate_function == FlowFunction::Constant(r_out),
        outflow.from_stock matches Some(s) && s@ == stock.id@,
        outflow.to_stock is None,
        1 <= dt,
        fits_i64(r_in@ - r_out@),
        ((r_in@ - r_out@) * dt) % (SCALE as int) == 0,
        fits_i64(euler_delta(r_in@, r_out@, dt)),
        forall|k: int|
            0 <= k <= n ==> #[trigger] fits_i64(
                stock.current_value@ + k * euler_delta(r_in@, r_out@, dt),
            ),
        i64::MIN <= t0,
        t0 + n * dt <= i64::MAX,
    ensures
        ({
            let out = spec_run(seq![stock], seq![inflow, outflow], dt, t0, t0 + n * dt, rec);
            &&& out.stocks.len() == 1
            &&& out.stocks[0].current_value@ == stock.current_value@ + n * euler_delta(
                r_in@,
                r_out@,
                dt,
            )
            &&& out.time == t0 + n * dt
        }),
    decreases n,
{
    let delta = euler_delta(r_in@, r_out@, dt);
    let v0 = stock.current_value@;
    let stocks = seq![stock];
    let flows = seq![inflow, outflow];
    if n == 0 {
        assert(n * delta == 0) by (nonlinear_arith)
            requires
                n == 0,
        ;
        assert(n * dt == 0) by (nonlinear_arith)
            requires
                n == 0,
        ;
        let out = spec_run(stocks, flows, dt, t0, t0 + n * dt, rec);
        assert(out.stocks.len() == 1);
        assert(out.stocks[0].current_value@ == v0 + n * delta);
        assert(out.time == t0 + n * dt);
    } else {
        let end = t0 + n * dt;
        assert(n * dt >= dt) by (nonlinear_arith)
            requires
                n >= 1,
                dt >= 1,
        ;
        assert(t0 < end);
        assert(idx_of(stocks, stock.id@) == Some(0int));
        assert(spec_rate(inflow, stocks) == r_in@);
        assert(spec_rate(outflow, stocks) == r_out@);
        assert(deriv_upto(flows, stocks, 0, 0) == 0);
        assert(deriv_upto(flows, stocks, 0, 1) == apply_flow(0, inflow, stocks, 0));
        assert(apply_flow(0, inflow, stocks, 0) == r_in@);
        assert(deriv_upto(flows, stocks, 0, 2) == apply_flow(r_in@, outflow, stocks, 0));
        assert(apply_flow(r_in@, outflow, stocks, 0) == r_in@ - r_out@);
        assert(spec_deriv(flows, stocks, 0) == r_in@ - r_out@);
        assert(quot_trunc((r_in@ - r_out@) * dt, SCALE as int) == delta);
        assert(fits_i64(v0 + 1 * delta));
        assert(clamped_next(stock, r_in@ - r_out@, dt) == v0 + delta);
        let stepped = step_stocks(stocks, flows, dt);
        let stock2 = Stock { current_value: Num { raw: (v0 + delta) as i64 }, ..stock };
        assert(stepped =~= seq![stock2]);
        let time2 = sat_add(t0, dt);
        assert(time2 == t0 + dt);
        let rec2 = rec_state(rec, Num { raw: time2 as i64 }, stepped);
        assert(spec_run(stocks, flows, dt, t0, end, rec) == spec_run(
            stepped,
            flows,
            dt,
            time2,
            end,
            rec2,
        ));
        assert forall|k: int| 0 <= k <= n - 1 implies #[trigger] fits_i64(
            stock2.current_value@ + k * euler_delta(r_in@, r_out@, dt),
        ) by {
            assert(fits_i64(stock.current_value@ + (k + 1) * euler_delta(r_in@, r_out@, dt)));
            assert((k + 1) * delta == k * delta + delta) by (nonlinear_arith);
        }
        assert((t0 + dt) + (n - 1) * dt == t0 + n * dt) by (nonlinear_arith);
        lemma_euler_conservation(
            stock2,
            inflow,
            outflow,
            r_in,
            r_out,
            dt,
            t0 + dt,
            (n - 1) as nat,
            rec2,
        );
        assert((v0 + delta) + (n - 1) * delta == v0 + n * delta) by (nonlinear_arith);
    }
}

/// Missing-reference default: a linear flow whose input stock id is
/// absent from the state evaluates to exactly its intercept — the slope
/// contributes nothing.
pub proof fn lemma_missing_input_rate(f: Flow, stocks: Seq<Stock>, intercept: Num)
    requires
        f.rate_function matches FlowFunction::Linear { intercept: ic, input_stock, .. } && ic
            == intercept && idx_of(stocks, input_stock@) is None,
    ensures
        spec_rate(f, stocks) == intercept@,
{
    if let FlowFunction::Linear { slope, .. } = f.rate_function {
        assert(slope@ * 0 == 0);
        assert(quot_trunc(0, SCALE as int) == 0);
    }
}

} // verus!
