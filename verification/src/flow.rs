//! Flows: named rates of change between stocks.
//!
//! A flow may drain one stock (`from_stock`) and/or fill another
//! (`to_stock`); either endpoint may be absent, and a flow with neither is
//! inert. Its instantaneous rate comes from a rate function: constant, or
//! linear in the current value of one input stock. An input stock id absent
//! from the state is read as zero — a deliberate recoverable default.

use vstd::prelude::*;
use crate::num::{sat_add, scale_mul, Num};
use crate::state::{value_of, SystemState};
use crate::stock::Stock;

verus! {

/// The rule producing a flow's instantaneous rate from the current state.
#[derive(Clone, Debug)]
pub enum FlowFunction {
    /// Always this rate.
    Constant(Num),
    /// `slope * value(input_stock) + intercept`, where a missing input
    /// stock contributes the value zero.
    Linear { slope: Num, intercept: Num, input_stock: String },
}

/// The rate of `f` read against the stocks of a state snapshot.
pub open spec fn spec_rate(f: Flow, stocks: Seq<Stock>) -> int {
    match f.rate_function {
        FlowFunction::Constant(rate) => rate@,
        FlowFunction::Linear { slope, intercept, input_stock } => {
            let input = match value_of(stocks, input_stock@) {
                Some(v) => v@,
                None => 0,
            };
            sat_add(scale_mul(slope@, input), intercept@)
        },
    }
}

/// The index of the first flow with id `key`, if any.
pub open spec fn flow_idx_of(flows: Seq<Flow>, key: Seq<char>) -> Option<int>
    decreases flows.len(),
{
    if flows.len() == 0 {
        None
    } else if flows[0].id@ == key {
        Some(0int)
    } else {
        match flow_idx_of(flows.drop_first(), key) {
            Some(i) => Some(i + 1),
            None => None,
        }
    }
}

/// What `flow_idx_of` finds: a match, in bounds, with no earlier match.
pub proof fn lemma_flow_idx_of(flows: Seq<Flow>, key: Seq<char>)
    ensures
        match flow_idx_of(flows, key) {
            Some(i) => {
                &&& 0 <= i < flows.len()
                &&& flows[i].id@ == key
                &&& forall|j: int| 0 <= j < i ==> (#[trigger] flows[j]).id@ != key
            },
            None => forall|j: int| 0 <= j < flows.len() ==> (#[trigger] flows[j]).id@ != key,
        },
    decreases flows.len(),
{
    if flows.len() > 0 && flows[0].id@ != key {
        let rest = flows.drop_first();
        lemma_flow_idx_of(rest, key);
        assert(forall|j: int| 0 <= j < rest.len() ==> rest[j] == flows[j + 1]);
        match flow_idx_of(rest, key) {
            Some(i) => {
                assert(forall|j: int| 1 <= j < i + 1 ==> (#[trigger] flows[j]).id@ == rest[j - 1].id@);
            },
            None => {
                assert(forall|j: int|
                    1 <= j < flows.len() ==> (#[trigger] flows[j]).id@ == rest[j - 1].id@);
            },
        }
    }
}

/// The index of the first flow in `flows` whose id is `key`, if any.
pub(crate) fn find_flow(flows: &Vec<Flow>, key: &str) -> (r: Option<usize>)
    ensures
        match r {
            Some(i) => flow_idx_of(flows@, key@) == Some(i as int),
            None => flow_idx_of(flows@, key@) is None,
        },
{
    let owned: String = key.to_owned();
    let n = flows.len();
    let mut i: usize = 0;
    while i < n
        invariant
            i <= n,
            n == flows@.len(),
            owned@ == key@,
            forall|j: int| 0 <= j < i ==> (#[trigger] flows@[j]).id@ != key@,
        decreases n - i,
    {
        if flows[i].id == owned {
            proof {
                lemma_flow_idx_of(flows@, key@);
            }
            return Some(i);
        }
        i = i + 1;
    }
    proof {
        lemma_flow_idx_of(flows@, key@);
    }
    None
}

/// A named rate of change, optionally draining one stock and/or filling
/// another.
#[derive(Clone, Debug)]
pub struct Flow {
    pub id: String,
    pub name: String,
    /// Id of the stock this flow takes from (`None` for sources).
    pub from_stock: Option<String>,
    /// Id of the stock this flow adds to (`None` for sinks).
    pub to_stock: Option<String>,
    pub rate_function: FlowFunction,
    /// The units of this flow rate (e.g. `people/year`).
    pub units: String,
}

impl Flow {
    /// A flow with a constant rate and no endpoints.
    pub fn constant(id: &str, name: &str, rate: Num, units: &str) -> (r: Flow)
        ensures
            r.id@ == id@,
            r.name@ == name@,
            r.from_stock is None,
            r.to_stock is None,
            r.rate_function == FlowFunction::Constant(rate),
            r.units@ == units@,
    {
        Flow {
            id: id.to_owned(),
            name: name.to_owned(),
            from_stock: None,
            to_stock: None,
            rate_function: FlowFunction::Constant(rate),
            units: units.to_owned(),
        }
    }

    /// A flow whose rate is `slope * value(input_stock) + intercept`, with
    /// no endpoints.
    pub fn linear(id: &str, name: &str, slope: Num, intercept: Num, input_stock: &str, units: &str)
        -> (r: Flow)
        ensures
            r.id@ == id@,
            r.name@ == name@,
            r.from_stock is None,
            r.to_stock is None,
            r.rate_function matches FlowFunction::Linear {
                slope: s,
                intercept: c,
                input_stock: input,
            } && s == slope && c == intercept && input@ == input_stock@,
            r.units@ == units@,
    {
        Flow {
            id: id.to_owned(),
            name: name.to_owned(),
            from_stock: None,
            to_stock: None,
            rate_function: FlowFunction::Linear {
                slope,
                intercept,
                input_stock: input_stock.to_owned(),
            },
            units: units.to_owned(),
        }
    }

    /// Set (or replace) the stock this flow drains.
    pub fn from_stock(self, stock_id: &str) -> (r: Flow)
        ensures
            r.from_stock matches Some(s) && s@ == stock_id@,
            r.id == self.id,
            r.name == self.name,
            r.to_stock == self.to_stock,
            r.rate_function == self.rate_function,
            r.units == self.units,
    {
        Flow { from_stock: Some(stock_id.to_owned()), ..self }
    }

    /// Set (or replace) the stock this flow fills.
    pub fn to_stock(self, stock_id: &str) -> (r: Flow)
        ensures
            r.to_stock matches Some(s) && s@ == stock_id@,
            r.id == self.id,
            r.name == self.name,
            r.from_stock == self.from_stock,
            r.rate_function == self.rate_function,
            r.units == self.units,
    {
        Flow { to_stock: Some(stock_id.to_owned()), ..self }
    }

    /// The current rate of this flow against a state snapshot; a pure
    /// function of the snapshot, so evaluation order within a step cannot
    /// matter.
    pub fn calculate_rate(&self, state: &SystemState) -> (r: Num)
        ensures
            r@ == spec_rate(*self, state.stocks@),
    {
        match &self.rate_function {
            FlowFunction::Constant(rate) => *rate,
            FlowFunction::Linear { slope, intercept, input_stock } => {
                let input = match state.get_stock_value(input_stock.as_str()) {
                    Some(v) => v,
                    None => Num::zero(),
                };
                slope.scaled_mul(input).saturating_add(*intercept)
            },
        }
    }
}

} // verus!
