//! Stocks and stock arrays.
//!
//! A stock is a named quantity with optional bounds. A stock array is a
//! template that expands, at model-construction time, into `size`
//! independent stocks whose ids are `base_id[0]` .. `base_id[size-1]`.

use vstd::prelude::*;
use crate::num::Num;
use crate::text::{format_indexed_id, format_indexed_name, indexed_id, indexed_name};

verus! {

/// A named quantity whose value evolves over simulated time.
#[derive(Clone, Debug)]
pub struct Stock {
    pub id: String,
    pub name: String,
    pub initial_value: Num,
    pub current_value: Num,
    pub units: String,
    /// Minimum constraint, optional.
    pub min_value: Option<Num>,
    /// Maximum constraint, optional.
    pub max_value: Option<Num>,
}

impl Stock {
    /// A fresh stock with the given id, display name, initial value and
    /// unit label; unbounded on both sides.
    pub fn new(id: &str, name: &str, initial_value: Num, units: &str) -> (r: Stock)
        ensures
            r.id@ == id@,
            r.name@ == name@,
            r.initial_value == initial_value,
            r.current_value == initial_value,
            r.units@ == units@,
            r.min_value is None,
            r.max_value is None,
    {
        Stock {
            id: id.to_owned(),
            name: name.to_owned(),
            initial_value,
            current_value: initial_value,
            units: units.to_owned(),
            min_value: None,
            max_value: None,
        }
    }

    /// Attach or replace the minimum bound.
    pub fn with_min(self, min: Num) -> (r: Stock)
        ensures
            r == (Stock { min_value: Some(min), ..self }),
    {
        Stock { min_value: Some(min), ..self }
    }

    /// Attach or replace the maximum bound.
    pub fn with_max(self, max: Num) -> (r: Stock)
        ensures
            r == (Stock { max_value: Some(max), ..self }),
    {
        Stock { max_value: Some(max), ..self }
    }
}

/// A template for a uniformly shaped family of stocks, expanded once into
/// `size` independent stocks; afterwards the array has no further role.
#[derive(Clone, Debug)]
pub struct StockArray {
    pub base_id: String,
    pub name: String,
    pub size: usize,
    pub initial_values: Vec<Num>,
    pub units: String,
    pub min_value: Option<Num>,
    pub max_value: Option<Num>,
}

impl StockArray {
    /// One initial value for each member: the template is well formed.
    pub open spec fn wf(&self) -> bool {
        self.initial_values@.len() == self.size
    }

    /// A stock array whose members all start at the same value.
    pub fn new(base_id: &str, name: &str, size: usize, initial_value: Num, units: &str) -> (r:
        StockArray)
        ensures
            r.wf(),
            r.base_id@ == base_id@,
            r.name@ == name@,
            r.size == size,
            r.initial_values@ == Seq::new(size as nat, |i: int| initial_value),
            r.units@ == units@,
            r.min_value is None,
            r.max_value is None,
    {
        let initial_values = vec![initial_value; size];
        proof {
            assert(initial_values@ =~= Seq::new(size as nat, |i: int| initial_value));
        }
        StockArray {
            base_id: base_id.to_owned(),
            name: name.to_owned(),
            size,
            initial_values,
            units: units.to_owned(),
            min_value: None,
            max_value: None,
        }
    }

    /// A stock array whose members each start at their own value.
    pub fn from_values(base_id: &str, name: &str, values: Vec<Num>, units: &str) -> (r: StockArray)
        ensures
            r.wf(),
            r.base_id@ == base_id@,
            r.name@ == name@,
            r.size == values@.len(),
            r.initial_values@ == values@,
            r.units@ == units@,
            r.min_value is None,
            r.max_value is None,
    {
        let size = values.len();
        StockArray {
            base_id: base_id.to_owned(),
            name: name.to_owned(),
            size,
            initial_values: values,
            units: units.to_owned(),
            min_value: None,
            max_value: None,
        }
    }

    /// Attach or replace the minimum bound shared by all members.
    pub fn with_min(self, min: Num) -> (r: StockArray)
        ensures
            r == (StockArray { min_value: Some(min), ..self }),
    {
        StockArray { min_value: Some(min), ..self }
    }

    /// Attach or replace the maximum bound shared by all members.
    pub fn with_max(self, max: Num) -> (r: StockArray)
        ensures
            r == (StockArray { max_value: Some(max), ..self }),
    {
        StockArray { max_value: Some(max), ..self }
    }

    /// `es` is exactly the expansion of this template: member `i` has id
    /// `base_id[i]`, name `name [i]`, its own initial value, and the
    /// array's units and bounds.
    pub open spec fn is_expansion(&self, es: Seq<Stock>) -> bool {
        &&& es.len() == self.size
        &&& forall|i: int|
            0 <= i < self.size ==> {
                &&& (#[trigger] es[i]).id@ == indexed_id(self.base_id@, i as nat)
                &&& es[i].name@ == indexed_name(self.name@, i as nat)
                &&& es[i].initial_value == self.initial_values@[i]
                &&& es[i].current_value == self.initial_values@[i]
                &&& es[i].units@ == self.units@
                &&& es[i].min_value == self.min_value
                &&& es[i].max_value == self.max_value
            }
    }

    /// Expand the template into its member stocks.
    pub fn expand(&self) -> (r: Vec<Stock>)
        requires
            self.wf(),
        ensures
            self.is_expansion(r@),
    {
        let mut stocks: Vec<Stock> = Vec::new();
        let mut i: usize = 0;
        while i < self.size
            invariant
                i <= self.size,
                self.wf(),
                stocks@.len() == i,
                forall|k: int|
                    0 <= k < i ==> {
                        &&& (#[trigger] stocks@[k]).id@ == indexed_id(self.base_id@, k as nat)
                        &&& stocks@[k].name@ == indexed_name(self.name@, k as nat)
                        &&& stocks@[k].initial_value == self.initial_values@[k]
                        &&& stocks@[k].current_value == self.initial_values@[k]
                        &&& stocks@[k].units@ == self.units@
                        &&& stocks@[k].min_value == self.min_value
                        &&& stocks@[k].max_value == self.max_value
                    },
            decreases self.size - i,
        {
            let value = self.initial_values[i];
            stocks.push(
                Stock {
                    id: format_indexed_id(self.base_id.as_str(), i),
                    name: format_indexed_name(self.name.as_str(), i),
                    initial_value: value,
                    current_value: value,
                    units: self.units.clone(),
                    min_value: self.min_value,
                    max_value: self.max_value,
                },
            );
            i = i + 1;
        }
        stocks
    }

    /// The id of member `index`, exactly as `expand` derives it.
    pub fn stock_id(&self, index: usize) -> (r: String)
        ensures
            r@ == indexed_id(self.base_id@, index as nat),
    {
        format_indexed_id(self.base_id.as_str(), index)
    }
}

} // verus!
