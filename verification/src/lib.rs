//! A continuous-time system-dynamics simulator: named quantities ("stocks")
//! change over time under named rate rules ("flows"), integrated by explicit
//! Euler steps with post-step bound clamping.
//!
//! All quantities are fixed-point numbers ([`num::Num`]) with exact,
//! fully specified arithmetic.

pub mod flow;
pub mod laws;
pub mod model;
pub mod num;
pub mod result;
pub mod state;
pub mod stock;
pub mod text;

pub use flow::Flow;
pub use flow::FlowFunction;
pub use model::Model;
pub use num::Num;
pub use num::SCALE;
pub use result::Series;
pub use result::SimulationResult;
pub use state::SystemState;
pub use stock::Stock;
pub use stock::StockArray;
