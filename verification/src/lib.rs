//! A verified core for a currency price monitor: a catalog of supported
//! currencies, a parser for the upstream price response, a batch-join
//! accumulator for auxiliary resources, and the refresh state machine that
//! merges the two asynchronous completions into one coherent view state.

use vstd::prelude::*;

pub mod about_page;
pub mod api;
pub mod app;
pub mod bitcoin_page;
pub mod country;
pub mod message;
pub mod parse;
pub mod quotes;
pub mod resources;
pub mod route;
pub mod settings_page;
pub mod text;
pub mod views;

verus! {

/// A price expressed in millionths of one currency unit. The value `0`
/// stands for "unknown / not quoted".
pub type PriceMicros = u64;

} // verus!
