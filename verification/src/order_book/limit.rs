//! A single limit order.
use vstd::prelude::*;

verus! {

/// A limit order: an identifier, a quantity and a limit price.
#[derive(Debug, PartialEq)]
pub struct LimitOrder {
    pub id: u128,
    pub qty: u64,
    pub price: u64,
}

} // verus!
