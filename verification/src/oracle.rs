//! The source of current prices.

use crate::primitives::{CurrencyId, Price};
use vstd::prelude::*;

verus! {

/// A source of current prices, one per currency or none.
pub trait PriceProvider {
    /// The current price of the currency, if one is available.
    spec fn price(&self, currency_id: CurrencyId) -> Option<Price>;

    /// The current price of the currency, if one is available.
    fn get_price(&self, currency_id: CurrencyId) -> (p: Option<Price>)
        ensures
            p == self.price(currency_id),
    ;
}

/// Current prices as a function of the currency.
pub type Oracle = spec_fn(CurrencyId) -> Option<Price>;

/// The prices that the source gives.
pub open spec fn oracle_of<P: PriceProvider>(source: &P) -> Oracle {
    |currency_id: CurrencyId| source.price(currency_id)
}

} // verus!
