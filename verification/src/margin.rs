//! Mark-to-market: price changes move margin in proportion to inventory.

use crate::arith::{magnitude, price_product, price_saturating_mul_signed, unsigned_abs};
use crate::oracle::{oracle_of, PriceProvider};
use crate::primitives::{AccountId, CurrencyId, Price};
use crate::state::{Pallet, PalletView, PositionKey, MARGIN_MAX};
use crate::table::{lemma_upsert, upsert};
use vstd::prelude::*;

verus! {

/// The product of a price change, given by its raw representation, and a
/// signed inventory, held within the range of a signed amount.
pub open spec fn exposure_value(delta_inner: nat, inventory: int) -> int {
    let value = price_product(delta_inner, magnitude(inventory));
    if inventory < 0 {
        if value <= -(i128::MIN as int) {
            -(value as int)
        } else {
            i128::MIN as int
        }
    } else {
        if value <= i128::MAX {
            value as int
        } else {
            i128::MAX as int
        }
    }
}

/// A margin after the price moved by `delta_inner`, up where `rose`: the
/// margin gains the value of the inventory where the price rose and loses
/// it where the price fell. A margin that would go below zero is zero, and
/// one beyond the largest margin is the largest margin.
pub open spec fn marked_margin(margin: nat, delta_inner: nat, rose: bool, inventory: int) -> nat {
    let drift = if rose {
        exposure_value(delta_inner, inventory)
    } else {
        -exposure_value(delta_inner, inventory)
    };
    if margin + drift < 0 {
        0
    } else if margin + drift > MARGIN_MAX {
        MARGIN_MAX as nat
    } else {
        (margin + drift) as nat
    }
}

impl PalletView {
    /// The margin row of an account after the price of `asset` moved.
    pub open spec fn marked_row(
        self,
        row: (AccountId, u128),
        asset: CurrencyId,
        delta_inner: nat,
        rose: bool,
    ) -> (AccountId, u128) {
        (row.0, marked_margin(row.1 as nat, delta_inner, rose, self.inventory_of(asset, row.0)) as u128)
    }

    /// The ledgers after marking `asset` to the price the oracle gives.
    /// Without a price nothing changes. With one, it becomes the baseline,
    /// and where it differs from the old baseline every margin entry moves
    /// by the value of the account's inventory in the asset.
    pub open spec fn update_margin(self, asset: CurrencyId, new_price: Option<Price>) -> PalletView {
        match new_price {
            None => self,
            Some(price) => {
                let p0 = match self.baseline(asset) {
                    Some(p0) => p0,
                    None => price,
                };
                let rose = price.inner > p0.inner;
                let delta = if rose {
                    (price.inner - p0.inner) as nat
                } else {
                    (p0.inner - price.inner) as nat
                };
                PalletView {
                    prices: upsert(self.prices, asset, price),
                    margins: if delta != 0 {
                        Seq::new(
                            self.margins.len(),
                            |i: int| self.marked_row(self.margins[i], asset, delta, rose),
                        )
                    } else {
                        self.margins
                    },
                    ..self
                }
            },
        }
    }
}

impl Pallet {
    /// Marks the asset to the given price: see [`PalletView::update_margin`].
    pub fn mark_to_price(&mut self, currency_id: CurrencyId, new_price: Option<Price>)
        requires
            old(self).wf(),
        ensures
            final(self).wf(),
            final(self)@ == old(self)@.update_margin(currency_id, new_price),
    {
        let new_price = match new_price {
            Some(price) => price,
            None => {
                return ;
            },
        };
        let p0 = match self.price0(currency_id) {
            Some(p0) => p0,
            None => new_price,
        };
        let rose = new_price.inner > p0.inner;
        let delta = if rose {
            Price { inner: new_price.inner - p0.inner }
        } else {
            Price { inner: p0.inner - new_price.inner }
        };
        let ghost before = self@;
        proof {
            lemma_upsert(before.prices, currency_id, new_price);
        }
        self.prices.insert(currency_id, new_price);
        if !delta.is_zero() {
            let n = self.margins.len();
            let mut i: usize = 0;
            while i < n
                invariant
                    before.wf(),
                    n == before.margins.len(),
                    i <= n,
                    self@.margins.len() == n,
                    self@.asset_ids == before.asset_ids,
                    self@.params == before.params,
                    self@.positions == before.positions,
                    self@.prices == upsert(before.prices, currency_id, new_price),
                    self.margins.wf(),
                    self.positions.wf(),
                    forall|j: int|
                        0 <= j < i ==> self@.margins[j] == before.marked_row(
                            #[trigger] before.margins[j],
                            currency_id,
                            delta.inner as nat,
                            rose,
                        ),
                    forall|j: int| i <= j < n ==> self@.margins[j] == #[trigger] before.margins[j],
                decreases n - i,
            {
                let (account, margin) = self.margins.row(i);
                assert(before.margins[i as int].1 <= MARGIN_MAX);
                let inventory = match self.positions.get(PositionKey { asset: currency_id, account }) {
                    Some(h) => h.inventory,
                    None => 0,
                };
                let moved = price_saturating_mul_signed(delta, inventory);
                let size = unsigned_abs(moved);
                let gains = (moved >= 0) == rose;
                let amount: u128 = if gains {
                    if size > MARGIN_MAX - margin {
                        MARGIN_MAX
                    } else {
                        margin + size
                    }
                } else {
                    if size > margin {
                        0
                    } else {
                        margin - size
                    }
                };
                self.margins.set_value(i, amount);
                i += 1;
            }
            assert(self@.margins =~= before.update_margin(currency_id, Some(new_price)).margins);
        }
    }

    /// Marks the asset to the price that the source gives now.
    pub fn update_margin<P: PriceProvider>(&mut self, source: &P, currency_id: CurrencyId)
        requires
            old(self).wf(),
        ensures
            final(self).wf(),
            final(self)@ == old(self)@.update_margin(currency_id, oracle_of(source)(currency_id)),
    {
        let new_price = source.get_price(currency_id);
        self.mark_to_price(currency_id, new_price);
    }
}

} // verus!
