//! Liquidation: positions that the margin no longer backs are zeroed or
//! unwound to their matched part.

use crate::arith::{
    ceil_millionths, magnitude, price_product, price_saturating_mul, ratio_mul_ceil, unsigned_abs,
};
use crate::matching::capped;
use crate::primitives::{AccountId, CurrencyId};
use crate::state::{Holding, Pallet, PalletView, PositionKey, MARGIN_MAX};
use crate::table::{lemma_lookup_at, place_of};
use vstd::prelude::*;

verus! {

/// What liquidation does to an account.
#[derive(Clone, Copy, Debug, PartialEq, Eq, Structural)]
pub enum Verdict {
    /// Every position is zeroed.
    Liquidate,
    /// Every position is cut down to its matched part.
    Unwind,
    /// Nothing happens.
    Keep,
}

impl PalletView {
    /// Margin that an exposure in a configured asset calls for: the
    /// liquidation ratio's share, rounded up, of the magnitude of the
    /// exposure valued at the baseline price, the value held within the
    /// largest unsigned amount. An asset without a baseline calls for none.
    pub open spec fn maintenance_term(self, id: CurrencyId, exposure: int) -> nat {
        match self.baseline(id) {
            None => 0,
            Some(price) => ceil_millionths(
                self.params_of(id).liquidation_ratio.parts(),
                capped(price_product(price.inner as nat, magnitude(exposure))),
            ),
        }
    }

    /// Margin that the account's inventory calls for over the first `n`
    /// configured assets.
    pub open spec fn liquidation_sum(self, who: AccountId, n: int) -> nat
        decreases n,
    {
        if n <= 0 {
            0
        } else {
            self.liquidation_sum(who, n - 1) + self.maintenance_term(
                self.asset_ids[n - 1],
                self.inventory_of(self.asset_ids[n - 1], who),
            )
        }
    }

    /// Margin that the account's whole exposure calls for over the first
    /// `n` configured assets.
    pub open spec fn unwind_sum(self, who: AccountId, n: int) -> nat
        decreases n,
    {
        if n <= 0 {
            0
        } else {
            self.unwind_sum(who, n - 1) + self.maintenance_term(
                self.asset_ids[n - 1],
                self.balance_of(self.asset_ids[n - 1], who),
            )
        }
    }

    /// What liquidation does to the account. One without a margin entry is
    /// kept. One whose margin does not exceed what its inventory calls for
    /// is liquidated; else one whose margin is below what its whole
    /// exposure calls for is unwound.
    pub open spec fn verdict(self, who: AccountId) -> Verdict {
        match self.margin_entry(who) {
            None => Verdict::Keep,
            Some(margin) => if self.liquidation_sum(who, self.asset_ids.len() as int) >= margin {
                Verdict::Liquidate
            } else if self.unwind_sum(who, self.asset_ids.len() as int) > margin {
                Verdict::Unwind
            } else {
                Verdict::Keep
            },
        }
    }

    /// A position after liquidation: one in a configured asset follows the
    /// verdict on its account.
    pub open spec fn liquidated_row(self, row: (PositionKey, Holding)) -> (PositionKey, Holding) {
        if self.is_asset(row.0.asset) {
            match self.verdict(row.0.account) {
                Verdict::Liquidate => (row.0, Holding { balance: 0, inventory: 0 }),
                Verdict::Unwind => (row.0, Holding { balance: row.1.inventory, inventory: row.1.inventory }),
                Verdict::Keep => row,
            }
        } else {
            row
        }
    }

    /// The ledgers after liquidation: every position follows the verdict on
    /// its account; margins are not touched.
    pub open spec fn liquidate(self) -> PalletView {
        PalletView {
            positions: Seq::new(self.positions.len(), |i: int| self.liquidated_row(self.positions[i])),
            ..self
        }
    }
}

impl Pallet {
    /// What liquidation does to the account as the ledgers stand.
    pub fn verdict(&self, who: AccountId) -> (v: Verdict)
        requires
            self.wf(),
        ensures
            v == self@.verdict(who),
    {
        let margin = match self.margins.get(who) {
            Some(margin) => margin,
            None => {
                return Verdict::Keep;
            },
        };
        proof {
            let p = place_of(self@.margins, who);
            assert(self@.margins[p].1 <= MARGIN_MAX);
        }
        let mut liquidation_sum: u128 = 0;
        let mut unwind_sum: u128 = 0;
        let mut i: usize = 0;
        while i < self.asset_ids.len()
            invariant
                self.wf(),
                i <= self.asset_ids.len(),
                liquidation_sum == capped(self@.liquidation_sum(who, i as int)),
                unwind_sum == capped(self@.unwind_sum(who, i as int)),
            decreases self.asset_ids.len() - i,
        {
            let currency_id = self.asset_ids[i];
            if let Some(price) = self.price0(currency_id) {
                let liq_div = self.collateral_params(currency_id).liquidation_ratio;
                let holding = self.holding(currency_id, who);
                let inventory = unsigned_abs(holding.inventory);
                let balance = unsigned_abs(holding.balance);
                liquidation_sum = liquidation_sum.saturating_add(
                    ratio_mul_ceil(liq_div, price_saturating_mul(price, inventory)),
                );
                unwind_sum = unwind_sum.saturating_add(
                    ratio_mul_ceil(liq_div, price_saturating_mul(price, balance)),
                );
            }
            i += 1;
        }
        if liquidation_sum >= margin {
            Verdict::Liquidate
        } else if unwind_sum > margin {
            Verdict::Unwind
        } else {
            Verdict::Keep
        }
    }

    /// One pass over all accounts with a margin entry: an account whose
    /// margin no longer backs its inventory loses every position; else one
    /// whose margin no longer backs its whole exposure has it cut down to
    /// the inventory.
    pub fn liquidate(&mut self)
        requires
            old(self).wf(),
        ensures
            final(self).wf(),
            final(self)@ == old(self)@.liquidate(),
    {
        let ghost before = self@;
        let mut verdicts: Vec<Verdict> = Vec::new();
        let m = self.margins.len();
        let mut j: usize = 0;
        while j < m
            invariant
                self.wf(),
                self@ == before,
                m == before.margins.len(),
                j <= m,
                verdicts@.len() == j,
                forall|k: int| 0 <= k < j ==> #[trigger] verdicts@[k] == before.verdict(before.margins[k].0),
            decreases m - j,
        {
            let (account, _margin) = self.margins.row(j);
            let v = self.verdict(account);
            verdicts.push(v);
            j += 1;
        }
        let n = self.positions.len();
        let mut i: usize = 0;
        while i < n
            invariant
                before.wf(),
                n == before.positions.len(),
                i <= n,
                self@.positions.len() == n,
                self@.asset_ids == before.asset_ids,
                self@.params == before.params,
                self@.margins == before.margins,
                self@.prices == before.prices,
                self.positions.wf(),
                self.margins.wf(),
                verdicts@.len() == before.margins.len(),
                forall|k: int|
                    0 <= k < verdicts@.len() ==> #[trigger] verdicts@[k] == before.verdict(
                        before.margins[k].0,
                    ),
                forall|k: int| 0 <= k < i ==> self@.positions[k] == before.liquidated_row(#[trigger] before.positions[k]),
                forall|k: int| i <= k < n ==> self@.positions[k] == #[trigger] before.positions[k],
            decreases n - i,
        {
            let (key, holding) = self.positions.row(i);
            if self.is_asset(key.asset) {
                match self.margins.find(key.account) {
                    Some(at) => {
                        proof {
                            lemma_lookup_at(before.margins, at as int);
                        }
                        match verdicts[at] {
                            Verdict::Liquidate => {
                                self.positions.set_value(i, Holding { balance: 0, inventory: 0 });
                            },
                            Verdict::Unwind => {
                                self.positions.set_value(
                                    i,
                                    Holding { balance: holding.inventory, inventory: holding.inventory },
                                );
                            },
                            Verdict::Keep => {},
                        }
                    },
                    None => {},
                }
            }
            i += 1;
        }
        assert(self@.positions =~= before.liquidate().positions);
    }
}

} // verus!
