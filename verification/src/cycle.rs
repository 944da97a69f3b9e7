//! The settlement cycle: mark each asset to market and match it, then
//! liquidate across all assets.

use crate::oracle::{oracle_of, Oracle, PriceProvider};
use crate::primitives::CurrencyId;
use crate::state::{Pallet, PalletView};
use vstd::prelude::*;

verus! {

/// Number of a block.
pub type BlockNumber = u64;

/// Cost of a call, in the host's unit.
pub type Weight = u64;

impl PalletView {
    /// The ledgers after the first `n` configured assets were settled in
    /// order: each is marked to its current price, on the inventory of the
    /// cycle before, and then matched anew.
    pub open spec fn settled(self, oracle: Oracle, n: int) -> PalletView
        decreases n,
    {
        if n <= 0 {
            self
        } else {
            self.settled(oracle, n - 1).update_margin(
                self.asset_ids[n - 1],
                oracle(self.asset_ids[n - 1]),
            ).match_interest(self.asset_ids[n - 1])
        }
    }

    /// The ledgers after one cycle: every configured asset is settled, then
    /// one liquidation covers all of them.
    pub open spec fn on_initialize(self, oracle: Oracle) -> PalletView {
        self.settled(oracle, self.asset_ids.len() as int).liquidate()
    }
}

impl Pallet {
    /// Runs one settlement cycle at the prices that the source gives now.
    /// An asset without a price is matched but not marked. Afterwards, in
    /// every configured asset, each account's inventory has the sign of its
    /// exposure, or is zero, and is no larger in magnitude.
    pub fn on_initialize<P: PriceProvider>(&mut self, source: &P, _n: BlockNumber) -> (weight: Weight)
        requires
            old(self).wf(),
        ensures
            final(self).wf(),
            final(self)@ == old(self)@.on_initialize(oracle_of(source)),
            forall|asset: CurrencyId|
                old(self)@.is_asset(asset) ==> #[trigger] final(self)@.inventory_within_balance(asset),
            weight == 10,
    {
        let ghost before = self@;
        let ghost oracle = oracle_of(source);
        let n = self.asset_ids.len();
        let mut i: usize = 0;
        while i < n
            invariant
                self.wf(),
                oracle == oracle_of(source),
                n == before.asset_ids.len(),
                i <= n,
                self@.asset_ids == before.asset_ids,
                self@ == before.settled(oracle, i as int),
            decreases n - i,
        {
            let currency_id = self.asset_ids[i];
            self.update_margin(source, currency_id);
            self.match_interest(currency_id);
            i += 1;
        }
        self.liquidate();
        proof {
            assert forall|asset: CurrencyId| before.is_asset(asset) implies #[trigger] self@.inventory_within_balance(
                asset,
            ) by {
                before.law_cycle_within_balance(oracle, asset);
            }
        }
        10
    }
}

} // verus!
