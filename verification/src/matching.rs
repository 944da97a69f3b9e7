//! Matching of opposing open interest into inventory, pro rata.

use crate::arith::{
    approximate_share, floor_share, lemma_approximate_share_bounded, lemma_floor_share_bounded,
    share_mul_floor, share_of, unsigned_abs, SHARE_SCALE,
};
use crate::primitives::CurrencyId;
use crate::state::{Holding, Pallet, PalletView, PositionKey};
use vstd::prelude::*;

verus! {

/// What a position adds to the long side of the asset.
pub open spec fn long_part(row: (PositionKey, Holding), asset: CurrencyId) -> nat {
    if row.0.asset == asset && row.1.balance >= 0 {
        row.1.balance as nat
    } else {
        0
    }
}

/// What a position adds to the short side of the asset.
pub open spec fn short_part(row: (PositionKey, Holding), asset: CurrencyId) -> nat {
    if row.0.asset == asset && row.1.balance < 0 {
        (-row.1.balance) as nat
    } else {
        0
    }
}

/// The sum of the long exposures in the asset.
pub open spec fn long_sum(rows: Seq<(PositionKey, Holding)>, asset: CurrencyId) -> nat
    decreases rows.len(),
{
    if rows.len() == 0 {
        0
    } else {
        long_sum(rows.drop_last(), asset) + long_part(rows.last(), asset)
    }
}

/// The sum of the magnitudes of the short exposures in the asset.
pub open spec fn short_sum(rows: Seq<(PositionKey, Holding)>, asset: CurrencyId) -> nat
    decreases rows.len(),
{
    if rows.len() == 0 {
        0
    } else {
        short_sum(rows.drop_last(), asset) + short_part(rows.last(), asset)
    }
}

/// A total as the engine holds it: bounded by the largest unsigned amount.
pub open spec fn capped(n: nat) -> nat {
    if n > u128::MAX {
        u128::MAX as nat
    } else {
        n
    }
}

/// The matched part of an exposure, given the totals of the two sides.
/// Nothing is matched while a side is empty. The smaller side is matched in
/// full; an exposure on the larger side is matched by the share that the
/// smaller side is of the larger, rounded down. Equal sides are both matched
/// in full.
pub open spec fn matched(longs: nat, shorts: nat, balance: int) -> int {
    if longs == 0 || shorts == 0 {
        0
    } else if shorts < longs {
        if balance < 0 {
            balance
        } else {
            floor_share(approximate_share(shorts, longs), balance as nat) as int
        }
    } else {
        if balance >= 0 {
            balance
        } else {
            -(floor_share(approximate_share(longs, shorts), (-balance) as nat) as int)
        }
    }
}

/// A position after matching in `asset`: its inventory is recomputed where
/// it is in that asset.
pub open spec fn matched_row(
    row: (PositionKey, Holding),
    asset: CurrencyId,
    longs: nat,
    shorts: nat,
) -> (PositionKey, Holding) {
    if row.0.asset == asset {
        (
            row.0,
            Holding {
                balance: row.1.balance,
                inventory: matched(longs, shorts, row.1.balance as int) as i128,
            },
        )
    } else {
        row
    }
}

/// The positions after matching in `asset` for the given totals.
pub open spec fn matched_rows(
    rows: Seq<(PositionKey, Holding)>,
    asset: CurrencyId,
    longs: nat,
    shorts: nat,
) -> Seq<(PositionKey, Holding)> {
    Seq::new(rows.len(), |i: int| matched_row(rows[i], asset, longs, shorts))
}

/// What a position adds to the matched long side of the asset.
pub open spec fn matched_long_part(row: (PositionKey, Holding), asset: CurrencyId) -> nat {
    if row.0.asset == asset && row.1.inventory >= 0 {
        row.1.inventory as nat
    } else {
        0
    }
}

/// What a position adds to the matched short side of the asset.
pub open spec fn matched_short_part(row: (PositionKey, Holding), asset: CurrencyId) -> nat {
    if row.0.asset == asset && row.1.inventory < 0 {
        (-row.1.inventory) as nat
    } else {
        0
    }
}

/// The sum of the long inventories in the asset.
pub open spec fn matched_long_sum(rows: Seq<(PositionKey, Holding)>, asset: CurrencyId) -> nat
    decreases rows.len(),
{
    if rows.len() == 0 {
        0
    } else {
        matched_long_sum(rows.drop_last(), asset) + matched_long_part(rows.last(), asset)
    }
}

/// The sum of the magnitudes of the short inventories in the asset.
pub open spec fn matched_short_sum(rows: Seq<(PositionKey, Holding)>, asset: CurrencyId) -> nat
    decreases rows.len(),
{
    if rows.len() == 0 {
        0
    } else {
        matched_short_sum(rows.drop_last(), asset) + matched_short_part(rows.last(), asset)
    }
}

/// The matched part has the sign of the exposure, or is zero, and is no
/// larger in magnitude.
pub proof fn lemma_matched_bounded(longs: nat, shorts: nat, balance: int)
    ensures
        balance >= 0 ==> 0 <= matched(longs, shorts, balance) <= balance,
        balance <= 0 ==> balance <= matched(longs, shorts, balance) <= 0,
{
    lemma_approximate_share_bounded(shorts, longs);
    lemma_approximate_share_bounded(longs, shorts);
    if balance >= 0 {
        lemma_floor_share_bounded(approximate_share(shorts, longs), balance as nat);
    } else {
        lemma_floor_share_bounded(approximate_share(longs, shorts), (-balance) as nat);
    }
}

impl PalletView {
    /// The total long exposure in the asset, as the engine holds it.
    pub open spec fn long_interest(self, asset: CurrencyId) -> nat {
        capped(long_sum(self.positions, asset))
    }

    /// The total short exposure in the asset, as the engine holds it.
    pub open spec fn short_interest(self, asset: CurrencyId) -> nat {
        capped(short_sum(self.positions, asset))
    }

    /// The ledgers after matching in `asset`: the inventory of every
    /// position in the asset is recomputed from the exposures alone.
    pub open spec fn match_interest(self, asset: CurrencyId) -> PalletView {
        PalletView {
            positions: matched_rows(
                self.positions,
                asset,
                self.long_interest(asset),
                self.short_interest(asset),
            ),
            ..self
        }
    }
}

impl Pallet {
    /// The total long and the total short exposure in the asset.
    pub fn open_interest(&self, currency_id: CurrencyId) -> (r: (u128, u128))
        requires
            self.wf(),
        ensures
            r.0 == self@.long_interest(currency_id),
            r.1 == self@.short_interest(currency_id),
    {
        let mut shorts: u128 = 0;
        let mut longs: u128 = 0;
        let mut i: usize = 0;
        let n = self.positions.len();
        while i < n
            invariant
                n == self.positions@.len(),
                i <= n,
                longs == capped(long_sum(self.positions@.take(i as int), currency_id)),
                shorts == capped(short_sum(self.positions@.take(i as int), currency_id)),
            decreases n - i,
        {
            let (key, holding) = self.positions.row(i);
            proof {
                let next = self.positions@.take(i as int + 1);
                assert(next.drop_last() =~= self.positions@.take(i as int));
                assert(next.last() == self.positions@[i as int]);
            }
            if key.asset == currency_id {
                let b = unsigned_abs(holding.balance);
                if holding.balance < 0 {
                    shorts = shorts.saturating_add(b);
                } else {
                    longs = longs.saturating_add(b);
                }
            }
            i += 1;
        }
        assert(self.positions@.take(n as int) =~= self.positions@);
        (longs, shorts)
    }

    /// Recomputes the inventory of every position in the asset from the
    /// exposures: nothing while a side is empty, else the smaller side in
    /// full and the larger side pro rata, rounded down.
    pub fn match_interest(&mut self, currency_id: CurrencyId)
        requires
            old(self).wf(),
        ensures
            final(self).wf(),
            final(self)@ == old(self)@.match_interest(currency_id),
            final(self)@.inventory_within_balance(currency_id),
    {
        let (longs, shorts) = self.open_interest(currency_id);
        let shorts_filled = shorts < longs;
        let ratio: u64 = if shorts == 0 || longs == 0 {
            0
        } else if shorts_filled {
            share_of(shorts, longs)
        } else {
            share_of(longs, shorts)
        };
        proof {
            lemma_approximate_share_bounded(shorts as nat, longs as nat);
            lemma_approximate_share_bounded(longs as nat, shorts as nat);
        }
        let ghost before = self@;
        let n = self.positions.len();
        let mut i: usize = 0;
        while i < n
            invariant
                before.wf(),
                n == before.positions.len(),
                i <= n,
                self@.positions.len() == n,
                self@.asset_ids == before.asset_ids,
                self@.params == before.params,
                self@.margins == before.margins,
                self@.prices == before.prices,
                self.positions.wf(),
                longs == before.long_interest(currency_id),
                shorts == before.short_interest(currency_id),
                shorts_filled == (shorts < longs),
                ratio <= SHARE_SCALE,
                shorts != 0 && longs != 0 && shorts_filled ==> ratio == approximate_share(
                    shorts as nat,
                    longs as nat,
                ),
                shorts != 0 && longs != 0 && !shorts_filled ==> ratio == approximate_share(
                    longs as nat,
                    shorts as nat,
                ),
                forall|j: int|
                    0 <= j < i ==> self@.positions[j] == matched_row(
                        #[trigger] before.positions[j],
                        currency_id,
                        longs as nat,
                        shorts as nat,
                    ),
                forall|j: int| i <= j < n ==> self@.positions[j] == #[trigger] before.positions[j],
            decreases n - i,
        {
            let (key, holding) = self.positions.row(i);
            if key.asset == currency_id {
                let balance = holding.balance;
                let amount: i128 = if shorts == 0 || longs == 0 {
                    0
                } else if (balance < 0 && shorts_filled) || (balance >= 0 && !shorts_filled) {
                    balance
                } else {
                    let b = unsigned_abs(balance);
                    let m = share_mul_floor(ratio, b);
                    proof {
                        lemma_floor_share_bounded(ratio as nat, b as nat);
                    }
                    if balance < 0 {
                        if m > 170141183460469231731687303715884105727u128 {
                            i128::MIN
                        } else {
                            -(m as i128)
                        }
                    } else {
                        m as i128
                    }
                };
                proof {
                    lemma_matched_bounded(longs as nat, shorts as nat, balance as int);
                }
                self.positions.set_value(i, Holding { balance, inventory: amount });
            }
            i += 1;
        }
        assert(self@.positions =~= before.match_interest(currency_id).positions);
        proof {
            before.law_match_interest_within_balance(currency_id);
        }
    }
}

} // verus!
