//! What holds of the engine across operations.

use crate::arith::{
    approximate_share,
    floor_share,
    lemma_approximate_share_below,
    lemma_approximate_share_bounded,
    lemma_approximate_share_whole,
    lemma_floor_share_bounded,
    price_product,
    SHARE_SCALE,
};
use crate::margin::marked_margin;
use crate::matching::{
    lemma_matched_bounded,
    long_part,
    long_sum,
    matched,
    matched_long_part,
    matched_long_sum,
    matched_row,
    matched_rows,
    matched_short_part,
    matched_short_sum,
    short_part,
    short_sum,
};
use crate::mint::MintOutcome;
use crate::oracle::Oracle;
use crate::primitives::{AccountId, Change, CurrencyId, Price, Ratio};
use crate::state::{Holding, PalletView, PositionKey, MARGIN_MAX};
use crate::liquidation::Verdict;
use crate::table::{has_key, lemma_same_keys, lemma_upsert, place_of};
use vstd::prelude::*;

verus! {

/// The matched part has the sign of the exposure, or is zero, and is no
/// larger in magnitude.
pub open spec fn within(inventory: int, balance: int) -> bool {
    &&& balance >= 0 ==> 0 <= inventory <= balance
    &&& balance <= 0 ==> balance <= inventory <= 0
}

impl PalletView {
    /// In the asset, every account's inventory is within its exposure.
    pub open spec fn inventory_within_balance(self, asset: CurrencyId) -> bool {
        forall|who: AccountId|
            within(
                (#[trigger] self.holding_of(asset, who)).inventory as int,
                self.holding_of(asset, who).balance as int,
            )
    }

    /// Matching changes no exposure, and recomputes the inventory of the
    /// matched asset alone, from the exposure and the two totals.
    pub proof fn lemma_match_interest_effect(self, asset: CurrencyId, other: CurrencyId, who: AccountId)
        requires
            self.wf(),
        ensures
            self.match_interest(asset).wf(),
            self.match_interest(asset).balance_of(other, who) == self.balance_of(other, who),
            self.match_interest(asset).inventory_of(other, who) == (if other == asset {
                matched(self.long_interest(asset), self.short_interest(asset), self.balance_of(asset, who))
            } else {
                self.inventory_of(other, who)
            }),
            self.match_interest(asset).margins == self.margins,
            self.match_interest(asset).prices == self.prices,
            self.match_interest(asset).params == self.params,
            self.match_interest(asset).asset_ids == self.asset_ids,
    {
        let after = self.match_interest(asset);
        lemma_same_keys(self.positions, after.positions);
        let key = PositionKey { asset: other, account: who };
        lemma_matched_bounded(
            self.long_interest(asset),
            self.short_interest(asset),
            self.balance_of(asset, who),
        );
        if has_key(self.positions, key) {
            let i = place_of(self.positions, key);
            assert(self.positions[i].0 == key);
            lemma_matched_bounded(
                self.long_interest(asset),
                self.short_interest(asset),
                self.positions[i].1.balance as int,
            );
        }
    }

    /// After matching in an asset, every account's inventory in it is
    /// within its exposure.
    pub proof fn law_match_interest_within_balance(self, asset: CurrencyId)
        requires
            self.wf(),
        ensures
            self.match_interest(asset).inventory_within_balance(asset),
    {
        let after = self.match_interest(asset);
        assert forall|who: AccountId|
            within(
                (#[trigger] after.holding_of(asset, who)).inventory as int,
                after.holding_of(asset, who).balance as int,
            ) by {
            self.lemma_match_interest_effect(asset, asset, who);
            lemma_matched_bounded(
                self.long_interest(asset),
                self.short_interest(asset),
                self.balance_of(asset, who),
            );
        }
    }

    /// Liquidation leaves a position of an asset that is not configured, or
    /// of an account that is kept, as it was; it zeroes a position of a
    /// liquidated account and cuts one of an unwound account down to its
    /// inventory.
    pub proof fn lemma_liquidate_effect(self, asset: CurrencyId, who: AccountId)
        requires
            self.wf(),
        ensures
            self.liquidate().wf(),
            self.liquidate().holding_of(asset, who) == (if self.is_asset(asset) {
                match self.verdict(who) {
                    Verdict::Liquidate => Holding { balance: 0, inventory: 0 },
                    Verdict::Unwind => Holding {
                        balance: self.holding_of(asset, who).inventory,
                        inventory: self.holding_of(asset, who).inventory,
                    },
                    Verdict::Keep => self.holding_of(asset, who),
                }
            } else {
                self.holding_of(asset, who)
            }),
            self.liquidate().margins == self.margins,
            self.liquidate().prices == self.prices,
            self.liquidate().params == self.params,
            self.liquidate().asset_ids == self.asset_ids,
    {
        let after = self.liquidate();
        lemma_same_keys(self.positions, after.positions);
        let key = PositionKey { asset, account: who };
        if has_key(self.positions, key) {
            let i = place_of(self.positions, key);
            assert(self.positions[i].0 == key);
        }
    }

    /// Liquidation keeps every account's inventory in an asset within its
    /// exposure.
    pub proof fn law_liquidate_within_balance(self, asset: CurrencyId)
        requires
            self.wf(),
            self.inventory_within_balance(asset),
        ensures
            self.liquidate().inventory_within_balance(asset),
    {
        let after = self.liquidate();
        assert forall|who: AccountId|
            within(
                (#[trigger] after.holding_of(asset, who)).inventory as int,
                after.holding_of(asset, who).balance as int,
            ) by {
            self.lemma_liquidate_effect(asset, who);
            assert(within(
                self.holding_of(asset, who).inventory as int,
                self.holding_of(asset, who).balance as int,
            ));
        }
    }

    /// Marking to market keeps the ledgers well formed and touches no
    /// position.
    pub proof fn lemma_update_margin_effect(self, asset: CurrencyId, new_price: Option<Price>)
        requires
            self.wf(),
        ensures
            self.update_margin(asset, new_price).wf(),
            self.update_margin(asset, new_price).positions == self.positions,
            self.update_margin(asset, new_price).params == self.params,
            self.update_margin(asset, new_price).asset_ids == self.asset_ids,
    {
        let after = self.update_margin(asset, new_price);
        if let Some(price) = new_price {
            lemma_upsert(self.prices, asset, price);
            lemma_same_keys(self.margins, after.margins);
        }
    }

    /// Marking to market makes the price the baseline of the asset, and
    /// where the price differs from the old baseline moves the margin of
    /// every account that has an entry by the value of its inventory in the
    /// asset; no entry comes or goes, and no margin is negative.
    pub proof fn law_update_margin_moves_entries(self, asset: CurrencyId, price: Price, who: AccountId)
        requires
            self.wf(),
        ensures
            self.update_margin(asset, Some(price)).baseline(asset) == Some(price),
            forall|other: CurrencyId|
                other != asset ==> #[trigger] self.update_margin(asset, Some(price)).baseline(other)
                    == self.baseline(other),
            self.update_margin(asset, Some(price)).margin_entry(who) == (match self.margin_entry(who) {
                None => None,
                Some(margin) => {
                    let p0 = match self.baseline(asset) {
                        Some(p0) => p0,
                        None => price,
                    };
                    let rose = price.inner > p0.inner;
                    let delta = if rose {
                        (price.inner - p0.inner) as nat
                    } else {
                        (p0.inner - price.inner) as nat
                    };
                    Some(marked_margin(margin as nat, delta, rose, self.inventory_of(asset, who)) as u128)
                },
            }),
            self.update_margin(asset, Some(price)).margin_of(who) >= 0,
    {
        let after = self.update_margin(asset, Some(price));
        lemma_upsert(self.prices, asset, price);
        lemma_same_keys(self.margins, after.margins);
        if has_key(self.margins, who) {
            let i = place_of(self.margins, who);
            assert(self.margins[i].0 == who);
            assert(self.margins[i].1 <= MARGIN_MAX);
            law_margin_never_negative(self.margins[i].1 as nat, 0, false, self.inventory_of(asset, who));
        }
    }

    /// Settling assets keeps the ledgers well formed and the configured
    /// assets as they are.
    pub proof fn lemma_settled_wf(self, oracle: Oracle, n: int)
        requires
            self.wf(),
        ensures
            self.settled(oracle, n).wf(),
            self.settled(oracle, n).asset_ids == self.asset_ids,
        decreases n,
    {
        if n > 0 {
            self.lemma_settled_wf(oracle, n - 1);
            let id = self.asset_ids[n - 1];
            let before = self.settled(oracle, n - 1);
            before.lemma_update_margin_effect(id, oracle(id));
            before.update_margin(id, oracle(id)).lemma_match_interest_effect(id, id, 0);
        }
    }

    /// Once an asset was settled, every account's inventory in it is within
    /// its exposure, whatever is settled after it.
    pub proof fn lemma_settled_within_balance(self, oracle: Oracle, n: int, k: int)
        requires
            self.wf(),
            0 <= k < n <= self.asset_ids.len(),
        ensures
            self.settled(oracle, n).inventory_within_balance(self.asset_ids[k]),
        decreases n,
    {
        let asset = self.asset_ids[k];
        let id = self.asset_ids[n - 1];
        let before = self.settled(oracle, n - 1);
        self.lemma_settled_wf(oracle, n - 1);
        before.lemma_update_margin_effect(id, oracle(id));
        let marked = before.update_margin(id, oracle(id));
        if id == asset {
            marked.law_match_interest_within_balance(asset);
        } else {
            self.lemma_settled_within_balance(oracle, n - 1, k);
            let after = marked.match_interest(id);
            assert forall|who: AccountId|
                within(
                    (#[trigger] after.holding_of(asset, who)).inventory as int,
                    after.holding_of(asset, who).balance as int,
                ) by {
                marked.lemma_match_interest_effect(id, asset, who);
                assert(within(
                    before.holding_of(asset, who).inventory as int,
                    before.holding_of(asset, who).balance as int,
                ));
            }
        }
    }

    /// After a settlement cycle, in every configured asset every account's
    /// inventory has the sign of its exposure, or is zero, and is no larger
    /// in magnitude.
    pub proof fn law_cycle_within_balance(self, oracle: Oracle, asset: CurrencyId)
        requires
            self.wf(),
            self.is_asset(asset),
        ensures
            self.on_initialize(oracle).wf(),
            self.on_initialize(oracle).inventory_within_balance(asset),
    {
        let k = self.asset_ids.index_of(asset);
        let n = self.asset_ids.len() as int;
        self.lemma_settled_wf(oracle, n);
        self.lemma_settled_within_balance(oracle, n, k);
        let settled = self.settled(oracle, n);
        settled.law_liquidate_within_balance(asset);
        settled.lemma_liquidate_effect(asset, 0);
    }
}

/// The totals of the exposures are the same in rows that agree, place by
/// place, in key and exposure.
pub proof fn lemma_sums_follow_balances(
    rows: Seq<(PositionKey, Holding)>,
    other: Seq<(PositionKey, Holding)>,
    asset: CurrencyId,
)
    requires
        rows.len() == other.len(),
        forall|i: int|
            0 <= i < rows.len() ==> (#[trigger] rows[i]).0 == other[i].0 && rows[i].1.balance
                == other[i].1.balance,
    ensures
        long_sum(other, asset) == long_sum(rows, asset),
        short_sum(other, asset) == short_sum(rows, asset),
    decreases rows.len(),
{
    if rows.len() > 0 {
        let last = rows.len() - 1;
        assert(rows[last].0 == other[last].0 && rows[last].1.balance == other[last].1.balance);
        assert forall|i: int| 0 <= i < rows.drop_last().len() implies (#[trigger] rows.drop_last()[i]).0
            == other.drop_last()[i].0 && rows.drop_last()[i].1.balance == other.drop_last()[i].1.balance by {
            assert(rows[i].0 == other[i].0 && rows[i].1.balance == other[i].1.balance);
        }
        lemma_sums_follow_balances(rows.drop_last(), other.drop_last(), asset);
    }
}

/// Matching a prefix of the positions is the prefix of matching them all.
proof fn lemma_matched_rows_drop_last(
    rows: Seq<(PositionKey, Holding)>,
    asset: CurrencyId,
    longs: nat,
    shorts: nat,
)
    requires
        rows.len() > 0,
    ensures
        matched_rows(rows, asset, longs, shorts).drop_last() == matched_rows(
            rows.drop_last(),
            asset,
            longs,
            shorts,
        ),
        matched_rows(rows, asset, longs, shorts).last() == matched_row(rows.last(), asset, longs, shorts),
{
    assert(matched_rows(rows, asset, longs, shorts).drop_last() =~= matched_rows(
        rows.drop_last(),
        asset,
        longs,
        shorts,
    ));
}

/// After matching, the matched total of each side is at most the total
/// exposure of that side.
pub proof fn lemma_matched_sums_within_exposure(
    rows: Seq<(PositionKey, Holding)>,
    asset: CurrencyId,
    longs: nat,
    shorts: nat,
)
    ensures
        matched_long_sum(matched_rows(rows, asset, longs, shorts), asset) <= long_sum(rows, asset),
        matched_short_sum(matched_rows(rows, asset, longs, shorts), asset) <= short_sum(rows, asset),
    decreases rows.len(),
{
    if rows.len() > 0 {
        lemma_matched_rows_drop_last(rows, asset, longs, shorts);
        lemma_matched_sums_within_exposure(rows.drop_last(), asset, longs, shorts);
        lemma_matched_bounded(longs, shorts, rows.last().1.balance as int);
    }
}

/// After matching, the side that is matched in full has its whole exposure
/// as matched total.
pub proof fn lemma_filled_side_total(
    rows: Seq<(PositionKey, Holding)>,
    asset: CurrencyId,
    longs: nat,
    shorts: nat,
)
    requires
        longs > 0,
        shorts > 0,
    ensures
        shorts < longs ==> matched_short_sum(matched_rows(rows, asset, longs, shorts), asset)
            == short_sum(rows, asset),
        shorts >= longs ==> matched_long_sum(matched_rows(rows, asset, longs, shorts), asset)
            == long_sum(rows, asset),
    decreases rows.len(),
{
    if rows.len() > 0 {
        lemma_matched_rows_drop_last(rows, asset, longs, shorts);
        lemma_filled_side_total(rows.drop_last(), asset, longs, shorts);
        lemma_matched_bounded(longs, shorts, rows.last().1.balance as int);
    }
}

/// While a side is empty, nothing is matched on either side.
pub proof fn lemma_empty_side_total(
    rows: Seq<(PositionKey, Holding)>,
    asset: CurrencyId,
    longs: nat,
    shorts: nat,
)
    requires
        longs == 0 || shorts == 0,
    ensures
        matched_long_sum(matched_rows(rows, asset, longs, shorts), asset) == 0,
        matched_short_sum(matched_rows(rows, asset, longs, shorts), asset) == 0,
    decreases rows.len(),
{
    if rows.len() > 0 {
        lemma_matched_rows_drop_last(rows, asset, longs, shorts);
        lemma_empty_side_total(rows.drop_last(), asset, longs, shorts);
    }
}

/// Where the two sides are equal, both are matched in full.
pub proof fn lemma_equal_sides_total(rows: Seq<(PositionKey, Holding)>, asset: CurrencyId, total: nat)
    requires
        total > 0,
    ensures
        matched_long_sum(matched_rows(rows, asset, total, total), asset) == long_sum(rows, asset),
        matched_short_sum(matched_rows(rows, asset, total, total), asset) == short_sum(rows, asset),
    decreases rows.len(),
{
    if rows.len() > 0 {
        lemma_matched_rows_drop_last(rows, asset, total, total);
        lemma_equal_sides_total(rows.drop_last(), asset, total);
        lemma_approximate_share_whole(total);
        let balance = rows.last().1.balance as int;
        if balance < 0 {
            let size = (-balance) as nat;
            let scale = SHARE_SCALE as nat;
            assert(size * scale / scale == size) by (nonlinear_arith)
                requires
                    scale > 0,
            ;
        }
    }
}

/// After matching, the matched total of the larger side, taken times the
/// scale of a share, is at most the share's parts times the exposure of
/// that side.
pub proof fn lemma_scaled_side_total(
    rows: Seq<(PositionKey, Holding)>,
    asset: CurrencyId,
    longs: nat,
    shorts: nat,
)
    requires
        longs > 0,
        shorts > 0,
    ensures
        shorts < longs ==> matched_long_sum(matched_rows(rows, asset, longs, shorts), asset)
            * SHARE_SCALE <= approximate_share(shorts, longs) * long_sum(rows, asset),
        shorts >= longs ==> matched_short_sum(matched_rows(rows, asset, longs, shorts), asset)
            * SHARE_SCALE <= approximate_share(longs, shorts) * short_sum(rows, asset),
    decreases rows.len(),
{
    if rows.len() > 0 {
        lemma_matched_rows_drop_last(rows, asset, longs, shorts);
        lemma_scaled_side_total(rows.drop_last(), asset, longs, shorts);
        let after = matched_rows(rows, asset, longs, shorts);
        let row = rows.last();
        let scale = SHARE_SCALE as nat;
        if shorts < longs {
            let parts = approximate_share(shorts, longs);
            let before_total = matched_long_sum(after.drop_last(), asset);
            let before_exposure = long_sum(rows.drop_last(), asset);
            let add = matched_long_part(after.last(), asset);
            let exposure = long_part(row, asset);
            lemma_approximate_share_bounded(shorts, longs);
            if row.0.asset == asset && row.1.balance >= 0 {
                lemma_floor_share_bounded(parts, row.1.balance as nat);
                assert(add == floor_share(parts, exposure));
            } else {
                assert(add == 0);
            }
            assert(add * scale <= parts * exposure) by (nonlinear_arith)
                requires
                    add == 0 || add == exposure * parts / scale,
                    scale > 0,
            ;
            assert((before_total + add) * scale <= parts * (before_exposure + exposure)) by (nonlinear_arith)
                requires
                    before_total * scale <= parts * before_exposure,
                    add * scale <= parts * exposure,
            ;
        } else {
            let parts = approximate_share(longs, shorts);
            let before_total = matched_short_sum(after.drop_last(), asset);
            let before_exposure = short_sum(rows.drop_last(), asset);
            let add = matched_short_part(after.last(), asset);
            let exposure = short_part(row, asset);
            lemma_approximate_share_bounded(longs, shorts);
            if row.0.asset == asset && row.1.balance < 0 {
                lemma_floor_share_bounded(parts, (-row.1.balance) as nat);
                assert(add == floor_share(parts, exposure));
            } else {
                assert(add == 0);
            }
            assert(add * scale <= parts * exposure) by (nonlinear_arith)
                requires
                    add == 0 || add == exposure * parts / scale,
                    scale > 0,
            ;
            assert((before_total + add) * scale <= parts * (before_exposure + exposure)) by (nonlinear_arith)
                requires
                    before_total * scale <= parts * before_exposure,
                    add * scale <= parts * exposure,
            ;
        }
    }
}

/// Whether matching loses nothing to rounding: the share is the exact
/// quotient of the smaller total by the larger, and the share of every
/// exposure on the larger side is a whole number.
pub open spec fn matches_exactly(
    rows: Seq<(PositionKey, Holding)>,
    asset: CurrencyId,
    longs: nat,
    shorts: nat,
) -> bool {
    if shorts < longs {
        &&& approximate_share(shorts, longs) * longs == shorts * SHARE_SCALE
        &&& forall|i: int|
            0 <= i < rows.len() ==> (long_part(#[trigger] rows[i], asset) * approximate_share(shorts, longs))
                % (SHARE_SCALE as nat) == 0
    } else {
        &&& approximate_share(longs, shorts) * shorts == longs * SHARE_SCALE
        &&& forall|i: int|
            0 <= i < rows.len() ==> (short_part(#[trigger] rows[i], asset) * approximate_share(longs, shorts))
                % (SHARE_SCALE as nat) == 0
    }
}

/// After matching, where the share of every exposure on the larger side is
/// a whole number, the matched total of that side, taken times the scale of
/// a share, is the share's parts times the exposure of that side.
pub proof fn lemma_scaled_side_exact(
    rows: Seq<(PositionKey, Holding)>,
    asset: CurrencyId,
    longs: nat,
    shorts: nat,
)
    requires
        longs > 0,
        shorts > 0,
        shorts < longs ==> forall|i: int|
            0 <= i < rows.len() ==> (long_part(#[trigger] rows[i], asset) * approximate_share(shorts, longs))
                % (SHARE_SCALE as nat) == 0,
        shorts >= longs ==> forall|i: int|
            0 <= i < rows.len() ==> (short_part(#[trigger] rows[i], asset) * approximate_share(longs, shorts))
                % (SHARE_SCALE as nat) == 0,
    ensures
        shorts < longs ==> matched_long_sum(matched_rows(rows, asset, longs, shorts), asset)
            * SHARE_SCALE == approximate_share(shorts, longs) * long_sum(rows, asset),
        shorts >= longs ==> matched_short_sum(matched_rows(rows, asset, longs, shorts), asset)
            * SHARE_SCALE == approximate_share(longs, shorts) * short_sum(rows, asset),
    decreases rows.len(),
{
    if rows.len() > 0 {
        lemma_matched_rows_drop_last(rows, asset, longs, shorts);
        assert forall|i: int| 0 <= i < rows.drop_last().len() implies #[trigger] rows.drop_last()[i]
            == rows[i] by {}
        lemma_scaled_side_exact(rows.drop_last(), asset, longs, shorts);
        let after = matched_rows(rows, asset, longs, shorts);
        let row = rows.last();
        assert(row == rows[rows.len() - 1]);
        let scale = SHARE_SCALE as nat;
        if shorts < longs {
            let parts = approximate_share(shorts, longs);
            let before_total = matched_long_sum(after.drop_last(), asset);
            let before_exposure = long_sum(rows.drop_last(), asset);
            let add = matched_long_part(after.last(), asset);
            let exposure = long_part(row, asset);
            lemma_approximate_share_bounded(shorts, longs);
            if row.0.asset == asset && row.1.balance >= 0 {
                lemma_floor_share_bounded(parts, row.1.balance as nat);
                assert(add == floor_share(parts, exposure));
            } else {
                assert(add == 0 && exposure == 0);
            }
            assert(add * scale == parts * exposure) by (nonlinear_arith)
                requires
                    (add == 0 && exposure == 0) || add == exposure * parts / scale,
                    (exposure * parts) % scale == 0,
                    scale > 0,
            ;
            assert((before_total + add) * scale == parts * (before_exposure + exposure)) by (nonlinear_arith)
                requires
                    before_total * scale == parts * before_exposure,
                    add * scale == parts * exposure,
            ;
        } else {
            let parts = approximate_share(longs, shorts);
            let before_total = matched_short_sum(after.drop_last(), asset);
            let before_exposure = short_sum(rows.drop_last(), asset);
            let add = matched_short_part(after.last(), asset);
            let exposure = short_part(row, asset);
            lemma_approximate_share_bounded(longs, shorts);
            if row.0.asset == asset && row.1.balance < 0 {
                lemma_floor_share_bounded(parts, (-row.1.balance) as nat);
                assert(add == floor_share(parts, exposure));
            } else {
                assert(add == 0 && exposure == 0);
            }
            assert(add * scale == parts * exposure) by (nonlinear_arith)
                requires
                    (add == 0 && exposure == 0) || add == exposure * parts / scale,
                    (exposure * parts) % scale == 0,
                    scale > 0,
            ;
            assert((before_total + add) * scale == parts * (before_exposure + exposure)) by (nonlinear_arith)
                requires
                    before_total * scale == parts * before_exposure,
                    add * scale == parts * exposure,
            ;
        }
    } else {
        assert(long_sum(rows, asset) == 0 && short_sum(rows, asset) == 0);
        assert(matched_long_sum(matched_rows(rows, asset, longs, shorts), asset) == 0);
        assert(matched_short_sum(matched_rows(rows, asset, longs, shorts), asset) == 0);
        assert(approximate_share(shorts, longs) * 0 == 0);
        assert(approximate_share(longs, shorts) * 0 == 0);
    }
}

/// The margin after a price move is never negative and never beyond the
/// largest margin: a deficit leaves zero.
pub proof fn law_margin_never_negative(margin: nat, delta_inner: nat, rose: bool, inventory: int)
    ensures
        0 <= marked_margin(margin, delta_inner, rose, inventory) <= MARGIN_MAX,
        delta_inner == 0 && margin <= MARGIN_MAX ==> marked_margin(margin, delta_inner, rose, inventory)
            == margin,
        inventory == 0 && margin <= MARGIN_MAX ==> marked_margin(margin, delta_inner, rose, inventory)
            == margin,
{
    assert(price_product(0, crate::arith::magnitude(inventory)) == 0);
    assert(price_product(delta_inner, 0) == 0);
}

impl PalletView {
    /// An accepted change of parameters keeps the liquidation ratio at most
    /// the initial margin ratio where it was so before, and puts it strictly
    /// below where the liquidation ratio is given a new value.
    pub proof fn law_params_stay_ordered(
        self,
        asset: CurrencyId,
        initial_im_ratio: Change<Ratio>,
        liquidation_ratio: Change<Ratio>,
        transaction_fee: Change<Ratio>,
    )
        requires
            self.changed_params(asset, initial_im_ratio, liquidation_ratio, transaction_fee) is Ok,
        ensures
            ({
                let before = self.params_of(asset);
                let after = self.changed_params(
                    asset,
                    initial_im_ratio,
                    liquidation_ratio,
                    transaction_fee,
                )->Ok_0;
                &&& liquidation_ratio is NewValue ==> after.liquidation_ratio.parts()
                    < after.initial_im_ratio.parts()
                &&& before.liquidation_ratio.parts() <= before.initial_im_ratio.parts()
                    ==> after.liquidation_ratio.parts() <= after.initial_im_ratio.parts()
            }),
    {
    }

    /// What a mint with the given outcome changes: the exposure of the
    /// account in the asset, and its margin where collateral moved.
    pub proof fn lemma_apply_mint_effect(
        self,
        who: AccountId,
        asset: CurrencyId,
        outcome: MintOutcome,
        other_asset: CurrencyId,
        other: AccountId,
    )
        requires
            self.wf(),
        ensures
            self.apply_mint(who, asset, outcome).balance_of(other_asset, other) == (if other_asset == asset
                && other == who {
                outcome.balance as int
            } else {
                self.balance_of(other_asset, other)
            }),
            self.apply_mint(who, asset, outcome).inventory_of(other_asset, other) == self.inventory_of(
                other_asset,
                other,
            ),
            self.apply_mint(who, asset, outcome).margin_entry(other) == (if other == who && outcome.collateral
                != 0 {
                Some(outcome.margin)
            } else {
                self.margin_entry(other)
            }),
            self.apply_mint(who, asset, outcome).params == self.params,
            self.apply_mint(who, asset, outcome).prices == self.prices,
            self.apply_mint(who, asset, outcome).asset_ids == self.asset_ids,
    {
        lemma_upsert(self.margins, who, outcome.margin);
        lemma_upsert(
            self.positions,
            PositionKey { asset, account: who },
            Holding { balance: outcome.balance, inventory: self.holding_of(asset, who).inventory },
        );
        assert(PositionKey { asset: other_asset, account: other } != PositionKey { asset, account: who }
            <==> !(other_asset == asset && other == who));
    }

    /// A deposit of collateral without a change of exposure, followed at
    /// once by the withdrawal of the same amount: where both succeed, no fee
    /// is charged, the margin is what it was before, and so is every
    /// exposure of the account.
    pub proof fn law_collateral_round_trip(
        self,
        oracle: Oracle,
        who: AccountId,
        asset: CurrencyId,
        collateral: int,
    )
        requires
            self.wf(),
            i128::MIN < collateral <= i128::MAX,
        ensures
            self.mint_outcome(oracle, who, asset, 0, collateral) matches Ok(first) ==> {
                &&& first.fee == 0
                &&& first.collateral == collateral
                &&& self.apply_mint(who, asset, first).mint_outcome(oracle, who, asset, 0, -collateral) matches Ok(
                    second,
                ) ==> {
                    &&& second.fee == 0
                    &&& second.collateral == -collateral
                    &&& self.apply_mint(who, asset, first).apply_mint(who, asset, second).margin_of(who)
                        == self.margin_of(who)
                    &&& forall|other: CurrencyId|
                        #[trigger] self.apply_mint(who, asset, first).apply_mint(
                            who,
                            asset,
                            second,
                        ).balance_of(other, who) == self.balance_of(other, who)
                }
            },
    {
        if let Ok(first) = self.mint_outcome(oracle, who, asset, 0, collateral) {
            let price = oracle(asset)->Some_0;
            assert(price_product(price.inner as nat, 0) == 0);
            assert(self.fee_on(price.inner as nat, asset, 0) == 0);
            let mid = self.apply_mint(who, asset, first);
            self.lemma_apply_mint_effect(who, asset, first, asset, who);
            self.lemma_apply_mint_wf(who, asset, first);
            assert(mid.fee_on(price.inner as nat, asset, 0) == 0);
            if let Ok(second) = mid.mint_outcome(oracle, who, asset, 0, -collateral) {
                let end = mid.apply_mint(who, asset, second);
                mid.lemma_apply_mint_effect(who, asset, second, asset, who);
                assert forall|other: CurrencyId| #[trigger] end.balance_of(other, who) == self.balance_of(
                    other,
                    who,
                ) by {
                    self.lemma_apply_mint_effect(who, asset, first, other, who);
                    mid.lemma_apply_mint_effect(who, asset, second, other, who);
                }
            }
        }
    }

    /// The total long inventory in the asset.
    pub open spec fn matched_longs(self, asset: CurrencyId) -> nat {
        matched_long_sum(self.positions, asset)
    }

    /// The total short inventory in the asset.
    pub open spec fn matched_shorts(self, asset: CurrencyId) -> nat {
        matched_short_sum(self.positions, asset)
    }

    /// After matching, the matched total of each side is at most the total
    /// exposure of that side.
    pub proof fn law_matched_within_exposure(self, asset: CurrencyId)
        ensures
            self.match_interest(asset).matched_longs(asset) <= long_sum(self.positions, asset),
            self.match_interest(asset).matched_shorts(asset) <= short_sum(self.positions, asset),
    {
        lemma_matched_sums_within_exposure(
            self.positions,
            asset,
            self.long_interest(asset),
            self.short_interest(asset),
        );
    }

    /// After matching, where neither side's total exposure exceeds the
    /// resolution of a share, the matched total of the smaller side is its
    /// whole exposure, and the matched total of the larger side is at most
    /// that.
    pub proof fn law_matched_conserved(self, asset: CurrencyId)
        requires
            long_sum(self.positions, asset) <= SHARE_SCALE,
            short_sum(self.positions, asset) <= SHARE_SCALE,
        ensures
            ({
                let longs = long_sum(self.positions, asset);
                let shorts = short_sum(self.positions, asset);
                let after = self.match_interest(asset);
                let smaller = if shorts < longs { shorts } else { longs };
                &&& longs == 0 || shorts == 0 ==> after.matched_longs(asset) == 0 && after.matched_shorts(asset) == 0
                &&& longs > 0 && shorts > 0 ==> after.matched_longs(asset) <= smaller
                    && after.matched_shorts(asset) <= smaller
                &&& longs > 0 && shorts > 0 && shorts < longs ==> after.matched_shorts(asset) == shorts
                &&& longs > 0 && shorts > 0 && shorts >= longs ==> after.matched_longs(asset) == longs
                &&& longs > 0 && shorts == longs ==> after.matched_longs(asset) == after.matched_shorts(asset)
            }),
    {
        let longs = long_sum(self.positions, asset);
        let shorts = short_sum(self.positions, asset);
        assert(self.long_interest(asset) == longs);
        assert(self.short_interest(asset) == shorts);
        let after_rows = matched_rows(self.positions, asset, longs, shorts);
        lemma_matched_sums_within_exposure(self.positions, asset, longs, shorts);
        if longs == 0 || shorts == 0 {
            lemma_empty_side_total(self.positions, asset, longs, shorts);
        }
        if longs > 0 && shorts == longs {
            lemma_equal_sides_total(self.positions, asset, longs);
        }
        if longs > 0 && shorts > 0 {
            lemma_filled_side_total(self.positions, asset, longs, shorts);
            lemma_scaled_side_total(self.positions, asset, longs, shorts);
            let scale = SHARE_SCALE as nat;
            if shorts < longs {
                lemma_approximate_share_below(shorts, longs);
                let parts = approximate_share(shorts, longs);
                let total = matched_long_sum(after_rows, asset);
                assert(total <= shorts) by (nonlinear_arith)
                    requires
                        total * scale <= parts * longs,
                        parts * longs <= shorts * scale,
                        scale > 0,
                ;
            } else {
                lemma_approximate_share_below(longs, shorts);
                let parts = approximate_share(longs, shorts);
                let total = matched_short_sum(after_rows, asset);
                assert(total <= longs) by (nonlinear_arith)
                    requires
                        total * scale <= parts * shorts,
                        parts * shorts <= longs * scale,
                        scale > 0,
                ;
            }
        }
    }

    /// After matching, where neither side's total exposure exceeds the
    /// resolution of a share and nothing is lost to rounding, the matched
    /// totals of the two sides are equal.
    pub proof fn law_matched_totals_equal(self, asset: CurrencyId)
        requires
            0 < long_sum(self.positions, asset) <= SHARE_SCALE,
            0 < short_sum(self.positions, asset) <= SHARE_SCALE,
            matches_exactly(
                self.positions,
                asset,
                long_sum(self.positions, asset),
                short_sum(self.positions, asset),
            ),
        ensures
            self.match_interest(asset).matched_longs(asset) == self.match_interest(asset).matched_shorts(
                asset,
            ),
    {
        let longs = long_sum(self.positions, asset);
        let shorts = short_sum(self.positions, asset);
        assert(self.long_interest(asset) == longs);
        assert(self.short_interest(asset) == shorts);
        let after_rows = matched_rows(self.positions, asset, longs, shorts);
        lemma_filled_side_total(self.positions, asset, longs, shorts);
        lemma_scaled_side_exact(self.positions, asset, longs, shorts);
        let scale = SHARE_SCALE as nat;
        if shorts < longs {
            let parts = approximate_share(shorts, longs);
            let total = matched_long_sum(after_rows, asset);
            assert(total == shorts) by (nonlinear_arith)
                requires
                    total * scale == parts * longs,
                    parts * longs == shorts * scale,
                    scale > 0,
            ;
        } else {
            let parts = approximate_share(longs, shorts);
            let total = matched_short_sum(after_rows, asset);
            assert(total == longs) by (nonlinear_arith)
                requires
                    total * scale == parts * shorts,
                    parts * shorts == longs * scale,
                    scale > 0,
            ;
        }
    }

    /// Matching twice in a row gives what matching once gives.
    pub proof fn law_match_interest_idempotent(self, asset: CurrencyId)
        ensures
            self.match_interest(asset).match_interest(asset) == self.match_interest(asset),
    {
        let once = self.match_interest(asset);
        let twice = once.match_interest(asset);
        lemma_sums_follow_balances(self.positions, once.positions, asset);
        assert(once.long_interest(asset) == self.long_interest(asset));
        assert(once.short_interest(asset) == self.short_interest(asset));
        assert(twice.positions =~= once.positions);
    }
}

} // verus!
