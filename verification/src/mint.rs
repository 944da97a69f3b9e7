//! Opening and closing exposure, depositing and withdrawing collateral.

use crate::arith::{
    ceil_millionths, magnitude, price_checked_mul, price_checked_mul_signed, price_product,
    ratio_mul_ceil, unsigned_abs,
};
use crate::oracle::{oracle_of, Oracle, PriceProvider};
use crate::primitives::{AccountId, CurrencyId, Error, Event};
use crate::state::{Holding, Pallet, PalletView, PositionKey, MARGIN_MAX};
use crate::table::{has_key, lemma_upsert, place_of, upsert};
use vstd::prelude::*;

verus! {

/// What a successful mint settles.
#[derive(Clone, Copy, Debug, PartialEq, Eq, Structural)]
pub struct MintOutcome {
    /// Collateral to move between the account and the pool, net of the fee:
    /// a deposit where positive, a withdrawal where negative.
    pub collateral: i128,
    /// Fee to take from the account for the fee sink.
    pub fee: u128,
    /// The account's margin after the operation.
    pub margin: u128,
    /// The account's exposure in the asset after the operation.
    pub balance: i128,
}

impl PalletView {
    /// Initial margin that the account needs for one configured asset once
    /// `amount` has been added to its exposure in `asset`: the ratio's share,
    /// rounded up, of the magnitude of the exposure valued at the current
    /// price. There is none to give where the asset has no current price,
    /// or where the exposure or its signed value does not fit.
    pub open spec fn im_term(
        self,
        oracle: Oracle,
        who: AccountId,
        asset: CurrencyId,
        amount: int,
        id: CurrencyId,
    ) -> Result<nat, Error> {
        match oracle(id) {
            None => Err(Error::PriceNotSet),
            Some(price) => {
                let exposure = self.balance_of(id, who) + (if id == asset { amount } else { 0 });
                let value = price_product(price.inner as nat, magnitude(exposure));
                if exposure < i128::MIN || exposure > i128::MAX {
                    Err(Error::Overflow)
                } else if exposure < 0 && value > -(i128::MIN as int) {
                    Err(Error::Overflow)
                } else if exposure >= 0 && value > i128::MAX {
                    Err(Error::Overflow)
                } else {
                    Ok(ceil_millionths(self.params_of(id).initial_im_ratio.parts(), value))
                }
            },
        }
    }

    /// Initial margin needed over the first `n` configured assets, or the
    /// first failure among them.
    pub open spec fn im_sum(
        self,
        oracle: Oracle,
        who: AccountId,
        asset: CurrencyId,
        amount: int,
        n: int,
    ) -> Result<nat, Error>
        decreases n,
    {
        if n <= 0 {
            Ok(0)
        } else {
            match self.im_sum(oracle, who, asset, amount, n - 1) {
                Err(e) => Err(e),
                Ok(before) => match self.im_term(oracle, who, asset, amount, self.asset_ids[n - 1]) {
                    Err(e) => Err(e),
                    Ok(term) => if before + term > u128::MAX {
                        Err(Error::Overflow)
                    } else {
                        Ok(before + term)
                    },
                },
            }
        }
    }

    /// The initial margin that the account needs across all configured
    /// assets once `amount` has been added to its exposure in `asset`, and
    /// that exposure.
    pub open spec fn needed_im(
        self,
        oracle: Oracle,
        who: AccountId,
        asset: CurrencyId,
        amount: int,
    ) -> Result<(int, int), Error> {
        if !self.is_asset(asset) {
            Err(Error::BadAssetID)
        } else {
            match self.im_sum(oracle, who, asset, amount, self.asset_ids.len() as int) {
                Err(e) => Err(e),
                Ok(total) => if total > i128::MAX {
                    Err(Error::AmountConvertFailed)
                } else {
                    Ok((total as int, self.balance_of(asset, who) + amount))
                },
            }
        }
    }

    /// The fee on a change of exposure by `amount`: the fee ratio's share,
    /// rounded up, of the magnitude of the change valued at `price`.
    pub open spec fn fee_on(self, price_inner: nat, asset: CurrencyId, amount: int) -> nat {
        ceil_millionths(
            self.params_of(asset).transaction_fee.parts(),
            price_product(price_inner, magnitude(amount)),
        )
    }

    /// What a mint settles, or why it is rejected. Of the reasons the first
    /// that applies is given: the asset is not configured; it has no current
    /// price; the value of the change of exposure does not fit; the fee does
    /// not fit a signed amount; the collateral less the fee does not fit;
    /// the needed margin cannot be computed; the new margin does not fit;
    /// the new margin is below the needed margin.
    pub open spec fn mint_outcome(
        self,
        oracle: Oracle,
        who: AccountId,
        asset: CurrencyId,
        amount: int,
        collateral: int,
    ) -> Result<MintOutcome, Error> {
        if !self.is_asset(asset) {
            Err(Error::BadAssetID)
        } else {
            match oracle(asset) {
                None => Err(Error::PriceNotSet),
                Some(price) => {
                    let fee = self.fee_on(price.inner as nat, asset, amount);
                    let net = collateral - fee;
                    if price_product(price.inner as nat, magnitude(amount)) > u128::MAX {
                        Err(Error::Overflow)
                    } else if fee > i128::MAX {
                        Err(Error::AmountConvertFailed)
                    } else if net < i128::MIN {
                        Err(Error::Overflow)
                    } else {
                        match self.needed_im(oracle, who, asset, amount) {
                            Err(e) => Err(e),
                            Ok((needed, balance)) => {
                                let margin = self.margin_of(who) + net;
                                if margin > i128::MAX {
                                    Err(Error::Overflow)
                                } else if margin < needed {
                                    Err(Error::NotEnoughIM)
                                } else {
                                    Ok(
                                        (MintOutcome {
                                            collateral: net as i128,
                                            fee: fee as u128,
                                            margin: margin as u128,
                                            balance: balance as i128,
                                        }),
                                    )
                                }
                            },
                        }
                    }
                },
            }
        }
    }

    /// The ledgers after a mint with the given outcome: the margin is
    /// written where collateral moved, and the exposure is written.
    pub open spec fn apply_mint(self, who: AccountId, asset: CurrencyId, outcome: MintOutcome) -> PalletView {
        PalletView {
            margins: if outcome.collateral != 0 {
                upsert(self.margins, who, outcome.margin)
            } else {
                self.margins
            },
            positions: upsert(
                self.positions,
                PositionKey { asset, account: who },
                Holding { balance: outcome.balance, inventory: self.holding_of(asset, who).inventory },
            ),
            ..self
        }
    }
}

impl MintOutcome {
    /// What the mint reports: the collateral moved, where any moved, then the
    /// new exposure.
    pub open spec fn spec_events(self, who: AccountId) -> Seq<Event> {
        if self.collateral != 0 {
            seq![Event::CollateralUpdated(self.collateral), Event::BalanceUpdated(who, self.balance)]
        } else {
            seq![Event::BalanceUpdated(who, self.balance)]
        }
    }

    /// What the mint reports: the collateral moved, where any moved, then the
    /// new exposure.
    pub fn events(&self, who: AccountId) -> (events: Vec<Event>)
        ensures
            events@ == self.spec_events(who),
    {
        let mut events: Vec<Event> = Vec::new();
        if self.collateral != 0 {
            events.push(Event::CollateralUpdated(self.collateral));
        }
        events.push(Event::BalanceUpdated(who, self.balance));
        assert(events@ =~= self.spec_events(who));
        events
    }
}

impl Pallet {
    /// The initial margin that the account needs across all configured
    /// assets once `amount` has been added to its exposure in `asset`, and
    /// that exposure.
    pub fn get_needed_im<P: PriceProvider>(
        &self,
        source: &P,
        account: AccountId,
        currency_id: CurrencyId,
        amount: i128,
    ) -> (r: Result<(i128, i128), Error>)
        requires
            self.wf(),
        ensures
            match r {
                Ok((needed, balance)) => self@.needed_im(
                    oracle_of(source),
                    account,
                    currency_id,
                    amount as int,
                ) == Ok::<(int, int), Error>((needed as int, balance as int)),
                Err(e) => self@.needed_im(oracle_of(source), account, currency_id, amount as int)
                    == Err::<(int, int), Error>(e),
            },
    {
        if !self.is_asset(currency_id) {
            return Err(Error::BadAssetID);
        }
        let ghost oracle = oracle_of(source);
        let mut total: u128 = 0;
        let mut amt: i128 = 0;
        let mut i: usize = 0;
        while i < self.asset_ids.len()
            invariant
                self.wf(),
                self@.is_asset(currency_id),
                oracle == oracle_of(source),
                i <= self.asset_ids.len(),
                self@.im_sum(oracle, account, currency_id, amount as int, i as int) == Ok::<nat, Error>(
                    total as nat,
                ),
                (exists|j: int| 0 <= j < i && self.asset_ids@[j] == currency_id) ==> amt
                    == self@.balance_of(currency_id, account) + amount,
            ensures
                i == self.asset_ids.len(),
                self@.im_sum(oracle, account, currency_id, amount as int, i as int) == Ok::<nat, Error>(
                    total as nat,
                ),
                (exists|j: int| 0 <= j < i && self.asset_ids@[j] == currency_id) ==> amt
                    == self@.balance_of(currency_id, account) + amount,
            decreases self.asset_ids.len() - i,
        {
            let ccy_id = self.asset_ids[i];
            let ghost n = i as int + 1;
            assert(self@.asset_ids[n - 1] == ccy_id);
            let price = match source.get_price(ccy_id) {
                Some(price) => price,
                None => {
                    proof {
                        lemma_im_sum_fails(self@, oracle, account, currency_id, amount as int, n, self.asset_ids@.len() as int);
                    }
                    return Err(Error::PriceNotSet);
                },
            };
            let initial_im_ratio = self.collateral_params(ccy_id).initial_im_ratio;
            let stored = self.balances(ccy_id, account);
            let balance = if ccy_id == currency_id {
                match stored.checked_add(amount) {
                    Some(b) => b,
                    None => {
                        proof {
                            lemma_im_sum_fails(self@, oracle, account, currency_id, amount as int, n, self.asset_ids@.len() as int);
                        }
                        return Err(Error::Overflow);
                    },
                }
            } else {
                stored
            };
            if ccy_id == currency_id {
                amt = balance;
            }
            let value = match price_checked_mul_signed(price, balance) {
                Some(value) => value,
                None => {
                    proof {
                        lemma_im_sum_fails(self@, oracle, account, currency_id, amount as int, n, self.asset_ids@.len() as int);
                    }
                    return Err(Error::Overflow);
                },
            };
            let value = unsigned_abs(value);
            let term = ratio_mul_ceil(initial_im_ratio, value);
            total = match total.checked_add(term) {
                Some(total) => total,
                None => {
                    proof {
                        lemma_im_sum_fails(self@, oracle, account, currency_id, amount as int, n, self.asset_ids@.len() as int);
                    }
                    return Err(Error::Overflow);
                },
            };
            i += 1;
        }
        proof {
            let j = self.asset_ids@.index_of(currency_id);
            assert(0 <= j < i && self.asset_ids@[j] == currency_id);
        }
        if total > MARGIN_MAX {
            return Err(Error::AmountConvertFailed);
        }
        Ok((total as i128, amt))
    }

    /// What a mint would settle, or why it would be rejected. The ledgers
    /// stay as they are.
    pub fn check_mint<P: PriceProvider>(
        &self,
        source: &P,
        who: AccountId,
        currency_id: CurrencyId,
        amount: i128,
        collateral: i128,
    ) -> (r: Result<MintOutcome, Error>)
        requires
            self.wf(),
        ensures
            r == self@.mint_outcome(oracle_of(source), who, currency_id, amount as int, collateral as int),
    {
        if !self.is_asset(currency_id) {
            return Err(Error::BadAssetID);
        }
        let transaction_fee = self.collateral_params(currency_id).transaction_fee;
        let price = match source.get_price(currency_id) {
            Some(price) => price,
            None => {
                return Err(Error::PriceNotSet);
            },
        };
        let pos_amount = unsigned_abs(amount);
        let gross = match price_checked_mul(price, pos_amount) {
            Some(gross) => gross,
            None => {
                return Err(Error::Overflow);
            },
        };
        let fee = ratio_mul_ceil(transaction_fee, gross);
        if fee > MARGIN_MAX {
            return Err(Error::AmountConvertFailed);
        }
        let new_collateral = match collateral.checked_sub(fee as i128) {
            Some(c) => c,
            None => {
                return Err(Error::Overflow);
            },
        };
        let (needed_im, balance) = match self.get_needed_im(source, who, currency_id, amount) {
            Ok(pair) => pair,
            Err(e) => {
                return Err(e);
            },
        };
        let current_margin = self.margin(who);
        proof {
            self@.lemma_margin_bounded(who);
        }
        let new_margin = match (current_margin as i128).checked_add(new_collateral) {
            Some(m) => m,
            None => {
                return Err(Error::Overflow);
            },
        };
        if new_margin < needed_im {
            return Err(Error::NotEnoughIM);
        }
        Ok(MintOutcome { collateral: new_collateral, fee, margin: new_margin as u128, balance })
    }

    /// Changes the account's exposure in the asset by `amount` and its
    /// collateral by `collateral` less the fee, where the margin then covers
    /// the initial margin of all its positions. Returns what is to be moved
    /// between the account, the pool and the fee sink; a rejected mint leaves
    /// the ledgers as they were.
    pub fn mint<P: PriceProvider>(
        &mut self,
        source: &P,
        who: AccountId,
        currency_id: CurrencyId,
        amount: i128,
        collateral: i128,
    ) -> (r: Result<MintOutcome, Error>)
        requires
            old(self).wf(),
        ensures
            final(self).wf(),
            r == old(self)@.mint_outcome(oracle_of(source), who, currency_id, amount as int, collateral as int),
            match r {
                Ok(outcome) => final(self)@ == old(self)@.apply_mint(who, currency_id, outcome),
                Err(_) => final(self)@ == old(self)@,
            },
    {
        let outcome = match self.check_mint(source, who, currency_id, amount, collateral) {
            Ok(outcome) => outcome,
            Err(e) => {
                return Err(e);
            },
        };
        let inventory = self.inventory(currency_id, who);
        proof {
            lemma_upsert(self@.margins, who, outcome.margin);
            lemma_upsert(
                self@.positions,
                PositionKey { asset: currency_id, account: who },
                Holding { balance: outcome.balance, inventory },
            );
            old(self)@.lemma_apply_mint_wf(who, currency_id, outcome);
        }
        if outcome.collateral != 0 {
            self.margins.insert(who, outcome.margin);
        }
        self.positions.insert(
            PositionKey { asset: currency_id, account: who },
            Holding { balance: outcome.balance, inventory },
        );
        assert(self@ == old(self)@.apply_mint(who, currency_id, outcome));
        Ok(outcome)
    }
}

impl PalletView {
    /// A stored margin fits a signed amount.
    pub proof fn lemma_margin_bounded(self, who: AccountId)
        requires
            self.wf(),
        ensures
            self.margin_of(who) <= MARGIN_MAX,
    {
        if has_key(self.margins, who) {
            let i = place_of(self.margins, who);
            assert(self.margins[i].1 <= MARGIN_MAX);
        }
    }

    /// Applying an outcome whose margin fits a signed amount keeps the
    /// ledgers well formed.
    pub proof fn lemma_apply_mint_wf(self, who: AccountId, asset: CurrencyId, outcome: MintOutcome)
        requires
            self.wf(),
            outcome.margin <= MARGIN_MAX,
        ensures
            self.apply_mint(who, asset, outcome).wf(),
    {
        let after = self.apply_mint(who, asset, outcome);
        lemma_upsert(self.margins, who, outcome.margin);
        lemma_upsert(
            self.positions,
            PositionKey { asset, account: who },
            Holding { balance: outcome.balance, inventory: self.holding_of(asset, who).inventory },
        );
        assert forall|i: int| 0 <= i < after.margins.len() implies (#[trigger] after.margins[i]).1
            <= MARGIN_MAX by {
            if outcome.collateral != 0 {
                if has_key(self.margins, who) {
                    let p = place_of(self.margins, who);
                    if i != p {
                        assert(after.margins[i] == self.margins[i]);
                    }
                } else {
                    if i < self.margins.len() {
                        assert(after.margins[i] == self.margins[i]);
                    }
                }
            }
        }
    }
}

/// A failure among the first `n` configured assets is the failure of the
/// whole sum.
pub proof fn lemma_im_sum_fails(
    view: PalletView,
    oracle: Oracle,
    who: AccountId,
    asset: CurrencyId,
    amount: int,
    n: int,
    m: int,
)
    requires
        0 <= n <= m,
        view.im_sum(oracle, who, asset, amount, n) is Err,
    ensures
        view.im_sum(oracle, who, asset, amount, m) == view.im_sum(oracle, who, asset, amount, n),
    decreases m - n,
{
    if n < m {
        lemma_im_sum_fails(view, oracle, who, asset, amount, n, m - 1);
    }
}

} // verus!
