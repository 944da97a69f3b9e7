//! Risk parameters per asset: loading them at the start and changing them.

use crate::primitives::{AssetParams, Change, CurrencyId, Error, Event, Ratio};
use crate::state::{Pallet, PalletView};
use crate::table::{lemma_upsert, upsert};
use vstd::prelude::*;

verus! {

/// The value after a change: the new value, or the current one where
/// nothing changes.
pub open spec fn changed(current: Ratio, change: Change<Ratio>) -> Ratio {
    match change {
        Change::NoChange => current,
        Change::NewValue(update) => update,
    }
}

/// What a change of parameters reports: one event for each ratio that is
/// given a new value, in the order initial margin, liquidation, fee.
pub open spec fn change_events(
    asset: CurrencyId,
    initial_im_ratio: Change<Ratio>,
    liquidation_ratio: Change<Ratio>,
    transaction_fee: Change<Ratio>,
) -> Seq<Event> {
    let first = match initial_im_ratio {
        Change::NoChange => Seq::<Event>::empty(),
        Change::NewValue(update) => seq![Event::InitialIMRatioUpdated(asset, update)],
    };
    let second = match liquidation_ratio {
        Change::NoChange => first,
        Change::NewValue(update) => first.push(Event::LiquidationRatioUpdated(asset, update)),
    };
    match transaction_fee {
        Change::NoChange => second,
        Change::NewValue(update) => second.push(Event::TransactionFeeUpdated(asset, update)),
    }
}

impl PalletView {
    /// The parameters of the asset after the changes, or why the changes
    /// are rejected. A new initial margin ratio must be at least the
    /// current liquidation ratio; a new liquidation ratio must be below the
    /// initial margin ratio as it then stands.
    pub open spec fn changed_params(
        self,
        asset: CurrencyId,
        initial_im_ratio: Change<Ratio>,
        liquidation_ratio: Change<Ratio>,
        transaction_fee: Change<Ratio>,
    ) -> Result<AssetParams, Error> {
        let current = self.params_of(asset);
        let im = changed(current.initial_im_ratio, initial_im_ratio);
        if !self.is_asset(asset) {
            Err(Error::BadAssetID)
        } else if initial_im_ratio is NewValue && im.parts() < current.liquidation_ratio.parts() {
            Err(Error::BadIMParameters)
        } else if liquidation_ratio is NewValue && changed(
            current.liquidation_ratio,
            liquidation_ratio,
        ).parts() >= im.parts() {
            Err(Error::BadIMParameters)
        } else {
            Ok(
                (AssetParams {
                    initial_im_ratio: im,
                    liquidation_ratio: changed(current.liquidation_ratio, liquidation_ratio),
                    transaction_fee: changed(current.transaction_fee, transaction_fee),
                }),
            )
        }
    }

    /// The ledgers with the parameters of the asset replaced.
    pub open spec fn with_params(self, asset: CurrencyId, params: AssetParams) -> PalletView {
        PalletView { params: upsert(self.params, asset, params), ..self }
    }

    /// The ledgers after the first `n` entries of the initial parameters
    /// were loaded in order.
    pub open spec fn loaded(self, entries: Seq<(CurrencyId, Ratio, Ratio, Ratio)>, n: int) -> PalletView
        decreases n,
    {
        if n <= 0 {
            self
        } else {
            self.loaded(entries, n - 1).with_params(
                entries[n - 1].0,
                AssetParams {
                    initial_im_ratio: entries[n - 1].1,
                    liquidation_ratio: entries[n - 1].2,
                    transaction_fee: entries[n - 1].3,
                },
            )
        }
    }
}

impl Pallet {
    /// Changes the risk parameters of a configured asset, each ratio on its
    /// own, all of them or none. The caller is the one entitled to do so:
    /// the engine does not ask who calls.
    pub fn set_global_params(
        &mut self,
        currency_id: CurrencyId,
        initial_im_ratio: Change<Ratio>,
        liquidation_ratio: Change<Ratio>,
        transaction_fee: Change<Ratio>,
    ) -> (r: Result<Vec<Event>, Error>)
        requires
            old(self).wf(),
        ensures
            final(self).wf(),
            match r {
                Ok(events) => {
                    &&& old(self)@.changed_params(
                        currency_id,
                        initial_im_ratio,
                        liquidation_ratio,
                        transaction_fee,
                    ) is Ok
                    &&& final(self)@ == old(self)@.with_params(
                        currency_id,
                        old(self)@.changed_params(
                            currency_id,
                            initial_im_ratio,
                            liquidation_ratio,
                            transaction_fee,
                        )->Ok_0,
                    )
                    &&& events@ == change_events(
                        currency_id,
                        initial_im_ratio,
                        liquidation_ratio,
                        transaction_fee,
                    )
                },
                Err(e) => {
                    &&& old(self)@.changed_params(
                        currency_id,
                        initial_im_ratio,
                        liquidation_ratio,
                        transaction_fee,
                    ) == Err::<AssetParams, Error>(e)
                    &&& final(self)@ == old(self)@
                },
            },
    {
        if !self.is_asset(currency_id) {
            return Err(Error::BadAssetID);
        }
        let mut collateral_params = self.collateral_params(currency_id);
        let mut events: Vec<Event> = Vec::new();
        if let Change::NewValue(update) = initial_im_ratio {
            if update.deconstruct() < collateral_params.liquidation_ratio.deconstruct() {
                return Err(Error::BadIMParameters);
            }
            collateral_params.initial_im_ratio = update;
            events.push(Event::InitialIMRatioUpdated(currency_id, update));
        }
        if let Change::NewValue(update) = liquidation_ratio {
            if update.deconstruct() >= collateral_params.initial_im_ratio.deconstruct() {
                return Err(Error::BadIMParameters);
            }
            collateral_params.liquidation_ratio = update;
            events.push(Event::LiquidationRatioUpdated(currency_id, update));
        }
        if let Change::NewValue(update) = transaction_fee {
            collateral_params.transaction_fee = update;
            events.push(Event::TransactionFeeUpdated(currency_id, update));
        }
        proof {
            lemma_upsert(self@.params, currency_id, collateral_params);
            assert(events@ =~= change_events(
                currency_id,
                initial_im_ratio,
                liquidation_ratio,
                transaction_fee,
            ));
        }
        self.params.insert(currency_id, collateral_params);
        Ok(events)
    }
}

/// The risk parameters that the engine starts with.
pub struct GenesisConfig {
    /// For each asset: initial margin ratio, liquidation ratio, fee.
    pub collaterals_params: Vec<(CurrencyId, Ratio, Ratio, Ratio)>,
}

impl Default for GenesisConfig {
    fn default() -> (config: GenesisConfig)
        ensures
            config.collaterals_params@.len() == 0,
    {
        GenesisConfig { collaterals_params: Vec::new() }
    }
}

impl GenesisConfig {
    /// Loads the parameters into the engine, in order; a later entry for an
    /// asset replaces an earlier one.
    pub fn build(&self, pallet: &mut Pallet)
        requires
            old(pallet).wf(),
        ensures
            final(pallet).wf(),
            final(pallet)@ == old(pallet)@.loaded(self.collaterals_params@, self.collaterals_params@.len() as int),
    {
        let ghost before = pallet@;
        let mut i: usize = 0;
        while i < self.collaterals_params.len()
            invariant
                pallet.wf(),
                i <= self.collaterals_params.len(),
                pallet@ == before.loaded(self.collaterals_params@, i as int),
            decreases self.collaterals_params.len() - i,
        {
            let (id, initial_im_ratio, liquidation_ratio, transaction_fee) = self.collaterals_params[i];
            let params = AssetParams { initial_im_ratio, liquidation_ratio, transaction_fee };
            proof {
                lemma_upsert(pallet@.params, id, params);
            }
            pallet.params.insert(id, params);
            i += 1;
        }
    }
}

} // verus!
