//! The ledgers of the engine and their mathematical model.

use crate::primitives::{AccountId, AssetParams, CurrencyId, Price};
use crate::table::{keys_unique, lookup, Key, Table};
use vstd::prelude::*;

verus! {

/// What a position is stored under: an asset and the account that holds it.
#[derive(Clone, Copy, Debug, PartialEq, Eq, Structural)]
pub struct PositionKey {
    pub asset: CurrencyId,
    pub account: AccountId,
}

impl Key for PositionKey {
    fn same(&self, other: &Self) -> (b: bool) {
        self.asset == other.asset && self.account == other.account
    }
}

/// The exposure of one account in one asset.
#[derive(Clone, Copy, Debug, PartialEq, Eq, Structural)]
pub struct Holding {
    /// Signed exposure: positive is long, negative is short.
    pub balance: i128,
    /// The part of the exposure that is matched with the other side.
    pub inventory: i128,
}

/// The largest margin an account can hold.
pub const MARGIN_MAX: u128 = 170141183460469231731687303715884105727;

/// The state of the engine as plain mathematics: the configured assets in
/// order, and the rows of each ledger.
pub struct PalletView {
    pub asset_ids: Seq<CurrencyId>,
    pub params: Seq<(CurrencyId, AssetParams)>,
    pub positions: Seq<(PositionKey, Holding)>,
    pub margins: Seq<(AccountId, u128)>,
    pub prices: Seq<(CurrencyId, Price)>,
}

impl PalletView {
    /// Each ledger holds a key once, and every margin fits a signed amount.
    pub open spec fn wf(self) -> bool {
        &&& keys_unique(self.params)
        &&& keys_unique(self.positions)
        &&& keys_unique(self.margins)
        &&& keys_unique(self.prices)
        &&& forall|i: int| 0 <= i < self.margins.len() ==> (#[trigger] self.margins[i]).1 <= MARGIN_MAX
    }

    /// Whether the asset is one of the configured assets.
    pub open spec fn is_asset(self, asset: CurrencyId) -> bool {
        self.asset_ids.contains(asset)
    }

    /// The risk parameters of the asset; all zero where none were set.
    pub open spec fn params_of(self, asset: CurrencyId) -> AssetParams {
        match lookup(self.params, asset) {
            Some(p) => p,
            None => AssetParams::zero(),
        }
    }

    /// The position of the account in the asset; zero where none is stored.
    pub open spec fn holding_of(self, asset: CurrencyId, who: AccountId) -> Holding {
        match lookup(self.positions, PositionKey { asset, account: who }) {
            Some(h) => h,
            None => Holding { balance: 0, inventory: 0 },
        }
    }

    /// The signed exposure of the account in the asset.
    pub open spec fn balance_of(self, asset: CurrencyId, who: AccountId) -> int {
        self.holding_of(asset, who).balance as int
    }

    /// The matched exposure of the account in the asset.
    pub open spec fn inventory_of(self, asset: CurrencyId, who: AccountId) -> int {
        self.holding_of(asset, who).inventory as int
    }

    /// The margin entry of the account, if it has one.
    pub open spec fn margin_entry(self, who: AccountId) -> Option<u128> {
        lookup(self.margins, who)
    }

    /// The margin of the account; zero where it has no entry.
    pub open spec fn margin_of(self, who: AccountId) -> nat {
        match lookup(self.margins, who) {
            Some(m) => m as nat,
            None => 0,
        }
    }

    /// The price at which the asset was last marked to market, if ever.
    pub open spec fn baseline(self, asset: CurrencyId) -> Option<Price> {
        lookup(self.prices, asset)
    }
}

/// The engine: the configured assets and the ledgers of parameters,
/// positions, margins and baseline prices.
pub struct Pallet {
    pub(crate) asset_ids: Vec<CurrencyId>,
    pub(crate) params: Table<CurrencyId, AssetParams>,
    pub(crate) positions: Table<PositionKey, Holding>,
    pub(crate) margins: Table<AccountId, u128>,
    pub(crate) prices: Table<CurrencyId, Price>,
}

impl Pallet {
    /// The state of the engine as plain mathematics.
    pub open(crate) spec fn view(&self) -> PalletView {
        PalletView {
            asset_ids: self.asset_ids@,
            params: self.params@,
            positions: self.positions@,
            margins: self.margins@,
            prices: self.prices@,
        }
    }

    /// The ledgers are well formed.
    pub open spec fn wf(&self) -> bool {
        self@.wf()
    }

    /// An engine for the given assets with empty ledgers.
    pub fn new(asset_ids: Vec<CurrencyId>) -> (pallet: Pallet)
        ensures
            pallet.wf(),
            pallet@.asset_ids == asset_ids@,
            pallet@.params.len() == 0,
            pallet@.positions.len() == 0,
            pallet@.margins.len() == 0,
            pallet@.prices.len() == 0,
    {
        Pallet {
            asset_ids,
            params: Table::new(),
            positions: Table::new(),
            margins: Table::new(),
            prices: Table::new(),
        }
    }

    /// Whether the asset is one of the configured assets.
    pub fn is_asset(&self, asset: CurrencyId) -> (b: bool)
        ensures
            b == self@.is_asset(asset),
    {
        let mut i: usize = 0;
        while i < self.asset_ids.len()
            invariant
                i <= self.asset_ids.len(),
                forall|j: int| 0 <= j < i ==> self.asset_ids@[j] != asset,
            decreases self.asset_ids.len() - i,
        {
            if self.asset_ids[i] == asset {
                return true;
            }
            i += 1;
        }
        false
    }

    /// The risk parameters of the asset; all zero where none were set.
    pub fn collateral_params(&self, asset: CurrencyId) -> (p: AssetParams)
        requires
            self.wf(),
        ensures
            p == self@.params_of(asset),
    {
        match self.params.get(asset) {
            Some(p) => p,
            None => AssetParams::default(),
        }
    }

    /// The position of the account in the asset.
    pub fn holding(&self, asset: CurrencyId, who: AccountId) -> (h: Holding)
        requires
            self.wf(),
        ensures
            h == self@.holding_of(asset, who),
    {
        match self.positions.get(PositionKey { asset, account: who }) {
            Some(h) => h,
            None => Holding { balance: 0, inventory: 0 },
        }
    }

    /// The signed exposure of the account in the asset.
    pub fn balances(&self, asset: CurrencyId, who: AccountId) -> (b: i128)
        requires
            self.wf(),
        ensures
            b == self@.balance_of(asset, who),
    {
        self.holding(asset, who).balance
    }

    /// The matched exposure of the account in the asset.
    pub fn inventory(&self, asset: CurrencyId, who: AccountId) -> (b: i128)
        requires
            self.wf(),
        ensures
            b == self@.inventory_of(asset, who),
    {
        self.holding(asset, who).inventory
    }

    /// The margin of the account; zero where it has no entry.
    pub fn margin(&self, who: AccountId) -> (m: u128)
        requires
            self.wf(),
        ensures
            m == self@.margin_of(who),
    {
        match self.margins.get(who) {
            Some(m) => m,
            None => 0,
        }
    }

    /// The price at which the asset was last marked to market, if ever.
    pub fn price0(&self, asset: CurrencyId) -> (p: Option<Price>)
        requires
            self.wf(),
        ensures
            p == self@.baseline(asset),
    {
        self.prices.get(asset)
    }
}

} // verus!
