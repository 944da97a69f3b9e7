//! A host in memory to run the engine against: a settable price source, a
//! ledger of native currency, an administrator, and a record of events.

use crate::arith::unsigned_abs;
use crate::cycle::{BlockNumber, Weight};
use crate::mint::MintOutcome;
use crate::oracle::{oracle_of, PriceProvider};
use crate::params::{change_events, GenesisConfig};
use crate::primitives::{AccountId, Change, CurrencyId, Error, Event, Price, Ratio, PRICE_SCALE};
use crate::state::{Pallet, PalletView};
use crate::table::{lookup, upsert, Table};
use vstd::prelude::*;

verus! {

/// An amount of native currency.
pub type Balance = u128;

pub const ALICE: AccountId = 1;

pub const BOB: AccountId = 2;

pub const CHARLIE: AccountId = 3;

pub const GEORGES: AccountId = 4;

/// The account that keeps all collateral.
pub const POOL_ACCOUNT: AccountId = 0x6163_612f_7061_736d;

/// The account that collects the fees.
pub const TREASURY_ACCOUNT: AccountId = 0x6163_612f_7074_7379;

/// A price source whose prices are set by hand: one price for DOT and one
/// for every other currency.
pub struct MockPriceSource {
    price_dot: Option<Price>,
    price_ldot: Option<Price>,
}

impl PriceProvider for MockPriceSource {
    closed spec fn price(&self, currency_id: CurrencyId) -> Option<Price> {
        if currency_id == CurrencyId::DOT {
            self.price_dot
        } else {
            self.price_ldot
        }
    }

    fn get_price(&self, currency_id: CurrencyId) -> (p: Option<Price>) {
        if currency_id == CurrencyId::DOT {
            return self.price_dot;
        }
        self.price_ldot
    }
}

impl MockPriceSource {
    /// A source that gives the price 1 for every currency.
    pub fn new() -> (source: MockPriceSource)
        ensures
            forall|c: CurrencyId| #[trigger] source.price(c) == Some(Price { inner: PRICE_SCALE }),
    {
        MockPriceSource { price_dot: Some(Price::one()), price_ldot: Some(Price::one()) }
    }

    /// Sets the price of DOT, or where another currency is named the price
    /// of all the others.
    pub fn set_price(&mut self, currency_id: CurrencyId, price: Option<Price>)
        ensures
            forall|c: CurrencyId|
                #[trigger] final(self).price(c) == (if (c == CurrencyId::DOT) == (currency_id
                    == CurrencyId::DOT) {
                    price
                } else {
                    old(self).price(c)
                }),
    {
        if currency_id == CurrencyId::DOT {
            self.price_dot = price;
        } else {
            self.price_ldot = price;
        }
    }
}

/// Why the ledger of native currency refuses.
#[derive(Clone, Copy, Debug, PartialEq, Eq, Structural)]
pub enum BankError {
    /// The payer holds less than the amount.
    InsufficientBalance,
    /// The payee would hold more than can be represented.
    Overflow,
}

/// What an account holds; nothing where it has no row.
pub open spec fn free_of(rows: Seq<(AccountId, Balance)>, who: AccountId) -> nat {
    match lookup(rows, who) {
        Some(free) => free as nat,
        None => 0,
    }
}

/// The rows after `value` moved from one account to another, or why it
/// cannot. Moving nothing, or to oneself, changes nothing.
pub open spec fn transferred(
    rows: Seq<(AccountId, Balance)>,
    from: AccountId,
    to: AccountId,
    value: Balance,
) -> Result<Seq<(AccountId, Balance)>, BankError> {
    if value == 0 || from == to {
        Ok(rows)
    } else if free_of(rows, from) < value {
        Err(BankError::InsufficientBalance)
    } else if free_of(rows, to) + value > u128::MAX {
        Err(BankError::Overflow)
    } else {
        Ok(
            upsert(
                upsert(rows, from, (free_of(rows, from) - value) as u128),
                to,
                (free_of(rows, to) + value) as u128,
            ),
        )
    }
}

/// The rows after `value` was taken from the account, or why it cannot be.
pub open spec fn withdrawn(rows: Seq<(AccountId, Balance)>, who: AccountId, value: Balance) -> Result<
    Seq<(AccountId, Balance)>,
    BankError,
> {
    if value == 0 {
        Ok(rows)
    } else if free_of(rows, who) < value {
        Err(BankError::InsufficientBalance)
    } else {
        Ok(upsert(rows, who, (free_of(rows, who) - value) as u128))
    }
}

/// The rows after `value` was given to the account; an amount that the
/// account cannot hold is lost.
pub open spec fn deposited(rows: Seq<(AccountId, Balance)>, who: AccountId, value: Balance) -> Seq<
    (AccountId, Balance),
> {
    if value == 0 || free_of(rows, who) + value > u128::MAX {
        rows
    } else {
        upsert(rows, who, (free_of(rows, who) + value) as u128)
    }
}

/// The rows after a mint was settled for the account, or why it cannot be:
/// the net collateral moves between the account and the pool, then the fee
/// moves from the account to the fee sink.
pub open spec fn settled_rows(rows: Seq<(AccountId, Balance)>, who: AccountId, outcome: MintOutcome) -> Result<
    Seq<(AccountId, Balance)>,
    BankError,
> {
    let size = if outcome.collateral < 0 {
        (-outcome.collateral) as u128
    } else {
        outcome.collateral as u128
    };
    let moved = if outcome.collateral > 0 {
        transferred(rows, who, POOL_ACCOUNT, size)
    } else if outcome.collateral < 0 {
        transferred(rows, POOL_ACCOUNT, who, size)
    } else {
        Ok(rows)
    };
    match moved {
        Err(e) => Err(e),
        Ok(rows) => match withdrawn(rows, who, outcome.fee) {
            Err(e) => Err(e),
            Ok(rows) => Ok(deposited(rows, TREASURY_ACCOUNT, outcome.fee)),
        },
    }
}

/// A ledger of native currency.
pub struct Bank {
    accounts: Table<AccountId, Balance>,
}

impl Bank {
    /// The rows of the ledger.
    pub closed spec fn view(&self) -> Seq<(AccountId, Balance)> {
        self.accounts@
    }

    /// No account has two rows.
    pub closed spec fn wf(&self) -> bool {
        self.accounts.wf()
    }

    /// A ledger in which nobody holds anything.
    pub fn new() -> (bank: Bank)
        ensures
            bank.wf(),
            bank@.len() == 0,
    {
        Bank { accounts: Table::new() }
    }

    /// A second ledger with the same rows.
    pub fn duplicate(&self) -> (bank: Bank)
        ensures
            bank@ == self@,
            self.wf() ==> bank.wf(),
    {
        Bank { accounts: self.accounts.duplicate() }
    }

    /// What the account holds.
    pub fn free_balance(&self, who: AccountId) -> (free: Balance)
        requires
            self.wf(),
        ensures
            free == free_of(self@, who),
    {
        match self.accounts.get(who) {
            Some(free) => free,
            None => 0,
        }
    }

    /// Sets what the account holds.
    pub fn endow(&mut self, who: AccountId, free: Balance)
        requires
            old(self).wf(),
        ensures
            final(self).wf(),
            final(self)@ == upsert(old(self)@, who, free),
    {
        self.accounts.insert(who, free);
    }

    /// Moves `value` from one account to another.
    pub fn transfer(&mut self, from: AccountId, to: AccountId, value: Balance) -> (r: Result<(), BankError>)
        requires
            old(self).wf(),
        ensures
            final(self).wf(),
            match r {
                Ok(_) => transferred(old(self)@, from, to, value) == Ok::<Seq<(AccountId, Balance)>, BankError>(
                    final(self)@,
                ),
                Err(e) => transferred(old(self)@, from, to, value) == Err::<Seq<(AccountId, Balance)>, BankError>(e)
                    && final(self)@ == old(self)@,
            },
    {
        if value == 0 || from == to {
            return Ok(());
        }
        let from_free = self.free_balance(from);
        if from_free < value {
            return Err(BankError::InsufficientBalance);
        }
        let to_free = self.free_balance(to);
        if to_free > u128::MAX - value {
            return Err(BankError::Overflow);
        }
        self.accounts.insert(from, from_free - value);
        self.accounts.insert(to, to_free + value);
        Ok(())
    }

    /// Takes `value` from the account.
    pub fn withdraw(&mut self, who: AccountId, value: Balance) -> (r: Result<(), BankError>)
        requires
            old(self).wf(),
        ensures
            final(self).wf(),
            match r {
                Ok(_) => withdrawn(old(self)@, who, value) == Ok::<Seq<(AccountId, Balance)>, BankError>(
                    final(self)@,
                ),
                Err(e) => withdrawn(old(self)@, who, value) == Err::<Seq<(AccountId, Balance)>, BankError>(e)
                    && final(self)@ == old(self)@,
            },
    {
        if value == 0 {
            return Ok(());
        }
        let free = self.free_balance(who);
        if free < value {
            return Err(BankError::InsufficientBalance);
        }
        self.accounts.insert(who, free - value);
        Ok(())
    }

    /// Gives `value` to the account; an amount that it cannot hold is lost.
    pub fn deposit(&mut self, who: AccountId, value: Balance)
        requires
            old(self).wf(),
        ensures
            final(self).wf(),
            final(self)@ == deposited(old(self)@, who, value),
    {
        if value == 0 {
            return ;
        }
        let free = self.free_balance(who);
        if free > u128::MAX - value {
            return ;
        }
        self.accounts.insert(who, free + value);
    }

    /// Settles a mint for the account; a ledger that refuses is left as it
    /// was.
    pub fn settle(&mut self, who: AccountId, outcome: &MintOutcome) -> (r: Result<(), BankError>)
        requires
            old(self).wf(),
        ensures
            final(self).wf(),
            match r {
                Ok(_) => settled_rows(old(self)@, who, *outcome) == Ok::<Seq<(AccountId, Balance)>, BankError>(
                    final(self)@,
                ),
                Err(e) => settled_rows(old(self)@, who, *outcome) == Err::<Seq<(AccountId, Balance)>, BankError>(e)
                    && final(self)@ == old(self)@,
            },
    {
        let saved = self.duplicate();
        let size = unsigned_abs(outcome.collateral);
        let moved = if outcome.collateral > 0 {
            self.transfer(who, POOL_ACCOUNT, size)
        } else if outcome.collateral < 0 {
            self.transfer(POOL_ACCOUNT, who, size)
        } else {
            Ok(())
        };
        if let Err(e) = moved {
            return Err(e);
        }
        if let Err(e) = self.withdraw(who, outcome.fee) {
            *self = saved;
            return Err(e);
        }
        self.deposit(TREASURY_ACCOUNT, outcome.fee);
        Ok(())
    }
}

/// Who asks for an operation.
#[derive(Clone, Copy, Debug, PartialEq, Eq, Structural)]
pub enum Origin {
    /// The host itself.
    Root,
    /// An account.
    Signed(AccountId),
    /// Nobody.
    Unsigned,
}

impl Origin {
    /// The origin of a call that the account makes.
    pub fn signed(who: AccountId) -> (origin: Origin)
        ensures
            origin == Origin::Signed(who),
    {
        Origin::Signed(who)
    }
}

/// Why the host rejects an operation.
#[derive(Clone, Copy, Debug, PartialEq, Eq, Structural)]
pub enum DispatchError {
    /// The caller is not entitled to the operation.
    BadOrigin,
    /// The engine rejects it.
    Module(Error),
    /// The ledger of native currency refuses.
    Currency(BankError),
}

/// The engine with its host in memory.
pub struct Runtime {
    /// The engine.
    pub pallet: Pallet,
    /// The ledger of native currency.
    pub bank: Bank,
    /// The price source.
    pub prices: MockPriceSource,
    /// The events reported so far, oldest first.
    pub events: Vec<Event>,
    /// The account that may change risk parameters.
    pub admin: AccountId,
}

impl Runtime {
    /// The engine and the ledger are well formed.
    pub open spec fn wf(&self) -> bool {
        self.pallet.wf() && self.bank.wf()
    }

    /// Runs one settlement cycle at the current prices.
    pub fn on_initialize(&mut self, n: BlockNumber) -> (weight: Weight)
        requires
            old(self).wf(),
        ensures
            final(self).wf(),
            final(self).pallet@ == old(self).pallet@.on_initialize(oracle_of(&old(self).prices)),
            final(self).bank@ == old(self).bank@,
            final(self).prices == old(self).prices,
            final(self).events@ == old(self).events@,
            final(self).admin == old(self).admin,
            weight == 10,
    {
        self.pallet.on_initialize(&self.prices, n)
    }

    /// Marks the asset to its current price.
    pub fn update_margin(&mut self, currency_id: CurrencyId)
        requires
            old(self).wf(),
        ensures
            final(self).wf(),
            final(self).pallet@ == old(self).pallet@.update_margin(
                currency_id,
                old(self).prices.price(currency_id),
            ),
            final(self).bank@ == old(self).bank@,
            final(self).prices == old(self).prices,
            final(self).events@ == old(self).events@,
            final(self).admin == old(self).admin,
    {
        self.pallet.update_margin(&self.prices, currency_id);
    }

    /// Matches the open interest in the asset.
    pub fn match_interest(&mut self, currency_id: CurrencyId)
        requires
            old(self).wf(),
        ensures
            final(self).wf(),
            final(self).pallet@ == old(self).pallet@.match_interest(currency_id),
            final(self).bank@ == old(self).bank@,
            final(self).prices == old(self).prices,
            final(self).events@ == old(self).events@,
            final(self).admin == old(self).admin,
    {
        self.pallet.match_interest(currency_id);
    }

    /// Liquidates across all accounts.
    pub fn liquidate(&mut self)
        requires
            old(self).wf(),
        ensures
            final(self).wf(),
            final(self).pallet@ == old(self).pallet@.liquidate(),
            final(self).bank@ == old(self).bank@,
            final(self).prices == old(self).prices,
            final(self).events@ == old(self).events@,
            final(self).admin == old(self).admin,
    {
        self.pallet.liquidate();
    }

    /// A mint on behalf of a signed origin, settled in native currency: all
    /// of it happens, or nothing.
    pub fn mint(&mut self, origin: Origin, currency_id: CurrencyId, amount: i128, collateral: i128) -> (r: Result<
        (),
        DispatchError,
    >)
        requires
            old(self).wf(),
        ensures
            final(self).wf(),
            final(self).prices == old(self).prices,
            final(self).admin == old(self).admin,
            match r {
                Ok(_) => {
                    &&& origin is Signed
                    &&& old(self).pallet@.mint_outcome(
                        oracle_of(&old(self).prices),
                        origin->Signed_0,
                        currency_id,
                        amount as int,
                        collateral as int,
                    ) matches Ok(outcome) && {
                        &&& final(self).pallet@ == old(self).pallet@.apply_mint(
                            origin->Signed_0,
                            currency_id,
                            outcome,
                        )
                        &&& settled_rows(old(self).bank@, origin->Signed_0, outcome) == Ok::<
                            Seq<(AccountId, Balance)>,
                            BankError,
                        >(final(self).bank@)
                        &&& final(self).events@ == old(self).events@ + outcome.spec_events(origin->Signed_0)
                    }
                },
                Err(e) => {
                    &&& final(self).pallet@ == old(self).pallet@
                    &&& final(self).bank@ == old(self).bank@
                    &&& final(self).events@ == old(self).events@
                    &&& e == (match origin {
                        Origin::Signed(who) => match old(self).pallet@.mint_outcome(
                            oracle_of(&old(self).prices),
                            who,
                            currency_id,
                            amount as int,
                            collateral as int,
                        ) {
                            Err(e) => DispatchError::Module(e),
                            Ok(outcome) => DispatchError::Currency(
                                settled_rows(old(self).bank@, who, outcome)->Err_0,
                            ),
                        },
                        _ => DispatchError::BadOrigin,
                    })
                    &&& origin matches Origin::Signed(who) ==> old(self).pallet@.mint_outcome(
                        oracle_of(&old(self).prices),
                        who,
                        currency_id,
                        amount as int,
                        collateral as int,
                    ) matches Ok(outcome) ==> settled_rows(old(self).bank@, who, outcome) is Err
                },
            },
    {
        let who = match origin {
            Origin::Signed(who) => who,
            _ => {
                return Err(DispatchError::BadOrigin);
            },
        };
        let outcome = match self.pallet.check_mint(&self.prices, who, currency_id, amount, collateral) {
            Ok(outcome) => outcome,
            Err(e) => {
                return Err(DispatchError::Module(e));
            },
        };
        if let Err(e) = self.bank.settle(who, &outcome) {
            return Err(DispatchError::Currency(e));
        }
        let _applied = self.pallet.mint(&self.prices, who, currency_id, amount, collateral);
        let mut reported = outcome.events(who);
        self.events.append(&mut reported);
        Ok(())
    }

    /// A change of risk parameters on behalf of the administrator or the
    /// host itself.
    pub fn set_global_params(
        &mut self,
        origin: Origin,
        currency_id: CurrencyId,
        initial_im_ratio: Change<Ratio>,
        liquidation_ratio: Change<Ratio>,
        transaction_fee: Change<Ratio>,
    ) -> (r: Result<(), DispatchError>)
        requires
            old(self).wf(),
        ensures
            final(self).wf(),
            final(self).prices == old(self).prices,
            final(self).admin == old(self).admin,
            final(self).bank@ == old(self).bank@,
            match r {
                Ok(_) => {
                    &&& origin == Origin::Root || origin == Origin::Signed(old(self).admin)
                    &&& old(self).pallet@.changed_params(
                        currency_id,
                        initial_im_ratio,
                        liquidation_ratio,
                        transaction_fee,
                    ) matches Ok(params) && final(self).pallet@ == old(self).pallet@.with_params(
                        currency_id,
                        params,
                    )
                    &&& final(self).events@ == old(self).events@ + change_events(
                        currency_id,
                        initial_im_ratio,
                        liquidation_ratio,
                        transaction_fee,
                    )
                },
                Err(e) => {
                    &&& final(self).pallet@ == old(self).pallet@
                    &&& final(self).events@ == old(self).events@
                    &&& e == (if origin == Origin::Root || origin == Origin::Signed(old(self).admin) {
                        DispatchError::Module(
                            old(self).pallet@.changed_params(
                                currency_id,
                                initial_im_ratio,
                                liquidation_ratio,
                                transaction_fee,
                            )->Err_0,
                        )
                    } else {
                        DispatchError::BadOrigin
                    })
                    &&& (origin == Origin::Root || origin == Origin::Signed(old(self).admin))
                        ==> old(self).pallet@.changed_params(
                        currency_id,
                        initial_im_ratio,
                        liquidation_ratio,
                        transaction_fee,
                    ) is Err
                },
            },
    {
        let entitled = match origin {
            Origin::Root => true,
            Origin::Signed(who) => who == self.admin,
            Origin::Unsigned => false,
        };
        if !entitled {
            return Err(DispatchError::BadOrigin);
        }
        match self.pallet.set_global_params(
            currency_id,
            initial_im_ratio,
            liquidation_ratio,
            transaction_fee,
        ) {
            Ok(mut reported) => {
                self.events.append(&mut reported);
                Ok(())
            },
            Err(e) => Err(DispatchError::Module(e)),
        }
    }

    /// The matched exposure of the account in the asset.
    pub fn inventory(&self, currency_id: CurrencyId, who: &AccountId) -> (b: i128)
        requires
            self.wf(),
        ensures
            b == self.pallet@.inventory_of(currency_id, *who),
    {
        self.pallet.inventory(currency_id, *who)
    }

    /// The signed exposure of the account in the asset.
    pub fn balances(&self, currency_id: CurrencyId, who: &AccountId) -> (b: i128)
        requires
            self.wf(),
        ensures
            b == self.pallet@.balance_of(currency_id, *who),
    {
        self.pallet.balances(currency_id, *who)
    }

    /// The margin of the account.
    pub fn margin(&self, who: &AccountId) -> (m: u128)
        requires
            self.wf(),
        ensures
            m == self.pallet@.margin_of(*who),
    {
        self.pallet.margin(*who)
    }

    /// The native currency that the pool keeps.
    pub fn total_collateral_balance(&self) -> (free: Balance)
        requires
            self.wf(),
        ensures
            free == free_of(self.bank@, POOL_ACCOUNT),
    {
        self.bank.free_balance(POOL_ACCOUNT)
    }

    /// The native currency that the account holds.
    pub fn total_treasury_balance(&self, account: &AccountId) -> (free: Balance)
        requires
            self.wf(),
        ensures
            free == free_of(self.bank@, *account),
    {
        self.bank.free_balance(*account)
    }

    /// The event reported last, if any was.
    pub fn last_event(&self) -> (event: Option<Event>)
        ensures
            event == (if self.events@.len() == 0 {
                None
            } else {
                Some(self.events@.last())
            }),
    {
        if self.events.len() == 0 {
            None
        } else {
            Some(self.events[self.events.len() - 1])
        }
    }
}

/// The native currency that the fee sink holds.
pub fn balance_of_treasury(runtime: &Runtime) -> (free: Balance)
    requires
        runtime.wf(),
    ensures
        free == free_of(runtime.bank@, TREASURY_ACCOUNT),
{
    runtime.total_treasury_balance(&TREASURY_ACCOUNT)
}

/// What a host in memory starts with.
pub struct ExtBuilder {
    endowed_accounts: Vec<(AccountId, Balance)>,
    collaterals_params: Vec<(CurrencyId, Ratio, Ratio, Ratio)>,
}

/// The ledger rows after the first `n` accounts were endowed in order.
pub open spec fn endowed(accounts: Seq<(AccountId, Balance)>, n: int) -> Seq<(AccountId, Balance)>
    decreases n,
{
    if n <= 0 {
        Seq::empty()
    } else {
        upsert(endowed(accounts, n - 1), accounts[n - 1].0, accounts[n - 1].1)
    }
}

impl Default for ExtBuilder {
    fn default() -> (builder: ExtBuilder)
        ensures
            builder.accounts() == seq![
                (ALICE, 1_000_000_000_000_000_000u128),
                (BOB, 1_000_000_000_000_000_000u128),
                (CHARLIE, 1_000_000_000_000_000_000u128),
                (GEORGES, 1_000_000_000_000_000_000u128),
            ],
            builder.params().len() == 2,
            builder.params()[0].0 == CurrencyId::DOT,
            builder.params()[0].1.parts() == 200_000,
            builder.params()[0].2.parts() == 100_000,
            builder.params()[0].3.parts() == 1_000,
            builder.params()[1].0 == CurrencyId::LDOT,
            builder.params()[1].1.parts() == 300_000,
            builder.params()[1].2.parts() == 100_000,
            builder.params()[1].3.parts() == 20_000,
    {
        let mut endowed_accounts: Vec<(AccountId, Balance)> = Vec::new();
        endowed_accounts.push((ALICE, 1_000_000_000_000_000_000u128));
        endowed_accounts.push((BOB, 1_000_000_000_000_000_000u128));
        endowed_accounts.push((CHARLIE, 1_000_000_000_000_000_000u128));
        endowed_accounts.push((GEORGES, 1_000_000_000_000_000_000u128));
        let mut collaterals_params: Vec<(CurrencyId, Ratio, Ratio, Ratio)> = Vec::new();
        collaterals_params.push(
            (CurrencyId::DOT, Ratio::from_percent(20), Ratio::from_percent(10), Ratio::from_parts(1000)),
        );
        collaterals_params.push(
            (CurrencyId::LDOT, Ratio::from_percent(30), Ratio::from_percent(10), Ratio::from_parts(20000)),
        );
        let builder = ExtBuilder { endowed_accounts, collaterals_params };
        assert(builder.accounts() =~= seq![
            (ALICE, 1_000_000_000_000_000_000u128),
            (BOB, 1_000_000_000_000_000_000u128),
            (CHARLIE, 1_000_000_000_000_000_000u128),
            (GEORGES, 1_000_000_000_000_000_000u128),
        ]);
        builder
    }
}

impl ExtBuilder {
    /// The accounts to endow and what each is to hold.
    pub closed spec fn accounts(&self) -> Seq<(AccountId, Balance)> {
        self.endowed_accounts@
    }

    /// The risk parameters to load.
    pub closed spec fn params(&self) -> Seq<(CurrencyId, Ratio, Ratio, Ratio)> {
        self.collaterals_params@
    }

    /// The host: an engine for DOT and LDOT with the risk parameters
    /// loaded, the accounts endowed, every price 1, no events, and ALICE
    /// as administrator.
    pub fn build(self) -> (runtime: Runtime)
        ensures
            runtime.wf(),
            runtime.pallet@ == (PalletView {
                asset_ids: seq![CurrencyId::DOT, CurrencyId::LDOT],
                params: Seq::empty(),
                positions: Seq::empty(),
                margins: Seq::empty(),
                prices: Seq::empty(),
            }).loaded(self.params(), self.params().len() as int),
            runtime.bank@ == endowed(self.accounts(), self.accounts().len() as int),
            forall|c: CurrencyId| #[trigger] runtime.prices.price(c) == Some(Price { inner: PRICE_SCALE }),
            runtime.events@.len() == 0,
            runtime.admin == ALICE,
    {
        let mut asset_ids: Vec<CurrencyId> = Vec::new();
        asset_ids.push(CurrencyId::DOT);
        asset_ids.push(CurrencyId::LDOT);
        let mut pallet = Pallet::new(asset_ids);
        assert(pallet@ =~= (PalletView {
            asset_ids: seq![CurrencyId::DOT, CurrencyId::LDOT],
            params: Seq::empty(),
            positions: Seq::empty(),
            margins: Seq::empty(),
            prices: Seq::empty(),
        })) by {
            assert(pallet@.asset_ids =~= seq![CurrencyId::DOT, CurrencyId::LDOT]);
            assert(pallet@.params =~= Seq::empty());
            assert(pallet@.positions =~= Seq::empty());
            assert(pallet@.margins =~= Seq::empty());
            assert(pallet@.prices =~= Seq::empty());
        }
        let genesis = GenesisConfig { collaterals_params: self.collaterals_params };
        genesis.build(&mut pallet);
        let mut bank = Bank::new();
        assert(bank@ =~= endowed(self.accounts(), 0));
        let mut i: usize = 0;
        while i < self.endowed_accounts.len()
            invariant
                bank.wf(),
                i <= self.endowed_accounts.len(),
                bank@ == endowed(self.endowed_accounts@, i as int),
            decreases self.endowed_accounts.len() - i,
        {
            let (who, free) = self.endowed_accounts[i];
            bank.endow(who, free);
            i += 1;
        }
        Runtime { pallet, bank, prices: MockPriceSource::new(), events: Vec::new(), admin: ALICE }
    }
}

} // verus!
