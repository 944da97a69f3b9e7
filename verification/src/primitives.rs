//! Identifiers, fixed-point quantities, risk parameters, errors and events.

use vstd::prelude::*;

verus! {

/// Identifier of an account.
pub type AccountId = u128;

/// Identifier of a currency; the synthetic assets are a configured subset.
#[derive(Clone, Copy, Debug, PartialEq, Eq, PartialOrd, Ord, Hash, Structural)]
pub enum CurrencyId {
    KUSD,
    DOT,
    LDOT,
}

/// One part in this many is the resolution of a [`Price`].
pub const PRICE_SCALE: u128 = 1_000_000_000_000_000_000;

/// One part in this many is the resolution of a [`Ratio`].
pub const RATIO_SCALE: u32 = 1_000_000;

/// Unsigned decimal fixed-point number with eighteen fractional digits.
#[derive(Clone, Copy, Debug, PartialEq, Eq, Structural)]
pub struct Price {
    pub inner: u128,
}

impl Price {
    /// The price whose raw representation is `inner`.
    pub fn from_inner(inner: u128) -> (p: Price)
        ensures
            p.inner == inner,
    {
        Price { inner }
    }

    /// The raw representation: the price times `PRICE_SCALE`.
    pub fn into_inner(self) -> (inner: u128)
        ensures
            inner == self.inner,
    {
        self.inner
    }

    /// The whole number `n` as a price, or the largest price where `n` is
    /// beyond the range.
    pub fn saturating_from_integer(n: u128) -> (p: Price)
        ensures
            p.inner == (if n * PRICE_SCALE <= u128::MAX {
                n * PRICE_SCALE
            } else {
                u128::MAX as int
            }),
    {
        if n <= u128::MAX / PRICE_SCALE {
            assert(n * PRICE_SCALE <= u128::MAX) by (nonlinear_arith)
                requires
                    n <= u128::MAX / PRICE_SCALE,
                    PRICE_SCALE > 0,
            ;
            Price { inner: n * PRICE_SCALE }
        } else {
            assert(n * PRICE_SCALE > u128::MAX) by (nonlinear_arith)
                requires
                    n > u128::MAX / PRICE_SCALE,
                    PRICE_SCALE > 0,
            ;
            Price { inner: u128::MAX }
        }
    }

    /// The price 1.
    pub fn one() -> (p: Price)
        ensures
            p.inner == PRICE_SCALE,
    {
        Price { inner: PRICE_SCALE }
    }

    /// Whether this is the price 0.
    pub fn is_zero(&self) -> (z: bool)
        ensures
            z == (self.inner == 0),
    {
        self.inner == 0
    }
}

/// A fraction between 0 and 1 in parts per million.
#[derive(Clone, Copy, Debug, PartialEq, Eq, Structural)]
pub struct Ratio {
    parts: u32,
}

impl Ratio {
    #[verifier::type_invariant]
    spec fn in_range(self) -> bool {
        self.parts <= RATIO_SCALE
    }

    /// Parts per million of this fraction.
    pub closed spec fn parts(self) -> nat {
        self.parts as nat
    }

    /// The fraction `parts` per million, or 1 where `parts` is more than
    /// a million.
    pub fn from_parts(parts: u32) -> (r: Ratio)
        ensures
            r.parts() == (if parts <= RATIO_SCALE { parts } else { RATIO_SCALE }),
    {
        if parts <= RATIO_SCALE {
            Ratio { parts }
        } else {
            Ratio { parts: RATIO_SCALE }
        }
    }

    /// The fraction `x` per hundred, or 1 where `x` is more than a hundred.
    pub fn from_percent(x: u32) -> (r: Ratio)
        ensures
            r.parts() == (if x <= 100 { x * 10_000 } else { RATIO_SCALE as int }),
    {
        if x <= 100 {
            Ratio { parts: x * 10_000 }
        } else {
            Ratio { parts: RATIO_SCALE }
        }
    }

    /// Two fractions with the same parts are the same fraction.
    pub proof fn lemma_same_parts(self, other: Ratio)
        requires
            self.parts() == other.parts(),
        ensures
            self == other,
    {
    }

    /// The fraction 0.
    pub closed spec fn spec_zero() -> Ratio {
        Ratio { parts: 0 }
    }

    /// The fraction 0 has no parts.
    pub proof fn lemma_spec_zero()
        ensures
            Ratio::spec_zero().parts() == 0,
    {
    }

    /// The fraction 0.
    pub fn zero() -> (r: Ratio)
        ensures
            r == Ratio::spec_zero(),
            r.parts() == 0,
    {
        Ratio { parts: 0 }
    }

    /// Parts per million of this fraction, at most a million.
    pub fn deconstruct(self) -> (parts: u32)
        ensures
            parts == self.parts(),
            parts <= RATIO_SCALE,
    {
        proof {
            use_type_invariant(&self);
        }
        self.parts
    }
}

/// Risk parameters of one asset.
#[derive(Clone, Copy, Debug, PartialEq, Eq, Structural)]
pub struct AssetParams {
    /// Collateral required to open or hold exposure, as a share of its value.
    pub initial_im_ratio: Ratio,
    /// Share of the value below which a position is unwound.
    pub liquidation_ratio: Ratio,
    /// Share of a trade's value charged as a fee.
    pub transaction_fee: Ratio,
}

impl AssetParams {
    /// The parameters of an asset for which none were set: every ratio 0.
    pub open spec fn zero() -> AssetParams {
        AssetParams {
            initial_im_ratio: Ratio::spec_zero(),
            liquidation_ratio: Ratio::spec_zero(),
            transaction_fee: Ratio::spec_zero(),
        }
    }
}

impl Default for AssetParams {
    fn default() -> (p: AssetParams)
        ensures
            p == AssetParams::zero(),
    {
        AssetParams {
            initial_im_ratio: Ratio::zero(),
            liquidation_ratio: Ratio::zero(),
            transaction_fee: Ratio::zero(),
        }
    }
}

/// Whether a value is to be replaced.
#[derive(Clone, Copy, Debug, PartialEq, Eq)]
pub enum Change<Value> {
    /// No change.
    NoChange,
    /// Changed to new value.
    NewValue(Value),
}

/// Why an operation was rejected.
#[derive(Clone, Copy, Debug, PartialEq, Eq, Structural)]
pub enum Error {
    /// The margin after the operation would not cover the initial margin.
    NotEnoughIM,
    /// A quantity does not fit when changing between signed and unsigned.
    AmountConvertFailed,
    /// A quantity exceeds the representable range.
    Overflow,
    /// A withdrawal exceeds what is held.
    NotEnoughBalance,
    /// No price is available for an asset that must be valued.
    PriceNotSet,
    /// The asset is not one of the configured assets.
    BadAssetID,
    /// The new parameters would put the liquidation ratio above the initial margin ratio.
    BadIMParameters,
}

/// What an operation reports to observers.
#[derive(Clone, Copy, Debug, PartialEq, Eq, Structural)]
pub enum Event {
    /// Collateral was moved by this signed amount.
    CollateralUpdated(i128),
    /// The exposure of the account is now this signed amount.
    BalanceUpdated(AccountId, i128),
    /// The initial margin ratio of the asset is now this.
    InitialIMRatioUpdated(CurrencyId, Ratio),
    /// The liquidation ratio of the asset is now this.
    LiquidationRatioUpdated(CurrencyId, Ratio),
    /// The transaction fee of the asset is now this.
    TransactionFeeUpdated(CurrencyId, Ratio),
}

} // verus!
