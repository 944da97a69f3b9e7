//! Margin and settlement engine for synthetic long/short exposure to a price
//! feed: collateralised positions, pro-rata matching of opposing interest,
//! mark-to-market and liquidation, all in integer and fixed-point arithmetic.

pub mod arith;
pub mod cycle;
pub mod laws;
pub mod liquidation;
pub mod margin;
pub mod matching;
pub mod mint;
pub mod mock;
pub mod oracle;
pub mod params;
pub mod primitives;
pub mod state;
pub mod table;

pub use mint::MintOutcome;
pub use oracle::PriceProvider;
pub use params::GenesisConfig;
pub use primitives::{AccountId, AssetParams, Change, CurrencyId, Error, Event, Price, Ratio};
pub use state::{Holding, Pallet, PalletView, PositionKey};
