//! The economic core of a collateralized-debt protocol: fixed-point
//! arithmetic, the collateral registry, the vault ledger and the
//! Dutch-auction liquidator.

pub mod fixed_point;
pub mod types;
pub mod registry;
pub mod allowlist;
pub mod vault;
pub mod auction;
pub mod cdp;
pub mod dutchauctionliquidator;
pub mod utils;
