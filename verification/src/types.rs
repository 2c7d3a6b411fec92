//! Identities, errors and the calls that an operation asks of its
//! collaborators.

use vstd::prelude::*;
use crate::fixed_point::I256;

verus! {

/// A 256-bit identifier as four 64-bit words.
#[derive(Clone, Copy, Debug, PartialEq, Eq, Structural)]
pub struct Bits256 {
    pub a: u64,
    pub b: u64,
    pub c: u64,
    pub d: u64,
}

/// Who acts or owns: a wallet address or a contract.
#[derive(Clone, Copy, Debug, PartialEq, Eq, Structural)]
pub enum Identity {
    Address(Bits256),
    ContractId(Bits256),
}

/// Why an operation was rejected. A rejected operation changes nothing.
#[derive(Clone, Copy, Debug, PartialEq, Eq, Structural)]
pub enum Error {
    InvalidConfig,
    UnknownCollateralType,
    CollateralTypeDisabled,
    Unauthorized,
    ZeroAmount,
    DebtCeilingExceeded,
    Undercollateralized,
    InsufficientCollateral,
    UnknownVault,
    HealthyVault,
    UnknownAuction,
    AuctionExpired,
    AuctionNotExpired,
    Underpayment,
    PriceUnavailable,
    TransferRejected,
}

/// One call that an accepted operation asks of a collaborator. The host
/// performs the calls in the order given; if one fails, it drops the
/// operation as a whole.
#[allow(inconsistent_fields)]
#[derive(Clone, Copy, Debug, PartialEq, Eq, Structural)]
pub enum Effect {
    /// Take `amount` of `asset` from `from`.
    Debit { asset: Bits256, from: Identity, amount: u64 },
    /// Give `amount` of `asset` to `to`.
    Credit { asset: Bits256, to: Identity, amount: u64 },
    /// Report `amount` to the balance sheet as surplus.
    ReportSurplus { amount: I256 },
    /// Report `amount` to the balance sheet as deficit.
    ReportDeficit { amount: I256 },
}

} // verus!
