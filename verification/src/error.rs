//! The ways in which a mint can fail.

use vstd::prelude::*;

verus! {

/// Why a token's schedule does not allow a mint at some height.
#[derive(Clone, Copy, Debug, PartialEq, Eq, Structural)]
pub enum ClosedReason {
    /// The token was etched without mint terms.
    Unmintable,
    /// Minting opens at the height given.
    NotStarted(u64),
    /// Minting closed at the height given.
    Ended(u64),
    /// The number of mints given, the cap, has been reached.
    CapReached(u128),
}

/// Every failure that building and checking a mint can report. None is
/// retried: the first one ends the mint.
#[derive(Clone, Copy, Debug, PartialEq, Eq, Structural)]
pub enum MintError {
    /// The wallet's index does not track tokens.
    IndexMissing,
    /// The index holds no token under the identifier.
    TokenNotFound,
    /// The token's schedule does not allow a mint at the height asked.
    MintingClosed(ClosedReason),
    /// The destination address is not one of the active network.
    AddressNetworkMismatch,
    /// The postage does not exceed the dust limit of the destination.
    PostageBelowDust,
    /// The script that carries the message is longer than relay policy allows.
    RunestoneTooLarge,
    /// The pinned output is not written as a transaction id, one colon and an
    /// output index.
    InvalidUtxoFormat,
    /// The transaction id of the pinned output is not 64 hexadecimal digits.
    InvalidTxid,
    /// The wallet could not fund the transaction at the fee rate asked.
    FundingFailed,
    /// The wallet could not sign, or what it returned is no transaction.
    SigningFailed,
    /// The signed transaction no longer carries the intended message.
    IntegrityViolation,
}

} // verus!
