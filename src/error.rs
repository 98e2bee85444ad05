//! What an operation of the commons can fail with.

use vstd::prelude::*;

verus! {

/// Why an operation was refused. A refused operation changes nothing.
#[derive(Clone, Debug, PartialEq, Eq)]
pub enum ContractError {
    /// A Hatch contribution lies outside the per-transaction bounds.
    ContributionLimit { min: u128, max: u128 },
    /// Minting would take the supply past its ceiling.
    CannotExceedMaxSupply { max: u128 },
    /// The Hatch allowlist is in force and does not hold the sender.
    SenderNotAllowlisted { sender: String },
    /// Buying is over: the commons is closed.
    CommonsClosed,
    /// The caller is not the owner of the commons.
    NotOwner,
    /// A checked computation went past the integer range.
    ArithmeticOverflow,
    /// A checked computation went below zero.
    ArithmeticUnderflow,
    /// The curve's parameters are not usable.
    InvalidCurveParameters,
    /// An amount or a ratio is not usable.
    InvalidInput,
}

} // verus!
