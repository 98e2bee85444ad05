//! An augmented bonding curve commons: a supply token minted and redeemed
//! against a reserve token along a price curve, with a share of each trade
//! set aside in a funding pool, through the Hatch, Open and Closed phases.
//!
//! Beside the commons engine (`commons`, on `curve`, `trade`, `phase` and
//! `ratio`) stand the token-transfer rules of a DAO (`transfer_rules`),
//! token logo descriptions (`marketing`), and the checks of signed messages
//! (`signed`) with the derivation of their signers' addresses (`address`).

pub mod arith;
pub mod ratio;
pub mod error;
pub mod curve;
pub mod trade;
pub mod addr_set;
pub mod phase;
pub mod commons;
pub mod marketing;
pub mod transfer_rules;
pub mod address;
pub mod signed;
