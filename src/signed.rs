//! The checks on a signed message once its signature has been checked:
//! the nonce must be the next one for the key, and the message must not
//! have expired.

use vstd::prelude::*;

verus! {

/// The block a message is handled in; `time` is in nanoseconds.
#[derive(Clone, Copy, Debug, PartialEq, Eq, Structural)]
pub struct BlockInfo {
    pub height: u64,
    pub time: u64,
}

/// When a message stops being valid; `AtTime` is in nanoseconds.
#[derive(Clone, Copy, Debug, PartialEq, Eq, Structural)]
pub enum Expiration {
    AtHeight(u64),
    AtTime(u64),
    Never {},
}

impl Expiration {
    /// The message has expired by `block`: its height or time is reached.
    pub open spec fn expired_at(self, block: BlockInfo) -> bool {
        match self {
            Expiration::AtHeight(h) => block.height >= h,
            Expiration::AtTime(t) => block.time >= t,
            Expiration::Never {} => false,
        }
    }

    pub fn is_expired(&self, block: &BlockInfo) -> (b: bool)
        ensures
            b == self.expired_at(*block),
    {
        match self {
            Expiration::AtHeight(h) => block.height >= *h,
            Expiration::AtTime(t) => block.time >= *t,
            Expiration::Never {} => false,
        }
    }
}

/// Why a signed message was refused.
#[derive(Clone, Copy, Debug, PartialEq, Eq, Structural)]
pub enum VerifyError {
    SignatureInvalid,
    InvalidNonce,
    NonceOverflow,
    MessageExpired,
}

/// The nonce a key is at: the stored one, or zero for a key never seen.
pub open spec fn current_nonce(stored: Option<u128>) -> int {
    match stored {
        Some(n) => n as int,
        None => 0,
    }
}

/// Decides on a signed message: `signature_valid` is the outcome of the
/// signature check, `stored_nonce` the nonce stored for the key. In this
/// order: the signature must hold, the message's nonce must be the key's
/// current one, the next nonce must fit, and the message must not have
/// expired by `block`. On success, returns the nonce to store for the key.
pub fn check_signed_message(
    signature_valid: bool,
    stored_nonce: Option<u128>,
    payload_nonce: u128,
    expiration: Option<Expiration>,
    block: &BlockInfo,
) -> (r: Result<u128, VerifyError>)
    ensures
        !signature_valid ==> r == Err::<u128, VerifyError>(VerifyError::SignatureInvalid),
        signature_valid && payload_nonce != current_nonce(stored_nonce) ==> r == Err::<u128, VerifyError>(
            VerifyError::InvalidNonce,
        ),
        signature_valid && payload_nonce == current_nonce(stored_nonce) && payload_nonce == u128::MAX
            ==> r == Err::<u128, VerifyError>(VerifyError::NonceOverflow),
        signature_valid && payload_nonce == current_nonce(stored_nonce) && payload_nonce < u128::MAX && (
        expiration matches Some(e) && e.expired_at(*block)) ==> r == Err::<u128, VerifyError>(
            VerifyError::MessageExpired,
        ),
        r is Ok <==> signature_valid && payload_nonce == current_nonce(stored_nonce) && payload_nonce
            < u128::MAX && !(expiration matches Some(e) && e.expired_at(*block)),
        r matches Ok(n) ==> n == payload_nonce + 1,
{
    if !signature_valid {
        return Err(VerifyError::SignatureInvalid);
    }
    let nonce: u128 = match stored_nonce {
        Some(n) => n,
        None => 0,
    };
    if payload_nonce != nonce {
        return Err(VerifyError::InvalidNonce);
    }
    let next = match nonce.checked_add(1) {
        Some(n) => n,
        None => return Err(VerifyError::NonceOverflow),
    };
    if let Some(e) = expiration {
        if e.is_expired(block) {
            return Err(VerifyError::MessageExpired);
        }
    }
    Ok(next)
}

} // verus!
