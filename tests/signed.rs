use cw_abc::address::payload_digest;
use cw_abc::signed::{check_signed_message, BlockInfo, Expiration, VerifyError};

const BLOCK: BlockInfo = BlockInfo { height: 100, time: 5_000 };

#[test]
fn signed_message_accepted_with_next_nonce() {
    assert_eq!(check_signed_message(true, None, 0, None, &BLOCK), Ok(1));
    assert_eq!(check_signed_message(true, Some(7), 7, Some(Expiration::AtHeight(101)), &BLOCK), Ok(8));
    assert_eq!(check_signed_message(true, Some(7), 7, Some(Expiration::Never {}), &BLOCK), Ok(8));
}

#[test]
fn signed_message_refusals() {
    assert_eq!(check_signed_message(false, None, 0, None, &BLOCK), Err(VerifyError::SignatureInvalid));
    assert_eq!(check_signed_message(true, None, 1, None, &BLOCK), Err(VerifyError::InvalidNonce));
    assert_eq!(check_signed_message(true, Some(3), 2, None, &BLOCK), Err(VerifyError::InvalidNonce));
    assert_eq!(
        check_signed_message(true, Some(u128::MAX), u128::MAX, None, &BLOCK),
        Err(VerifyError::NonceOverflow)
    );
    assert_eq!(
        check_signed_message(true, None, 0, Some(Expiration::AtHeight(100)), &BLOCK),
        Err(VerifyError::MessageExpired)
    );
    assert_eq!(
        check_signed_message(true, None, 0, Some(Expiration::AtTime(4_999)), &BLOCK),
        Err(VerifyError::MessageExpired)
    );
    assert_eq!(check_signed_message(true, None, 0, Some(Expiration::AtTime(5_001)), &BLOCK), Ok(1));
}

#[test]
fn payload_digest_is_sha256() {
    let d = payload_digest(&b"abc".to_vec());
    let hex: String = d.iter().map(|b| format!("{:02x}", b)).collect();
    assert_eq!(hex, "ba7816bf8f01cfea414140de5dae2223b00361a396177a9cb410ff61f20015ad");
}
