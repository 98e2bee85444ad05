//! Deriving a bech32 account address from an uncompressed secp256k1 public
//! key: the key's bytes, hex encoded, are hashed with SHA-256 and then with
//! RIPEMD-160, and the twenty bytes that come out are bech32 encoded under
//! the chain's prefix.

use vstd::prelude::*;
use vstd::utf8::encode_utf8;
use bech32::ToBase32;
use sha2::Digest;

verus! {

/// The length of an uncompressed public key in hex: two digits for each
/// of its sixty-five bytes.
pub const EXPECTED_HEX_PK_LEN: usize = 130;

/// The error of hex::decode, carried through unopened.
#[verifier::external_type_specification]
#[verifier::external_body]
pub struct ExFromHexError(hex::FromHexError);

/// The error of bech32::encode, carried through unopened.
#[verifier::external_type_specification]
#[verifier::external_body]
pub struct ExBech32Error(bech32::Error);

/// Why no address could be derived.
#[derive(Clone, Copy, Debug, PartialEq, Eq, Structural)]
pub enum AddressError {
    /// The hex key does not have the length of an uncompressed key.
    InvalidPublicKeyLength { length: usize },
    /// The key is not a hex string.
    InvalidHex,
    /// The prefix is not a valid bech32 human-readable part.
    InvalidPrefix,
}

/// `c` is an ASCII hex digit, in either case.
pub open spec fn is_hex_digit(c: u8) -> bool {
    (48 <= c <= 57) || (65 <= c <= 70) || (97 <= c <= 102)
}

/// The value of the hex digit `c`.
pub open spec fn hex_digit_value(c: u8) -> int {
    if 48 <= c <= 57 {
        c - 48
    } else if 65 <= c <= 70 {
        c - 55
    } else {
        c - 87
    }
}

/// `b` is a hex string: an even number of hex digits.
pub open spec fn is_hex(b: Seq<u8>) -> bool {
    b.len() % 2 == 0 && forall|i: int| 0 <= i < b.len() ==> is_hex_digit(#[trigger] b[i])
}

/// The bytes that the hex string `b` stands for, two digits to a byte,
/// the high digit first.
pub open spec fn hex_decoded(b: Seq<u8>) -> Seq<u8> {
    Seq::new(
        (b.len() / 2) as nat,
        |i: int| (hex_digit_value(b[2 * i]) * 16 + hex_digit_value(b[2 * i + 1])) as u8,
    )
}

/// `c` is a lower case ASCII letter.
pub open spec fn is_lower(c: char) -> bool {
    'a' <= c <= 'z'
}

/// `c` is an upper case ASCII letter.
pub open spec fn is_upper(c: char) -> bool {
    'A' <= c <= 'Z'
}

/// `h` can stand as a bech32 human-readable part: one to eighty-three
/// printable ASCII characters, not of mixed case.
pub open spec fn bech32_hrp_ok(h: Seq<char>) -> bool {
    &&& 1 <= h.len() <= 83
    &&& forall|i: int| 0 <= i < h.len() ==> 33 <= (#[trigger] h[i]) as u32 <= 126
    &&& !((exists|i: int| 0 <= i < h.len() && is_lower(#[trigger] h[i])) && (exists|j: int|
        0 <= j < h.len() && is_upper(#[trigger] h[j])))
}

/// The SHA-256 digest of `data`.
pub uninterp spec fn sha256_digest(data: Seq<u8>) -> Seq<u8>;

/// The RIPEMD-160 digest of `data`.
pub uninterp spec fn ripemd160_digest(data: Seq<u8>) -> Seq<u8>;

/// The bech32 string (the Bech32 variant, not Bech32m, with its checksum)
/// of `data` under the human-readable part `hrp`.
pub uninterp spec fn bech32_encoding(hrp: Seq<char>, data: Seq<u8>) -> Seq<char>;

/// Relies on hex::decode: it refuses an odd length and any byte that is
/// not a hex digit, and otherwise turns each pair of digits into a byte.
#[verifier::external_body]
fn hex_decode(data: &[u8]) -> (r: Result<Vec<u8>, hex::FromHexError>)
    ensures
        r is Ok <==> is_hex(data@),
        r matches Ok(v) ==> v@ == hex_decoded(data@),
{
    hex::decode(data)
}

/// Relies on sha2's Sha256::digest: a thirty-two byte digest of `data`.
#[verifier::external_body]
fn sha256(data: &[u8]) -> (r: Vec<u8>)
    ensures
        r@ == sha256_digest(data@),
        r@.len() == 32,
{
    sha2::Sha256::digest(data).to_vec()
}

/// Relies on ripemd's Ripemd160::digest: a twenty byte digest of `data`.
#[verifier::external_body]
fn ripemd160(data: &[u8]) -> (r: Vec<u8>)
    ensures
        r@ == ripemd160_digest(data@),
        r@.len() == 20,
{
    ripemd::Ripemd160::digest(data).to_vec()
}

/// Relies on bech32::encode with `Variant::Bech32`: it fails exactly
/// where `hrp` is no valid human-readable part, and otherwise encodes the
/// bytes of `data` in five-bit groups.
#[verifier::external_body]
fn bech32_encode(hrp: &str, data: &[u8]) -> (r: Result<String, bech32::Error>)
    ensures
        r is Ok <==> bech32_hrp_ok(hrp@),
        r matches Ok(s) ==> s@ == bech32_encoding(hrp@, data@),
{
    bech32::encode(hrp, data.to_base32(), bech32::Variant::Bech32)
}

/// The SHA-256 digest of a serialized payload, the message that a signature
/// covers.
pub fn payload_digest(payload: &Vec<u8>) -> (r: Vec<u8>)
    ensures
        r@ == sha256_digest(payload@),
        r@.len() == 32,
{
    sha256(payload.as_slice())
}

/// The address that `hex_pk`, an uncompressed public key in hex, has under
/// the bech32 prefix `prefix`.
pub fn pk_to_addr(hex_pk: String, prefix: &str) -> (r: Result<String, AddressError>)
    ensures
        encode_utf8(hex_pk@).len() != EXPECTED_HEX_PK_LEN ==> r == Err::<String, AddressError>(
            AddressError::InvalidPublicKeyLength { length: encode_utf8(hex_pk@).len() as usize },
        ),
        encode_utf8(hex_pk@).len() == EXPECTED_HEX_PK_LEN && !is_hex(encode_utf8(hex_pk@)) ==> r
            == Err::<String, AddressError>(AddressError::InvalidHex),
        encode_utf8(hex_pk@).len() == EXPECTED_HEX_PK_LEN && is_hex(encode_utf8(hex_pk@))
            && !bech32_hrp_ok(prefix@) ==> r == Err::<String, AddressError>(AddressError::InvalidPrefix),
        r is Ok <==> encode_utf8(hex_pk@).len() == EXPECTED_HEX_PK_LEN && is_hex(encode_utf8(hex_pk@))
            && bech32_hrp_ok(prefix@),
        r matches Ok(a) ==> a@ == bech32_encoding(
            prefix@,
            ripemd160_digest(sha256_digest(hex_decoded(encode_utf8(hex_pk@)))),
        ),
{
    let bytes = hex_pk.as_str().as_bytes();
    if bytes.len() != EXPECTED_HEX_PK_LEN {
        return Err(AddressError::InvalidPublicKeyLength { length: bytes.len() });
    }
    let raw_pk = match hex_decode(bytes) {
        Ok(v) => v,
        Err(_) => return Err(AddressError::InvalidHex),
    };
    let pk_sha256 = sha256(raw_pk.as_slice());
    let address_raw = ripemd160(pk_sha256.as_slice());
    match bech32_encode(prefix, address_raw.as_slice()) {
        Ok(addr) => Ok(addr),
        Err(_) => Err(AddressError::InvalidPrefix),
    }
}

} // verus!
