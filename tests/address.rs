use cw_abc::address::{pk_to_addr, AddressError};

const PK: &str = "0479BE667EF9DCBBAC55A06295CE870B07029BFCDB2DCE28D959F2815B16F81798483ADA7726A3C4655DA4FBFC0E1108A8FD17B448A68554199C47D08FFB10D4B8";

#[test]
fn address_from_public_key() {
    assert_eq!(
        pk_to_addr(PK.to_string(), "juno"),
        Ok("juno1jxeyh7049zzn99s2c6r6hvp4zfa3629979uvvx".to_string())
    );
    assert_eq!(
        pk_to_addr(PK.to_lowercase(), "cosmos"),
        Ok("cosmos1jxeyh7049zzn99s2c6r6hvp4zfa36299ghlht6".to_string())
    );
}

#[test]
fn address_rejects_bad_keys() {
    assert_eq!(
        pk_to_addr("04ab".to_string(), "juno"),
        Err(AddressError::InvalidPublicKeyLength { length: 4 })
    );
    let mut bad = PK.to_string();
    bad.replace_range(10..11, "g");
    assert_eq!(pk_to_addr(bad, "juno"), Err(AddressError::InvalidHex));
}

#[test]
fn address_rejects_bad_prefixes() {
    assert_eq!(pk_to_addr(PK.to_string(), ""), Err(AddressError::InvalidPrefix));
    assert_eq!(pk_to_addr(PK.to_string(), "JuNo"), Err(AddressError::InvalidPrefix));
    assert_eq!(pk_to_addr(PK.to_string(), "ju no"), Err(AddressError::InvalidPrefix));
    assert!(pk_to_addr(PK.to_string(), "JUNO").is_ok());
}
