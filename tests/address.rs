use ownable_std::address::{
    address_hex_from_digest, apply_checksum_case, checksum_case, derive_eip155_address,
    derive_lto_address, secure_hash, AddressError,
};

const GENERATOR_COMPRESSED: &str = "jesTu2BpszP8DKSoi1R5G6ggjHrsrVnboLdx6V47vkoR";
const GENERATOR_UNCOMPRESSED: &str =
    "PucSdUxwL4xHpPiAWbia7uCeAxyFeqQEUrwAmm9ypvGFMEVVbmU3qgBWDcZTosuNbjh8zXqL2sMXBabFzS1DF5x3";
const LTO_KEY: &str = "GjSacB6a5DFNEHjDSmn724QsrRStKYzkahPH67wyrhAY";

#[test]
fn lto_testnet_address_of_known_key() {
    assert_eq!(
        derive_lto_address('T', LTO_KEY),
        Ok("3MyuPwbiobZFnZzrtyY8pkaHoQHYmyQxxY1".to_string())
    );
}

#[test]
fn lto_mainnet_address_of_known_key() {
    assert_eq!(
        derive_lto_address('L', LTO_KEY),
        Ok("3JmCa4jLVv7Yn2XkCnBUGsa7WNFVEMxAfWe".to_string())
    );
}

#[test]
fn lto_rejects_other_networks() {
    assert_eq!(derive_lto_address('X', LTO_KEY), Err(AddressError::InvalidNetwork));
    assert_eq!(derive_lto_address('l', "not base58 0OIl"), Err(AddressError::InvalidNetwork));
}

#[test]
fn lto_rejects_invalid_base58() {
    assert!(matches!(derive_lto_address('T', "0OIl"), Err(AddressError::DecodeError(_))));
}

#[test]
fn lto_derivation_is_deterministic() {
    assert_eq!(derive_lto_address('T', LTO_KEY), derive_lto_address('T', LTO_KEY));
}

#[test]
fn eip155_rejects_empty_input() {
    assert_eq!(derive_eip155_address(""), Err(AddressError::EmptyInput));
}

#[test]
fn eip155_rejects_invalid_base58() {
    match derive_eip155_address("0OIl") {
        Err(AddressError::DecodeError(msg)) => assert!(!msg.is_empty()),
        other => panic!("unexpected {:?}", other),
    }
}

#[test]
fn eip155_rejects_invalid_point() {
    assert_eq!(derive_eip155_address("1111"), Err(AddressError::InvalidPublicKey));
}

#[test]
fn eip155_address_of_generator_compressed() {
    assert_eq!(
        derive_eip155_address(GENERATOR_COMPRESSED),
        Ok("0x7E5F4552091A69125d5DfCb7b8C2659029395Bdf".to_string())
    );
}

#[test]
fn eip155_address_of_generator_uncompressed() {
    assert_eq!(
        derive_eip155_address(GENERATOR_UNCOMPRESSED),
        Ok("0x7E5F4552091A69125d5DfCb7b8C2659029395Bdf".to_string())
    );
}

#[test]
fn eip155_derivation_is_deterministic() {
    assert_eq!(
        derive_eip155_address(GENERATOR_COMPRESSED),
        derive_eip155_address(GENERATOR_COMPRESSED)
    );
}

#[test]
fn checksum_case_matches_reference_vectors() {
    let cases = [
        "5aAeb6053F3E94C9b9A09f33669435E7Ef1BeAed",
        "fB6916095ca1df60bB79Ce92cE3Ea74c37c5d359",
        "dbF03B407c01E7cD3CBea99509d93f8DDDC8C6FB",
        "D1220A0cf47c7B9Be7A2E6BA89F429762e7b9aDb",
    ];
    for expected in cases {
        assert_eq!(checksum_case(&expected.to_lowercase()), expected);
    }
}

#[test]
fn checksum_case_is_stable_through_lowercase() {
    let hex = "fb6916095ca1df60bb79ce92ce3ea74c37c5d359";
    let once = checksum_case(hex);
    assert_eq!(checksum_case(&once.to_lowercase()), once);
}

#[test]
fn apply_checksum_case_uses_digest_nibbles() {
    let digest = [0x80u8, 0x7f];
    assert_eq!(apply_checksum_case("abcd", &digest), "AbcD");
    assert_eq!(apply_checksum_case("a1f9", &[0xff, 0xff]), "A1F9");
}

#[test]
fn address_hex_takes_low_twenty_bytes() {
    let digest: Vec<u8> = (0u8..32).collect();
    assert_eq!(
        address_hex_from_digest(&digest),
        "0c0d0e0f101112131415161718191a1b1c1d1e1f"
    );
}

#[test]
fn secure_hash_is_sha256_of_blake2b() {
    assert_eq!(
        hex::encode(secure_hash(b"abc")),
        "1ce43a7ff97ae291cb5b8e47e1fbb9a271de90f2b28d719c8724780ea01ea597"
    );
}
