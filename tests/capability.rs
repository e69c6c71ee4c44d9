use ownable_std::capability::{ApiError, EmptyApi, CANONICAL_LENGTH};

#[test]
fn canonicalize_rejects_short_input() {
    assert_eq!(EmptyApi::default().addr_canonicalize("ab"), Err(ApiError::TooShort));
}

#[test]
fn canonicalize_rejects_long_input() {
    let long = "a".repeat(55);
    assert_eq!(EmptyApi::default().addr_canonicalize(&long), Err(ApiError::TooLong));
}

#[test]
fn canonicalize_pads_with_zeros() {
    let canonical = EmptyApi::default().addr_canonicalize("abc").unwrap();
    assert_eq!(canonical.len(), CANONICAL_LENGTH);
    assert_eq!(&canonical[..3], b"abc");
    assert!(canonical[3..].iter().all(|b| *b == 0));
    let full = "x".repeat(54);
    assert_eq!(EmptyApi::default().addr_canonicalize(&full).unwrap(), full.as_bytes().to_vec());
}

#[test]
fn humanize_rejects_wrong_length() {
    assert_eq!(EmptyApi::default().addr_humanize(&[1u8; 53]), Err(ApiError::BadLength));
}

#[test]
fn humanize_rejects_invalid_utf8() {
    let mut canonical = vec![0u8; CANONICAL_LENGTH];
    canonical[0] = 0xff;
    assert_eq!(EmptyApi::default().addr_humanize(&canonical), Err(ApiError::InvalidUtf8));
}

#[test]
fn humanize_undoes_canonicalize() {
    let api = EmptyApi::default();
    for human in ["abc", "owner-1", "ünïcödé address", &"q".repeat(54)] {
        let canonical = api.addr_canonicalize(human).unwrap();
        assert_eq!(api.addr_humanize(&canonical), Ok(human.to_string()));
    }
}

#[test]
fn humanize_drops_inner_zero_bytes() {
    let mut canonical = vec![0u8; CANONICAL_LENGTH];
    canonical[0] = b'a';
    canonical[5] = b'b';
    canonical[53] = b'c';
    assert_eq!(EmptyApi::default().addr_humanize(&canonical), Ok("abc".to_string()));
}

#[test]
fn validate_accepts_and_rejects() {
    let api = EmptyApi::default();
    assert_eq!(api.addr_validate("abcd"), Ok("abcd".to_string()));
    assert_eq!(api.addr_validate("ab"), Err(ApiError::InvalidAddress));
    assert_eq!(api.addr_validate(&"a".repeat(55)), Err(ApiError::InvalidAddress));
}

#[test]
fn signature_stubs_are_fixed() {
    let api = EmptyApi::default();
    assert_eq!(api.secp256k1_verify(b"m", b"s", b"k"), Err(ApiError::Unimplemented));
    assert_eq!(api.secp256k1_recover_pubkey(b"m", b"s", 0), Err(ApiError::Unimplemented));
    assert_eq!(api.ed25519_verify(b"m", b"s", b"k"), Ok(true));
    let parts: [&[u8]; 1] = [b"x"];
    assert_eq!(api.ed25519_batch_verify(&parts, &parts, &parts), Ok(true));
}
