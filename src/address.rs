//! Chain address derivation from base58-encoded public keys: EIP-155 addresses
//! with the EIP-55 mixed-case checksum, and LTO addresses.
use crate::hashing::{
    base58_decode, base58_decoded, base58_encode, base58_of, blake2b256_of, blake2b_256,
    hex_encode, hex_lower, keccak256, keccak256_of, lower_digits, nibble, secp256k1_uncompress,
    secp256k1_uncompressed, sha256, sha256_of, upper_digits,
};
use crate::text::push_char;
use vstd::prelude::*;
use vstd::string::*;
use vstd::utf8::encode_utf8;

verus! {

/// The version byte that leads every LTO address.
pub const LTO_ADDRESS_VERSION: u8 = 1;

/// Why an address could not be derived.
#[derive(Debug, Clone, PartialEq, Eq)]
pub enum AddressError {
    /// The public key text was empty.
    EmptyInput,
    /// The public key text was not valid base58; the decoder's message.
    DecodeError(String),
    /// The decoded bytes are not a valid secp256k1 point.
    InvalidPublicKey,
    /// The network selector is neither `'L'` nor `'T'`.
    InvalidNetwork,
}

/// Whether `c` is a lowercase hexadecimal letter.
pub open spec fn is_lower_hex_letter(c: char) -> bool {
    'a' <= c && c <= 'f'
}

/// The uppercase form of a lowercase hexadecimal letter.
pub open spec fn upper_hex_letter(c: char) -> char {
    upper_digits()[(c as u32 - 'a' as u32 + 10) as int]
}

/// EIP-55 casing of `s` under the digest `d`: a letter `a`-`f` at position `i`
/// is uppercased when the `i`-th hexadecimal digit of `d` is at least 8.
pub open spec fn checksum_with(s: Seq<char>, d: Seq<u8>) -> Seq<char> {
    Seq::new(
        s.len(),
        |i: int|
            if is_lower_hex_letter(s[i]) && nibble(d, i) >= 8 {
                upper_hex_letter(s[i])
            } else {
                s[i]
            },
    )
}

/// EIP-55 casing of `s`, under the Keccak-256 digest of its own bytes.
pub open spec fn checksum_case_of(s: Seq<char>) -> Seq<char> {
    checksum_with(s, keccak256_of(encode_utf8(s)))
}

/// The EIP-155 address of a point given as `0x04 ‖ X ‖ Y`.
pub open spec fn eip155_address_of_point(p: Seq<u8>) -> Seq<char> {
    seq!['0', 'x'] + checksum_case_of(hex_lower(keccak256_of(p.drop_first()).subrange(12, 32)))
}

/// The byte that stands for an LTO network selector.
pub open spec fn network_byte(c: char) -> u8 {
    c as u8
}

/// Whether `c` is an LTO network selector: `'L'` (mainnet) or `'T'` (testnet).
pub open spec fn is_lto_network(c: char) -> bool {
    c == 'L' || c == 'T'
}

/// LTO's secure hash: SHA-256 of the Blake2b-256 digest.
pub open spec fn secure_hash_of(m: Seq<u8>) -> Seq<u8> {
    sha256_of(blake2b256_of(m))
}

/// `version ‖ network ‖ key_hash[0..20]`: what an LTO checksum is taken over.
pub open spec fn lto_prefix_of(network: u8, key_hash: Seq<u8>) -> Seq<u8> {
    seq![LTO_ADDRESS_VERSION, network] + key_hash.subrange(0, 20)
}

/// The 26 raw bytes of an LTO address: the prefix and 4 checksum bytes.
pub open spec fn lto_payload_of(prefix: Seq<u8>, checksum_hash: Seq<u8>) -> Seq<u8> {
    prefix + checksum_hash.subrange(0, 4)
}

/// The raw bytes of the LTO address of public key bytes `key` on `network`.
pub open spec fn lto_address_bytes_of(network: u8, key: Seq<u8>) -> Seq<u8> {
    let prefix = lto_prefix_of(network, secure_hash_of(key));
    lto_payload_of(prefix, secure_hash_of(prefix))
}

/// Whether every character of `s` is a lowercase hexadecimal digit.
pub open spec fn is_lower_hex_text(s: Seq<char>) -> bool {
    forall|i: int|
        0 <= i < s.len() ==> ('0' <= #[trigger] s[i] && s[i] <= '9') || is_lower_hex_letter(s[i])
}

/// Hexadecimal text with its uppercase letters `A`-`F` lowercased.
pub open spec fn hex_text_lower(s: Seq<char>) -> Seq<char> {
    Seq::new(
        s.len(),
        |i: int|
            if 'A' <= s[i] && s[i] <= 'F' {
                lower_digits()[(s[i] as u32 - 'A' as u32 + 10) as int]
            } else {
                s[i]
            },
    )
}

/// Lowercasing checksummed text gives back the lowercase hexadecimal text, so
/// checksumming the lowercased result again gives the same result.
pub proof fn lemma_checksum_stable(s: Seq<char>)
    requires
        is_lower_hex_text(s),
    ensures
        hex_text_lower(checksum_case_of(s)) == s,
        checksum_case_of(hex_text_lower(checksum_case_of(s))) == checksum_case_of(s),
{
    let c = checksum_case_of(s);
    assert forall|i: int| 0 <= i < s.len() implies #[trigger] hex_text_lower(c)[i] == s[i] by {
        if is_lower_hex_letter(s[i]) {
            assert(s[i] == 'a' || s[i] == 'b' || s[i] == 'c' || s[i] == 'd' || s[i] == 'e' || s[i]
                == 'f');
        }
    }
    assert(hex_text_lower(c) =~= s);
}

/// The uppercase form of a hexadecimal letter; other characters are kept.
fn upper_if_letter(c: char) -> (r: char)
    ensures
        is_lower_hex_letter(c) ==> r == upper_hex_letter(c),
        !is_lower_hex_letter(c) ==> r == c,
{
    match c {
        'a' => 'A',
        'b' => 'B',
        'c' => 'C',
        'd' => 'D',
        'e' => 'E',
        'f' => 'F',
        _ => c,
    }
}

/// Applies EIP-55 casing to hexadecimal text `hex` under an already computed
/// digest: each letter `a`-`f` whose position holds a digest digit of at
/// least 8 is uppercased.
pub fn apply_checksum_case(hex: &str, digest: &[u8]) -> (r: String)
    requires
        hex@.len() <= 2 * digest@.len(),
    ensures
        r@ == checksum_with(hex@, digest@),
{
    let n = hex.unicode_len();
    let mut out = String::new();
    let mut i: usize = 0;
    while i < n
        invariant
            n == hex@.len(),
            n <= 2 * digest@.len(),
            i <= n,
            out@ == checksum_with(hex@, digest@).subrange(0, i as int),
        decreases n - i,
    {
        let c = hex.get_char(i);
        let byte = digest[i / 2];
        let nib: u8 = if i % 2 == 0 { byte / 16 } else { byte % 16 };
        let d = if nib >= 8 { upper_if_letter(c) } else { c };
        push_char(&mut out, d);
        i = i + 1;
        assert(out@ =~= checksum_with(hex@, digest@).subrange(0, i as int));
    }
    assert(out@ =~= checksum_with(hex@, digest@));
    out
}

/// EIP-55 mixed-case checksum of lowercase hexadecimal text (at most 64
/// characters, the digits of one digest): the digest is Keccak-256 of the
/// text's own bytes.
pub fn checksum_case(hex: &str) -> (r: String)
    requires
        hex@.len() <= 64,
    ensures
        r@ == checksum_case_of(hex@),
{
    let digest = keccak256(hex.as_bytes());
    apply_checksum_case(hex, digest.as_slice())
}

/// The unchecksummed EIP-155 address digits of a Keccak-256 digest: its low
/// 20 bytes as lowercase hexadecimal.
pub fn address_hex_from_digest(digest: &[u8]) -> (r: String)
    requires
        digest@.len() == 32,
    ensures
        r@ == hex_lower(digest@.subrange(12, 32)),
{
    let mut low: Vec<u8> = Vec::new();
    let mut i: usize = 12;
    while i < 32
        invariant
            digest@.len() == 32,
            12 <= i <= 32,
            low@ == digest@.subrange(12, i as int),
        decreases 32 - i,
    {
        low.push(digest[i]);
        i = i + 1;
        assert(low@ =~= digest@.subrange(12, i as int));
    }
    hex_encode(low.as_slice())
}

/// The EIP-155 address of a secp256k1 point given as `0x04 ‖ X ‖ Y`: `0x` and
/// the EIP-55 checksummed low 20 bytes of Keccak-256 of `X ‖ Y`.
pub fn eip155_address_from_point(point: &[u8]) -> (r: String)
    requires
        point@.len() == 65,
    ensures
        r@ == eip155_address_of_point(point@),
{
    let mut xy: Vec<u8> = Vec::new();
    let mut i: usize = 1;
    while i < point.len()
        invariant
            point@.len() == 65,
            1 <= i <= 65,
            xy@ == point@.subrange(1, i as int),
        decreases 65 - i,
    {
        xy.push(point[i]);
        i = i + 1;
        assert(xy@ =~= point@.subrange(1, i as int));
    }
    assert(xy@ =~= point@.drop_first());
    let digest = keccak256(xy.as_slice());
    let raw_hex = address_hex_from_digest(digest.as_slice());
    let checked = checksum_case(raw_hex.as_str());
    let mut out = String::new();
    push_char(&mut out, '0');
    push_char(&mut out, 'x');
    out.append(checked.as_str());
    assert(out@ =~= eip155_address_of_point(point@));
    out
}

/// Derives the EIP-155 (Ethereum) address of a base58-encoded secp256k1
/// public key, compressed or uncompressed.
pub fn derive_eip155_address(pubkey_base58: &str) -> (r: Result<String, AddressError>)
    ensures
        pubkey_base58@.len() == 0 ==> r == Err::<String, AddressError>(AddressError::EmptyInput),
        pubkey_base58@.len() > 0 && base58_decoded(pubkey_base58@).is_none() ==> (r is Err
            && r->Err_0 is DecodeError),
        pubkey_base58@.len() > 0 && base58_decoded(pubkey_base58@).is_some()
            && secp256k1_uncompressed(base58_decoded(pubkey_base58@).unwrap()).is_none() ==> r
            == Err::<String, AddressError>(AddressError::InvalidPublicKey),
        pubkey_base58@.len() > 0 && base58_decoded(pubkey_base58@).is_some()
            && secp256k1_uncompressed(base58_decoded(pubkey_base58@).unwrap()).is_some() ==> (r
            is Ok && r->Ok_0@ == eip155_address_of_point(
            secp256k1_uncompressed(base58_decoded(pubkey_base58@).unwrap()).unwrap(),
        )),
{
    if pubkey_base58.is_empty() {
        return Err(AddressError::EmptyInput);
    }
    let key = match base58_decode(pubkey_base58) {
        Ok(k) => k,
        Err(msg) => {
            return Err(AddressError::DecodeError(msg));
        },
    };
    let point = match secp256k1_uncompress(key.as_slice()) {
        Some(p) => p,
        None => {
            return Err(AddressError::InvalidPublicKey);
        },
    };
    Ok(eip155_address_from_point(point.as_slice()))
}

/// LTO's secure hash of `m`: SHA-256 of the Blake2b-256 digest.
pub fn secure_hash(m: &[u8]) -> (r: Vec<u8>)
    ensures
        r@ == secure_hash_of(m@),
        r@.len() == 32,
{
    let inner = blake2b_256(m);
    sha256(inner.as_slice())
}

/// `version ‖ network ‖ key_hash[0..20]`: the first 22 bytes of an LTO address,
/// over which its checksum is taken.
pub fn lto_prefix(network: u8, key_hash: &[u8]) -> (r: Vec<u8>)
    requires
        key_hash@.len() >= 20,
    ensures
        r@ == lto_prefix_of(network, key_hash@),
{
    let mut out: Vec<u8> = Vec::new();
    out.push(LTO_ADDRESS_VERSION);
    out.push(network);
    let mut i: usize = 0;
    while i < 20
        invariant
            key_hash@.len() >= 20,
            i <= 20,
            out@ == seq![LTO_ADDRESS_VERSION, network] + key_hash@.subrange(0, i as int),
        decreases 20 - i,
    {
        out.push(key_hash[i]);
        i = i + 1;
        assert(out@ =~= seq![LTO_ADDRESS_VERSION, network] + key_hash@.subrange(0, i as int));
    }
    out
}

/// The raw bytes of an LTO address: `prefix` followed by the first 4 bytes of
/// the checksum hash.
pub fn lto_payload(prefix: &[u8], checksum_hash: &[u8]) -> (r: Vec<u8>)
    requires
        checksum_hash@.len() >= 4,
    ensures
        r@ == lto_payload_of(prefix@, checksum_hash@),
{
    let mut out: Vec<u8> = Vec::new();
    let mut i: usize = 0;
    while i < prefix.len()
        invariant
            i <= prefix@.len(),
            out@ == prefix@.subrange(0, i as int),
        decreases prefix@.len() - i,
    {
        out.push(prefix[i]);
        i = i + 1;
        assert(out@ =~= prefix@.subrange(0, i as int));
    }
    let mut j: usize = 0;
    while j < 4
        invariant
            checksum_hash@.len() >= 4,
            j <= 4,
            out@ == prefix@ + checksum_hash@.subrange(0, j as int),
        decreases 4 - j,
    {
        out.push(checksum_hash[j]);
        j = j + 1;
        assert(out@ =~= prefix@ + checksum_hash@.subrange(0, j as int));
    }
    out
}

/// The LTO address of public key bytes on a network, as base58 text.
pub fn lto_address_from_key(network: u8, key: &[u8]) -> (r: String)
    ensures
        r@ == base58_of(lto_address_bytes_of(network, key@)),
{
    let key_hash = secure_hash(key);
    let prefix = lto_prefix(network, key_hash.as_slice());
    let checksum_hash = secure_hash(prefix.as_slice());
    let payload = lto_payload(prefix.as_slice(), checksum_hash.as_slice());
    base58_encode(payload.as_slice())
}

/// Derives the LTO address of a base58-encoded public key on network `'L'`
/// (mainnet) or `'T'` (testnet).
pub fn derive_lto_address(network_id: char, pubkey_base58: &str) -> (r: Result<
    String,
    AddressError,
>)
    ensures
        !is_lto_network(network_id) ==> r == Err::<String, AddressError>(
            AddressError::InvalidNetwork,
        ),
        is_lto_network(network_id) && base58_decoded(pubkey_base58@).is_none() ==> (r is Err
            && r->Err_0 is DecodeError),
        is_lto_network(network_id) && base58_decoded(pubkey_base58@).is_some() ==> (r is Ok
            && r->Ok_0@ == base58_of(
            lto_address_bytes_of(
                network_byte(network_id),
                base58_decoded(pubkey_base58@).unwrap(),
            ),
        )),
{
    let network: u8 = match network_id {
        'L' => 76u8,
        'T' => 84u8,
        _ => {
            return Err(AddressError::InvalidNetwork);
        },
    };
    let key = match base58_decode(pubkey_base58) {
        Ok(k) => k,
        Err(msg) => {
            return Err(AddressError::DecodeError(msg));
        },
    };
    Ok(lto_address_from_key(network, key.as_slice()))
}

} // verus!
