//! Primitive hashes and encodings that address derivation is built on.
use k256::elliptic_curve::sec1::ToEncodedPoint;
use sha2::Digest;
use vstd::prelude::*;

verus! {

/// The lowercase hexadecimal digits, by value.
pub open spec fn lower_digits() -> Seq<char> {
    seq!['0', '1', '2', '3', '4', '5', '6', '7', '8', '9', 'a', 'b', 'c', 'd', 'e', 'f']
}

/// The uppercase hexadecimal digits, by value.
pub open spec fn upper_digits() -> Seq<char> {
    seq!['0', '1', '2', '3', '4', '5', '6', '7', '8', '9', 'A', 'B', 'C', 'D', 'E', 'F']
}

/// The `i`-th nibble of `b`, most significant nibble of each byte first.
pub open spec fn nibble(b: Seq<u8>, i: int) -> u8 {
    if i % 2 == 0 {
        b[i / 2] / 16
    } else {
        b[i / 2] % 16
    }
}

/// Two digits (taken from `digits`) per byte, most significant first.
pub open spec fn hex_with(digits: Seq<char>, b: Seq<u8>) -> Seq<char> {
    Seq::new(2 * b.len(), |i: int| digits[nibble(b, i) as int])
}

/// Lowercase hexadecimal text of a byte string.
pub open spec fn hex_lower(b: Seq<u8>) -> Seq<char> {
    hex_with(lower_digits(), b)
}

/// Uppercase hexadecimal text of a byte string.
pub open spec fn hex_upper(b: Seq<u8>) -> Seq<char> {
    hex_with(upper_digits(), b)
}

/// Whether `c` is a hexadecimal digit of either case.
pub open spec fn is_hex_char(c: char) -> bool {
    ('0' <= c && c <= '9') || ('a' <= c && c <= 'f') || ('A' <= c && c <= 'F')
}

/// The value of a hexadecimal digit.
pub open spec fn hex_value(c: char) -> u8 {
    if '0' <= c && c <= '9' {
        (c as u32 - '0' as u32) as u8
    } else if 'a' <= c && c <= 'f' {
        (c as u32 - 'a' as u32 + 10) as u8
    } else {
        (c as u32 - 'A' as u32 + 10) as u8
    }
}

/// Whether `s` is hexadecimal text: an even number of hexadecimal digits.
pub open spec fn is_hex_text(s: Seq<char>) -> bool {
    s.len() % 2 == 0 && forall|i: int| 0 <= i < s.len() ==> is_hex_char(#[trigger] s[i])
}

/// The bytes that hexadecimal text stands for.
pub open spec fn hex_bytes(s: Seq<char>) -> Seq<u8> {
    Seq::new(
        s.len() / 2,
        |i: int| (hex_value(s[2 * i]) * 16 + hex_value(s[2 * i + 1])) as u8,
    )
}

/// Keccak-256 digest of a byte string.
pub uninterp spec fn keccak256_of(b: Seq<u8>) -> Seq<u8>;

/// Blake2b digest of a byte string, with the output fixed to 32 bytes.
pub uninterp spec fn blake2b256_of(b: Seq<u8>) -> Seq<u8>;

/// SHA-256 digest of a byte string.
pub uninterp spec fn sha256_of(b: Seq<u8>) -> Seq<u8>;

/// Base58 text (Bitcoin alphabet) of a byte string.
pub uninterp spec fn base58_of(b: Seq<u8>) -> Seq<char>;

/// The bytes that base58 text (Bitcoin alphabet) stands for, if it is valid.
pub uninterp spec fn base58_decoded(s: Seq<char>) -> Option<Seq<u8>>;

/// The 65-byte uncompressed SEC1 encoding of the secp256k1 point that `b`
/// encodes (compressed or not), if `b` encodes a valid point.
pub uninterp spec fn secp256k1_uncompressed(b: Seq<u8>) -> Option<Seq<u8>>;

/// Relies on sha3::Keccak256: a 32-byte digest that depends on the input alone.
#[verifier::external_body]
pub(crate) fn keccak256(b: &[u8]) -> (r: Vec<u8>)
    ensures
        r@ == keccak256_of(b@),
        r@.len() == 32,
{
    sha3::Keccak256::digest(b).to_vec()
}

/// Relies on blake2::Blake2b with a 32-byte output size: a 32-byte digest that
/// depends on the input alone.
#[verifier::external_body]
pub(crate) fn blake2b_256(b: &[u8]) -> (r: Vec<u8>)
    ensures
        r@ == blake2b256_of(b@),
        r@.len() == 32,
{
    blake2::Blake2b::<blake2::digest::consts::U32>::digest(b).to_vec()
}

/// Relies on sha2::Sha256: a 32-byte digest that depends on the input alone.
#[verifier::external_body]
pub(crate) fn sha256(b: &[u8]) -> (r: Vec<u8>)
    ensures
        r@ == sha256_of(b@),
        r@.len() == 32,
{
    sha2::Sha256::digest(b).to_vec()
}

/// Relies on hex::encode: two lowercase digits per byte, high nibble first.
#[verifier::external_body]
pub(crate) fn hex_encode(b: &[u8]) -> (r: String)
    ensures
        r@ == hex_lower(b@),
{
    hex::encode(b)
}

/// Relies on hex::encode_upper: two uppercase digits per byte, high nibble first.
#[verifier::external_body]
pub(crate) fn hex_encode_upper(b: &[u8]) -> (r: String)
    ensures
        r@ == hex_upper(b@),
{
    hex::encode_upper(b)
}

/// Relies on hex::decode: it accepts exactly an even number of hexadecimal
/// digits of either case, and reads each pair as one byte, high nibble first.
#[verifier::external_body]
pub(crate) fn hex_decode(s: &str) -> (r: Option<Vec<u8>>)
    ensures
        r.is_some() == is_hex_text(s@),
        r.is_some() ==> r.unwrap()@ == hex_bytes(s@),
{
    hex::decode(s).ok()
}

/// Relies on bs58::encode(..).into_string: base58 text of the bytes.
#[verifier::external_body]
pub(crate) fn base58_encode(b: &[u8]) -> (r: String)
    ensures
        r@ == base58_of(b@),
{
    bs58::encode(b).into_string()
}

/// Relies on bs58::decode(..).into_vec: the decoded bytes, or the decoder's
/// error message where the text is not valid base58.
#[verifier::external_body]
pub(crate) fn base58_decode(s: &str) -> (r: Result<Vec<u8>, String>)
    ensures
        r.is_ok() == base58_decoded(s@).is_some(),
        r.is_ok() ==> r->Ok_0@ == base58_decoded(s@).unwrap(),
{
    bs58::decode(s).into_vec().map_err(|e| e.to_string())
}

/// Relies on k256::PublicKey::from_sec1_bytes and to_encoded_point(false): the
/// point that the bytes encode, as `0x04 ‖ X ‖ Y` (65 bytes).
#[verifier::external_body]
pub(crate) fn secp256k1_uncompress(b: &[u8]) -> (r: Option<Vec<u8>>)
    ensures
        r.is_some() == secp256k1_uncompressed(b@).is_some(),
        r.is_some() ==> r.unwrap()@ == secp256k1_uncompressed(b@).unwrap(),
        r.is_some() ==> r.unwrap()@.len() == 65 && r.unwrap()@[0] == 4,
{
    k256::PublicKey::from_sec1_bytes(b).ok().map(|k| k.to_encoded_point(false).as_bytes().to_vec())
}

} // verus!
