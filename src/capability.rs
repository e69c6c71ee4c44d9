//! A stub host capability surface: address canonicalization by zero padding,
//! and placeholder signature checks. These are fixed stand-ins that let a
//! sandbox be structurally complete; they are not cryptography.
use vstd::prelude::*;
use vstd::string::*;
use vstd::utf8::{decode_utf8, encode_utf8, valid_utf8};

verus! {

/// Length of canonical addresses made by the stub.
pub const CANONICAL_LENGTH: usize = 54;

/// Why a stub capability call failed.
#[derive(Debug, Clone, Copy, PartialEq, Eq)]
pub enum ApiError {
    /// The human address cannot be canonicalized.
    InvalidAddress,
    /// The human address has fewer than 3 bytes.
    TooShort,
    /// The human address is longer than the canonical length.
    TooLong,
    /// The canonical address does not have the canonical length.
    BadLength,
    /// The canonical address, without its zero bytes, is not UTF-8.
    InvalidUtf8,
    /// The operation is deliberately not implemented by the stub.
    Unimplemented,
}

/// `b` with every zero byte removed.
pub open spec fn strip_zeros(b: Seq<u8>) -> Seq<u8>
    decreases b.len(),
{
    if b.len() == 0 {
        b
    } else if b.last() == 0 {
        strip_zeros(b.drop_last())
    } else {
        strip_zeros(b.drop_last()).push(b.last())
    }
}

/// `b` padded on the right with zero bytes up to length `n`.
pub open spec fn zero_padded(b: Seq<u8>, n: nat) -> Seq<u8> {
    b + Seq::new((n - b.len()) as nat, |i: int| 0u8)
}

/// Whether `b` holds no zero byte.
pub open spec fn has_no_zero(b: Seq<u8>) -> bool {
    forall|i: int| 0 <= i < b.len() ==> b[i] != 0
}

/// The outcome of canonicalizing a human address with UTF-8 bytes `h` to
/// length `n`.
pub open spec fn canonicalize_result(h: Seq<u8>, n: nat) -> Result<Seq<u8>, ApiError> {
    if h.len() < 3 {
        Err(ApiError::TooShort)
    } else if h.len() > n {
        Err(ApiError::TooLong)
    } else {
        Ok(zero_padded(h, n))
    }
}

/// The outcome of humanizing canonical bytes `c` under canonical length `n`.
pub open spec fn humanize_result(c: Seq<u8>, n: nat) -> Result<Seq<char>, ApiError> {
    if c.len() != n {
        Err(ApiError::BadLength)
    } else if !valid_utf8(strip_zeros(c)) {
        Err(ApiError::InvalidUtf8)
    } else {
        Ok(decode_utf8(strip_zeros(c)))
    }
}

/// Relies on String::from_utf8: it succeeds exactly on valid UTF-8, and the
/// string then holds the characters that the bytes encode.
#[verifier::external_body]
fn string_from_utf8(b: Vec<u8>) -> (r: Option<String>)
    ensures
        r.is_some() == valid_utf8(b@),
        r.is_some() ==> r.unwrap()@ == decode_utf8(b@),
{
    String::from_utf8(b).ok()
}

/// The stub capability provider.
#[derive(Copy, Clone)]
pub struct EmptyApi {
    /// Length of canonical addresses created with this API.
    canonical_length: usize,
}

impl Default for EmptyApi {
    fn default() -> (r: Self)
        ensures
            r.canonical_len() == CANONICAL_LENGTH,
    {
        EmptyApi { canonical_length: CANONICAL_LENGTH }
    }
}

impl EmptyApi {
    /// Length of canonical addresses created with this API.
    pub closed spec fn canonical_len(&self) -> usize {
        self.canonical_length
    }

    /// The human address itself, where it can be canonicalized.
    pub fn addr_validate(&self, human: &str) -> (r: Result<String, ApiError>)
        ensures
            canonicalize_result(encode_utf8(human@), self.canonical_len() as nat).is_ok() ==> (r
                is Ok && r->Ok_0@ == human@),
            canonicalize_result(encode_utf8(human@), self.canonical_len() as nat).is_err() ==> r
                == Err::<String, ApiError>(ApiError::InvalidAddress),
    {
        match self.addr_canonicalize(human) {
            Ok(_) => Ok(human.to_owned()),
            Err(_) => Err(ApiError::InvalidAddress),
        }
    }

    /// The UTF-8 bytes of the human address, padded with zero bytes to the
    /// canonical length.
    pub fn addr_canonicalize(&self, human: &str) -> (r: Result<Vec<u8>, ApiError>)
        ensures
            r.is_ok() == canonicalize_result(encode_utf8(human@), self.canonical_len() as nat).is_ok(),
            r.is_ok() ==> r->Ok_0@ == canonicalize_result(
                encode_utf8(human@),
                self.canonical_len() as nat,
            )->Ok_0,
            r.is_err() ==> r->Err_0 == canonicalize_result(
                encode_utf8(human@),
                self.canonical_len() as nat,
            )->Err_0,
    {
        let bytes = human.as_bytes();
        if bytes.len() < 3 {
            return Err(ApiError::TooShort);
        }
        if bytes.len() > self.canonical_length {
            return Err(ApiError::TooLong);
        }
        let mut out: Vec<u8> = Vec::new();
        let mut i: usize = 0;
        while i < bytes.len()
            invariant
                i <= bytes@.len(),
                out@ == bytes@.subrange(0, i as int),
            decreases bytes@.len() - i,
        {
            out.push(bytes[i]);
            i = i + 1;
            assert(out@ =~= bytes@.subrange(0, i as int));
        }
        while out.len() < self.canonical_length
            invariant
                bytes@.len() <= self.canonical_length,
                bytes@.len() <= out@.len() <= self.canonical_length,
                out@ == zero_padded(bytes@, out@.len()),
            decreases self.canonical_length - out@.len(),
        {
            out.push(0u8);
            assert(out@ =~= zero_padded(bytes@, out@.len()));
        }
        assert(out@ =~= zero_padded(bytes@, self.canonical_length as nat));
        Ok(out)
    }

    /// The human address that canonical bytes stand for: the bytes without
    /// their zero bytes, read as UTF-8.
    pub fn addr_humanize(&self, canonical: &[u8]) -> (r: Result<String, ApiError>)
        ensures
            r.is_ok() == humanize_result(canonical@, self.canonical_len() as nat).is_ok(),
            r.is_ok() ==> r->Ok_0@ == humanize_result(canonical@, self.canonical_len() as nat)->Ok_0,
            r.is_err() ==> r->Err_0 == humanize_result(
                canonical@,
                self.canonical_len() as nat,
            )->Err_0,
    {
        if canonical.len() != self.canonical_length {
            return Err(ApiError::BadLength);
        }
        let mut trimmed: Vec<u8> = Vec::new();
        let mut i: usize = 0;
        while i < canonical.len()
            invariant
                i <= canonical@.len(),
                trimmed@ == strip_zeros(canonical@.subrange(0, i as int)),
            decreases canonical@.len() - i,
        {
            let b = canonical[i];
            if b != 0 {
                trimmed.push(b);
            }
            assert(canonical@.subrange(0, i + 1).drop_last() =~= canonical@.subrange(0, i as int));
            i = i + 1;
        }
        assert(canonical@.subrange(0, canonical@.len() as int) =~= canonical@);
        match string_from_utf8(trimmed) {
            Some(human) => Ok(human),
            None => Err(ApiError::InvalidUtf8),
        }
    }

    /// Placeholder: secp256k1 verification is not implemented and always fails.
    pub fn secp256k1_verify(&self, _message_hash: &[u8], _signature: &[u8], _public_key: &[u8]) -> (r:
        Result<bool, ApiError>)
        ensures
            r == Err::<bool, ApiError>(ApiError::Unimplemented),
    {
        Err(ApiError::Unimplemented)
    }

    /// Placeholder: public key recovery is not implemented and always fails.
    pub fn secp256k1_recover_pubkey(
        &self,
        _message_hash: &[u8],
        _signature: &[u8],
        _recovery_param: u8,
    ) -> (r: Result<Vec<u8>, ApiError>)
        ensures
            r is Err && r->Err_0 == ApiError::Unimplemented,
    {
        Err(ApiError::Unimplemented)
    }

    /// Placeholder: every ed25519 signature is accepted. Not a verification.
    pub fn ed25519_verify(&self, _message: &[u8], _signature: &[u8], _public_key: &[u8]) -> (r:
        Result<bool, ApiError>)
        ensures
            r == Ok::<bool, ApiError>(true),
    {
        Ok(true)
    }

    /// Placeholder: every batch of ed25519 signatures is accepted. Not a
    /// verification.
    pub fn ed25519_batch_verify(
        &self,
        _messages: &[&[u8]],
        _signatures: &[&[u8]],
        _public_keys: &[&[u8]],
    ) -> (r: Result<bool, ApiError>)
        ensures
            r == Ok::<bool, ApiError>(true),
    {
        Ok(true)
    }
}

/// Zero bytes added on the right are removed again by `strip_zeros`.
proof fn lemma_strip_zero_padded(b: Seq<u8>, n: nat)
    requires
        has_no_zero(b),
        b.len() <= n,
    ensures
        strip_zeros(zero_padded(b, n)) == b,
    decreases n,
{
    if n == b.len() {
        assert(zero_padded(b, n) =~= b);
        lemma_strip_no_zero(b);
    } else {
        lemma_strip_zero_padded(b, (n - 1) as nat);
        assert(zero_padded(b, n).drop_last() =~= zero_padded(b, (n - 1) as nat));
    }
}

/// A byte string without zero bytes is kept whole by `strip_zeros`.
proof fn lemma_strip_no_zero(b: Seq<u8>)
    requires
        has_no_zero(b),
    ensures
        strip_zeros(b) == b,
    decreases b.len(),
{
    if b.len() > 0 {
        lemma_strip_no_zero(b.drop_last());
        assert(b.drop_last().push(b.last()) =~= b);
    }
}

/// A human address whose UTF-8 form has no zero byte and a length from 3 up
/// to the canonical length comes back unchanged from canonicalizing and then
/// humanizing.
pub proof fn lemma_humanize_canonicalize(h: Seq<char>, n: nat)
    requires
        3 <= encode_utf8(h).len() <= n,
        has_no_zero(encode_utf8(h)),
    ensures
        canonicalize_result(encode_utf8(h), n) is Ok,
        humanize_result(canonicalize_result(encode_utf8(h), n)->Ok_0, n) is Ok,
        humanize_result(canonicalize_result(encode_utf8(h), n)->Ok_0, n)->Ok_0 == h,
{
    broadcast use vstd::utf8::encode_utf8_decode_utf8, vstd::utf8::encode_utf8_valid_utf8;

    lemma_strip_zero_padded(encode_utf8(h), n);
}

} // verus!
