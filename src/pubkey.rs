//! Fixed-width identifiers: the 32-byte Solana public key and the 29-byte
//! host principal, with their conversions to and from external encodings.

use vstd::prelude::*;

verus! {

/// Width in bytes of a Solana public key.
pub const PUBKEY_LEN: usize = 32;

/// Width in bytes of a host principal.
pub const PRINCIPAL_LEN: usize = 29;

/// What `bs58::decode(..).into_vec()` yields for a text: the bytes, or nothing
/// when the text is not base-58.
pub uninterp spec fn base58_decoded(s: Seq<char>) -> Option<Seq<u8>>;

/// The base-58 text that `bs58::encode(..).into_string()` yields for some bytes.
pub uninterp spec fn base58_text(b: Seq<u8>) -> Seq<char>;

/// Relies on `bs58::decode(..).into_vec()`: decodes base-58 text, failing on a
/// character outside the alphabet; it does not panic.
#[verifier::external_body]
fn decode_base58(s: &str) -> (r: Option<Vec<u8>>)
    ensures
        r matches Some(v) ==> base58_decoded(s@) == Some(v@),
        r is None ==> base58_decoded(s@) is None,
{
    bs58::decode(s).into_vec().ok()
}

/// Relies on `bs58::encode(..).into_string()`: the base-58 text of the bytes.
#[verifier::external_body]
fn encode_base58(b: &[u8]) -> (r: String)
    ensures
        r@ == base58_text(b@),
{
    bs58::encode(b).into_string()
}

/// Why an external identifier could not be turned into its fixed-width form.
#[derive(Debug, Clone, Copy, PartialEq, Eq, Structural)]
pub enum IdentifierError {
    /// The text is not base-58, or does not decode to exactly 32 bytes.
    InvalidKeyEncoding,
    /// The buffer is not exactly 29 bytes long.
    InvalidPrincipalEncoding,
}

/// The key that a text names, if it is base-58 of exactly 32 bytes.
pub open spec fn key_of_text(s: Seq<char>) -> Option<Seq<u8>> {
    match base58_decoded(s) {
        Some(b) => if b.len() == PUBKEY_LEN { Some(b) } else { None },
        None => None,
    }
}

/// Copies a byte slice of exactly `N` bytes into an array.
pub fn to_array<const N: usize>(b: &[u8]) -> (r: [u8; N])
    requires
        b@.len() == N,
    ensures
        r@ == b@,
{
    let mut r: [u8; N] = [0u8; N];
    let mut i: usize = 0;
    while i < N
        invariant
            i <= N,
            b@.len() == N,
            r@.len() == N,
            forall|j: int| 0 <= j < i ==> r@[j] == b@[j],
        decreases N - i,
    {
        r[i] = b[i];
        i = i + 1;
    }
    assert(r@ =~= b@);
    r
}

/// Copies a byte slice into a fresh vector.
pub fn to_vec(b: &[u8]) -> (r: Vec<u8>)
    ensures
        r@ == b@,
{
    let mut r: Vec<u8> = Vec::with_capacity(b.len());
    let mut i: usize = 0;
    while i < b.len()
        invariant
            i <= b@.len(),
            r@ == b@.subrange(0, i as int),
        decreases b@.len() - i,
    {
        r.push(b[i]);
        i = i + 1;
    }
    assert(r@ =~= b@);
    r
}

/// A Solana public key in canonical byte form: always exactly 32 bytes.
#[derive(Debug, Clone, Copy, PartialEq, Eq)]
pub struct SolPubkey {
    bytes: [u8; 32],
}

impl SolPubkey {
    /// The key's bytes.
    pub closed spec fn spec_bytes(self) -> Seq<u8> {
        self.bytes@
    }

    /// Parses the base-58 text of a key; anything that does not decode to
    /// exactly 32 bytes is refused.
    pub fn from_str(s: &str) -> (r: Result<SolPubkey, IdentifierError>)
        ensures
            match key_of_text(s@) {
                Some(b) => r matches Ok(k) && k.spec_bytes() == b,
                None => r == Err::<SolPubkey, IdentifierError>(IdentifierError::InvalidKeyEncoding),
            },
    {
        match decode_base58(s) {
            Some(v) => SolPubkey::try_from_slice(v.as_slice()),
            None => Err(IdentifierError::InvalidKeyEncoding),
        }
    }

    /// Takes a key from raw bytes; anything but exactly 32 bytes is refused.
    pub fn try_from_slice(b: &[u8]) -> (r: Result<SolPubkey, IdentifierError>)
        ensures
            b@.len() == PUBKEY_LEN ==> (r matches Ok(k) && k.spec_bytes() == b@),
            b@.len() != PUBKEY_LEN ==> r == Err::<SolPubkey, IdentifierError>(
                IdentifierError::InvalidKeyEncoding,
            ),
    {
        if b.len() == PUBKEY_LEN {
            Ok(SolPubkey { bytes: to_array(b) })
        } else {
            Err(IdentifierError::InvalidKeyEncoding)
        }
    }

    /// The key's bytes, 32 of them.
    pub fn to_bytes(&self) -> (r: Vec<u8>)
        ensures
            r@ == self.spec_bytes(),
            r@.len() == PUBKEY_LEN,
    {
        to_vec(self.bytes.as_slice())
    }

    /// The canonical base-58 text of the key.
    pub fn to_string(&self) -> (r: String)
        ensures
            r@ == base58_text(self.spec_bytes()),
    {
        encode_base58(self.bytes.as_slice())
    }
}

/// A host principal in fixed-width form: always exactly 29 bytes.
#[derive(Debug, Clone, Copy, PartialEq, Eq)]
pub struct PrincipalId {
    bytes: [u8; 29],
}

impl PrincipalId {
    /// The principal's bytes.
    pub closed spec fn spec_bytes(self) -> Seq<u8> {
        self.bytes@
    }

    /// Takes a principal from raw bytes; anything but exactly 29 bytes is
    /// refused, with no truncation or padding.
    pub fn from_bytes(b: &[u8]) -> (r: Result<PrincipalId, IdentifierError>)
        ensures
            b@.len() == PRINCIPAL_LEN ==> (r matches Ok(p) && p.spec_bytes() == b@),
            b@.len() != PRINCIPAL_LEN ==> r == Err::<PrincipalId, IdentifierError>(
                IdentifierError::InvalidPrincipalEncoding,
            ),
    {
        if b.len() == PRINCIPAL_LEN {
            Ok(PrincipalId { bytes: to_array(b) })
        } else {
            Err(IdentifierError::InvalidPrincipalEncoding)
        }
    }

    /// The principal's bytes, 29 of them.
    pub fn to_bytes(&self) -> (r: Vec<u8>)
        ensures
            r@ == self.spec_bytes(),
            r@.len() == PRINCIPAL_LEN,
    {
        to_vec(self.bytes.as_slice())
    }
}

} // verus!
