//! The sign-in challenge and its validity window.

use crate::pubkey::{base58_text, SolPubkey};
use crate::settings::Settings;
use vstd::prelude::*;
use vstd::string::StringExecFns;

verus! {

/// Version of the challenge format.
pub const MESSAGE_VERSION: u32 = 1;

/// A challenge that a wallet signs to prove control of its key.
#[derive(Debug, Clone)]
pub struct SiwsMessage {
    /// The RFC 4501 authority that asks for the signature.
    pub domain: String,
    /// Base-58 text of the key that performs the signing.
    pub address: String,
    /// Human-readable purpose text.
    pub statement: String,
    /// The RFC 3986 URI of the resource that the sign-in is for.
    pub uri: String,
    /// Version of the challenge format.
    pub version: u32,
    /// The chain the session is bound to.
    pub chain_id: String,
    /// Random token that keeps each challenge distinct and single-use.
    pub nonce: String,
    /// When the challenge was issued, in nanoseconds.
    pub issued_at: u64,
    /// When the challenge stops being valid, in nanoseconds.
    pub expiration_time: u64,
}

/// A challenge as plain values.
pub struct SiwsMessageView {
    pub domain: Seq<char>,
    pub address: Seq<char>,
    pub statement: Seq<char>,
    pub uri: Seq<char>,
    pub version: u32,
    pub chain_id: Seq<char>,
    pub nonce: Seq<char>,
    pub issued_at: u64,
    pub expiration_time: u64,
}

impl View for SiwsMessage {
    type V = SiwsMessageView;

    open spec fn view(&self) -> SiwsMessageView {
        SiwsMessageView {
            domain: self.domain@,
            address: self.address@,
            statement: self.statement@,
            uri: self.uri@,
            version: self.version,
            chain_id: self.chain_id@,
            nonce: self.nonce@,
            issued_at: self.issued_at,
            expiration_time: self.expiration_time,
        }
    }
}

/// `a + b`, held at `u64::MAX` instead of wrapping.
pub open spec fn saturating_sum(a: u64, b: u64) -> u64 {
    if a + b > u64::MAX {
        u64::MAX
    } else {
        (a + b) as u64
    }
}

/// Whether a challenge issued at `issued_at` and valid until
/// `expiration_time` is expired at `now`: before its issue time counts as
/// expired too.
pub open spec fn expired_at(issued_at: u64, expiration_time: u64, now: u64) -> bool {
    now < issued_at || now > expiration_time
}

/// The challenge that the settings prescribe for a key and nonce at `now`.
pub open spec fn challenge_for(
    key: Seq<u8>,
    nonce: Seq<char>,
    now: u64,
    s: Settings,
) -> SiwsMessageView {
    SiwsMessageView {
        domain: s.domain@,
        address: base58_text(key),
        statement: s.statement@,
        uri: s.uri@,
        version: MESSAGE_VERSION,
        chain_id: s.chain_id@,
        nonce: nonce,
        issued_at: now,
        expiration_time: saturating_sum(now, s.sign_in_expires_in),
    }
}

/// The text that `time` formats a nanosecond Unix timestamp to, in the form
/// `[year]-[month]-[day]T[hour]:[minute]:[second].[subsecond digits:3]Z`.
pub uninterp spec fn iso_millis_text(nanos: u64) -> Seq<char>;

/// Relies on `time::OffsetDateTime::from_unix_timestamp_nanos` and
/// `OffsetDateTime::format`: renders the instant in UTC with millisecond
/// precision. Every `u64` of nanoseconds lies within the years `time` can
/// represent, and the description is valid, so neither step fails.
#[verifier::external_body]
fn format_timestamp(nanos: u64) -> (r: String)
    ensures
        r@ == iso_millis_text(nanos),
{
    let format = time::format_description::parse(
        "[year]-[month]-[day]T[hour]:[minute]:[second].[subsecond digits:3]Z",
    ).unwrap();
    time::OffsetDateTime::from_unix_timestamp_nanos(nanos as i128).unwrap().format(&format).unwrap()
}

/// The digit character for `d < 10`.
pub open spec fn digit_char(d: nat) -> char {
    if d == 0 { '0' } else if d == 1 { '1' } else if d == 2 { '2' } else if d == 3 { '3' }
    else if d == 4 { '4' } else if d == 5 { '5' } else if d == 6 { '6' } else if d == 7 { '7' }
    else if d == 8 { '8' } else { '9' }
}

/// The decimal text of `n`, without leading zeros.
pub open spec fn decimal_text(n: nat) -> Seq<char>
    decreases n,
{
    if n < 10 {
        seq![digit_char(n)]
    } else {
        decimal_text(n / 10) + seq![digit_char(n % 10)]
    }
}

/// Relies on `u32`'s `Display` through `to_string`: its decimal text.
#[verifier::external_body]
fn u32_text(n: u32) -> (r: String)
    ensures
        r@ == decimal_text(n as nat),
{
    n.to_string()
}

/// The text that the wallet signs, given the text of both timestamps: every
/// field, in a fixed order.
pub open spec fn sign_in_text_with(
    m: SiwsMessageView,
    issued_at: Seq<char>,
    expiration_time: Seq<char>,
) -> Seq<char> {
    m.domain + " wants you to sign in with your Solana account:\n"@ + m.address + "\n\n"@
        + m.statement + "\n\nURI: "@ + m.uri + "\nVersion: "@ + decimal_text(m.version as nat)
        + "\nChain ID: "@ + m.chain_id + "\nNonce: "@ + m.nonce + "\nIssued At: "@ + issued_at
        + "\nExpiration Time: "@ + expiration_time
}

/// The text that the wallet signs, with both timestamps at millisecond
/// precision.
pub open spec fn sign_in_text(m: SiwsMessageView) -> Seq<char> {
    sign_in_text_with(m, iso_millis_text(m.issued_at), iso_millis_text(m.expiration_time))
}

impl SiwsMessage {
    /// Builds the challenge for `pubkey` and `nonce`, issued at `now` and
    /// valid for the configured time to live.
    pub fn new(pubkey: &SolPubkey, nonce: &str, now: u64, settings: &Settings) -> (r: SiwsMessage)
        ensures
            r@ == challenge_for(pubkey.spec_bytes(), nonce@, now, *settings),
            r@.expiration_time >= r@.issued_at,
    {
        SiwsMessage {
            domain: settings.domain.clone(),
            address: pubkey.to_string(),
            statement: settings.statement.clone(),
            uri: settings.uri.clone(),
            version: MESSAGE_VERSION,
            chain_id: settings.chain_id.clone(),
            nonce: nonce.to_owned(),
            issued_at: now,
            expiration_time: now.saturating_add(settings.sign_in_expires_in),
        }
    }

    /// Whether the challenge is outside its validity window at `now`.
    pub fn is_expired(&self, now: u64) -> (r: bool)
        ensures
            r == expired_at(self.issued_at, self.expiration_time, now),
    {
        now < self.issued_at || now > self.expiration_time
    }

    /// The text that the wallet signs.
    pub fn to_sign_in_text(&self) -> (r: String)
        ensures
            r@ == sign_in_text(self@),
    {
        let issued_at = format_timestamp(self.issued_at);
        let expiration = format_timestamp(self.expiration_time);
        self.sign_in_text_with(issued_at.as_str(), expiration.as_str())
    }

    /// The text that the wallet signs, with the given text for the two
    /// timestamps.
    pub fn sign_in_text_with(&self, issued_at: &str, expiration_time: &str) -> (r: String)
        ensures
            r@ == sign_in_text_with(self@, issued_at@, expiration_time@),
    {
        let mut s = self.domain.clone();
        s.append(" wants you to sign in with your Solana account:\n");
        s.append(self.address.as_str());
        s.append("\n\n");
        s.append(self.statement.as_str());
        s.append("\n\nURI: ");
        s.append(self.uri.as_str());
        s.append("\nVersion: ");
        let version = u32_text(self.version);
        s.append(version.as_str());
        s.append("\nChain ID: ");
        s.append(self.chain_id.as_str());
        s.append("\nNonce: ");
        s.append(self.nonce.as_str());
        s.append("\nIssued At: ");
        s.append(issued_at);
        s.append("\nExpiration Time: ");
        s.append(expiration_time);
        s
    }

    /// A field-by-field copy of the challenge.
    pub fn duplicate(&self) -> (r: SiwsMessage)
        ensures
            r@ == self@,
    {
        SiwsMessage {
            domain: self.domain.clone(),
            address: self.address.clone(),
            statement: self.statement.clone(),
            uri: self.uri.clone(),
            version: self.version,
            chain_id: self.chain_id.clone(),
            nonce: self.nonce.clone(),
            issued_at: self.issued_at,
            expiration_time: self.expiration_time,
        }
    }
}

} // verus!
