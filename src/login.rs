//! The login flow: issue a challenge for a key, then consume it once and, on a
//! successful external verification, bind the principal to the key.

use crate::identity::{bind_view, IdentityMapping};
use crate::message::{challenge_for, expired_at, SiwsMessage, SiwsMessageView};
use crate::pubkey::{key_of_text, PrincipalId, SolPubkey};
use crate::settings::Settings;
use crate::store::{map_key, SiwsMessageError, SiwsMessageMap};
use vstd::prelude::*;
use vstd::string::StringSliceAdditionalSpecFns;

verus! {

/// Why a login step failed.
#[derive(Debug, Clone, Copy, PartialEq, Eq, Structural)]
pub enum LoginError {
    /// The key text is not base-58 of exactly 32 bytes.
    InvalidKeyEncoding,
    /// No challenge is stored for the key and nonce.
    MessageNotFound,
    /// The challenge exists but is outside its validity window.
    ChallengeExpired,
    /// The external verifier rejected the signature.
    VerificationFailed,
}

impl LoginError {
    /// The error as text.
    pub fn message(&self) -> (r: &'static str) {
        match self {
            LoginError::InvalidKeyEncoding => "Invalid Solana public key",
            LoginError::MessageNotFound => "Message not found",
            LoginError::ChallengeExpired => "Message expired",
            LoginError::VerificationFailed => "Signature verification failed",
        }
    }
}

/// The challenge store after a login attempt for `key_text` and `nonce` at
/// `now`, and the key that was proved (or why none was).
pub open spec fn login_outcome(
    m: Map<Seq<u8>, SiwsMessageView>,
    key_text: Seq<char>,
    nonce: Seq<u8>,
    now: u64,
    verified: bool,
) -> (Map<Seq<u8>, SiwsMessageView>, Result<Seq<u8>, LoginError>) {
    match key_of_text(key_text) {
        None => (m, Err(LoginError::InvalidKeyEncoding)),
        Some(k) => {
            let h = map_key(k, nonce);
            if !m.contains_key(h) {
                (m, Err(LoginError::MessageNotFound))
            } else if expired_at(m[h].issued_at, m[h].expiration_time, now) {
                (m.remove(h), Err(LoginError::ChallengeExpired))
            } else if !verified {
                (m.remove(h), Err(LoginError::VerificationFailed))
            } else {
                (m.remove(h), Ok(k))
            }
        },
    }
}

/// Issues and stores a challenge for the key named by `key_text`, with the
/// given nonce, issued at `now`.
pub fn prepare_login(
    store: &mut SiwsMessageMap,
    settings: &Settings,
    key_text: &str,
    nonce: &str,
    now: u64,
) -> (r: Result<SiwsMessage, LoginError>)
    requires
        old(store).wf(),
    ensures
        final(store).wf(),
        match key_of_text(key_text@) {
            None => r == Err::<SiwsMessage, LoginError>(LoginError::InvalidKeyEncoding)
                && final(store)@ == old(store)@,
            Some(k) => r matches Ok(m) && m@ == challenge_for(k, nonce@, now, *settings)
                && final(store)@ == old(store)@.insert(map_key(k, nonce.spec_bytes()), m@),
        },
{
    let pubkey = match SolPubkey::from_str(key_text) {
        Ok(k) => k,
        Err(_) => {
            return Err(LoginError::InvalidKeyEncoding);
        },
    };
    let message = SiwsMessage::new(&pubkey, nonce, now, settings);
    store.insert(&pubkey, message.duplicate(), nonce);
    Ok(message)
}

/// Consumes the challenge for `key_text` and `nonce`. A missing challenge is
/// refused with the store unchanged; an expired one is removed and refused;
/// otherwise the challenge is removed before the verifier's verdict is
/// looked at, and only on a positive verdict is `principal` bound to the key.
pub fn complete_login(
    store: &mut SiwsMessageMap,
    mapping: &mut IdentityMapping,
    key_text: &str,
    nonce: &str,
    now: u64,
    verified: bool,
    principal: &PrincipalId,
) -> (r: Result<PrincipalId, LoginError>)
    requires
        old(store).wf(),
        old(mapping).wf(),
    ensures
        final(store).wf(),
        final(mapping).wf(),
        final(store)@ == login_outcome(old(store)@, key_text@, nonce.spec_bytes(), now, verified).0,
        match login_outcome(old(store)@, key_text@, nonce.spec_bytes(), now, verified).1 {
            Ok(k) => r == Ok::<PrincipalId, LoginError>(*principal) && final(mapping)@ == bind_view(
                old(mapping)@,
                principal.spec_bytes(),
                k,
            ),
            Err(e) => r == Err::<PrincipalId, LoginError>(e) && final(mapping)@ == old(mapping)@,
        },
{
    let pubkey = match SolPubkey::from_str(key_text) {
        Ok(k) => k,
        Err(_) => {
            return Err(LoginError::InvalidKeyEncoding);
        },
    };
    let message = match store.get(&pubkey, nonce) {
        Ok(m) => m,
        Err(SiwsMessageError::MessageNotFound) => {
            return Err(LoginError::MessageNotFound);
        },
    };
    store.remove(&pubkey, nonce);
    if message.is_expired(now) {
        return Err(LoginError::ChallengeExpired);
    }
    if !verified {
        return Err(LoginError::VerificationFailed);
    }
    mapping.bind(principal, &pubkey);
    Ok(*principal)
}

/// Once a login attempt has got past the store (it succeeded, or the
/// verifier refused it), a second attempt with the same key and nonce finds
/// no challenge, whatever the time and the verdict.
pub proof fn lemma_one_shot(
    m: Map<Seq<u8>, SiwsMessageView>,
    key_text: Seq<char>,
    nonce: Seq<u8>,
    now: u64,
    verified: bool,
    later: u64,
    verified_later: bool,
)
    requires
        login_outcome(m, key_text, nonce, now, verified).1 is Ok || login_outcome(
            m,
            key_text,
            nonce,
            now,
            verified,
        ).1 == Err::<Seq<u8>, LoginError>(LoginError::VerificationFailed),
    ensures
        login_outcome(
            login_outcome(m, key_text, nonce, now, verified).0,
            key_text,
            nonce,
            later,
            verified_later,
        ).1 == Err::<Seq<u8>, LoginError>(LoginError::MessageNotFound),
{
}

} // verus!
