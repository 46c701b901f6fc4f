use ic_siws::identity::{get_address, get_principal, IdentityMapping, MappingError};
use ic_siws::login::{complete_login, prepare_login, LoginError};
use ic_siws::message::SiwsMessage;
use ic_siws::pubkey::{IdentifierError, PrincipalId, SolPubkey};
use ic_siws::settings::Settings;
use ic_siws::store::{siws_message_map_hash, SiwsMessageError, SiwsMessageMap};

const ZERO_KEY: &str = "11111111111111111111111111111111";
const SOL_MINT: &str = "So11111111111111111111111111111111111111112";

fn settings(ttl: u64) -> Settings {
    Settings {
        domain: "example.com".to_string(),
        statement: "Sign in to the app".to_string(),
        uri: "https://example.com".to_string(),
        chain_id: "mainnet".to_string(),
        sign_in_expires_in: ttl,
        disable_principal_to_sol_mapping: false,
        disable_sol_to_principal_mapping: false,
    }
}

fn principal(fill: u8) -> PrincipalId {
    PrincipalId::from_bytes(&[fill; 29]).unwrap()
}

#[test]
fn pubkey_parses_base58_of_32_bytes() {
    let key = SolPubkey::from_str(ZERO_KEY).unwrap();
    assert_eq!(key.to_bytes(), vec![0u8; 32]);
    assert_eq!(key.to_string(), ZERO_KEY);
    let mint = SolPubkey::from_str(SOL_MINT).unwrap();
    assert_eq!(mint.to_string(), SOL_MINT);
    assert_ne!(mint.to_bytes(), vec![0u8; 32]);
}

#[test]
fn pubkey_rejects_bad_text() {
    assert_eq!(SolPubkey::from_str("0OIl"), Err(IdentifierError::InvalidKeyEncoding));
    assert_eq!(SolPubkey::from_str("1111"), Err(IdentifierError::InvalidKeyEncoding));
    assert_eq!(SolPubkey::from_str(""), Err(IdentifierError::InvalidKeyEncoding));
}

#[test]
fn pubkey_from_slice_needs_32_bytes() {
    assert!(SolPubkey::try_from_slice(&[7u8; 32]).is_ok());
    assert_eq!(SolPubkey::try_from_slice(&[7u8; 31]), Err(IdentifierError::InvalidKeyEncoding));
    assert_eq!(SolPubkey::try_from_slice(&[7u8; 33]), Err(IdentifierError::InvalidKeyEncoding));
}

#[test]
fn principal_fixed_width_rejection() {
    assert_eq!(PrincipalId::from_bytes(&[1u8; 28]), Err(IdentifierError::InvalidPrincipalEncoding));
    assert_eq!(PrincipalId::from_bytes(&[1u8; 30]), Err(IdentifierError::InvalidPrincipalEncoding));
    assert_eq!(PrincipalId::from_bytes(&[]), Err(IdentifierError::InvalidPrincipalEncoding));
    let p = PrincipalId::from_bytes(&[1u8; 29]).unwrap();
    assert_eq!(p.to_bytes(), vec![1u8; 29]);
}

#[test]
fn message_fields_and_expiration() {
    let key = SolPubkey::from_str(SOL_MINT).unwrap();
    let m = SiwsMessage::new(&key, "abc", 1_000_000_000, &settings(300_000_000_000));
    assert_eq!(m.domain, "example.com");
    assert_eq!(m.address, SOL_MINT);
    assert_eq!(m.statement, "Sign in to the app");
    assert_eq!(m.uri, "https://example.com");
    assert_eq!(m.version, 1);
    assert_eq!(m.chain_id, "mainnet");
    assert_eq!(m.nonce, "abc");
    assert_eq!(m.issued_at, 1_000_000_000);
    assert_eq!(m.expiration_time, 301_000_000_000);
}

#[test]
fn message_expiration_saturates() {
    let key = SolPubkey::from_str(ZERO_KEY).unwrap();
    let m = SiwsMessage::new(&key, "n", u64::MAX - 5, &settings(100));
    assert_eq!(m.expiration_time, u64::MAX);
}

#[test]
fn expiration_window_boundaries() {
    let key = SolPubkey::from_str(ZERO_KEY).unwrap();
    let m = SiwsMessage::new(&key, "n", 1_000, &settings(500));
    assert!(m.is_expired(999));
    assert!(!m.is_expired(1_000));
    assert!(!m.is_expired(1_250));
    assert!(!m.is_expired(1_500));
    assert!(m.is_expired(1_501));
}

#[test]
fn sign_in_text_layout() {
    let key = SolPubkey::from_str(ZERO_KEY).unwrap();
    let m = SiwsMessage::new(&key, "nonce123", 1_000_000_000, &settings(300_000_000_000));
    let expected = format!(
        "example.com wants you to sign in with your Solana account:\n{}\n\nSign in to the app\n\nURI: https://example.com\nVersion: 1\nChain ID: mainnet\nNonce: nonce123\nIssued At: 1970-01-01T00:00:01.000Z\nExpiration Time: 1970-01-01T00:05:01.000Z",
        ZERO_KEY
    );
    assert_eq!(m.to_sign_in_text(), expected);
}

#[test]
fn sign_in_text_millisecond_precision() {
    let key = SolPubkey::from_str(ZERO_KEY).unwrap();
    let m = SiwsMessage::new(&key, "n", 1_700_000_000_123_456_789, &settings(1_000_000));
    let text = m.to_sign_in_text();
    assert!(text.ends_with(
        "Issued At: 2023-11-14T22:13:20.123Z\nExpiration Time: 2023-11-14T22:13:20.124Z"
    ));
    let with = m.sign_in_text_with("A", "B");
    assert!(with.ends_with("Nonce: n\nIssued At: A\nExpiration Time: B"));
}

#[test]
fn map_hash_is_deterministic() {
    let key = SolPubkey::from_str(SOL_MINT).unwrap();
    assert_eq!(siws_message_map_hash(&key, "n1"), siws_message_map_hash(&key, "n1"));
    assert_ne!(siws_message_map_hash(&key, "n1"), siws_message_map_hash(&key, "n2"));
    let other = SolPubkey::from_str(ZERO_KEY).unwrap();
    assert_ne!(siws_message_map_hash(&key, "n1"), siws_message_map_hash(&other, "n1"));
    assert_ne!(siws_message_map_hash(&key, "n1"), [0u8; 32]);
}

#[test]
fn store_insert_get_remove() {
    let key = SolPubkey::from_str(SOL_MINT).unwrap();
    let mut store = SiwsMessageMap::new();
    assert_eq!(store.get(&key, "n").unwrap_err(), SiwsMessageError::MessageNotFound);
    let m = SiwsMessage::new(&key, "n", 10, &settings(100));
    store.insert(&key, m, "n");
    assert_eq!(store.get(&key, "n").unwrap().issued_at, 10);
    // the entry stays after a read
    assert_eq!(store.get(&key, "n").unwrap().nonce, "n");
    let newer = SiwsMessage::new(&key, "n", 20, &settings(100));
    store.insert(&key, newer, "n");
    assert_eq!(store.get(&key, "n").unwrap().issued_at, 20);
    store.remove(&key, "n");
    assert_eq!(store.get(&key, "n").unwrap_err(), SiwsMessageError::MessageNotFound);
    // removing again is a no-op
    store.remove(&key, "n");
    assert_eq!(SiwsMessageError::MessageNotFound.message(), "Message not found");
}

#[test]
fn store_nonce_isolation() {
    let key = SolPubkey::from_str(SOL_MINT).unwrap();
    let mut store = SiwsMessageMap::new();
    store.insert(&key, SiwsMessage::new(&key, "a", 1, &settings(100)), "a");
    store.insert(&key, SiwsMessage::new(&key, "b", 2, &settings(100)), "b");
    assert_eq!(store.get(&key, "a").unwrap().issued_at, 1);
    assert_eq!(store.get(&key, "b").unwrap().issued_at, 2);
    store.remove(&key, "a");
    assert!(store.get(&key, "a").is_err());
    assert_eq!(store.get(&key, "b").unwrap().issued_at, 2);
}

#[test]
fn store_prune_boundaries() {
    let key = SolPubkey::from_str(SOL_MINT).unwrap();
    let mut store = SiwsMessageMap::new();
    store.insert(&key, SiwsMessage::new(&key, "a", 100, &settings(50)), "a");
    store.insert(&key, SiwsMessage::new(&key, "b", 100, &settings(80)), "b");
    store.prune_expired(149);
    assert!(store.get(&key, "a").is_ok());
    assert!(store.get(&key, "b").is_ok());
    store.prune_expired(151);
    assert!(store.get(&key, "a").is_err());
    assert!(store.get(&key, "b").is_ok());
    store.prune_expired(180);
    assert!(store.get(&key, "b").is_err());
}

#[test]
fn bind_round_trip() {
    let key = SolPubkey::from_str(SOL_MINT).unwrap();
    let p = principal(3);
    let mut mapping = IdentityMapping::new();
    let s = settings(100);
    assert_eq!(get_address(&mapping, &s, &[3u8; 29]), Err(MappingError::NotFound));
    assert_eq!(get_principal(&mapping, &s, SOL_MINT), Err(MappingError::NotFound));
    mapping.bind(&p, &key);
    assert_eq!(get_address(&mapping, &s, &[3u8; 29]).unwrap(), SOL_MINT);
    assert_eq!(get_principal(&mapping, &s, SOL_MINT).unwrap(), vec![3u8; 29]);
}

#[test]
fn rebinding_releases_old_partners() {
    let k1 = SolPubkey::from_str(SOL_MINT).unwrap();
    let k2 = SolPubkey::from_str(ZERO_KEY).unwrap();
    let s = settings(100);
    let mut mapping = IdentityMapping::new();
    mapping.bind(&principal(1), &k1);
    mapping.bind(&principal(1), &k2);
    assert_eq!(get_address(&mapping, &s, &[1u8; 29]).unwrap(), ZERO_KEY);
    assert_eq!(get_principal(&mapping, &s, ZERO_KEY).unwrap(), vec![1u8; 29]);
    assert_eq!(get_principal(&mapping, &s, SOL_MINT), Err(MappingError::NotFound));
    mapping.bind(&principal(2), &k2);
    assert_eq!(get_address(&mapping, &s, &[1u8; 29]), Err(MappingError::NotFound));
    assert_eq!(get_principal(&mapping, &s, ZERO_KEY).unwrap(), vec![2u8; 29]);
}

#[test]
fn lookups_reject_bad_identifiers() {
    let s = settings(100);
    let mapping = IdentityMapping::new();
    assert_eq!(get_address(&mapping, &s, &[0u8; 28]), Err(MappingError::InvalidPrincipalEncoding));
    assert_eq!(get_address(&mapping, &s, &[0u8; 30]), Err(MappingError::InvalidPrincipalEncoding));
    assert_eq!(get_principal(&mapping, &s, "not-base58!"), Err(MappingError::InvalidKeyEncoding));
    assert_eq!(get_principal(&mapping, &s, "1111"), Err(MappingError::InvalidKeyEncoding));
}

#[test]
fn policy_gating() {
    let key = SolPubkey::from_str(SOL_MINT).unwrap();
    let mut mapping = IdentityMapping::new();
    mapping.bind(&principal(9), &key);
    let mut s = settings(100);
    s.disable_principal_to_sol_mapping = true;
    s.disable_sol_to_principal_mapping = true;
    assert_eq!(get_address(&mapping, &s, &[9u8; 29]), Err(MappingError::MappingDisabled));
    assert_eq!(get_address(&mapping, &s, &[9u8; 28]), Err(MappingError::MappingDisabled));
    assert_eq!(get_principal(&mapping, &s, SOL_MINT), Err(MappingError::MappingDisabled));
    assert_eq!(get_principal(&mapping, &s, "bad"), Err(MappingError::MappingDisabled));
    s.disable_principal_to_sol_mapping = false;
    s.disable_sol_to_principal_mapping = false;
    assert_eq!(get_address(&mapping, &s, &[9u8; 29]).unwrap(), SOL_MINT);
    assert_eq!(get_principal(&mapping, &s, SOL_MINT).unwrap(), vec![9u8; 29]);
    assert_eq!(MappingError::MappingDisabled.message(), "Mapping is disabled");
}

#[test]
fn login_scenario() {
    let s = settings(300_000_000_000);
    let mut store = SiwsMessageMap::new();
    let mut mapping = IdentityMapping::new();
    let m = prepare_login(&mut store, &s, SOL_MINT, "nonce-1", 1_000_000_000).unwrap();
    assert_eq!(m.issued_at, 1_000_000_000);
    assert_eq!(m.expiration_time, 301_000_000_000);
    assert_eq!(m.address, SOL_MINT);
    let p = principal(5);
    let r = complete_login(&mut store, &mut mapping, SOL_MINT, "nonce-1", 2_000_000_000, true, &p);
    assert_eq!(r, Ok(p));
    assert_eq!(get_address(&mapping, &s, &[5u8; 29]).unwrap(), SOL_MINT);
    let again = complete_login(&mut store, &mut mapping, SOL_MINT, "nonce-1", 2_000_000_000, true, &p);
    assert_eq!(again, Err(LoginError::MessageNotFound));
}

#[test]
fn login_verification_failure_is_one_shot() {
    let s = settings(1_000);
    let mut store = SiwsMessageMap::new();
    let mut mapping = IdentityMapping::new();
    prepare_login(&mut store, &s, SOL_MINT, "n", 100).unwrap();
    let p = principal(5);
    let r = complete_login(&mut store, &mut mapping, SOL_MINT, "n", 200, false, &p);
    assert_eq!(r, Err(LoginError::VerificationFailed));
    assert_eq!(get_address(&mapping, &s, &[5u8; 29]), Err(MappingError::NotFound));
    let again = complete_login(&mut store, &mut mapping, SOL_MINT, "n", 200, true, &p);
    assert_eq!(again, Err(LoginError::MessageNotFound));
}

#[test]
fn login_expired_challenge_is_removed() {
    let s = settings(1_000);
    let mut store = SiwsMessageMap::new();
    let mut mapping = IdentityMapping::new();
    prepare_login(&mut store, &s, SOL_MINT, "n", 100).unwrap();
    let p = principal(5);
    let r = complete_login(&mut store, &mut mapping, SOL_MINT, "n", 1_101, true, &p);
    assert_eq!(r, Err(LoginError::ChallengeExpired));
    let key = SolPubkey::from_str(SOL_MINT).unwrap();
    assert!(store.get(&key, "n").is_err());
    assert_eq!(get_address(&mapping, &s, &[5u8; 29]), Err(MappingError::NotFound));
}

#[test]
fn login_rejects_bad_key_and_unknown_nonce() {
    let s = settings(1_000);
    let mut store = SiwsMessageMap::new();
    let mut mapping = IdentityMapping::new();
    assert_eq!(
        prepare_login(&mut store, &s, "1111", "n", 100).unwrap_err(),
        LoginError::InvalidKeyEncoding
    );
    prepare_login(&mut store, &s, SOL_MINT, "n", 100).unwrap();
    let p = principal(5);
    assert_eq!(
        complete_login(&mut store, &mut mapping, "bad!", "n", 200, true, &p),
        Err(LoginError::InvalidKeyEncoding)
    );
    assert_eq!(
        complete_login(&mut store, &mut mapping, SOL_MINT, "other", 200, true, &p),
        Err(LoginError::MessageNotFound)
    );
    // the real challenge is still there
    assert_eq!(complete_login(&mut store, &mut mapping, SOL_MINT, "n", 200, true, &p), Ok(p));
    assert_eq!(LoginError::ChallengeExpired.message(), "Message expired");
}

#[test]
fn store_default_is_empty() {
    let key = SolPubkey::from_str(ZERO_KEY).unwrap();
    let store = SiwsMessageMap::default();
    assert_eq!(store.get(&key, "n").unwrap_err(), SiwsMessageError::MessageNotFound);
}
