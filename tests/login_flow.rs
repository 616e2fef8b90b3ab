use secp256k1::ecdsa::RecoverableSignature;
use secp256k1::{Message, PublicKey, SecretKey};
use sha3::{Digest, Keccak256};
use wallet_auth::app_error::{AppError, AuthErrorKind};
use wallet_auth::auth::{AuthState, LoginRequest};
use wallet_auth::challenge::ChallengeRequest;
use wallet_auth::jwt::validate_access_token;
use wallet_auth::security_events::EventType;
use wallet_auth::signature::hash_personal_message;

const SECRET: &str = "flow-secret";

fn key() -> SecretKey {
    SecretKey::from_byte_array([7u8; 32]).unwrap()
}

fn address_of(sk: &SecretKey) -> String {
    let pk = PublicKey::from_secret_key(sk).serialize_uncompressed();
    format!("0x{}", hex::encode(&Keccak256::digest(&pk[1..])[12..]))
}

fn sign(sk: &SecretKey, message: &str) -> String {
    let digest: [u8; 32] = hash_personal_message(message).try_into().unwrap();
    let (id, compact) =
        RecoverableSignature::sign_ecdsa_recoverable(Message::from_digest(digest), sk).serialize_compact();
    let mut bytes = compact.to_vec();
    bytes.push(u8::from(id) + 27);
    format!("0x{}", hex::encode(bytes))
}

#[test]
fn end_to_end_login_issues_tokens_and_creates_user() {
    let sk = key();
    let address = address_of(&sk);
    let mut state = AuthState::new();
    let resp = state
        .create_challenge(&ChallengeRequest { ethereum_address: address.clone() }, "10.0.0.1", "ua", "example.com")
        .unwrap();
    assert!(resp.message.contains(": example.com. "));
    let request = LoginRequest {
        challenge_id: resp.challenge_id,
        ethereum_address: address.clone(),
        signature: sign(&sk, &resp.message),
    };
    let login = state.login(&request, "10.0.0.1", "ua", SECRET).unwrap();
    assert_eq!(login.expires_in, 900);
    assert_eq!(login.user.ethereum_address, address);
    assert!(!login.user.is_admin);
    let claims = validate_access_token(&login.access_token, SECRET).unwrap();
    assert_eq!(claims.sub, login.user.id);
    assert_ne!(login.access_token, login.refresh_token);
    assert!(state.users.get_user_by_id(login.user.id).is_some());
    assert_eq!(state.events.get_events_by_type(EventType::Login).len(), 1);
    assert_eq!(state.events.get_events_by_type(EventType::ChallengeCreated).len(), 1);
}

#[test]
fn challenge_cannot_be_used_twice() {
    let sk = key();
    let address = address_of(&sk);
    let mut state = AuthState::new();
    let resp = state
        .create_challenge_at(&ChallengeRequest { ethereum_address: address.clone() }, "ip", "ua", "example.com", 1_000_000, 5, &[3; 16])
        .unwrap();
    let request = LoginRequest { challenge_id: 5, ethereum_address: address.clone(), signature: sign(&sk, &resp.message) };
    let first = state.login_at(&request, "ip", "ua", SECRET, 1_000_010, 77, 1, 2).unwrap();
    assert_eq!(first.user.id, 77);
    assert_eq!(
        state.login_at(&request, "ip", "ua", SECRET, 1_000_020, 78, 3, 4).unwrap_err(),
        AppError::AuthError(AuthErrorKind::NoActiveChallenge)
    );
}

#[test]
fn existing_user_is_reused() {
    let sk = key();
    let address = address_of(&sk);
    let mut state = AuthState::new();
    for (i, id) in [(0i64, 11u128), (1, 12)] {
        let t = 2_000_000 + i * 100;
        let resp = state
            .create_challenge_at(&ChallengeRequest { ethereum_address: address.clone() }, "ip", "ua", "d", t, id, &[1; 16])
            .unwrap();
        let req = LoginRequest { challenge_id: id, ethereum_address: address.clone(), signature: sign(&sk, &resp.message) };
        let out = state.login_at(&req, "ip", "ua", SECRET, t + 1, 500 + i as u128, 1, 2).unwrap();
        assert_eq!(out.user.id, 500);
    }
}

#[test]
fn rejected_signature_leaves_challenge_usable() {
    let sk = key();
    let address = address_of(&sk);
    let mut state = AuthState::new();
    let resp = state
        .create_challenge_at(&ChallengeRequest { ethereum_address: address.clone() }, "ip", "ua", "d", 3_000_000, 8, &[2; 16])
        .unwrap();
    let other = SecretKey::from_byte_array([9u8; 32]).unwrap();
    let bad = LoginRequest { challenge_id: 8, ethereum_address: address.clone(), signature: sign(&other, &resp.message) };
    assert_eq!(
        state.login_at(&bad, "ip", "ua", SECRET, 3_000_001, 1, 1, 2).unwrap_err(),
        AppError::AuthError(AuthErrorKind::InvalidSignature)
    );
    assert_eq!(state.events.get_events_by_type(EventType::FailedLogin).len(), 1);
    let good = LoginRequest { challenge_id: 8, ethereum_address: address.clone(), signature: sign(&sk, &resp.message) };
    assert!(state.login_at(&good, "ip", "ua", SECRET, 3_000_002, 1, 1, 2).is_ok());
}

#[test]
fn expired_challenge_cannot_log_in() {
    let sk = key();
    let address = address_of(&sk);
    let mut state = AuthState::new();
    let resp = state
        .create_challenge_at(&ChallengeRequest { ethereum_address: address.clone() }, "ip", "ua", "d", 4_000_000, 8, &[2; 16])
        .unwrap();
    let req = LoginRequest { challenge_id: 8, ethereum_address: address.clone(), signature: sign(&sk, &resp.message) };
    assert_eq!(
        state.login_at(&req, "ip", "ua", SECRET, 4_000_300, 1, 1, 2).unwrap_err(),
        AppError::AuthError(AuthErrorKind::NoActiveChallenge)
    );
}

#[test]
fn login_attempts_are_rate_limited() {
    let sk = key();
    let address = address_of(&sk);
    let mut state = AuthState::new();
    let req = LoginRequest { challenge_id: 1, ethereum_address: address.clone(), signature: format!("0x{}", "00".repeat(65)) };
    for _ in 0..3 {
        assert_eq!(
            state.login_at(&req, "ip", "ua", SECRET, 5_000_000, 1, 1, 2).unwrap_err(),
            AppError::AuthError(AuthErrorKind::NoActiveChallenge)
        );
    }
    assert!(matches!(
        state.login_at(&req, "ip", "ua", SECRET, 5_000_001, 1, 1, 2),
        Err(AppError::RateLimited { count: 3, .. })
    ));
}

#[test]
fn malformed_requests_are_refused() {
    let mut state = AuthState::new();
    assert_eq!(
        state.create_challenge_at(&ChallengeRequest { ethereum_address: "0x1".to_string() }, "ip", "ua", "d", 1, 1, &[0; 16]).unwrap_err(),
        AppError::AuthError(AuthErrorKind::InvalidIdentity)
    );
    let req = LoginRequest { challenge_id: 1, ethereum_address: address_of(&key()), signature: "0x00".to_string() };
    assert!(state.login_at(&req, "ip", "ua", SECRET, 1, 1, 1, 2).is_err());
}

#[test]
fn missing_challenge_is_recorded_as_failed_login() {
    let mut state = AuthState::new();
    let req = LoginRequest { challenge_id: 42, ethereum_address: address_of(&key()), signature: format!("0x{}", "00".repeat(65)) };
    assert_eq!(
        state.login_at(&req, "ip", "ua", SECRET, 6_000_000, 1, 1, 2).unwrap_err(),
        AppError::AuthError(AuthErrorKind::NoActiveChallenge)
    );
    assert_eq!(state.events.get_events_by_type(EventType::FailedLogin).len(), 1);
    assert!(state.users.get_user_by_id(1).is_none());
}

#[test]
fn wrong_length_identity_at_login_is_invalid_identity() {
    let mut state = AuthState::new();
    let req = LoginRequest { challenge_id: 1, ethereum_address: "0x12".to_string(), signature: format!("0x{}", "00".repeat(65)) };
    assert_eq!(
        state.login_at(&req, "ip", "ua", SECRET, 1, 1, 1, 2).unwrap_err(),
        AppError::AuthError(AuthErrorKind::InvalidIdentity)
    );
    let short_sig = LoginRequest { challenge_id: 1, ethereum_address: address_of(&key()), signature: "0x00".to_string() };
    assert_eq!(
        state.login_at(&short_sig, "ip", "ua", SECRET, 1, 1, 1, 2).unwrap_err(),
        AppError::AuthError(AuthErrorKind::InvalidSignature)
    );
    assert_eq!(state.events.get_all_events().len(), 0);
}

#[test]
fn success_records_challenge_used_then_login() {
    let sk = key();
    let address = address_of(&sk);
    let mut state = AuthState::new();
    let resp = state
        .create_challenge_at(&ChallengeRequest { ethereum_address: address.clone() }, "ip", "ua", "d", 7_000_000, 3, &[4; 16])
        .unwrap();
    let req = LoginRequest { challenge_id: 3, ethereum_address: address.clone(), signature: sign(&sk, &resp.message) };
    let out = state.login_at(&req, "ip", "ua", SECRET, 7_000_001, 90, 1, 2).unwrap();
    let events = state.events.get_all_events();
    assert_eq!(events.len(), 3);
    assert_eq!(events[0].event_type, EventType::ChallengeCreated);
    assert_eq!(events[1].event_type, EventType::ChallengeUsed);
    assert_eq!(events[2].event_type, EventType::Login);
    assert_eq!(events[2].user_id, Some(out.user.id));
}

#[test]
fn refused_challenge_request_stores_nothing() {
    let mut state = AuthState::new();
    let bad = ChallengeRequest { ethereum_address: format!("0x{}", "g".repeat(40)) };
    assert_eq!(
        state.create_challenge_at(&bad, "ip", "ua", "d", 100, 1, &[0; 16]).unwrap_err(),
        AppError::AuthError(AuthErrorKind::InvalidIdentity)
    );
    assert_eq!(state.challenges.len(), 0);
    assert_eq!(state.events.get_all_events().len(), 0);
    let good = ChallengeRequest { ethereum_address: address_of(&key()) };
    for i in 0..2 {
        assert!(state.create_challenge_at(&good, "ip", "ua", "d", 100, 10 + i, &[0; 16]).is_ok());
    }
    assert!(matches!(
        state.create_challenge_at(&good, "ip", "ua", "d", 100, 20, &[0; 16]),
        Err(AppError::RateLimited { count: 3, .. })
    ));
    assert_eq!(state.challenges.len(), 2);
    let created = state.events.get_events_by_type(EventType::ChallengeCreated);
    assert_eq!(created.len(), 2);
    assert_eq!(created[0].user_id, None);
}
