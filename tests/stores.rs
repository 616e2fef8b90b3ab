use wallet_auth::app_error::{AppError, AuthErrorKind};
use wallet_auth::challenge::{create_siwe_message, ChallengeRequest, ChallengeStore};
use wallet_auth::rate_limiter::{next_window, RateLimiter, RateWindow};
use wallet_auth::security_events::{EventType, SecurityLog, TokenBlacklist};
use wallet_auth::users::{UserInput, UserInputUpdate, UserStore};

const ADDR: &str = "0xAbCdEf0123456789abcdef0123456789ABCDEF01";
const ADDR_LOWER: &str = "0xabcdef0123456789abcdef0123456789abcdef01";
const T0: i64 = 1_700_000_000;

#[test]
fn challenge_message_has_the_canonical_form() {
    let m = create_siwe_message(ADDR_LOWER, "example.com", "00ff", 0);
    assert_eq!(
        m,
        format!(
            "Sign this message to verify ownership of this address {}: example.com. This is a one-time nonce: 00ff. Timestamp: 1970-01-01 00:00:00",
            ADDR_LOWER
        )
    );
    let later = create_siwe_message(ADDR_LOWER, "d", "n", 1_700_000_000);
    assert!(later.ends_with("Timestamp: 2023-11-14 22:13:20"));
}

#[test]
fn created_challenge_is_stored_unused_for_five_minutes() {
    let mut store = ChallengeStore::new();
    let c = store.create_challenge_at(ADDR, "example.com", T0, 7, &[0xab; 16]).unwrap();
    assert_eq!(c.id, 7);
    assert_eq!(c.ethereum_address, ADDR_LOWER);
    assert_eq!(c.nonce, "ab".repeat(16));
    assert_eq!(c.expires_at, T0 + 300);
    assert_eq!(c.created_at, T0);
    assert!(!c.used);
    assert!(c.challenge_message.contains(ADDR_LOWER));
    assert!(c.challenge_message.contains(": example.com. This is a one-time nonce: abab"));
    assert_eq!(store.len(), 1);
    let r = c.response();
    assert_eq!(r.challenge_id, 7);
    assert_eq!(r.expires_at, T0 + 300);
}

#[test]
fn challenge_creation_rejects_bad_identity_and_duplicate_id() {
    let mut store = ChallengeStore::new();
    assert_eq!(
        store.create_challenge_at("0x12", "d", T0, 1, &[0; 16]).unwrap_err(),
        AppError::AuthError(AuthErrorKind::InvalidIdentity)
    );
    store.create_challenge_at(ADDR, "d", T0, 1, &[0; 16]).unwrap();
    assert!(matches!(
        store.create_challenge_at(ADDR, "d", T0, 1, &[0; 16]),
        Err(AppError::DatabaseError(_))
    ));
    assert_eq!(store.len(), 1);
}

#[test]
fn challenge_expires_even_if_unused() {
    let mut store = ChallengeStore::new();
    store.create_challenge_at(ADDR, "d", T0, 9, &[1; 16]).unwrap();
    assert!(store.find_active_challenge_at(ADDR, 9, T0 + 299).unwrap().is_some());
    assert!(store.find_active_challenge_at(ADDR, 9, T0 + 300).unwrap().is_none());
    assert!(store.find_active_challenge_at(ADDR, 9, T0 + 10_000).unwrap().is_none());
}

#[test]
fn find_active_checks_identity_and_id() {
    let mut store = ChallengeStore::new();
    store.create_challenge_at(ADDR, "d", T0, 9, &[1; 16]).unwrap();
    let other = "0x0000000000000000000000000000000000000001";
    assert!(store.find_active_challenge_at(other, 9, T0).unwrap().is_none());
    assert!(store.find_active_challenge_at(ADDR, 10, T0).unwrap().is_none());
    assert!(store.find_active_challenge_at(ADDR_LOWER, 9, T0).unwrap().is_some());
    assert_eq!(
        store.find_active_challenge_at("nope", 9, T0).unwrap_err(),
        AppError::AuthError(AuthErrorKind::InvalidIdentity)
    );
}

#[test]
fn challenge_is_consumed_once() {
    let mut store = ChallengeStore::new();
    store.create_challenge_at(ADDR, "d", T0, 9, &[1; 16]).unwrap();
    assert!(store.mark_as_used(9));
    assert!(!store.mark_as_used(9));
    assert!(!store.mark_as_used(10));
    assert!(store.find_active_challenge_at(ADDR, 9, T0).unwrap().is_none());
}

#[test]
fn cleanup_deletes_only_expired_challenges() {
    let mut store = ChallengeStore::new();
    store.create_challenge_at(ADDR, "d", T0, 1, &[1; 16]).unwrap();
    store.create_challenge_at(ADDR, "d", T0 + 100, 2, &[1; 16]).unwrap();
    assert_eq!(store.cleanup_expired_at(T0 + 300), 0);
    assert_eq!(store.cleanup_expired_at(T0 + 301), 1);
    assert_eq!(store.len(), 1);
    assert!(store.find_active_challenge_at(ADDR, 2, T0 + 301).unwrap().is_some());
    assert_eq!(store.cleanup_expired_at(T0 + 1000), 1);
    assert_eq!(store.len(), 0);
}

#[test]
fn challenge_request_needs_42_characters() {
    assert!(ChallengeRequest { ethereum_address: ADDR.to_string() }.validate());
    assert!(!ChallengeRequest { ethereum_address: "0x1".to_string() }.validate());
}

#[test]
fn three_attempts_per_minute_then_reset() {
    let mut limiter = RateLimiter::new();
    assert!(limiter.check_rate_limit_at("10.0.0.1", "login", 3, 60, T0).is_ok());
    assert!(limiter.check_rate_limit_at("10.0.0.1", "login", 3, 60, T0 + 10).is_ok());
    assert!(limiter.check_rate_limit_at("10.0.0.1", "login", 3, 60, T0 + 20).is_ok());
    match limiter.check_rate_limit_at("10.0.0.1", "login", 3, 60, T0 + 30) {
        Err(AppError::RateLimited { identifier, count, window_seconds }) => {
            assert_eq!(identifier, "10.0.0.1:login");
            assert_eq!(count, 3);
            assert_eq!(window_seconds, 60);
        }
        other => panic!("unexpected {:?}", other),
    }
    assert_eq!(limiter.window_of("10.0.0.1:login", "login").unwrap().attempt_count, 3);
    assert!(limiter.check_rate_limit_at("10.0.0.1", "login", 3, 60, T0 + 61).is_ok());
    let w = limiter.window_of("10.0.0.1:login", "login").unwrap();
    assert_eq!(w.attempt_count, 1);
    assert_eq!(w.window_start, T0 + 61);
}

#[test]
fn rate_limits_are_per_scope_and_action() {
    let mut limiter = RateLimiter::new();
    for _ in 0..3 {
        assert!(limiter.check_rate_limit_at("a", "login", 3, 60, T0).is_ok());
    }
    assert!(limiter.check_rate_limit_at("a", "login", 3, 60, T0).is_err());
    assert!(limiter.check_rate_limit_at("b", "login", 3, 60, T0).is_ok());
    assert!(limiter.check_rate_limit_at("a", "challenge", 3, 60, T0).is_ok());
}

#[test]
fn stale_rate_entries_are_deleted() {
    let mut limiter = RateLimiter::new();
    assert!(limiter.check_rate_limit_at("a", "x", 3, 60, T0).is_ok());
    assert!(limiter.check_rate_limit_at("b", "x", 3, 60, T0 + 86_400).is_ok());
    assert!(limiter.window_of("a:x", "x").is_some());
    limiter.cleanup_stale_at(T0 + 86_401);
    assert!(limiter.window_of("a:x", "x").is_none());
    assert!(limiter.window_of("b:x", "x").is_some());
}

#[test]
fn window_steps() {
    assert_eq!(
        next_window(None, T0, 3, 60),
        Ok(RateWindow { attempt_count: 1, window_start: T0, last_attempt: T0 })
    );
    let w = RateWindow { attempt_count: 2, window_start: T0, last_attempt: T0 };
    assert_eq!(
        next_window(Some(w), T0 + 60, 3, 60),
        Ok(RateWindow { attempt_count: 3, window_start: T0, last_attempt: T0 + 60 })
    );
    assert_eq!(
        next_window(Some(w), T0 + 61, 3, 60),
        Ok(RateWindow { attempt_count: 1, window_start: T0 + 61, last_attempt: T0 + 61 })
    );
    assert_eq!(next_window(Some(w), T0 + 1, 2, 60), Err(2));
    assert_eq!(next_window(None, T0, 0, 60), Err(0));
}

#[test]
fn users_are_created_once_per_identity() {
    let mut users = UserStore::new();
    let input = UserInput { ethereum_address: ADDR.to_string(), metadata: String::new() };
    let u = users.create(&input, 5, T0).unwrap();
    assert_eq!(u.ethereum_address, ADDR_LOWER);
    assert!(u.is_active && !u.is_admin && !u.is_verified);
    assert_eq!(u.metadata.as_deref(), Some("{}"));
    assert!(matches!(users.create(&input, 6, T0), Err(AppError::DatabaseError(_))));
    let found = users.get_user_by_eth_address(ADDR_LOWER).unwrap().unwrap();
    assert_eq!(found.id, 5);
    assert!(users.get_user_by_id(5).is_some());
    assert!(users.get_user_by_id(6).is_none());
    assert!(users
        .get_user_by_eth_address("0x0000000000000000000000000000000000000001")
        .unwrap()
        .is_none());
}

#[test]
fn user_update_sets_flags_and_metadata() {
    let mut users = UserStore::new();
    let input = UserInput { ethereum_address: ADDR.to_string(), metadata: "{\"a\":1}".to_string() };
    assert_eq!(users.create(&input, 5, T0).unwrap().metadata.as_deref(), Some("{\"a\":1}"));
    let upd = UserInputUpdate {
        email: "a@b.c".to_string(),
        username: "a".to_string(),
        is_active: false,
        is_admin: true,
        metadata: None,
    };
    let u = users.update_user(5, &upd, T0 + 5).unwrap();
    assert!(!u.is_active && u.is_admin);
    assert_eq!(u.updated_at, T0 + 5);
    assert_eq!(u.created_at, T0);
    assert_eq!(u.metadata.as_deref(), Some("{}"));
    assert!(users.get_user_by_id(5).unwrap().is_admin);
    assert!(matches!(users.update_user(9, &upd, T0), Err(AppError::DatabaseError(_))));
}

#[test]
fn audit_log_is_append_only_and_queryable() {
    let mut log = SecurityLog::new();
    log.record_event(EventType::ChallengeCreated, None, "1.2.3.4", "ua", "{}", T0);
    log.record_event(EventType::Login, Some(5), "1.2.3.4", "ua", "{}", T0 + 1);
    log.record_event(EventType::FailedLogin, None, "1.2.3.4", "ua", "{}", T0 + 2);
    log.record_event(EventType::Login, Some(6), "1.2.3.4", "ua", "{}", T0 + 3);
    let all = log.get_all_events();
    assert_eq!(all.len(), 4);
    assert_eq!(all[2].id, 2);
    assert_eq!(log.get_events_for_user(5).len(), 1);
    let logins = log.get_events_by_type(EventType::Login);
    assert_eq!(logins.len(), 2);
    assert_eq!(logins[1].user_id, Some(6));
}

#[test]
fn blacklist_revokes_token_ids() {
    let mut bl = TokenBlacklist::new();
    assert!(!bl.is_blacklisted("abc"));
    bl.add_token_to_blacklist(5, "abc", T0, T0 + 900, "logout", T0 + 10);
    assert!(bl.is_blacklisted("abc"));
    assert!(!bl.is_blacklisted("abd"));
}

#[test]
fn clock_rate_limit_refuses_the_fourth_attempt() {
    let mut limiter = RateLimiter::new();
    for _ in 0..3 {
        assert!(limiter.check_rate_limit("c", "x", 3, 60).is_ok());
    }
    match limiter.check_rate_limit("c", "x", 3, 60) {
        Err(AppError::RateLimited { identifier, count, window_seconds }) => {
            assert_eq!((identifier.as_str(), count, window_seconds), ("c:x", 3, 60));
        }
        other => panic!("unexpected {:?}", other),
    }
}

#[test]
fn clock_lookup_finds_a_fresh_challenge() {
    let mut store = ChallengeStore::new();
    let c = store.create_challenge_for_addr(ADDR, "d").unwrap();
    assert!(store.find_active_challenge(ADDR, c.id).unwrap().is_some());
    assert!(store.find_active_challenge(ADDR, c.id.wrapping_add(1)).unwrap().is_none());
    assert!(store.mark_as_used(c.id));
    assert!(store.find_active_challenge(ADDR, c.id).unwrap().is_none());
}
