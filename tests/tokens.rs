use wallet_auth::app_error::{AppError, AuthErrorKind};
use wallet_auth::jwt::{
    check_decoded, claims_from_fields, claims_to_json, generate_jwt_token, generate_token_pair,
    issue_claims_at, issue_pair_at, validate_access_token, validate_refresh_token, validate_token,
    JwtClaims,
};

const ADDR: &str = "0xAbCdEf0123456789abcdef0123456789ABCDEF01";
const ADDR_LOWER: &str = "0xabcdef0123456789abcdef0123456789abcdef01";
const SECRET: &str = "test-secret";

fn now() -> i64 {
    std::time::SystemTime::now().duration_since(std::time::UNIX_EPOCH).unwrap().as_secs() as i64
}

fn sample() -> JwtClaims {
    JwtClaims {
        sub: 42,
        iat: 1000,
        exp: 1900,
        jti: "77".to_string(),
        token_type: "access".to_string(),
        eth_address: ADDR_LOWER.to_string(),
        is_admin: false,
    }
}

fn fields(pairs: &[(&str, &str)]) -> Vec<(String, String)> {
    pairs.iter().map(|(k, v)| (k.to_string(), v.to_string())).collect()
}

#[test]
fn claims_are_written_as_json() {
    assert_eq!(
        claims_to_json(&sample()),
        format!(
            "{{\"sub\":\"42\",\"iat\":1000,\"exp\":1900,\"jti\":\"77\",\"token_type\":\"access\",\"eth_address\":\"{}\",\"is_admin\":false}}",
            ADDR_LOWER
        )
    );
}

#[test]
fn claims_are_read_back_from_members() {
    let f = fields(&[
        ("eth_address", "\"0xabc\""),
        ("exp", "1900"),
        ("iat", "1000"),
        ("is_admin", "true"),
        ("jti", "\"77\""),
        ("sub", "\"42\""),
        ("token_type", "\"refresh\""),
    ]);
    let c = claims_from_fields(&f).unwrap();
    assert_eq!(c.sub, 42);
    assert_eq!(c.iat, 1000);
    assert_eq!(c.exp, 1900);
    assert_eq!(c.jti, "77");
    assert_eq!(c.token_type, "refresh");
    assert_eq!(c.eth_address, "0xabc");
    assert!(c.is_admin);
}

#[test]
fn malformed_claims_are_refused() {
    let good = [
        ("eth_address", "\"0xabc\""),
        ("exp", "1900"),
        ("iat", "1000"),
        ("is_admin", "true"),
        ("jti", "\"77\""),
        ("sub", "\"42\""),
        ("token_type", "\"access\""),
    ];
    for i in 0..good.len() {
        let mut missing = good.to_vec();
        missing.remove(i);
        assert!(claims_from_fields(&fields(&missing)).is_none());
    }
    let mut bad = good.to_vec();
    bad[1] = ("exp", "\"1900\"");
    assert!(claims_from_fields(&fields(&bad)).is_none());
    bad[1] = ("exp", "01900");
    assert!(claims_from_fields(&fields(&bad)).is_none());
    let mut bad = good.to_vec();
    bad[0] = ("eth_address", "\"0x\\\"abc\"");
    assert!(claims_from_fields(&fields(&bad)).is_none());
    let mut bad = good.to_vec();
    bad[3] = ("is_admin", "1");
    assert!(claims_from_fields(&fields(&bad)).is_none());
}

#[test]
fn decoded_token_type_is_checked() {
    let f = fields(&[
        ("eth_address", "\"0xabc\""),
        ("exp", "1900"),
        ("iat", "1000"),
        ("is_admin", "false"),
        ("jti", "\"77\""),
        ("sub", "\"42\""),
        ("token_type", "\"access\""),
    ]);
    assert_eq!(check_decoded(Ok(f.clone()), "access").unwrap().sub, 42);
    assert_eq!(
        check_decoded(Ok(f), "refresh").unwrap_err(),
        AppError::AuthError(AuthErrorKind::WrongTokenType)
    );
    assert_eq!(
        check_decoded(Err(AuthErrorKind::TokenExpired), "access").unwrap_err(),
        AppError::AuthError(AuthErrorKind::TokenExpired)
    );
    assert_eq!(
        check_decoded(Ok(Vec::new()), "access").unwrap_err(),
        AppError::AuthError(AuthErrorKind::TokenInvalid)
    );
}

#[test]
fn issued_claims_have_distinct_types_and_lifetimes() {
    let (a, r) = issue_claims_at(9, ADDR, true, 5000, 1, 2).unwrap();
    assert_eq!((a.sub, a.iat, a.exp), (9, 5000, 5900));
    assert_eq!((r.sub, r.iat, r.exp), (9, 5000, 5000 + 30 * 24 * 3600));
    assert_eq!(a.token_type, "access");
    assert_eq!(r.token_type, "refresh");
    assert_eq!(a.eth_address, ADDR_LOWER);
    assert_eq!((a.jti.as_str(), r.jti.as_str()), ("1", "2"));
    assert!(a.is_admin && r.is_admin);
    assert_eq!(
        issue_claims_at(9, "bad", true, 5000, 1, 2).unwrap_err(),
        AppError::AuthError(AuthErrorKind::InvalidIdentity)
    );
}

#[test]
fn token_round_trip() {
    let t = now();
    let (access, refresh) = issue_pair_at(11, ADDR, false, SECRET, t, 100, 200).unwrap();
    assert_eq!(access.split('.').count(), 3);
    let c = validate_access_token(&access, SECRET).unwrap();
    assert_eq!(c.sub, 11);
    assert_eq!(c.iat, t);
    assert_eq!(c.exp, t + 900);
    assert_eq!(c.jti, "100");
    assert_eq!(c.token_type, "access");
    assert_eq!(c.eth_address, ADDR_LOWER);
    assert!(!c.is_admin);
    let r = validate_refresh_token(&refresh, SECRET).unwrap();
    assert_eq!(r.jti, "200");
    assert_eq!(r.exp, t + 30 * 24 * 3600);
}

#[test]
fn wrong_type_wrong_secret_and_expiry_are_refused() {
    let t = now();
    let (access, refresh) = issue_pair_at(11, ADDR, false, SECRET, t, 100, 200).unwrap();
    assert_eq!(
        validate_refresh_token(&access, SECRET).unwrap_err(),
        AppError::AuthError(AuthErrorKind::WrongTokenType)
    );
    assert_eq!(
        validate_access_token(&refresh, SECRET).unwrap_err(),
        AppError::AuthError(AuthErrorKind::WrongTokenType)
    );
    assert_eq!(
        validate_access_token(&access, "other-secret").unwrap_err(),
        AppError::AuthError(AuthErrorKind::TokenInvalid)
    );
    assert_eq!(
        validate_token("not.a.token", SECRET, "access").unwrap_err(),
        AppError::AuthError(AuthErrorKind::TokenInvalid)
    );
    let (old_access, _) = issue_pair_at(11, ADDR, false, SECRET, 1000, 1, 2).unwrap();
    assert_eq!(
        validate_access_token(&old_access, SECRET).unwrap_err(),
        AppError::AuthError(AuthErrorKind::TokenExpired)
    );
}

#[test]
fn signing_is_deterministic_and_refuses_unencodable_claims() {
    let a = generate_jwt_token(&sample(), SECRET).unwrap();
    let b = generate_jwt_token(&sample(), SECRET).unwrap();
    assert_eq!(a, b);
    assert_ne!(a, generate_jwt_token(&sample(), "x").unwrap());
    let mut bad = sample();
    bad.jti = "a\"b".to_string();
    assert!(matches!(generate_jwt_token(&bad, SECRET), Err(AppError::ServerError(_))));
    let mut neg = sample();
    neg.iat = -1;
    assert!(matches!(generate_jwt_token(&neg, SECRET), Err(AppError::ServerError(_))));
}

#[test]
fn token_pair_now_validates() {
    let (access, refresh) = generate_token_pair(3, ADDR, true, SECRET).unwrap();
    let a = validate_access_token(&access, SECRET).unwrap();
    let r = validate_refresh_token(&refresh, SECRET).unwrap();
    assert_eq!(a.exp - a.iat, 900);
    assert_ne!(a.jti, r.jti);
    assert!(a.is_admin);
    assert_eq!(
        generate_token_pair(3, "0x", true, SECRET).unwrap_err(),
        AppError::AuthError(AuthErrorKind::InvalidIdentity)
    );
}
