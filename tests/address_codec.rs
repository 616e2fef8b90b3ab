use wallet_auth::address::{is_identity, normalize_ethereum_address};
use wallet_auth::app_error::{AppError, AuthErrorKind};
use wallet_auth::codec::{decimal_string, parse_decimal};

const LOWER: &str = "0x7e5f4552091a69125d5dfcb7b8c2659029395bdf";
const MIXED: &str = "0x7E5F4552091A69125d5DfCb7b8C2659029395Bdf";

#[test]
fn normalize_lowercases_and_trims() {
    assert_eq!(normalize_ethereum_address(MIXED).unwrap(), LOWER);
    let padded = format!("  {}\t\n", MIXED);
    assert_eq!(normalize_ethereum_address(&padded).unwrap(), LOWER);
}

#[test]
fn normalize_is_idempotent() {
    let once = normalize_ethereum_address(MIXED).unwrap();
    let twice = normalize_ethereum_address(&once).unwrap();
    assert_eq!(once, twice);
}

#[test]
fn normalize_is_case_insensitive() {
    let upper_hex = format!("0x{}", LOWER[2..].to_uppercase());
    assert_eq!(
        normalize_ethereum_address(&upper_hex).unwrap(),
        normalize_ethereum_address(LOWER).unwrap()
    );
}

#[test]
fn normalize_rejects_malformed_identities() {
    let invalid = AppError::AuthError(AuthErrorKind::InvalidIdentity);
    assert_eq!(normalize_ethereum_address("").unwrap_err(), invalid);
    assert_eq!(normalize_ethereum_address(&LOWER[..41]).unwrap_err(), invalid);
    assert_eq!(normalize_ethereum_address(&format!("{}0", LOWER)).unwrap_err(), invalid);
    assert_eq!(normalize_ethereum_address(&format!("0X{}", &LOWER[2..])).unwrap_err(), invalid);
    assert_eq!(normalize_ethereum_address(&format!("1x{}", &LOWER[2..])).unwrap_err(), invalid);
    assert_eq!(normalize_ethereum_address(&format!("0x{}g", &LOWER[2..41])).unwrap_err(), invalid);
    assert_eq!(normalize_ethereum_address(&format!("0x {}", &LOWER[3..])).unwrap_err(), invalid);
}

#[test]
fn identity_check_counts_characters() {
    assert!(is_identity(LOWER));
    assert!(is_identity(MIXED));
    assert!(!is_identity(&format!("0x{}é", &LOWER[2..41])));
}

#[test]
fn decimal_writing_and_reading() {
    assert_eq!(decimal_string(0), "0");
    assert_eq!(decimal_string(7), "7");
    assert_eq!(decimal_string(1700000000), "1700000000");
    assert_eq!(decimal_string(u128::MAX), "340282366920938463463374607431768211455");
    assert_eq!(parse_decimal("1700000000", u128::MAX), Some(1700000000));
    assert_eq!(parse_decimal("0", 10), Some(0));
    assert_eq!(parse_decimal("007", 10), None);
    assert_eq!(parse_decimal("", 10), None);
    assert_eq!(parse_decimal("12a", 1000), None);
    assert_eq!(parse_decimal("11", 10), None);
    assert_eq!(parse_decimal("340282366920938463463374607431768211456", u128::MAX), None);
}

#[test]
fn normalize_ignores_ascii_case_after_the_prefix() {
    let a = format!(" {} ", LOWER);
    let b = format!("0x{}", LOWER[2..].to_ascii_uppercase());
    assert_eq!(normalize_ethereum_address(&a), normalize_ethereum_address(&b));
    let g_lower = format!("0x{}g", &LOWER[2..41]);
    let g_upper = format!("0x{}G", &LOWER[2..41]);
    assert!(normalize_ethereum_address(&g_lower).is_err());
    assert!(normalize_ethereum_address(&g_upper).is_err());
}
