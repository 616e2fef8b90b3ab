use secp256k1::ecdsa::RecoverableSignature;
use secp256k1::{Message, PublicKey, SecretKey};
use sha3::{Digest, Keccak256};
use wallet_auth::app_error::{AppError, AuthErrorKind};
use wallet_auth::signature::{
    hash_personal_message, normalize_recovery_id, recover_address_from_signature, verify_signature,
};

/// The well-known address of the secret key 0x00..01.
const KEY_ONE_ADDRESS: &str = "0x7e5f4552091a69125d5dfcb7b8c2659029395bdf";

fn secret(byte: u8) -> SecretKey {
    let mut b = [0u8; 32];
    b[31] = byte;
    SecretKey::from_byte_array(b).unwrap()
}

fn address_of(sk: &SecretKey) -> String {
    let pk = PublicKey::from_secret_key(sk).serialize_uncompressed();
    let h = Keccak256::digest(&pk[1..]);
    format!("0x{}", hex::encode(&h[12..]))
}

fn sign(sk: &SecretKey, message: &str, v_offset: u8) -> String {
    let digest: [u8; 32] = hash_personal_message(message).try_into().unwrap();
    let sig = RecoverableSignature::sign_ecdsa_recoverable(Message::from_digest(digest), sk);
    let (id, compact) = sig.serialize_compact();
    let mut bytes = compact.to_vec();
    bytes.push(u8::from(id) + v_offset);
    format!("0x{}", hex::encode(bytes))
}

#[test]
fn key_one_has_its_known_address() {
    assert_eq!(address_of(&secret(1)), KEY_ONE_ADDRESS);
}

#[test]
fn personal_message_hash_uses_the_prefix() {
    let mut input = b"\x19Ethereum Signed Message:\n5".to_vec();
    input.extend_from_slice(b"hello");
    let expected = Keccak256::digest(&input).to_vec();
    assert_eq!(hash_personal_message("hello"), expected);
    let mut empty = b"\x19Ethereum Signed Message:\n0".to_vec();
    empty.extend_from_slice(b"");
    assert_eq!(hash_personal_message(""), Keccak256::digest(&empty).to_vec());
    let multi = "é";
    let mut two = b"\x19Ethereum Signed Message:\n2".to_vec();
    two.extend_from_slice(multi.as_bytes());
    assert_eq!(hash_personal_message(multi), Keccak256::digest(&two).to_vec());
}

#[test]
fn valid_signature_verifies() {
    let sk = secret(1);
    let msg = "Sign this message to verify ownership of this address 0xabc";
    let sig = sign(&sk, msg, 27);
    assert_eq!(verify_signature(&sig, msg, KEY_ONE_ADDRESS), Ok(true));
    let upper = format!("0x{}", KEY_ONE_ADDRESS[2..].to_uppercase());
    assert_eq!(verify_signature(&sig, msg, &upper), Ok(true));
    let raw_v = sign(&sk, msg, 0);
    assert_eq!(verify_signature(&raw_v, msg, KEY_ONE_ADDRESS), Ok(true));
}

#[test]
fn signature_of_another_key_or_message_is_false() {
    let msg = "one-time message";
    let sig = sign(&secret(2), msg, 27);
    assert_eq!(verify_signature(&sig, msg, KEY_ONE_ADDRESS), Ok(false));
    let sig1 = sign(&secret(1), msg, 27);
    match verify_signature(&sig1, "another message", KEY_ONE_ADDRESS) {
        Ok(false) | Err(AppError::AuthError(AuthErrorKind::InvalidSignature)) => {}
        other => panic!("unexpected {:?}", other),
    }
}

#[test]
fn single_bit_mutations_never_verify() {
    let msg = "bit flip message";
    let sig = sign(&secret(3), msg, 27);
    let expected = address_of(&secret(3));
    assert_eq!(verify_signature(&sig, msg, &expected), Ok(true));
    let bytes = hex::decode(&sig[2..]).unwrap();
    for bit in (0..64 * 8).step_by(37) {
        let mut m = bytes.clone();
        m[bit / 8] ^= 1 << (bit % 8);
        let mutated = format!("0x{}", hex::encode(&m));
        match verify_signature(&mutated, msg, &expected) {
            Ok(false) | Err(AppError::AuthError(AuthErrorKind::InvalidSignature)) => {}
            other => panic!("bit {} gave {:?}", bit, other),
        }
    }
}

#[test]
fn malformed_signatures_are_invalid() {
    let invalid = Err(AppError::AuthError(AuthErrorKind::InvalidSignature));
    let msg = "m";
    let good = sign(&secret(1), msg, 27);
    assert_eq!(verify_signature(&good[..good.len() - 2], msg, KEY_ONE_ADDRESS), invalid);
    assert_eq!(verify_signature(&format!("{}00", good), msg, KEY_ONE_ADDRESS), invalid);
    assert_eq!(verify_signature(&good[2..], msg, KEY_ONE_ADDRESS), invalid);
    assert_eq!(verify_signature(&format!("{}zz", &good[..good.len() - 2]), msg, KEY_ONE_ADDRESS), invalid);
    assert_eq!(verify_signature("", msg, KEY_ONE_ADDRESS), invalid);
    let mut bytes = hex::decode(&good[2..]).unwrap();
    bytes[64] = 29;
    assert_eq!(verify_signature(&format!("0x{}", hex::encode(&bytes)), msg, KEY_ONE_ADDRESS), invalid);
}

#[test]
fn invalid_expected_identity_is_reported() {
    let msg = "m";
    let good = sign(&secret(1), msg, 27);
    assert_eq!(
        verify_signature(&good, msg, "0x123"),
        Err(AppError::AuthError(AuthErrorKind::InvalidIdentity))
    );
}

#[test]
fn recovery_ids_are_normalized() {
    assert_eq!(normalize_recovery_id(27), Some(0));
    assert_eq!(normalize_recovery_id(28), Some(1));
    assert_eq!(normalize_recovery_id(0), Some(0));
    assert_eq!(normalize_recovery_id(1), Some(1));
    assert_eq!(normalize_recovery_id(2), None);
    assert_eq!(normalize_recovery_id(29), None);
}

#[test]
fn recovery_gives_the_lowercase_address() {
    let msg = "recover me";
    let sig = sign(&secret(1), msg, 27);
    let bytes = hex::decode(&sig[2..]).unwrap();
    let digest = hash_personal_message(msg);
    assert_eq!(
        recover_address_from_signature(&digest, &bytes[..64], bytes[64]).unwrap(),
        KEY_ONE_ADDRESS
    );
    assert_eq!(
        recover_address_from_signature(&digest[..31], &bytes[..64], bytes[64]),
        Err(AppError::AuthError(AuthErrorKind::InvalidSignature))
    );
    assert_eq!(
        recover_address_from_signature(&digest, &bytes[..64], 5),
        Err(AppError::AuthError(AuthErrorKind::InvalidSignature))
    );
    assert_eq!(
        recover_address_from_signature(&digest, &[0u8; 64], 0),
        Err(AppError::AuthError(AuthErrorKind::InvalidSignature))
    );
}
