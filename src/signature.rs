use sha3::Digest;
use vstd::prelude::*;
use vstd::slice::slice_subrange;
use vstd::string::*;
use vstd::utf8::encode_utf8;

use crate::address::{
    fold_case, fold_hex_case, is_hex_char, is_identity_text, lemma_trim_canonical,
    normalize_ethereum_address, normalize_spec,
};
use crate::app_error::{AppError, AuthErrorKind};
use crate::codec::{
    decimal_spec, decimal_string, decode_hex, encode_hex, hex_alphabet, hex_decode_spec,
    hex_encode_spec,
};

verus! {

/// What a personal-sign message starts with, before the message's length in bytes.
pub const PERSONAL_SIGN_PREFIX: &'static str = "\x19Ethereum Signed Message:\n";

/// Bytes in a recoverable signature: a 64-byte compact signature and a recovery byte.
pub const SIGNATURE_LEN: usize = 65;

/// The Keccak-256 digest of `data`.
pub uninterp spec fn keccak256(data: Seq<u8>) -> Seq<u8>;

/// The uncompressed public key that secp256k1 recovers from a 32-byte digest, a 64-byte
/// compact signature and a recovery id, if any.
pub uninterp spec fn ecdsa_recover(digest: Seq<u8>, compact: Seq<u8>, recovery_id: u8) -> Option<
    Seq<u8>,
>;

/// Relies on `sha3::Keccak256::digest`: a 32-byte digest that depends on the input alone.
#[verifier::external_body]
fn keccak_digest(data: &[u8]) -> (r: Vec<u8>)
    ensures
        r@ == keccak256(data@),
        r@.len() == 32,
{
    sha3::Keccak256::digest(data).to_vec()
}

/// Relies on secp256k1's `RecoverableSignature::from_compact` and `recover_ecdsa`, which fail
/// on a signature that does not parse or recovers no key, and on
/// `PublicKey::serialize_uncompressed`, which gives 65 bytes.
#[verifier::external_body]
fn recover_uncompressed_key(digest: &[u8], compact: &[u8], recovery_id: u8) -> (r: Option<Vec<u8>>)
    requires
        digest@.len() == 32,
        compact@.len() == 64,
        recovery_id < 4,
    ensures
        match ecdsa_recover(digest@, compact@, recovery_id) {
            Some(k) => r matches Some(v) && v@ == k,
            None => r is None,
        },
        r matches Some(v) ==> v@.len() == 65,
{
    let digest: [u8; 32] = digest.try_into().ok()?;
    let id = secp256k1::ecdsa::RecoveryId::from_u8_masked(recovery_id);
    let sig = secp256k1::ecdsa::RecoverableSignature::from_compact(compact, id).ok()?;
    let key = sig.recover_ecdsa(secp256k1::Message::from_digest(digest)).ok()?;
    Some(key.serialize_uncompressed().to_vec())
}

/// The text that is hashed for a personal-sign signature over `message`.
pub open spec fn personal_sign_text(message: Seq<char>) -> Seq<char> {
    PERSONAL_SIGN_PREFIX@ + decimal_spec(encode_utf8(message).len()) + message
}

/// The digest that a personal-sign signature over `message` signs.
pub open spec fn message_digest(message: Seq<char>) -> Seq<u8> {
    keccak256(encode_utf8(personal_sign_text(message)))
}

/// Recovery bytes 27 and 28 stand for ids 0 and 1; 0 and 1 stand for themselves.
pub open spec fn recovery_id_spec(v: u8) -> Option<u8> {
    if v == 27 || v == 28 {
        Some((v - 27) as u8)
    } else if v == 0 || v == 1 {
        Some(v)
    } else {
        None
    }
}

/// The identity of a public key: `0x` and the hex of the last 20 bytes of the Keccak-256
/// digest of the key without its first (format) byte.
pub open spec fn address_from_key(key: Seq<u8>) -> Seq<char> {
    seq!['0', 'x'] + hex_encode_spec(keccak256(key.drop_first()).subrange(12, 32))
}

/// The identity that signed `digest`, if the signature and recovery byte recover one.
pub open spec fn recover_address_spec(digest: Seq<u8>, compact: Seq<u8>, v: u8) -> Option<
    Seq<char>,
> {
    if digest.len() != 32 || compact.len() != 64 {
        None
    } else {
        match recovery_id_spec(v) {
            None => None,
            Some(id) => match ecdsa_recover(digest, compact, id) {
                None => None,
                Some(key) => Some(address_from_key(key)),
            },
        }
    }
}

/// The bytes of a signature text: `0x` followed by an even number of hex digits.
pub open spec fn signature_bytes_spec(signature: Seq<char>) -> Option<Seq<u8>> {
    if signature.len() >= 2 && signature[0] == '0' && signature[1] == 'x' {
        hex_decode_spec(signature.subrange(2, signature.len() as int))
    } else {
        None
    }
}

/// What verifying `signature` over `message` against `expected` gives.
pub open spec fn verify_spec(signature: Seq<char>, message: Seq<char>, expected: Seq<char>) -> Result<
    bool,
    AppError,
> {
    match signature_bytes_spec(signature) {
        None => Err(AppError::AuthError(AuthErrorKind::InvalidSignature)),
        Some(b) => if b.len() != SIGNATURE_LEN {
            Err(AppError::AuthError(AuthErrorKind::InvalidSignature))
        } else {
            match recover_address_spec(message_digest(message), b.subrange(0, 64), b[64]) {
                None => Err(AppError::AuthError(AuthErrorKind::InvalidSignature)),
                Some(a) => match normalize_spec(expected) {
                    None => Err(AppError::AuthError(AuthErrorKind::InvalidIdentity)),
                    Some(e) => Ok(a == e),
                },
            }
        },
    }
}

proof fn lemma_hex_alphabet(k: int)
    requires
        0 <= k < 16,
    ensures
        is_hex_char(hex_alphabet()[k]),
        fold_hex_case(hex_alphabet()[k]) == hex_alphabet()[k],
{
    assert(hex_alphabet()[0] == '0');
    assert(hex_alphabet()[1] == '1');
    assert(hex_alphabet()[2] == '2');
    assert(hex_alphabet()[3] == '3');
    assert(hex_alphabet()[4] == '4');
    assert(hex_alphabet()[5] == '5');
    assert(hex_alphabet()[6] == '6');
    assert(hex_alphabet()[7] == '7');
    assert(hex_alphabet()[8] == '8');
    assert(hex_alphabet()[9] == '9');
    assert(hex_alphabet()[10] == 'a');
    assert(hex_alphabet()[11] == 'b');
    assert(hex_alphabet()[12] == 'c');
    assert(hex_alphabet()[13] == 'd');
    assert(hex_alphabet()[14] == 'e');
    assert(hex_alphabet()[15] == 'f');
}

/// A derived identity is already canonical, so normalizing it keeps it.
pub proof fn lemma_address_from_key_canonical(key: Seq<u8>)
    requires
        keccak256(key.drop_first()).len() == 32,
    ensures
        normalize_spec(address_from_key(key)) == Some(address_from_key(key)),
{
    let b = keccak256(key.drop_first()).subrange(12, 32);
    let a = address_from_key(key);
    let h = hex_encode_spec(b);
    assert forall|i: int| 0 <= i < h.len() implies #[trigger] is_hex_char(h[i]) && fold_hex_case(
        h[i],
    ) == h[i] by {
        if i % 2 == 0 {
            lemma_hex_alphabet((b[i / 2] / 16) as int);
        } else {
            lemma_hex_alphabet((b[i / 2] % 16) as int);
        }
    }
    assert forall|i: int| 2 <= i < a.len() implies #[trigger] is_hex_char(a[i]) by {
        assert(a[i] == h[i - 2]);
    }
    assert(is_identity_text(a));
    assert(fold_case(a) =~= a) by {
        assert forall|i: int| 0 <= i < a.len() implies #[trigger] fold_case(a)[i] == a[i] by {
            if i >= 2 {
                assert(a[i] == h[i - 2]);
            }
        }
    }
    lemma_trim_canonical(a);
}

/// Hashes `message` the personal-sign way: prefix, decimal byte length, message.
pub fn hash_personal_message(message: &str) -> (r: Vec<u8>)
    ensures
        r@ == message_digest(message@),
        r@.len() == 32,
{
    let mut text = String::from_str(PERSONAL_SIGN_PREFIX);
    let len = decimal_string(message.as_bytes().len() as u128);
    text.append(len.as_str());
    text.append(message);
    assert(text@ == personal_sign_text(message@));
    keccak_digest(text.as_str().as_bytes())
}

/// Maps the recovery byte of a signature to a recovery id.
pub fn normalize_recovery_id(v: u8) -> (r: Option<u8>)
    ensures
        r == recovery_id_spec(v),
{
    match v {
        27 | 28 => Some(v - 27),
        0 | 1 => Some(v),
        _ => None,
    }
}

/// Recovers the identity that produced `signature` (64 compact bytes) over `message_hash`.
pub fn recover_address_from_signature(message_hash: &[u8], signature: &[u8], recovery_id: u8) -> (r:
    Result<String, AppError>)
    ensures
        match recover_address_spec(message_hash@, signature@, recovery_id) {
            Some(a) => r matches Ok(s) && s@ == a,
            None => r == Err::<String, AppError>(
                AppError::AuthError(AuthErrorKind::InvalidSignature),
            ),
        },
        r matches Ok(s) ==> normalize_spec(s@) == Some(s@),
{
    let invalid = AppError::AuthError(AuthErrorKind::InvalidSignature);
    let id = match normalize_recovery_id(recovery_id) {
        Some(id) => id,
        None => {
            return Err(invalid);
        },
    };
    if message_hash.len() != 32 || signature.len() != 64 {
        return Err(invalid);
    }
    let key = match recover_uncompressed_key(message_hash, signature, id) {
        Some(k) => k,
        None => {
            return Err(invalid);
        },
    };
    let digest = keccak_digest(slice_subrange(key.as_slice(), 1, key.len()));
    assert(key@.subrange(1, key@.len() as int) =~= key@.drop_first());
    let tail = slice_subrange(digest.as_slice(), 12, 32);
    let hex = encode_hex(tail);
    let mut address = String::from_str("0x");
    address.append(hex.as_str());
    proof {
        reveal_strlit("0x");
    }
    assert(address@ =~= address_from_key(key@));
    proof {
        lemma_address_from_key_canonical(key@);
    }
    Ok(address)
}

/// Checks that `signature` (`0x` and 130 hex digits) is a personal-sign signature over
/// `message` by the holder of `expected_address`.
pub fn verify_signature(signature: &str, message: &str, expected_address: &str) -> (r: Result<
    bool,
    AppError,
>)
    ensures
        r == verify_spec(signature@, message@, expected_address@),
        message_digest(message@).len() == 32,
{
    let message_hash = hash_personal_message(message);
    let invalid = AppError::AuthError(AuthErrorKind::InvalidSignature);
    let n = signature.unicode_len();
    if n < 2 || signature.get_char(0) != '0' || signature.get_char(1) != 'x' {
        return Err(invalid);
    }
    let bytes = match decode_hex(signature.substring_char(2, n)) {
        Some(b) => b,
        None => {
            return Err(invalid);
        },
    };
    if bytes.len() != SIGNATURE_LEN {
        return Err(invalid);
    }
    let recovery_id = bytes[64];
    let compact = slice_subrange(bytes.as_slice(), 0, 64);
    let recovered = match recover_address_from_signature(message_hash.as_slice(), compact, recovery_id) {
        Ok(a) => a,
        Err(e) => {
            return Err(e);
        },
    };
    let normalized_recovered = match normalize_ethereum_address(recovered.as_str()) {
        Ok(a) => a,
        Err(e) => {
            return Err(e);
        },
    };
    let normalized_expected = match normalize_ethereum_address(expected_address) {
        Ok(a) => a,
        Err(e) => {
            return Err(e);
        },
    };
    Ok(normalized_recovered == normalized_expected)
}

/// A signature verifies exactly when it is well formed and the identity that it recovers over
/// the message is the expected one: a signature that recovers the expected identity verifies,
/// and any other outcome (another identity, a failed recovery, a malformed text) is `false` or
/// an error.
pub proof fn lemma_verify_iff_recovers_expected(
    signature: Seq<char>,
    message: Seq<char>,
    expected: Seq<char>,
)
    ensures
        verify_spec(signature, message, expected) == Ok::<bool, AppError>(true) <==> (
        signature_bytes_spec(signature) matches Some(b) && b.len() == SIGNATURE_LEN
            && normalize_spec(expected) is Some && recover_address_spec(
            message_digest(message),
            b.subrange(0, 64),
            b[64],
        ) == normalize_spec(expected)),
{
}

} // verus!
