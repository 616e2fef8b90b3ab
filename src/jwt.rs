use vstd::prelude::*;
use vstd::string::*;

use crate::address::{normalize_ethereum_address, normalize_spec};
use crate::app_error::{AppError, AuthErrorKind};
use crate::clock::{current_time, valid_time, MAX_TIMESTAMP};
use crate::codec::{decimal_spec, decimal_string, lemma_decimal_round_trip, parse_decimal};
use crate::entropy::new_uuid;

verus! {

/// A claims object as its members' names and JSON texts.
type ClaimMembers = std::collections::BTreeMap<String, Box<serde_json::value::RawValue>>;

/// Lifetime of an access token, in seconds.
pub const ACCESS_TOKEN_SECS: i64 = 900;

/// Lifetime of a refresh token, in seconds.
pub const REFRESH_TOKEN_SECS: i64 = 2592000;

pub const ACCESS: &'static str = "access";

pub const REFRESH: &'static str = "refresh";

pub const KEY_SUB: &'static str = "sub";

pub const KEY_IAT: &'static str = "iat";

pub const KEY_EXP: &'static str = "exp";

pub const KEY_JTI: &'static str = "jti";

pub const KEY_TYPE: &'static str = "token_type";

pub const KEY_ADDRESS: &'static str = "eth_address";

pub const KEY_ADMIN: &'static str = "is_admin";

pub const JSON_TRUE: &'static str = "true";

pub const JSON_FALSE: &'static str = "false";

pub const OPEN_SUB: &'static str = "{\"sub\":\"";

pub const THEN_IAT: &'static str = "\",\"iat\":";

pub const THEN_EXP: &'static str = ",\"exp\":";

pub const THEN_JTI: &'static str = ",\"jti\":\"";

pub const THEN_TYPE: &'static str = "\",\"token_type\":\"";

pub const THEN_ADDRESS: &'static str = "\",\"eth_address\":\"";

pub const THEN_ADMIN: &'static str = "\",\"is_admin\":";

pub const CLOSE: &'static str = "}";

/// The claims that a token carries.
#[derive(Debug)]
pub struct JwtClaims {
    pub sub: u128,
    pub iat: i64,
    pub exp: i64,
    pub jti: String,
    pub token_type: String,
    pub eth_address: String,
    pub is_admin: bool,
}

/// The token that jsonwebtoken's HS256 encoding gives for a claims text and a secret.
pub uninterp spec fn hs256_token(claims_json: Seq<char>, secret: Seq<char>) -> Seq<char>;

/// Printable ASCII other than the quote and the backslash: text that JSON carries unescaped.
pub open spec fn is_plain_char(c: char) -> bool {
    ' ' <= c <= '~' && c != '"' && c != '\\'
}

pub open spec fn is_plain(s: Seq<char>) -> bool {
    forall|i: int| 0 <= i < s.len() ==> #[trigger] is_plain_char(s[i])
}

pub open spec fn quoted(s: Seq<char>) -> Seq<char> {
    seq!['"'] + s + seq!['"']
}

pub open spec fn bool_text(b: bool) -> Seq<char> {
    if b {
        JSON_TRUE@
    } else {
        JSON_FALSE@
    }
}

/// Claims that this library can write as JSON and read back.
pub open spec fn claims_wf(c: JwtClaims) -> bool {
    &&& c.iat >= 0
    &&& c.exp >= 0
    &&& is_plain(c.jti@)
    &&& is_plain(c.token_type@)
    &&& is_plain(c.eth_address@)
}

/// The JSON object that a token with these claims signs.
pub open spec fn token_claims_json(
    sub: u128,
    eth_address: Seq<char>,
    is_admin: bool,
    iat: int,
    exp: int,
    jti: Seq<char>,
    token_type: Seq<char>,
) -> Seq<char> {
    OPEN_SUB@ + decimal_spec(sub as nat) + THEN_IAT@ + decimal_spec(iat as nat) + THEN_EXP@
        + decimal_spec(exp as nat) + THEN_JTI@ + jti + THEN_TYPE@ + token_type + THEN_ADDRESS@
        + eth_address + THEN_ADMIN@ + bool_text(is_admin) + CLOSE@
}

/// The JSON object that a token signs for `c`.
pub open spec fn claims_json(c: JwtClaims) -> Seq<char> {
    token_claims_json(
        c.sub,
        c.eth_address@,
        c.is_admin,
        c.iat as int,
        c.exp as int,
        c.jti@,
        c.token_type@,
    )
}

/// Whether `c` holds the claims of a token of type `token_type` issued at `now` for
/// `lifetime` seconds, with id `jti` written in decimal.
pub open spec fn issued_claims(
    c: JwtClaims,
    user_id: u128,
    eth_address: Seq<char>,
    is_admin: bool,
    now: int,
    jti: u128,
    token_type: Seq<char>,
    lifetime: int,
) -> bool {
    &&& c.sub == user_id
    &&& c.iat == now
    &&& c.exp == now + lifetime
    &&& c.jti@ == decimal_spec(jti as nat)
    &&& c.token_type@ == token_type
    &&& c.eth_address@ == eth_address
    &&& c.is_admin == is_admin
}

/// The JSON text of the first member named `key`.
pub open spec fn field_value(fields: Seq<(String, String)>, key: Seq<char>) -> Option<Seq<char>>
    decreases fields.len(),
{
    if fields.len() == 0 {
        None
    } else if fields[0].0@ == key {
        Some(fields[0].1@)
    } else {
        field_value(fields.drop_first(), key)
    }
}

/// Whether the members `fields` of a JSON object are those that `claims_json(c)` writes.
pub open spec fn claim_fields_match(fields: Seq<(String, String)>, c: JwtClaims) -> bool {
    &&& field_value(fields, KEY_SUB@) == Some(quoted(decimal_spec(c.sub as nat)))
    &&& field_value(fields, KEY_IAT@) == Some(decimal_spec(c.iat as nat))
    &&& field_value(fields, KEY_EXP@) == Some(decimal_spec(c.exp as nat))
    &&& field_value(fields, KEY_JTI@) == Some(quoted(c.jti@))
    &&& field_value(fields, KEY_TYPE@) == Some(quoted(c.token_type@))
    &&& field_value(fields, KEY_ADDRESS@) == Some(quoted(c.eth_address@))
    &&& field_value(fields, KEY_ADMIN@) == Some(bool_text(c.is_admin))
}

/// Text that `claims_to_json` writes for well-formed claims: a JSON object whose members are
/// decimal numbers, `true` or `false`, and strings of printable ASCII without quote or
/// backslash. Such text is always valid JSON.
pub open spec fn is_claims_text(t: Seq<char>) -> bool {
    exists|c: JwtClaims| claims_wf(c) && #[trigger] claims_json(c) == t
}

/// Relies on jsonwebtoken's `encode` with an HS256 header and `EncodingKey::from_secret`, and on
/// serde_json's `RawValue::from_string`, which fails only when the text is not JSON and then
/// writes it out as given, less any surrounding white space. `encode` fails only when the key's
/// family differs from the header's algorithm (both are HMAC here), and HMAC signing cannot
/// fail; so valid JSON text is always signed. HS256 signing is deterministic, so the token
/// depends on the text and the secret alone.
#[verifier::external_body]
fn sign_hs256(claims_json: String, secret: &str) -> (r: Option<String>)
    ensures
        r matches Some(t) ==> t@ == hs256_token(claims_json@, secret@),
        is_claims_text(claims_json@) ==> r is Some,
{
    let raw = serde_json::value::RawValue::from_string(claims_json).ok()?;
    let key = jsonwebtoken::EncodingKey::from_secret(secret.as_bytes());
    jsonwebtoken::encode(&jsonwebtoken::Header::new(jsonwebtoken::Algorithm::HS256), &raw, &key).ok()
}

/// Relies on jsonwebtoken's `decode` with `Validation::new(HS256)`: it checks the signature
/// and the `exp` claim against the current time, and hands back each member of the claims
/// object with its JSON text. An expired token gives `TokenExpired`, every other failure
/// `TokenInvalid`. The outcome depends on the clock, so nothing more is promised.
#[verifier::external_body]
fn decode_claim_fields(token: &str, secret: &str) -> (r: Result<Vec<(String, String)>, AuthErrorKind>)
    ensures
        r matches Err(k) ==> k == AuthErrorKind::TokenExpired || k == AuthErrorKind::TokenInvalid,
{
    let key = jsonwebtoken::DecodingKey::from_secret(secret.as_bytes());
    let validation = jsonwebtoken::Validation::new(jsonwebtoken::Algorithm::HS256);
    match jsonwebtoken::decode::<ClaimMembers>(token, &key, &validation) {
        Ok(data) => Ok(data.claims.into_iter().map(|(k, v)| (k, v.get().to_string())).collect()),
        Err(e) => Err(match e.kind() {
            jsonwebtoken::errors::ErrorKind::ExpiredSignature => AuthErrorKind::TokenExpired,
            _ => AuthErrorKind::TokenInvalid,
        }),
    }
}

/// Checks that `s` is plain text.
pub fn is_plain_text(s: &str) -> (r: bool)
    ensures
        r == is_plain(s@),
{
    let n = s.unicode_len();
    let mut i: usize = 0;
    while i < n
        invariant
            0 <= i <= n,
            n == s@.len(),
            forall|j: int| 0 <= j < i ==> #[trigger] is_plain_char(s@[j]),
        decreases n - i,
    {
        let c = s.get_char(i);
        if !(' ' <= c && c <= '~' && c != '"' && c != '\\') {
            assert(!is_plain_char(s@[i as int]));
            return false;
        }
        i = i + 1;
    }
    true
}

proof fn lemma_decimal_plain(n: nat)
    ensures
        is_plain(decimal_spec(n)),
{
    lemma_decimal_round_trip(n);
    assert forall|i: int| 0 <= i < decimal_spec(n).len() implies #[trigger] is_plain_char(
        decimal_spec(n)[i],
    ) by {
        assert(crate::codec::is_decimal_digit(decimal_spec(n)[i]));
    }
}

/// Reads the decimal text of a number at most `max`, as `decimal_string` writes it.
pub fn read_decimal(s: &str, max: u128) -> (r: Option<u128>)
    ensures
        match r {
            Some(v) => s@ == decimal_spec(v as nat) && v <= max,
            None => forall|n: nat| n <= max ==> s@ != #[trigger] decimal_spec(n),
        },
{
    match parse_decimal(s, max) {
        None => {
            proof {
                assert forall|n: nat| n <= max implies s@ != #[trigger] decimal_spec(n) by {
                    lemma_decimal_round_trip(n);
                }
            }
            None
        },
        Some(v) => {
            let written = decimal_string(v);
            if written == String::from_str(s) {
                Some(v)
            } else {
                proof {
                    assert forall|n: nat| n <= max implies s@ != #[trigger] decimal_spec(n) by {
                        lemma_decimal_round_trip(n);
                    }
                }
                None
            }
        },
    }
}

/// Reads a quoted plain text: a quote, plain characters, a quote.
pub fn unquote_plain(raw: &str) -> (r: Option<String>)
    ensures
        match r {
            Some(s) => raw@ == quoted(s@) && is_plain(s@),
            None => forall|s: Seq<char>| is_plain(s) ==> raw@ != #[trigger] quoted(s),
        },
{
    let n = raw.unicode_len();
    if n < 2 || raw.get_char(0) != '"' || raw.get_char(n - 1) != '"' {
        proof {
            assert forall|s: Seq<char>| is_plain(s) implies raw@ != #[trigger] quoted(s) by {
                if raw@ == quoted(s) {
                    assert(quoted(s)[0] == '"');
                    assert(quoted(s)[quoted(s).len() - 1] == '"');
                }
            }
        }
        return None;
    }
    let inner = raw.substring_char(1, n - 1);
    if !is_plain_text(inner) {
        proof {
            assert forall|s: Seq<char>| is_plain(s) implies raw@ != #[trigger] quoted(s) by {
                if raw@ == quoted(s) {
                    assert(inner@ =~= s);
                }
            }
        }
        return None;
    }
    assert(raw@ =~= quoted(inner@));
    Some(String::from_str(inner))
}

/// No member before `i` is named `key`, so the lookup may start at `i`.
proof fn lemma_field_value_skip(fields: Seq<(String, String)>, key: Seq<char>, i: int)
    requires
        0 <= i <= fields.len(),
        forall|j: int| 0 <= j < i ==> #[trigger] fields[j].0@ != key,
    ensures
        field_value(fields, key) == field_value(fields.subrange(i, fields.len() as int), key),
    decreases i,
{
    if i == 0 {
        assert(fields.subrange(0, fields.len() as int) =~= fields);
    } else {
        lemma_field_value_skip(fields, key, i - 1);
        let t = fields.subrange(i - 1, fields.len() as int);
        assert(t[0] == fields[i - 1]);
        assert(t.drop_first() =~= fields.subrange(i, fields.len() as int));
    }
}

/// The JSON text of the first member named `key`.
pub fn find_field<'a>(fields: &'a Vec<(String, String)>, key: &str) -> (r: Option<&'a String>)
    ensures
        match field_value(fields@, key@) {
            Some(v) => r matches Some(s) && s@ == v,
            None => r is None,
        },
{
    let wanted = String::from_str(key);
    let mut i: usize = 0;
    while i < fields.len()
        invariant
            0 <= i <= fields@.len(),
            wanted@ == key@,
            forall|j: int| 0 <= j < i ==> #[trigger] fields@[j].0@ != key@,
        decreases fields@.len() - i,
    {
        if fields[i].0 == wanted {
            proof {
                lemma_field_value_skip(fields@, key@, i as int);
                let t = fields@.subrange(i as int, fields@.len() as int);
                assert(t[0] == fields@[i as int]);
            }
            return Some(&fields[i].1);
        }
        i = i + 1;
    }
    proof {
        lemma_field_value_skip(fields@, key@, i as int);
    }
    None
}

/// Writes `c` as the JSON object that its token signs.
pub fn claims_to_json(c: &JwtClaims) -> (r: String)
    requires
        c.iat >= 0,
        c.exp >= 0,
    ensures
        r@ == claims_json(*c),
{
    let mut s = String::from_str(OPEN_SUB);
    let sub = decimal_string(c.sub);
    s.append(sub.as_str());
    s.append(THEN_IAT);
    let iat = decimal_string(c.iat as u128);
    s.append(iat.as_str());
    s.append(THEN_EXP);
    let exp = decimal_string(c.exp as u128);
    s.append(exp.as_str());
    s.append(THEN_JTI);
    s.append(c.jti.as_str());
    s.append(THEN_TYPE);
    s.append(c.token_type.as_str());
    s.append(THEN_ADDRESS);
    s.append(c.eth_address.as_str());
    s.append(THEN_ADMIN);
    if c.is_admin {
        s.append(JSON_TRUE);
    } else {
        s.append(JSON_FALSE);
    }
    s.append(CLOSE);
    s
}

/// Signs `claims` with `secret` as an HS256 token. Claims that JSON cannot carry unescaped
/// (see `claims_wf`) are refused.
pub fn generate_jwt_token(claims: &JwtClaims, secret: &str) -> (r: Result<String, AppError>)
    ensures
        r matches Ok(t) ==> claims_wf(*claims) && t@ == hs256_token(claims_json(*claims), secret@),
        r matches Err(e) ==> e is ServerError,
        !claims_wf(*claims) ==> r is Err,
        claims_wf(*claims) ==> r is Ok,
{
    if claims.iat < 0 || claims.exp < 0 || !is_plain_text(claims.jti.as_str()) || !is_plain_text(
        claims.token_type.as_str(),
    ) || !is_plain_text(claims.eth_address.as_str()) {
        return Err(AppError::ServerError(String::from_str("claims cannot be encoded")));
    }
    let text = claims_to_json(claims);
    assert(is_claims_text(text@));
    match sign_hs256(text, secret) {
        Some(t) => Ok(t),
        None => Err(AppError::ServerError(String::from_str("token signing failed"))),
    }
}

proof fn lemma_quoted_injective(a: Seq<char>, b: Seq<char>)
    requires
        quoted(a) == quoted(b),
    ensures
        a == b,
{
    assert(a =~= quoted(a).subrange(1, quoted(a).len() - 1));
    assert(b =~= quoted(b).subrange(1, quoted(b).len() - 1));
}

/// Reads member `key` as a quoted decimal number.
fn read_quoted_number(fields: &Vec<(String, String)>, key: &str) -> (r: Option<u128>)
    ensures
        match r {
            Some(v) => field_value(fields@, key@) == Some(quoted(decimal_spec(v as nat))),
            None => forall|n: u128|
                field_value(fields@, key@) != Some(quoted(#[trigger] decimal_spec(n as nat))),
        },
{
    let raw = match find_field(fields, key) {
        Some(raw) => raw,
        None => {
            return None;
        },
    };
    let text = match unquote_plain(raw.as_str()) {
        Some(t) => t,
        None => {
            proof {
                assert forall|n: u128| field_value(fields@, key@) != Some(
                    quoted(#[trigger] decimal_spec(n as nat)),
                ) by {
                    lemma_decimal_plain(n as nat);
                }
            }
            return None;
        },
    };
    match read_decimal(text.as_str(), u128::MAX) {
        Some(v) => Some(v),
        None => {
            proof {
                assert forall|n: u128| field_value(fields@, key@) != Some(
                    quoted(#[trigger] decimal_spec(n as nat)),
                ) by {
                    if field_value(fields@, key@) == Some(quoted(decimal_spec(n as nat))) {
                        lemma_quoted_injective(text@, decimal_spec(n as nat));
                    }
                }
            }
            None
        },
    }
}

/// Reads member `key` as a decimal number of at most `i64::MAX`.
fn read_time(fields: &Vec<(String, String)>, key: &str) -> (r: Option<i64>)
    ensures
        match r {
            Some(v) => v >= 0 && field_value(fields@, key@) == Some(decimal_spec(v as nat)),
            None => forall|n: i64|
                n >= 0 ==> field_value(fields@, key@) != Some(#[trigger] decimal_spec(n as nat)),
        },
{
    let raw = match find_field(fields, key) {
        Some(raw) => raw,
        None => {
            return None;
        },
    };
    match read_decimal(raw.as_str(), i64::MAX as u128) {
        Some(v) => Some(v as i64),
        None => None,
    }
}

/// Reads member `key` as a quoted plain text.
fn read_text(fields: &Vec<(String, String)>, key: &str) -> (r: Option<String>)
    ensures
        match r {
            Some(t) => is_plain(t@) && field_value(fields@, key@) == Some(quoted(t@)),
            None => forall|t: Seq<char>|
                is_plain(t) ==> field_value(fields@, key@) != Some(#[trigger] quoted(t)),
        },
{
    let raw = match find_field(fields, key) {
        Some(raw) => raw,
        None => {
            return None;
        },
    };
    unquote_plain(raw.as_str())
}

/// Reads member `key` as `true` or `false`.
fn read_flag(fields: &Vec<(String, String)>, key: &str) -> (r: Option<bool>)
    ensures
        match r {
            Some(b) => field_value(fields@, key@) == Some(bool_text(b)),
            None => forall|b: bool| field_value(fields@, key@) != Some(#[trigger] bool_text(b)),
        },
{
    let raw = match find_field(fields, key) {
        Some(raw) => raw,
        None => {
            return None;
        },
    };
    if *raw == String::from_str(JSON_TRUE) {
        Some(true)
    } else if *raw == String::from_str(JSON_FALSE) {
        Some(false)
    } else {
        None
    }
}

/// Reads the claims from the members of a claims object, as `claims_to_json` wrote them.
pub fn claims_from_fields(fields: &Vec<(String, String)>) -> (r: Option<JwtClaims>)
    ensures
        match r {
            Some(c) => claims_wf(c) && claim_fields_match(fields@, c),
            None => forall|c: JwtClaims|
                claims_wf(c) ==> !#[trigger] claim_fields_match(fields@, c),
        },
{
    let sub = read_quoted_number(fields, KEY_SUB);
    let iat = read_time(fields, KEY_IAT);
    let exp = read_time(fields, KEY_EXP);
    let jti = read_text(fields, KEY_JTI);
    let token_type = read_text(fields, KEY_TYPE);
    let eth_address = read_text(fields, KEY_ADDRESS);
    let is_admin = read_flag(fields, KEY_ADMIN);
    match (sub, iat, exp, jti, token_type, eth_address, is_admin) {
        (Some(sub), Some(iat), Some(exp), Some(jti), Some(token_type), Some(eth_address), Some(is_admin)) => {
            Some(JwtClaims { sub, iat, exp, jti, token_type, eth_address, is_admin })
        },
        _ => {
            proof {
                assert forall|c: JwtClaims| claims_wf(c) implies !#[trigger] claim_fields_match(
                    fields@,
                    c,
                ) by {
                    if claim_fields_match(fields@, c) {
                        assert(field_value(fields@, KEY_SUB@) == Some(quoted(decimal_spec(c.sub as nat))));
                        assert(field_value(fields@, KEY_IAT@) == Some(decimal_spec(c.iat as nat)));
                        assert(field_value(fields@, KEY_EXP@) == Some(decimal_spec(c.exp as nat)));
                        assert(field_value(fields@, KEY_JTI@) == Some(quoted(c.jti@)));
                        assert(field_value(fields@, KEY_TYPE@) == Some(quoted(c.token_type@)));
                        assert(field_value(fields@, KEY_ADDRESS@) == Some(quoted(c.eth_address@)));
                        assert(field_value(fields@, KEY_ADMIN@) == Some(bool_text(c.is_admin)));
                    }
                }
            }
            None
        },
    }
}

/// Decides on a decoded token: its claims, if they can be read and are of `expected_type`.
pub fn check_decoded(decoded: Result<Vec<(String, String)>, AuthErrorKind>, expected_type: &str) -> (r:
    Result<JwtClaims, AppError>)
    ensures
        match decoded {
            Err(k) => r == Err::<JwtClaims, AppError>(AppError::AuthError(k)),
            Ok(f) => {
                &&& r matches Ok(c) ==> claims_wf(c) && claim_fields_match(f@, c)
                    && c.token_type@ == expected_type@
                &&& (r == Err::<JwtClaims, AppError>(AppError::AuthError(AuthErrorKind::TokenInvalid)))
                    <==> (forall|c: JwtClaims| claims_wf(c) ==> !#[trigger] claim_fields_match(f@, c))
                &&& (r == Err::<JwtClaims, AppError>(AppError::AuthError(AuthErrorKind::WrongTokenType)))
                    <==> (exists|c: JwtClaims|
                    claims_wf(c) && #[trigger] claim_fields_match(f@, c) && c.token_type@
                        != expected_type@)
                &&& r is Err ==> r == Err::<JwtClaims, AppError>(
                    AppError::AuthError(AuthErrorKind::TokenInvalid),
                ) || r == Err::<JwtClaims, AppError>(
                    AppError::AuthError(AuthErrorKind::WrongTokenType),
                )
            },
        },
{
    let fields = match decoded {
        Ok(f) => f,
        Err(k) => {
            return Err(AppError::AuthError(k));
        },
    };
    match claims_from_fields(&fields) {
        None => Err(AppError::AuthError(AuthErrorKind::TokenInvalid)),
        Some(c) => {
            if c.token_type == String::from_str(expected_type) {
                proof {
                    assert forall|d: JwtClaims|
                        claims_wf(d) && #[trigger] claim_fields_match(fields@, d) implies d.token_type@
                        == expected_type@ by {
                        lemma_quoted_injective(d.token_type@, c.token_type@);
                    }
                }
                Ok(c)
            } else {
                Err(AppError::AuthError(AuthErrorKind::WrongTokenType))
            }
        },
    }
}

/// Validates `token` against `secret`: signature and expiry first, then its claims and type.
pub fn validate_token(token: &str, secret: &str, expected_type: &str) -> (r: Result<
    JwtClaims,
    AppError,
>)
    ensures
        r matches Ok(c) ==> claims_wf(c) && c.token_type@ == expected_type@,
        r matches Err(e) ==> e == AppError::AuthError(AuthErrorKind::TokenExpired) || e
            == AppError::AuthError(AuthErrorKind::TokenInvalid) || e == AppError::AuthError(
            AuthErrorKind::WrongTokenType,
        ),
{
    check_decoded(decode_claim_fields(token, secret), expected_type)
}

/// Validates an access token.
pub fn validate_access_token(token: &str, secret: &str) -> (r: Result<JwtClaims, AppError>)
    ensures
        r matches Ok(c) ==> claims_wf(c) && c.token_type@ == ACCESS@,
        r matches Err(e) ==> e == AppError::AuthError(AuthErrorKind::TokenExpired) || e
            == AppError::AuthError(AuthErrorKind::TokenInvalid) || e == AppError::AuthError(
            AuthErrorKind::WrongTokenType,
        ),
{
    validate_token(token, secret, ACCESS)
}

/// Validates a refresh token.
pub fn validate_refresh_token(token: &str, secret: &str) -> (r: Result<JwtClaims, AppError>)
    ensures
        r matches Ok(c) ==> claims_wf(c) && c.token_type@ == REFRESH@,
        r matches Err(e) ==> e == AppError::AuthError(AuthErrorKind::TokenExpired) || e
            == AppError::AuthError(AuthErrorKind::TokenInvalid) || e == AppError::AuthError(
            AuthErrorKind::WrongTokenType,
        ),
{
    validate_token(token, secret, REFRESH)
}

proof fn lemma_identity_plain(n: Seq<char>)
    requires
        crate::address::is_identity_text(n),
    ensures
        is_plain(n),
{
    assert forall|i: int| 0 <= i < n.len() implies #[trigger] is_plain_char(n[i]) by {
        if i >= 2 {
            assert(crate::address::is_hex_char(n[i]));
        }
    }
}

/// Builds the claims of an access token and of a refresh token for `user_id`, issued at
/// `now`, with ids `access_id` and `refresh_id`. The identity is normalized first.
pub fn issue_claims_at(
    user_id: u128,
    eth_address: &str,
    is_admin: bool,
    now: i64,
    access_id: u128,
    refresh_id: u128,
) -> (r: Result<(JwtClaims, JwtClaims), AppError>)
    requires
        valid_time(now as int),
    ensures
        match normalize_spec(eth_address@) {
            None => r == Err::<(JwtClaims, JwtClaims), AppError>(
                AppError::AuthError(AuthErrorKind::InvalidIdentity),
            ),
            Some(n) => r matches Ok((a, f)) && claims_wf(a) && claims_wf(f) && issued_claims(
                a,
                user_id,
                n,
                is_admin,
                now as int,
                access_id,
                ACCESS@,
                ACCESS_TOKEN_SECS as int,
            ) && issued_claims(
                f,
                user_id,
                n,
                is_admin,
                now as int,
                refresh_id,
                REFRESH@,
                REFRESH_TOKEN_SECS as int,
            ),
        },
{
    let address = match normalize_ethereum_address(eth_address) {
        Ok(a) => a,
        Err(e) => {
            return Err(e);
        },
    };
    proof {
        crate::address::lemma_normalize_idempotent(eth_address@);
        lemma_identity_plain(address@);
        lemma_decimal_plain(access_id as nat);
        lemma_decimal_plain(refresh_id as nat);
        reveal_strlit("access");
        reveal_strlit("refresh");
    }
    let access = JwtClaims {
        sub: user_id,
        iat: now,
        exp: now + ACCESS_TOKEN_SECS,
        jti: decimal_string(access_id),
        token_type: String::from_str(ACCESS),
        eth_address: address.clone(),
        is_admin,
    };
    let refresh = JwtClaims {
        sub: user_id,
        iat: now,
        exp: now + REFRESH_TOKEN_SECS,
        jti: decimal_string(refresh_id),
        token_type: String::from_str(REFRESH),
        eth_address: address,
        is_admin,
    };
    Ok((access, refresh))
}

/// Issues an access token and a refresh token for `user_id`, issued at `now`, with ids
/// `access_id` and `refresh_id`, signed with `secret`.
pub fn issue_pair_at(
    user_id: u128,
    eth_address: &str,
    is_admin: bool,
    secret: &str,
    now: i64,
    access_id: u128,
    refresh_id: u128,
) -> (r: Result<(String, String), AppError>)
    requires
        valid_time(now as int),
        access_id != refresh_id,
    ensures
        match normalize_spec(eth_address@) {
            None => r == Err::<(String, String), AppError>(
                AppError::AuthError(AuthErrorKind::InvalidIdentity),
            ),
            Some(n) => {
                &&& r matches Ok((a, f)) ==> a@ == hs256_token(
                    token_claims_json(
                        user_id,
                        n,
                        is_admin,
                        now as int,
                        now + ACCESS_TOKEN_SECS,
                        decimal_spec(access_id as nat),
                        ACCESS@,
                    ),
                    secret@,
                ) && f@ == hs256_token(
                    token_claims_json(
                        user_id,
                        n,
                        is_admin,
                        now as int,
                        now + REFRESH_TOKEN_SECS,
                        decimal_spec(refresh_id as nat),
                        REFRESH@,
                    ),
                    secret@,
                )
                &&& r is Ok
            },
        },
{
    let (access, refresh) = match issue_claims_at(
        user_id,
        eth_address,
        is_admin,
        now,
        access_id,
        refresh_id,
    ) {
        Ok(pair) => pair,
        Err(e) => {
            return Err(e);
        },
    };
    let access_token = match generate_jwt_token(&access, secret) {
        Ok(t) => t,
        Err(e) => {
            return Err(e);
        },
    };
    let refresh_token = match generate_jwt_token(&refresh, secret) {
        Ok(t) => t,
        Err(e) => {
            return Err(e);
        },
    };
    Ok((access_token, refresh_token))
}

/// Issues an access token (15 minutes) and a refresh token (30 days) for `user_id` at the
/// current time, with two distinct random ids.
pub fn generate_token_pair(user_id: u128, eth_address: &str, is_admin: bool, secret: &str) -> (r:
    Result<(String, String), AppError>)
    ensures
        normalize_spec(eth_address@) is None ==> r == Err::<(String, String), AppError>(
            AppError::AuthError(AuthErrorKind::InvalidIdentity),
        ),
        normalize_spec(eth_address@) is Some && r is Err ==> r->Err_0 is ServerError,
        r matches Ok((a, f)) ==> exists|now: int, access_id: u128, refresh_id: u128|
            valid_time(now) && access_id != refresh_id && a@ == #[trigger] hs256_token(
                token_claims_json(
                    user_id,
                    normalize_spec(eth_address@)->0,
                    is_admin,
                    now,
                    now + ACCESS_TOKEN_SECS,
                    decimal_spec(access_id as nat),
                    ACCESS@,
                ),
                secret@,
            ) && f@ == #[trigger] hs256_token(
                token_claims_json(
                    user_id,
                    normalize_spec(eth_address@)->0,
                    is_admin,
                    now,
                    now + REFRESH_TOKEN_SECS,
                    decimal_spec(refresh_id as nat),
                    REFRESH@,
                ),
                secret@,
            ),
{
    if let Err(e) = normalize_ethereum_address(eth_address) {
        return Err(e);
    }
    let now = current_time();
    if now < 0 || now > MAX_TIMESTAMP {
        return Err(AppError::ServerError(String::from_str("clock out of range")));
    }
    let access_id = new_uuid();
    let drawn = new_uuid();
    let refresh_id = if drawn != access_id {
        drawn
    } else {
        assert(access_id ^ 1 != access_id) by (bit_vector);
        access_id ^ 1
    };
    issue_pair_at(user_id, eth_address, is_admin, secret, now, access_id, refresh_id)
}

} // verus!
