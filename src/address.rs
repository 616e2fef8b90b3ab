use vstd::prelude::*;
use vstd::string::*;

use crate::app_error::{AppError, AuthErrorKind};

verus! {

/// Length of an identity in characters: `0x` followed by 40 hex digits.
pub const IDENTITY_LEN: usize = 42;

/// The characters that Unicode gives the White_Space property.
pub open spec fn is_unicode_whitespace(c: char) -> bool {
    ('\u{9}' <= c <= '\u{d}') || c == ' ' || c == '\u{85}' || c == '\u{a0}' || c == '\u{1680}'
        || ('\u{2000}' <= c <= '\u{200a}') || c == '\u{2028}' || c == '\u{2029}'
        || c == '\u{202f}' || c == '\u{205f}' || c == '\u{3000}'
}

pub open spec fn trim_start_spec(s: Seq<char>) -> Seq<char>
    decreases s.len(),
{
    if s.len() > 0 && is_unicode_whitespace(s[0]) {
        trim_start_spec(s.drop_first())
    } else {
        s
    }
}

pub open spec fn trim_end_spec(s: Seq<char>) -> Seq<char>
    decreases s.len(),
{
    if s.len() > 0 && is_unicode_whitespace(s.last()) {
        trim_end_spec(s.drop_last())
    } else {
        s
    }
}

/// `s` without its leading and trailing whitespace.
pub open spec fn trim_spec(s: Seq<char>) -> Seq<char> {
    trim_end_spec(trim_start_spec(s))
}

pub open spec fn is_hex_char(c: char) -> bool {
    ('0' <= c <= '9') || ('a' <= c <= 'f') || ('A' <= c <= 'F')
}

/// Lower-cases the upper-case hex letters and leaves every other character alone.
pub open spec fn fold_hex_case(c: char) -> char {
    if c == 'A' {
        'a'
    } else if c == 'B' {
        'b'
    } else if c == 'C' {
        'c'
    } else if c == 'D' {
        'd'
    } else if c == 'E' {
        'e'
    } else if c == 'F' {
        'f'
    } else {
        c
    }
}

pub open spec fn fold_case(s: Seq<char>) -> Seq<char> {
    s.map_values(|c: char| fold_hex_case(c))
}

/// `0x` followed by exactly 40 hex digits, in either case.
pub open spec fn is_identity_text(s: Seq<char>) -> bool {
    &&& s.len() == IDENTITY_LEN
    &&& s[0] == '0'
    &&& s[1] == 'x'
    &&& forall|i: int| 2 <= i < s.len() ==> #[trigger] is_hex_char(s[i])
}

/// An identity in canonical form: valid and lower case.
pub open spec fn is_canonical_identity(s: Seq<char>) -> bool {
    is_identity_text(s) && fold_case(s) == s
}

/// What normalizing `s` yields: the trimmed text in lower case, if it is an identity.
pub open spec fn normalize_spec(s: Seq<char>) -> Option<Seq<char>> {
    let t = trim_spec(s);
    if is_identity_text(t) {
        Some(fold_case(t))
    } else {
        None
    }
}

/// Relies on `str::trim`: removes leading and trailing Unicode white space.
#[verifier::external_body]
fn trim_whitespace(s: &str) -> (r: &str)
    ensures
        r@ == trim_spec(s@),
{
    s.trim()
}

/// Relies on `str::to_lowercase`: on ASCII text it lower-cases the letters `A` to `Z`, so on
/// an identity it lower-cases the hex letters and keeps `0x`.
#[verifier::external_body]
fn lowercase_identity(s: &str) -> (r: String)
    requires
        is_identity_text(s@),
    ensures
        r@ == fold_case(s@),
{
    s.to_lowercase()
}

/// Checks that `s` is `0x` followed by 40 hex digits.
pub fn is_identity(s: &str) -> (r: bool)
    ensures
        r == is_identity_text(s@),
{
    let n = s.unicode_len();
    if n != IDENTITY_LEN {
        return false;
    }
    if s.get_char(0) != '0' || s.get_char(1) != 'x' {
        return false;
    }
    let mut i: usize = 2;
    while i < n
        invariant
            2 <= i <= n,
            n == s@.len(),
            forall|j: int| 2 <= j < i ==> #[trigger] is_hex_char(s@[j]),
        decreases n - i,
    {
        let c = s.get_char(i);
        if !(('0' <= c && c <= '9') || ('a' <= c && c <= 'f') || ('A' <= c && c <= 'F')) {
            assert(!is_hex_char(s@[i as int]));
            return false;
        }
        i = i + 1;
    }
    true
}

/// Trims `address`, checks that it is an identity, and returns it in lower case.
pub fn normalize_ethereum_address(address: &str) -> (r: Result<String, AppError>)
    ensures
        match r {
            Ok(n) => normalize_spec(address@) == Some(n@),
            Err(e) => normalize_spec(address@) is None && e == AppError::AuthError(
                AuthErrorKind::InvalidIdentity,
            ),
        },
{
    let trimmed = trim_whitespace(address);
    if !is_identity(trimmed) {
        return Err(AppError::AuthError(AuthErrorKind::InvalidIdentity));
    }
    Ok(lowercase_identity(trimmed))
}

proof fn lemma_fold_keeps_whitespace(c: char)
    ensures
        is_unicode_whitespace(fold_hex_case(c)) == is_unicode_whitespace(c),
        is_hex_char(fold_hex_case(c)) == is_hex_char(c),
        fold_hex_case(fold_hex_case(c)) == fold_hex_case(c),
{
}

proof fn lemma_trim_start_fold(s: Seq<char>)
    ensures
        trim_start_spec(fold_case(s)) == fold_case(trim_start_spec(s)),
    decreases s.len(),
{
    if s.len() > 0 {
        lemma_fold_keeps_whitespace(s[0]);
        assert(fold_case(s).drop_first() =~= fold_case(s.drop_first()));
        lemma_trim_start_fold(s.drop_first());
    }
}

proof fn lemma_trim_end_fold(s: Seq<char>)
    ensures
        trim_end_spec(fold_case(s)) == fold_case(trim_end_spec(s)),
    decreases s.len(),
{
    if s.len() > 0 {
        lemma_fold_keeps_whitespace(s.last());
        assert(fold_case(s).drop_last() =~= fold_case(s.drop_last()));
        lemma_trim_end_fold(s.drop_last());
    }
}

proof fn lemma_identity_text_fold(t: Seq<char>)
    ensures
        is_identity_text(fold_case(t)) == is_identity_text(t),
        fold_case(fold_case(t)) == fold_case(t),
{
    assert forall|i: int| 0 <= i < t.len() implies is_hex_char(#[trigger] fold_case(t)[i])
        == is_hex_char(t[i]) && fold_hex_case(fold_case(t)[i]) == fold_case(t)[i] by {
        lemma_fold_keeps_whitespace(t[i]);
    }
    assert(fold_case(fold_case(t)) =~= fold_case(t));
    if is_identity_text(t) {
        assert forall|i: int| 2 <= i < fold_case(t).len() implies #[trigger] is_hex_char(
            fold_case(t)[i],
        ) by {
            assert(is_hex_char(t[i]));
        }
    }
    if is_identity_text(fold_case(t)) {
        assert forall|i: int| 2 <= i < t.len() implies #[trigger] is_hex_char(t[i]) by {
            assert(is_hex_char(fold_case(t)[i]));
        }
    }
}

/// A canonical identity has no surrounding white space, so trimming keeps it.
pub(crate) proof fn lemma_trim_canonical(n: Seq<char>)
    requires
        is_identity_text(n),
    ensures
        trim_spec(n) == n,
{
    assert(is_hex_char(n[n.len() - 1]));
    assert(trim_start_spec(n) == n);
}

/// Normalizing is idempotent: a normalized identity normalizes to itself.
pub proof fn lemma_normalize_idempotent(s: Seq<char>)
    requires
        normalize_spec(s) is Some,
    ensures
        normalize_spec(normalize_spec(s)->0) == normalize_spec(s),
        is_canonical_identity(normalize_spec(s)->0),
{
    let t = trim_spec(s);
    let n = fold_case(t);
    lemma_identity_text_fold(t);
    lemma_trim_canonical(n);
}

/// Normalizing ignores the case of hex letters: two inputs that agree up to that case
/// normalize alike, valid or not.
pub proof fn lemma_normalize_case_insensitive(a: Seq<char>, b: Seq<char>)
    requires
        fold_case(a) == fold_case(b),
    ensures
        normalize_spec(a) == normalize_spec(b),
{
    lemma_trim_start_fold(a);
    lemma_trim_end_fold(trim_start_spec(a));
    lemma_trim_start_fold(b);
    lemma_trim_end_fold(trim_start_spec(b));
    lemma_identity_text_fold(trim_spec(a));
    lemma_identity_text_fold(trim_spec(b));
}

/// Two characters that are equal once ASCII letters are lower-cased.
pub open spec fn same_ascii_case(a: char, b: char) -> bool {
    a == b || ('A' <= a <= 'Z' && b as int == a as int + 32) || ('A' <= b <= 'Z' && a as int
        == b as int + 32)
}

proof fn lemma_same_ascii_case_hex(a: char, b: char)
    requires
        same_ascii_case(a, b),
    ensures
        is_hex_char(a) == is_hex_char(b),
        is_hex_char(a) ==> fold_hex_case(a) == fold_hex_case(b),
{
}

/// Identities compare ignoring ASCII case after the prefix: two inputs whose trimmed texts
/// share their first two characters and agree after them once ASCII letters are lower-cased
/// normalize alike, both to the same identity or both to an error.
pub proof fn lemma_normalize_ignores_ascii_case(x: Seq<char>, y: Seq<char>)
    requires
        trim_spec(x).len() >= 2,
        trim_spec(x).len() == trim_spec(y).len(),
        trim_spec(x)[0] == trim_spec(y)[0],
        trim_spec(x)[1] == trim_spec(y)[1],
        forall|i: int|
            2 <= i < trim_spec(x).len() ==> #[trigger] same_ascii_case(
                trim_spec(x)[i],
                trim_spec(y)[i],
            ),
    ensures
        normalize_spec(x) == normalize_spec(y),
{
    let t = trim_spec(x);
    let u = trim_spec(y);
    assert forall|i: int| 2 <= i < t.len() implies is_hex_char(#[trigger] t[i]) == is_hex_char(
        u[i],
    ) && (is_hex_char(t[i]) ==> fold_hex_case(t[i]) == fold_hex_case(u[i])) by {
        assert(same_ascii_case(t[i], u[i]));
        lemma_same_ascii_case_hex(t[i], u[i]);
    }
    if is_identity_text(t) {
        assert forall|i: int| 2 <= i < u.len() implies #[trigger] is_hex_char(u[i]) by {
            assert(is_hex_char(t[i]));
        }
        assert(fold_case(t) =~= fold_case(u)) by {
            assert forall|i: int| 0 <= i < t.len() implies fold_case(t)[i] == fold_case(u)[i] by {
                if i >= 2 {
                    assert(is_hex_char(t[i]));
                }
            }
        }
    } else if is_identity_text(u) {
        assert forall|i: int| 2 <= i < t.len() implies #[trigger] is_hex_char(t[i]) by {
            assert(is_hex_char(u[i]));
        }
    }
}

} // verus!
