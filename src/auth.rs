use vstd::prelude::*;
use vstd::string::*;

use crate::address::{normalize_ethereum_address, normalize_spec, IDENTITY_LEN};
use crate::app_error::{AppError, AuthErrorKind};
use crate::challenge::{
    consumed, is_active_for, new_challenge_spec, retained, AuthChallenge, ChallengeRequest,
    ChallengeResponse, ChallengeStore,
};
use crate::clock::{current_time, valid_time, MAX_TIMESTAMP};
use crate::codec::decimal_spec;
use crate::entropy::{new_uuid, random_nonce_bytes};
use crate::jwt::{hs256_token, issue_pair_at, token_claims_json, ACCESS, ACCESS_TOKEN_SECS, REFRESH, REFRESH_TOKEN_SECS};
use crate::rate_limiter::{
    fresh_entries, lookup_window, rate_identifier, rate_limit_post, rate_step, RateLimiter,
};
use crate::security_events::{EventType, SecurityEvent, SecurityLog, TokenBlacklist};
use crate::signature::{verify_signature, verify_spec};
use crate::users::{User, UserInput, UserStore};

verus! {

/// Attempts allowed per client and action within the window.
pub const MAX_ATTEMPTS: i32 = 3;

/// The rate-limit window, in seconds.
pub const WINDOW_SECS: i64 = 60;

/// Characters in a signature text: `0x` and 130 hex digits.
pub const SIGNATURE_TEXT_LEN: usize = 132;

pub const CHALLENGE_ACTION: &'static str = "challenge generation";

pub const LOGIN_ACTION: &'static str = "signature verification";

pub const METADATA_OPEN: &'static str = "{\"ethereum_address\":\"";

pub const METADATA_CLOSE: &'static str = "\"}";

/// A login attempt: the challenge answered, the identity, and its signature.
#[derive(Debug)]
pub struct LoginRequest {
    pub challenge_id: u128,
    pub ethereum_address: String,
    pub signature: String,
}

/// What the caller learns of the logged-in user.
#[derive(Debug)]
pub struct UserInfo {
    pub id: u128,
    pub ethereum_address: String,
    pub is_verified: bool,
    pub is_admin: bool,
}

/// A successful login: a token pair and the access token's lifetime in seconds.
#[derive(Debug)]
pub struct LoginResponse {
    pub access_token: String,
    pub refresh_token: String,
    pub expires_in: i64,
    pub user: UserInfo,
}

/// Whether no stored challenge with `id` can be answered, by anyone, at any time.
pub open spec fn spent(s: Seq<AuthChallenge>, id: u128) -> bool {
    forall|i: int| 0 <= i < s.len() && #[trigger] s[i].id == id ==> s[i].used
}

impl LoginRequest {
    pub open spec fn validate_spec(&self) -> bool {
        self.ethereum_address@.len() == IDENTITY_LEN && self.signature@.len() == SIGNATURE_TEXT_LEN
    }

    /// The identity must be 42 characters and the signature 132.
    pub fn validate(&self) -> (r: bool)
        ensures
            r == self.validate_spec(),
    {
        self.ethereum_address.as_str().unicode_len() == IDENTITY_LEN
            && self.signature.as_str().unicode_len() == SIGNATURE_TEXT_LEN
    }
}

/// The records that the authentication core owns, with their invariants.
pub struct AuthState {
    pub challenges: ChallengeStore,
    pub rate_limits: RateLimiter,
    pub users: UserStore,
    pub events: SecurityLog,
    pub blacklist: TokenBlacklist,
}

fn event_metadata(address: &str) -> (r: String)
    ensures
        r@ == METADATA_OPEN@ + address@ + METADATA_CLOSE@,
{
    let mut m = String::from_str(METADATA_OPEN);
    m.append(address);
    m.append(METADATA_CLOSE);
    m
}

/// `new` is `old` with one event of `event_type` for `user_id` appended.
pub open spec fn event_appended(
    old: Seq<SecurityEvent>,
    new: Seq<SecurityEvent>,
    event_type: EventType,
    user_id: Option<u128>,
) -> bool {
    &&& new.len() == old.len() + 1
    &&& new.drop_last() == old
    &&& new.last().event_type == event_type
    &&& new.last().user_id == user_id
}

/// Whether some stored challenge among `s` has id `id`.
pub open spec fn holds_id(s: Seq<AuthChallenge>, id: u128) -> bool {
    exists|i: int| 0 <= i < s.len() && #[trigger] s[i].id == id
}

/// What a request for a challenge for `address` from `client_ip` at `now` does to the state
/// `old`, giving `new` and `r`, with id `id` and nonce bytes `nonce`. Users are never touched.
/// A wrong-length identity changes nothing. Otherwise the attempt is rate limited first (a
/// refusal changes nothing else); then expired challenges go; then an invalid identity or a
/// taken id fails and stores nothing; else one unused challenge for `domain` is stored and
/// returned, and one challenge-created event without a user is recorded.
pub open spec fn create_challenge_post(
    old: AuthState,
    new: AuthState,
    address: Seq<char>,
    client_ip: Seq<char>,
    domain: Seq<char>,
    now: int,
    id: u128,
    nonce: Seq<u8>,
    r: Result<ChallengeResponse, AppError>,
) -> bool {
    let pruned = retained(old.challenges@, now);
    &&& new.users@ == old.users@
    &&& if address.len() != IDENTITY_LEN {
        &&& r == Err::<ChallengeResponse, AppError>(AppError::AuthError(AuthErrorKind::InvalidIdentity))
        &&& new.challenges@ == old.challenges@
        &&& new.events@ == old.events@
        &&& new.rate_limits@ == old.rate_limits@
    } else {
        exists|rr: Result<(), AppError>|
            #[trigger] rate_limit_post(
                old.rate_limits@,
                new.rate_limits@,
                client_ip,
                CHALLENGE_ACTION@,
                MAX_ATTEMPTS as int,
                WINDOW_SECS as int,
                now,
                rr,
            ) && if rr is Err {
                &&& r is Err && r->Err_0 == rr->Err_0
                &&& new.challenges@ == old.challenges@
                &&& new.events@ == old.events@
            } else {
                match normalize_spec(address) {
                    None => {
                        &&& r == Err::<ChallengeResponse, AppError>(
                            AppError::AuthError(AuthErrorKind::InvalidIdentity),
                        )
                        &&& new.challenges@ == pruned
                        &&& new.events@ == old.events@
                    },
                    Some(n) => if holds_id(pruned, id) {
                        &&& r is Err && r->Err_0 is DatabaseError
                        &&& new.challenges@ == pruned
                        &&& new.events@ == old.events@
                    } else {
                        &&& r is Ok
                        &&& exists|c: AuthChallenge|
                            #[trigger] new_challenge_spec(id, n, domain, nonce, now, c)
                                && new.challenges@ == pruned.push(c) && r->Ok_0.challenge_id
                                == c.id && r->Ok_0.message == c.challenge_message
                                && r->Ok_0.expires_at == c.expires_at
                        &&& event_appended(old.events@, new.events@, EventType::ChallengeCreated, None)
                    },
                }
            }
    }
}

spec fn old_users_has_address(users: Seq<User>, n: Seq<char>) -> bool {
    exists|i: int| 0 <= i < users.len() && #[trigger] users[i].ethereum_address@ == n
}

/// A refused login attempt: expired challenges are gone, users are as they were, and one
/// failed-login event without a user is recorded.
pub open spec fn rejected(old: AuthState, new: AuthState, pruned: Seq<AuthChallenge>) -> bool {
    &&& new.challenges@ == pruned
    &&& new.users@ == old.users@
    &&& event_appended(old.events@, new.events@, EventType::FailedLogin, None)
}

/// A login that succeeded on challenge `id` for identity `n`: the challenge is consumed, the
/// user found (or created with `new_user_id`) is the one answered, a challenge-used event and a
/// login event for that user are recorded, and the tokens carry that user's claims.
pub open spec fn login_success(
    old: AuthState,
    new: AuthState,
    pruned: Seq<AuthChallenge>,
    n: Seq<char>,
    id: u128,
    secret: Seq<char>,
    now: int,
    new_user_id: u128,
    access_id: u128,
    refresh_id: u128,
    resp: LoginResponse,
) -> bool {
    let k = old.events@.len() as int;
    &&& new.challenges@.len() == pruned.len()
    &&& forall|i: int|
        0 <= i < pruned.len() ==> #[trigger] new.challenges@[i] == if pruned[i].id == id {
            consumed(pruned[i])
        } else {
            pruned[i]
        }
    &&& spent(new.challenges@, id)
    &&& new.events@.len() == k + 2
    &&& new.events@.subrange(0, k) == old.events@
    &&& new.events@[k].event_type == EventType::ChallengeUsed
    &&& new.events@[k].user_id is None
    &&& new.events@[k + 1].event_type == EventType::Login
    &&& new.events@[k + 1].user_id == Some(resp.user.id)
    &&& resp.expires_in == ACCESS_TOKEN_SECS
    &&& resp.user.ethereum_address@ == n
    &&& if old.users.has_address(n) {
        &&& new.users@ == old.users@
        &&& exists|j: int|
            0 <= j < old.users@.len() && #[trigger] old.users@[j].ethereum_address@ == n
                && resp.user.id == old.users@[j].id && resp.user.is_admin == old.users@[j].is_admin
                && resp.user.is_verified == old.users@[j].is_verified
    } else {
        &&& new.users@.len() == old.users@.len() + 1
        &&& new.users@.drop_last() == old.users@
        &&& new.users@.last().id == new_user_id
        &&& new.users@.last().ethereum_address@ == n
        &&& resp.user.id == new_user_id
        &&& !resp.user.is_admin
        &&& !resp.user.is_verified
    }
    &&& resp.access_token@ == hs256_token(
        token_claims_json(
            resp.user.id,
            n,
            resp.user.is_admin,
            now,
            now + ACCESS_TOKEN_SECS,
            decimal_spec(access_id as nat),
            ACCESS@,
        ),
        secret,
    )
    &&& resp.refresh_token@ == hs256_token(
        token_claims_json(
            resp.user.id,
            n,
            resp.user.is_admin,
            now,
            now + REFRESH_TOKEN_SECS,
            decimal_spec(refresh_id as nat),
            REFRESH@,
        ),
        secret,
    )
}

/// A login attempt on the active challenge `c` for identity `n`: a signature that does not
/// verify is refused (`InvalidSignature`, or the verifier's error); one that verifies
/// succeeds, unless a new user is needed and `new_user_id` is taken, which fails with a
/// `DatabaseError` and changes nothing more.
pub open spec fn login_with_challenge(
    old: AuthState,
    new: AuthState,
    pruned: Seq<AuthChallenge>,
    c: AuthChallenge,
    n: Seq<char>,
    address: Seq<char>,
    signature: Seq<char>,
    secret: Seq<char>,
    now: int,
    new_user_id: u128,
    access_id: u128,
    refresh_id: u128,
    r: Result<LoginResponse, AppError>,
) -> bool {
    match verify_spec(signature, c.challenge_message@, address) {
        Ok(true) => if !old.users.has_address(n) && old.users.has_id(new_user_id) {
            &&& r is Err && r->Err_0 is DatabaseError
            &&& new.challenges@ == pruned
            &&& new.users@ == old.users@
            &&& new.events@ == old.events@
        } else {
            &&& r is Ok
            &&& login_success(
                old,
                new,
                pruned,
                n,
                c.id,
                secret,
                now,
                new_user_id,
                access_id,
                refresh_id,
                r->Ok_0,
            )
        },
        Ok(false) => r == Err::<LoginResponse, AppError>(
            AppError::AuthError(AuthErrorKind::InvalidSignature),
        ) && rejected(old, new, pruned),
        Err(e) => r == Err::<LoginResponse, AppError>(e) && rejected(old, new, pruned),
    }
}

/// What a login attempt does to the state `old`, giving `new` and `r`. A request of the wrong
/// shape changes nothing (`InvalidIdentity` for the identity's length, else
/// `InvalidSignature`). Otherwise the attempt is rate limited first (a refusal changes nothing
/// else); then expired challenges go; then an invalid identity or a missing active challenge is
/// refused, and otherwise the challenge decides (see `login_with_challenge`).
pub open spec fn login_post(
    old: AuthState,
    new: AuthState,
    address: Seq<char>,
    signature: Seq<char>,
    challenge_id: u128,
    client_ip: Seq<char>,
    secret: Seq<char>,
    now: int,
    new_user_id: u128,
    access_id: u128,
    refresh_id: u128,
    r: Result<LoginResponse, AppError>,
) -> bool {
    let pruned = retained(old.challenges@, now);
    if !(address.len() == IDENTITY_LEN && signature.len() == SIGNATURE_TEXT_LEN) {
        &&& r == Err::<LoginResponse, AppError>(
            AppError::AuthError(
                if address.len() != IDENTITY_LEN {
                    AuthErrorKind::InvalidIdentity
                } else {
                    AuthErrorKind::InvalidSignature
                },
            ),
        )
        &&& new.challenges@ == old.challenges@
        &&& new.users@ == old.users@
        &&& new.events@ == old.events@
        &&& new.rate_limits@ == old.rate_limits@
    } else {
        exists|rr: Result<(), AppError>|
            #[trigger] rate_limit_post(
                old.rate_limits@,
                new.rate_limits@,
                client_ip,
                LOGIN_ACTION@,
                MAX_ATTEMPTS as int,
                WINDOW_SECS as int,
                now,
                rr,
            ) && if rr is Err {
                &&& r is Err && r->Err_0 == rr->Err_0
                &&& new.challenges@ == old.challenges@
                &&& new.users@ == old.users@
                &&& new.events@ == old.events@
            } else {
                match normalize_spec(address) {
                    None => r == Err::<LoginResponse, AppError>(
                        AppError::AuthError(AuthErrorKind::InvalidIdentity),
                    ) && rejected(old, new, pruned),
                    Some(n) => if !(exists|i: int|
                        0 <= i < pruned.len() && #[trigger] is_active_for(
                            pruned[i],
                            n,
                            challenge_id,
                            now,
                        )) {
                        r == Err::<LoginResponse, AppError>(
                            AppError::AuthError(AuthErrorKind::NoActiveChallenge),
                        ) && rejected(old, new, pruned)
                    } else {
                        forall|i: int|
                            0 <= i < pruned.len() && #[trigger] is_active_for(
                                pruned[i],
                                n,
                                challenge_id,
                                now,
                            ) ==> login_with_challenge(
                                old,
                                new,
                                pruned,
                                pruned[i],
                                n,
                                address,
                                signature,
                                secret,
                                now,
                                new_user_id,
                                access_id,
                                refresh_id,
                                r,
                            )
                    },
                }
            }
    }
}

impl AuthState {
    pub open spec fn wf(&self) -> bool {
        self.challenges.wf() && self.rate_limits.wf() && self.users.wf()
    }

    pub fn new() -> (r: AuthState)
        ensures
            r.wf(),
            r.challenges@.len() == 0,
            r.users@.len() == 0,
            r.events@.len() == 0,
    {
        AuthState {
            challenges: ChallengeStore::new(),
            rate_limits: RateLimiter::new(),
            users: UserStore::new(),
            events: SecurityLog::new(),
            blacklist: TokenBlacklist::new(),
        }
    }

    /// Handles a request for a challenge from `client_ip` at `now`: checks the request and the
    /// rate limit, deletes expired challenges, stores a new one for `domain` with id
    /// `challenge_id` and a nonce from `nonce_bytes`, and records the event; see
    /// `create_challenge_post`.
    pub fn create_challenge_at(
        &mut self,
        request: &ChallengeRequest,
        client_ip: &str,
        user_agent: &str,
        domain: &str,
        now: i64,
        challenge_id: u128,
        nonce_bytes: &[u8],
    ) -> (r: Result<ChallengeResponse, AppError>)
        requires
            old(self).wf(),
            valid_time(now as int),
        ensures
            final(self).wf(),
            final(self).blacklist@ == old(self).blacklist@,
            create_challenge_post(
                *old(self),
                *final(self),
                request.ethereum_address@,
                client_ip@,
                domain@,
                now as int,
                challenge_id,
                nonce_bytes@,
                r,
            ),
    {
        if !request.validate() {
            return Err(AppError::AuthError(AuthErrorKind::InvalidIdentity));
        }
        let rate = self.rate_limits.check_rate_limit_at(
            client_ip,
            CHALLENGE_ACTION,
            MAX_ATTEMPTS,
            WINDOW_SECS,
            now,
        );
        let ghost rr = rate;
        if let Err(e) = rate {
            assert(rate_limit_post(
                old(self).rate_limits@,
                self.rate_limits@,
                client_ip@,
                CHALLENGE_ACTION@,
                MAX_ATTEMPTS as int,
                WINDOW_SECS as int,
                now as int,
                rr,
            ));
            return Err(e);
        }
        self.challenges.cleanup_expired_at(now);
        let ghost pruned = self.challenges@;
        let challenge = match self.challenges.create_challenge_at(
            request.ethereum_address.as_str(),
            domain,
            now,
            challenge_id,
            nonce_bytes,
        ) {
            Ok(c) => c,
            Err(e) => {
                assert(rate_limit_post(
                    old(self).rate_limits@,
                    self.rate_limits@,
                    client_ip@,
                    CHALLENGE_ACTION@,
                    MAX_ATTEMPTS as int,
                    WINDOW_SECS as int,
                    now as int,
                    rr,
                ));
                return Err(e);
            },
        };
        let metadata = event_metadata(challenge.ethereum_address.as_str());
        self.events.record_event(
            EventType::ChallengeCreated,
            None,
            client_ip,
            user_agent,
            metadata.as_str(),
            now,
        );
        let resp = challenge.response();
        assert(rate_limit_post(
            old(self).rate_limits@,
            self.rate_limits@,
            client_ip@,
            CHALLENGE_ACTION@,
            MAX_ATTEMPTS as int,
            WINDOW_SECS as int,
            now as int,
            rr,
        ));
        assert(new_challenge_spec(
            challenge_id,
            normalize_spec(request.ethereum_address@)->0,
            domain@,
            nonce_bytes@,
            now as int,
            challenge,
        ));
        Ok(resp)
    }

    /// The same at the current time, with a random id and nonce: the outcome of
    /// `create_challenge_post` at the clock's reading, or a `ServerError` that changes nothing
    /// when the clock reads outside the handled range.
    pub fn create_challenge(
        &mut self,
        request: &ChallengeRequest,
        client_ip: &str,
        user_agent: &str,
        domain: &str,
    ) -> (r: Result<ChallengeResponse, AppError>)
        requires
            old(self).wf(),
        ensures
            final(self).wf(),
            (exists|now: int, id: u128, nonce: Seq<u8>|
                valid_time(now) && nonce.len() == 16 && #[trigger] create_challenge_post(
                    *old(self),
                    *final(self),
                    request.ethereum_address@,
                    client_ip@,
                    domain@,
                    now,
                    id,
                    nonce,
                    r,
                )) || (r is Err && r->Err_0 is ServerError && *final(self) == *old(self)),
    {
        let now = current_time();
        if now < 0 || now > MAX_TIMESTAMP {
            return Err(AppError::ServerError(String::from_str("clock out of range")));
        }
        let id = new_uuid();
        let nonce = random_nonce_bytes();
        self.create_challenge_at(request, client_ip, user_agent, domain, now, id, nonce.as_slice())
    }

    /// Handles a login attempt from `client_ip` at `now`: checks the request and the rate
    /// limit, deletes expired challenges, fetches the active challenge, verifies the signature
    /// over its message, finds or creates the user (with id `new_user_id`), issues a token pair
    /// with ids `access_id` and `refresh_id`, and consumes the challenge; see `login_post`.
    /// Every refusal after the rate limit records a failed-login event and leaves the challenge
    /// usable.
    #[verifier::rlimit(100)]
    pub fn login_at(
        &mut self,
        request: &LoginRequest,
        client_ip: &str,
        user_agent: &str,
        secret: &str,
        now: i64,
        new_user_id: u128,
        access_id: u128,
        refresh_id: u128,
    ) -> (r: Result<LoginResponse, AppError>)
        requires
            old(self).wf(),
            valid_time(now as int),
            access_id != refresh_id,
        ensures
            final(self).wf(),
            final(self).blacklist@ == old(self).blacklist@,
            login_post(
                *old(self),
                *final(self),
                request.ethereum_address@,
                request.signature@,
                request.challenge_id,
                client_ip@,
                secret@,
                now as int,
                new_user_id,
                access_id,
                refresh_id,
                r,
            ),
    {
        if !request.validate() {
            if request.ethereum_address.as_str().unicode_len() != IDENTITY_LEN {
                let res: Result<LoginResponse, AppError> = Err(AppError::AuthError(AuthErrorKind::InvalidIdentity));
                assert(login_post(*old(self), *self, request.ethereum_address@, request.signature@, request.challenge_id, client_ip@, secret@, now as int, new_user_id, access_id, refresh_id, res));
                return res;
            }
            let res: Result<LoginResponse, AppError> = Err(AppError::AuthError(AuthErrorKind::InvalidSignature));
            assert(login_post(*old(self), *self, request.ethereum_address@, request.signature@, request.challenge_id, client_ip@, secret@, now as int, new_user_id, access_id, refresh_id, res));
            return res;
        }
        let rate = self.rate_limits.check_rate_limit_at(
            client_ip,
            LOGIN_ACTION,
            MAX_ATTEMPTS,
            WINDOW_SECS,
            now,
        );
        let ghost rr = rate;
        let ghost rate_post = rate_limit_post(
            old(self).rate_limits@,
            self.rate_limits@,
            client_ip@,
            LOGIN_ACTION@,
            MAX_ATTEMPTS as int,
            WINDOW_SECS as int,
            now as int,
            rr,
        );
        assert(rate_post);
        if let Err(e) = rate {
            let res: Result<LoginResponse, AppError> = Err(e);
            assert(login_post(*old(self), *self, request.ethereum_address@, request.signature@, request.challenge_id, client_ip@, secret@, now as int, new_user_id, access_id, refresh_id, res));
            return res;
        }
        self.challenges.cleanup_expired_at(now);
        let ghost pruned = self.challenges@;
        let ghost old_events = self.events@;
        let address = request.ethereum_address.as_str();
        let normalized = match normalize_ethereum_address(address) {
            Ok(a) => a,
            Err(e) => {
                self.events.record_event(EventType::FailedLogin, None, client_ip, user_agent, "{}", now);
                let res: Result<LoginResponse, AppError> = Err(e);
                assert(login_post(*old(self), *self, request.ethereum_address@, request.signature@, request.challenge_id, client_ip@, secret@, now as int, new_user_id, access_id, refresh_id, res));
                return res;
            },
        };
        let metadata = event_metadata(normalized.as_str());
        let challenge = match self.challenges.find_active_challenge_at(
            address,
            request.challenge_id,
            now,
        ) {
            Ok(Some(c)) => c,
            Ok(None) => {
                self.events.record_event(
                    EventType::FailedLogin,
                    None,
                    client_ip,
                    user_agent,
                    metadata.as_str(),
                    now,
                );
                let res: Result<LoginResponse, AppError> = Err(AppError::AuthError(AuthErrorKind::NoActiveChallenge));
                assert(login_post(*old(self), *self, request.ethereum_address@, request.signature@, request.challenge_id, client_ip@, secret@, now as int, new_user_id, access_id, refresh_id, res));
                return res;
            },
            Err(e) => {
                proof {
                    assert(false);
                }
                return Err(e);
            },
        };
        let ghost k = choose|k: int| 0 <= k < pruned.len() && pruned[k] == challenge;
        proof {
            assert forall|i: int|
                0 <= i < pruned.len() && #[trigger] is_active_for(
                    pruned[i],
                    normalized@,
                    request.challenge_id,
                    now as int,
                ) implies pruned[i] == challenge by {
                if i != k {
                    assert(pruned[i].id != pruned[k].id);
                }
            }
        }
        let verdict = verify_signature(
            request.signature.as_str(),
            challenge.challenge_message.as_str(),
            address,
        );
        match verdict {
            Ok(true) => {},
            Ok(false) => {
                self.events.record_event(
                    EventType::FailedLogin,
                    None,
                    client_ip,
                    user_agent,
                    metadata.as_str(),
                    now,
                );
                let res: Result<LoginResponse, AppError> = Err(AppError::AuthError(AuthErrorKind::InvalidSignature));
                proof {
                    assert(rejected(*old(self), *self, pruned));
                    lemma_login_post_on_challenge(*old(self), *self, request.ethereum_address@, request.signature@, request.challenge_id, client_ip@, secret@, now as int, new_user_id, access_id, refresh_id, res, rr, challenge);
                }
                return res;
            },
            Err(e) => {
                self.events.record_event(
                    EventType::FailedLogin,
                    None,
                    client_ip,
                    user_agent,
                    metadata.as_str(),
                    now,
                );
                let res: Result<LoginResponse, AppError> = Err(e);
                proof {
                    assert(rejected(*old(self), *self, pruned));
                    assert(login_with_challenge(*old(self), *self, pruned, challenge, normalized@, address@, request.signature@, secret@, now as int, new_user_id, access_id, refresh_id, res));
                    lemma_login_post_on_challenge(*old(self), *self, request.ethereum_address@, request.signature@, request.challenge_id, client_ip@, secret@, now as int, new_user_id, access_id, refresh_id, res, rr, challenge);
                }
                return res;
            },
        }
        let ghost old_users = self.users@;
        let user: User = match self.users.get_user_by_eth_address(address) {
            Err(e) => {
                proof {
                    assert(false);
                }
                return Err(e);
            },
            Ok(Some(u)) => u,
            Ok(None) => {
                let input = UserInput { ethereum_address: normalized.clone(), metadata: String::new() };
                proof {
                    crate::address::lemma_normalize_idempotent(address@);
                }
                match self.users.create(&input, new_user_id, now) {
                    Ok(u) => u,
                    Err(e) => {
                        let res: Result<LoginResponse, AppError> = Err(e);
                        proof {
                            assert(!old_users_has_address(old_users, normalized@));
                            assert(login_with_challenge(*old(self), *self, pruned, challenge, normalized@, address@, request.signature@, secret@, now as int, new_user_id, access_id, refresh_id, res));
                    lemma_login_post_on_challenge(*old(self), *self, request.ethereum_address@, request.signature@, request.challenge_id, client_ip@, secret@, now as int, new_user_id, access_id, refresh_id, res, rr, challenge);
                        }
                        return res;
                    },
                }
            },
        };
        proof {
            crate::address::lemma_normalize_idempotent(address@);
        }
        let (access_token, refresh_token) = match issue_pair_at(
            user.id,
            normalized.as_str(),
            user.is_admin,
            secret,
            now,
            access_id,
            refresh_id,
        ) {
            Ok(pair) => pair,
            Err(e) => {
                proof {
                    assert(false);
                }
                return Err(e);
            },
        };
        if !self.challenges.mark_as_used(challenge.id) {
            proof {
                assert(false);
            }
            return Err(AppError::AuthError(AuthErrorKind::NoActiveChallenge));
        }
        proof {
            assert forall|i: int|
                0 <= i < self.challenges@.len() && #[trigger] self.challenges@[i].id
                    == request.challenge_id implies self.challenges@[i].used by {
                assert(self.challenges@[i] == consumed(pruned[i]));
            }
        }
        self.events.record_event(
            EventType::ChallengeUsed,
            None,
            client_ip,
            user_agent,
            metadata.as_str(),
            now,
        );
        self.events.record_event(
            EventType::Login,
            Some(user.id),
            client_ip,
            user_agent,
            metadata.as_str(),
            now,
        );
        assert(self.events@.subrange(0, old_events.len() as int) =~= old_events);
        let res: Result<LoginResponse, AppError> = Ok(
            LoginResponse {
                access_token,
                refresh_token,
                expires_in: ACCESS_TOKEN_SECS,
                user: UserInfo {
                    id: user.id,
                    ethereum_address: user.ethereum_address,
                    is_verified: user.is_verified,
                    is_admin: user.is_admin,
                },
            },
        );
        proof {
            let kk = old_events.len() as int;
            let resp = res->Ok_0;
            let n = normalized@;
            assert(self.challenges@.len() == pruned.len());
            assert(spent(self.challenges@, request.challenge_id));
            assert(self.events@.len() == kk + 2);
            assert(self.events@.subrange(0, kk) == old(self).events@);
            assert(self.events@[kk].event_type == EventType::ChallengeUsed);
            assert(self.events@[kk].user_id is None);
            assert(self.events@[kk + 1].event_type == EventType::Login);
            assert(self.events@[kk + 1].user_id == Some(resp.user.id));
            assert(resp.user.ethereum_address@ == n);
            if old(self).users.has_address(n) {
                assert(self.users@ == old(self).users@);
                assert(old(self).users@.contains(user));
                let j = choose|j: int| 0 <= j < old(self).users@.len() && old(self).users@[j] == user;
                assert(old(self).users@[j].ethereum_address@ == n);
            } else {
                assert(self.users@.drop_last() == old(self).users@);
            }
            assert(resp.access_token@ == hs256_token(
                token_claims_json(resp.user.id, n, resp.user.is_admin, now as int, now + ACCESS_TOKEN_SECS, decimal_spec(access_id as nat), ACCESS@),
                secret@,
            ));
            assert(login_success(*old(self), *self, pruned, normalized@, request.challenge_id, secret@, now as int, new_user_id, access_id, refresh_id, res->Ok_0));
            assert(login_with_challenge(*old(self), *self, pruned, challenge, normalized@, address@, request.signature@, secret@, now as int, new_user_id, access_id, refresh_id, res));
                    lemma_login_post_on_challenge(*old(self), *self, request.ethereum_address@, request.signature@, request.challenge_id, client_ip@, secret@, now as int, new_user_id, access_id, refresh_id, res, rr, challenge);
            assert(is_active_for(pruned[k], normalized@, request.challenge_id, now as int));
            assert(rate_post);
        }
        res
    }

    /// The same at the current time with random ids (a user created here gets a random id):
    /// the outcome of `login_post` at the clock's reading, or a `ServerError` that changes
    /// nothing when the clock reads outside the handled range.
    pub fn login(&mut self, request: &LoginRequest, client_ip: &str, user_agent: &str, secret: &str) -> (r:
        Result<LoginResponse, AppError>)
        requires
            old(self).wf(),
        ensures
            final(self).wf(),
            (exists|now: int, user_id: u128, access_id: u128, refresh_id: u128|
                valid_time(now) && access_id != refresh_id && #[trigger] login_post(
                    *old(self),
                    *final(self),
                    request.ethereum_address@,
                    request.signature@,
                    request.challenge_id,
                    client_ip@,
                    secret@,
                    now,
                    user_id,
                    access_id,
                    refresh_id,
                    r,
                )) || (r is Err && r->Err_0 is ServerError && *final(self) == *old(self)),
    {
        let now = current_time();
        if now < 0 || now > MAX_TIMESTAMP {
            return Err(AppError::ServerError(String::from_str("clock out of range")));
        }
        let user_id = new_uuid();
        let access_id = new_uuid();
        let drawn = new_uuid();
        let refresh_id = if drawn != access_id {
            drawn
        } else {
            assert(access_id ^ 1 != access_id) by (bit_vector);
            access_id ^ 1
        };
        self.login_at(request, client_ip, user_agent, secret, now, user_id, access_id, refresh_id)
    }
}

/// Once the challenge is found, the attempt's outcome on it decides the whole attempt.
proof fn lemma_login_post_on_challenge(
    old: AuthState,
    new: AuthState,
    address: Seq<char>,
    signature: Seq<char>,
    challenge_id: u128,
    client_ip: Seq<char>,
    secret: Seq<char>,
    now: int,
    new_user_id: u128,
    access_id: u128,
    refresh_id: u128,
    r: Result<LoginResponse, AppError>,
    rr: Result<(), AppError>,
    c: AuthChallenge,
)
    requires
        address.len() == IDENTITY_LEN && signature.len() == SIGNATURE_TEXT_LEN,
        rate_limit_post(
            old.rate_limits@,
            new.rate_limits@,
            client_ip,
            LOGIN_ACTION@,
            MAX_ATTEMPTS as int,
            WINDOW_SECS as int,
            now,
            rr,
        ),
        rr is Ok,
        normalize_spec(address) is Some,
        retained(old.challenges@, now).contains(c),
        is_active_for(c, normalize_spec(address)->0, challenge_id, now),
        forall|i: int|
            0 <= i < retained(old.challenges@, now).len() && #[trigger] is_active_for(
                retained(old.challenges@, now)[i],
                normalize_spec(address)->0,
                challenge_id,
                now,
            ) ==> retained(old.challenges@, now)[i] == c,
        login_with_challenge(
            old,
            new,
            retained(old.challenges@, now),
            c,
            normalize_spec(address)->0,
            address,
            signature,
            secret,
            now,
            new_user_id,
            access_id,
            refresh_id,
            r,
        ),
    ensures
        login_post(
            old,
            new,
            address,
            signature,
            challenge_id,
            client_ip,
            secret,
            now,
            new_user_id,
            access_id,
            refresh_id,
            r,
        ),
{
    let pruned = retained(old.challenges@, now);
    let k = choose|k: int| 0 <= k < pruned.len() && pruned[k] == c;
    assert(is_active_for(pruned[k], normalize_spec(address)->0, challenge_id, now));
}

proof fn lemma_retained_from(s: Seq<AuthChallenge>, now: int, k: int)
    requires
        0 <= k < retained(s, now).len(),
    ensures
        s.contains(retained(s, now)[k]),
    decreases s.len(),
{
    if s.len() > 0 {
        let r = retained(s.drop_last(), now);
        if k < r.len() {
            lemma_retained_from(s.drop_last(), now, k);
            let j = choose|j: int| 0 <= j < s.drop_last().len() && s.drop_last()[j] == r[k];
            assert(s[j] == r[k]);
        } else {
            assert(s[s.len() - 1] == retained(s, now)[k]);
        }
    }
}

/// A challenge is usable once: after a login has consumed challenge `challenge_id`, every
/// later attempt finds no active challenge under that id, whoever sends it and whenever, even
/// after expired challenges are deleted. So `login_at` answers a second attempt with
/// `NoActiveChallenge` (unless validation or the rate limit refuses it first).
pub proof fn lemma_challenge_single_use(
    s: Seq<AuthChallenge>,
    challenge_id: u128,
    address: Seq<char>,
    now: int,
)
    requires
        spent(s, challenge_id),
    ensures
        spent(retained(s, now), challenge_id),
        !exists|i: int|
            0 <= i < retained(s, now).len() && #[trigger] is_active_for(
                retained(s, now)[i],
                address,
                challenge_id,
                now,
            ),
{
    let r = retained(s, now);
    assert forall|i: int| 0 <= i < r.len() && #[trigger] r[i].id == challenge_id implies r[i].used by {
        lemma_retained_from(s, now, i);
        let j = choose|j: int| 0 <= j < s.len() && s[j] == r[i];
        assert(s[j].id == challenge_id);
    }
}

} // verus!
