use vstd::prelude::*;
use vstd::string::*;

use crate::address::{normalize_ethereum_address, normalize_spec, IDENTITY_LEN};
use crate::app_error::{AppError, AuthErrorKind};
use crate::clock::{current_time, format_utc, utc_text, valid_time, MAX_TIMESTAMP};
use crate::codec::{encode_hex, hex_encode_spec};
use crate::entropy::{new_uuid, random_nonce_bytes, NONCE_BYTES};

verus! {

/// How long a challenge can be answered, in seconds.
pub const CHALLENGE_LIFETIME_SECS: i64 = 300;

pub const MESSAGE_INTRO: &'static str = "Sign this message to verify ownership of this address ";

pub const MESSAGE_DOMAIN: &'static str = ": ";

pub const MESSAGE_NONCE: &'static str = ". This is a one-time nonce: ";

pub const MESSAGE_TIME: &'static str = ". Timestamp: ";

/// A one-time challenge that an identity's holder signs to log in.
#[derive(Debug)]
pub struct AuthChallenge {
    pub id: u128,
    pub ethereum_address: String,
    pub nonce: String,
    pub challenge_message: String,
    pub expires_at: i64,
    pub used: bool,
    pub created_at: i64,
    pub domain: String,
    pub chal_timestamp: i64,
}

/// A request for a challenge.
#[derive(Debug)]
pub struct ChallengeRequest {
    pub ethereum_address: String,
}

/// What a caller gets back to display for signing.
#[derive(Debug)]
pub struct ChallengeResponse {
    pub challenge_id: u128,
    pub message: String,
    pub expires_at: i64,
}

/// The message that a challenge asks to sign.
pub open spec fn challenge_message_spec(
    address: Seq<char>,
    domain: Seq<char>,
    nonce: Seq<char>,
    timestamp: int,
) -> Seq<char> {
    MESSAGE_INTRO@ + address + MESSAGE_DOMAIN@ + domain + MESSAGE_NONCE@ + nonce + MESSAGE_TIME@
        + utc_text(timestamp)
}

/// Whether challenge `c` can still be answered by `address` for `id` at time `now`.
pub open spec fn is_active_for(c: AuthChallenge, address: Seq<char>, id: u128, now: int) -> bool {
    &&& c.id == id
    &&& c.ethereum_address@ == address
    &&& !c.used
    &&& c.expires_at > now
}

/// `c` once it has been answered.
pub open spec fn consumed(c: AuthChallenge) -> AuthChallenge {
    AuthChallenge { used: true, ..c }
}

/// The record that creating a challenge at `now` stores.
pub open spec fn new_challenge_spec(
    id: u128,
    address: Seq<char>,
    domain: Seq<char>,
    nonce_bytes: Seq<u8>,
    now: int,
    c: AuthChallenge,
) -> bool {
    &&& c.id == id
    &&& c.ethereum_address@ == address
    &&& c.nonce@ == hex_encode_spec(nonce_bytes)
    &&& c.challenge_message@ == challenge_message_spec(address, domain, c.nonce@, now)
    &&& c.expires_at == now + CHALLENGE_LIFETIME_SECS
    &&& !c.used
    &&& c.created_at == now
    &&& c.domain@ == domain
    &&& c.chal_timestamp == now
}

impl ChallengeRequest {
    /// The identity must be exactly 42 characters long.
    pub fn validate(&self) -> (r: bool)
        ensures
            r == (self.ethereum_address@.len() == IDENTITY_LEN),
    {
        self.ethereum_address.as_str().unicode_len() == IDENTITY_LEN
    }
}

impl AuthChallenge {
    /// A copy of this record.
    pub fn duplicate(&self) -> (r: AuthChallenge)
        ensures
            r == *self,
    {
        AuthChallenge {
            id: self.id,
            ethereum_address: self.ethereum_address.clone(),
            nonce: self.nonce.clone(),
            challenge_message: self.challenge_message.clone(),
            expires_at: self.expires_at,
            used: self.used,
            created_at: self.created_at,
            domain: self.domain.clone(),
            chal_timestamp: self.chal_timestamp,
        }
    }

    /// Not used yet and not expired at `now`.
    pub fn is_valid(&self, now: i64) -> (r: bool)
        ensures
            r == (!self.used && self.expires_at > now),
    {
        !self.used && self.expires_at > now
    }

    /// What the caller displays for signing.
    pub fn response(&self) -> (r: ChallengeResponse)
        ensures
            r.challenge_id == self.id,
            r.message == self.challenge_message,
            r.expires_at == self.expires_at,
    {
        ChallengeResponse {
            challenge_id: self.id,
            message: self.challenge_message.clone(),
            expires_at: self.expires_at,
        }
    }
}

/// A fresh nonce: 16 random bytes in hex.
pub fn nonce_gen() -> (r: String)
    ensures
        exists|b: Seq<u8>| b.len() == NONCE_BYTES && r@ == #[trigger] hex_encode_spec(b),
{
    let bytes = random_nonce_bytes();
    encode_hex(bytes.as_slice())
}

/// Builds the message of a challenge for `address` on `domain`.
pub fn create_siwe_message(address: &str, domain: &str, nonce: &str, timestamp: i64) -> (r: String)
    requires
        valid_time(timestamp as int),
    ensures
        r@ == challenge_message_spec(address@, domain@, nonce@, timestamp as int),
{
    let mut m = String::from_str(MESSAGE_INTRO);
    m.append(address);
    m.append(MESSAGE_DOMAIN);
    m.append(domain);
    m.append(MESSAGE_NONCE);
    m.append(nonce);
    m.append(MESSAGE_TIME);
    let t = format_utc(timestamp);
    m.append(t.as_str());
    m
}

/// The rows that a cleanup at `now` keeps: those not yet expired, in order.
pub open spec fn retained(s: Seq<AuthChallenge>, now: int) -> Seq<AuthChallenge>
    decreases s.len(),
{
    if s.len() == 0 {
        s
    } else {
        let r = retained(s.drop_last(), now);
        if s.last().expires_at < now {
            r
        } else {
            r.push(s.last())
        }
    }
}

/// What looking up challenge `id` of `address` at `now` among `rows` gives: an invalid
/// identity fails; otherwise the active challenge, or `None` when there is none.
pub open spec fn find_active_post(
    rows: Seq<AuthChallenge>,
    address: Seq<char>,
    id: u128,
    now: int,
    r: Result<Option<AuthChallenge>, AppError>,
) -> bool {
    match normalize_spec(address) {
        None => r == Err::<Option<AuthChallenge>, AppError>(
            AppError::AuthError(AuthErrorKind::InvalidIdentity),
        ),
        Some(n) => {
            &&& r is Ok
            &&& (r->Ok_0 is Some <==> exists|i: int|
                0 <= i < rows.len() && #[trigger] is_active_for(rows[i], n, id, now))
            &&& (r->Ok_0 matches Some(c) ==> rows.contains(c) && is_active_for(c, n, id, now))
        },
    }
}

/// The stored challenges. Each id appears once.
pub struct ChallengeStore {
    rows: Vec<AuthChallenge>,
}

impl View for ChallengeStore {
    type V = Seq<AuthChallenge>;

    closed spec fn view(&self) -> Seq<AuthChallenge> {
        self.rows@
    }
}

impl ChallengeStore {
    pub open spec fn wf(&self) -> bool {
        forall|i: int, j: int|
            0 <= i < self@.len() && 0 <= j < self@.len() && i != j ==> #[trigger] self@[i].id
                != #[trigger] self@[j].id
    }

    pub open spec fn has_id(&self, id: u128) -> bool {
        exists|i: int| 0 <= i < self@.len() && #[trigger] self@[i].id == id
    }

    pub fn new() -> (r: ChallengeStore)
        ensures
            r@ == Seq::<AuthChallenge>::empty(),
            r.wf(),
    {
        ChallengeStore { rows: Vec::new() }
    }

    pub fn len(&self) -> (r: usize)
        ensures
            r == self@.len(),
    {
        self.rows.len()
    }

    fn index_of(&self, id: u128) -> (r: Option<usize>)
        ensures
            match r {
                Some(i) => i < self@.len() && self@[i as int].id == id,
                None => !self.has_id(id),
            },
    {
        let mut i: usize = 0;
        while i < self.rows.len()
            invariant
                0 <= i <= self@.len(),
                self@ == self.rows@,
                forall|j: int| 0 <= j < i ==> #[trigger] self@[j].id != id,
            decreases self@.len() - i,
        {
            if self.rows[i].id == id {
                return Some(i);
            }
            i = i + 1;
        }
        None
    }

    /// Stores a new challenge for `address` on `domain`, created at `now`, with id `id` and a
    /// nonce written from `nonce_bytes`. Fails on an invalid identity and on an id that is
    /// already stored.
    pub fn create_challenge_at(
        &mut self,
        address: &str,
        domain: &str,
        now: i64,
        id: u128,
        nonce_bytes: &[u8],
    ) -> (r: Result<AuthChallenge, AppError>)
        requires
            old(self).wf(),
            valid_time(now as int),
        ensures
            final(self).wf(),
            match normalize_spec(address@) {
                None => r == Err::<AuthChallenge, AppError>(
                    AppError::AuthError(AuthErrorKind::InvalidIdentity),
                ) && final(self)@ == old(self)@,
                Some(n) => if old(self).has_id(id) {
                    r is Err && r->Err_0 is DatabaseError && final(self)@ == old(self)@
                } else {
                    r matches Ok(c) && new_challenge_spec(id, n, domain@, nonce_bytes@, now as int, c)
                        && final(self)@ == old(self)@.push(c)
                },
            },
    {
        let normalized = match normalize_ethereum_address(address) {
            Ok(a) => a,
            Err(e) => {
                return Err(e);
            },
        };
        if self.index_of(id).is_some() {
            return Err(AppError::DatabaseError(String::from_str("duplicate challenge id")));
        }
        let nonce = encode_hex(nonce_bytes);
        let message = create_siwe_message(normalized.as_str(), domain, nonce.as_str(), now);
        let c = AuthChallenge {
            id,
            ethereum_address: normalized,
            nonce,
            challenge_message: message,
            expires_at: now + CHALLENGE_LIFETIME_SECS,
            used: false,
            created_at: now,
            domain: String::from_str(domain),
            chal_timestamp: now,
        };
        let stored = c.duplicate();
        self.rows.push(stored);
        Ok(c)
    }

    /// Stores a new challenge for `address` on `domain`, at the current time, with a random id
    /// and a random 16-byte nonce.
    pub fn create_challenge_for_addr(&mut self, address: &str, domain: &str) -> (r: Result<
        AuthChallenge,
        AppError,
    >)
        requires
            old(self).wf(),
        ensures
            final(self).wf(),
            normalize_spec(address@) is None ==> r == Err::<AuthChallenge, AppError>(
                AppError::AuthError(AuthErrorKind::InvalidIdentity),
            ),
            r is Ok ==> final(self)@ == old(self)@.push(r->Ok_0) && exists|now: int, nb: Seq<u8>|
                valid_time(now) && nb.len() == NONCE_BYTES && #[trigger] new_challenge_spec(
                    r->Ok_0.id,
                    normalize_spec(address@)->0,
                    domain@,
                    nb,
                    now,
                    r->Ok_0,
                ),
            r is Err ==> final(self)@ == old(self)@,
            r matches Err(e) ==> e == AppError::AuthError(AuthErrorKind::InvalidIdentity)
                || e is DatabaseError || e is ServerError,
    {
        if let Err(e) = normalize_ethereum_address(address) {
            return Err(e);
        }
        let now = current_time();
        if now < 0 || now > MAX_TIMESTAMP {
            return Err(AppError::ServerError(String::from_str("clock out of range")));
        }
        let id = new_uuid();
        let nonce = random_nonce_bytes();
        self.create_challenge_at(address, domain, now, id, nonce.as_slice())
    }

    /// The challenge `challenge_id` of `address` if it is unused and not expired at `now`.
    /// Fails only on an invalid identity; absence is `Ok(None)`.
    pub fn find_active_challenge_at(&self, address: &str, challenge_id: u128, now: i64) -> (r:
        Result<Option<AuthChallenge>, AppError>)
        requires
            self.wf(),
        ensures
            find_active_post(self@, address@, challenge_id, now as int, r),
            normalize_spec(address@) is None ==> r == Err::<Option<AuthChallenge>, AppError>(
                AppError::AuthError(AuthErrorKind::InvalidIdentity),
            ),
            normalize_spec(address@) is Some ==> r is Ok,
            r is Ok ==> (r->Ok_0 is Some <==> exists|i: int|
                0 <= i < self@.len() && #[trigger] is_active_for(
                    self@[i],
                    normalize_spec(address@)->0,
                    challenge_id,
                    now as int,
                )),
            r matches Ok(Some(c)) ==> self@.contains(c) && is_active_for(
                c,
                normalize_spec(address@)->0,
                challenge_id,
                now as int,
            ),
    {
        let normalized = match normalize_ethereum_address(address) {
            Ok(a) => a,
            Err(e) => {
                return Err(e);
            },
        };
        let ghost n = normalize_spec(address@)->0;
        assert(n == normalized@);
        match self.index_of(challenge_id) {
            None => {
                assert forall|j: int| 0 <= j < self@.len() implies !#[trigger] is_active_for(
                    self@[j],
                    normalized@,
                    challenge_id,
                    now as int,
                ) by {
                    assert(!(self@[j].id == challenge_id));
                }
                assert(!exists|j: int|
                    0 <= j < self@.len() && #[trigger] is_active_for(
                        self@[j],
                        normalized@,
                        challenge_id,
                        now as int,
                    ));
                Ok(None)
            },
            Some(i) => {
                let c = &self.rows[i];
                if c.ethereum_address == normalized && !c.used && c.expires_at > now {
                    let d = c.duplicate();
                    assert(d == self@[i as int]);
                    assert(is_active_for(self@[i as int], normalized@, challenge_id, now as int));
                    assert(self@.contains(d));
                    Ok(Some(d))
                } else {
                    assert forall|j: int| 0 <= j < self@.len() implies !#[trigger] is_active_for(
                        self@[j],
                        normalized@,
                        challenge_id,
                        now as int,
                    ) by {
                        if j != i {
                            assert(self@[j].id != self@[i as int].id);
                        }
                    }
                    assert(!exists|j: int|
                        0 <= j < self@.len() && #[trigger] is_active_for(
                            self@[j],
                            normalized@,
                            challenge_id,
                            now as int,
                        ));
                    Ok(None)
                }
            },
        }
    }

    /// The same lookup at the current time: the lookup of `find_active_challenge_at` at the
    /// clock's reading.
    pub fn find_active_challenge(&self, address: &str, challenge_id: u128) -> (r: Result<
        Option<AuthChallenge>,
        AppError,
    >)
        requires
            self.wf(),
        ensures
            exists|now: int| #[trigger] find_active_post(self@, address@, challenge_id, now, r),
            normalize_spec(address@) is Some ==> r is Ok,
    {
        let now = current_time();
        self.find_active_challenge_at(address, challenge_id, now)
    }

    /// Marks challenge `challenge_id` used. Returns whether this call did it, that is whether
    /// the challenge was stored and unused: of two calls on one challenge at most one returns
    /// `true`.
    pub fn mark_as_used(&mut self, challenge_id: u128) -> (r: bool)
        requires
            old(self).wf(),
        ensures
            final(self).wf(),
            final(self)@.len() == old(self)@.len(),
            forall|i: int|
                0 <= i < old(self)@.len() ==> #[trigger] final(self)@[i] == if old(self)@[i].id
                    == challenge_id {
                    consumed(old(self)@[i])
                } else {
                    old(self)@[i]
                },
            r == exists|i: int|
                0 <= i < old(self)@.len() && #[trigger] old(self)@[i].id == challenge_id
                    && !old(self)@[i].used,
            forall|address: Seq<char>, now: int, i: int|
                0 <= i < final(self)@.len() ==> !#[trigger] is_active_for(
                    final(self)@[i],
                    address,
                    challenge_id,
                    now,
                ),
    {
        match self.index_of(challenge_id) {
            None => false,
            Some(i) => {
                let was_used = self.rows[i].used;
                self.rows[i].used = true;
                proof {
                    assert forall|j: int| 0 <= j < old(self)@.len() && j != i implies old(
                        self,
                    )@[j].id != challenge_id by {
                        assert(old(self)@[j].id != old(self)@[i as int].id);
                    }
                    assert(final(self)@[i as int] == consumed(old(self)@[i as int]));
                }
                !was_used
            },
        }
    }

    /// Deletes the challenges that expired before `now` and returns how many went.
    pub fn cleanup_expired_at(&mut self, now: i64) -> (r: u64)
        requires
            old(self).wf(),
        ensures
            final(self).wf(),
            final(self)@ == retained(old(self)@, now as int),
            forall|c: AuthChallenge|
                #[trigger] final(self)@.contains(c) <==> old(self)@.contains(c) && c.expires_at
                    >= now,
            r == old(self)@.len() - final(self)@.len(),
    {
        let ghost old_rows = self@;
        let mut kept: Vec<AuthChallenge> = Vec::new();
        let mut removed: u64 = 0;
        let mut i: usize = 0;
        while i < self.rows.len()
            invariant
                0 <= i <= old_rows.len(),
                self@ == old_rows,
                self.rows@ == old_rows,
                self.wf(),
                kept@ == retained(old_rows.subrange(0, i as int), now as int),
                forall|k: int|
                    0 <= k < kept@.len() ==> exists|j: int|
                        0 <= j < i && #[trigger] old_rows[j] == #[trigger] kept@[k],
                forall|j: int|
                    0 <= j < i && old_rows[j].expires_at >= now ==> #[trigger] kept@.contains(
                        old_rows[j],
                    ),
                forall|k: int| 0 <= k < kept@.len() ==> #[trigger] kept@[k].expires_at >= now,
                forall|a: int, b: int|
                    0 <= a < kept@.len() && 0 <= b < kept@.len() && a != b ==> #[trigger] kept@[a].id
                        != #[trigger] kept@[b].id,
                removed == i - kept@.len(),
            decreases old_rows.len() - i,
        {
            let ghost before = kept@;
            assert(old_rows.subrange(0, i as int + 1).drop_last() =~= old_rows.subrange(0, i as int));
            if self.rows[i].expires_at < now {
                removed = removed + 1;
            } else {
                let c = self.rows[i].duplicate();
                proof {
                    assert forall|k: int| 0 <= k < before.len() implies before[k].id != c.id by {
                        let j = choose|j: int| 0 <= j < i && #[trigger] old_rows[j] == before[k];
                        assert(old_rows[j].id != old_rows[i as int].id);
                    }
                }
                kept.push(c);
                proof {
                    assert forall|j: int| 0 <= j < i && old_rows[j].expires_at >= now implies #[trigger] kept@.contains(old_rows[j]) by {
                        assert(before.contains(old_rows[j]));
                        let k = choose|k: int| 0 <= k < before.len() && before[k] == old_rows[j];
                        assert(kept@[k] == old_rows[j]);
                    }
                    assert(kept@[before.len() as int] == old_rows[i as int]);
                    assert forall|k: int| 0 <= k < kept@.len() implies exists|j: int|
                        0 <= j < i + 1 && #[trigger] old_rows[j] == #[trigger] kept@[k] by {
                        if k < before.len() {
                            let j = choose|j: int| 0 <= j < i && #[trigger] old_rows[j] == before[k];
                            assert(old_rows[j] == kept@[k]);
                        } else {
                            assert(old_rows[i as int] == kept@[k]);
                        }
                    }
                }
            }
            i = i + 1;
        }
        assert(old_rows.subrange(0, old_rows.len() as int) =~= old_rows);
        self.rows = kept;
        proof {
            assert forall|c: AuthChallenge| #[trigger] self@.contains(c) <==> old_rows.contains(c)
                && c.expires_at >= now by {
                if self@.contains(c) {
                    let k = choose|k: int| 0 <= k < self@.len() && self@[k] == c;
                    let j = choose|j: int| 0 <= j < old_rows.len() && #[trigger] old_rows[j] == self@[k];
                    assert(self@[k].expires_at >= now);
                }
                if old_rows.contains(c) && c.expires_at >= now {
                    let j = choose|j: int| 0 <= j < old_rows.len() && old_rows[j] == c;
                    assert(self@.contains(old_rows[j]));
                }
            }
        }
        removed
    }

    /// The same cleanup at the current time.
    pub fn cleanup_expired(&mut self) -> (r: u64)
        requires
            old(self).wf(),
        ensures
            final(self).wf(),
            exists|now: int| #[trigger] retained(old(self)@, now) == final(self)@,
            r == old(self)@.len() - final(self)@.len(),
    {
        let now = current_time();
        self.cleanup_expired_at(now)
    }
}

/// Once its expiry has passed, a stored challenge is never found active again, whether or not
/// it was used: `find_active_challenge_at` returns `None` for it.
pub proof fn lemma_expired_never_active(
    store: ChallengeStore,
    address: Seq<char>,
    challenge_id: u128,
    now: int,
)
    requires
        store.wf(),
        exists|i: int|
            0 <= i < store@.len() && #[trigger] store@[i].id == challenge_id
                && store@[i].expires_at <= now,
    ensures
        !exists|i: int|
            0 <= i < store@.len() && #[trigger] is_active_for(store@[i], address, challenge_id, now),
{
    let k = choose|k: int|
        0 <= k < store@.len() && #[trigger] store@[k].id == challenge_id && store@[k].expires_at
            <= now;
    assert forall|i: int| 0 <= i < store@.len() implies !#[trigger] is_active_for(
        store@[i],
        address,
        challenge_id,
        now,
    ) by {
        if i != k {
            assert(store@[i].id != store@[k].id);
        }
    }
}

} // verus!
