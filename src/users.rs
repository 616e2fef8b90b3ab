use vstd::prelude::*;
use vstd::string::*;

use crate::address::{normalize_ethereum_address, normalize_spec};
use crate::app_error::{AppError, AuthErrorKind};

verus! {

/// Metadata that a user gets when none is given: an empty JSON object.
pub const EMPTY_METADATA: &'static str = "{}";

/// An account, keyed by its normalized identity.
#[derive(Debug)]
pub struct User {
    pub id: u128,
    pub ethereum_address: String,
    pub created_at: i64,
    pub updated_at: i64,
    pub is_active: bool,
    pub is_admin: bool,
    pub is_verified: bool,
    pub metadata: Option<String>,
}

/// What creating a user takes. `metadata` is JSON text; empty means none.
#[derive(Debug)]
pub struct UserInput {
    pub ethereum_address: String,
    pub metadata: String,
}

/// What updating a user takes.
#[derive(Debug)]
pub struct UserInputUpdate {
    pub email: String,
    pub username: String,
    pub is_active: bool,
    pub is_admin: bool,
    pub metadata: Option<String>,
}

impl User {
    pub fn duplicate(&self) -> (r: User)
        ensures
            r == *self,
    {
        User {
            id: self.id,
            ethereum_address: self.ethereum_address.clone(),
            created_at: self.created_at,
            updated_at: self.updated_at,
            is_active: self.is_active,
            is_admin: self.is_admin,
            is_verified: self.is_verified,
            metadata: match &self.metadata {
                Some(m) => Some(m.clone()),
                None => None,
            },
        }
    }
}

/// The accounts. Ids and identities are unique.
pub struct UserStore {
    users: Vec<User>,
}

impl View for UserStore {
    type V = Seq<User>;

    closed spec fn view(&self) -> Seq<User> {
        self.users@
    }
}

impl UserStore {
    pub open spec fn wf(&self) -> bool {
        forall|i: int, j: int|
            0 <= i < self@.len() && 0 <= j < self@.len() && i != j ==> #[trigger] self@[i].id
                != #[trigger] self@[j].id && self@[i].ethereum_address@
                != self@[j].ethereum_address@
    }

    pub open spec fn has_id(&self, id: u128) -> bool {
        exists|i: int| 0 <= i < self@.len() && #[trigger] self@[i].id == id
    }

    pub open spec fn has_address(&self, address: Seq<char>) -> bool {
        exists|i: int| 0 <= i < self@.len() && #[trigger] self@[i].ethereum_address@ == address
    }

    pub fn new() -> (r: UserStore)
        ensures
            r@ == Seq::<User>::empty(),
            r.wf(),
    {
        UserStore { users: Vec::new() }
    }

    fn position_by_id(&self, id: u128) -> (r: Option<usize>)
        ensures
            match r {
                Some(i) => i < self@.len() && self@[i as int].id == id,
                None => !self.has_id(id),
            },
    {
        let mut i: usize = 0;
        while i < self.users.len()
            invariant
                0 <= i <= self@.len(),
                self@ == self.users@,
                forall|j: int| 0 <= j < i ==> #[trigger] self@[j].id != id,
            decreases self@.len() - i,
        {
            if self.users[i].id == id {
                return Some(i);
            }
            i = i + 1;
        }
        None
    }

    fn position_by_address(&self, address: &String) -> (r: Option<usize>)
        ensures
            match r {
                Some(i) => i < self@.len() && self@[i as int].ethereum_address@ == address@,
                None => !self.has_address(address@),
            },
    {
        let mut i: usize = 0;
        while i < self.users.len()
            invariant
                0 <= i <= self@.len(),
                self@ == self.users@,
                forall|j: int| 0 <= j < i ==> #[trigger] self@[j].ethereum_address@ != address@,
            decreases self@.len() - i,
        {
            if self.users[i].ethereum_address == *address {
                return Some(i);
            }
            i = i + 1;
        }
        None
    }

    /// The user whose identity is `address` once normalized.
    pub fn get_user_by_eth_address(&self, address: &str) -> (r: Result<Option<User>, AppError>)
        requires
            self.wf(),
        ensures
            match normalize_spec(address@) {
                None => r == Err::<Option<User>, AppError>(
                    AppError::AuthError(AuthErrorKind::InvalidIdentity),
                ),
                Some(n) => r matches Ok(o) && (o is Some <==> self.has_address(n)) && (o matches Some(
                    u,
                ) ==> self@.contains(u) && u.ethereum_address@ == n),
            },
    {
        let normalized = match normalize_ethereum_address(address) {
            Ok(a) => a,
            Err(e) => {
                return Err(e);
            },
        };
        match self.position_by_address(&normalized) {
            Some(i) => {
                let u = self.users[i].duplicate();
                assert(self@[i as int] == u);
                Ok(Some(u))
            },
            None => Ok(None),
        }
    }

    /// The user with id `user_id`.
    pub fn get_user_by_id(&self, user_id: u128) -> (r: Option<User>)
        ensures
            r is Some <==> self.has_id(user_id),
            r matches Some(u) ==> self@.contains(u) && u.id == user_id,
    {
        match self.position_by_id(user_id) {
            Some(i) => {
                let u = self.users[i].duplicate();
                assert(self@[i as int] == u);
                Some(u)
            },
            None => None,
        }
    }

    /// Creates an active, unverified, non-admin user for the normalized identity of `input`,
    /// with id `id`, at `now`. Empty metadata becomes `{}`. Fails on an invalid identity and on
    /// an id or identity that is already stored.
    pub fn create(&mut self, user_input: &UserInput, id: u128, now: i64) -> (r: Result<User, AppError>)
        requires
            old(self).wf(),
        ensures
            final(self).wf(),
            match normalize_spec(user_input.ethereum_address@) {
                None => r == Err::<User, AppError>(
                    AppError::AuthError(AuthErrorKind::InvalidIdentity),
                ) && final(self)@ == old(self)@,
                Some(n) => if old(self).has_id(id) || old(self).has_address(n) {
                    r is Err && r->Err_0 is DatabaseError && final(self)@ == old(self)@
                } else {
                    r matches Ok(u) && final(self)@ == old(self)@.push(u) && u.id == id
                        && u.ethereum_address@ == n && u.created_at == now && u.updated_at == now
                        && u.is_active && !u.is_admin && !u.is_verified && u.metadata is Some && u.metadata->0@ == (
                    if user_input.metadata@.len() == 0 {
                        EMPTY_METADATA@
                    } else {
                        user_input.metadata@
                    })
                },
            },
    {
        let normalized = match normalize_ethereum_address(user_input.ethereum_address.as_str()) {
            Ok(a) => a,
            Err(e) => {
                return Err(e);
            },
        };
        if self.position_by_id(id).is_some() || self.position_by_address(&normalized).is_some() {
            return Err(AppError::DatabaseError(String::from_str("duplicate user")));
        }
        let metadata = if user_input.metadata.as_str().unicode_len() == 0 {
            String::from_str(EMPTY_METADATA)
        } else {
            user_input.metadata.clone()
        };
        let u = User {
            id,
            ethereum_address: normalized,
            created_at: now,
            updated_at: now,
            is_active: true,
            is_admin: false,
            is_verified: false,
            metadata: Some(metadata),
        };
        self.users.push(u.duplicate());
        proof {
            assert forall|i: int, j: int|
                0 <= i < self@.len() && 0 <= j < self@.len() && i != j implies #[trigger] self@[i].id
                != #[trigger] self@[j].id && self@[i].ethereum_address@
                != self@[j].ethereum_address@ by {
                if i < old(self)@.len() && j < old(self)@.len() {
                    assert(self@[i] == old(self)@[i] && self@[j] == old(self)@[j]);
                } else if i < old(self)@.len() {
                    assert(self@[i] == old(self)@[i]);
                } else {
                    assert(self@[j] == old(self)@[j]);
                }
            }
        }
        Ok(u)
    }

    /// Sets the active and admin flags and the metadata (`{}` when none is given) of user
    /// `user_id`, at `now`. Fails when there is no such user.
    pub fn update_user(&mut self, user_id: u128, user_input: &UserInputUpdate, now: i64) -> (r:
        Result<User, AppError>)
        requires
            old(self).wf(),
        ensures
            final(self).wf(),
            !old(self).has_id(user_id) ==> r is Err && r->Err_0 is DatabaseError && final(self)@
                == old(self)@,
            old(self).has_id(user_id) ==> r is Ok,
            r matches Ok(u) ==> exists|i: int|
                0 <= i < old(self)@.len() && #[trigger] old(self)@[i].id == user_id && final(self)@ == old(self)@.update(i, u) && u.id == user_id && u.ethereum_address
                    == old(self)@[i].ethereum_address && u.created_at == old(self)@[i].created_at
                    && u.is_verified == old(self)@[i].is_verified && u.updated_at == now
                    && u.is_active == user_input.is_active && u.is_admin == user_input.is_admin
                    && u.metadata is Some && u.metadata->0@ == match user_input.metadata {
                    Some(m) => m@,
                    None => EMPTY_METADATA@,
                },
    {
        let i = match self.position_by_id(user_id) {
            Some(i) => i,
            None => {
                return Err(AppError::DatabaseError(String::from_str("user not found")));
            },
        };
        let mut u = self.users[i].duplicate();
        u.is_active = user_input.is_active;
        u.is_admin = user_input.is_admin;
        u.metadata = match &user_input.metadata {
            Some(m) => Some(m.clone()),
            None => Some(String::from_str(EMPTY_METADATA)),
        };
        u.updated_at = now;
        self.users[i] = u.duplicate();
        proof {
            assert forall|a: int, b: int|
                0 <= a < self@.len() && 0 <= b < self@.len() && a != b implies #[trigger] self@[a].id
                != #[trigger] self@[b].id && self@[a].ethereum_address@
                != self@[b].ethereum_address@ by {
                assert(old(self)@[a].id != old(self)@[b].id);
            }
        }
        Ok(u)
    }
}

} // verus!
