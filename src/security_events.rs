use vstd::prelude::*;
use vstd::string::*;

verus! {

/// What a security event records.
#[derive(Debug, Clone, Copy, PartialEq, Eq, Structural)]
pub enum EventType {
    Login,
    FailedLogin,
    ChallengeCreated,
    ChallengeUsed,
    WalletConnected,
    WalletDisconnected,
    AccountLocked,
    AccountUnlocked,
}

/// An audit record. `user_id` is absent for events before authentication.
#[derive(Debug)]
pub struct SecurityEvent {
    pub id: u128,
    pub user_id: Option<u128>,
    pub event_type: EventType,
    pub timestamp: i64,
    pub client_ip: String,
    pub user_agent: String,
    pub metadata: String,
}

/// A revoked token.
#[derive(Debug)]
pub struct BlacklistEntry {
    pub id: u128,
    pub user_id: u128,
    pub jti: String,
    pub issued_at: i64,
    pub expires_at: i64,
    pub blacklisted_at: i64,
    pub reason: String,
}

/// The events of `s` that belong to `user_id`, in order.
pub open spec fn events_of_user(s: Seq<SecurityEvent>, user_id: u128) -> Seq<SecurityEvent>
    decreases s.len(),
{
    if s.len() == 0 {
        s
    } else {
        let r = events_of_user(s.drop_last(), user_id);
        if s.last().user_id == Some(user_id) {
            r.push(s.last())
        } else {
            r
        }
    }
}

/// The events of `s` of type `event_type`, in order.
pub open spec fn events_of_type(s: Seq<SecurityEvent>, event_type: EventType) -> Seq<SecurityEvent>
    decreases s.len(),
{
    if s.len() == 0 {
        s
    } else {
        let r = events_of_type(s.drop_last(), event_type);
        if s.last().event_type == event_type {
            r.push(s.last())
        } else {
            r
        }
    }
}

impl SecurityEvent {
    pub fn duplicate(&self) -> (r: SecurityEvent)
        ensures
            r == *self,
    {
        SecurityEvent {
            id: self.id,
            user_id: self.user_id,
            event_type: self.event_type,
            timestamp: self.timestamp,
            client_ip: self.client_ip.clone(),
            user_agent: self.user_agent.clone(),
            metadata: self.metadata.clone(),
        }
    }
}

/// The append-only audit log.
pub struct SecurityLog {
    events: Vec<SecurityEvent>,
}

impl View for SecurityLog {
    type V = Seq<SecurityEvent>;

    closed spec fn view(&self) -> Seq<SecurityEvent> {
        self.events@
    }
}

impl SecurityLog {
    pub fn new() -> (r: SecurityLog)
        ensures
            r@ == Seq::<SecurityEvent>::empty(),
    {
        SecurityLog { events: Vec::new() }
    }

    /// Appends an event of `event_type` at `now`; its id is its position in the log.
    pub fn record_event(
        &mut self,
        event_type: EventType,
        user_id: Option<u128>,
        client_ip: &str,
        user_agent: &str,
        metadata: &str,
        now: i64,
    )
        ensures
            final(self)@.len() == old(self)@.len() + 1,
            final(self)@.drop_last() == old(self)@,
            final(self)@.last().id == old(self)@.len(),
            final(self)@.last().event_type == event_type,
            final(self)@.last().user_id == user_id,
            final(self)@.last().timestamp == now,
            final(self)@.last().client_ip@ == client_ip@,
            final(self)@.last().user_agent@ == user_agent@,
            final(self)@.last().metadata@ == metadata@,
    {
        let id = self.events.len() as u128;
        self.events.push(
            SecurityEvent {
                id,
                user_id,
                event_type,
                timestamp: now,
                client_ip: String::from_str(client_ip),
                user_agent: String::from_str(user_agent),
                metadata: String::from_str(metadata),
            },
        );
        assert(self@.drop_last() =~= old(self)@);
    }

    /// The events of `user_id`, oldest first.
    pub fn get_events_for_user(&self, user_id: u128) -> (r: Vec<SecurityEvent>)
        ensures
            r@ == events_of_user(self@, user_id),
    {
        let mut out: Vec<SecurityEvent> = Vec::new();
        let mut i: usize = 0;
        while i < self.events.len()
            invariant
                0 <= i <= self@.len(),
                self@ == self.events@,
                out@ == events_of_user(self@.subrange(0, i as int), user_id),
            decreases self@.len() - i,
        {
            assert(self@.subrange(0, i as int + 1).drop_last() =~= self@.subrange(0, i as int));
            assert(self@.subrange(0, i as int + 1).last() == self@[i as int]);
            let matched = match self.events[i].user_id {
                Some(u) => u == user_id,
                None => false,
            };
            if matched {
                out.push(self.events[i].duplicate());
            }
            i = i + 1;
        }
        assert(self@.subrange(0, self@.len() as int) =~= self@);
        out
    }

    /// The events of type `event_type`, oldest first.
    pub fn get_events_by_type(&self, event_type: EventType) -> (r: Vec<SecurityEvent>)
        ensures
            r@ == events_of_type(self@, event_type),
    {
        let mut out: Vec<SecurityEvent> = Vec::new();
        let mut i: usize = 0;
        while i < self.events.len()
            invariant
                0 <= i <= self@.len(),
                self@ == self.events@,
                out@ == events_of_type(self@.subrange(0, i as int), event_type),
            decreases self@.len() - i,
        {
            assert(self@.subrange(0, i as int + 1).drop_last() =~= self@.subrange(0, i as int));
            assert(self@.subrange(0, i as int + 1).last() == self@[i as int]);
            let matched = self.events[i].event_type == event_type;
            if matched {
                out.push(self.events[i].duplicate());
            }
            i = i + 1;
        }
        assert(self@.subrange(0, self@.len() as int) =~= self@);
        out
    }

    /// Every event, oldest first.
    pub fn get_all_events(&self) -> (r: Vec<SecurityEvent>)
        ensures
            r@ == self@,
    {
        let mut out: Vec<SecurityEvent> = Vec::new();
        let mut i: usize = 0;
        while i < self.events.len()
            invariant
                0 <= i <= self@.len(),
                self@ == self.events@,
                out@ == self@.subrange(0, i as int),
            decreases self@.len() - i,
        {
            out.push(self.events[i].duplicate());
            assert(out@ =~= self@.subrange(0, i as int + 1));
            i = i + 1;
        }
        assert(self@.subrange(0, self@.len() as int) =~= self@);
        out
    }
}

/// The revoked tokens.
pub struct TokenBlacklist {
    entries: Vec<BlacklistEntry>,
}

impl View for TokenBlacklist {
    type V = Seq<BlacklistEntry>;

    closed spec fn view(&self) -> Seq<BlacklistEntry> {
        self.entries@
    }
}

impl TokenBlacklist {
    pub open spec fn lists(&self, jti: Seq<char>) -> bool {
        exists|i: int| 0 <= i < self@.len() && #[trigger] self@[i].jti@ == jti
    }

    pub fn new() -> (r: TokenBlacklist)
        ensures
            r@ == Seq::<BlacklistEntry>::empty(),
    {
        TokenBlacklist { entries: Vec::new() }
    }

    /// Revokes token `jti` of `user_id` at `now`; the entry's id is its position.
    pub fn add_token_to_blacklist(
        &mut self,
        user_id: u128,
        jti: &str,
        issued_at: i64,
        expires_at: i64,
        reason: &str,
        now: i64,
    )
        ensures
            final(self)@.drop_last() == old(self)@,
            final(self)@.len() == old(self)@.len() + 1,
            final(self)@.last().id == old(self)@.len(),
            final(self)@.last().user_id == user_id,
            final(self)@.last().jti@ == jti@,
            final(self)@.last().issued_at == issued_at,
            final(self)@.last().expires_at == expires_at,
            final(self)@.last().blacklisted_at == now,
            final(self)@.last().reason@ == reason@,
            forall|t: Seq<char>| #[trigger] final(self).lists(t) <==> old(self).lists(t) || t == jti@,
    {
        let id = self.entries.len() as u128;
        self.entries.push(
            BlacklistEntry {
                id,
                user_id,
                jti: String::from_str(jti),
                issued_at,
                expires_at,
                blacklisted_at: now,
                reason: String::from_str(reason),
            },
        );
        assert(self@.drop_last() =~= old(self)@);
        assert forall|t: Seq<char>| #[trigger] self.lists(t) <==> old(self).lists(t) || t == jti@ by {
            if old(self).lists(t) {
                let i = choose|i: int| 0 <= i < old(self)@.len() && #[trigger] old(self)@[i].jti@ == t;
                assert(self@[i] == old(self)@[i]);
            }
            if t == jti@ {
                assert(self@[self@.len() - 1].jti@ == t);
            }
            if self.lists(t) && !(t == jti@) {
                let i = choose|i: int| 0 <= i < self@.len() && #[trigger] self@[i].jti@ == t;
                assert(old(self)@[i] == self@[i]);
            }
        }
    }

    /// Whether token `jti` is revoked.
    pub fn is_blacklisted(&self, jti: &str) -> (r: bool)
        ensures
            r == self.lists(jti@),
    {
        let wanted = String::from_str(jti);
        let mut i: usize = 0;
        while i < self.entries.len()
            invariant
                0 <= i <= self@.len(),
                self@ == self.entries@,
                wanted@ == jti@,
                forall|j: int| 0 <= j < i ==> #[trigger] self@[j].jti@ != jti@,
            decreases self@.len() - i,
        {
            if self.entries[i].jti == wanted {
                return true;
            }
            i = i + 1;
        }
        false
    }
}

} // verus!
