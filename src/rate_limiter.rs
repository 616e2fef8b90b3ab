use vstd::prelude::*;
use vstd::string::*;

use crate::app_error::AppError;
use crate::clock::{current_time, valid_time, MAX_TIMESTAMP};

verus! {

/// Entries whose window started longer ago than this, in seconds, are deleted.
pub const STALE_AFTER_SECS: i64 = 86400;

/// What separates the scope key from the action in an entry's identifier.
pub const IDENTIFIER_SEPARATOR: &'static str = ":";

/// The counting state of one (scope, action) pair.
#[derive(Debug, Clone, Copy, PartialEq, Eq, Structural)]
pub struct RateWindow {
    pub attempt_count: i32,
    pub window_start: i64,
    pub last_attempt: i64,
}

/// The attempts recorded for one (scope, action) pair.
#[derive(Debug)]
pub struct RateLimitEntry {
    pub identifier: String,
    pub action_type: String,
    pub window: RateWindow,
}

/// Whether `w` still counts at `now`: its window started at most `window` seconds before.
pub open spec fn in_window(w: RateWindow, now: int, window: int) -> bool {
    now - w.window_start <= window
}

/// The attempts that count against a new attempt at `now`.
pub open spec fn prior_count(prev: Option<RateWindow>, now: int, window: int) -> int {
    match prev {
        Some(w) => if in_window(w, now, window) {
            w.attempt_count as int
        } else {
            0
        },
        None => 0,
    }
}

/// One attempt at `now`: refused with the count that blocked it once `max` attempts count in
/// the window; otherwise recorded, in a fresh window if the old one has passed.
pub open spec fn rate_step(prev: Option<RateWindow>, now: int, max: int, window: int) -> Result<
    RateWindow,
    int,
> {
    let prior = prior_count(prev, now, window);
    if prior >= max {
        Err(prior)
    } else {
        match prev {
            Some(w) => if in_window(w, now, window) {
                Ok(
                    RateWindow {
                        attempt_count: (w.attempt_count + 1) as i32,
                        window_start: w.window_start,
                        last_attempt: now as i64,
                    },
                )
            } else {
                Ok(RateWindow { attempt_count: 1, window_start: now as i64, last_attempt: now as i64 })
            },
            None => Ok(RateWindow { attempt_count: 1, window_start: now as i64, last_attempt: now as i64 }),
        }
    }
}

/// A window as the limiter stores it: a positive count and valid times.
pub open spec fn window_wf(w: RateWindow) -> bool {
    w.attempt_count >= 1 && valid_time(w.window_start as int) && valid_time(w.last_attempt as int)
}

/// Decides one attempt at `now` against the stored window `prev`.
pub fn next_window(prev: Option<RateWindow>, now: i64, max_attempts: i32, window_seconds: i64) -> (r:
    Result<RateWindow, i32>)
    requires
        valid_time(now as int),
        prev matches Some(w) ==> window_wf(w),
    ensures
        match rate_step(prev, now as int, max_attempts as int, window_seconds as int) {
            Ok(w) => r == Ok::<RateWindow, i32>(w),
            Err(c) => r matches Err(k) && k == c,
        },
        r matches Ok(w) ==> window_wf(w),
{
    let current: Option<RateWindow> = match prev {
        Some(w) => if (now as i128) - (w.window_start as i128) <= window_seconds as i128 {
            Some(w)
        } else {
            None
        },
        None => None,
    };
    match current {
        Some(w) => {
            if w.attempt_count >= max_attempts {
                Err(w.attempt_count)
            } else {
                Ok(
                    RateWindow {
                        attempt_count: w.attempt_count + 1,
                        window_start: w.window_start,
                        last_attempt: now,
                    },
                )
            }
        },
        None => {
            if 0 >= max_attempts {
                Err(0)
            } else {
                Ok(RateWindow { attempt_count: 1, window_start: now, last_attempt: now })
            }
        },
    }
}

/// With at most three attempts a minute, four attempts within a minute of the first are
/// allowed three times and then refused with a count of three; an attempt once that minute
/// has passed is allowed again and starts a new window with a count of one.
pub proof fn lemma_three_per_minute(t1: int, t2: int, t3: int, t4: int, t5: int)
    requires
        valid_time(t1) && valid_time(t2) && valid_time(t3) && valid_time(t4) && valid_time(t5),
        t1 <= t2 <= t3 <= t4,
        t4 - t1 <= 60,
        t5 - t1 > 60,
    ensures
        ({
            let s1 = rate_step(None, t1, 3, 60);
            let s2 = rate_step(Some(s1->Ok_0), t2, 3, 60);
            let s3 = rate_step(Some(s2->Ok_0), t3, 3, 60);
            let s4 = rate_step(Some(s3->Ok_0), t4, 3, 60);
            let s5 = rate_step(Some(s3->Ok_0), t5, 3, 60);
            &&& s1 is Ok && s2 is Ok && s3 is Ok
            &&& s4 == Err::<RateWindow, int>(3)
            &&& s5 is Ok && s5->Ok_0.attempt_count == 1 && s5->Ok_0.window_start == t5
        }),
{
}

/// The identifier of a (scope, action) pair: the scope key, a colon, the action.
pub open spec fn rate_identifier(scope_key: Seq<char>, action_type: Seq<char>) -> Seq<char> {
    scope_key + IDENTIFIER_SEPARATOR@ + action_type
}

pub open spec fn has_key(e: RateLimitEntry, identifier: Seq<char>, action_type: Seq<char>) -> bool {
    e.identifier@ == identifier && e.action_type@ == action_type
}

/// The window stored for (identifier, action), if any.
pub open spec fn lookup_window(
    s: Seq<RateLimitEntry>,
    identifier: Seq<char>,
    action_type: Seq<char>,
) -> Option<RateWindow> {
    if exists|i: int| 0 <= i < s.len() && #[trigger] has_key(s[i], identifier, action_type) {
        let i = choose|i: int| 0 <= i < s.len() && #[trigger] has_key(s[i], identifier, action_type);
        Some(s[i].window)
    } else {
        None
    }
}

/// Whether an entry's window started more than a day before `now`.
pub open spec fn is_stale(e: RateLimitEntry, now: int) -> bool {
    e.window.window_start < now - STALE_AFTER_SECS
}

/// The entries that the housekeeping at `now` keeps, in order.
pub open spec fn fresh_entries(s: Seq<RateLimitEntry>, now: int) -> Seq<RateLimitEntry>
    decreases s.len(),
{
    if s.len() == 0 {
        s
    } else {
        let r = fresh_entries(s.drop_last(), now);
        if is_stale(s.last(), now) {
            r
        } else {
            r.push(s.last())
        }
    }
}

pub open spec fn entries_wf(s: Seq<RateLimitEntry>) -> bool {
    &&& forall|i: int| 0 <= i < s.len() ==> window_wf(#[trigger] s[i].window)
    &&& forall|i: int, j: int|
        0 <= i < s.len() && 0 <= j < s.len() && i != j ==> !has_key(
            #[trigger] s[i],
            #[trigger] s[j].identifier@,
            s[j].action_type@,
        )
}

/// Finds the entry of a key in well-formed entries.
proof fn lemma_lookup_at(s: Seq<RateLimitEntry>, i: int, identifier: Seq<char>, action_type: Seq<char>)
    requires
        entries_wf(s),
        0 <= i < s.len(),
        has_key(s[i], identifier, action_type),
    ensures
        lookup_window(s, identifier, action_type) == Some(s[i].window),
{
    let j = choose|j: int| 0 <= j < s.len() && #[trigger] has_key(s[j], identifier, action_type);
    if j != i {
        assert(!has_key(s[i], s[j].identifier@, s[j].action_type@));
    }
}

/// What an attempt at `now` by `scope_key` at `action_type` does to the entries `old`, giving
/// `new` and the result `r`: after the day-old entries go, it is refused with the identifier,
/// the blocking count and the window, changing nothing more; or it is recorded in the key's
/// window, leaving every other key as it was.
pub open spec fn rate_limit_post(
    old: Seq<RateLimitEntry>,
    new: Seq<RateLimitEntry>,
    scope_key: Seq<char>,
    action_type: Seq<char>,
    max_attempts: int,
    window_seconds: int,
    now: int,
    r: Result<(), AppError>,
) -> bool {
    let pruned = fresh_entries(old, now);
    let id = rate_identifier(scope_key, action_type);
    match rate_step(lookup_window(pruned, id, action_type), now, max_attempts, window_seconds) {
        Err(c) => {
            &&& new == pruned
            &&& r matches Err(AppError::RateLimited { identifier, count, window_seconds: w })
            &&& identifier@ == id
            &&& count == c
            &&& w == window_seconds
        },
        Ok(w) => {
            &&& r is Ok
            &&& lookup_window(new, id, action_type) == Some(w)
            &&& forall|k: Seq<char>, a: Seq<char>|
                !(k == id && a == action_type) ==> #[trigger] lookup_window(new, k, a)
                    == lookup_window(pruned, k, a)
        },
    }
}

/// The attempt counts of every (scope, action) pair.
pub struct RateLimiter {
    entries: Vec<RateLimitEntry>,
}

impl View for RateLimiter {
    type V = Seq<RateLimitEntry>;

    closed spec fn view(&self) -> Seq<RateLimitEntry> {
        self.entries@
    }
}

impl RateLimitEntry {
    pub fn duplicate(&self) -> (r: RateLimitEntry)
        ensures
            r == *self,
    {
        RateLimitEntry {
            identifier: self.identifier.clone(),
            action_type: self.action_type.clone(),
            window: self.window,
        }
    }
}

impl RateLimiter {
    pub open spec fn wf(&self) -> bool {
        entries_wf(self@)
    }

    pub fn new() -> (r: RateLimiter)
        ensures
            r@ == Seq::<RateLimitEntry>::empty(),
            r.wf(),
    {
        RateLimiter { entries: Vec::new() }
    }

    /// The window stored for `identifier` and `action_type`, if any.
    pub fn window_of(&self, identifier: &str, action_type: &str) -> (r: Option<RateWindow>)
        requires
            self.wf(),
        ensures
            r == lookup_window(self@, identifier@, action_type@),
    {
        match self.position(identifier, action_type) {
            Some(i) => {
                proof {
                    lemma_lookup_at(self@, i as int, identifier@, action_type@);
                }
                Some(self.entries[i].window)
            },
            None => None,
        }
    }

    fn position(&self, identifier: &str, action_type: &str) -> (r: Option<usize>)
        ensures
            match r {
                Some(i) => i < self@.len() && has_key(self@[i as int], identifier@, action_type@),
                None => forall|i: int|
                    0 <= i < self@.len() ==> !#[trigger] has_key(
                        self@[i],
                        identifier@,
                        action_type@,
                    ),
            },
    {
        let wanted_id = String::from_str(identifier);
        let wanted_action = String::from_str(action_type);
        let mut i: usize = 0;
        while i < self.entries.len()
            invariant
                0 <= i <= self@.len(),
                self@ == self.entries@,
                wanted_id@ == identifier@,
                wanted_action@ == action_type@,
                forall|j: int|
                    0 <= j < i ==> !#[trigger] has_key(self@[j], identifier@, action_type@),
            decreases self@.len() - i,
        {
            let e = &self.entries[i];
            if e.identifier == wanted_id && e.action_type == wanted_action {
                return Some(i);
            }
            i = i + 1;
        }
        None
    }

    /// Deletes the entries whose window started more than a day before `now`.
    pub fn cleanup_stale_at(&mut self, now: i64)
        requires
            old(self).wf(),
        ensures
            final(self).wf(),
            final(self)@ == fresh_entries(old(self)@, now as int),
    {
        let ghost old_rows = self@;
        let mut kept: Vec<RateLimitEntry> = Vec::new();
        let mut i: usize = 0;
        while i < self.entries.len()
            invariant
                0 <= i <= old_rows.len(),
                self.entries@ == old_rows,
                entries_wf(old_rows),
                kept@ == fresh_entries(old_rows.subrange(0, i as int), now as int),
                forall|k: int|
                    0 <= k < kept@.len() ==> exists|j: int|
                        0 <= j < i && #[trigger] old_rows[j] == #[trigger] kept@[k],
                entries_wf(kept@),
            decreases old_rows.len() - i,
        {
            let ghost before = kept@;
            assert(old_rows.subrange(0, i as int + 1).drop_last() =~= old_rows.subrange(0, i as int));
            if (self.entries[i].window.window_start as i128) < (now as i128) - (STALE_AFTER_SECS as i128) {
            } else {
                let e = self.entries[i].duplicate();
                kept.push(e);
                proof {
                    assert forall|k: int| 0 <= k < before.len() implies !has_key(
                        before[k],
                        old_rows[i as int].identifier@,
                        old_rows[i as int].action_type@,
                    ) && !has_key(old_rows[i as int], before[k].identifier@, before[k].action_type@) by {
                        let j = choose|j: int| 0 <= j < i && #[trigger] old_rows[j] == before[k];
                        assert(!has_key(old_rows[j], old_rows[i as int].identifier@, old_rows[i as int].action_type@));
                        assert(!has_key(old_rows[i as int], old_rows[j].identifier@, old_rows[j].action_type@));
                    }
                    assert(kept@[before.len() as int] == old_rows[i as int]);
                    assert forall|k: int| 0 <= k < kept@.len() implies exists|j: int|
                        0 <= j < i + 1 && #[trigger] old_rows[j] == #[trigger] kept@[k] by {
                        if k < before.len() {
                            let j = choose|j: int| 0 <= j < i && #[trigger] old_rows[j] == before[k];
                            assert(old_rows[j] == kept@[k]);
                        } else {
                            assert(old_rows[i as int] == kept@[k]);
                        }
                    }
                    assert forall|a: int, b: int|
                        0 <= a < kept@.len() && 0 <= b < kept@.len() && a != b implies !has_key(
                            #[trigger] kept@[a],
                            #[trigger] kept@[b].identifier@,
                            kept@[b].action_type@,
                        ) by {
                        if a < before.len() && b < before.len() {
                            assert(kept@[a] == before[a] && kept@[b] == before[b]);
                        }
                    }
                }
            }
            i = i + 1;
        }
        assert(old_rows.subrange(0, old_rows.len() as int) =~= old_rows);
        self.entries = kept;
    }

    /// Records an attempt at `now` by `scope_key` at `action_type`, allowing at most
    /// `max_attempts` within `window_seconds`. Entries older than a day are deleted first.
    /// A refused attempt changes no count.
    pub fn check_rate_limit_at(
        &mut self,
        scope_key: &str,
        action_type: &str,
        max_attempts: i32,
        window_seconds: i64,
        now: i64,
    ) -> (r: Result<(), AppError>)
        requires
            old(self).wf(),
            valid_time(now as int),
        ensures
            final(self).wf(),
            rate_limit_post(
                old(self)@,
                final(self)@,
                scope_key@,
                action_type@,
                max_attempts as int,
                window_seconds as int,
                now as int,
                r,
            ),
            ({
                let pruned = fresh_entries(old(self)@, now as int);
                let id = rate_identifier(scope_key@, action_type@);
                match rate_step(
                    lookup_window(pruned, id, action_type@),
                    now as int,
                    max_attempts as int,
                    window_seconds as int,
                ) {
                    Err(c) => {
                        &&& final(self)@ == pruned
                        &&& r matches Err(AppError::RateLimited { identifier, count, window_seconds: w })
                        &&& identifier@ == id
                        &&& count == c
                        &&& w == window_seconds
                    },
                    Ok(w) => {
                        &&& r is Ok
                        &&& lookup_window(final(self)@, id, action_type@) == Some(w)
                        &&& forall|k: Seq<char>, a: Seq<char>|
                            !(k == id && a == action_type@) ==> #[trigger] lookup_window(
                                final(self)@,
                                k,
                                a,
                            ) == lookup_window(pruned, k, a)
                    },
                }
            }),
    {
        self.cleanup_stale_at(now);
        let ghost pruned = self@;
        let mut identifier = String::from_str(scope_key);
        identifier.append(IDENTIFIER_SEPARATOR);
        identifier.append(action_type);
        let pos = self.position(identifier.as_str(), action_type);
        let prev = match pos {
            Some(i) => {
                proof {
                    lemma_lookup_at(self@, i as int, identifier@, action_type@);
                }
                Some(self.entries[i].window)
            },
            None => None,
        };
        match next_window(prev, now, max_attempts, window_seconds) {
            Err(count) => Err(AppError::RateLimited { identifier, count, window_seconds }),
            Ok(w) => {
                match pos {
                    Some(i) => {
                        self.entries[i].window = w;
                        proof {
                            assert forall|a: int, b: int|
                                0 <= a < self@.len() && 0 <= b < self@.len() && a != b implies !has_key(
                                    #[trigger] self@[a],
                                    #[trigger] self@[b].identifier@,
                                    self@[b].action_type@,
                                ) by {
                                assert(!has_key(pruned[a], pruned[b].identifier@, pruned[b].action_type@));
                            }
                            lemma_lookup_at(self@, i as int, identifier@, action_type@);
                            assert forall|k: Seq<char>, a: Seq<char>|
                                !(k == identifier@ && a == action_type@) implies #[trigger] lookup_window(
                                    self@,
                                    k,
                                    a,
                                ) == lookup_window(pruned, k, a) by {
                                if exists|j: int| 0 <= j < pruned.len() && #[trigger] has_key(pruned[j], k, a) {
                                    let j = choose|j: int| 0 <= j < pruned.len() && #[trigger] has_key(pruned[j], k, a);
                                    lemma_lookup_at(pruned, j, k, a);
                                    assert(j != i);
                                    lemma_lookup_at(self@, j, k, a);
                                } else {
                                    assert forall|j: int| 0 <= j < self@.len() implies !#[trigger] has_key(self@[j], k, a) by {
                                        assert(!has_key(pruned[j], k, a));
                                    }
                                }
                            }
                        }
                    },
                    None => {
                        let e = RateLimitEntry {
                            identifier: identifier,
                            action_type: String::from_str(action_type),
                            window: w,
                        };
                        self.entries.push(e);
                        proof {
                            let n = pruned.len() as int;
                            assert forall|a: int, b: int|
                                0 <= a < self@.len() && 0 <= b < self@.len() && a != b implies !has_key(
                                    #[trigger] self@[a],
                                    #[trigger] self@[b].identifier@,
                                    self@[b].action_type@,
                                ) by {
                                if a < n && b < n {
                                    assert(!has_key(pruned[a], pruned[b].identifier@, pruned[b].action_type@));
                                } else if a < n {
                                    assert(!has_key(pruned[a], self@[n].identifier@, self@[n].action_type@));
                                } else if b < n {
                                    assert(!has_key(pruned[b], self@[n].identifier@, self@[n].action_type@));
                                }
                            }
                            lemma_lookup_at(self@, n, identifier@, action_type@);
                            assert forall|k: Seq<char>, a: Seq<char>|
                                !(k == identifier@ && a == action_type@) implies #[trigger] lookup_window(
                                    self@,
                                    k,
                                    a,
                                ) == lookup_window(pruned, k, a) by {
                                if exists|j: int| 0 <= j < pruned.len() && #[trigger] has_key(pruned[j], k, a) {
                                    let j = choose|j: int| 0 <= j < pruned.len() && #[trigger] has_key(pruned[j], k, a);
                                    lemma_lookup_at(pruned, j, k, a);
                                    lemma_lookup_at(self@, j, k, a);
                                } else {
                                    assert forall|j: int| 0 <= j < self@.len() implies !#[trigger] has_key(self@[j], k, a) by {
                                        if j < n {
                                            assert(!has_key(pruned[j], k, a));
                                        }
                                    }
                                }
                            }
                        }
                    },
                }
                Ok(())
            },
        }
    }

    /// Records an attempt at the current time; see `check_rate_limit_at`. Fails with a
    /// `ServerError`, changing nothing, only when the clock reads outside the handled range.
    pub fn check_rate_limit(
        &mut self,
        scope_key: &str,
        action_type: &str,
        max_attempts: i32,
        window_seconds: i64,
    ) -> (r: Result<(), AppError>)
        requires
            old(self).wf(),
        ensures
            final(self).wf(),
            (exists|now: int|
                valid_time(now) && #[trigger] rate_limit_post(
                    old(self)@,
                    final(self)@,
                    scope_key@,
                    action_type@,
                    max_attempts as int,
                    window_seconds as int,
                    now,
                    r,
                )) || (r is Err && r->Err_0 is ServerError && final(self)@ == old(self)@),
            r matches Err(e) ==> e is RateLimited || e is ServerError,
    {
        let now = current_time();
        if now < 0 || now > MAX_TIMESTAMP {
            return Err(AppError::ServerError(String::from_str("clock out of range")));
        }
        self.check_rate_limit_at(scope_key, action_type, max_attempts, window_seconds, now)
    }
}

} // verus!
