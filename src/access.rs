use vstd::prelude::*;

use crate::result::HTTPError;

verus! {

/// Largest view limit a paste may be created with.
pub const MAX_VIEW_LIMIT: i16 = 128;

/// Message of the error that covers a missing, expired, exhausted or locked
/// paste alike.
pub const NOT_FOUND_MESSAGE: &'static str = "Requested paste does not exist, has too many views, or has expired.";

/// What the read path knows of a stored paste: its view counter, optional
/// view limit and deadline (microseconds since the Unix epoch), and whether a
/// password guards it.
#[derive(Clone, Copy, Debug, PartialEq, Eq, Structural)]
pub struct AccessState {
    pub views: i64,
    pub max_views: Option<i16>,
    pub expires_at: Option<i64>,
    pub has_password: bool,
}

/// One read attempt: the time it is made at, whether a password came with it,
/// and whether the store's hash comparison accepted that password.
#[derive(Clone, Copy, Debug, PartialEq, Eq, Structural)]
pub struct FetchAttempt {
    pub now: i64,
    pub password_supplied: bool,
    pub hash_matches: bool,
}

/// Why a read was refused. The reasons are deliberately not told apart.
#[derive(Clone, Copy, Debug, PartialEq, Eq, Structural)]
pub enum FetchError {
    NotFound,
}

impl FetchError {
    /// The response for a refused read.
    pub fn to_http(&self) -> (r: HTTPError)
        ensures
            r.code == 404,
            r.inner.message@ == NOT_FOUND_MESSAGE@,
    {
        HTTPError::new(404, NOT_FOUND_MESSAGE)
    }
}

/// Views are left and the deadline, if any, lies ahead of `now`.
pub open spec fn readable(s: AccessState, now: i64) -> bool {
    &&& (s.max_views matches Some(m) ==> s.views < m)
    &&& (s.expires_at matches Some(e) ==> now < e)
}

/// A password-guarded paste needs a supplied password that matches its hash;
/// an open one needs none supplied.
pub open spec fn credential_accepted(has_password: bool, a: FetchAttempt) -> bool {
    if has_password {
        a.password_supplied && a.hash_matches
    } else {
        !a.password_supplied
    }
}

/// Whether `a` is served.
pub open spec fn served(s: AccessState, a: FetchAttempt) -> bool {
    readable(s, a.now) && credential_accepted(s.has_password, a)
}

/// The state after attempt `a`: one more view when it is served, no change
/// otherwise.
pub open spec fn after_fetch(s: AccessState, a: FetchAttempt) -> AccessState {
    if served(s, a) {
        AccessState { views: (s.views + 1) as i64, ..s }
    } else {
        s
    }
}

/// The state after the attempts of `attempts`, one after another.
pub open spec fn after_fetches(s: AccessState, attempts: Seq<FetchAttempt>) -> AccessState
    decreases attempts.len(),
{
    if attempts.len() == 0 {
        s
    } else {
        after_fetch(after_fetches(s, attempts.drop_last()), attempts.last())
    }
}

/// How many of `attempts` are served, one after another.
pub open spec fn served_count(s: AccessState, attempts: Seq<FetchAttempt>) -> nat
    decreases attempts.len(),
{
    if attempts.len() == 0 {
        0
    } else {
        served_count(s, attempts.drop_last()) + if served(
            after_fetches(s, attempts.drop_last()),
            attempts.last(),
        ) {
            1nat
        } else {
            0nat
        }
    }
}

impl AccessState {
    /// The view counter never passes the limit.
    pub open spec fn wf(&self) -> bool {
        &&& 0 <= self.views
        &&& (self.max_views matches Some(m) ==> self.views <= m)
    }

    /// A new paste: no views yet.
    pub fn created(max_views: Option<i16>, expires_at: Option<i64>, has_password: bool) -> (r: Self)
        requires
            max_views matches Some(m) ==> 1 <= m <= MAX_VIEW_LIMIT,
        ensures
            r.wf(),
            r == (AccessState { views: 0, max_views, expires_at, has_password }),
    {
        AccessState { views: 0, max_views, expires_at, has_password }
    }

    /// The atomic read: checks the deadline, the view limit and the
    /// credential together and, when all pass, counts the view. Returns the
    /// view count after it.
    pub fn try_fetch(&mut self, now: i64, password_supplied: bool, hash_matches: bool) -> (r: Result<
        i64,
        FetchError,
    >)
        requires
            old(self).views < i64::MAX,
        ensures
            ({
                let a = FetchAttempt { now, password_supplied, hash_matches };
                &&& r is Ok <==> served(*old(self), a)
                &&& *final(self) == after_fetch(*old(self), a)
                &&& r matches Ok(v) ==> v == final(self).views
            }),
            old(self).wf() ==> final(self).wf(),
    {
        let fresh = match self.max_views {
            Some(m) => self.views < m as i64,
            None => true,
        };
        let current = match self.expires_at {
            Some(e) => now < e,
            None => true,
        };
        let accepted = if self.has_password {
            password_supplied && hash_matches
        } else {
            !password_supplied
        };
        if fresh && current && accepted {
            self.views = self.views + 1;
            Ok(self.views)
        } else {
            Err(FetchError::NotFound)
        }
    }

    /// Whether periodic cleanup may remove the paste: its views are used up
    /// or its deadline has passed.
    pub fn is_reapable(&self, now: i64) -> (r: bool)
        ensures
            r == ((self.max_views matches Some(m) && self.views >= m) || (self.expires_at matches Some(
                e,
            ) && e <= now)),
    {
        let used_up = match self.max_views {
            Some(m) => self.views >= m as i64,
            None => false,
        };
        let expired = match self.expires_at {
            Some(e) => e <= now,
            None => false,
        };
        used_up || expired
    }
}

/// Attempts, however they interleave, are served one at a time; so with a
/// limit of `k` the counter equals its start plus what was served, never
/// passes `k`, and no more than `k` minus the views already counted are
/// served.
pub proof fn lemma_view_limit_holds(s: AccessState, attempts: Seq<FetchAttempt>)
    requires
        s.wf(),
        s.max_views is Some,
    ensures
        after_fetches(s, attempts).views == s.views + served_count(s, attempts),
        after_fetches(s, attempts).max_views == s.max_views,
        after_fetches(s, attempts).expires_at == s.expires_at,
        after_fetches(s, attempts).has_password == s.has_password,
        after_fetches(s, attempts).wf(),
        served_count(s, attempts) <= s.max_views->0 - s.views,
    decreases attempts.len(),
{
    if attempts.len() > 0 {
        lemma_view_limit_holds(s, attempts.drop_last());
    }
}

/// Once the counter has reached the limit, every further attempt is refused
/// and changes nothing.
pub proof fn lemma_exhausted_refuses(s: AccessState, a: FetchAttempt)
    requires
        s.max_views matches Some(k) && s.views >= k,
    ensures
        !served(s, a),
        after_fetch(s, a) == s,
{
}

/// A paste whose deadline has passed is never served again: no attempt made
/// at or after the deadline is served, and the counter does not move.
pub proof fn lemma_expired_never_served(s: AccessState, attempts: Seq<FetchAttempt>)
    requires
        s.expires_at matches Some(e) && forall|i: int|
            0 <= i < attempts.len() ==> (#[trigger] attempts[i]).now >= e,
    ensures
        served_count(s, attempts) == 0,
        after_fetches(s, attempts) == s,
    decreases attempts.len(),
{
    if attempts.len() > 0 {
        let rest = attempts.drop_last();
        assert forall|i: int| 0 <= i < rest.len() implies (#[trigger] rest[i]).now >= s.expires_at->0 by {
            assert(rest[i] == attempts[i]);
        }
        lemma_expired_never_served(s, rest);
        assert(attempts.last() == attempts[attempts.len() - 1]);
    }
}

} // verus!

verus! {

/// Most draws of a fresh id and safety token before creation gives up.
pub const MAX_ID_ATTEMPTS: u32 = 32;

/// Message of a creation that could not be stored.
pub const CREATE_FAILED_MESSAGE: &'static str = "Failed to create paste.";

/// How the store answered an insert of a new paste row.
#[derive(Clone, Copy, Debug, PartialEq, Eq, Structural)]
pub enum InsertOutcome {
    Inserted,
    /// The id or the safety token is already taken.
    Duplicate,
    Failed,
}

/// What creation does next.
#[derive(Clone, Copy, Debug, PartialEq, Eq, Structural)]
pub enum CreateStep {
    /// Go on with the files.
    Proceed,
    /// Draw a new id and token and insert again.
    Retry,
    /// Roll back and report a storage failure.
    Abort,
}

/// The step after insert number `attempt` (counting from 0): a taken id or
/// token is drawn again, silently, until the attempts run out.
pub fn after_insert(attempt: u32, outcome: InsertOutcome) -> (r: CreateStep)
    ensures
        outcome == InsertOutcome::Inserted ==> r == CreateStep::Proceed,
        outcome == InsertOutcome::Failed ==> r == CreateStep::Abort,
        outcome == InsertOutcome::Duplicate ==> r == if attempt + 1 < MAX_ID_ATTEMPTS {
            CreateStep::Retry
        } else {
            CreateStep::Abort
        },
{
    match outcome {
        InsertOutcome::Inserted => CreateStep::Proceed,
        InsertOutcome::Failed => CreateStep::Abort,
        InsertOutcome::Duplicate => {
            if attempt < MAX_ID_ATTEMPTS - 1 {
                CreateStep::Retry
            } else {
                CreateStep::Abort
            }
        },
    }
}

/// The response for a creation that could not be stored.
pub fn create_failed() -> (r: HTTPError)
    ensures
        r.code == 500,
        r.inner.message@ == CREATE_FAILED_MESSAGE@,
{
    HTTPError::new(500, CREATE_FAILED_MESSAGE)
}

} // verus!
