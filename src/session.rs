use vstd::prelude::*;
use crate::errors::{AppError, ErrorKind};
use crate::user::PublicUser;

verus! {

/// How long a session may live, in seconds: an absolute cap from login,
/// and a sliding deadline from the last request that carried it.
#[derive(Clone, Copy, Debug, PartialEq, Eq, Structural)]
pub struct SessionPolicy {
    pub absolute_lifetime: u64,
    pub inactivity_deadline: u64,
}

impl SessionPolicy {
    /// Fourteen days from login at most, seven days without a request.
    pub fn standard() -> (p: SessionPolicy)
        ensures
            p.absolute_lifetime == 14 * 86400,
            p.inactivity_deadline == 7 * 86400,
    {
        SessionPolicy { absolute_lifetime: 1_209_600, inactivity_deadline: 604_800 }
    }
}

/// The identity that a client's session carries.
#[derive(Clone, Copy, Debug, PartialEq, Eq, Structural)]
pub enum Session {
    Anonymous,
    Authenticated { user_id: i64, issued_at: u64, last_seen: u64 },
}

/// A session issued at `issued_at` and last used at `last_seen` is no
/// longer valid at `now`.
pub open spec fn expired(issued_at: u64, last_seen: u64, now: u64, policy: SessionPolicy) -> bool {
    now - last_seen > policy.inactivity_deadline || now - issued_at > policy.absolute_lifetime
}

impl Session {
    /// The operator that a request at `now` acts for, if any.
    pub open spec fn operator_at(self, policy: SessionPolicy, now: u64) -> Option<i64> {
        match self {
            Session::Anonymous => None,
            Session::Authenticated { user_id, issued_at, last_seen } => if expired(
                issued_at,
                last_seen,
                now,
                policy,
            ) {
                None
            } else {
                Some(user_id)
            },
        }
    }

    /// The session after a request at `now`: an expired one is dropped, a
    /// valid one records the request.
    pub open spec fn after_request(self, policy: SessionPolicy, now: u64) -> Session {
        match self {
            Session::Anonymous => Session::Anonymous,
            Session::Authenticated { user_id, issued_at, last_seen } => if expired(
                issued_at,
                last_seen,
                now,
                policy,
            ) {
                Session::Anonymous
            } else {
                Session::Authenticated {
                    user_id,
                    issued_at,
                    last_seen: if now > last_seen {
                        now
                    } else {
                        last_seen
                    },
                }
            },
        }
    }

    pub fn anonymous() -> (s: Session)
        ensures
            s == Session::Anonymous,
    {
        Session::Anonymous
    }

    /// The session bound to an account that has just logged in.
    pub fn start(user: &PublicUser, now: u64) -> (s: Session)
        ensures
            s == (Session::Authenticated { user_id: user.id, issued_at: now, last_seen: now }),
    {
        Session::Authenticated { user_id: user.id, issued_at: now, last_seen: now }
    }

    /// Ends the session; ending an anonymous one does nothing.
    pub fn logout(&mut self)
        ensures
            *final(self) == Session::Anonymous,
    {
        *self = Session::Anonymous;
    }

    /// The operator of a request made at `now`, read from the session
    /// alone. A missing or expired session fails `Unauthenticated` and is
    /// dropped.
    pub fn resolve(&mut self, policy: &SessionPolicy, now: u64) -> (r: Result<i64, AppError>)
        ensures
            *final(self) == old(self).after_request(*policy, now),
            r is Ok <==> old(self).operator_at(*policy, now) is Some,
            r matches Ok(id) ==> old(self).operator_at(*policy, now) == Some(id),
            r matches Err(e) ==> e.kind == ErrorKind::Unauthenticated,
    {
        match *self {
            Session::Anonymous => Err(AppError::new(ErrorKind::Unauthenticated, 401, "not logged in")),
            Session::Authenticated { user_id, issued_at, last_seen } => {
                let idle = now >= last_seen && now - last_seen > policy.inactivity_deadline;
                let old_enough = now >= issued_at && now - issued_at > policy.absolute_lifetime;
                if idle || old_enough {
                    *self = Session::Anonymous;
                    Err(AppError::new(ErrorKind::Unauthenticated, 401, "session expired"))
                } else {
                    let seen = if now > last_seen {
                        now
                    } else {
                        last_seen
                    };
                    *self = Session::Authenticated { user_id, issued_at, last_seen: seen };
                    Ok(user_id)
                }
            },
        }
    }
}

/// A session left unused for longer than the inactivity deadline is
/// rejected at its next use, even within its absolute lifetime.
pub proof fn lemma_idle_session_rejected(
    user_id: i64,
    issued_at: u64,
    last_seen: u64,
    now: u64,
    policy: SessionPolicy,
)
    requires
        now - last_seen > policy.inactivity_deadline,
    ensures
        (Session::Authenticated { user_id, issued_at, last_seen }).operator_at(policy, now) is None,
        (Session::Authenticated { user_id, issued_at, last_seen }).after_request(policy, now) == Session::Anonymous,
{
}

/// A session used within both deadlines keeps acting for its account.
pub proof fn lemma_active_session_accepted(
    user_id: i64,
    issued_at: u64,
    last_seen: u64,
    now: u64,
    policy: SessionPolicy,
)
    requires
        now - last_seen <= policy.inactivity_deadline,
        now - issued_at <= policy.absolute_lifetime,
    ensures
        (Session::Authenticated { user_id, issued_at, last_seen }).operator_at(policy, now) == Some(user_id),
{
}

} // verus!
