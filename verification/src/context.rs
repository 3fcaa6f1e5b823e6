//! Per-request context: pinned clock, identity, XSRF token, audit fields.
//!
//! Construction never fails and leaves the context anonymous; session
//! validation attaches the resolved user afterwards. The XSRF token is
//! compared on every state-changing call.

use crate::clock::Instant;
use crate::errors::Error;
use crate::ids::UserID;
use crate::strutil::tokens_match;
use vstd::prelude::*;

verus! {

/// Application request context.
#[derive(Debug)]
pub struct Context {
    pub xsrf_token: String,
    pub login_session: Option<(UserID, String)>,
    pub request_time: Instant,
    pub user_agent: Option<String>,
    pub remote_ip: Option<String>,
}

impl Context {
    /// The context is anonymous or carries a well-formed user id.
    pub open spec fn wf(&self) -> bool {
        &&& self.request_time.wf()
        &&& match self.login_session {
            Some((u, _)) => u.wf(),
            None => true,
        }
    }

    /// The id of the logged-in user, if any.
    pub open spec fn spec_user_id(&self) -> Option<Seq<char>> {
        match self.login_session {
            Some((u, _)) => Some(u@),
            None => None,
        }
    }

    /// Create a new request context, anonymous until a session is used.
    pub fn for_request(
        xsrf_token: String,
        now: Instant,
        user_agent: Option<String>,
        remote_ip: Option<String>,
    ) -> (r: Self)
        requires
            now.wf(),
        ensures
            r.xsrf_token@ == xsrf_token@,
            r.login_session is None,
            r.request_time == now,
            r.user_agent == user_agent,
            r.remote_ip == remote_ip,
            r.wf(),
    {
        Context { xsrf_token, login_session: None, request_time: now, user_agent, remote_ip }
    }

    /// Attach the resolved user and their session token; done by session
    /// validation while the context is being built.
    pub fn set_logged_in_user(&mut self, user: UserID, session_token: String)
        requires
            user.wf(),
            old(self).wf(),
        ensures
            final(self).login_session matches Some((u, t)) && u@ == user@ && t@
                == session_token@,
            final(self).xsrf_token@ == old(self).xsrf_token@,
            final(self).request_time == old(self).request_time,
            final(self).user_agent == old(self).user_agent,
            final(self).remote_ip == old(self).remote_ip,
            final(self).wf(),
    {
        self.login_session = Some((user, session_token));
    }

    /// The id of the logged-in user, if any.
    pub fn maybe_user_id(&self) -> (r: Option<UserID>)
        ensures
            match (r, self.spec_user_id()) {
                (Some(a), Some(b)) => a@ == b,
                (None, None) => true,
                _ => false,
            },
            self.wf() ==> match r {
                Some(u) => u.wf(),
                None => true,
            },
    {
        match &self.login_session {
            Some((u, _)) => Some(u.duplicate()),
            None => None,
        }
    }

    /// Whether the context has a logged-in user.
    pub fn is_logged_in(&self) -> (r: bool)
        ensures
            r == (self.spec_user_id() is Some),
    {
        match &self.login_session {
            Some(_) => true,
            None => false,
        }
    }

    /// The id of the logged-in user, or `NotAuthenticated`.
    pub fn user_id(&self) -> (r: Result<UserID, Error>)
        ensures
            match (r, self.spec_user_id()) {
                (Ok(a), Some(b)) => a@ == b,
                (Err(e), None) => e == Error::NotAuthenticated,
                _ => false,
            },
            self.wf() ==> match r {
                Ok(u) => u.wf(),
                Err(_) => true,
            },
    {
        match &self.login_session {
            Some((u, _)) => Ok(u.duplicate()),
            None => Err(Error::NotAuthenticated),
        }
    }

    /// The pinned request instant.
    pub fn now(&self) -> (r: Instant)
        ensures
            r == self.request_time,
    {
        self.request_time
    }

    /// The current session token, if any.
    pub fn session_token(&self) -> (r: Option<&str>)
        ensures
            match (r, self.login_session) {
                (Some(a), Some((_, b))) => a@ == b@,
                (None, None) => true,
                _ => false,
            },
    {
        match &self.login_session {
            Some((_, t)) => Some(t.as_str()),
            None => None,
        }
    }

    /// The context's XSRF token, for rendering into responses.
    pub fn xsrf_token(&self) -> (r: &str)
        ensures
            r@ == self.xsrf_token@,
    {
        self.xsrf_token.as_str()
    }

    /// Whether a client-supplied XSRF token matches the context's,
    /// compared without stopping at the first mismatch.
    pub fn check_xsrf_token(&self, token: &str) -> (r: bool)
        ensures
            r == (token@ == self.xsrf_token@),
    {
        tokens_match(token, self.xsrf_token.as_str())
    }

    /// The user agent of the request, if one was sent.
    pub fn user_agent(&self) -> (r: &Option<String>)
        ensures
            r == &self.user_agent,
    {
        &self.user_agent
    }

    /// The remote address of the request, if known.
    pub fn remote_ip_address(&self) -> (r: &Option<String>)
        ensures
            r == &self.remote_ip,
    {
        &self.remote_ip
    }
}

} // verus!
