//! The login / session engine.
//!
//! A login row walks through four states: pending after issuance, active
//! once the email token is claimed, implicitly expired when its window
//! passes, and revoked once its user revokes it. Issuance is rate limited
//! per user; session validation slides the expiry window forward.

use crate::clock::{Instant, EMAIL_TOKEN_LEN, LOGIN_CLAIM_WINDOW_SECS, LOGIN_LIMIT_PER_HOUR,
    LOGIN_RATE_WINDOW_SECS, SESSION_SLIDING_TTL_SECS, SESSION_TOKEN_LEN};
use crate::context::Context;
use crate::errors::Error;
use crate::ids::{LoginID, UserID};
use crate::model::{count_recent_logins, lemma_count_recent_logins_bounds,
    lemma_login_index_by_id_found, lemma_login_index_by_id_none,
    lemma_login_index_by_session_found, lemma_login_index_by_session_none, login_index_by_id,
    login_index_by_session, session_matches, Login, Store};
use crate::random::{alnum_alphabet, random_alnum_token, random_safe_token, safe_alphabet};
use crate::strutil::{clone_opt_string, opt_string_views_match, str_equal, tokens_match};
use vstd::prelude::*;
use vstd::std_specs::vec::vec_index_mut;

verus! {

/// The shape of a freshly issued login row at `now` for `user`.
pub open spec fn fresh_login_spec(l: Login, user: Seq<char>, now: Instant) -> bool {
    &&& l.user_id@ == user
    &&& !l.claimed
    &&& l.session_token is None
    &&& !l.revoked
    &&& l.created_at == now
    &&& l.updated_at == now
    &&& l.last_used == now
    &&& l.claim_until.secs == now.secs + LOGIN_CLAIM_WINDOW_SECS
    &&& l.email_token@.len() == EMAIL_TOKEN_LEN
    &&& forall|i: int|
        0 <= i < l.email_token@.len() ==> alnum_alphabet().contains(#[trigger] l.email_token@[i])
    &&& l.last_user_agent is None
    &&& l.last_remote_ip is None
}

/// Whether two login rows agree on every observable field.
pub open spec fn login_views_match(a: Login, b: Login) -> bool {
    &&& a.id@ == b.id@
    &&& a.user_id@ == b.user_id@
    &&& a.email_token@ == b.email_token@
    &&& a.claim_until == b.claim_until
    &&& a.claimed == b.claimed
    &&& match (a.session_token, b.session_token) {
        (Some(x), Some(y)) => x@ == y@,
        (None, None) => true,
        _ => false,
    }
    &&& a.last_used == b.last_used
    &&& a.revoked == b.revoked
    &&& a.created_at == b.created_at
    &&& a.updated_at == b.updated_at
}

/// What claiming the login at index `i` with `submitted` at `now`
/// decides, before any token is minted.
pub open spec fn claim_outcome(
    logins: Seq<Login>,
    i: int,
    submitted: Seq<char>,
    now: Instant,
) -> Result<(), Error> {
    if !(0 <= i < logins.len()) {
        Err(Error::Internal)
    } else if logins[i].claimed {
        Err(Error::AlreadyClaimed)
    } else if logins[i].claim_until.secs < now.secs {
        Err(Error::Expired)
    } else if submitted != logins[i].email_token@ {
        Err(Error::InvalidToken)
    } else {
        Ok(())
    }
}

/// What validating `token` against the table at `now` decides: the id of
/// the session's user, or the failure that leaves the context anonymous.
pub open spec fn use_session_outcome(
    logins: Seq<Login>,
    token: Seq<char>,
    now: Instant,
) -> Result<Seq<char>, Error> {
    let i = login_index_by_session(logins, token);
    if i == -1 {
        Err(Error::SessionNotFound)
    } else {
        let l = logins[i];
        if l.last_used.secs + SESSION_SLIDING_TTL_SECS < now.secs {
            Err(Error::SessionExpired)
        } else if l.revoked {
            Err(Error::SessionRevoked)
        } else if !l.claimed {
            Err(Error::SessionPending)
        } else {
            Ok(l.user_id@)
        }
    }
}

/// Index of the first login of `user` carrying `token` as its email
/// token, or `-1`.
pub open spec fn login_index_by_user_token(
    logins: Seq<Login>,
    user: Seq<char>,
    token: Seq<char>,
) -> int
    decreases logins.len(),
{
    if logins.len() == 0 {
        -1
    } else if logins[0].user_id@ == user && logins[0].email_token@ == token {
        0
    } else if login_index_by_user_token(logins.drop_first(), user, token) == -1 {
        -1
    } else {
        1 + login_index_by_user_token(logins.drop_first(), user, token)
    }
}

/// A first match at `k` pins the index.
pub proof fn lemma_login_index_by_user_token_found(
    logins: Seq<Login>,
    user: Seq<char>,
    token: Seq<char>,
    k: int,
)
    requires
        0 <= k < logins.len(),
        logins[k].user_id@ == user && logins[k].email_token@ == token,
        forall|j: int|
            0 <= j < k ==> !(logins[j].user_id@ == user && logins[j].email_token@ == token),
    ensures
        login_index_by_user_token(logins, user, token) == k,
    decreases logins.len(),
{
    if k > 0 {
        lemma_login_index_by_user_token_found(logins.drop_first(), user, token, k - 1);
    }
}

/// No match anywhere pins the index to `-1`.
pub proof fn lemma_login_index_by_user_token_none(
    logins: Seq<Login>,
    user: Seq<char>,
    token: Seq<char>,
)
    requires
        forall|j: int|
            0 <= j < logins.len() ==> !(logins[j].user_id@ == user && logins[j].email_token@
                == token),
    ensures
        login_index_by_user_token(logins, user, token) == -1,
    decreases logins.len(),
{
    if logins.len() > 0 {
        lemma_login_index_by_user_token_none(logins.drop_first(), user, token);
    }
}

/// How many logins of `user` were created strictly after `cutoff`.
fn count_recent(logins: &Vec<Login>, user: &UserID, cutoff: i64) -> (r: u64)
    ensures
        r == count_recent_logins(logins@, user@, cutoff as int),
{
    let len = logins.len();
    let mut c: u64 = 0;
    let mut i: usize = 0;
    while i < len
        invariant
            len == logins@.len(),
            i <= len,
            c <= i,
            c == count_recent_logins(logins@.subrange(0, i as int), user@, cutoff as int),
        decreases len - i,
    {
        let l = &logins[i];
        proof {
            assert(logins@.subrange(0, i + 1).drop_last() =~= logins@.subrange(0, i as int));
            assert(logins@.subrange(0, i + 1).last() == logins@[i as int]);
        }
        if l.user_id.same(user) && l.created_at.secs > cutoff {
            c += 1;
        }
        i += 1;
    }
    proof {
        assert(logins@.subrange(0, len as int) =~= logins@);
    }
    c
}

/// Index of the first login with the given identifier.
fn find_by_id(logins: &Vec<Login>, id: &LoginID) -> (r: Option<usize>)
    ensures
        match r {
            Some(i) => i == login_index_by_id(logins@, id@) && i < logins@.len(),
            None => login_index_by_id(logins@, id@) == -1,
        },
{
    let len = logins.len();
    let mut i: usize = 0;
    while i < len
        invariant
            len == logins@.len(),
            i <= len,
            forall|j: int| 0 <= j < i ==> logins@[j].id@ != id@,
        decreases len - i,
    {
        if logins[i].id.same(id) {
            proof {
                lemma_login_index_by_id_found(logins@, id@, i as int);
            }
            return Some(i);
        }
        i += 1;
    }
    proof {
        lemma_login_index_by_id_none(logins@, id@);
    }
    None
}

/// Index of the first login carrying the given session token.
fn find_by_session(logins: &Vec<Login>, token: &str) -> (r: Option<usize>)
    ensures
        match r {
            Some(i) => i == login_index_by_session(logins@, token@) && i < logins@.len(),
            None => login_index_by_session(logins@, token@) == -1,
        },
{
    let len = logins.len();
    let mut i: usize = 0;
    while i < len
        invariant
            len == logins@.len(),
            i <= len,
            forall|j: int| 0 <= j < i ==> !session_matches(logins@[j], token@),
        decreases len - i,
    {
        let found = match &logins[i].session_token {
            Some(t) => str_equal(t.as_str(), token),
            None => false,
        };
        if found {
            proof {
                lemma_login_index_by_session_found(logins@, token@, i as int);
            }
            return Some(i);
        }
        i += 1;
    }
    proof {
        lemma_login_index_by_session_none(logins@, token@);
    }
    None
}

/// The logins that count as active sessions of `user` at `now`.
pub open spec fn active_logins(logins: Seq<Login>, user: Seq<char>, now: Instant) -> Seq<Login> {
    logins.filter(|l: Login| l.user_id@ == user && l.valid_spec(now))
}

impl Login {
    /// The ids of this user's active sessions at `now`, in creation
    /// order, oldest first.
    pub fn active_for_user(store: &Store, user_id: &UserID, now: Instant) -> (r: Vec<LoginID>)
        requires
            store.wf(),
        ensures
            r@.len() == active_logins(store.logins@, user_id@, now).len(),
            forall|k: int|
                0 <= k < r@.len() ==> (#[trigger] r@[k])@ == active_logins(
                    store.logins@,
                    user_id@,
                    now,
                )[k].id@,
    {
        let len = store.logins.len();
        let mut out: Vec<LoginID> = Vec::new();
        let mut i: usize = 0;
        while i < len
            invariant
                store.wf(),
                len == store.logins@.len(),
                i <= len,
                out@.len() == active_logins(
                    store.logins@.subrange(0, i as int),
                    user_id@,
                    now,
                ).len(),
                forall|k: int|
                    0 <= k < out@.len() ==> (#[trigger] out@[k])@ == active_logins(
                        store.logins@.subrange(0, i as int),
                        user_id@,
                        now,
                    )[k].id@,
            decreases len - i,
        {
            proof {
                reveal(Seq::filter);
                assert(store.logins@.subrange(0, i + 1).drop_last() =~= store.logins@.subrange(
                    0,
                    i as int,
                ));
                assert(store.logins@.subrange(0, i + 1).last() == store.logins@[i as int]);
            }
            let l = &store.logins[i];
            if l.user_id.same(user_id) && l.is_valid(&now) {
                out.push(l.id.duplicate());
                proof {
                    let pre = active_logins(store.logins@.subrange(0, i as int), user_id@, now);
                    let post = active_logins(store.logins@.subrange(0, i + 1), user_id@, now);
                    assert(post =~~= pre.push(store.logins@[i as int]));
                }
            } else {
                proof {
                    let pre = active_logins(store.logins@.subrange(0, i as int), user_id@, now);
                    let post = active_logins(store.logins@.subrange(0, i + 1), user_id@, now);
                    assert(post =~~= pre);
                }
            }
            i += 1;
        }
        proof {
            assert(store.logins@.subrange(0, len as int) =~= store.logins@);
        }
        out
    }

    /// Issue a new login for `user_id` at `now`: fails with
    /// `LoginRateLimited` once the user has reached the hourly limit,
    /// and otherwise appends a fresh pending row.
    pub fn create(store: &mut Store, now: Instant, user_id: &UserID) -> (r: Result<Login, Error>)
        requires
            old(store).wf(),
            now.wf_clock(),
            user_id.wf(),
        ensures
            final(store).wf(),
            final(store).users@ == old(store).users@,
            final(store).roles@ == old(store).roles@,
            final(store).invites@ == old(store).invites@,
            final(store).urls@ == old(store).urls@,
            final(store).comments@ == old(store).comments@,
            final(store).upvotes@ == old(store).upvotes@,
            match r {
                Ok(l) => {
                    &&& count_recent_logins(
                        old(store).logins@,
                        user_id@,
                        now.secs - LOGIN_RATE_WINDOW_SECS,
                    ) < LOGIN_LIMIT_PER_HOUR
                    &&& final(store).logins@.len() == old(store).logins@.len() + 1
                    &&& forall|i: int|
                        0 <= i < old(store).logins@.len() ==> final(store).logins@[i] == old(
                            store,
                        ).logins@[i]
                    &&& fresh_login_spec(final(store).logins@.last(), user_id@, now)
                    &&& login_views_match(l, final(store).logins@.last())
                    &&& l.wf()
                },
                Err(e) => {
                    &&& e == Error::LoginRateLimited
                    &&& count_recent_logins(
                        old(store).logins@,
                        user_id@,
                        now.secs - LOGIN_RATE_WINDOW_SECS,
                    ) >= LOGIN_LIMIT_PER_HOUR
                    &&& *final(store) == *old(store)
                },
            },
    {
        let cutoff = now.secs - LOGIN_RATE_WINDOW_SECS;
        let n = count_recent(&store.logins, user_id, cutoff);
        if n >= LOGIN_LIMIT_PER_HOUR {
            return Err(Error::LoginRateLimited);
        }
        let login = Login {
            id: LoginID::new(),
            created_at: now,
            updated_at: now,
            user_id: user_id.duplicate(),
            email_token: random_alnum_token(EMAIL_TOKEN_LEN),
            claim_until: now.plus(LOGIN_CLAIM_WINDOW_SECS),
            claimed: false,
            session_token: None,
            last_used: now,
            last_user_agent: None,
            last_remote_ip: None,
            revoked: false,
        };
        let ret = login.duplicate();
        store.logins.push(login);
        Ok(ret)
    }

    /// Claim the pending login at index `i` with the submitted email
    /// token; used by the claim paths once the row is located.
    pub(crate) fn claim_at(
        store: &mut Store,
        i: usize,
        email_token: &str,
        now: Instant,
    ) -> (r: Result<String, Error>)
        requires
            old(store).wf(),
            now.wf_clock(),
            i < old(store).logins@.len(),
        ensures
            final(store).wf(),
            final(store).users@ == old(store).users@,
            final(store).roles@ == old(store).roles@,
            final(store).invites@ == old(store).invites@,
            final(store).urls@ == old(store).urls@,
            final(store).comments@ == old(store).comments@,
            final(store).upvotes@ == old(store).upvotes@,
            match r {
                Ok(token) => {
                    &&& claim_outcome(old(store).logins@, i as int, email_token@, now) == Ok::<
                        _,
                        Error,
                    >(())
                    &&& token@.len() == SESSION_TOKEN_LEN
                    &&& final(store).logins@.len() == old(store).logins@.len()
                    &&& forall|j: int|
                        0 <= j < old(store).logins@.len() && j != i ==> final(store).logins@[j]
                            == old(store).logins@[j]
                    &&& {
                        let l_old = old(store).logins@[i as int];
                        let l_new = final(store).logins@[i as int];
                        &&& l_new.claimed
                        &&& l_new.session_token matches Some(t) && t@ == token@
                        &&& l_new.last_used == now
                        &&& l_new.updated_at == now
                        &&& l_new.id@ == l_old.id@
                        &&& l_new.user_id@ == l_old.user_id@
                        &&& l_new.email_token@ == l_old.email_token@
                        &&& l_new.claim_until == l_old.claim_until
                        &&& l_new.created_at == l_old.created_at
                        &&& l_new.revoked == l_old.revoked
                    }
                },
                Err(e) => {
                    &&& claim_outcome(old(store).logins@, i as int, email_token@, now) == Err::<
                        (),
                        _,
                    >(e)
                    &&& *final(store) == *old(store)
                },
            },
    {
        if store.logins[i].claimed {
            return Err(Error::AlreadyClaimed);
        }
        if store.logins[i].claim_until.secs < now.secs {
            return Err(Error::Expired);
        }
        if !tokens_match(store.logins[i].email_token.as_str(), email_token) {
            return Err(Error::InvalidToken);
        }
        let token = random_safe_token(SESSION_TOKEN_LEN);
        let stored = token.clone();
        let l = vec_index_mut(&mut store.logins, i);
        l.claimed = true;
        l.session_token = Some(stored);
        l.last_used = now;
        l.updated_at = now;
        Ok(token)
    }

    /// Claim a pending login with the submitted email token: exactly one
    /// claim can ever succeed, inside the claim window and with the right
    /// token, and it mints the session token.
    pub fn claim(
        store: &mut Store,
        login_id: &LoginID,
        email_token: &str,
        now: Instant,
    ) -> (r: Result<String, Error>)
        requires
            old(store).wf(),
            now.wf_clock(),
        ensures
            final(store).wf(),
            final(store).users@ == old(store).users@,
            final(store).roles@ == old(store).roles@,
            final(store).invites@ == old(store).invites@,
            final(store).urls@ == old(store).urls@,
            final(store).comments@ == old(store).comments@,
            final(store).upvotes@ == old(store).upvotes@,
            match r {
                Ok(token) => {
                    let i = login_index_by_id(old(store).logins@, login_id@);
                    &&& claim_outcome(old(store).logins@, i, email_token@, now) == Ok::<
                        _,
                        Error,
                    >(())
                    &&& token@.len() == SESSION_TOKEN_LEN
                    &&& final(store).logins@.len() == old(store).logins@.len()
                    &&& forall|j: int|
                        0 <= j < old(store).logins@.len() && j != i ==> final(store).logins@[j]
                            == old(store).logins@[j]
                    &&& {
                        let l_old = old(store).logins@[i];
                        let l_new = final(store).logins@[i];
                        &&& l_new.claimed
                        &&& l_new.session_token matches Some(t) && t@ == token@
                        &&& l_new.last_used == now
                        &&& l_new.updated_at == now
                        &&& l_new.id@ == l_old.id@
                        &&& l_new.user_id@ == l_old.user_id@
                        &&& l_new.email_token@ == l_old.email_token@
                        &&& l_new.claim_until == l_old.claim_until
                        &&& l_new.created_at == l_old.created_at
                        &&& l_new.revoked == l_old.revoked
                    }
                },
                Err(e) => {
                    let i = login_index_by_id(old(store).logins@, login_id@);
                    &&& claim_outcome(old(store).logins@, i, email_token@, now) == Err::<
                        (),
                        _,
                    >(e)
                    &&& *final(store) == *old(store)
                },
            },
    {
        let i = match find_by_id(&store.logins, login_id) {
            Some(i) => i,
            None => {
                return Err(Error::Internal);
            },
        };
        Self::claim_at(store, i, email_token, now)
    }

    /// Validate a session token on behalf of a request: on success the
    /// sliding window is renewed, the audit fields are refreshed, and the
    /// session's user is attached to the context. Every failure leaves
    /// the store and the context untouched.
    pub fn use_session(store: &mut Store, ctx: &mut Context, session_token: &str) -> (r: Result<
        (),
        Error,
    >)
        requires
            old(store).wf(),
            old(ctx).wf(),
            old(ctx).request_time.wf_clock(),
        ensures
            final(store).wf(),
            final(ctx).wf(),
            final(store).users@ == old(store).users@,
            final(store).roles@ == old(store).roles@,
            final(store).invites@ == old(store).invites@,
            final(store).urls@ == old(store).urls@,
            final(store).comments@ == old(store).comments@,
            final(store).upvotes@ == old(store).upvotes@,
            match r {
                Ok(()) => {
                    let i = login_index_by_session(old(store).logins@, session_token@);
                    let outcome = use_session_outcome(
                        old(store).logins@,
                        session_token@,
                        old(ctx).request_time,
                    );
                    &&& outcome matches Ok(u)
                    &&& final(ctx).login_session matches Some((uid, tok)) && uid@
                        == outcome.unwrap() && tok@ == session_token@
                    &&& final(ctx).xsrf_token@ == old(ctx).xsrf_token@
                    &&& final(ctx).request_time == old(ctx).request_time
                    &&& final(ctx).user_agent == old(ctx).user_agent
                    &&& final(ctx).remote_ip == old(ctx).remote_ip
                    &&& final(store).logins@.len() == old(store).logins@.len()
                    &&& forall|j: int|
                        0 <= j < old(store).logins@.len() && j != i ==> final(store).logins@[j]
                            == old(store).logins@[j]
                    &&& {
                        let l_old = old(store).logins@[i];
                        let l_new = final(store).logins@[i];
                        &&& l_new.last_used == old(ctx).request_time
                        &&& l_new.updated_at == old(ctx).request_time
                        &&& opt_string_views_match(l_new.last_user_agent, old(ctx).user_agent)
                        &&& opt_string_views_match(l_new.last_remote_ip, old(ctx).remote_ip)
                        &&& l_new.id@ == l_old.id@
                        &&& l_new.user_id@ == l_old.user_id@
                        &&& l_new.email_token@ == l_old.email_token@
                        &&& l_new.claim_until == l_old.claim_until
                        &&& l_new.claimed == l_old.claimed
                        &&& match (l_new.session_token, l_old.session_token) {
                            (Some(x), Some(y)) => x@ == y@,
                            (None, None) => true,
                            _ => false,
                        }
                        &&& l_new.created_at == l_old.created_at
                        &&& l_new.revoked == l_old.revoked
                    }
                },
                Err(e) => {
                    &&& use_session_outcome(
                        old(store).logins@,
                        session_token@,
                        old(ctx).request_time,
                    ) == Err::<Seq<char>, _>(e)
                    &&& *final(store) == *old(store)
                    &&& *final(ctx) == *old(ctx)
                },
            },
    {
        let i = match find_by_session(&store.logins, session_token) {
            Some(i) => i,
            None => {
                return Err(Error::SessionNotFound);
            },
        };
        let now = ctx.now();
        if store.logins[i].last_used.secs + SESSION_SLIDING_TTL_SECS < now.secs {
            return Err(Error::SessionExpired);
        }
        if store.logins[i].revoked {
            return Err(Error::SessionRevoked);
        }
        if !store.logins[i].claimed {
            return Err(Error::SessionPending);
        }
        let user_id = store.logins[i].user_id.duplicate();
        let ua = clone_opt_string(ctx.user_agent());
        let ip = clone_opt_string(ctx.remote_ip_address());
        let l = vec_index_mut(&mut store.logins, i);
        l.last_used = now;
        l.updated_at = now;
        l.last_user_agent = ua;
        l.last_remote_ip = ip;
        ctx.set_logged_in_user(user_id, session_token.to_owned());
        Ok(())
    }

    /// Revoke a login: only the session's own user may do it, and once
    /// revoked the login never validates again.
    pub fn revoke(
        store: &mut Store,
        login_id: &LoginID,
        caller: &UserID,
        now: Instant,
    ) -> (r: Result<(), Error>)
        requires
            old(store).wf(),
            now.wf_clock(),
        ensures
            final(store).wf(),
            final(store).users@ == old(store).users@,
            final(store).roles@ == old(store).roles@,
            final(store).invites@ == old(store).invites@,
            final(store).urls@ == old(store).urls@,
            final(store).comments@ == old(store).comments@,
            final(store).upvotes@ == old(store).upvotes@,
            match r {
                Ok(()) => {
                    let i = login_index_by_id(old(store).logins@, login_id@);
                    &&& 0 <= i < old(store).logins@.len()
                    &&& old(store).logins@[i].user_id@ == caller@
                    &&& final(store).logins@.len() == old(store).logins@.len()
                    &&& forall|j: int|
                        0 <= j < old(store).logins@.len() && j != i ==> final(store).logins@[j]
                            == old(store).logins@[j]
                    &&& {
                        let l_old = old(store).logins@[i];
                        let l_new = final(store).logins@[i];
                        &&& l_new.revoked
                        &&& l_new.updated_at == now
                        &&& l_new.id@ == l_old.id@
                        &&& l_new.user_id@ == l_old.user_id@
                        &&& l_new.email_token@ == l_old.email_token@
                        &&& l_new.claim_until == l_old.claim_until
                        &&& l_new.claimed == l_old.claimed
                        &&& match (l_new.session_token, l_old.session_token) {
                            (Some(x), Some(y)) => x@ == y@,
                            (None, None) => true,
                            _ => false,
                        }
                        &&& l_new.last_used == l_old.last_used
                        &&& l_new.created_at == l_old.created_at
                    }
                },
                Err(e) => {
                    let i = login_index_by_id(old(store).logins@, login_id@);
                    &&& *final(store) == *old(store)
                    &&& if i == -1 {
                        e == Error::SessionNotFound
                    } else {
                        e == Error::NotAuthorized && old(store).logins@[i].user_id@ != caller@
                    }
                },
            },
    {
        let i = match find_by_id(&store.logins, login_id) {
            Some(i) => i,
            None => {
                return Err(Error::SessionNotFound);
            },
        };
        if !store.logins[i].user_id.same(caller) {
            return Err(Error::NotAuthorized);
        }
        let l = vec_index_mut(&mut store.logins, i);
        l.revoked = true;
        l.updated_at = now;
        Ok(())
    }
}

/// Session sliding: a login whose last use was renewed at `now1` stays
/// valid at every instant up to ninety days later, so repeated timely use
/// keeps it valid indefinitely.
pub proof fn lemma_session_sliding(l: Login, now1: Instant, now2: Instant)
    requires
        l.claimed,
        !l.revoked,
        l.last_used == now1,
        now2.secs <= now1.secs + SESSION_SLIDING_TTL_SECS,
    ensures
        l.valid_spec(now2),
{
}

/// Session expiry is permanent: validation fails `SessionExpired` and
/// leaves the table unchanged, so it keeps failing at every later
/// instant.
pub proof fn lemma_session_expiry_permanent(
    logins: Seq<Login>,
    token: Seq<char>,
    now2: Instant,
    now3: Instant,
)
    requires
        use_session_outcome(logins, token, now2) == Err::<Seq<char>, _>(Error::SessionExpired),
        now2.secs <= now3.secs,
    ensures
        use_session_outcome(logins, token, now3) == Err::<Seq<char>, _>(Error::SessionExpired),
{
}

/// Single-use email token: once a claim has succeeded on a login, every
/// further claim of that login fails with `AlreadyClaimed`, whatever
/// token is submitted and whenever it happens.
pub proof fn lemma_email_token_single_use(
    pre: Seq<Login>,
    post: Seq<Login>,
    i: int,
    first_submitted: Seq<char>,
    first_now: Instant,
    submitted: Seq<char>,
    now: Instant,
)
    requires
        claim_outcome(pre, i, first_submitted, first_now) == Ok::<_, Error>(()),
        post.len() == pre.len(),
        post[i].claimed,
    ensures
        claim_outcome(post, i, submitted, now) == Err::<(), _>(Error::AlreadyClaimed),
{
}

/// Rate limit: three logins issued for one user within an hour of `t4`
/// push the rolling count to at least the hourly limit, so a fourth
/// issuance at `t4` fails with `LoginRateLimited`.
pub proof fn lemma_login_rate_limit(
    base: Seq<Login>,
    l1: Login,
    l2: Login,
    l3: Login,
    user: Seq<char>,
    t4: Instant,
)
    requires
        l1.user_id@ == user && l1.created_at.secs > t4.secs - LOGIN_RATE_WINDOW_SECS,
        l2.user_id@ == user && l2.created_at.secs > t4.secs - LOGIN_RATE_WINDOW_SECS,
        l3.user_id@ == user && l3.created_at.secs > t4.secs - LOGIN_RATE_WINDOW_SECS,
    ensures
        count_recent_logins(
            base.push(l1).push(l2).push(l3),
            user,
            t4.secs - LOGIN_RATE_WINDOW_SECS,
        ) >= LOGIN_LIMIT_PER_HOUR,
{
    let cutoff = t4.secs - LOGIN_RATE_WINDOW_SECS;
    let s1 = base.push(l1);
    let s2 = s1.push(l2);
    let s3 = s2.push(l3);
    lemma_count_recent_logins_bounds(base, user, cutoff);
    assert(s1.drop_last() =~= base);
    assert(s2.drop_last() =~= s1);
    assert(s3.drop_last() =~= s2);
    assert(count_recent_logins(s1, user, cutoff) == count_recent_logins(base, user, cutoff) + 1);
    assert(count_recent_logins(s2, user, cutoff) == count_recent_logins(s1, user, cutoff) + 1);
    assert(count_recent_logins(s3, user, cutoff) == count_recent_logins(s2, user, cutoff) + 1);
}

} // verus!
