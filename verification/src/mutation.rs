//! The mutation surface: every state-changing operation passes through
//! the XSRF gate before it may touch the store.
//!
//! Each mutation first compares the client-supplied token with the
//! context's token; on a mismatch it fails with `XsrfMismatch` and the
//! store is untouched. The exact behaviour of each operation is stated on
//! the engine function it dispatches to.

use crate::clock::MAX_INVITES_PER_USER;
use crate::comments::NewCommentInput;
use crate::context::Context;
use crate::email::EmailMessage;
use crate::errors::Error;
use crate::ids::{CommentID, LoginID, UrlID};
use crate::invites::invite_create_post;
use crate::model::{count_invites_by, count_recent_logins, has_capability, user_index_by_email,
    Comment, Invite, Login, Role, Store, Url, User};
use crate::permission::{Capability, Permission};
use crate::roles::role_create_post;
use crate::users::{normal_email, user_views_match, NewUserInput, UpdateUserInput};
use vstd::prelude::*;

verus! {

/// The query surface: read-only entry points.
pub struct Query;

/// The mutation surface: state-changing entry points, all XSRF-gated.
pub struct Mutation;

/// Whether the client-supplied token matches the context token.
pub open spec fn xsrf_ok(ctx: Context, token: Seq<char>) -> bool {
    token == ctx.xsrf_token@
}

impl Query {
    /// Resolve a user by id, as the query surface exposes it.
    pub fn fetch_user(store: &Store, ctx: &Context, id: &crate::ids::UserID) -> (r: Result<
        User,
        Error,
    >)
        requires
            store.wf(),
        ensures
            match r {
                Ok(u) => u.wf(),
                Err(e) => e == Error::Internal,
            },
    {
        let _ = ctx;
        User::find(store, id)
    }
}

impl Mutation {
    /// Register a new user by claiming the provided invitation token.
    pub fn register_user(
        store: &mut Store,
        ctx: &Context,
        xsrf: &str,
        input: NewUserInput,
        token: &str,
    ) -> (r: Result<User, Error>)
        requires
            old(store).wf(),
            ctx.wf(),
            ctx.request_time.wf_clock(),
        ensures
            final(store).wf(),
            !xsrf_ok(*ctx, xsrf@) ==> r == Err::<User, _>(Error::XsrfMismatch) && *final(store)
                == *old(store),
            xsrf_ok(*ctx, xsrf@) ==> match r {
                Ok(u) => {
                    &&& u.wf()
                    &&& final(store).users@.len() == old(store).users@.len() + 1
                    &&& user_views_match(u, final(store).users@.last())
                    &&& final(store).users@.last().email@ == normal_email(input.email@)
                    &&& crate::model::invite_index_by_token(old(store).invites@, token@) >= 0
                    &&& exists|j: int|
                        0 <= j < final(store).invites@.len() && ((
                        #[trigger] final(store).invites@[j]).claimed_by matches Some(c) && c@
                            == u.id@)
                },
                Err(e) => {
                    &&& final(store).users@ == old(store).users@
                    &&& final(store).invites@ == old(store).invites@
                    &&& {
                        let ti = crate::model::invite_index_by_token(
                            old(store).invites@,
                            token@,
                        );
                        if ti == -1 {
                            e == Error::Internal
                        } else if !crate::users::valid_new_user_spec(input.name@, input.email@) {
                            e == Error::InvalidInput
                        } else if user_index_by_email(
                            old(store).users@,
                            normal_email(input.email@),
                        ) != -1 {
                            e == Error::Internal
                        } else {
                            crate::invites::invite_claim_outcome(
                                old(store).invites@,
                                crate::model::invite_index_by_id(
                                    old(store).invites@,
                                    old(store).invites@[ti].id@,
                                ),
                            ) == Err::<(), _>(e)
                        }
                    }
                },
            },
    {
        if !ctx.check_xsrf_token(xsrf) {
            return Err(Error::XsrfMismatch);
        }
        let invite = match Invite::find_by_token(store, token) {
            Ok(inv) => inv,
            Err(e) => {
                return Err(e);
            },
        };
        User::create_with_invite(store, ctx.now(), input, &invite.id)
    }

    /// Update details of the logged-in user.
    pub fn update_user(
        store: &mut Store,
        ctx: &Context,
        xsrf: &str,
        input: UpdateUserInput,
    ) -> (r: Result<(), Error>)
        requires
            old(store).wf(),
            ctx.wf(),
            ctx.request_time.wf_clock(),
        ensures
            final(store).wf(),
            !xsrf_ok(*ctx, xsrf@) ==> r == Err::<(), _>(Error::XsrfMismatch) && *final(store)
                == *old(store),
            xsrf_ok(*ctx, xsrf@) ==> match r {
                Ok(()) => {
                    let u = ctx.spec_user_id().unwrap();
                    let i = crate::model::user_index_by_id(old(store).users@, u);
                    &&& ctx.spec_user_id() is Some
                    &&& crate::users::update_input_valid(input)
                    &&& 0 <= i < old(store).users@.len()
                    &&& final(store).users@.len() == old(store).users@.len()
                    &&& forall|j: int|
                        0 <= j < old(store).users@.len() && j != i
                            ==> final(store).users@[j] == old(store).users@[j]
                    &&& final(store).users@[i].id@ == old(store).users@[i].id@
                    &&& final(store).users@[i].name@ == match input.name {
                        Some(n) => crate::strutil::trim_spec(n@),
                        None => old(store).users@[i].name@,
                    }
                    &&& final(store).users@[i].email@ == match input.email {
                        Some(em) => normal_email(em@),
                        None => old(store).users@[i].email@,
                    }
                    &&& final(store).users@[i].updated_at == if input.name is Some
                        || input.email is Some {
                        ctx.request_time
                    } else {
                        old(store).users@[i].updated_at
                    }
                },
                Err(e) => {
                    &&& final(store).users@ == old(store).users@
                    &&& final(store).roles@ == old(store).roles@
                    &&& final(store).invites@ == old(store).invites@
                    &&& final(store).logins@ == old(store).logins@
                    &&& final(store).urls@ == old(store).urls@
                    &&& final(store).comments@ == old(store).comments@
                    &&& final(store).upvotes@ == old(store).upvotes@
                    &&& if ctx.spec_user_id() is None {
                        e == Error::NotAuthenticated
                    } else if !crate::users::update_input_valid(input) {
                        e == Error::InvalidInput
                    } else {
                        e == Error::Internal && crate::model::user_index_by_id(
                            old(store).users@,
                            ctx.spec_user_id().unwrap(),
                        ) == -1
                    }
                },
            },
    {
        if !ctx.check_xsrf_token(xsrf) {
            return Err(Error::XsrfMismatch);
        }
        let caller = match ctx.user_id() {
            Ok(u) => u,
            Err(e) => {
                return Err(e);
            },
        };
        User::update(store, ctx.now(), &caller, input)
    }

    /// Grant a permission to the user with the given email; only holders
    /// of the modify-user-roles capability may do it.
    pub fn grant_permission(
        store: &mut Store,
        ctx: &Context,
        xsrf: &str,
        permission: Permission,
        email: &str,
    ) -> (r: Result<Role, Error>)
        requires
            old(store).wf(),
            ctx.wf(),
            ctx.request_time.wf_clock(),
        ensures
            final(store).wf(),
            !xsrf_ok(*ctx, xsrf@) ==> r == Err::<Role, _>(Error::XsrfMismatch) && *final(store)
                == *old(store),
            xsrf_ok(*ctx, xsrf@) ==> match r {
                Ok(role) => {
                    &&& ctx.spec_user_id() matches Some(u) && has_capability(
                        old(store).roles@,
                        u,
                        Capability::ModifyUserRoles,
                    )
                    &&& role_create_post(
                        *old(store),
                        *final(store),
                        role,
                        role.user_id@,
                        permission,
                        ctx.request_time,
                    )
                    &&& {
                        let i = user_index_by_email(old(store).users@, normal_email(email@));
                        0 <= i < old(store).users@.len() && role.user_id@ == old(
                            store,
                        ).users@[i].id@
                    }
                },
                Err(e) => {
                    &&& *final(store) == *old(store)
                    &&& if ctx.spec_user_id() is None {
                        e == Error::NotAuthenticated
                    } else if !has_capability(
                        old(store).roles@,
                        ctx.spec_user_id().unwrap(),
                        Capability::ModifyUserRoles,
                    ) {
                        e == Error::NotAuthorized
                    } else {
                        e == Error::Internal && (!vstd::utf8::is_ascii_chars(
                            crate::strutil::trim_spec(email@),
                        ) || user_index_by_email(old(store).users@, normal_email(email@)) == -1)
                    }
                },
            },
    {
        if !ctx.check_xsrf_token(xsrf) {
            return Err(Error::XsrfMismatch);
        }
        let caller = match ctx.user_id() {
            Ok(u) => u,
            Err(e) => {
                return Err(e);
            },
        };
        if let Err(e) = User::check_permissions(store, &caller, Capability::ModifyUserRoles) {
            return Err(e);
        }
        let target = match User::find_by_email(store, email) {
            Ok(u) => u,
            Err(e) => {
                return Err(e);
            },
        };
        Ok(Role::create(store, ctx.now(), &target.id, permission))
    }

    /// Revoke a permission from the user with the given email; only
    /// holders of the modify-user-roles capability may do it.
    pub fn revoke_permission(
        store: &mut Store,
        ctx: &Context,
        xsrf: &str,
        permission: Permission,
        email: &str,
    ) -> (r: Result<Role, Error>)
        requires
            old(store).wf(),
            ctx.wf(),
            ctx.request_time.wf_clock(),
        ensures
            final(store).wf(),
            !xsrf_ok(*ctx, xsrf@) ==> r == Err::<Role, _>(Error::XsrfMismatch) && *final(store)
                == *old(store),
            xsrf_ok(*ctx, xsrf@) ==> match r {
                Ok(role) => {
                    &&& ctx.spec_user_id() matches Some(u) && has_capability(
                        old(store).roles@,
                        u,
                        Capability::ModifyUserRoles,
                    )
                    &&& role.permission == permission
                    &&& {
                        let ui = user_index_by_email(old(store).users@, normal_email(email@));
                        let ri = crate::roles::role_index_by_user_permission(
                            old(store).roles@,
                            old(store).users@[ui].id@,
                            permission,
                        );
                        &&& 0 <= ui < old(store).users@.len()
                        &&& 0 <= ri < old(store).roles@.len()
                        &&& final(store).roles@ == old(store).roles@.remove(ri)
                        &&& role.user_id@ == old(store).users@[ui].id@
                    }
                },
                Err(e) => {
                    &&& *final(store) == *old(store)
                    &&& if ctx.spec_user_id() is None {
                        e == Error::NotAuthenticated
                    } else if !has_capability(
                        old(store).roles@,
                        ctx.spec_user_id().unwrap(),
                        Capability::ModifyUserRoles,
                    ) {
                        e == Error::NotAuthorized
                    } else if !vstd::utf8::is_ascii_chars(crate::strutil::trim_spec(email@))
                        || user_index_by_email(old(store).users@, normal_email(email@)) == -1 {
                        e == Error::Internal
                    } else {
                        e == Error::Internal && crate::roles::role_index_by_user_permission(
                            old(store).roles@,
                            old(store).users@[user_index_by_email(
                                old(store).users@,
                                normal_email(email@),
                            )].id@,
                            permission,
                        ) == -1
                    }
                },
            },
    {
        if !ctx.check_xsrf_token(xsrf) {
            return Err(Error::XsrfMismatch);
        }
        let caller = match ctx.user_id() {
            Ok(u) => u,
            Err(e) => {
                return Err(e);
            },
        };
        if let Err(e) = User::check_permissions(store, &caller, Capability::ModifyUserRoles) {
            return Err(e);
        }
        let target = match User::find_by_email(store, email) {
            Ok(u) => u,
            Err(e) => {
                return Err(e);
            },
        };
        Role::delete_by_permission(store, &target.id, permission)
    }

    /// Request a login code for the account with the given email; the
    /// returned message carries the code and is handed to the mailer.
    pub fn request_login(store: &mut Store, ctx: &Context, xsrf: &str, email: &str) -> (r: Result<
        EmailMessage,
        Error,
    >)
        requires
            old(store).wf(),
            ctx.wf(),
            ctx.request_time.wf_clock(),
        ensures
            final(store).wf(),
            !xsrf_ok(*ctx, xsrf@) ==> r == Err::<EmailMessage, _>(Error::XsrfMismatch)
                && *final(store) == *old(store),
            xsrf_ok(*ctx, xsrf@) ==> match r {
                Ok(msg) => {
                    let ui = user_index_by_email(old(store).users@, normal_email(email@));
                    &&& 0 <= ui < old(store).users@.len()
                    &&& final(store).logins@.len() == old(store).logins@.len() + 1
                    &&& crate::logins::fresh_login_spec(
                        final(store).logins@.last(),
                        old(store).users@[ui].id@,
                        ctx.request_time,
                    )
                    &&& {
                        let ui2 = crate::model::user_index_by_id(
                            old(store).users@,
                            old(store).users@[ui].id@,
                        );
                        &&& 0 <= ui2 < old(store).users@.len()
                        &&& msg.to_email@ == old(store).users@[ui2].email@
                        &&& msg.body@ == crate::email::login_email_body_spec(
                            old(store).users@[ui2].email@,
                            final(store).logins@.last().email_token@,
                        )
                    }
                },
                Err(e) => {
                    &&& *final(store) == *old(store)
                    &&& {
                        let ui = user_index_by_email(old(store).users@, normal_email(email@));
                        if !vstd::utf8::is_ascii_chars(crate::strutil::trim_spec(email@)) || ui
                            == -1 {
                            e == Error::Internal
                        } else if crate::model::user_index_by_id(
                            old(store).users@,
                            old(store).users@[ui].id@,
                        ) == -1 {
                            e == Error::Internal
                        } else {
                            e == Error::LoginRateLimited && count_recent_logins(
                                old(store).logins@,
                                old(store).users@[ui].id@,
                                ctx.request_time.secs - crate::clock::LOGIN_RATE_WINDOW_SECS,
                            ) >= crate::clock::LOGIN_LIMIT_PER_HOUR
                        }
                    }
                },
            },
    {
        if !ctx.check_xsrf_token(xsrf) {
            return Err(Error::XsrfMismatch);
        }
        let user = match User::find_by_email(store, email) {
            Ok(u) => u,
            Err(e) => {
                return Err(e);
            },
        };
        User::request_login(store, ctx.now(), &user.id)
    }

    /// Log in with an email and the code received by email; the session
    /// token comes back to be sealed into the session cookie.
    pub fn login(store: &mut Store, ctx: &Context, xsrf: &str, email: &str, token: &str) -> (r:
        Result<String, Error>)
        requires
            old(store).wf(),
            ctx.wf(),
            ctx.request_time.wf_clock(),
        ensures
            final(store).wf(),
            !xsrf_ok(*ctx, xsrf@) ==> r == Err::<String, _>(Error::XsrfMismatch) && *final(store)
                == *old(store),
            xsrf_ok(*ctx, xsrf@) ==> match r {
                Ok(session_token) => {
                    let ui = user_index_by_email(old(store).users@, normal_email(email@));
                    &&& 0 <= ui < old(store).users@.len()
                    &&& {
                        let i = crate::logins::login_index_by_user_token(
                            old(store).logins@,
                            old(store).users@[ui].id@,
                            token@,
                        );
                        &&& 0 <= i < old(store).logins@.len()
                        &&& session_token@.len() == crate::clock::SESSION_TOKEN_LEN
                        &&& final(store).logins@[i].claimed
                        &&& (final(store).logins@[i].session_token matches Some(t) && t@
                            == session_token@)
                        &&& final(store).logins@[i].last_used == ctx.request_time
                    }
                },
                Err(e) => {
                    &&& *final(store) == *old(store)
                    &&& {
                        let ui = user_index_by_email(old(store).users@, normal_email(email@));
                        if !vstd::utf8::is_ascii_chars(crate::strutil::trim_spec(email@)) || ui
                            == -1 {
                            e == Error::Internal
                        } else {
                            let i = crate::logins::login_index_by_user_token(
                                old(store).logins@,
                                old(store).users@[ui].id@,
                                token@,
                            );
                            if i == -1 {
                                e == Error::InvalidToken
                            } else {
                                crate::logins::claim_outcome(
                                    old(store).logins@,
                                    i,
                                    token@,
                                    ctx.request_time,
                                ) == Err::<(), _>(e)
                            }
                        }
                    }
                },
            },
    {
        if !ctx.check_xsrf_token(xsrf) {
            return Err(Error::XsrfMismatch);
        }
        let user = match User::find_by_email(store, email) {
            Ok(u) => u,
            Err(e) => {
                return Err(e);
            },
        };
        User::login(store, ctx.now(), &user.id, token)
    }

    /// Revoke one of the logged-in user's own login sessions.
    pub fn revoke_login(store: &mut Store, ctx: &Context, xsrf: &str, login: &LoginID) -> (r:
        Result<(), Error>)
        requires
            old(store).wf(),
            ctx.wf(),
            ctx.request_time.wf_clock(),
        ensures
            final(store).wf(),
            !xsrf_ok(*ctx, xsrf@) ==> r == Err::<(), _>(Error::XsrfMismatch) && *final(store)
                == *old(store),
            xsrf_ok(*ctx, xsrf@) ==> match r {
                Ok(()) => {
                    let i = crate::model::login_index_by_id(old(store).logins@, login@);
                    &&& 0 <= i < old(store).logins@.len()
                    &&& ctx.spec_user_id() matches Some(u) && old(store).logins@[i].user_id@
                        == u
                    &&& final(store).logins@.len() == old(store).logins@.len()
                    &&& final(store).logins@[i].revoked
                    &&& forall|j: int|
                        0 <= j < old(store).logins@.len() && j != i
                            ==> final(store).logins@[j] == old(store).logins@[j]
                },
                Err(e) => {
                    &&& *final(store) == *old(store)
                    &&& if ctx.spec_user_id() is None {
                        e == Error::NotAuthenticated
                    } else {
                        let i = crate::model::login_index_by_id(old(store).logins@, login@);
                        if i == -1 {
                            e == Error::SessionNotFound
                        } else {
                            e == Error::NotAuthorized && old(store).logins@[i].user_id@
                                != ctx.spec_user_id().unwrap()
                        }
                    }
                },
            },
    {
        if !ctx.check_xsrf_token(xsrf) {
            return Err(Error::XsrfMismatch);
        }
        let caller = match ctx.user_id() {
            Ok(u) => u,
            Err(e) => {
                return Err(e);
            },
        };
        Login::revoke(store, login, &caller, ctx.now())
    }

    /// Create a new invite issued by the logged-in user.
    pub fn issue_invite(store: &mut Store, ctx: &Context, xsrf: &str) -> (r: Result<Invite, Error>)
        requires
            old(store).wf(),
            ctx.wf(),
            ctx.request_time.wf_clock(),
        ensures
            final(store).wf(),
            !xsrf_ok(*ctx, xsrf@) ==> r == Err::<Invite, _>(Error::XsrfMismatch) && *final(store)
                == *old(store),
            xsrf_ok(*ctx, xsrf@) ==> match r {
                Ok(inv) => (ctx.spec_user_id() matches Some(u) && invite_create_post(
                    *old(store),
                    *final(store),
                    inv,
                    u,
                    ctx.request_time,
                )) && inv.wf(),
                Err(e) => {
                    &&& *final(store) == *old(store)
                    &&& if ctx.spec_user_id() is None {
                        e == Error::NotAuthenticated
                    } else {
                        let u = ctx.spec_user_id().unwrap();
                        &&& e == Error::QuotaExceeded
                        &&& count_invites_by(old(store).invites@, u) >= MAX_INVITES_PER_USER
                        &&& !has_capability(old(store).roles@, u, Capability::UnlimitedInvites)
                    }
                },
            },
    {
        if !ctx.check_xsrf_token(xsrf) {
            return Err(Error::XsrfMismatch);
        }
        let caller = match ctx.user_id() {
            Ok(u) => u,
            Err(e) => {
                return Err(e);
            },
        };
        Invite::create(store, ctx.now(), &caller)
    }

    /// Validate, canonicalise and reserve a submitted URL; the returned
    /// canonical string is fetched outside and recorded with
    /// [`Mutation::record_submission`].
    pub fn submit_url(store: &mut Store, ctx: &Context, xsrf: &str, url: &str) -> (r: Result<
        String,
        Error,
    >)
        requires
            old(store).wf(),
            ctx.wf(),
        ensures
            final(store).wf(),
            *final(store) == *old(store),
            !xsrf_ok(*ctx, xsrf@) ==> r == Err::<String, _>(Error::XsrfMismatch),
            xsrf_ok(*ctx, xsrf@) ==> match r {
                Ok(c) => ctx.spec_user_id() is Some && crate::url_canon::canon_spec(url@)
                    == Some(c@) && crate::urls::url_index_by_string(old(store).urls@, c@) == -1
                    && crate::urls::is_valid_url(url@),
                Err(e) => if ctx.spec_user_id() is None {
                    e == Error::NotAuthenticated
                } else {
                    ||| (e == Error::InvalidInput && (!crate::urls::is_valid_url(url@)
                        || crate::url_canon::canon_spec(url@) is None))
                    ||| (e == Error::DuplicateUrl && crate::urls::is_valid_url(url@) && (
                    crate::url_canon::canon_spec(url@) matches Some(c)
                        && crate::urls::url_index_by_string(old(store).urls@, c) != -1))
                },
            },
    {
        if !ctx.check_xsrf_token(xsrf) {
            return Err(Error::XsrfMismatch);
        }
        if !ctx.is_logged_in() {
            return Err(Error::NotAuthenticated);
        }
        Url::prepare_submission(store, url)
    }

    /// Record the fetch that completes a URL submission.
    pub fn record_submission(
        store: &mut Store,
        ctx: &Context,
        xsrf: &str,
        canonical: String,
        status: u16,
        title: Option<String>,
        description: Option<String>,
        image: Option<String>,
    ) -> (r: Result<Url, Error>)
        requires
            old(store).wf(),
            ctx.wf(),
            ctx.request_time.wf_clock(),
        ensures
            final(store).wf(),
            !xsrf_ok(*ctx, xsrf@) ==> r == Err::<Url, _>(Error::XsrfMismatch) && *final(store)
                == *old(store),
            xsrf_ok(*ctx, xsrf@) ==> match r {
                Ok(u) => final(store).urls@.len() == old(store).urls@.len() + 1
                    && final(store).urls@.last().url@ == canonical@ && (
                ctx.spec_user_id() matches Some(c) && final(store).urls@.last().created_by@ == c),
                Err(e) => {
                    &&& *final(store) == *old(store)
                    &&& if ctx.spec_user_id() is None {
                        e == Error::NotAuthenticated
                    } else if !(200 <= status < 300) {
                        e == Error::FetchFailed(status)
                    } else {
                        e == Error::DuplicateUrl && crate::urls::url_index_by_string(
                            old(store).urls@,
                            canonical@,
                        ) != -1
                    }
                },
            },
    {
        if !ctx.check_xsrf_token(xsrf) {
            return Err(Error::XsrfMismatch);
        }
        let caller = match ctx.user_id() {
            Ok(u) => u,
            Err(e) => {
                return Err(e);
            },
        };
        Url::finish_submission(
            store,
            ctx.now(),
            canonical,
            status,
            title,
            description,
            image,
            &caller,
        )
    }

    /// Delete a submitted URL with its upvotes and comments.
    pub fn delete_url(store: &mut Store, ctx: &Context, xsrf: &str, url: &UrlID) -> (r: Result<
        (),
        Error,
    >)
        requires
            old(store).wf(),
            ctx.wf(),
            ctx.request_time.wf_clock(),
        ensures
            final(store).wf(),
            !xsrf_ok(*ctx, xsrf@) ==> r == Err::<(), _>(Error::XsrfMismatch) && *final(store)
                == *old(store),
            xsrf_ok(*ctx, xsrf@) ==> match r {
                Ok(()) => {
                    let i = crate::urls::url_index_by_id(old(store).urls@, url@);
                    &&& 0 <= i < old(store).urls@.len()
                    &&& final(store).urls@ == old(store).urls@.remove(i)
                    &&& final(store).upvotes@ == crate::urls::remove_upvotes_for(
                        old(store).upvotes@,
                        url@,
                    )
                    &&& final(store).comments@ == crate::urls::remove_comments_for(
                        old(store).comments@,
                        url@,
                    )
                },
                Err(e) => {
                    &&& *final(store) == *old(store)
                    &&& {
                        let i = crate::urls::url_index_by_id(old(store).urls@, url@);
                        if i == -1 {
                            e == Error::Internal
                        } else if ctx.spec_user_id() is None {
                            e == Error::NotAuthenticated
                        } else {
                            let u = ctx.spec_user_id().unwrap();
                            &&& e == Error::NotAuthorized
                            &&& old(store).urls@[i].created_by@ != u
                            &&& !has_capability(old(store).roles@, u, Capability::DeleteAnyUrl)
                        }
                    }
                },
            },
    {
        if !ctx.check_xsrf_token(xsrf) {
            return Err(Error::XsrfMismatch);
        }
        Url::delete(store, ctx, url)
    }

    /// Upvote a URL as the logged-in user.
    pub fn upvote_url(store: &mut Store, ctx: &Context, xsrf: &str, url: &UrlID) -> (r: Result<
        (),
        Error,
    >)
        requires
            old(store).wf(),
            ctx.wf(),
            ctx.request_time.wf_clock(),
            url.wf(),
        ensures
            final(store).wf(),
            !xsrf_ok(*ctx, xsrf@) ==> r == Err::<(), _>(Error::XsrfMismatch) && *final(store)
                == *old(store),
            xsrf_ok(*ctx, xsrf@) ==> match r {
                Ok(()) => {
                    &&& final(store).upvotes@.len() == old(store).upvotes@.len() + 1
                    &&& final(store).upvotes@.last().url_id@ == url@
                    &&& (ctx.spec_user_id() matches Some(u)
                        && final(store).upvotes@.last().user_id@ == u)
                    &&& !crate::urls::has_upvote(
                        old(store).upvotes@,
                        url@,
                        ctx.spec_user_id().unwrap(),
                    )
                },
                Err(e) => {
                    &&& *final(store) == *old(store)
                    &&& if ctx.spec_user_id() is None {
                        e == Error::NotAuthenticated
                    } else if crate::urls::url_index_by_id(old(store).urls@, url@) == -1 {
                        e == Error::Internal
                    } else {
                        e == Error::Internal && crate::urls::has_upvote(
                            old(store).upvotes@,
                            url@,
                            ctx.spec_user_id().unwrap(),
                        )
                    }
                },
            },
    {
        if !ctx.check_xsrf_token(xsrf) {
            return Err(Error::XsrfMismatch);
        }
        Url::upvote(store, ctx, url)
    }

    /// Rescind the logged-in user's upvote for a URL.
    pub fn rescind_url_upvote(store: &mut Store, ctx: &Context, xsrf: &str, url: &UrlID) -> (r:
        Result<(), Error>)
        requires
            old(store).wf(),
            ctx.wf(),
        ensures
            final(store).wf(),
            !xsrf_ok(*ctx, xsrf@) ==> r == Err::<(), _>(Error::XsrfMismatch) && *final(store)
                == *old(store),
            xsrf_ok(*ctx, xsrf@) ==> match r {
                Ok(()) => (ctx.spec_user_id() matches Some(u) && final(store).upvotes@
                    == crate::urls::remove_upvote_by(old(store).upvotes@, url@, u)),
                Err(e) => *final(store) == *old(store) && e == Error::NotAuthenticated
                    && ctx.spec_user_id() is None,
            },
    {
        if !ctx.check_xsrf_token(xsrf) {
            return Err(Error::XsrfMismatch);
        }
        Url::rescind_upvote(store, ctx, url)
    }

    /// Comment on a URL as the logged-in user.
    pub fn comment(store: &mut Store, ctx: &Context, xsrf: &str, input: NewCommentInput) -> (r:
        Result<(), Error>)
        requires
            old(store).wf(),
            ctx.wf(),
            ctx.request_time.wf_clock(),
            input.url.wf(),
            match input.replies_to {
                Some(p) => p.wf(),
                None => true,
            },
        ensures
            final(store).wf(),
            !xsrf_ok(*ctx, xsrf@) ==> r == Err::<(), _>(Error::XsrfMismatch) && *final(store)
                == *old(store),
            xsrf_ok(*ctx, xsrf@) ==> match r {
                Ok(()) => {
                    &&& final(store).comments@.len() == old(store).comments@.len() + 1
                    &&& final(store).comments@.last().text@ == crate::strutil::trim_spec(
                        input.comment@,
                    )
                    &&& final(store).comments@.last().url_id@ == input.url@
                    &&& (ctx.spec_user_id() matches Some(u)
                        && final(store).comments@.last().created_by@ == u)
                },
                Err(e) => {
                    &&& *final(store) == *old(store)
                    &&& if ctx.spec_user_id() is None {
                        e == Error::NotAuthenticated
                    } else {
                        e == Error::InvalidInput && crate::strutil::trim_spec(
                            input.comment@,
                        ).len() == 0
                    }
                },
            },
    {
        if !ctx.check_xsrf_token(xsrf) {
            return Err(Error::XsrfMismatch);
        }
        Comment::create(store, ctx, input)
    }

    /// Delete a comment, censoring it instead when it has replies.
    pub fn delete_comment(store: &mut Store, ctx: &Context, xsrf: &str, comment: &CommentID) -> (
        r: Result<(), Error>)
        requires
            old(store).wf(),
            ctx.wf(),
            ctx.request_time.wf_clock(),
        ensures
            final(store).wf(),
            !xsrf_ok(*ctx, xsrf@) ==> r == Err::<(), _>(Error::XsrfMismatch) && *final(store)
                == *old(store),
            xsrf_ok(*ctx, xsrf@) ==> match r {
                Ok(()) => {
                    let i = crate::comments::comment_index_by_id(
                        old(store).comments@,
                        comment@,
                    );
                    &&& (ctx.spec_user_id() matches Some(u) && (
                    old(store).comments@[i].created_by@ == u || has_capability(
                        old(store).roles@,
                        u,
                        Capability::DeleteAnyComment,
                    )))
                    &&& crate::comments::comment_delete_post(
                        *old(store),
                        *final(store),
                        comment@,
                        ctx.request_time,
                    )
                },
                Err(e) => {
                    &&& *final(store) == *old(store)
                    &&& {
                        let i = crate::comments::comment_index_by_id(
                            old(store).comments@,
                            comment@,
                        );
                        if i == -1 {
                            e == Error::Internal
                        } else if ctx.spec_user_id() is None {
                            e == Error::NotAuthenticated
                        } else {
                            let u = ctx.spec_user_id().unwrap();
                            &&& e == Error::NotAuthorized
                            &&& old(store).comments@[i].created_by@ != u
                            &&& !has_capability(
                                old(store).roles@,
                                u,
                                Capability::DeleteAnyComment,
                            )
                        }
                    }
                },
            },
    {
        if !ctx.check_xsrf_token(xsrf) {
            return Err(Error::XsrfMismatch);
        }
        Comment::delete(store, ctx, comment)
    }
}

} // verus!
