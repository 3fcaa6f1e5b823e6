//! The user store: registration, lookup, updates, capability checks, and
//! the login flows that start from a user.

use crate::clock::Instant;
use crate::disposable::{is_disposable, is_disposable_spec};
use crate::email::{login_email_body, login_email_body_spec, login_email_subject,
    login_email_subject_spec, EmailMessage};
use crate::errors::Error;
use crate::ids::UserID;
use crate::invites::invite_claim_outcome;
use crate::logins::{claim_outcome, fresh_login_spec, lemma_login_index_by_user_token_found,
    lemma_login_index_by_user_token_none, login_index_by_user_token};
use crate::model::{count_recent_logins, has_capability, invite_index_by_id,
    lemma_user_index_by_email_found, lemma_user_index_by_email_none, lemma_user_index_by_id_found,
    lemma_user_index_by_id_none, permissions_of, user_index_by_email, user_index_by_id, Invite,
    Login, Store, User};
use crate::permission::{Capability, Permission};
use crate::strutil::{ascii_lower, lower_spec, str_equal, trim, trim_spec};
use vstd::prelude::*;

verus! {

/// Input for registering a user.
#[derive(Debug)]
pub struct NewUserInput {
    pub name: String,
    pub email: String,
}

/// Input for updating a user; absent fields are left unchanged.
#[derive(Debug)]
pub struct UpdateUserInput {
    pub name: Option<String>,
    pub email: Option<String>,
}

/// The email of the account, as stored: trimmed and ASCII-lowercased.
pub open spec fn normal_email(email: Seq<char>) -> Seq<char> {
    lower_spec(trim_spec(email))
}

/// Whether a trimmed name is acceptable: non-empty and at most 256
/// characters.
pub open spec fn valid_name(name: Seq<char>) -> bool {
    1 <= trim_spec(name).len() <= 256
}

/// The result of the outside email-format check.
pub uninterp spec fn is_valid_email(s: Seq<char>) -> bool;

/// Whether an email is accepted for an account: ASCII, well formed per
/// the format check, and not from a disposable provider, judged on the
/// stored form.
pub open spec fn valid_email_spec(email: Seq<char>) -> bool {
    &&& vstd::utf8::is_ascii_chars(trim_spec(email))
    &&& is_valid_email(normal_email(email))
    &&& !is_disposable_spec(normal_email(email))
}

/// Whether a registration input passes validation.
pub open spec fn valid_new_user_spec(name: Seq<char>, email: Seq<char>) -> bool {
    valid_name(name) && valid_email_spec(email)
}

/// Whether an update input passes validation: every present field is
/// held to the registration rules.
pub open spec fn update_input_valid(input: UpdateUserInput) -> bool {
    &&& (input.name matches Some(n) ==> valid_name(n@))
    &&& (input.email matches Some(e) ==> valid_email_spec(e@))
}

/// Relies on `validator::ValidateEmail::validate_email`: the HTML5 email
/// format check, a function of the string alone.
#[verifier::external_body]
fn valid_email(s: &str) -> (r: bool)
    ensures
        r == is_valid_email(s@),
{
    validator::ValidateEmail::validate_email(&s)
}

/// Whether two users agree on every observable field.
pub open spec fn user_views_match(a: User, b: User) -> bool {
    &&& a.id@ == b.id@
    &&& a.name@ == b.name@
    &&& a.email@ == b.email@
    &&& a.created_at == b.created_at
    &&& a.updated_at == b.updated_at
}

/// What a successful registration leaves behind: a validated user
/// appended with stored name and email, everything else untouched.
pub open spec fn user_create_post(
    pre: Store,
    post: Store,
    u: User,
    name: Seq<char>,
    email: Seq<char>,
    now: Instant,
) -> bool {
    &&& valid_new_user_spec(name, email)
    &&& user_index_by_email(pre.users@, normal_email(email)) == -1
    &&& post.roles@ == pre.roles@
    &&& post.invites@ == pre.invites@
    &&& post.logins@ == pre.logins@
    &&& post.urls@ == pre.urls@
    &&& post.comments@ == pre.comments@
    &&& post.upvotes@ == pre.upvotes@
    &&& post.users@.len() == pre.users@.len() + 1
    &&& forall|i: int| 0 <= i < pre.users@.len() ==> post.users@[i] == pre.users@[i]
    &&& post.users@.last().name@ == trim_spec(name)
    &&& post.users@.last().email@ == normal_email(email)
    &&& post.users@.last().created_at == now
    &&& post.users@.last().updated_at == now
    &&& user_views_match(u, post.users@.last())
}

/// Index of the first invite claimed by the given user, or `-1`.
pub open spec fn invite_index_by_claimer(invites: Seq<Invite>, user: Seq<char>) -> int
    decreases invites.len(),
{
    if invites.len() == 0 {
        -1
    } else if invites[0].claimed_by matches Some(c) && c@ == user {
        0
    } else if invite_index_by_claimer(invites.drop_first(), user) == -1 {
        -1
    } else {
        1 + invite_index_by_claimer(invites.drop_first(), user)
    }
}

/// A first match at `k` pins the index.
proof fn lemma_invite_index_by_claimer_found(invites: Seq<Invite>, user: Seq<char>, k: int)
    requires
        0 <= k < invites.len(),
        invites[k].claimed_by matches Some(c) && c@ == user,
        forall|j: int|
            0 <= j < k ==> !((#[trigger] invites[j]).claimed_by matches Some(c) && c@ == user),
    ensures
        invite_index_by_claimer(invites, user) == k,
    decreases invites.len(),
{
    if k > 0 {
        lemma_invite_index_by_claimer_found(invites.drop_first(), user, k - 1);
    }
}

/// No match anywhere pins the index to `-1`.
proof fn lemma_invite_index_by_claimer_none(invites: Seq<Invite>, user: Seq<char>)
    requires
        forall|j: int|
            0 <= j < invites.len() ==> !((#[trigger] invites[j]).claimed_by matches Some(c) && c@
                == user),
    ensures
        invite_index_by_claimer(invites, user) == -1,
    decreases invites.len(),
{
    if invites.len() > 0 {
        lemma_invite_index_by_claimer_none(invites.drop_first(), user);
    }
}

/// Index of the first user with the given stored email.
fn find_index_by_email(users: &Vec<User>, email: &str) -> (r: Option<usize>)
    ensures
        match r {
            Some(i) => i == user_index_by_email(users@, email@) && i < users@.len(),
            None => user_index_by_email(users@, email@) == -1,
        },
{
    let len = users.len();
    let mut i: usize = 0;
    while i < len
        invariant
            len == users@.len(),
            i <= len,
            forall|j: int| 0 <= j < i ==> users@[j].email@ != email@,
        decreases len - i,
    {
        if str_equal(users[i].email.as_str(), email) {
            proof {
                lemma_user_index_by_email_found(users@, email@, i as int);
            }
            return Some(i);
        }
        i += 1;
    }
    proof {
        lemma_user_index_by_email_none(users@, email@);
    }
    None
}

/// Index of the first user with the given identifier.
fn find_index_by_id(users: &Vec<User>, id: &UserID) -> (r: Option<usize>)
    ensures
        match r {
            Some(i) => i == user_index_by_id(users@, id@) && i < users@.len(),
            None => user_index_by_id(users@, id@) == -1,
        },
{
    let len = users.len();
    let mut i: usize = 0;
    while i < len
        invariant
            len == users@.len(),
            i <= len,
            forall|j: int| 0 <= j < i ==> users@[j].id@ != id@,
        decreases len - i,
    {
        if users[i].id.same(id) {
            proof {
                lemma_user_index_by_id_found(users@, id@, i as int);
            }
            return Some(i);
        }
        i += 1;
    }
    proof {
        lemma_user_index_by_id_none(users@, id@);
    }
    None
}

impl User {
    /// Register a new user: the name is trimmed, the email is trimmed
    /// and lowercased, both are validated, and the stored email must not
    /// already belong to an account.
    pub fn create(store: &mut Store, now: Instant, input: NewUserInput) -> (r: Result<User, Error>)
        requires
            old(store).wf(),
            now.wf_clock(),
        ensures
            final(store).wf(),
            match r {
                Ok(u) => user_create_post(
                    *old(store),
                    *final(store),
                    u,
                    input.name@,
                    input.email@,
                    now,
                ) && u.wf(),
                Err(e) => {
                    &&& *final(store) == *old(store)
                    &&& if !valid_new_user_spec(input.name@, input.email@) {
                        e == Error::InvalidInput
                    } else {
                        e == Error::Internal && user_index_by_email(
                            old(store).users@,
                            normal_email(input.email@),
                        ) != -1
                    }
                },
            },
    {
        let name = trim(input.name.as_str());
        let name_len = name.unicode_len();
        if name_len < 1 || name_len > 256 {
            return Err(Error::InvalidInput);
        }
        let email_trimmed = trim(input.email.as_str());
        if !email_trimmed.is_ascii() {
            return Err(Error::InvalidInput);
        }
        let email = ascii_lower(email_trimmed);
        if !valid_email(email.as_str()) {
            return Err(Error::InvalidInput);
        }
        if is_disposable(email.as_str()) {
            return Err(Error::InvalidInput);
        }
        if find_index_by_email(&store.users, email.as_str()).is_some() {
            return Err(Error::Internal);
        }
        let user = User {
            id: UserID::new(),
            created_at: now,
            updated_at: now,
            name: name.to_owned(),
            email,
        };
        let ret = user.duplicate();
        store.users.push(user);
        Ok(ret)
    }

    /// Load a user by id; `Internal` when no such user exists.
    pub fn find(store: &Store, id: &UserID) -> (r: Result<User, Error>)
        requires
            store.wf(),
        ensures
            match r {
                Ok(u) => {
                    let i = user_index_by_id(store.users@, id@);
                    &&& 0 <= i < store.users@.len()
                    &&& user_views_match(u, store.users@[i])
                    &&& u.wf()
                },
                Err(e) => {
                    &&& e == Error::Internal
                    &&& user_index_by_id(store.users@, id@) == -1
                },
            },
    {
        match find_index_by_id(&store.users, id) {
            Some(i) => Ok(store.users[i].duplicate()),
            None => Err(Error::Internal),
        }
    }

    /// Retrieve a user by email address; the input is trimmed and
    /// lowercased before the exact lookup.
    pub fn find_by_email(store: &Store, email: &str) -> (r: Result<User, Error>)
        requires
            store.wf(),
        ensures
            match r {
                Ok(u) => {
                    let i = user_index_by_email(store.users@, normal_email(email@));
                    &&& vstd::utf8::is_ascii_chars(trim_spec(email@))
                    &&& 0 <= i < store.users@.len()
                    &&& user_views_match(u, store.users@[i])
                    &&& u.wf()
                },
                Err(e) => {
                    &&& e == Error::Internal
                    &&& (vstd::utf8::is_ascii_chars(trim_spec(email@)) ==> user_index_by_email(
                        store.users@,
                        normal_email(email@),
                    ) == -1)
                },
            },
    {
        let t = trim(email);
        if !t.is_ascii() {
            return Err(Error::Internal);
        }
        let normal = ascii_lower(t);
        match find_index_by_email(&store.users, normal.as_str()) {
            Some(i) => Ok(store.users[i].duplicate()),
            None => Err(Error::Internal),
        }
    }

    /// Update a user's details: present fields are validated as at
    /// registration and applied; absent fields are left unchanged.
    pub fn update(store: &mut Store, now: Instant, user_id: &UserID, input: UpdateUserInput) -> (
        r: Result<(), Error>)
        requires
            old(store).wf(),
            now.wf_clock(),
        ensures
            final(store).wf(),
            final(store).roles@ == old(store).roles@,
            final(store).invites@ == old(store).invites@,
            final(store).logins@ == old(store).logins@,
            final(store).urls@ == old(store).urls@,
            final(store).comments@ == old(store).comments@,
            final(store).upvotes@ == old(store).upvotes@,
            match r {
                Ok(()) => {
                    let i = user_index_by_id(old(store).users@, user_id@);
                    &&& update_input_valid(input)
                    &&& 0 <= i < old(store).users@.len()
                    &&& final(store).users@.len() == old(store).users@.len()
                    &&& forall|j: int|
                        0 <= j < old(store).users@.len() && j != i ==> final(store).users@[j]
                            == old(store).users@[j]
                    &&& {
                        let u_old = old(store).users@[i];
                        let u_new = final(store).users@[i];
                        &&& u_new.id@ == u_old.id@
                        &&& u_new.created_at == u_old.created_at
                        &&& u_new.name@ == match input.name {
                            Some(n) => trim_spec(n@),
                            None => u_old.name@,
                        }
                        &&& u_new.email@ == match input.email {
                            Some(e) => normal_email(e@),
                            None => u_old.email@,
                        }
                        &&& u_new.updated_at == if input.name is Some || input.email is Some {
                            now
                        } else {
                            u_old.updated_at
                        }
                    }
                },
                Err(e) => {
                    &&& final(store).users@ == old(store).users@
                    &&& if !update_input_valid(input) {
                        e == Error::InvalidInput
                    } else {
                        e == Error::Internal && user_index_by_id(old(store).users@, user_id@)
                            == -1
                    }
                },
            },
    {
        let new_name: Option<String> = match &input.name {
            Some(n) => {
                let t = trim(n.as_str());
                let t_len = t.unicode_len();
                if t_len < 1 || t_len > 256 {
                    return Err(Error::InvalidInput);
                }
                Some(t.to_owned())
            },
            None => None,
        };
        let new_email: Option<String> = match &input.email {
            Some(e) => {
                let t = trim(e.as_str());
                if !t.is_ascii() {
                    return Err(Error::InvalidInput);
                }
                let lowered = ascii_lower(t);
                if !valid_email(lowered.as_str()) {
                    return Err(Error::InvalidInput);
                }
                if is_disposable(lowered.as_str()) {
                    return Err(Error::InvalidInput);
                }
                Some(lowered)
            },
            None => None,
        };
        let i = match find_index_by_id(&store.users, user_id) {
            Some(i) => i,
            None => {
                return Err(Error::Internal);
            },
        };
        let touched = new_name.is_some() || new_email.is_some();
        let u = vstd::std_specs::vec::vec_index_mut(&mut store.users, i);
        match new_name {
            Some(n) => {
                u.name = n;
            },
            None => {},
        }
        match new_email {
            Some(e) => {
                u.email = e;
            },
            None => {},
        }
        if touched {
            u.updated_at = now;
        }
        Ok(())
    }

    /// The invite this user claimed when registering, if any.
    pub fn invite(store: &Store, user_id: &UserID) -> (r: Option<Invite>)
        requires
            store.wf(),
        ensures
            match r {
                Some(inv) => {
                    let i = invite_index_by_claimer(store.invites@, user_id@);
                    &&& 0 <= i < store.invites@.len()
                    &&& crate::invites::invite_views_match(inv, store.invites@[i])
                    &&& inv.wf()
                },
                None => invite_index_by_claimer(store.invites@, user_id@) == -1,
            },
    {
        let len = store.invites.len();
        let mut i: usize = 0;
        while i < len
            invariant
                store.wf(),
                len == store.invites@.len(),
                i <= len,
                forall|j: int|
                    0 <= j < i ==> !((#[trigger] store.invites@[j]).claimed_by matches Some(c)
                        && c@ == user_id@),
            decreases len - i,
        {
            let claimed = match &store.invites[i].claimed_by {
                Some(c) => c.same(user_id),
                None => false,
            };
            if claimed {
                proof {
                    lemma_invite_index_by_claimer_found(store.invites@, user_id@, i as int);
                }
                return Some(store.invites[i].duplicate());
            }
            i += 1;
        }
        proof {
            lemma_invite_index_by_claimer_none(store.invites@, user_id@);
        }
        None
    }

    /// All permissions of this user's roles, in insertion order.
    pub fn permissions(store: &Store, user_id: &UserID) -> (r: Vec<Permission>)
        ensures
            r@ == permissions_of(store.roles@, user_id@),
    {
        let len = store.roles.len();
        let mut out: Vec<Permission> = Vec::new();
        let mut i: usize = 0;
        while i < len
            invariant
                len == store.roles@.len(),
                i <= len,
                out@ == permissions_of(store.roles@.subrange(0, i as int), user_id@),
            decreases len - i,
        {
            proof {
                let pre = store.roles@.subrange(0, i as int);
                let post = store.roles@.subrange(0, i + 1);
                assert(post.drop_last() =~= pre);
                assert(post.last() == store.roles@[i as int]);
            }
            if store.roles[i].user_id.same(user_id) {
                out.push(store.roles[i].permission);
                proof {
                    reveal(Seq::filter);
                    let pre = store.roles@.subrange(0, i as int);
                    let post = store.roles@.subrange(0, i + 1);
                    assert(permissions_of(post, user_id@) =~= permissions_of(pre, user_id@).push(
                        store.roles@[i as int].permission,
                    ));
                    assert(out@ =~= permissions_of(post, user_id@));
                }
            } else {
                proof {
                    reveal(Seq::filter);
                    let pre = store.roles@.subrange(0, i as int);
                    let post = store.roles@.subrange(0, i + 1);
                    assert(permissions_of(post, user_id@) =~= permissions_of(pre, user_id@));
                    assert(out@ =~= permissions_of(post, user_id@));
                }
            }
            i += 1;
        }
        proof {
            assert(store.roles@.subrange(0, len as int) =~= store.roles@);
        }
        out
    }

    /// Check that some role of this user grants the capability;
    /// `NotAuthorized` otherwise.
    pub fn check_permissions(store: &Store, user_id: &UserID, cap: Capability) -> (r: Result<
        (),
        Error,
    >)
        ensures
            match r {
                Ok(()) => has_capability(store.roles@, user_id@, cap),
                Err(e) => e == Error::NotAuthorized && !has_capability(
                    store.roles@,
                    user_id@,
                    cap,
                ),
            },
    {
        if crate::roles::user_has_capability(&store.roles, user_id, cap) {
            Ok(())
        } else {
            Err(Error::NotAuthorized)
        }
    }

    /// Register a user by claiming the given invite: the registration
    /// stands exactly when the claim succeeds, and is rolled back when
    /// the invite was already claimed.
    pub fn create_with_invite(
        store: &mut Store,
        now: Instant,
        input: NewUserInput,
        invite_id: &crate::ids::InviteID,
    ) -> (r: Result<User, Error>)
        requires
            old(store).wf(),
            now.wf_clock(),
        ensures
            final(store).wf(),
            final(store).roles@ == old(store).roles@,
            final(store).logins@ == old(store).logins@,
            final(store).urls@ == old(store).urls@,
            final(store).comments@ == old(store).comments@,
            final(store).upvotes@ == old(store).upvotes@,
            match r {
                Ok(u) => {
                    let i = invite_index_by_id(old(store).invites@, invite_id@);
                    &&& valid_new_user_spec(input.name@, input.email@)
                    &&& user_index_by_email(old(store).users@, normal_email(input.email@)) == -1
                    &&& invite_claim_outcome(old(store).invites@, i) == Ok::<_, Error>(())
                    &&& final(store).users@.len() == old(store).users@.len() + 1
                    &&& forall|j: int|
                        0 <= j < old(store).users@.len() ==> final(store).users@[j] == old(
                            store,
                        ).users@[j]
                    &&& user_views_match(u, final(store).users@.last())
                    &&& final(store).users@.last().email@ == normal_email(input.email@)
                    &&& final(store).invites@.len() == old(store).invites@.len()
                    &&& forall|j: int|
                        0 <= j < old(store).invites@.len() && j != i ==> final(store).invites@[j]
                            == old(store).invites@[j]
                    &&& final(store).invites@[i].claimed_by matches Some(c) && c@ == u.id@
                },
                Err(e) => {
                    &&& final(store).users@ == old(store).users@
                    &&& final(store).invites@ == old(store).invites@
                    &&& {
                        let i = invite_index_by_id(old(store).invites@, invite_id@);
                        if !valid_new_user_spec(input.name@, input.email@) {
                            e == Error::InvalidInput
                        } else if user_index_by_email(
                            old(store).users@,
                            normal_email(input.email@),
                        ) != -1 {
                            e == Error::Internal
                        } else {
                            invite_claim_outcome(old(store).invites@, i) == Err::<(), _>(e)
                        }
                    }
                },
            },
    {
        let user = match Self::create(store, now, input) {
            Ok(u) => u,
            Err(e) => {
                return Err(e);
            },
        };
        match Invite::claim(store, invite_id, &user.id, now) {
            Ok(()) => Ok(user),
            Err(e) => {
                store.users.pop();
                proof {
                    assert(store.users@ =~= old(store).users@);
                }
                Err(e)
            },
        }
    }

    /// Issue a login for this user and compose the login email carrying
    /// the freshly minted email token.
    pub fn request_login(store: &mut Store, now: Instant, user_id: &UserID) -> (r: Result<
        EmailMessage,
        Error,
    >)
        requires
            old(store).wf(),
            now.wf_clock(),
            user_id.wf(),
        ensures
            final(store).wf(),
            final(store).users@ == old(store).users@,
            final(store).roles@ == old(store).roles@,
            final(store).invites@ == old(store).invites@,
            final(store).urls@ == old(store).urls@,
            final(store).comments@ == old(store).comments@,
            final(store).upvotes@ == old(store).upvotes@,
            match r {
                Ok(msg) => {
                    let ui = user_index_by_id(old(store).users@, user_id@);
                    &&& 0 <= ui < old(store).users@.len()
                    &&& count_recent_logins(
                        old(store).logins@,
                        user_id@,
                        now.secs - crate::clock::LOGIN_RATE_WINDOW_SECS,
                    ) < crate::clock::LOGIN_LIMIT_PER_HOUR
                    &&& final(store).logins@.len() == old(store).logins@.len() + 1
                    &&& forall|j: int|
                        0 <= j < old(store).logins@.len() ==> final(store).logins@[j] == old(
                            store,
                        ).logins@[j]
                    &&& fresh_login_spec(final(store).logins@.last(), user_id@, now)
                    &&& msg.to_email@ == old(store).users@[ui].email@
                    &&& msg.to_name@ == old(store).users@[ui].name@
                    &&& msg.subject@ == login_email_subject_spec()
                    &&& msg.body@ == login_email_body_spec(
                        old(store).users@[ui].email@,
                        final(store).logins@.last().email_token@,
                    )
                },
                Err(e) => {
                    &&& *final(store) == *old(store)
                    &&& if user_index_by_id(old(store).users@, user_id@) == -1 {
                        e == Error::Internal
                    } else {
                        e == Error::LoginRateLimited && count_recent_logins(
                            old(store).logins@,
                            user_id@,
                            now.secs - crate::clock::LOGIN_RATE_WINDOW_SECS,
                        ) >= crate::clock::LOGIN_LIMIT_PER_HOUR
                    }
                },
            },
    {
        let ui = match find_index_by_id(&store.users, user_id) {
            Some(i) => i,
            None => {
                return Err(Error::Internal);
            },
        };
        let to_email = store.users[ui].email.clone();
        let to_name = store.users[ui].name.clone();
        let login = match Login::create(store, now, user_id) {
            Ok(l) => l,
            Err(e) => {
                return Err(e);
            },
        };
        let body = login_email_body(to_email.as_str(), login.email_token.as_str());
        let subject = login_email_subject();
        Ok(EmailMessage { to_name, to_email, subject: subject.to_owned(), body })
    }

    /// Log this user in by consuming an email token: locates the user's
    /// login carrying the token and claims it, yielding the session
    /// token.
    pub fn login(store: &mut Store, now: Instant, user_id: &UserID, token: &str) -> (r: Result<
        String,
        Error,
    >)
        requires
            old(store).wf(),
            now.wf_clock(),
        ensures
            final(store).wf(),
            final(store).users@ == old(store).users@,
            final(store).roles@ == old(store).roles@,
            final(store).invites@ == old(store).invites@,
            final(store).urls@ == old(store).urls@,
            final(store).comments@ == old(store).comments@,
            final(store).upvotes@ == old(store).upvotes@,
            match r {
                Ok(session_token) => {
                    let i = login_index_by_user_token(old(store).logins@, user_id@, token@);
                    &&& 0 <= i < old(store).logins@.len()
                    &&& claim_outcome(old(store).logins@, i, token@, now) == Ok::<_, Error>(())
                    &&& session_token@.len() == crate::clock::SESSION_TOKEN_LEN
                    &&& final(store).logins@.len() == old(store).logins@.len()
                    &&& forall|j: int|
                        0 <= j < old(store).logins@.len() && j != i ==> final(store).logins@[j]
                            == old(store).logins@[j]
                    &&& final(store).logins@[i].claimed
                    &&& final(store).logins@[i].session_token matches Some(t) && t@
                        == session_token@
                    &&& final(store).logins@[i].last_used == now
                    &&& final(store).logins@[i].user_id@ == user_id@
                },
                Err(e) => {
                    let i = login_index_by_user_token(old(store).logins@, user_id@, token@);
                    &&& *final(store) == *old(store)
                    &&& if i == -1 {
                        e == Error::InvalidToken
                    } else {
                        claim_outcome(old(store).logins@, i, token@, now) == Err::<(), _>(e)
                    }
                },
            },
    {
        match find_login_by_user_token(&store.logins, user_id, token) {
            Some(i) => Login::claim_at(store, i, token, now),
            None => Err(Error::InvalidToken),
        }
    }
}

/// Index of the first login of `user` carrying `token` as its email
/// token.
fn find_login_by_user_token(logins: &Vec<Login>, user: &UserID, token: &str) -> (r: Option<usize>)
    ensures
        match r {
            Some(i) => i == login_index_by_user_token(logins@, user@, token@) && i
                < logins@.len() && logins@[i as int].user_id@ == user@
                && logins@[i as int].email_token@ == token@,
            None => login_index_by_user_token(logins@, user@, token@) == -1,
        },
{
    let len = logins.len();
    let mut i: usize = 0;
    while i < len
        invariant
            len == logins@.len(),
            i <= len,
            forall|j: int|
                0 <= j < i ==> !(logins@[j].user_id@ == user@ && logins@[j].email_token@
                    == token@),
        decreases len - i,
    {
        if logins[i].user_id.same(user) && str_equal(logins[i].email_token.as_str(), token) {
            proof {
                lemma_login_index_by_user_token_found(logins@, user@, token@, i as int);
            }
            return Some(i);
        }
        i += 1;
    }
    proof {
        lemma_login_index_by_user_token_none(logins@, user@, token@);
    }
    None
}

} // verus!
