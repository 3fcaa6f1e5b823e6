//! The persistent data model: entities and the store that holds them.
//!
//! The store models the durable tables as vectors in insertion order.
//! Every operation of the trust plane reads and writes it through verified
//! functions whose contracts speak about these sequences.

use crate::clock::{Instant, EMAIL_TOKEN_LEN, INVITE_TOKEN_LEN, SESSION_TOKEN_LEN};
use crate::ids::{CommentID, InviteID, LoginID, RoleID, UrlID, UserID};
use crate::permission::{grants, Capability, Permission};
use vstd::prelude::*;

verus! {

/// A registered user account.
#[derive(Debug)]
pub struct User {
    pub id: UserID,
    pub created_at: Instant,
    pub updated_at: Instant,
    pub name: String,
    pub email: String,
}

/// A permission grant for one user.
#[derive(Debug)]
pub struct Role {
    pub id: RoleID,
    pub created_at: Instant,
    pub updated_at: Instant,
    pub user_id: UserID,
    pub permission: Permission,
}

/// An invitation: a single-use token bound to a future registration.
#[derive(Debug)]
pub struct Invite {
    pub id: InviteID,
    pub created_at: Instant,
    pub updated_at: Instant,
    pub token: String,
    pub created_by: UserID,
    pub claimed_by: Option<UserID>,
}

/// One email-triggered login attempt and the session it may carry.
#[derive(Debug)]
pub struct Login {
    pub id: LoginID,
    pub created_at: Instant,
    pub updated_at: Instant,
    pub user_id: UserID,
    pub email_token: String,
    pub claim_until: Instant,
    pub claimed: bool,
    pub session_token: Option<String>,
    pub last_used: Instant,
    pub last_user_agent: Option<String>,
    pub last_remote_ip: Option<String>,
    pub revoked: bool,
}

/// A submitted URL with the metadata of its last fetch.
#[derive(Debug)]
pub struct Url {
    pub id: UrlID,
    pub created_at: Instant,
    pub updated_at: Instant,
    pub url: String,
    pub status_code: u16,
    pub title: Option<String>,
    pub description: Option<String>,
    pub image: Option<String>,
    pub created_by: UserID,
}

/// A comment on a submitted URL.
#[derive(Debug)]
pub struct Comment {
    pub id: CommentID,
    pub created_at: Instant,
    pub updated_at: Instant,
    pub text: String,
    pub url_id: UrlID,
    pub created_by: UserID,
    pub replies_to: Option<CommentID>,
}

/// One user's upvote of one URL.
#[derive(Debug)]
pub struct UrlUpvote {
    pub url_id: UrlID,
    pub user_id: UserID,
    pub created_at: Instant,
}

impl User {
    /// Identifiers and instants are well formed.
    pub open spec fn wf(&self) -> bool {
        self.id.wf() && self.created_at.wf() && self.updated_at.wf()
    }

    /// A field-for-field copy.
    pub fn duplicate(&self) -> (r: Self)
        ensures
            r.id@ == self.id@,
            r.created_at == self.created_at,
            r.updated_at == self.updated_at,
            r.name@ == self.name@,
            r.email@ == self.email@,
            self.wf() ==> r.wf(),
    {
        User {
            id: self.id.duplicate(),
            created_at: self.created_at,
            updated_at: self.updated_at,
            name: self.name.clone(),
            email: self.email.clone(),
        }
    }
}

impl Role {
    /// Identifiers and instants are well formed.
    pub open spec fn wf(&self) -> bool {
        self.id.wf() && self.user_id.wf() && self.created_at.wf() && self.updated_at.wf()
    }

    /// A field-for-field copy.
    pub fn duplicate(&self) -> (r: Self)
        ensures
            r.id@ == self.id@,
            r.created_at == self.created_at,
            r.updated_at == self.updated_at,
            r.user_id@ == self.user_id@,
            r.permission == self.permission,
            self.wf() ==> r.wf(),
    {
        Role {
            id: self.id.duplicate(),
            created_at: self.created_at,
            updated_at: self.updated_at,
            user_id: self.user_id.duplicate(),
            permission: self.permission,
        }
    }
}

impl Invite {
    /// Identifiers and instants are well formed and the token has the
    /// invite-token length.
    pub open spec fn wf(&self) -> bool {
        &&& self.id.wf()
        &&& self.created_by.wf()
        &&& self.created_at.wf()
        &&& self.updated_at.wf()
        &&& self.token@.len() == INVITE_TOKEN_LEN
        &&& match self.claimed_by {
            Some(u) => u.wf(),
            None => true,
        }
    }

    /// A field-for-field copy.
    pub fn duplicate(&self) -> (r: Self)
        ensures
            r.id@ == self.id@,
            r.created_at == self.created_at,
            r.updated_at == self.updated_at,
            r.token@ == self.token@,
            r.created_by@ == self.created_by@,
            match (r.claimed_by, self.claimed_by) {
                (Some(a), Some(b)) => a@ == b@,
                (None, None) => true,
                _ => false,
            },
            self.wf() ==> r.wf(),
    {
        Invite {
            id: self.id.duplicate(),
            created_at: self.created_at,
            updated_at: self.updated_at,
            token: self.token.clone(),
            created_by: self.created_by.duplicate(),
            claimed_by: match &self.claimed_by {
                Some(u) => Some(u.duplicate()),
                None => None,
            },
        }
    }
}

impl Login {
    /// Identifiers, instants and token lengths are well formed, and a
    /// session token exists exactly once the login is claimed.
    pub open spec fn wf(&self) -> bool {
        &&& self.id.wf()
        &&& self.user_id.wf()
        &&& self.created_at.wf()
        &&& self.updated_at.wf()
        &&& self.claim_until.wf()
        &&& self.last_used.wf()
        &&& self.email_token@.len() == EMAIL_TOKEN_LEN
        &&& (self.claimed <==> self.session_token is Some)
        &&& match self.session_token {
            Some(t) => t@.len() == SESSION_TOKEN_LEN,
            None => true,
        }
    }

    /// A field-for-field copy.
    pub fn duplicate(&self) -> (r: Self)
        ensures
            r.id@ == self.id@,
            r.created_at == self.created_at,
            r.updated_at == self.updated_at,
            r.user_id@ == self.user_id@,
            r.email_token@ == self.email_token@,
            r.claim_until == self.claim_until,
            r.claimed == self.claimed,
            match (r.session_token, self.session_token) {
                (Some(a), Some(b)) => a@ == b@,
                (None, None) => true,
                _ => false,
            },
            r.last_used == self.last_used,
            r.revoked == self.revoked,
            self.wf() ==> r.wf(),
    {
        Login {
            id: self.id.duplicate(),
            created_at: self.created_at,
            updated_at: self.updated_at,
            user_id: self.user_id.duplicate(),
            email_token: self.email_token.clone(),
            claim_until: self.claim_until,
            claimed: self.claimed,
            session_token: match &self.session_token {
                Some(t) => Some(t.clone()),
                None => None,
            },
            last_used: self.last_used,
            last_user_agent: match &self.last_user_agent {
                Some(t) => Some(t.clone()),
                None => None,
            },
            last_remote_ip: match &self.last_remote_ip {
                Some(t) => Some(t.clone()),
                None => None,
            },
            revoked: self.revoked,
        }
    }

    /// Validity at `now`: claimed, not revoked, and inside the sliding
    /// window.
    pub open spec fn valid_spec(&self, now: Instant) -> bool {
        &&& self.claimed
        &&& !self.revoked
        &&& self.last_used.secs + crate::clock::SESSION_SLIDING_TTL_SECS >= now.secs
    }

    /// Whether this login is a usable session at `now`.
    pub fn is_valid(&self, now: &Instant) -> (r: bool)
        requires
            self.wf(),
        ensures
            r == self.valid_spec(*now),
    {
        self.claimed && !self.revoked && self.last_used.secs
            + crate::clock::SESSION_SLIDING_TTL_SECS >= now.secs
    }
}

impl Url {
    /// Identifiers and instants are well formed.
    pub open spec fn wf(&self) -> bool {
        self.id.wf() && self.created_by.wf() && self.created_at.wf() && self.updated_at.wf()
    }
}

impl Comment {
    /// Identifiers and instants are well formed.
    pub open spec fn wf(&self) -> bool {
        self.id.wf() && self.url_id.wf() && self.created_by.wf() && self.created_at.wf()
            && self.updated_at.wf()
    }
}

impl UrlUpvote {
    /// Identifiers and instants are well formed.
    pub open spec fn wf(&self) -> bool {
        self.url_id.wf() && self.user_id.wf() && self.created_at.wf()
    }
}

/// The durable tables, in insertion order.
#[derive(Debug)]
pub struct Store {
    pub users: Vec<User>,
    pub roles: Vec<Role>,
    pub invites: Vec<Invite>,
    pub logins: Vec<Login>,
    pub urls: Vec<Url>,
    pub comments: Vec<Comment>,
    pub upvotes: Vec<UrlUpvote>,
}

/// Whether a login carries the given session token.
pub open spec fn session_matches(l: Login, token: Seq<char>) -> bool {
    l.session_token matches Some(t) && t@ == token
}

/// Index of the first user with the given (already normalised) email, or
/// `-1` when there is none.
pub open spec fn user_index_by_email(users: Seq<User>, email: Seq<char>) -> int
    decreases users.len(),
{
    if users.len() == 0 {
        -1
    } else if users[0].email@ == email {
        0
    } else if user_index_by_email(users.drop_first(), email) == -1 {
        -1
    } else {
        1 + user_index_by_email(users.drop_first(), email)
    }
}

/// Index of the first user with the given identifier, or `-1`.
pub open spec fn user_index_by_id(users: Seq<User>, id: Seq<char>) -> int
    decreases users.len(),
{
    if users.len() == 0 {
        -1
    } else if users[0].id@ == id {
        0
    } else if user_index_by_id(users.drop_first(), id) == -1 {
        -1
    } else {
        1 + user_index_by_id(users.drop_first(), id)
    }
}

/// Index of the first invite with the given token, or `-1`.
pub open spec fn invite_index_by_token(invites: Seq<Invite>, token: Seq<char>) -> int
    decreases invites.len(),
{
    if invites.len() == 0 {
        -1
    } else if invites[0].token@ == token {
        0
    } else if invite_index_by_token(invites.drop_first(), token) == -1 {
        -1
    } else {
        1 + invite_index_by_token(invites.drop_first(), token)
    }
}

/// Index of the first invite with the given identifier, or `-1`.
pub open spec fn invite_index_by_id(invites: Seq<Invite>, id: Seq<char>) -> int
    decreases invites.len(),
{
    if invites.len() == 0 {
        -1
    } else if invites[0].id@ == id {
        0
    } else if invite_index_by_id(invites.drop_first(), id) == -1 {
        -1
    } else {
        1 + invite_index_by_id(invites.drop_first(), id)
    }
}

/// Index of the first login carrying the given session token, or `-1`.
pub open spec fn login_index_by_session(logins: Seq<Login>, token: Seq<char>) -> int
    decreases logins.len(),
{
    if logins.len() == 0 {
        -1
    } else if session_matches(logins[0], token) {
        0
    } else if login_index_by_session(logins.drop_first(), token) == -1 {
        -1
    } else {
        1 + login_index_by_session(logins.drop_first(), token)
    }
}

/// Index of the first login with the given identifier, or `-1`.
pub open spec fn login_index_by_id(logins: Seq<Login>, id: Seq<char>) -> int
    decreases logins.len(),
{
    if logins.len() == 0 {
        -1
    } else if logins[0].id@ == id {
        0
    } else if login_index_by_id(logins.drop_first(), id) == -1 {
        -1
    } else {
        1 + login_index_by_id(logins.drop_first(), id)
    }
}

/// A first match at `k` pins the index.
pub proof fn lemma_user_index_by_email_found(users: Seq<User>, email: Seq<char>, k: int)
    requires
        0 <= k < users.len(),
        users[k].email@ == email,
        forall|j: int| 0 <= j < k ==> users[j].email@ != email,
    ensures
        user_index_by_email(users, email) == k,
    decreases users.len(),
{
    if k > 0 {
        lemma_user_index_by_email_found(users.drop_first(), email, k - 1);
    }
}

/// No match anywhere pins the index to `-1`.
pub proof fn lemma_user_index_by_email_none(users: Seq<User>, email: Seq<char>)
    requires
        forall|j: int| 0 <= j < users.len() ==> users[j].email@ != email,
    ensures
        user_index_by_email(users, email) == -1,
    decreases users.len(),
{
    if users.len() > 0 {
        lemma_user_index_by_email_none(users.drop_first(), email);
    }
}

/// A first match at `k` pins the index.
pub proof fn lemma_user_index_by_id_found(users: Seq<User>, id: Seq<char>, k: int)
    requires
        0 <= k < users.len(),
        users[k].id@ == id,
        forall|j: int| 0 <= j < k ==> users[j].id@ != id,
    ensures
        user_index_by_id(users, id) == k,
    decreases users.len(),
{
    if k > 0 {
        lemma_user_index_by_id_found(users.drop_first(), id, k - 1);
    }
}

/// No match anywhere pins the index to `-1`.
pub proof fn lemma_user_index_by_id_none(users: Seq<User>, id: Seq<char>)
    requires
        forall|j: int| 0 <= j < users.len() ==> users[j].id@ != id,
    ensures
        user_index_by_id(users, id) == -1,
    decreases users.len(),
{
    if users.len() > 0 {
        lemma_user_index_by_id_none(users.drop_first(), id);
    }
}

/// A first match at `k` pins the index.
pub proof fn lemma_invite_index_by_token_found(invites: Seq<Invite>, token: Seq<char>, k: int)
    requires
        0 <= k < invites.len(),
        invites[k].token@ == token,
        forall|j: int| 0 <= j < k ==> invites[j].token@ != token,
    ensures
        invite_index_by_token(invites, token) == k,
    decreases invites.len(),
{
    if k > 0 {
        lemma_invite_index_by_token_found(invites.drop_first(), token, k - 1);
    }
}

/// No match anywhere pins the index to `-1`.
pub proof fn lemma_invite_index_by_token_none(invites: Seq<Invite>, token: Seq<char>)
    requires
        forall|j: int| 0 <= j < invites.len() ==> invites[j].token@ != token,
    ensures
        invite_index_by_token(invites, token) == -1,
    decreases invites.len(),
{
    if invites.len() > 0 {
        lemma_invite_index_by_token_none(invites.drop_first(), token);
    }
}

/// A first match at `k` pins the index.
pub proof fn lemma_invite_index_by_id_found(invites: Seq<Invite>, id: Seq<char>, k: int)
    requires
        0 <= k < invites.len(),
        invites[k].id@ == id,
        forall|j: int| 0 <= j < k ==> invites[j].id@ != id,
    ensures
        invite_index_by_id(invites, id) == k,
    decreases invites.len(),
{
    if k > 0 {
        lemma_invite_index_by_id_found(invites.drop_first(), id, k - 1);
    }
}

/// No match anywhere pins the index to `-1`.
pub proof fn lemma_invite_index_by_id_none(invites: Seq<Invite>, id: Seq<char>)
    requires
        forall|j: int| 0 <= j < invites.len() ==> invites[j].id@ != id,
    ensures
        invite_index_by_id(invites, id) == -1,
    decreases invites.len(),
{
    if invites.len() > 0 {
        lemma_invite_index_by_id_none(invites.drop_first(), id);
    }
}

/// A first match at `k` pins the index.
pub proof fn lemma_login_index_by_session_found(logins: Seq<Login>, token: Seq<char>, k: int)
    requires
        0 <= k < logins.len(),
        session_matches(logins[k], token),
        forall|j: int| 0 <= j < k ==> !session_matches(logins[j], token),
    ensures
        login_index_by_session(logins, token) == k,
    decreases logins.len(),
{
    if k > 0 {
        lemma_login_index_by_session_found(logins.drop_first(), token, k - 1);
    }
}

/// No match anywhere pins the index to `-1`.
pub proof fn lemma_login_index_by_session_none(logins: Seq<Login>, token: Seq<char>)
    requires
        forall|j: int| 0 <= j < logins.len() ==> !session_matches(logins[j], token),
    ensures
        login_index_by_session(logins, token) == -1,
    decreases logins.len(),
{
    if logins.len() > 0 {
        lemma_login_index_by_session_none(logins.drop_first(), token);
    }
}

/// A first match at `k` pins the index.
pub proof fn lemma_login_index_by_id_found(logins: Seq<Login>, id: Seq<char>, k: int)
    requires
        0 <= k < logins.len(),
        logins[k].id@ == id,
        forall|j: int| 0 <= j < k ==> logins[j].id@ != id,
    ensures
        login_index_by_id(logins, id) == k,
    decreases logins.len(),
{
    if k > 0 {
        lemma_login_index_by_id_found(logins.drop_first(), id, k - 1);
    }
}

/// No match anywhere pins the index to `-1`.
pub proof fn lemma_login_index_by_id_none(logins: Seq<Login>, id: Seq<char>)
    requires
        forall|j: int| 0 <= j < logins.len() ==> logins[j].id@ != id,
    ensures
        login_index_by_id(logins, id) == -1,
    decreases logins.len(),
{
    if logins.len() > 0 {
        lemma_login_index_by_id_none(logins.drop_first(), id);
    }
}

/// How many invites the given user has created, claimed or not.
pub open spec fn count_invites_by(invites: Seq<Invite>, user: Seq<char>) -> int
    decreases invites.len(),
{
    if invites.len() == 0 {
        0
    } else {
        count_invites_by(invites.drop_last(), user) + (
        if invites[invites.len() - 1].created_by@ == user {
            1int
        } else {
            0int
        })
    }
}

/// How many logins the given user created strictly after `cutoff_secs`.
pub open spec fn count_recent_logins(logins: Seq<Login>, user: Seq<char>, cutoff_secs: int) -> int
    decreases logins.len(),
{
    if logins.len() == 0 {
        0
    } else {
        count_recent_logins(logins.drop_last(), user, cutoff_secs) + (
        if logins[logins.len() - 1].user_id@ == user && logins[logins.len() - 1].created_at.secs
            > cutoff_secs {
            1int
        } else {
            0int
        })
    }
}

/// How many roles carry the Administrator permission.
pub open spec fn admin_count(roles: Seq<Role>) -> int
    decreases roles.len(),
{
    if roles.len() == 0 {
        0
    } else {
        admin_count(roles.drop_last()) + (
        if roles[roles.len() - 1].permission is Administrator {
            1int
        } else {
            0int
        })
    }
}

/// Counts never go below zero nor above the table's length.
pub proof fn lemma_count_invites_bounds(invites: Seq<Invite>, user: Seq<char>)
    ensures
        0 <= count_invites_by(invites, user) <= invites.len(),
    decreases invites.len(),
{
    if invites.len() > 0 {
        lemma_count_invites_bounds(invites.drop_last(), user);
    }
}

/// Counts never go below zero nor above the table's length.
pub proof fn lemma_count_recent_logins_bounds(logins: Seq<Login>, user: Seq<char>, cutoff: int)
    ensures
        0 <= count_recent_logins(logins, user, cutoff) <= logins.len(),
    decreases logins.len(),
{
    if logins.len() > 0 {
        lemma_count_recent_logins_bounds(logins.drop_last(), user, cutoff);
    }
}

/// Counts never go below zero nor above the table's length.
pub proof fn lemma_admin_count_bounds(roles: Seq<Role>)
    ensures
        0 <= admin_count(roles) <= roles.len(),
    decreases roles.len(),
{
    if roles.len() > 0 {
        lemma_admin_count_bounds(roles.drop_last());
    }
}

/// Whether some role of the given user grants the capability.
pub open spec fn has_capability(roles: Seq<Role>, user: Seq<char>, cap: Capability) -> bool {
    exists|i: int|
        0 <= i < roles.len() && roles[i].user_id@ == user && grants(roles[i].permission, cap)
}

/// The permissions of the given user's roles, in insertion order.
pub open spec fn permissions_of(roles: Seq<Role>, user: Seq<char>) -> Seq<Permission> {
    roles.filter(|r: Role| r.user_id@ == user).map_values(|r: Role| r.permission)
}

impl Store {
    /// An empty store.
    pub fn new() -> (r: Self)
        ensures
            r.users@.len() == 0,
            r.roles@.len() == 0,
            r.invites@.len() == 0,
            r.logins@.len() == 0,
            r.urls@.len() == 0,
            r.comments@.len() == 0,
            r.upvotes@.len() == 0,
            r.wf(),
    {
        Store {
            users: Vec::new(),
            roles: Vec::new(),
            invites: Vec::new(),
            logins: Vec::new(),
            urls: Vec::new(),
            comments: Vec::new(),
            upvotes: Vec::new(),
        }
    }

    /// Every row of every table is well formed.
    pub open spec fn wf(&self) -> bool {
        &&& forall|i: int| 0 <= i < self.users@.len() ==> (#[trigger] self.users@[i]).wf()
        &&& forall|i: int| 0 <= i < self.roles@.len() ==> (#[trigger] self.roles@[i]).wf()
        &&& forall|i: int| 0 <= i < self.invites@.len() ==> (#[trigger] self.invites@[i]).wf()
        &&& forall|i: int| 0 <= i < self.logins@.len() ==> (#[trigger] self.logins@[i]).wf()
        &&& forall|i: int| 0 <= i < self.urls@.len() ==> (#[trigger] self.urls@[i]).wf()
        &&& forall|i: int| 0 <= i < self.comments@.len() ==> (#[trigger] self.comments@[i]).wf()
        &&& forall|i: int| 0 <= i < self.upvotes@.len() ==> (#[trigger] self.upvotes@[i]).wf()
    }
}

} // verus!
