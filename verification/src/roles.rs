//! Role grants: creating and revoking permissions for users.

use crate::clock::Instant;
use crate::errors::Error;
use crate::ids::{RoleID, UserID};
use crate::model::{has_capability, Role, Store};
use crate::permission::{grants, Capability, Permission};
use vstd::prelude::*;

verus! {

/// Index of the first role of `user` carrying `permission`, or `-1`.
pub open spec fn role_index_by_user_permission(
    roles: Seq<Role>,
    user: Seq<char>,
    permission: Permission,
) -> int
    decreases roles.len(),
{
    if roles.len() == 0 {
        -1
    } else if roles[0].user_id@ == user && roles[0].permission == permission {
        0
    } else if role_index_by_user_permission(roles.drop_first(), user, permission) == -1 {
        -1
    } else {
        1 + role_index_by_user_permission(roles.drop_first(), user, permission)
    }
}

/// A first match at `k` pins the index.
pub proof fn lemma_role_index_found(
    roles: Seq<Role>,
    user: Seq<char>,
    permission: Permission,
    k: int,
)
    requires
        0 <= k < roles.len(),
        roles[k].user_id@ == user && roles[k].permission == permission,
        forall|j: int|
            0 <= j < k ==> !(roles[j].user_id@ == user && roles[j].permission == permission),
    ensures
        role_index_by_user_permission(roles, user, permission) == k,
    decreases roles.len(),
{
    if k > 0 {
        lemma_role_index_found(roles.drop_first(), user, permission, k - 1);
    }
}

/// No match anywhere pins the index to `-1`.
pub proof fn lemma_role_index_none(roles: Seq<Role>, user: Seq<char>, permission: Permission)
    requires
        forall|j: int|
            0 <= j < roles.len() ==> !(roles[j].user_id@ == user && roles[j].permission
                == permission),
    ensures
        role_index_by_user_permission(roles, user, permission) == -1,
    decreases roles.len(),
{
    if roles.len() > 0 {
        lemma_role_index_none(roles.drop_first(), user, permission);
    }
}

/// Whether any role of `user` grants the capability.
pub fn user_has_capability(roles: &Vec<Role>, user: &UserID, cap: Capability) -> (r: bool)
    ensures
        r == has_capability(roles@, user@, cap),
{
    let len = roles.len();
    let mut i: usize = 0;
    while i < len
        invariant
            len == roles@.len(),
            i <= len,
            forall|j: int|
                0 <= j < i ==> !(roles@[j].user_id@ == user@ && grants(
                    roles@[j].permission,
                    cap,
                )),
        decreases len - i,
    {
        if roles[i].user_id.same(user) && roles[i].permission.grants_capability(cap) {
            return true;
        }
        i += 1;
    }
    false
}

/// What a successful role creation leaves behind: the grant appended,
/// everything else untouched.
pub open spec fn role_create_post(
    pre: Store,
    post: Store,
    role: Role,
    user: Seq<char>,
    permission: Permission,
    now: Instant,
) -> bool {
    &&& post.users@ == pre.users@
    &&& post.invites@ == pre.invites@
    &&& post.logins@ == pre.logins@
    &&& post.urls@ == pre.urls@
    &&& post.comments@ == pre.comments@
    &&& post.upvotes@ == pre.upvotes@
    &&& post.roles@.len() == pre.roles@.len() + 1
    &&& forall|i: int| 0 <= i < pre.roles@.len() ==> post.roles@[i] == pre.roles@[i]
    &&& post.roles@.last().user_id@ == user
    &&& post.roles@.last().permission == permission
    &&& post.roles@.last().created_at == now
    &&& post.roles@.last().updated_at == now
    &&& role.id@ == post.roles@.last().id@
    &&& role.user_id@ == user
    &&& role.permission == permission
    &&& role.created_at == now
    &&& role.updated_at == now
}

impl Role {
    /// Grant `permission` to the given user.
    pub fn create(store: &mut Store, now: Instant, user_id: &UserID, permission: Permission) -> (
        r: Role)
        requires
            old(store).wf(),
            now.wf_clock(),
            user_id.wf(),
        ensures
            final(store).wf(),
            role_create_post(*old(store), *final(store), r, user_id@, permission, now),
            r.wf(),
    {
        let role = Role {
            id: RoleID::new(),
            created_at: now,
            updated_at: now,
            user_id: user_id.duplicate(),
            permission,
        };
        let ret = role.duplicate();
        store.roles.push(role);
        ret
    }

    /// Revoke `permission` from the given user by deleting the first
    /// matching role; fails with `Internal` when the user holds no such
    /// role.
    pub fn delete_by_permission(
        store: &mut Store,
        user_id: &UserID,
        permission: Permission,
    ) -> (r: Result<Role, Error>)
        requires
            old(store).wf(),
        ensures
            final(store).wf(),
            final(store).users@ == old(store).users@,
            final(store).invites@ == old(store).invites@,
            final(store).logins@ == old(store).logins@,
            final(store).urls@ == old(store).urls@,
            final(store).comments@ == old(store).comments@,
            final(store).upvotes@ == old(store).upvotes@,
            match r {
                Ok(role) => {
                    let i = role_index_by_user_permission(old(store).roles@, user_id@, permission);
                    &&& 0 <= i < old(store).roles@.len()
                    &&& final(store).roles@ == old(store).roles@.remove(i)
                    &&& role.id@ == old(store).roles@[i].id@
                    &&& role.user_id@ == user_id@
                    &&& role.permission == permission
                },
                Err(e) => {
                    &&& e == Error::Internal
                    &&& role_index_by_user_permission(old(store).roles@, user_id@, permission)
                        == -1
                    &&& *final(store) == *old(store)
                },
            },
    {
        let len = store.roles.len();
        let mut i: usize = 0;
        while i < len
            invariant
                *store == *old(store),
                old(store).wf(),
                len == store.roles@.len(),
                i <= len,
                forall|j: int|
                    0 <= j < i ==> !(store.roles@[j].user_id@ == user_id@
                        && store.roles@[j].permission == permission),
            decreases len - i,
        {
            if store.roles[i].user_id.same(user_id) && store.roles[i].permission == permission {
                proof {
                    lemma_role_index_found(store.roles@, user_id@, permission, i as int);
                }
                let role = store.roles.remove(i);
                return Ok(role);
            }
            i += 1;
        }
        proof {
            lemma_role_index_none(store.roles@, user_id@, permission);
        }
        Err(Error::Internal)
    }
}

} // verus!
