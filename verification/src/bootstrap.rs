//! First-run administrator provisioning.
//!
//! When no role carries the Administrator permission, the process asks
//! its operator for a name and email and grants the fresh account the
//! Administrator role. This is the only path that creates a role without
//! a capability check, and it does nothing at all while an administrator
//! exists.

use crate::clock::Instant;
use crate::errors::Error;
use crate::model::{admin_count, lemma_admin_count_bounds, Role, Store};
use crate::permission::Permission;
use crate::model::User;
use crate::users::NewUserInput;
use vstd::prelude::*;

verus! {

/// Whether the store still needs an administrator.
pub fn needs_bootstrap(store: &Store) -> (r: bool)
    ensures
        r == (admin_count(store.roles@) == 0),
{
    let len = store.roles.len();
    let mut i: usize = 0;
    while i < len
        invariant
            len == store.roles@.len(),
            i <= len,
            admin_count(store.roles@.subrange(0, i as int)) == 0,
        decreases len - i,
    {
        proof {
            assert(store.roles@.subrange(0, i + 1).drop_last() =~= store.roles@.subrange(
                0,
                i as int,
            ));
            assert(store.roles@.subrange(0, i + 1).last() == store.roles@[i as int]);
            lemma_admin_count_bounds(store.roles@.subrange(0, i as int));
        }
        if matches!(store.roles[i].permission, Permission::Administrator) {
            proof {
                lemma_admin_count_at_least(store.roles@, i as int);
            }
            return false;
        }
        i += 1;
    }
    proof {
        assert(store.roles@.subrange(0, len as int) =~= store.roles@);
    }
    true
}

/// An Administrator role at any index keeps the count above zero.
proof fn lemma_admin_count_at_least(roles: Seq<crate::model::Role>, i: int)
    requires
        0 <= i < roles.len(),
        roles[i].permission is Administrator,
    ensures
        admin_count(roles) >= 1,
    decreases roles.len(),
{
    lemma_admin_count_bounds(roles.drop_last());
    if i < roles.len() - 1 {
        lemma_admin_count_at_least(roles.drop_last(), i);
    }
}

/// Provision the first administrator: a no-op whenever an Administrator
/// role already exists, and otherwise the registration of the given
/// account with the Administrator role.
pub fn bootstrap(store: &mut Store, now: Instant, input: NewUserInput) -> (r: Result<
    Option<User>,
    Error,
>)
    requires
        old(store).wf(),
        now.wf_clock(),
    ensures
        final(store).wf(),
        match r {
            Ok(maybe) => match maybe {
                Some(admin) => {
                    &&& admin_count(old(store).roles@) == 0
                    &&& final(store).users@.len() == old(store).users@.len() + 1
                    &&& final(store).roles@.len() == old(store).roles@.len() + 1
                    &&& final(store).roles@.last().permission is Administrator
                    &&& final(store).roles@.last().user_id@ == admin.id@
                    &&& admin_count(final(store).roles@) > 0
                },
                None => {
                    &&& admin_count(old(store).roles@) > 0
                    &&& *final(store) == *old(store)
                },
            },
            Err(e) => {
                &&& admin_count(old(store).roles@) == 0
                &&& *final(store) == *old(store)
                &&& if !crate::users::valid_new_user_spec(input.name@, input.email@) {
                    e == Error::InvalidInput
                } else {
                    e == Error::Internal && crate::model::user_index_by_email(
                        old(store).users@,
                        crate::users::normal_email(input.email@),
                    ) != -1
                }
            },
        },
{
    if !needs_bootstrap(store) {
        proof {
            lemma_admin_count_bounds(store.roles@);
        }
        return Ok(None);
    }
    let admin = match User::create(store, now, input) {
        Ok(u) => u,
        Err(e) => {
            return Err(e);
        },
    };
    let role = Role::create(store, now, &admin.id, Permission::Administrator);
    proof {
        let roles = store.roles@;
        assert(roles.last().permission is Administrator);
        lemma_admin_count_bounds(roles.drop_last());
        assert(admin_count(roles) > 0);
        let _ = role;
    }
    Ok(Some(admin))
}

} // verus!
