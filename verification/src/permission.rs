//! Role permissions and the capabilities they grant.
//!
//! Authorisation is role-backed: a user holds roles, each carrying a
//! permission, and an operation demands a capability. The mapping from
//! permission to capability is a fixed table.

use vstd::prelude::*;

verus! {

/// A permission a role can carry.
#[derive(Debug, Clone, Copy, PartialEq, Eq, Structural)]
pub enum Permission {
    Administrator,
    Moderator,
}

/// A capability an operation can demand.
#[derive(Debug, Clone, Copy, PartialEq, Eq, Structural)]
pub enum Capability {
    UnlimitedInvites,
    ModifyUserRoles,
    DeleteAnyUrl,
    DeleteAnyComment,
    AccessAdminBackups,
}

/// The fixed permission-to-capability table.
pub open spec fn grants(p: Permission, c: Capability) -> bool {
    match c {
        Capability::UnlimitedInvites => p is Administrator,
        Capability::ModifyUserRoles => p is Administrator,
        Capability::AccessAdminBackups => p is Administrator,
        Capability::DeleteAnyUrl => p is Administrator || p is Moderator,
        Capability::DeleteAnyComment => p is Administrator || p is Moderator,
    }
}

impl Permission {
    /// Whether this permission grants the given capability.
    pub fn grants_capability(&self, c: Capability) -> (r: bool)
        ensures
            r == grants(*self, c),
    {
        match c {
            Capability::UnlimitedInvites => matches!(*self, Permission::Administrator),
            Capability::ModifyUserRoles => matches!(*self, Permission::Administrator),
            Capability::AccessAdminBackups => matches!(*self, Permission::Administrator),
            Capability::DeleteAnyUrl => true,
            Capability::DeleteAnyComment => true,
        }
    }

    /// Whether this permission grants the ability to create unlimited
    /// invite tokens.
    pub fn unlimited_invites(&self) -> (r: bool)
        ensures
            r == grants(*self, Capability::UnlimitedInvites),
    {
        self.grants_capability(Capability::UnlimitedInvites)
    }

    /// Whether this permission grants the ability to create or delete
    /// user roles.
    pub fn modify_user_roles(&self) -> (r: bool)
        ensures
            r == grants(*self, Capability::ModifyUserRoles),
    {
        self.grants_capability(Capability::ModifyUserRoles)
    }

    /// Whether this permission grants the ability to delete any
    /// submitted URL.
    pub fn delete_any_url(&self) -> (r: bool)
        ensures
            r == grants(*self, Capability::DeleteAnyUrl),
    {
        self.grants_capability(Capability::DeleteAnyUrl)
    }

    /// Whether this permission grants the ability to delete any comment.
    pub fn delete_any_comment(&self) -> (r: bool)
        ensures
            r == grants(*self, Capability::DeleteAnyComment),
    {
        self.grants_capability(Capability::DeleteAnyComment)
    }

    /// Whether this permission grants access to administrator backups.
    pub fn access_admin_backups(&self) -> (r: bool)
        ensures
            r == grants(*self, Capability::AccessAdminBackups),
    {
        self.grants_capability(Capability::AccessAdminBackups)
    }
}

} // verus!
