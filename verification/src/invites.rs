//! The invitation engine: quota-limited issuance and single-use claim.

use crate::clock::{Instant, INVITE_TOKEN_LEN, MAX_INVITES_PER_USER};
use crate::errors::Error;
use crate::ids::{InviteID, UserID};
use crate::model::{count_invites_by, has_capability, invite_index_by_id, invite_index_by_token,
    lemma_count_invites_bounds, lemma_invite_index_by_id_found, lemma_invite_index_by_id_none,
    lemma_invite_index_by_token_found, lemma_invite_index_by_token_none, Invite, Store};
use crate::permission::Capability;
use crate::random::{alnum_alphabet, random_alnum_token};
use crate::roles::user_has_capability;
use crate::strutil::str_equal;
use vstd::prelude::*;
use vstd::std_specs::vec::vec_index_mut;

verus! {

/// The shape of a freshly issued invite at `now` by `creator`.
pub open spec fn fresh_invite_spec(inv: Invite, creator: Seq<char>, now: Instant) -> bool {
    &&& inv.created_by@ == creator
    &&& inv.claimed_by is None
    &&& inv.created_at == now
    &&& inv.updated_at == now
    &&& inv.token@.len() == INVITE_TOKEN_LEN
    &&& forall|i: int|
        0 <= i < inv.token@.len() ==> alnum_alphabet().contains(#[trigger] inv.token@[i])
}

/// Whether two invites agree on every observable field.
pub open spec fn invite_views_match(a: Invite, b: Invite) -> bool {
    &&& a.id@ == b.id@
    &&& a.token@ == b.token@
    &&& a.created_by@ == b.created_by@
    &&& match (a.claimed_by, b.claimed_by) {
        (Some(x), Some(y)) => x@ == y@,
        (None, None) => true,
        _ => false,
    }
    &&& a.created_at == b.created_at
    &&& a.updated_at == b.updated_at
}

/// What claiming the invite at index `i` decides: only a never-claimed
/// invite can be claimed.
pub open spec fn invite_claim_outcome(invites: Seq<Invite>, i: int) -> Result<(), Error> {
    if !(0 <= i < invites.len()) {
        Err(Error::Internal)
    } else if invites[i].claimed_by is Some {
        Err(Error::AlreadyClaimed)
    } else {
        Ok(())
    }
}

/// What a successful issuance leaves behind: a fresh invite appended,
/// everything else untouched, and the quota respected.
pub open spec fn invite_create_post(
    pre: Store,
    post: Store,
    inv: Invite,
    creator: Seq<char>,
    now: Instant,
) -> bool {
    &&& count_invites_by(pre.invites@, creator) < MAX_INVITES_PER_USER || has_capability(
        pre.roles@,
        creator,
        Capability::UnlimitedInvites,
    )
    &&& post.users@ == pre.users@
    &&& post.roles@ == pre.roles@
    &&& post.logins@ == pre.logins@
    &&& post.urls@ == pre.urls@
    &&& post.comments@ == pre.comments@
    &&& post.upvotes@ == pre.upvotes@
    &&& post.invites@.len() == pre.invites@.len() + 1
    &&& forall|i: int| 0 <= i < pre.invites@.len() ==> post.invites@[i] == pre.invites@[i]
    &&& fresh_invite_spec(post.invites@.last(), creator, now)
    &&& invite_views_match(inv, post.invites@.last())
}

impl Invite {
    /// Issue a new invite for `created_by` at `now`: beyond the quota of
    /// three, only holders of the unlimited-invites capability may issue
    /// more; everyone else gets `QuotaExceeded`.
    pub fn create(store: &mut Store, now: Instant, created_by: &UserID) -> (r: Result<
        Invite,
        Error,
    >)
        requires
            old(store).wf(),
            now.wf_clock(),
            created_by.wf(),
        ensures
            final(store).wf(),
            match r {
                Ok(inv) => invite_create_post(*old(store), *final(store), inv, created_by@, now)
                    && inv.wf(),
                Err(e) => {
                    &&& e == Error::QuotaExceeded
                    &&& count_invites_by(old(store).invites@, created_by@)
                        >= MAX_INVITES_PER_USER
                    &&& !has_capability(
                        old(store).roles@,
                        created_by@,
                        Capability::UnlimitedInvites,
                    )
                    &&& *final(store) == *old(store)
                },
            },
    {
        let issued = count_invites(&store.invites, created_by);
        if issued >= MAX_INVITES_PER_USER {
            if !user_has_capability(&store.roles, created_by, Capability::UnlimitedInvites) {
                return Err(Error::QuotaExceeded);
            }
        }
        let invite = Invite {
            id: InviteID::new(),
            created_at: now,
            updated_at: now,
            token: random_alnum_token(INVITE_TOKEN_LEN),
            created_by: created_by.duplicate(),
            claimed_by: None,
        };
        let ret = invite.duplicate();
        store.invites.push(invite);
        Ok(ret)
    }

    /// Retrieve an invitation by exact token match; `Internal` when no
    /// invite carries the token.
    pub fn find_by_token(store: &Store, token: &str) -> (r: Result<Invite, Error>)
        requires
            store.wf(),
        ensures
            match r {
                Ok(inv) => {
                    let i = invite_index_by_token(store.invites@, token@);
                    &&& 0 <= i < store.invites@.len()
                    &&& invite_views_match(inv, store.invites@[i])
                    &&& inv.wf()
                },
                Err(e) => {
                    &&& e == Error::Internal
                    &&& invite_index_by_token(store.invites@, token@) == -1
                },
            },
    {
        let len = store.invites.len();
        let mut i: usize = 0;
        while i < len
            invariant
                store.wf(),
                len == store.invites@.len(),
                i <= len,
                forall|j: int| 0 <= j < i ==> store.invites@[j].token@ != token@,
            decreases len - i,
        {
            if str_equal(store.invites[i].token.as_str(), token) {
                proof {
                    lemma_invite_index_by_token_found(store.invites@, token@, i as int);
                }
                return Ok(store.invites[i].duplicate());
            }
            i += 1;
        }
        proof {
            lemma_invite_index_by_token_none(store.invites@, token@);
        }
        Err(Error::Internal)
    }

    /// Claim this invite for the given user: succeeds at most once over
    /// the invite's whole life, and never clears `claimed_by` again.
    pub fn claim(
        store: &mut Store,
        invite_id: &InviteID,
        claimed_by: &UserID,
        now: Instant,
    ) -> (r: Result<(), Error>)
        requires
            old(store).wf(),
            now.wf_clock(),
            claimed_by.wf(),
        ensures
            final(store).wf(),
            final(store).users@ == old(store).users@,
            final(store).roles@ == old(store).roles@,
            final(store).logins@ == old(store).logins@,
            final(store).urls@ == old(store).urls@,
            final(store).comments@ == old(store).comments@,
            final(store).upvotes@ == old(store).upvotes@,
            match r {
                Ok(()) => {
                    let i = invite_index_by_id(old(store).invites@, invite_id@);
                    &&& invite_claim_outcome(old(store).invites@, i) == Ok::<_, Error>(())
                    &&& final(store).invites@.len() == old(store).invites@.len()
                    &&& forall|j: int|
                        0 <= j < old(store).invites@.len() && j != i ==> final(store).invites@[j]
                            == old(store).invites@[j]
                    &&& {
                        let v_old = old(store).invites@[i];
                        let v_new = final(store).invites@[i];
                        &&& v_new.claimed_by matches Some(u) && u@ == claimed_by@
                        &&& v_new.updated_at == now
                        &&& v_new.id@ == v_old.id@
                        &&& v_new.token@ == v_old.token@
                        &&& v_new.created_by@ == v_old.created_by@
                        &&& v_new.created_at == v_old.created_at
                    }
                },
                Err(e) => {
                    let i = invite_index_by_id(old(store).invites@, invite_id@);
                    &&& invite_claim_outcome(old(store).invites@, i) == Err::<(), _>(e)
                    &&& *final(store) == *old(store)
                },
            },
    {
        let i = match find_invite_by_id(&store.invites, invite_id) {
            Some(i) => i,
            None => {
                return Err(Error::Internal);
            },
        };
        if store.invites[i].claimed_by.is_some() {
            return Err(Error::AlreadyClaimed);
        }
        let v = vec_index_mut(&mut store.invites, i);
        v.claimed_by = Some(claimed_by.duplicate());
        v.updated_at = now;
        Ok(())
    }
}

/// How many invites `user` has created.
fn count_invites(invites: &Vec<Invite>, user: &UserID) -> (r: u64)
    ensures
        r == count_invites_by(invites@, user@),
{
    let len = invites.len();
    let mut c: u64 = 0;
    let mut i: usize = 0;
    while i < len
        invariant
            len == invites@.len(),
            i <= len,
            c <= i,
            c == count_invites_by(invites@.subrange(0, i as int), user@),
        decreases len - i,
    {
        proof {
            assert(invites@.subrange(0, i + 1).drop_last() =~= invites@.subrange(0, i as int));
            assert(invites@.subrange(0, i + 1).last() == invites@[i as int]);
        }
        if invites[i].created_by.same(user) {
            c += 1;
        }
        i += 1;
    }
    proof {
        assert(invites@.subrange(0, len as int) =~= invites@);
    }
    c
}

/// Index of the first invite with the given identifier.
fn find_invite_by_id(invites: &Vec<Invite>, id: &InviteID) -> (r: Option<usize>)
    ensures
        match r {
            Some(i) => i == invite_index_by_id(invites@, id@) && i < invites@.len(),
            None => invite_index_by_id(invites@, id@) == -1,
        },
{
    let len = invites.len();
    let mut i: usize = 0;
    while i < len
        invariant
            len == invites@.len(),
            i <= len,
            forall|j: int| 0 <= j < i ==> invites@[j].id@ != id@,
        decreases len - i,
    {
        if invites[i].id.same(id) {
            proof {
                lemma_invite_index_by_id_found(invites@, id@, i as int);
            }
            return Some(i);
        }
        i += 1;
    }
    proof {
        lemma_invite_index_by_id_none(invites@, id@);
    }
    None
}

/// Invite single-use: once a claim has succeeded on an invite, every
/// further claim of that invite fails with `AlreadyClaimed`.
pub proof fn lemma_invite_single_use(pre: Seq<Invite>, post: Seq<Invite>, i: int)
    requires
        invite_claim_outcome(pre, i) == Ok::<_, Error>(()),
        post.len() == pre.len(),
        post[i].claimed_by is Some,
    ensures
        invite_claim_outcome(post, i) == Err::<(), _>(Error::AlreadyClaimed),
{
}

/// Invite quota: issuing below the quota leaves the user's total at or
/// below the quota, and at the quota a user without the
/// unlimited-invites capability is refused; so a non-privileged user
/// never holds more than three invites, outstanding and claimed
/// combined.
pub proof fn lemma_invite_quota(pre: Seq<Invite>, inv: Invite, user: Seq<char>)
    requires
        count_invites_by(pre, user) < MAX_INVITES_PER_USER,
        inv.created_by@ == user,
    ensures
        count_invites_by(pre.push(inv), user) <= MAX_INVITES_PER_USER,
{
    lemma_count_invites_bounds(pre, user);
    assert(pre.push(inv).drop_last() =~= pre);
}

} // verus!
