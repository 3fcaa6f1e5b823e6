//! The URL submission guard: canonicalised, unique submissions, cascade
//! deletion under a capability check, and upvotes.

use crate::clock::Instant;
use crate::context::Context;
use crate::errors::Error;
use crate::ids::{UrlID, UserID};
use crate::model::{has_capability, Store, Url, UrlUpvote};
use crate::permission::Capability;
use crate::roles::user_has_capability;
use crate::strutil::{clone_opt_string, opt_string_views_match, str_equal};
use crate::url_canon::{canon_spec, canonicalize};
use vstd::prelude::*;

verus! {

/// The result of the outside URL-format check.
pub uninterp spec fn is_valid_url(s: Seq<char>) -> bool;

/// Relies on `validator::ValidateUrl::validate_url`: the URL format
/// check, a function of the string alone.
#[verifier::external_body]
fn valid_url(s: &str) -> (r: bool)
    ensures
        r == is_valid_url(s@),
{
    validator::ValidateUrl::validate_url(&s)
}

/// Index of the first stored URL with the given canonical string, or
/// `-1`.
pub open spec fn url_index_by_string(urls: Seq<Url>, url: Seq<char>) -> int
    decreases urls.len(),
{
    if urls.len() == 0 {
        -1
    } else if urls[0].url@ == url {
        0
    } else if url_index_by_string(urls.drop_first(), url) == -1 {
        -1
    } else {
        1 + url_index_by_string(urls.drop_first(), url)
    }
}

/// Index of the first stored URL with the given identifier, or `-1`.
pub open spec fn url_index_by_id(urls: Seq<Url>, id: Seq<char>) -> int
    decreases urls.len(),
{
    if urls.len() == 0 {
        -1
    } else if urls[0].id@ == id {
        0
    } else if url_index_by_id(urls.drop_first(), id) == -1 {
        -1
    } else {
        1 + url_index_by_id(urls.drop_first(), id)
    }
}

/// A first match at `k` pins the index.
proof fn lemma_url_index_by_string_found(urls: Seq<Url>, url: Seq<char>, k: int)
    requires
        0 <= k < urls.len(),
        urls[k].url@ == url,
        forall|j: int| 0 <= j < k ==> urls[j].url@ != url,
    ensures
        url_index_by_string(urls, url) == k,
    decreases urls.len(),
{
    if k > 0 {
        lemma_url_index_by_string_found(urls.drop_first(), url, k - 1);
    }
}

/// No match anywhere pins the index to `-1`.
proof fn lemma_url_index_by_string_none(urls: Seq<Url>, url: Seq<char>)
    requires
        forall|j: int| 0 <= j < urls.len() ==> urls[j].url@ != url,
    ensures
        url_index_by_string(urls, url) == -1,
    decreases urls.len(),
{
    if urls.len() > 0 {
        lemma_url_index_by_string_none(urls.drop_first(), url);
    }
}

/// A first match at `k` pins the index.
proof fn lemma_url_index_by_id_found(urls: Seq<Url>, id: Seq<char>, k: int)
    requires
        0 <= k < urls.len(),
        urls[k].id@ == id,
        forall|j: int| 0 <= j < k ==> urls[j].id@ != id,
    ensures
        url_index_by_id(urls, id) == k,
    decreases urls.len(),
{
    if k > 0 {
        lemma_url_index_by_id_found(urls.drop_first(), id, k - 1);
    }
}

/// No match anywhere pins the index to `-1`.
proof fn lemma_url_index_by_id_none(urls: Seq<Url>, id: Seq<char>)
    requires
        forall|j: int| 0 <= j < urls.len() ==> urls[j].id@ != id,
    ensures
        url_index_by_id(urls, id) == -1,
    decreases urls.len(),
{
    if urls.len() > 0 {
        lemma_url_index_by_id_none(urls.drop_first(), id);
    }
}

/// The upvotes that survive deleting a URL.
pub open spec fn remove_upvotes_for(upvotes: Seq<UrlUpvote>, url: Seq<char>) -> Seq<UrlUpvote> {
    upvotes.filter(|v: UrlUpvote| v.url_id@ != url)
}

/// The comments that survive deleting a URL.
pub open spec fn remove_comments_for(
    comments: Seq<crate::model::Comment>,
    url: Seq<char>,
) -> Seq<crate::model::Comment> {
    comments.filter(|x: crate::model::Comment| x.url_id@ != url)
}

/// Filtering keeps rows of the original table, so well-formedness
/// survives it.
proof fn lemma_remove_upvotes_wf(upvotes: Seq<UrlUpvote>, url: Seq<char>)
    requires
        forall|i: int| 0 <= i < upvotes.len() ==> (#[trigger] upvotes[i]).wf(),
    ensures
        forall|i: int|
            0 <= i < remove_upvotes_for(upvotes, url).len() ==> (#[trigger] remove_upvotes_for(
                upvotes,
                url,
            )[i]).wf(),
    decreases upvotes.len(),
{
    reveal(Seq::filter);
    if upvotes.len() > 0 {
        assert(forall|i: int|
            0 <= i < upvotes.drop_last().len() ==> (#[trigger] upvotes.drop_last()[i]).wf());
        lemma_remove_upvotes_wf(upvotes.drop_last(), url);
        let out = remove_upvotes_for(upvotes, url);
        let sub = remove_upvotes_for(upvotes.drop_last(), url);
        assert forall|i: int| 0 <= i < out.len() implies (#[trigger] out[i]).wf() by {
            if i < sub.len() {
                assert(out[i] == sub[i]);
            } else {
                assert(out[i] == upvotes.last());
            }
        }
    }
}

/// Filtering keeps rows of the original table, so well-formedness
/// survives it.
proof fn lemma_remove_comments_wf(comments: Seq<crate::model::Comment>, url: Seq<char>)
    requires
        forall|i: int| 0 <= i < comments.len() ==> (#[trigger] comments[i]).wf(),
    ensures
        forall|i: int|
            0 <= i < remove_comments_for(comments, url).len() ==> (#[trigger] remove_comments_for(
                comments,
                url,
            )[i]).wf(),
    decreases comments.len(),
{
    reveal(Seq::filter);
    if comments.len() > 0 {
        assert(forall|i: int|
            0 <= i < comments.drop_last().len() ==> (#[trigger] comments.drop_last()[i]).wf());
        lemma_remove_comments_wf(comments.drop_last(), url);
        let out = remove_comments_for(comments, url);
        let sub = remove_comments_for(comments.drop_last(), url);
        assert forall|i: int| 0 <= i < out.len() implies (#[trigger] out[i]).wf() by {
            if i < sub.len() {
                assert(out[i] == sub[i]);
            } else {
                assert(out[i] == comments.last());
            }
        }
    }
}

/// The upvotes that survive rescinding one user's upvote of one URL.
pub open spec fn remove_upvote_by(
    upvotes: Seq<UrlUpvote>,
    url: Seq<char>,
    user: Seq<char>,
) -> Seq<UrlUpvote> {
    upvotes.filter(|v: UrlUpvote| !(v.url_id@ == url && v.user_id@ == user))
}

/// Filtering keeps rows of the original table, so well-formedness
/// survives it.
proof fn lemma_remove_upvote_by_wf(upvotes: Seq<UrlUpvote>, url: Seq<char>, user: Seq<char>)
    requires
        forall|i: int| 0 <= i < upvotes.len() ==> (#[trigger] upvotes[i]).wf(),
    ensures
        forall|i: int|
            0 <= i < remove_upvote_by(upvotes, url, user).len() ==> (#[trigger] remove_upvote_by(
                upvotes,
                url,
                user,
            )[i]).wf(),
    decreases upvotes.len(),
{
    reveal(Seq::filter);
    if upvotes.len() > 0 {
        assert(forall|i: int|
            0 <= i < upvotes.drop_last().len() ==> (#[trigger] upvotes.drop_last()[i]).wf());
        lemma_remove_upvote_by_wf(upvotes.drop_last(), url, user);
        let out = remove_upvote_by(upvotes, url, user);
        let sub = remove_upvote_by(upvotes.drop_last(), url, user);
        assert forall|i: int| 0 <= i < out.len() implies (#[trigger] out[i]).wf() by {
            if i < sub.len() {
                assert(out[i] == sub[i]);
            } else {
                assert(out[i] == upvotes.last());
            }
        }
    }
}

/// Whether the user has upvoted the URL.
pub open spec fn has_upvote(upvotes: Seq<UrlUpvote>, url: Seq<char>, user: Seq<char>) -> bool {
    exists|i: int|
        0 <= i < upvotes.len() && upvotes[i].url_id@ == url && upvotes[i].user_id@ == user
}

/// How many upvotes the URL holds.
pub open spec fn count_upvotes(upvotes: Seq<UrlUpvote>, url: Seq<char>) -> int
    decreases upvotes.len(),
{
    if upvotes.len() == 0 {
        0
    } else {
        count_upvotes(upvotes.drop_last(), url) + (
        if upvotes[upvotes.len() - 1].url_id@ == url {
            1int
        } else {
            0int
        })
    }
}

/// Index of the first stored URL with the given identifier.
fn find_url_by_id(urls: &Vec<Url>, id: &UrlID) -> (r: Option<usize>)
    ensures
        match r {
            Some(i) => i == url_index_by_id(urls@, id@) && i < urls@.len(),
            None => url_index_by_id(urls@, id@) == -1,
        },
{
    let len = urls.len();
    let mut i: usize = 0;
    while i < len
        invariant
            len == urls@.len(),
            i <= len,
            forall|j: int| 0 <= j < i ==> urls@[j].id@ != id@,
        decreases len - i,
    {
        if urls[i].id.same(id) {
            proof {
                lemma_url_index_by_id_found(urls@, id@, i as int);
            }
            return Some(i);
        }
        i += 1;
    }
    proof {
        lemma_url_index_by_id_none(urls@, id@);
    }
    None
}

/// Index of the first stored URL with the given canonical string.
fn find_url_by_string(urls: &Vec<Url>, url: &str) -> (r: Option<usize>)
    ensures
        match r {
            Some(i) => i == url_index_by_string(urls@, url@) && i < urls@.len(),
            None => url_index_by_string(urls@, url@) == -1,
        },
{
    let len = urls.len();
    let mut i: usize = 0;
    while i < len
        invariant
            len == urls@.len(),
            i <= len,
            forall|j: int| 0 <= j < i ==> urls@[j].url@ != url@,
        decreases len - i,
    {
        if str_equal(urls[i].url.as_str(), url) {
            proof {
                lemma_url_index_by_string_found(urls@, url@, i as int);
            }
            return Some(i);
        }
        i += 1;
    }
    proof {
        lemma_url_index_by_string_none(urls@, url@);
    }
    None
}

impl Url {
    /// Load a URL by id; `Internal` when no such URL exists.
    pub fn find(store: &Store, id: &UrlID) -> (r: Result<usize, Error>)
        ensures
            match r {
                Ok(i) => i == url_index_by_id(store.urls@, id@) && i < store.urls@.len(),
                Err(e) => e == Error::Internal && url_index_by_id(store.urls@, id@) == -1,
            },
    {
        match find_url_by_id(&store.urls, id) {
            Some(i) => Ok(i),
            None => Err(Error::Internal),
        }
    }

    /// Validate and canonicalise a submitted URL and check it is not a
    /// duplicate: the canonical string the submission will be stored
    /// under, ready for the fetch that completes it.
    pub fn prepare_submission(store: &Store, raw: &str) -> (r: Result<String, Error>)
        ensures
            match r {
                Ok(c) => {
                    &&& is_valid_url(raw@)
                    &&& canon_spec(raw@) == Some(c@)
                    &&& url_index_by_string(store.urls@, c@) == -1
                },
                Err(e) => {
                    ||| (e == Error::InvalidInput && (!is_valid_url(raw@) || canon_spec(raw@)
                        is None))
                    ||| (e == Error::DuplicateUrl && is_valid_url(raw@) && (
                    canon_spec(raw@) matches Some(c) && url_index_by_string(store.urls@, c)
                        != -1))
                },
            },
    {
        if !valid_url(raw) {
            return Err(Error::InvalidInput);
        }
        let canonical = match canonicalize(raw) {
            Ok(c) => c,
            Err(e) => {
                return Err(e);
            },
        };
        match find_url_by_string(&store.urls, canonical.as_str()) {
            Some(_) => Err(Error::DuplicateUrl),
            None => Ok(canonical),
        }
    }

    /// Record a fetched submission: only a successful fetch status is
    /// stored, the canonical string must still be unique, and the new
    /// URL row carries the fetched metadata.
    pub fn finish_submission(
        store: &mut Store,
        now: Instant,
        canonical: String,
        status: u16,
        title: Option<String>,
        description: Option<String>,
        image: Option<String>,
        created_by: &UserID,
    ) -> (r: Result<Url, Error>)
        requires
            old(store).wf(),
            now.wf_clock(),
            created_by.wf(),
        ensures
            final(store).wf(),
            final(store).users@ == old(store).users@,
            final(store).roles@ == old(store).roles@,
            final(store).invites@ == old(store).invites@,
            final(store).logins@ == old(store).logins@,
            final(store).comments@ == old(store).comments@,
            final(store).upvotes@ == old(store).upvotes@,
            match r {
                Ok(u) => {
                    &&& 200 <= status < 300
                    &&& url_index_by_string(old(store).urls@, canonical@) == -1
                    &&& final(store).urls@.len() == old(store).urls@.len() + 1
                    &&& forall|j: int|
                        0 <= j < old(store).urls@.len() ==> final(store).urls@[j] == old(
                            store,
                        ).urls@[j]
                    &&& {
                        let n = final(store).urls@.last();
                        &&& n.url@ == canonical@
                        &&& n.status_code == status
                        &&& opt_string_views_match(n.title, title)
                        &&& opt_string_views_match(n.description, description)
                        &&& opt_string_views_match(n.image, image)
                        &&& n.created_by@ == created_by@
                        &&& n.created_at == now
                        &&& n.updated_at == now
                        &&& u.id@ == n.id@
                        &&& u.url@ == canonical@
                    }
                },
                Err(e) => {
                    &&& *final(store) == *old(store)
                    &&& if !(200 <= status < 300) {
                        e == Error::FetchFailed(status)
                    } else {
                        e == Error::DuplicateUrl && url_index_by_string(
                            old(store).urls@,
                            canonical@,
                        ) != -1
                    }
                },
            },
    {
        if !(200 <= status && status < 300) {
            return Err(Error::FetchFailed(status));
        }
        if find_url_by_string(&store.urls, canonical.as_str()).is_some() {
            return Err(Error::DuplicateUrl);
        }
        let url = Url {
            id: UrlID::new(),
            created_at: now,
            updated_at: now,
            url: canonical.clone(),
            status_code: status,
            title: clone_opt_string(&title),
            description: clone_opt_string(&description),
            image: clone_opt_string(&image),
            created_by: created_by.duplicate(),
        };
        let ret = Url {
            id: url.id.duplicate(),
            created_at: now,
            updated_at: now,
            url: canonical,
            status_code: status,
            title,
            description,
            image,
            created_by: created_by.duplicate(),
        };
        store.urls.push(url);
        Ok(ret)
    }

    /// Delete a URL with its upvotes and comments: allowed to its
    /// submitter, and otherwise only to holders of the delete-any-URL
    /// capability.
    pub fn delete(store: &mut Store, ctx: &Context, url_id: &UrlID) -> (r: Result<(), Error>)
        requires
            old(store).wf(),
            ctx.wf(),
        ensures
            final(store).wf(),
            final(store).users@ == old(store).users@,
            final(store).roles@ == old(store).roles@,
            final(store).invites@ == old(store).invites@,
            final(store).logins@ == old(store).logins@,
            match r {
                Ok(()) => {
                    let i = url_index_by_id(old(store).urls@, url_id@);
                    &&& 0 <= i < old(store).urls@.len()
                    &&& (ctx.spec_user_id() matches Some(u) && (old(store).urls@[i].created_by@
                        == u || has_capability(old(store).roles@, u, Capability::DeleteAnyUrl)))
                    &&& final(store).urls@ == old(store).urls@.remove(i)
                    &&& final(store).upvotes@ == remove_upvotes_for(old(store).upvotes@, url_id@)
                    &&& final(store).comments@ == remove_comments_for(
                        old(store).comments@,
                        url_id@,
                    )
                },
                Err(e) => {
                    &&& *final(store) == *old(store)
                    &&& {
                        let i = url_index_by_id(old(store).urls@, url_id@);
                        if i == -1 {
                            e == Error::Internal
                        } else if ctx.spec_user_id() is None {
                            e == Error::NotAuthenticated
                        } else {
                            let u = ctx.spec_user_id().unwrap();
                            &&& e == Error::NotAuthorized
                            &&& old(store).urls@[i].created_by@ != u
                            &&& !has_capability(old(store).roles@, u, Capability::DeleteAnyUrl)
                        }
                    }
                },
            },
    {
        let i = match find_url_by_id(&store.urls, url_id) {
            Some(i) => i,
            None => {
                return Err(Error::Internal);
            },
        };
        let caller = match ctx.user_id() {
            Ok(u) => u,
            Err(e) => {
                return Err(e);
            },
        };
        if !store.urls[i].created_by.same(&caller) {
            if !user_has_capability(&store.roles, &caller, Capability::DeleteAnyUrl) {
                return Err(Error::NotAuthorized);
            }
        }
        let ghost old_upvotes = store.upvotes@;
        let mut k: usize = 0;
        let ghost mut c: int = 0;
        while k < store.upvotes.len()
            invariant
                old(store).wf(),
                store.users@ == old(store).users@,
                store.roles@ == old(store).roles@,
                store.invites@ == old(store).invites@,
                store.logins@ == old(store).logins@,
                store.urls@ == old(store).urls@,
                store.comments@ == old(store).comments@,
                old_upvotes == old(store).upvotes@,
                0 <= c <= old_upvotes.len(),
                store.upvotes@ =~= remove_upvotes_for(old_upvotes.subrange(0, c), url_id@)
                    + old_upvotes.subrange(c, old_upvotes.len() as int),
                k == remove_upvotes_for(old_upvotes.subrange(0, c), url_id@).len(),
                k <= store.upvotes@.len(),
            decreases old_upvotes.len() - c,
        {
            proof {
                reveal(Seq::filter);
                assert(c < old_upvotes.len());
                assert(store.upvotes@[k as int] == old_upvotes[c]);
                assert(old_upvotes.subrange(0, c + 1).drop_last() =~= old_upvotes.subrange(0, c));
                assert(old_upvotes.subrange(0, c + 1).last() == old_upvotes[c]);
            }
            if store.upvotes[k].url_id.same(url_id) {
                store.upvotes.remove(k);
                proof {
                    c = c + 1;
                    assert(store.upvotes@ =~= remove_upvotes_for(
                        old_upvotes.subrange(0, c),
                        url_id@,
                    ) + old_upvotes.subrange(c, old_upvotes.len() as int));
                }
            } else {
                k += 1;
                proof {
                    c = c + 1;
                    assert(remove_upvotes_for(old_upvotes.subrange(0, c), url_id@)
                        =~= remove_upvotes_for(old_upvotes.subrange(0, c - 1), url_id@).push(
                        old_upvotes[c - 1],
                    ));
                    assert(store.upvotes@ =~= remove_upvotes_for(
                        old_upvotes.subrange(0, c),
                        url_id@,
                    ) + old_upvotes.subrange(c, old_upvotes.len() as int));
                }
            }
        }
        proof {
            assert(c == old_upvotes.len());
            assert(old_upvotes.subrange(0, c) =~= old_upvotes);
            assert(old_upvotes.subrange(c, old_upvotes.len() as int)
                =~= Seq::<UrlUpvote>::empty());
            assert(store.upvotes@ =~= remove_upvotes_for(old_upvotes, url_id@));
        }
        let ghost old_comments = store.comments@;
        let mut m: usize = 0;
        let ghost mut d: int = 0;
        while m < store.comments.len()
            invariant
                old(store).wf(),
                store.users@ == old(store).users@,
                store.roles@ == old(store).roles@,
                store.invites@ == old(store).invites@,
                store.logins@ == old(store).logins@,
                store.urls@ == old(store).urls@,
                store.upvotes@ == remove_upvotes_for(old_upvotes, url_id@),
                old_upvotes == old(store).upvotes@,
                old_comments == old(store).comments@,
                0 <= d <= old_comments.len(),
                store.comments@ =~= remove_comments_for(old_comments.subrange(0, d), url_id@)
                    + old_comments.subrange(d, old_comments.len() as int),
                m == remove_comments_for(old_comments.subrange(0, d), url_id@).len(),
                m <= store.comments@.len(),
            decreases old_comments.len() - d,
        {
            proof {
                reveal(Seq::filter);
                assert(d < old_comments.len());
                assert(store.comments@[m as int] == old_comments[d]);
                assert(old_comments.subrange(0, d + 1).drop_last() =~= old_comments.subrange(
                    0,
                    d,
                ));
                assert(old_comments.subrange(0, d + 1).last() == old_comments[d]);
            }
            if store.comments[m].url_id.same(url_id) {
                store.comments.remove(m);
                proof {
                    d = d + 1;
                    assert(store.comments@ =~= remove_comments_for(
                        old_comments.subrange(0, d),
                        url_id@,
                    ) + old_comments.subrange(d, old_comments.len() as int));
                }
            } else {
                m += 1;
                proof {
                    d = d + 1;
                    assert(remove_comments_for(old_comments.subrange(0, d), url_id@)
                        =~= remove_comments_for(old_comments.subrange(0, d - 1), url_id@).push(
                        old_comments[d - 1],
                    ));
                    assert(store.comments@ =~= remove_comments_for(
                        old_comments.subrange(0, d),
                        url_id@,
                    ) + old_comments.subrange(d, old_comments.len() as int));
                }
            }
        }
        proof {
            assert(old_comments.subrange(0, d) =~= old_comments);
            assert(old_comments.subrange(d, old_comments.len() as int)
                =~= Seq::<crate::model::Comment>::empty());
            assert(store.comments@ =~= remove_comments_for(old_comments, url_id@));
        }
        store.urls.remove(i);
        proof {
            lemma_remove_upvotes_wf(old_upvotes, url_id@);
            lemma_remove_comments_wf(old_comments, url_id@);
            assert forall|j: int| 0 <= j < store.urls@.len() implies (
            #[trigger] store.urls@[j]).wf() by {
                if j < i {
                    assert(store.urls@[j] == old(store).urls@[j]);
                } else {
                    assert(store.urls@[j] == old(store).urls@[j + 1]);
                }
            }
        }
        Ok(())
    }

    /// How many upvotes this URL holds.
    pub fn upvote_count(store: &Store, url_id: &UrlID) -> (r: u64)
        ensures
            r == count_upvotes(store.upvotes@, url_id@),
    {
        let len = store.upvotes.len();
        let mut c: u64 = 0;
        let mut i: usize = 0;
        while i < len
            invariant
                len == store.upvotes@.len(),
                i <= len,
                c <= i,
                c == count_upvotes(store.upvotes@.subrange(0, i as int), url_id@),
            decreases len - i,
        {
            proof {
                assert(store.upvotes@.subrange(0, i + 1).drop_last() =~= store.upvotes@.subrange(
                    0,
                    i as int,
                ));
                assert(store.upvotes@.subrange(0, i + 1).last() == store.upvotes@[i as int]);
            }
            if store.upvotes[i].url_id.same(url_id) {
                c += 1;
            }
            i += 1;
        }
        proof {
            assert(store.upvotes@.subrange(0, len as int) =~= store.upvotes@);
        }
        c
    }

    /// Whether the logged-in user, if any, has upvoted this URL.
    pub fn upvoted_by_viewer(store: &Store, ctx: &Context, url_id: &UrlID) -> (r: bool)
        ensures
            r == match ctx.spec_user_id() {
                Some(u) => has_upvote(store.upvotes@, url_id@, u),
                None => false,
            },
    {
        let caller = match ctx.user_id() {
            Ok(u) => u,
            Err(_) => {
                return false;
            },
        };
        let len = store.upvotes.len();
        let mut i: usize = 0;
        while i < len
            invariant
                len == store.upvotes@.len(),
                i <= len,
                caller@ == ctx.spec_user_id().unwrap(),
                ctx.spec_user_id() is Some,
                forall|k: int|
                    0 <= k < i ==> !(store.upvotes@[k].url_id@ == url_id@
                        && store.upvotes@[k].user_id@ == caller@),
            decreases len - i,
        {
            if store.upvotes[i].url_id.same(url_id) && store.upvotes[i].user_id.same(&caller) {
                proof {
                    assert(has_upvote(store.upvotes@, url_id@, caller@));
                }
                return true;
            }
            i += 1;
        }
        false
    }

    /// Apply a refetch of this URL: the status code is always recorded,
    /// and each metadata field is replaced only when the fetch carried a
    /// fresh value.
    pub fn update_url_meta(
        store: &mut Store,
        now: Instant,
        url_id: &UrlID,
        status: u16,
        title: Option<String>,
        description: Option<String>,
        image: Option<String>,
    ) -> (r: Result<(), Error>)
        requires
            old(store).wf(),
            now.wf_clock(),
        ensures
            final(store).wf(),
            final(store).users@ == old(store).users@,
            final(store).roles@ == old(store).roles@,
            final(store).invites@ == old(store).invites@,
            final(store).logins@ == old(store).logins@,
            final(store).comments@ == old(store).comments@,
            final(store).upvotes@ == old(store).upvotes@,
            match r {
                Ok(()) => {
                    let i = url_index_by_id(old(store).urls@, url_id@);
                    &&& 0 <= i < old(store).urls@.len()
                    &&& final(store).urls@.len() == old(store).urls@.len()
                    &&& forall|j: int|
                        0 <= j < old(store).urls@.len() && j != i ==> final(store).urls@[j] == old(
                            store,
                        ).urls@[j]
                    &&& {
                        let u_old = old(store).urls@[i];
                        let u_new = final(store).urls@[i];
                        &&& u_new.status_code == status
                        &&& u_new.updated_at == now
                        &&& u_new.id@ == u_old.id@
                        &&& u_new.url@ == u_old.url@
                        &&& u_new.created_at == u_old.created_at
                        &&& u_new.created_by@ == u_old.created_by@
                        &&& (title is Some ==> opt_string_views_match(u_new.title, title))
                        &&& (title is None ==> u_new.title == u_old.title)
                        &&& (description is Some ==> opt_string_views_match(
                            u_new.description,
                            description,
                        ))
                        &&& (description is None ==> u_new.description == u_old.description)
                        &&& (image is Some ==> opt_string_views_match(u_new.image, image))
                        &&& (image is None ==> u_new.image == u_old.image)
                    }
                },
                Err(e) => {
                    &&& e == Error::Internal
                    &&& url_index_by_id(old(store).urls@, url_id@) == -1
                    &&& *final(store) == *old(store)
                },
            },
    {
        let i = match find_url_by_id(&store.urls, url_id) {
            Some(i) => i,
            None => {
                return Err(Error::Internal);
            },
        };
        let u = vstd::std_specs::vec::vec_index_mut(&mut store.urls, i);
        u.status_code = status;
        u.updated_at = now;
        match title {
            Some(t) => {
                u.title = Some(t);
            },
            None => {},
        }
        match description {
            Some(d) => {
                u.description = Some(d);
            },
            None => {},
        }
        match image {
            Some(m) => {
                u.image = Some(m);
            },
            None => {},
        }
        Ok(())
    }

    /// Upvote the URL as the logged-in user; at most one upvote per user
    /// and URL is stored.
    pub fn upvote(store: &mut Store, ctx: &Context, url_id: &UrlID) -> (r: Result<(), Error>)
        requires
            old(store).wf(),
            ctx.wf(),
            ctx.request_time.wf_clock(),
            url_id.wf(),
        ensures
            final(store).wf(),
            final(store).users@ == old(store).users@,
            final(store).roles@ == old(store).roles@,
            final(store).invites@ == old(store).invites@,
            final(store).logins@ == old(store).logins@,
            final(store).urls@ == old(store).urls@,
            final(store).comments@ == old(store).comments@,
            match r {
                Ok(()) => {
                    &&& ctx.spec_user_id() matches Some(u)
                    &&& url_index_by_id(old(store).urls@, url_id@) != -1
                    &&& !has_upvote(old(store).upvotes@, url_id@, ctx.spec_user_id().unwrap())
                    &&& final(store).upvotes@.len() == old(store).upvotes@.len() + 1
                    &&& forall|j: int|
                        0 <= j < old(store).upvotes@.len() ==> final(store).upvotes@[j] == old(
                            store,
                        ).upvotes@[j]
                    &&& final(store).upvotes@.last().url_id@ == url_id@
                    &&& final(store).upvotes@.last().user_id@ == ctx.spec_user_id().unwrap()
                    &&& final(store).upvotes@.last().created_at == ctx.request_time
                },
                Err(e) => {
                    &&& *final(store) == *old(store)
                    &&& if ctx.spec_user_id() is None {
                        e == Error::NotAuthenticated
                    } else if url_index_by_id(old(store).urls@, url_id@) == -1 {
                        e == Error::Internal
                    } else {
                        e == Error::Internal && has_upvote(
                            old(store).upvotes@,
                            url_id@,
                            ctx.spec_user_id().unwrap(),
                        )
                    }
                },
            },
    {
        let caller = match ctx.user_id() {
            Ok(u) => u,
            Err(e) => {
                return Err(e);
            },
        };
        if find_url_by_id(&store.urls, url_id).is_none() {
            return Err(Error::Internal);
        }
        let len = store.upvotes.len();
        let mut j: usize = 0;
        while j < len
            invariant
                *store == *old(store),
                old(store).wf(),
                len == store.upvotes@.len(),
                j <= len,
                ctx.spec_user_id() is Some,
                caller@ == ctx.spec_user_id().unwrap(),
                url_index_by_id(old(store).urls@, url_id@) != -1,
                forall|k: int|
                    0 <= k < j ==> !(store.upvotes@[k].url_id@ == url_id@
                        && store.upvotes@[k].user_id@ == caller@),
            decreases len - j,
        {
            if store.upvotes[j].url_id.same(url_id) && store.upvotes[j].user_id.same(&caller) {
                proof {
                    assert(store.upvotes@[j as int].url_id@ == url_id@
                        && store.upvotes@[j as int].user_id@ == caller@);
                    assert(has_upvote(store.upvotes@, url_id@, caller@));
                }
                return Err(Error::Internal);
            }
            j += 1;
        }
        store.upvotes.push(
            UrlUpvote { url_id: url_id.duplicate(), user_id: caller, created_at: ctx.now() },
        );
        Ok(())
    }

    /// Rescind the logged-in user's upvote for the URL.
    pub fn rescind_upvote(store: &mut Store, ctx: &Context, url_id: &UrlID) -> (r: Result<
        (),
        Error,
    >)
        requires
            old(store).wf(),
            ctx.wf(),
        ensures
            final(store).wf(),
            final(store).users@ == old(store).users@,
            final(store).roles@ == old(store).roles@,
            final(store).invites@ == old(store).invites@,
            final(store).logins@ == old(store).logins@,
            final(store).urls@ == old(store).urls@,
            final(store).comments@ == old(store).comments@,
            match r {
                Ok(()) => {
                    &&& ctx.spec_user_id() matches Some(u)
                    &&& final(store).upvotes@ == remove_upvote_by(
                        old(store).upvotes@,
                        url_id@,
                        ctx.spec_user_id().unwrap(),
                    )
                },
                Err(e) => {
                    &&& *final(store) == *old(store)
                    &&& e == Error::NotAuthenticated
                    &&& ctx.spec_user_id() is None
                },
            },
    {
        let caller = match ctx.user_id() {
            Ok(u) => u,
            Err(e) => {
                return Err(e);
            },
        };
        let ghost old_upvotes = store.upvotes@;
        let mut k: usize = 0;
        let ghost mut c: int = 0;
        while k < store.upvotes.len()
            invariant
                old(store).wf(),
                store.users@ == old(store).users@,
                store.roles@ == old(store).roles@,
                store.invites@ == old(store).invites@,
                store.logins@ == old(store).logins@,
                store.urls@ == old(store).urls@,
                store.comments@ == old(store).comments@,
                caller@ == ctx.spec_user_id().unwrap(),
                ctx.spec_user_id() is Some,
                old_upvotes == old(store).upvotes@,
                0 <= c <= old_upvotes.len(),
                store.upvotes@ =~= remove_upvote_by(
                    old_upvotes.subrange(0, c),
                    url_id@,
                    caller@,
                ) + old_upvotes.subrange(c, old_upvotes.len() as int),
                k == remove_upvote_by(old_upvotes.subrange(0, c), url_id@, caller@).len(),
                k <= store.upvotes@.len(),
            decreases old_upvotes.len() - c,
        {
            proof {
                reveal(Seq::filter);
                assert(c < old_upvotes.len());
                assert(store.upvotes@[k as int] == old_upvotes[c]);
                assert(old_upvotes.subrange(0, c + 1).drop_last() =~= old_upvotes.subrange(0, c));
                assert(old_upvotes.subrange(0, c + 1).last() == old_upvotes[c]);
            }
            if store.upvotes[k].url_id.same(url_id) && store.upvotes[k].user_id.same(&caller) {
                store.upvotes.remove(k);
                proof {
                    c = c + 1;
                    assert(store.upvotes@ =~= remove_upvote_by(
                        old_upvotes.subrange(0, c),
                        url_id@,
                        caller@,
                    ) + old_upvotes.subrange(c, old_upvotes.len() as int));
                }
            } else {
                k += 1;
                proof {
                    c = c + 1;
                    assert(remove_upvote_by(old_upvotes.subrange(0, c), url_id@, caller@)
                        =~= remove_upvote_by(
                        old_upvotes.subrange(0, c - 1),
                        url_id@,
                        caller@,
                    ).push(old_upvotes[c - 1]));
                    assert(store.upvotes@ =~= remove_upvote_by(
                        old_upvotes.subrange(0, c),
                        url_id@,
                        caller@,
                    ) + old_upvotes.subrange(c, old_upvotes.len() as int));
                }
            }
        }
        proof {
            assert(c == old_upvotes.len());
            assert(old_upvotes.subrange(0, c) =~= old_upvotes);
            assert(old_upvotes.subrange(c, old_upvotes.len() as int)
                =~= Seq::<UrlUpvote>::empty());
            assert(store.upvotes@ =~= remove_upvote_by(old_upvotes, url_id@, caller@));
            lemma_remove_upvote_by_wf(old_upvotes, url_id@, caller@);
        }
        Ok(())
    }
}

} // verus!
