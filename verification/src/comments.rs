//! Comments on submitted URLs: creation, guarded deletion with
//! censoring, and markdown rendering.

use crate::clock::Instant;
use crate::context::Context;
use crate::errors::Error;
use crate::ids::{CommentID, UrlID};
use crate::model::{has_capability, Comment, Store};
use crate::permission::Capability;
use crate::roles::user_has_capability;
use crate::strutil::{clone_opt_string, opt_string_views_match, trim, trim_spec};
use vstd::prelude::*;
use vstd::std_specs::vec::vec_index_mut;

verus! {

/// The HTML rendering of a markdown text, as the markdown renderer
/// produces it.
pub uninterp spec fn markdown_html_of(text: Seq<char>) -> Seq<char>;

/// Relies on `pulldown_cmark::Parser` and `pulldown_cmark::html::push_html`
/// with strikethrough, task lists and smart punctuation enabled: the
/// rendered HTML is a function of the text alone.
#[verifier::external_body]
pub fn render_markdown(text: &str) -> (r: String)
    ensures
        r@ == markdown_html_of(text@),
{
    let mut out = String::new();
    let mut opts = pulldown_cmark::Options::empty();
    opts.insert(pulldown_cmark::Options::ENABLE_STRIKETHROUGH);
    opts.insert(pulldown_cmark::Options::ENABLE_TASKLISTS);
    opts.insert(pulldown_cmark::Options::ENABLE_SMART_PUNCTUATION);
    let parser = pulldown_cmark::Parser::new_ext(text, opts);
    pulldown_cmark::html::push_html(&mut out, parser);
    out
}

/// Input for creating a comment.
#[derive(Debug)]
pub struct NewCommentInput {
    pub comment: String,
    pub url: UrlID,
    pub replies_to: Option<CommentID>,
}

/// Index of the first comment with the given identifier, or `-1`.
pub open spec fn comment_index_by_id(comments: Seq<Comment>, id: Seq<char>) -> int
    decreases comments.len(),
{
    if comments.len() == 0 {
        -1
    } else if comments[0].id@ == id {
        0
    } else if comment_index_by_id(comments.drop_first(), id) == -1 {
        -1
    } else {
        1 + comment_index_by_id(comments.drop_first(), id)
    }
}

/// A first match at `k` pins the index.
proof fn lemma_comment_index_found(comments: Seq<Comment>, id: Seq<char>, k: int)
    requires
        0 <= k < comments.len(),
        comments[k].id@ == id,
        forall|j: int| 0 <= j < k ==> comments[j].id@ != id,
    ensures
        comment_index_by_id(comments, id) == k,
    decreases comments.len(),
{
    if k > 0 {
        lemma_comment_index_found(comments.drop_first(), id, k - 1);
    }
}

/// No match anywhere pins the index to `-1`.
proof fn lemma_comment_index_none(comments: Seq<Comment>, id: Seq<char>)
    requires
        forall|j: int| 0 <= j < comments.len() ==> comments[j].id@ != id,
    ensures
        comment_index_by_id(comments, id) == -1,
    decreases comments.len(),
{
    if comments.len() > 0 {
        lemma_comment_index_none(comments.drop_first(), id);
    }
}

/// Whether any comment replies to the given comment.
pub open spec fn has_replies(comments: Seq<Comment>, id: Seq<char>) -> bool {
    exists|i: int|
        0 <= i < comments.len() && ((#[trigger] comments[i]).replies_to matches Some(p) && p@
            == id)
}

/// What deleting the comment leaves behind: censored in place when it
/// has replies, removed otherwise.
pub open spec fn comment_delete_post(
    pre: Store,
    post: Store,
    comment_id: Seq<char>,
    now: Instant,
) -> bool {
    let i = comment_index_by_id(pre.comments@, comment_id);
    &&& 0 <= i < pre.comments@.len()
    &&& if has_replies(pre.comments@, comment_id) {
        &&& post.comments@.len() == pre.comments@.len()
        &&& forall|j: int|
            0 <= j < pre.comments@.len() && j != i ==> post.comments@[j] == pre.comments@[j]
        &&& post.comments@[i].text@ == "[DELETED]"@
        &&& post.comments@[i].updated_at == now
        &&& post.comments@[i].id@ == pre.comments@[i].id@
    } else {
        post.comments@ == pre.comments@.remove(i)
    }
}

/// Index of the first comment with the given identifier.
fn find_comment_by_id(comments: &Vec<Comment>, id: &CommentID) -> (r: Option<usize>)
    ensures
        match r {
            Some(i) => i == comment_index_by_id(comments@, id@) && i < comments@.len(),
            None => comment_index_by_id(comments@, id@) == -1,
        },
{
    let len = comments.len();
    let mut i: usize = 0;
    while i < len
        invariant
            len == comments@.len(),
            i <= len,
            forall|j: int| 0 <= j < i ==> comments@[j].id@ != id@,
        decreases len - i,
    {
        if comments[i].id.same(id) {
            proof {
                lemma_comment_index_found(comments@, id@, i as int);
            }
            return Some(i);
        }
        i += 1;
    }
    proof {
        lemma_comment_index_none(comments@, id@);
    }
    None
}

/// How many comments the given URL holds.
pub open spec fn count_comments_for(comments: Seq<Comment>, url: Seq<char>) -> int
    decreases comments.len(),
{
    if comments.len() == 0 {
        0
    } else {
        count_comments_for(comments.drop_last(), url) + (
        if comments[comments.len() - 1].url_id@ == url {
            1int
        } else {
            0int
        })
    }
}

/// How many comments the given URL holds.
pub fn comment_count(store: &Store, url_id: &UrlID) -> (r: u64)
    ensures
        r == count_comments_for(store.comments@, url_id@),
{
    let len = store.comments.len();
    let mut c: u64 = 0;
    let mut i: usize = 0;
    while i < len
        invariant
            len == store.comments@.len(),
            i <= len,
            c <= i,
            c == count_comments_for(store.comments@.subrange(0, i as int), url_id@),
        decreases len - i,
    {
        proof {
            assert(store.comments@.subrange(0, i + 1).drop_last() =~= store.comments@.subrange(
                0,
                i as int,
            ));
            assert(store.comments@.subrange(0, i + 1).last() == store.comments@[i as int]);
        }
        if store.comments[i].url_id.same(url_id) {
            c += 1;
        }
        i += 1;
    }
    proof {
        assert(store.comments@.subrange(0, len as int) =~= store.comments@);
    }
    c
}

impl Comment {
    /// Render this comment's markdown text as HTML.
    pub fn html(&self) -> (r: String)
        ensures
            r@ == markdown_html_of(self.text@),
    {
        render_markdown(self.text.as_str())
    }

    /// Create a comment as the logged-in user; the text is trimmed and
    /// must not end up empty.
    pub fn create(store: &mut Store, ctx: &Context, input: NewCommentInput) -> (r: Result<
        (),
        Error,
    >)
        requires
            old(store).wf(),
            ctx.wf(),
            ctx.request_time.wf_clock(),
            input.url.wf(),
            match input.replies_to {
                Some(p) => p.wf(),
                None => true,
            },
        ensures
            final(store).wf(),
            final(store).users@ == old(store).users@,
            final(store).roles@ == old(store).roles@,
            final(store).invites@ == old(store).invites@,
            final(store).logins@ == old(store).logins@,
            final(store).urls@ == old(store).urls@,
            final(store).upvotes@ == old(store).upvotes@,
            match r {
                Ok(()) => {
                    &&& ctx.spec_user_id() matches Some(u)
                    &&& trim_spec(input.comment@).len() >= 1
                    &&& final(store).comments@.len() == old(store).comments@.len() + 1
                    &&& forall|j: int|
                        0 <= j < old(store).comments@.len() ==> final(store).comments@[j] == old(
                            store,
                        ).comments@[j]
                    &&& {
                        let n = final(store).comments@.last();
                        &&& n.text@ == trim_spec(input.comment@)
                        &&& n.url_id@ == input.url@
                        &&& n.created_by@ == ctx.spec_user_id().unwrap()
                        &&& match (n.replies_to, input.replies_to) {
                            (Some(a), Some(b)) => a@ == b@,
                            (None, None) => true,
                            _ => false,
                        }
                        &&& n.created_at == ctx.request_time
                        &&& n.updated_at == ctx.request_time
                    }
                },
                Err(e) => {
                    &&& *final(store) == *old(store)
                    &&& if ctx.spec_user_id() is None {
                        e == Error::NotAuthenticated
                    } else {
                        e == Error::InvalidInput && trim_spec(input.comment@).len() == 0
                    }
                },
            },
    {
        let caller = match ctx.user_id() {
            Ok(u) => u,
            Err(e) => {
                return Err(e);
            },
        };
        let text = trim(input.comment.as_str());
        if text.unicode_len() == 0 {
            return Err(Error::InvalidInput);
        }
        let comment = Comment {
            id: CommentID::new(),
            created_at: ctx.now(),
            updated_at: ctx.now(),
            text: text.to_owned(),
            url_id: input.url.duplicate(),
            created_by: caller,
            replies_to: match &input.replies_to {
                Some(p) => Some(p.duplicate()),
                None => None,
            },
        };
        store.comments.push(comment);
        Ok(())
    }

    /// Delete a comment: allowed to its author, and otherwise only to
    /// holders of the delete-any-comment capability. A comment with
    /// replies is censored in place instead of removed, so the replies
    /// keep their anchor.
    pub fn delete(store: &mut Store, ctx: &Context, comment_id: &CommentID) -> (r: Result<
        (),
        Error,
    >)
        requires
            old(store).wf(),
            ctx.wf(),
            ctx.request_time.wf_clock(),
        ensures
            final(store).wf(),
            final(store).users@ == old(store).users@,
            final(store).roles@ == old(store).roles@,
            final(store).invites@ == old(store).invites@,
            final(store).logins@ == old(store).logins@,
            final(store).urls@ == old(store).urls@,
            final(store).upvotes@ == old(store).upvotes@,
            match r {
                Ok(()) => {
                    let i = comment_index_by_id(old(store).comments@, comment_id@);
                    &&& (ctx.spec_user_id() matches Some(u) && (
                    old(store).comments@[i].created_by@ == u || has_capability(
                        old(store).roles@,
                        u,
                        Capability::DeleteAnyComment,
                    )))
                    &&& comment_delete_post(
                        *old(store),
                        *final(store),
                        comment_id@,
                        ctx.request_time,
                    )
                },
                Err(e) => {
                    &&& *final(store) == *old(store)
                    &&& {
                        let i = comment_index_by_id(old(store).comments@, comment_id@);
                        if i == -1 {
                            e == Error::Internal
                        } else if ctx.spec_user_id() is None {
                            e == Error::NotAuthenticated
                        } else {
                            let u = ctx.spec_user_id().unwrap();
                            &&& e == Error::NotAuthorized
                            &&& old(store).comments@[i].created_by@ != u
                            &&& !has_capability(
                                old(store).roles@,
                                u,
                                Capability::DeleteAnyComment,
                            )
                        }
                    }
                },
            },
    {
        let i = match find_comment_by_id(&store.comments, comment_id) {
            Some(i) => i,
            None => {
                return Err(Error::Internal);
            },
        };
        let caller = match ctx.user_id() {
            Ok(u) => u,
            Err(e) => {
                return Err(e);
            },
        };
        if !store.comments[i].created_by.same(&caller) {
            if !user_has_capability(&store.roles, &caller, Capability::DeleteAnyComment) {
                return Err(Error::NotAuthorized);
            }
        }
        let len = store.comments.len();
        let mut k: usize = 0;
        let mut found_reply = false;
        while k < len
            invariant
                *store == *old(store),
                old(store).wf(),
                len == store.comments@.len(),
                k <= len,
                found_reply ==> has_replies(store.comments@, comment_id@),
                !found_reply ==> forall|j: int|
                    0 <= j < k ==> !((#[trigger] store.comments@[j]).replies_to matches Some(p)
                        && p@ == comment_id@),
            decreases len - k,
        {
            let is_reply = match &store.comments[k].replies_to {
                Some(p) => p.same(comment_id),
                None => false,
            };
            if is_reply {
                found_reply = true;
            }
            k += 1;
        }
        if found_reply {
            let now = ctx.now();
            let c = vec_index_mut(&mut store.comments, i);
            c.text = censored_text();
            c.updated_at = now;
            proof {
                reveal_strlit("[DELETED]");
            }
            Ok(())
        } else {
            proof {
                assert(!has_replies(store.comments@, comment_id@));
            }
            store.comments.remove(i);
            proof {
                assert forall|j: int| 0 <= j < store.comments@.len() implies (
                #[trigger] store.comments@[j]).wf() by {
                    if j < i {
                        assert(store.comments@[j] == old(store).comments@[j]);
                    } else {
                        assert(store.comments@[j] == old(store).comments@[j + 1]);
                    }
                }
            }
            Ok(())
        }
    }
}

/// The replacement text of a censored comment.
fn censored_text() -> (r: String)
    ensures
        r@ == "[DELETED]"@,
{
    let s = "[DELETED]";
    s.to_owned()
}

} // verus!
