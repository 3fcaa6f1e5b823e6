//! Slugs for submitted URLs: the title, or failing that the URL's
//! authority and path, reduced to alphanumeric words joined by dashes.

use crate::model::Url;
use crate::strutil::{ascii_lower, lower_spec};
use crate::url_canon::{auth_end, authority_of, first_char_from, lemma_first_char_none, pq_of,
    scan_break, scan_char, scan_sep, scheme_end};
use vstd::prelude::*;
use vstd::string::StringExecFns;

verus! {

/// Whether the character counts as alphanumeric for slugs.
pub uninterp spec fn char_alphanumeric(c: char) -> bool;

/// Relies on `char::is_alphanumeric`: the Unicode alphanumeric classes,
/// a function of the character alone.
#[verifier::external_body]
fn is_alphanumeric_char(c: char) -> (r: bool)
    ensures
        r == char_alphanumeric(c),
{
    c.is_alphanumeric()
}

/// Position of the first alphanumeric character at or after `i`, or
/// `-1`.
pub open spec fn first_alnum_from(s: Seq<char>, i: int) -> int
    decreases s.len() - i,
        when 0 <= i

{
    if i >= s.len() {
        -1
    } else if char_alphanumeric(s[i]) {
        i
    } else {
        first_alnum_from(s, i + 1)
    }
}

/// Position of the first non-alphanumeric character at or after `i`, or
/// `-1`.
pub open spec fn first_non_alnum_from(s: Seq<char>, i: int) -> int
    decreases s.len() - i,
        when 0 <= i

{
    if i >= s.len() {
        -1
    } else if !char_alphanumeric(s[i]) {
        i
    } else {
        first_non_alnum_from(s, i + 1)
    }
}

/// The maximal alphanumeric runs of `s` from position `i` on, in order.
pub open spec fn words_from(s: Seq<char>, i: int) -> Seq<Seq<char>>
    decreases s.len() - i,
        when 0 <= i

{
    let st = first_alnum_from(s, i);
    if st < i || st >= s.len() {
        Seq::empty()
    } else {
        let e = first_non_alnum_from(s, st);
        let e2 = if e <= st || e > s.len() {
            s.len() as int
        } else {
            e
        };
        seq![s.subrange(st, e2)] + words_from(s, e2)
    }
}

/// The words joined with single dashes.
pub open spec fn join_dash(ws: Seq<Seq<char>>) -> Seq<char>
    decreases ws.len(),
{
    if ws.len() == 0 {
        Seq::empty()
    } else if ws.len() == 1 {
        ws[0]
    } else {
        join_dash(ws.drop_last()) + seq!['-'] + ws.last()
    }
}

/// The slug of a text: its alphanumeric words joined by dashes, with
/// the ASCII letters lowercased.
pub open spec fn slugify_spec(s: Seq<char>) -> Seq<char> {
    lower_spec(join_dash(words_from(s, 0)))
}

/// The path part of the URL: what stands between the authority and the
/// query.
pub open spec fn path_of(s: Seq<char>) -> Seq<char> {
    let pq = pq_of(s);
    let qpos = first_char_from(pq, 0, '?');
    if qpos == -1 {
        pq
    } else {
        pq.subrange(0, qpos)
    }
}

/// The slug of a stored URL: the slug of its title, or the slugs of its
/// authority and path joined by a dash, or nothing when all of them are
/// empty of words.
pub open spec fn url_slug_spec(u: Url) -> Option<Seq<char>> {
    match u.title {
        Some(t) => Some(slugify_spec(t@)),
        None => {
            let a = slugify_spec(authority_of(u.url@));
            let p = slugify_spec(path_of(u.url@));
            if a.len() > 0 && p.len() > 0 {
                Some(a + seq!['-'] + p)
            } else if a.len() > 0 {
                Some(a)
            } else if p.len() > 0 {
                Some(p)
            } else {
                None
            }
        },
    }
}

/// A found first alphanumeric character pins `first_alnum_from`.
proof fn lemma_first_alnum_found(s: Seq<char>, i: int, k: int)
    requires
        0 <= i <= k < s.len(),
        char_alphanumeric(s[k]),
        forall|j: int| i <= j < k ==> !char_alphanumeric(s[j]),
    ensures
        first_alnum_from(s, i) == k,
    decreases k - i,
{
    if i < k {
        lemma_first_alnum_found(s, i + 1, k);
    }
}

/// No alphanumeric character anywhere pins `first_alnum_from` to `-1`.
proof fn lemma_first_alnum_none(s: Seq<char>, i: int)
    requires
        0 <= i,
        forall|j: int| i <= j < s.len() ==> !char_alphanumeric(s[j]),
    ensures
        first_alnum_from(s, i) == -1,
    decreases s.len() - i,
{
    if i < s.len() {
        lemma_first_alnum_none(s, i + 1);
    }
}

/// A found first non-alphanumeric character pins `first_non_alnum_from`.
proof fn lemma_first_non_alnum_found(s: Seq<char>, i: int, k: int)
    requires
        0 <= i <= k < s.len(),
        !char_alphanumeric(s[k]),
        forall|j: int| i <= j < k ==> char_alphanumeric(s[j]),
    ensures
        first_non_alnum_from(s, i) == k,
    decreases k - i,
{
    if i < k {
        lemma_first_non_alnum_found(s, i + 1, k);
    }
}

/// No non-alphanumeric character anywhere pins `first_non_alnum_from`
/// to `-1`.
proof fn lemma_first_non_alnum_none(s: Seq<char>, i: int)
    requires
        0 <= i,
        forall|j: int| i <= j < s.len() ==> char_alphanumeric(s[j]),
    ensures
        first_non_alnum_from(s, i) == -1,
    decreases s.len() - i,
{
    if i < s.len() {
        lemma_first_non_alnum_none(s, i + 1);
    }
}

/// First alphanumeric character at or after `from`.
fn scan_alnum(s: &str, from: usize) -> (r: Option<usize>)
    requires
        from <= s@.len(),
    ensures
        match r {
            Some(i) => {
                &&& i == first_alnum_from(s@, from as int)
                &&& from <= i < s@.len()
                &&& char_alphanumeric(s@[i as int])
                &&& forall|j: int| from <= j < i ==> !char_alphanumeric(s@[j])
            },
            None => {
                &&& first_alnum_from(s@, from as int) == -1
                &&& forall|j: int| from <= j < s@.len() ==> !char_alphanumeric(s@[j])
            },
        },
{
    let len = s.unicode_len();
    let mut i: usize = from;
    while i < len
        invariant
            len == s@.len(),
            from <= i <= len,
            forall|j: int| from <= j < i ==> !char_alphanumeric(s@[j]),
        decreases len - i,
    {
        if is_alphanumeric_char(s.get_char(i)) {
            proof {
                lemma_first_alnum_found(s@, from as int, i as int);
            }
            return Some(i);
        }
        i += 1;
    }
    proof {
        lemma_first_alnum_none(s@, from as int);
    }
    None
}

/// First non-alphanumeric character at or after `from`.
fn scan_non_alnum(s: &str, from: usize) -> (r: Option<usize>)
    requires
        from <= s@.len(),
    ensures
        match r {
            Some(i) => {
                &&& i == first_non_alnum_from(s@, from as int)
                &&& from <= i < s@.len()
                &&& !char_alphanumeric(s@[i as int])
                &&& forall|j: int| from <= j < i ==> char_alphanumeric(s@[j])
            },
            None => {
                &&& first_non_alnum_from(s@, from as int) == -1
                &&& forall|j: int| from <= j < s@.len() ==> char_alphanumeric(s@[j])
            },
        },
{
    let len = s.unicode_len();
    let mut i: usize = from;
    while i < len
        invariant
            len == s@.len(),
            from <= i <= len,
            forall|j: int| from <= j < i ==> char_alphanumeric(s@[j]),
        decreases len - i,
    {
        if !is_alphanumeric_char(s.get_char(i)) {
            proof {
                lemma_first_non_alnum_found(s@, from as int, i as int);
            }
            return Some(i);
        }
        i += 1;
    }
    proof {
        lemma_first_non_alnum_none(s@, from as int);
    }
    None
}

/// Reduce a text to its slug: alphanumeric words joined by dashes, an
/// ASCII result lowercased.
pub fn slugify(text: &str) -> (r: String)
    ensures
        r@ == slugify_spec(text@),
{
    let len = text.unicode_len();
    let ghost full = text@;
    let mut out = String::new();
    let mut first = true;
    let mut i: usize = 0;
    let mut done = false;
    let ghost mut words: Seq<Seq<char>> = Seq::empty();
    proof {
        reveal_strlit("-");
        assert(("-"@) =~= seq!['-']);
        assert(words_from(full, 0) =~~= words + words_from(full, i as int));
    }
    while !done
        invariant
            len == full.len(),
            full == text@,
            i <= len,
            !done ==> words_from(full, 0) =~~= words + words_from(full, i as int),
            done ==> words_from(full, 0) =~~= words,
            first == (words.len() == 0),
            !first ==> out@ == join_dash(words),
            first ==> out@ == Seq::<char>::empty(),
        decreases len - i + (if done { 0int } else { 1int }),
    {
        match scan_alnum(text, i) {
            Some(st) => {
                let e2 = match scan_non_alnum(text, st) {
                    Some(e) => e,
                    None => len,
                };
                let ghost word = full.subrange(st as int, e2 as int);
                proof {
                    assert(words_from(full, i as int) =~~= seq![word] + words_from(
                        full,
                        e2 as int,
                    ));
                }
                let word_str = text.substring_char(st, e2);
                let ghost old_words = words;
                proof {
                    words = words.push(word);
                }
                if !first {
                    out.append("-");
                }
                out.append(word_str);
                proof {
                    reveal_strlit("-");
                    assert(("-"@) =~= seq!['-']);
                    if old_words.len() == 0 {
                        assert(join_dash(words) == words[0]);
                        assert(out@ =~= join_dash(words));
                    } else {
                        assert(words.drop_last() =~~= old_words);
                        assert(join_dash(words) == join_dash(words.drop_last()) + seq!['-']
                            + words.last());
                        assert(out@ =~= join_dash(words));
                    }
                }
                first = false;
                i = e2;
                proof {
                    assert(words_from(full, 0) =~~= words + words_from(full, i as int));
                }
            },
            None => {
                done = true;
                proof {
                    assert(words_from(full, i as int) =~~= Seq::<Seq<char>>::empty());
                    assert(words_from(full, 0) =~~= words);
                }
            },
        }
    }
    let lowered = ascii_lower(out.as_str());
    proof {
        assert(lowered@ == slugify_spec(text@));
    }
    lowered
}

impl Url {
    /// A slug for this URL: from its title when one was fetched, and
    /// otherwise from the authority and path of the stored URL.
    pub fn slug(&self) -> (r: Option<String>)
        ensures
            match (r, url_slug_spec(*self)) {
                (Some(a), Some(b)) => a@ == b,
                (None, None) => true,
                _ => false,
            },
    {
        match &self.title {
            Some(t) => Some(slugify(t.as_str())),
            None => {
                let raw = self.url.as_str();
                let len = raw.unicode_len();
                let rest = match scan_sep(raw) {
                    Some(k) => raw.substring_char(k + 3, len),
                    None => raw,
                };
                proof {
                    assert(rest@ =~= crate::url_canon::rest_of(raw@));
                }
                let rest_len = rest.unicode_len();
                let ae = match scan_break(rest) {
                    Some(b) => b,
                    None => rest_len,
                };
                proof {
                    assert(ae as int == auth_end(rest@));
                }
                let authority = rest.substring_char(0, ae);
                let pq = rest.substring_char(ae, rest_len);
                proof {
                    assert(authority@ =~= authority_of(raw@));
                    assert(pq@ =~= pq_of(raw@));
                }
                let pq_len = rest_len - ae;
                let path = match scan_char(pq, 0, '?') {
                    Some(qp) => pq.substring_char(0, qp),
                    None => pq,
                };
                proof {
                    assert(path@ =~= path_of(raw@));
                }
                let a = slugify(authority);
                let p = slugify(path);
                let a_len = a.as_str().unicode_len();
                let p_len = p.as_str().unicode_len();
                if a_len > 0 && p_len > 0 {
                    let mut joined = a;
                    joined.append("-");
                    joined.append(p.as_str());
                    proof {
                        reveal_strlit("-");
                        assert(("-"@) =~= seq!['-']);
                        assert(joined@ =~= url_slug_spec(*self).unwrap());
                    }
                    Some(joined)
                } else if a_len > 0 {
                    Some(a)
                } else if p_len > 0 {
                    Some(p)
                } else {
                    None
                }
            },
        }
    }
}

} // verus!
