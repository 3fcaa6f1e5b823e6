//! Verified string helpers shared across the trust plane.
//!
//! Comparisons and transformations are done character by character, so
//! their contracts speak directly about the character sequences.

use vstd::prelude::*;

verus! {

/// True for the ASCII whitespace characters trimmed from user input.
pub open spec fn is_ascii_space(c: char) -> bool {
    c == ' ' || c == '\t' || c == '\n' || c == '\r'
}

/// Number of leading whitespace characters of `s`.
pub open spec fn leading_spaces(s: Seq<char>) -> int
    decreases s.len(),
{
    if s.len() == 0 {
        0
    } else if is_ascii_space(s[0]) {
        1 + leading_spaces(s.drop_first())
    } else {
        0
    }
}

/// Number of trailing whitespace characters of `s`.
pub open spec fn trailing_spaces(s: Seq<char>) -> int
    decreases s.len(),
{
    if s.len() == 0 {
        0
    } else if is_ascii_space(s[s.len() - 1]) {
        1 + trailing_spaces(s.drop_last())
    } else {
        0
    }
}

/// `s` without leading and trailing ASCII whitespace.
pub open spec fn trim_spec(s: Seq<char>) -> Seq<char> {
    if leading_spaces(s) == s.len() {
        Seq::empty()
    } else {
        s.subrange(leading_spaces(s), s.len() - trailing_spaces(s))
    }
}

/// The ASCII-lowercased counterpart of `c`; other characters unchanged.
pub open spec fn lower_char(c: char) -> char {
    if 'A' <= c && c <= 'Z' {
        ((c as u8) + 32) as char
    } else {
        c
    }
}

/// `s` with every ASCII uppercase letter lowercased.
pub open spec fn lower_spec(s: Seq<char>) -> Seq<char> {
    s.map_values(|c: char| lower_char(c))
}

/// Relies on std `String::push`: appends the given character to the end
/// of the string.
pub assume_specification[ String::push ](s: &mut String, ch: char)
    ensures
        final(s)@ == old(s)@.push(ch),
;

/// The ASCII-lowercased counterpart of `c`.
pub fn to_lower(c: char) -> (r: char)
    ensures
        r == lower_char(c),
{
    let u = c as u32;
    if 65 <= u && u <= 90 {
        ((u + 32) as u8) as char
    } else {
        c
    }
}

/// Character-wise string equality.
pub fn str_equal(a: &str, b: &str) -> (r: bool)
    ensures
        r == (a@ == b@),
{
    let a_len = a.unicode_len();
    let b_len = b.unicode_len();
    if a_len != b_len {
        proof {
            assert(a@ != b@);
        }
        return false;
    }
    let mut i: usize = 0;
    while i < a_len
        invariant
            a_len == a@.len(),
            a_len == b@.len(),
            i <= a_len,
            forall|k: int| 0 <= k < i ==> a@[k] == b@[k],
        decreases a_len - i,
    {
        if a.get_char(i) != b.get_char(i) {
            proof {
                assert(a@ != b@);
            }
            return false;
        }
        i += 1;
    }
    proof {
        assert(a@ =~= b@);
    }
    true
}

/// `s` without leading and trailing ASCII whitespace, as a fresh slice.
pub fn trim(s: &str) -> (r: &str)
    ensures
        r@ == trim_spec(s@),
{
    let len = s.unicode_len();
    proof {
        lemma_spaces_nonneg(s@);
    }
    let mut start: usize = 0;
    while start < len && is_space(s.get_char(start))
        invariant
            len == s@.len(),
            start <= len,
            forall|k: int| 0 <= k < start ==> is_ascii_space(s@[k]),
            start < len ==> leading_spaces(s@) >= start,
            start == len ==> leading_spaces(s@) == len,
        decreases len - start,
    {
        proof {
            lemma_spaces_nonneg(s@);
            lemma_leading_spaces_step(s@, start as int);
        }
        start += 1;
    }
    if start == len {
        proof {
            reveal_strlit("");
            assert(""@ =~= Seq::<char>::empty());
        }
        return "";
    }
    proof {
        lemma_leading_spaces_exact(s@, start as int);
    }
    let mut end: usize = len;
    while end > start && is_space(s.get_char(end - 1))
        invariant
            len == s@.len(),
            start < len,
            start <= end <= len,
            !is_ascii_space(s@[start as int]),
            forall|k: int| end <= k < len ==> is_ascii_space(s@[k]),
            trailing_spaces(s@) >= len - end,
        decreases end,
    {
        proof {
            lemma_spaces_nonneg(s@);
            lemma_trailing_spaces_step(s@, end as int);
        }
        end -= 1;
    }
    proof {
        lemma_trailing_spaces_exact(s@, end as int, start as int);
    }
    s.substring_char(start, end)
}

/// Whether `c` is ASCII whitespace.
pub fn is_space(c: char) -> (r: bool)
    ensures
        r == is_ascii_space(c),
{
    c == ' ' || c == '\t' || c == '\n' || c == '\r'
}

/// Both space counts are bounded by the length of the string.
proof fn lemma_spaces_nonneg(s: Seq<char>)
    ensures
        0 <= leading_spaces(s) <= s.len(),
        0 <= trailing_spaces(s) <= s.len(),
    decreases s.len(),
{
    if s.len() > 0 {
        lemma_spaces_nonneg(s.drop_first());
        lemma_spaces_nonneg(s.drop_last());
    }
}

proof fn lemma_leading_spaces_step(s: Seq<char>, i: int)
    requires
        0 <= i < s.len(),
        forall|k: int| 0 <= k < i ==> is_ascii_space(s[k]),
        is_ascii_space(s[i]),
    ensures
        leading_spaces(s) >= i + 1,
    decreases i,
{
    if i == 0 {
        lemma_spaces_nonneg(s.drop_first());
        assert(leading_spaces(s) >= 1);
    } else {
        assert(is_ascii_space(s[0]));
        lemma_leading_spaces_step(s.drop_first(), i - 1);
    }
}

proof fn lemma_leading_spaces_exact(s: Seq<char>, i: int)
    requires
        0 <= i <= s.len(),
        forall|k: int| 0 <= k < i ==> is_ascii_space(s[k]),
        i < s.len() ==> !is_ascii_space(s[i]),
        i <= leading_spaces(s) || i == s.len(),
    ensures
        leading_spaces(s) == if i < s.len() { i as int } else { leading_spaces(s) },
    decreases i,
{
    if i > 0 && i < s.len() {
        assert(is_ascii_space(s[0]));
        lemma_leading_spaces_exact(s.drop_first(), i - 1);
    }
}

proof fn lemma_trailing_spaces_step(s: Seq<char>, e: int)
    requires
        0 < e <= s.len(),
        forall|k: int| e <= k < s.len() ==> is_ascii_space(s[k]),
        is_ascii_space(s[e - 1]),
    ensures
        trailing_spaces(s) >= s.len() - e + 1,
    decreases s.len() - e,
{
    if e == s.len() {
        lemma_spaces_nonneg(s.drop_last());
        assert(trailing_spaces(s) >= 1);
    } else {
        assert(is_ascii_space(s[s.len() - 1]));
        assert(s.drop_last().len() == s.len() - 1);
        assert(forall|k: int| e <= k < s.drop_last().len() ==> is_ascii_space(s.drop_last()[k]));
        assert(s.drop_last()[e - 1] == s[e - 1]);
        lemma_trailing_spaces_step(s.drop_last(), e);
    }
}

proof fn lemma_trailing_spaces_exact(s: Seq<char>, e: int, start: int)
    requires
        0 <= start < e <= s.len(),
        !is_ascii_space(s[e - 1]),
        forall|k: int| e <= k < s.len() ==> is_ascii_space(s[k]),
    ensures
        trailing_spaces(s) == s.len() - e,
    decreases s.len() - e,
{
    if e == s.len() {
        assert(trailing_spaces(s) == 0);
    } else {
        assert(is_ascii_space(s[s.len() - 1]));
        assert(s.drop_last()[e - 1] == s[e - 1]);
        assert(forall|k: int| e <= k < s.drop_last().len() ==> is_ascii_space(s.drop_last()[k]));
        lemma_trailing_spaces_exact(s.drop_last(), e, start);
    }
}

/// Lowercase the ASCII letters of a string; other characters are kept.
pub fn ascii_lower(s: &str) -> (r: String)
    ensures
        r@ == lower_spec(s@),
{
    let len = s.unicode_len();
    let mut out = String::new();
    let mut i: usize = 0;
    while i < len
        invariant
            len == s@.len(),
            i <= len,
            out@ == lower_spec(s@.subrange(0, i as int)),
        decreases len - i,
    {
        let c = s.get_char(i);
        let lc = to_lower(c);
        out.push(lc);
        proof {
            let pre = s@.subrange(0, i as int);
            let post = s@.subrange(0, i + 1);
            assert forall|k: int| 0 <= k < i + 1 implies out@[k] == lower_spec(post)[k] by {
                if k < i {
                    assert(out@[k] == lower_spec(pre)[k]);
                    assert(post[k] == pre[k]);
                } else {
                    assert(post[k] == s@[i as int]);
                }
            }
            assert(out@ =~= lower_spec(post));
        }
        i += 1;
    }
    proof {
        assert(s@.subrange(0, len as int) =~= s@);
    }
    out
}

/// Token equality for secrets: after the length check every character
/// is compared and the verdict accumulated, so the comparison does not
/// stop at the first mismatch.
pub fn tokens_match(a: &str, b: &str) -> (r: bool)
    ensures
        r == (a@ == b@),
{
    let a_len = a.unicode_len();
    let b_len = b.unicode_len();
    if a_len != b_len {
        proof {
            assert(a@ != b@);
        }
        return false;
    }
    let mut same = true;
    let mut i: usize = 0;
    while i < a_len
        invariant
            a_len == a@.len(),
            a_len == b@.len(),
            i <= a_len,
            same == (forall|k: int| 0 <= k < i ==> a@[k] == b@[k]),
        decreases a_len - i,
    {
        let eq_here = a.get_char(i) == b.get_char(i);
        same = same && eq_here;
        i += 1;
    }
    proof {
        if same {
            assert(a@ =~= b@);
        }
    }
    same
}

/// Whether two optional strings hold the same characters.
pub open spec fn opt_string_views_match(a: Option<String>, b: Option<String>) -> bool {
    match (a, b) {
        (Some(x), Some(y)) => x@ == y@,
        (None, None) => true,
        _ => false,
    }
}

/// A copy of an optional string.
pub fn clone_opt_string(o: &Option<String>) -> (r: Option<String>)
    ensures
        opt_string_views_match(r, *o),
{
    match o {
        Some(s) => Some(s.clone()),
        None => None,
    }
}

/// Append every byte of `src` to `buf`.
pub fn append_bytes(buf: &mut Vec<u8>, src: &[u8])
    ensures
        final(buf)@ == old(buf)@ + src@,
{
    let src_len = src.len();
    let mut i: usize = 0;
    while i < src_len
        invariant
            src_len == src@.len(),
            i <= src_len,
            buf@ == old(buf)@ + src@.subrange(0, i as int),
        decreases src_len - i,
    {
        let b = *vstd::slice::slice_index_get(src, i);
        buf.push(b);
        proof {
            assert(buf@ == old(buf)@ + src@.subrange(0, i + 1));
        }
        i += 1;
    }
    proof {
        assert(src@.subrange(0, src_len as int) =~= src@);
    }
}

} // verus!
