//! URL canonicalisation: scheme normalisation and tracking-parameter
//! stripping.
//!
//! A URL is split into scheme, authority, path and query. The scheme is
//! forced to `https` when absent; the authority must be non-empty; known
//! tracking parameters are dropped from the query, empty-valued keys
//! become bare keys, and the order of the surviving parameters is kept.

use vstd::prelude::*;

verus! {

/// Whether `://` stands at position `i` of `s`.
pub open spec fn sep_at(s: Seq<char>, i: int) -> bool {
    &&& 0 <= i
    &&& i + 3 <= s.len()
    &&& s[i] == ':'
    &&& s[i + 1] == '/'
    &&& s[i + 2] == '/'
}

/// Position of the first `://` at or after `i`, or `-1`.
pub open spec fn first_sep_from(s: Seq<char>, i: int) -> int
    decreases s.len() - i,
        when 0 <= i

{
    if i + 3 > s.len() {
        -1
    } else if sep_at(s, i) {
        i
    } else {
        first_sep_from(s, i + 1)
    }
}

/// Position of the first occurrence of `c` at or after `i`, or `-1`.
pub open spec fn first_char_from(s: Seq<char>, i: int, c: char) -> int
    decreases s.len() - i,
        when 0 <= i

{
    if i >= s.len() {
        -1
    } else if s[i] == c {
        i
    } else {
        first_char_from(s, i + 1, c)
    }
}

/// Position of the first `/` or `?` at or after `i`, or `-1`.
pub open spec fn first_break_from(s: Seq<char>, i: int) -> int
    decreases s.len() - i,
        when 0 <= i

{
    if i >= s.len() {
        -1
    } else if s[i] == '/' || s[i] == '?' {
        i
    } else {
        first_break_from(s, i + 1)
    }
}

/// Position of the last occurrence of `c` in `s`, or `-1`.
pub open spec fn last_char_in(s: Seq<char>, c: char) -> int
    decreases s.len(),
{
    if s.len() == 0 {
        -1
    } else if s[s.len() - 1] == c {
        s.len() - 1
    } else {
        last_char_in(s.drop_last(), c)
    }
}

/// The pieces of `q` between `&` separators, in order.
pub open spec fn split_amp(q: Seq<char>) -> Seq<Seq<char>>
    decreases q.len(),
{
    let a = first_char_from(q, 0, '&');
    if a < 0 || a >= q.len() {
        seq![q]
    } else {
        seq![q.subrange(0, a)] + split_amp(q.subrange(a + 1, q.len() as int))
    }
}

/// The pieces joined back with `&` separators.
pub open spec fn join_amp(ps: Seq<Seq<char>>) -> Seq<char>
    decreases ps.len(),
{
    if ps.len() == 0 {
        Seq::empty()
    } else if ps.len() == 1 {
        ps[0]
    } else {
        join_amp(ps.drop_last()) + seq!['&'] + ps.last()
    }
}

/// The key of a parameter piece: everything before its first `=`.
pub open spec fn name_of(p: Seq<char>) -> Seq<char> {
    let e = first_char_from(p, 0, '=');
    if e == -1 {
        p
    } else {
        p.subrange(0, e)
    }
}

/// The value of a parameter piece: everything after its first `=`.
pub open spec fn value_of(p: Seq<char>) -> Seq<char> {
    let e = first_char_from(p, 0, '=');
    if e == -1 {
        Seq::empty()
    } else {
        p.subrange(e + 1, p.len() as int)
    }
}

/// An empty-valued key is kept as a bare key; other pieces are kept
/// verbatim.
pub open spec fn canon_piece(p: Seq<char>) -> Seq<char> {
    if first_char_from(p, 0, '=') != -1 && value_of(p).len() == 0 {
        name_of(p)
    } else {
        p
    }
}

/// The host of an authority: after the last `@`, before the first `:`.
pub open spec fn host_of_authority(a: Seq<char>) -> Seq<char> {
    let at = last_char_in(a, '@');
    let h = if at == -1 {
        a
    } else {
        a.subrange(at + 1, a.len() as int)
    };
    let c = first_char_from(h, 0, ':');
    if c == -1 {
        h
    } else {
        h.subrange(0, c)
    }
}

/// Whether a parameter name is dropped for the given host: the `utm`
/// tracking family everywhere, timestamps on the youtube hosts, and the
/// share-method tag on twitter.
pub open spec fn filtered_name(n: Seq<char>, host: Seq<char>) -> bool {
    ||| n == "utm_source"@
    ||| n == "utm_medium"@
    ||| n == "utm_campaign"@
    ||| n == "utm_term"@
    ||| n == "utm_content"@
    ||| ((host == "youtu.be"@ || host == "www.youtube.com"@) && n == "t"@)
    ||| (host == "twitter.com"@ && n == "s"@)
}

/// The surviving parameter pieces in canonical form, in order.
pub open spec fn kept_pieces(ps: Seq<Seq<char>>, host: Seq<char>) -> Seq<Seq<char>> {
    ps.filter(|p: Seq<char>| !filtered_name(name_of(p), host)).map_values(
        |p: Seq<char>| canon_piece(p),
    )
}

/// The canonical `?query` suffix for a raw query, or nothing when every
/// parameter was dropped.
pub open spec fn canon_query_suffix(q: Seq<char>, host: Seq<char>) -> Seq<char> {
    let ks = kept_pieces(split_amp(q), host);
    if ks.len() == 0 {
        Seq::empty()
    } else {
        seq!['?'] + join_amp(ks)
    }
}

/// Position of the first `://` of the whole URL, or `-1`.
pub open spec fn scheme_end(s: Seq<char>) -> int {
    first_sep_from(s, 0)
}

/// The scheme: what stands before `://`, or `https` when there is none.
pub open spec fn scheme_of(s: Seq<char>) -> Seq<char> {
    if scheme_end(s) == -1 {
        "https"@
    } else {
        s.subrange(0, scheme_end(s))
    }
}

/// Everything after the scheme separator.
pub open spec fn rest_of(s: Seq<char>) -> Seq<char> {
    if scheme_end(s) == -1 {
        s
    } else {
        s.subrange(scheme_end(s) + 3, s.len() as int)
    }
}

/// Where the authority ends in the rest: at the first `/` or `?`, or at
/// the end.
pub open spec fn auth_end(rest: Seq<char>) -> int {
    let b = first_break_from(rest, 0);
    if b == -1 {
        rest.len() as int
    } else {
        b
    }
}

/// The authority of the URL.
pub open spec fn authority_of(s: Seq<char>) -> Seq<char> {
    rest_of(s).subrange(0, auth_end(rest_of(s)))
}

/// Path and query together: what follows the authority.
pub open spec fn pq_of(s: Seq<char>) -> Seq<char> {
    rest_of(s).subrange(auth_end(rest_of(s)), rest_of(s).len() as int)
}

/// The canonical path: the raw path, or `/` when it is empty.
pub open spec fn path_norm(pq: Seq<char>) -> Seq<char> {
    let qpos = first_char_from(pq, 0, '?');
    let raw = if qpos == -1 {
        pq
    } else {
        pq.subrange(0, qpos)
    };
    if raw.len() == 0 {
        "/"@
    } else {
        raw
    }
}

/// The canonical query suffix of the URL, empty when the URL has no
/// query or none of its parameters survive.
pub open spec fn query_suffix(pq: Seq<char>, host: Seq<char>) -> Seq<char> {
    let qpos = first_char_from(pq, 0, '?');
    if qpos == -1 {
        Seq::empty()
    } else {
        canon_query_suffix(pq.subrange(qpos + 1, pq.len() as int), host)
    }
}

/// A found first occurrence pins `first_char_from`.
pub proof fn lemma_first_char_found(s: Seq<char>, i: int, c: char, k: int)
    requires
        0 <= i <= k < s.len(),
        s[k] == c,
        forall|j: int| i <= j < k ==> s[j] != c,
    ensures
        first_char_from(s, i, c) == k,
    decreases k - i,
{
    if i < k {
        lemma_first_char_found(s, i + 1, c, k);
    }
}

/// No occurrence anywhere pins `first_char_from` to `-1`.
pub proof fn lemma_first_char_none(s: Seq<char>, i: int, c: char)
    requires
        0 <= i,
        forall|j: int| i <= j < s.len() ==> s[j] != c,
    ensures
        first_char_from(s, i, c) == -1,
    decreases s.len() - i,
{
    if i < s.len() {
        lemma_first_char_none(s, i + 1, c);
    }
}

/// What a non-negative `first_char_from` result means.
pub proof fn lemma_first_char_props(s: Seq<char>, i: int, c: char)
    requires
        0 <= i,
        first_char_from(s, i, c) != -1,
    ensures
        i <= first_char_from(s, i, c) < s.len(),
        s[first_char_from(s, i, c)] == c,
        forall|j: int| i <= j < first_char_from(s, i, c) ==> s[j] != c,
    decreases s.len() - i,
{
    if i < s.len() && s[i] != c {
        lemma_first_char_props(s, i + 1, c);
    }
}

/// A found first separator pins `first_sep_from`.
pub proof fn lemma_first_sep_found(s: Seq<char>, i: int, k: int)
    requires
        0 <= i <= k,
        sep_at(s, k),
        forall|j: int| i <= j < k ==> !sep_at(s, j),
    ensures
        first_sep_from(s, i) == k,
    decreases k - i,
{
    if i < k {
        lemma_first_sep_found(s, i + 1, k);
    }
}

/// No separator anywhere pins `first_sep_from` to `-1`.
pub proof fn lemma_first_sep_none(s: Seq<char>, i: int)
    requires
        0 <= i,
        forall|j: int| i <= j ==> !sep_at(s, j),
    ensures
        first_sep_from(s, i) == -1,
    decreases s.len() - i,
{
    if i + 3 <= s.len() {
        lemma_first_sep_none(s, i + 1);
    }
}

/// What a non-negative `first_sep_from` result means.
pub proof fn lemma_first_sep_props(s: Seq<char>, i: int)
    requires
        0 <= i,
        first_sep_from(s, i) != -1,
    ensures
        i <= first_sep_from(s, i),
        sep_at(s, first_sep_from(s, i)),
        forall|j: int| i <= j < first_sep_from(s, i) ==> !sep_at(s, j),
    decreases s.len() - i,
{
    if i + 3 <= s.len() && !sep_at(s, i) {
        lemma_first_sep_props(s, i + 1);
    }
}

/// A found first break pins `first_break_from`.
pub proof fn lemma_first_break_found(s: Seq<char>, i: int, k: int)
    requires
        0 <= i <= k < s.len(),
        s[k] == '/' || s[k] == '?',
        forall|j: int| i <= j < k ==> !(s[j] == '/' || s[j] == '?'),
    ensures
        first_break_from(s, i) == k,
    decreases k - i,
{
    if i < k {
        lemma_first_break_found(s, i + 1, k);
    }
}

/// No break anywhere pins `first_break_from` to `-1`.
pub proof fn lemma_first_break_none(s: Seq<char>, i: int)
    requires
        0 <= i,
        forall|j: int| i <= j < s.len() ==> !(s[j] == '/' || s[j] == '?'),
    ensures
        first_break_from(s, i) == -1,
    decreases s.len() - i,
{
    if i < s.len() {
        lemma_first_break_none(s, i + 1);
    }
}

/// What a non-negative `first_break_from` result means.
pub proof fn lemma_first_break_props(s: Seq<char>, i: int)
    requires
        0 <= i,
        first_break_from(s, i) != -1,
    ensures
        i <= first_break_from(s, i) < s.len(),
        s[first_break_from(s, i)] == '/' || s[first_break_from(s, i)] == '?',
        forall|j: int| i <= j < first_break_from(s, i) ==> !(s[j] == '/' || s[j] == '?'),
    decreases s.len() - i,
{
    if i < s.len() && !(s[i] == '/' || s[i] == '?') {
        lemma_first_break_props(s, i + 1);
    }
}

/// A found last occurrence pins `last_char_in`.
pub proof fn lemma_last_char_found(s: Seq<char>, c: char, k: int)
    requires
        0 <= k < s.len(),
        s[k] == c,
        forall|j: int| k < j < s.len() ==> s[j] != c,
    ensures
        last_char_in(s, c) == k,
    decreases s.len(),
{
    if s.len() - 1 > k {
        assert(s.drop_last()[k] == s[k]);
        lemma_last_char_found(s.drop_last(), c, k);
    }
}

/// No occurrence anywhere pins `last_char_in` to `-1`.
pub proof fn lemma_last_char_none(s: Seq<char>, c: char)
    requires
        forall|j: int| 0 <= j < s.len() ==> s[j] != c,
    ensures
        last_char_in(s, c) == -1,
    decreases s.len(),
{
    if s.len() > 0 {
        lemma_last_char_none(s.drop_last(), c);
    }
}

/// Whether a piece is free of `&` separators.
pub open spec fn amp_free(p: Seq<char>) -> bool {
    forall|j: int| 0 <= j < p.len() ==> p[j] != '&'
}

/// Every piece of a split is free of `&`.
pub proof fn lemma_split_amp_free(q: Seq<char>)
    ensures
        split_amp(q).len() >= 1,
        forall|k: int| 0 <= k < split_amp(q).len() ==> amp_free(#[trigger] split_amp(q)[k]),
    decreases q.len(),
{
    let a = first_char_from(q, 0, '&');
    if a == -1 {
        lemma_first_char_none_inverse(q, '&');
    } else {
        lemma_first_char_props(q, 0, '&');
        lemma_split_amp_free(q.subrange(a + 1, q.len() as int));
        assert forall|k: int| 0 <= k < split_amp(q).len() implies amp_free(
            #[trigger] split_amp(q)[k],
        ) by {
            if k == 0 {
                assert(split_amp(q)[0] == q.subrange(0, a));
            } else {
                assert(split_amp(q)[k] == split_amp(q.subrange(a + 1, q.len() as int))[k - 1]);
            }
        }
    }
}

/// When `first_char_from` finds nothing, the character is absent.
pub proof fn lemma_first_char_none_inverse(s: Seq<char>, c: char)
    requires
        first_char_from(s, 0, c) == -1,
    ensures
        forall|j: int| 0 <= j < s.len() ==> s[j] != c,
{
    if exists|j: int| 0 <= j < s.len() && s[j] == c {
        let j0 = choose|j: int| 0 <= j < s.len() && s[j] == c;
        assert(first_char_from(s, 0, c) != -1) by {
            lemma_first_char_exists(s, 0, c, j0);
        }
    }
}

proof fn lemma_first_char_exists(s: Seq<char>, i: int, c: char, k: int)
    requires
        0 <= i <= k < s.len(),
        s[k] == c,
    ensures
        first_char_from(s, i, c) != -1,
    decreases k - i,
{
    if i < k && s[i] != c {
        lemma_first_char_exists(s, i + 1, c, k);
    }
}

/// For two or more pieces, the join peels off its first piece.
pub proof fn lemma_join_head(ps: Seq<Seq<char>>)
    requires
        ps.len() >= 2,
    ensures
        join_amp(ps) == ps[0] + seq!['&'] + join_amp(ps.drop_first()),
    decreases ps.len(),
{
    if ps.len() == 2 {
        reveal_with_fuel(join_amp, 3);
        assert(ps.drop_last()[0] == ps[0]);
        assert(ps.drop_last() =~= seq![ps[0]]);
        assert(ps.drop_first() =~= seq![ps[1]]);
        assert(join_amp(ps.drop_last()) == ps[0]);
        assert(join_amp(ps.drop_first()) == ps[1]);
        assert(join_amp(ps) =~= ps[0] + seq!['&'] + join_amp(ps.drop_first()));
    } else {
        let dl = ps.drop_last();
        lemma_join_head(dl);
        assert(dl[0] == ps[0]);
        assert(dl.drop_first() =~= ps.drop_first().drop_last());
        assert(ps.drop_first().len() >= 2);
        assert(ps.drop_first().last() == ps.last());
        assert(join_amp(ps) == join_amp(dl) + seq!['&'] + ps.last());
        assert(join_amp(ps.drop_first()) == join_amp(ps.drop_first().drop_last()) + seq!['&']
            + ps.last());
        assert(join_amp(ps) =~= ps[0] + seq!['&'] + join_amp(ps.drop_first()));
    }
}

/// Splitting a join of `&`-free pieces recovers exactly the pieces.
pub proof fn lemma_split_join(ps: Seq<Seq<char>>)
    requires
        ps.len() >= 1,
        forall|k: int| 0 <= k < ps.len() ==> amp_free(#[trigger] ps[k]),
    ensures
        split_amp(join_amp(ps)) == ps,
    decreases ps.len(),
{
    if ps.len() == 1 {
        assert(amp_free(ps[0]));
        lemma_first_char_none(ps[0], 0, '&');
        assert(join_amp(ps) == ps[0]);
        assert(split_amp(ps[0]) =~= ps);
    } else {
        lemma_join_head(ps);
        let j = join_amp(ps);
        let head = ps[0];
        let tail_join = join_amp(ps.drop_first());
        assert(j == head + seq!['&'] + tail_join);
        assert(j.len() == head.len() + 1 + tail_join.len());
        assert(j[head.len() as int] == '&');
        assert(amp_free(head));
        assert forall|x: int| 0 <= x < head.len() implies j[x] != '&' by {
            assert(j[x] == head[x]);
        }
        lemma_first_char_found(j, 0, '&', head.len() as int);
        assert(j.subrange(0, head.len() as int) =~= head);
        assert(j.subrange(head.len() as int + 1, j.len() as int) =~= tail_join);
        assert(forall|k: int|
            0 <= k < ps.drop_first().len() ==> amp_free(#[trigger] ps.drop_first()[k]));
        lemma_split_join(ps.drop_first());
        assert(split_amp(j) =~= seq![head] + ps.drop_first());
        assert(seq![head] + ps.drop_first() =~= ps);
    }
}

/// Canonical pieces stay `&`-free, keep their key, and are fixed points
/// of canonicalisation.
pub proof fn lemma_canon_piece(p: Seq<char>)
    requires
        amp_free(p),
    ensures
        amp_free(canon_piece(p)),
        name_of(canon_piece(p)) == name_of(p),
        canon_piece(canon_piece(p)) == canon_piece(p),
{
    let e = first_char_from(p, 0, '=');
    if e == -1 {
    } else {
        lemma_first_char_props(p, 0, '=');
        if value_of(p).len() == 0 {
            let n = p.subrange(0, e);
            assert(canon_piece(p) == n);
            assert(forall|j: int| 0 <= j < n.len() ==> n[j] != '=');
            lemma_first_char_none(n, 0, '=');
            assert(name_of(n) == n);
            assert(canon_piece(n) == n);
        }
    }
}

/// Filtering keeps only elements of the original sequence, so a
/// property of every element survives filtering.
pub proof fn lemma_filter_preserves_amp_free(ps: Seq<Seq<char>>, pred: spec_fn(Seq<char>) -> bool)
    requires
        forall|k: int| 0 <= k < ps.len() ==> amp_free(#[trigger] ps[k]),
    ensures
        forall|k: int|
            0 <= k < ps.filter(pred).len() ==> amp_free(#[trigger] ps.filter(pred)[k]),
    decreases ps.len(),
{
    reveal(Seq::filter);
    if ps.len() > 0 {
        assert(forall|k: int|
            0 <= k < ps.drop_last().len() ==> amp_free(#[trigger] ps.drop_last()[k]));
        lemma_filter_preserves_amp_free(ps.drop_last(), pred);
        let out = ps.filter(pred);
        let sub = ps.drop_last().filter(pred);
        assert forall|k: int| 0 <= k < out.len() implies amp_free(#[trigger] out[k]) by {
            if pred(ps.last()) {
                if k < out.len() - 1 {
                    assert(out[k] == sub[k]);
                } else {
                    assert(out[k] == ps.last());
                    assert(amp_free(ps.last()));
                }
            } else {
                assert(out[k] == sub[k]);
            }
        }
    }
}

/// A sequence whose elements all satisfy the predicate filters to
/// itself.
pub proof fn lemma_filter_identity(ps: Seq<Seq<char>>, pred: spec_fn(Seq<char>) -> bool)
    requires
        forall|k: int| 0 <= k < ps.len() ==> pred(#[trigger] ps[k]),
    ensures
        ps.filter(pred) == ps,
    decreases ps.len(),
{
    reveal(Seq::filter);
    if ps.len() > 0 {
        assert(forall|k: int|
            0 <= k < ps.drop_last().len() ==> pred(#[trigger] ps.drop_last()[k]));
        lemma_filter_identity(ps.drop_last(), pred);
        assert(pred(ps.last()));
        assert(ps.filter(pred) =~= ps);
    } else {
        assert(ps.filter(pred) =~= ps);
    }
}

/// The surviving pieces of a query are a fixed point: splitting their
/// join, filtering and canonicalising again changes nothing.
pub proof fn lemma_kept_pieces_fixed(q: Seq<char>, host: Seq<char>)
    requires
        kept_pieces(split_amp(q), host).len() >= 1,
    ensures
        kept_pieces(split_amp(join_amp(kept_pieces(split_amp(q), host))), host) == kept_pieces(
            split_amp(q),
            host,
        ),
{
    let ps = split_amp(q);
    let pred = |p: Seq<char>| !filtered_name(name_of(p), host);
    let fs = ps.filter(pred);
    let ks = kept_pieces(ps, host);
    lemma_split_amp_free(q);
    lemma_filter_preserves_amp_free(ps, pred);
    broadcast use vstd::seq_lib::group_filter_ensures;

    assert(ks.len() == fs.len());
    assert forall|k: int| 0 <= k < ks.len() implies amp_free(#[trigger] ks[k]) && pred(ks[k])
        && canon_piece(ks[k]) == ks[k] by {
        assert(ks[k] == canon_piece(fs[k]));
        assert(amp_free(fs[k]));
        lemma_canon_piece(fs[k]);
        assert(pred(fs[k]));
        assert(name_of(canon_piece(fs[k])) == name_of(fs[k]));
    }
    lemma_split_join(ks);
    lemma_filter_identity(ks, pred);
    assert(ks.map_values(|p: Seq<char>| canon_piece(p)) =~= ks);
}

/// The canonical form of a URL, or nothing when its authority is empty.
pub open spec fn canon_spec(s: Seq<char>) -> Option<Seq<char>> {
    if authority_of(s).len() == 0 {
        None
    } else {
        Some(
            scheme_of(s) + "://"@ + authority_of(s) + path_norm(pq_of(s)) + query_suffix(
                pq_of(s),
                host_of_authority(authority_of(s)),
            ),
        )
    }
}

/// When `first_break_from` finds nothing, no break character occurs.
pub proof fn lemma_first_break_none_inverse(s: Seq<char>)
    requires
        first_break_from(s, 0) == -1,
    ensures
        forall|j: int| 0 <= j < s.len() ==> !(s[j] == '/' || s[j] == '?'),
{
    if exists|j: int| 0 <= j < s.len() && (s[j] == '/' || s[j] == '?') {
        let j0 = choose|j: int| 0 <= j < s.len() && (s[j] == '/' || s[j] == '?');
        lemma_first_break_exists(s, 0, j0);
    }
}

proof fn lemma_first_break_exists(s: Seq<char>, i: int, k: int)
    requires
        0 <= i <= k < s.len(),
        s[k] == '/' || s[k] == '?',
    ensures
        first_break_from(s, i) != -1,
    decreases k - i,
{
    if i < k && !(s[i] == '/' || s[i] == '?') {
        lemma_first_break_exists(s, i + 1, k);
    }
}

/// Canonicalisation is idempotent: canonicalising a canonical URL gives
/// it back unchanged, for every URL the canonicaliser accepts.
pub proof fn lemma_canonicalize_idempotent(s: Seq<char>, c: Seq<char>)
    requires
        canon_spec(s) == Some(c),
    ensures
        canon_spec(c) == Some(c),
{
    reveal_strlit("https");
    reveal_strlit("://");
    reveal_strlit("/");
    let scheme = scheme_of(s);
    let auth = authority_of(s);
    let pq = pq_of(s);
    let path2 = path_norm(pq);
    let host = host_of_authority(auth);
    let qsuf = query_suffix(pq, host);
    assert(c =~= scheme + "://"@ + auth + path2 + qsuf);
    assert(("://"@).len() == 3);
    assert(("://"@)[0] == ':' && ("://"@)[1] == '/' && ("://"@)[2] == '/');
    let se = scheme.len() as int;

    // The scheme separator of `c` stands exactly after the scheme.
    assert(sep_at(c, se));
    assert forall|j: int| 0 <= j < se implies !sep_at(c, j) by {
        if j + 3 <= se {
            if scheme_end(s) == -1 {
                assert(c[j] == ("https"@)[j]);
                assert(c[j] != ':');
            } else {
                lemma_first_sep_props(s, 0);
                assert(c[j] == s[j] && c[j + 1] == s[j + 1] && c[j + 2] == s[j + 2]);
                assert(!sep_at(s, j));
            }
        } else {
            // A separator crossing the boundary would need `/` where the
            // separator's own `:` stands.
            assert(c[se] == ':');
        }
    }
    lemma_first_sep_found(c, 0, se);
    assert(scheme_end(c) == se);
    assert(scheme_of(c) =~= scheme);

    // The rest of `c` is authority, path and query.
    let rest_c = rest_of(c);
    assert(rest_c =~= auth + path2 + qsuf);

    // The authority ends exactly where it did: it contains no break
    // character and the path starts with one.
    let ae = auth_end(rest_of(s));
    let b0 = first_break_from(rest_of(s), 0);
    if b0 == -1 {
        lemma_first_break_none_inverse(rest_of(s));
    } else {
        lemma_first_break_props(rest_of(s), 0);
    }
    assert(0 <= ae <= rest_of(s).len());
    assert(forall|j: int| 0 <= j < auth.len() ==> !(auth[j] == '/' || auth[j] == '?'));

    // The canonical path always starts with a slash.
    let qpos = first_char_from(pq, 0, '?');
    if qpos != -1 {
        lemma_first_char_props(pq, 0, '?');
    }
    assert(path2.len() >= 1);
    assert(path2[0] == '/') by {
        let raw = if qpos == -1 {
            pq
        } else {
            pq.subrange(0, qpos)
        };
        if raw.len() == 0 {
            assert(path2 == "/"@);
        } else {
            assert(raw[0] == pq[0]);
            assert(pq[0] == rest_of(s)[ae]);
            assert(b0 != -1);
            assert(pq[0] == '/' || pq[0] == '?');
            if pq[0] == '?' {
                assert(qpos == 0) by {
                    lemma_first_char_found(pq, 0, '?', 0);
                }
                assert(raw.len() == 0);
            }
        }
    }
    assert forall|j: int| 0 <= j < auth.len() implies !(rest_c[j] == '/' || rest_c[j] == '?') by {
        assert(rest_c[j] == auth[j]);
    }
    assert(rest_c[auth.len() as int] == path2[0]);
    lemma_first_break_found(rest_c, 0, auth.len() as int);
    assert(auth_end(rest_c) == auth.len());
    assert(authority_of(c) =~= auth);
    assert(host_of_authority(authority_of(c)) == host);

    // Path and query of `c`.
    let pq_c = pq_of(c);
    assert(pq_c =~= path2 + qsuf);

    // The canonical path contains no `?`.
    assert(forall|j: int| 0 <= j < path2.len() ==> path2[j] != '?') by {
        let raw = if qpos == -1 {
            pq
        } else {
            pq.subrange(0, qpos)
        };
        if raw.len() == 0 {
            assert(("/"@).len() == 1 && ("/"@)[0] == '/');
        } else {
            if qpos == -1 {
                lemma_first_char_none_inverse(pq, '?');
            }
        }
    }

    let qpos_c = first_char_from(pq_c, 0, '?');
    if qsuf.len() == 0 {
        lemma_first_char_none(pq_c, 0, '?');
        assert(qpos_c == -1);
        assert(path_norm(pq_c) =~= path2);
        assert(query_suffix(pq_c, host) =~= qsuf);
    } else {
        // The query suffix starts with `?` right after the path.
        assert(qpos != -1);
        let q_raw = pq.subrange(qpos + 1, pq.len() as int);
        let ks = kept_pieces(split_amp(q_raw), host);
        assert(ks.len() >= 1);
        assert(qsuf == seq!['?'] + join_amp(ks));
        assert(pq_c[path2.len() as int] == '?');
        assert forall|j: int| 0 <= j < path2.len() implies pq_c[j] != '?' by {
            assert(pq_c[j] == path2[j]);
        }
        lemma_first_char_found(pq_c, 0, '?', path2.len() as int);
        assert(qpos_c == path2.len());
        assert(path_norm(pq_c) =~= path2);
        let q_raw_c = pq_c.subrange(qpos_c + 1, pq_c.len() as int);
        assert(q_raw_c =~= join_amp(ks));
        lemma_kept_pieces_fixed(q_raw, host);
        assert(kept_pieces(split_amp(q_raw_c), host) == ks);
        assert(query_suffix(pq_c, host) =~= qsuf);
    }

    assert(canon_spec(c) is Some);
    assert(canon_spec(c).unwrap() =~= c);
}

/// First occurrence of `c` in `s` at or after `from`.
pub(crate) fn scan_char(s: &str, from: usize, c: char) -> (r: Option<usize>)
    requires
        from <= s@.len(),
    ensures
        match r {
            Some(i) => {
                &&& i == first_char_from(s@, from as int, c)
                &&& from <= i < s@.len()
                &&& s@[i as int] == c
                &&& forall|j: int| from <= j < i ==> s@[j] != c
            },
            None => {
                &&& first_char_from(s@, from as int, c) == -1
                &&& forall|j: int| from <= j < s@.len() ==> s@[j] != c
            },
        },
{
    let len = s.unicode_len();
    let mut i: usize = from;
    while i < len
        invariant
            len == s@.len(),
            from <= i <= len,
            forall|j: int| from <= j < i ==> s@[j] != c,
        decreases len - i,
    {
        if s.get_char(i) == c {
            proof {
                lemma_first_char_found(s@, from as int, c, i as int);
            }
            return Some(i);
        }
        i += 1;
    }
    proof {
        lemma_first_char_none(s@, from as int, c);
    }
    None
}

/// First `/` or `?` in `s`.
pub(crate) fn scan_break(s: &str) -> (r: Option<usize>)
    ensures
        match r {
            Some(i) => {
                &&& i == first_break_from(s@, 0)
                &&& i < s@.len()
                &&& (s@[i as int] == '/' || s@[i as int] == '?')
                &&& forall|j: int| 0 <= j < i ==> !(s@[j] == '/' || s@[j] == '?')
            },
            None => {
                &&& first_break_from(s@, 0) == -1
                &&& forall|j: int| 0 <= j < s@.len() ==> !(s@[j] == '/' || s@[j] == '?')
            },
        },
{
    let len = s.unicode_len();
    let mut i: usize = 0;
    while i < len
        invariant
            len == s@.len(),
            i <= len,
            forall|j: int| 0 <= j < i ==> !(s@[j] == '/' || s@[j] == '?'),
        decreases len - i,
    {
        let ch = s.get_char(i);
        if ch == '/' || ch == '?' {
            proof {
                lemma_first_break_found(s@, 0, i as int);
            }
            return Some(i);
        }
        i += 1;
    }
    proof {
        lemma_first_break_none(s@, 0);
    }
    None
}

/// First `://` in `s`.
pub(crate) fn scan_sep(s: &str) -> (r: Option<usize>)
    ensures
        match r {
            Some(i) => {
                &&& i == scheme_end(s@)
                &&& sep_at(s@, i as int)
                &&& forall|j: int| 0 <= j < i ==> !sep_at(s@, j)
            },
            None => scheme_end(s@) == -1,
        },
{
    let len = s.unicode_len();
    if len < 3 {
        proof {
            assert(forall|j: int| 0 <= j ==> !sep_at(s@, j));
            lemma_first_sep_none(s@, 0);
        }
        return None;
    }
    let mut i: usize = 0;
    while i <= len - 3
        invariant
            len == s@.len(),
            len >= 3,
            i <= len,
            forall|j: int| 0 <= j < i ==> !sep_at(s@, j),
        decreases len - i,
    {
        if s.get_char(i) == ':' && s.get_char(i + 1) == '/' && s.get_char(i + 2) == '/' {
            proof {
                lemma_first_sep_found(s@, 0, i as int);
            }
            return Some(i);
        }
        i += 1;
    }
    proof {
        assert(forall|j: int| 0 <= j ==> !sep_at(s@, j));
        lemma_first_sep_none(s@, 0);
    }
    None
}

/// Last occurrence of `c` in `s`.
fn scan_last(s: &str, c: char) -> (r: Option<usize>)
    ensures
        match r {
            Some(i) => i == last_char_in(s@, c) && i < s@.len() && s@[i as int] == c,
            None => last_char_in(s@, c) == -1,
        },
{
    let len = s.unicode_len();
    let mut i: usize = len;
    while i > 0
        invariant
            len == s@.len(),
            i <= len,
            forall|j: int| i <= j < len ==> s@[j] != c,
        decreases i,
    {
        i -= 1;
        if s.get_char(i) == c {
            proof {
                lemma_last_char_found(s@, c, i as int);
            }
            return Some(i);
        }
    }
    proof {
        lemma_last_char_none(s@, c);
    }
    None
}

/// Whether the parameter key is dropped for this host.
fn name_is_filtered(name: &str, host: &str) -> (r: bool)
    ensures
        r == filtered_name(name@, host@),
{
    crate::strutil::str_equal(name, "utm_source") || crate::strutil::str_equal(
        name,
        "utm_medium",
    ) || crate::strutil::str_equal(name, "utm_campaign") || crate::strutil::str_equal(
        name,
        "utm_term",
    ) || crate::strutil::str_equal(name, "utm_content") || ((crate::strutil::str_equal(
        host,
        "youtu.be",
    ) || crate::strutil::str_equal(host, "www.youtube.com")) && crate::strutil::str_equal(
        name,
        "t",
    )) || (crate::strutil::str_equal(host, "twitter.com") && crate::strutil::str_equal(name, "s"))
}

/// The canonical query of `q` for `host`: the joined surviving
/// parameters, or nothing when none survive.
fn canon_query(q: &str, host: &str) -> (r: Option<String>)
    ensures
        match r {
            Some(out) => canon_query_suffix(q@, host@) == seq!['?'] + out@,
            None => canon_query_suffix(q@, host@) == Seq::<char>::empty(),
        },
{
    let qlen = q.unicode_len();
    let mut start: usize = 0;
    let mut qout = String::new();
    let mut any = false;
    let mut done = false;
    let ghost full = q@;
    let ghost mut processed: Seq<Seq<char>> = Seq::empty();
    proof {
        reveal_strlit("&");
        assert(("&"@) =~= seq!['&']);
        assert(full.subrange(0, qlen as int) =~= full);
        assert(split_amp(full) =~~= processed + split_amp(full.subrange(0, qlen as int)));
    }
    while !done
        invariant
            qlen == full.len(),
            full == q@,
            start <= qlen,
            !done ==> split_amp(full) =~~= processed + split_amp(
                full.subrange(start as int, qlen as int),
            ),
            done ==> split_amp(full) =~~= processed,
            any == (kept_pieces(processed, host@).len() > 0),
            any ==> qout@ == join_amp(kept_pieces(processed, host@)),
            !any ==> qout@ == Seq::<char>::empty(),
        decreases qlen - start + (if done { 0int } else { 1int }),
    {
        let amp = scan_char(q, start, '&');
        let piece_end = match amp {
            Some(a) => a,
            None => qlen,
        };
        let ghost piece = full.subrange(start as int, piece_end as int);
        let ghost tail = full.subrange(start as int, qlen as int);
        proof {
            reveal(Seq::filter);
            match amp {
                Some(a) => {
                    assert(tail[a - start] == '&');
                    assert(forall|j: int| 0 <= j < a - start ==> tail[j] != '&');
                    lemma_first_char_found(tail, 0, '&', a - start);
                    assert(split_amp(tail) == seq![tail.subrange(0, a - start)] + split_amp(
                        tail.subrange(a - start + 1, tail.len() as int),
                    ));
                    assert(tail.subrange(0, a - start) =~= piece);
                    assert(tail.subrange(a - start + 1, tail.len() as int) =~= full.subrange(
                        a + 1,
                        qlen as int,
                    ));
                },
                None => {
                    assert(forall|j: int| 0 <= j < tail.len() ==> tail[j] != '&');
                    lemma_first_char_none(tail, 0, '&');
                    assert(split_amp(tail) == seq![tail]);
                    assert(tail =~= piece);
                },
            }
        }
        let eq = match scan_char(q, start, '=') {
            Some(e) => if e < piece_end {
                Some(e)
            } else {
                None
            },
            None => None,
        };
        let name_end = match eq {
            Some(e) => e,
            None => piece_end,
        };
        proof {
            match eq {
                Some(e) => {
                    assert(piece[e - start] == '=');
                    assert(forall|j: int| 0 <= j < e - start ==> piece[j] != '=');
                    lemma_first_char_found(piece, 0, '=', e - start);
                },
                None => {
                    assert(forall|j: int| 0 <= j < piece.len() ==> piece[j] != '=');
                    lemma_first_char_none(piece, 0, '=');
                },
            }
        }
        let name = q.substring_char(start, name_end);
        proof {
            assert(name@ =~= name_of(piece));
        }
        let ghost old_processed = processed;
        let ghost old_ks = kept_pieces(old_processed, host@);
        proof {
            processed = processed.push(piece);
        }
        if !name_is_filtered(name, host) {
            let piece_str = match eq {
                Some(e) => if e + 1 == piece_end {
                    q.substring_char(start, e)
                } else {
                    q.substring_char(start, piece_end)
                },
                None => q.substring_char(start, piece_end),
            };
            proof {
                match eq {
                    Some(e) => {
                        assert(value_of(piece) =~= piece.subrange(
                            e - start + 1,
                            piece.len() as int,
                        ));
                        if e + 1 == piece_end {
                            assert(value_of(piece).len() == 0);
                            assert(piece_str@ =~= name_of(piece));
                            assert(piece_str@ =~= canon_piece(piece));
                        } else {
                            assert(value_of(piece).len() > 0);
                            assert(piece_str@ =~= canon_piece(piece));
                        }
                    },
                    None => {
                        assert(piece_str@ =~= piece);
                        assert(piece_str@ =~= canon_piece(piece));
                    },
                }
            }
            if any {
                qout.append("&");
            }
            qout.append(piece_str);
            any = true;
            proof {
                reveal(Seq::filter);
                reveal_strlit("&");
                assert(("&"@) =~= seq!['&']);
                let pred = |p: Seq<char>| !filtered_name(name_of(p), host@);
                assert(processed.drop_last() =~= old_processed);
                assert(pred(piece));
                assert(processed.filter(pred) =~~= old_processed.filter(pred).push(piece));
                let ks = kept_pieces(processed, host@);
                assert(ks =~~= old_ks.push(canon_piece(piece)));
                if old_ks.len() == 0 {
                    assert(ks.len() == 1);
                    assert(join_amp(ks) == ks[0]);
                    assert(ks[0] == canon_piece(piece));
                    assert(qout@ =~= join_amp(ks));
                } else {
                    assert(ks.drop_last() =~~= old_ks);
                    assert(join_amp(ks) == join_amp(ks.drop_last()) + seq!['&'] + ks.last());
                    assert(qout@ =~= join_amp(ks));
                }
            }
        } else {
            proof {
                reveal(Seq::filter);
                let pred = |p: Seq<char>| !filtered_name(name_of(p), host@);
                assert(processed.drop_last() =~= old_processed);
                assert(!pred(piece));
                assert(processed.filter(pred) =~~= old_processed.filter(pred));
                assert(kept_pieces(processed, host@) =~~= old_ks);
            }
        }
        match amp {
            Some(a) => {
                start = a + 1;
                proof {
                    assert(split_amp(full) =~~= processed + split_amp(
                        full.subrange(start as int, qlen as int),
                    ));
                }
            },
            None => {
                done = true;
                proof {
                    assert(split_amp(full) =~~= processed);
                }
            },
        }
    }
    if any {
        Some(qout)
    } else {
        None
    }
}

/// Canonicalise a URL: force the scheme to `https` when absent, keep the
/// authority, strip the tracking parameters for the URL's host, and keep
/// every other parameter in order, empty values as bare keys. Fails with
/// `InvalidInput` exactly when the URL has no authority.
#[verifier::rlimit(100)]
pub fn canonicalize(raw: &str) -> (r: Result<String, crate::Error>)
    ensures
        match r {
            Ok(c) => canon_spec(raw@) == Some(c@),
            Err(e) => canon_spec(raw@) is None && e == crate::Error::InvalidInput,
        },
{
    let len = raw.unicode_len();
    let sep = scan_sep(raw);
    let rest = match sep {
        Some(k) => raw.substring_char(k + 3, len),
        None => raw,
    };
    proof {
        assert(rest@ =~= rest_of(raw@));
    }
    let rest_len = rest.unicode_len();
    let ae = match scan_break(rest) {
        Some(b) => b,
        None => rest_len,
    };
    proof {
        assert(ae as int == auth_end(rest@));
    }
    if ae == 0 {
        proof {
            assert(authority_of(raw@).len() == 0);
        }
        return Err(crate::Error::InvalidInput);
    }
    let authority = rest.substring_char(0, ae);
    proof {
        assert(authority@ =~= authority_of(raw@));
    }
    let host_start = match scan_last(authority, '@') {
        Some(a) => a + 1,
        None => 0,
    };
    let h2 = authority.substring_char(host_start, ae);
    let h2_len = ae - host_start;
    let host_end = match scan_char(h2, 0, ':') {
        Some(cp) => cp,
        None => h2_len,
    };
    let host = h2.substring_char(0, host_end);
    proof {
        assert(h2@ =~= if last_char_in(authority@, '@') == -1 {
            authority@
        } else {
            authority@.subrange(last_char_in(authority@, '@') + 1, authority@.len() as int)
        });
        assert(host@ =~= host_of_authority(authority@));
    }
    let pq = rest.substring_char(ae, rest_len);
    proof {
        assert(pq@ =~= pq_of(raw@));
    }
    let pq_len = rest_len - ae;
    let qpos_opt = scan_char(pq, 0, '?');

    let mut out = String::new();
    match sep {
        Some(k) => {
            let scheme = raw.substring_char(0, k);
            proof {
                assert(scheme@ =~= scheme_of(raw@));
            }
            out.append(scheme);
        },
        None => {
            out.append("https");
        },
    }
    out.append("://");
    out.append(authority);
    let path_raw_end = match qpos_opt {
        Some(qp) => qp,
        None => pq_len,
    };
    if path_raw_end == 0 {
        out.append("/");
        proof {
            assert(path_norm(pq@) =~= "/"@);
        }
    } else {
        let path = pq.substring_char(0, path_raw_end);
        proof {
            assert(path@ =~= path_norm(pq@));
        }
        out.append(path);
    }
    match qpos_opt {
        Some(qp) => {
            let query = pq.substring_char(qp + 1, pq_len);
            proof {
                assert(query@ =~= pq@.subrange(qp + 1, pq@.len() as int));
            }
            match canon_query(query, host) {
                Some(qs) => {
                    out.append("?");
                    out.append(qs.as_str());
                    proof {
                        reveal_strlit("?");
                        assert(("?"@) =~= seq!['?']);
                        assert(out@ =~= canon_spec(raw@).unwrap());
                    }
                },
                None => {
                    proof {
                        assert(out@ =~= canon_spec(raw@).unwrap());
                    }
                },
            }
        },
        None => {
            proof {
                assert(out@ =~= canon_spec(raw@).unwrap());
            }
        },
    }
    Ok(out)
}

} // verus!
