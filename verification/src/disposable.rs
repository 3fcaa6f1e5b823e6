//! Email heuristics: the disposable-provider check and address
//! normalisation.
//!
//! The host of an address is everything after its last `@`; an address
//! without `@` is treated as a bare host. Normalisation trims the address
//! and lowercases it; for `gmail.com` addresses the dots of the user part
//! are dropped first, following the provider's own equivalence rules.

use crate::strutil::{ascii_lower, lower_char, lower_spec, str_equal, to_lower, trim,
    trim_spec};
use vstd::prelude::*;
use vstd::string::StringExecFns;

verus! {

/// Index of the last `@` of `s`, or `-1` when there is none.
pub open spec fn last_at(s: Seq<char>) -> int
    decreases s.len(),
{
    if s.len() == 0 {
        -1
    } else if s[s.len() - 1] == '@' {
        s.len() - 1
    } else {
        last_at(s.drop_last())
    }
}

/// The host part of an address: everything after the last `@`, or the
/// whole string when there is no `@`.
pub open spec fn host_of(s: Seq<char>) -> Seq<char> {
    if last_at(s) == -1 {
        s
    } else {
        s.subrange(last_at(s) + 1, s.len() as int)
    }
}

/// The known disposable-provider hosts: a small sample set standing in
/// for a full, operator-maintained blocklist.
pub open spec fn disposable_host(h: Seq<char>) -> bool {
    ||| h == "memeil.top"@
    ||| h == "mailinator.com"@
    ||| h == "guerrillamail.com"@
    ||| h == "10minutemail.com"@
    ||| h == "temp-mail.org"@
    ||| h == "yopmail.com"@
    ||| h == "sharklasers.com"@
    ||| h == "dispostable.com"@
}

/// Whether the address belongs to a disposable email provider.
pub open spec fn is_disposable_spec(email: Seq<char>) -> bool {
    disposable_host(host_of(email))
}

/// The user part of a gmail address with its dots dropped and its ASCII
/// letters lowercased.
pub open spec fn strip_dots_lower(s: Seq<char>) -> Seq<char>
    decreases s.len(),
{
    if s.len() == 0 {
        Seq::empty()
    } else {
        let rest = strip_dots_lower(s.drop_last());
        if s[s.len() - 1] == '.' {
            rest
        } else {
            rest.push(lower_char(s[s.len() - 1]))
        }
    }
}

/// The normalised form of an address: trimmed, then either the gmail
/// dot-dropping rule or plain ASCII lowercasing.
pub open spec fn normalize_spec(s: Seq<char>) -> Seq<char> {
    let t = trim_spec(s);
    if last_at(t) >= 0 && host_of(t) == "gmail.com"@ {
        strip_dots_lower(t.subrange(0, last_at(t))) + "@gmail.com"@
    } else {
        lower_spec(t)
    }
}

proof fn lemma_last_at_found(s: Seq<char>, k: int)
    requires
        0 <= k < s.len(),
        s[k] == '@',
        forall|j: int| k < j < s.len() ==> s[j] != '@',
    ensures
        last_at(s) == k,
    decreases s.len(),
{
    if s.len() - 1 > k {
        assert(s.drop_last()[k] == s[k]);
        lemma_last_at_found(s.drop_last(), k);
    }
}

proof fn lemma_last_at_none(s: Seq<char>)
    requires
        forall|j: int| 0 <= j < s.len() ==> s[j] != '@',
    ensures
        last_at(s) == -1,
    decreases s.len(),
{
    if s.len() > 0 {
        lemma_last_at_none(s.drop_last());
    }
}

/// Index of the last `@` of `s`, scanning from the end.
fn find_last_at(s: &str) -> (r: Option<usize>)
    ensures
        match r {
            Some(i) => i == last_at(s@) && i < s@.len() && s@[i as int] == '@',
            None => last_at(s@) == -1,
        },
{
    let len = s.unicode_len();
    let mut i: usize = len;
    while i > 0
        invariant
            len == s@.len(),
            i <= len,
            forall|j: int| i <= j < len ==> s@[j] != '@',
        decreases i,
    {
        i -= 1;
        if s.get_char(i) == '@' {
            proof {
                lemma_last_at_found(s@, i as int);
            }
            return Some(i);
        }
    }
    proof {
        lemma_last_at_none(s@);
    }
    None
}

/// Determine if this email address is from a disposable email provider.
pub fn is_disposable(email: &str) -> (r: bool)
    ensures
        r == is_disposable_spec(email@),
{
    let len = email.unicode_len();
    let host = match find_last_at(email) {
        Some(i) => {
            proof {
                assert(email@.subrange(last_at(email@) + 1, email@.len() as int) == host_of(
                    email@,
                ));
            }
            email.substring_char(i + 1, len)
        },
        None => email,
    };
    str_equal(host, "memeil.top") || str_equal(host, "mailinator.com") || str_equal(
        host,
        "guerrillamail.com",
    ) || str_equal(host, "10minutemail.com") || str_equal(host, "temp-mail.org") || str_equal(
        host,
        "yopmail.com",
    ) || str_equal(host, "sharklasers.com") || str_equal(host, "dispostable.com")
}

/// Normalize an email address: trim it, lowercase its ASCII letters, and
/// apply the gmail dot-dropping rule to gmail addresses.
pub fn normalize(email: &str) -> (r: String)
    ensures
        r@ == normalize_spec(email@),
{
    let t = trim(email);
    let t_len = t.unicode_len();
    let is_gmail = match find_last_at(t) {
        Some(i) => {
            let host = t.substring_char(i + 1, t_len);
            proof {
                assert(host@ == host_of(t@));
            }
            if str_equal(host, "gmail.com") {
                Some(i)
            } else {
                None
            }
        },
        None => None,
    };
    match is_gmail {
        Some(at_idx) => {
            let user = t.substring_char(0, at_idx);
            let user_len = at_idx;
            let mut out = String::new();
            let mut i: usize = 0;
            while i < user_len
                invariant
                    user@ == t@.subrange(0, user_len as int),
                    user_len <= t@.len(),
                    i <= user_len,
                    out@ == strip_dots_lower(user@.subrange(0, i as int)),
                decreases user_len - i,
            {
                let c = t.get_char(i);
                proof {
                    assert(user@[i as int] == t@[i as int]);
                    assert(user@.subrange(0, i + 1).drop_last() =~= user@.subrange(0, i as int));
                }
                if c != '.' {
                    let lc = to_lower(c);
                    out.push(lc);
                    proof {
                        assert(out@ =~= strip_dots_lower(user@.subrange(0, i + 1)));
                    }
                } else {
                    proof {
                        assert(out@ =~= strip_dots_lower(user@.subrange(0, i + 1)));
                    }
                }
                i += 1;
            }
            proof {
                assert(user@.subrange(0, user_len as int) =~= user@);
            }
            out.append("@gmail.com");
            proof {
                assert(out@ == normalize_spec(email@));
            }
            out
        },
        None => {
            let s = ascii_lower(t);
            proof {
                assert(s@ == normalize_spec(email@));
            }
            s
        },
    }
}

} // verus!
