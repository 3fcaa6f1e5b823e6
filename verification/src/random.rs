//! Random token generation.
//!
//! Every secret the trust plane mints (identifiers, email tokens, session
//! tokens, invite tokens, XSRF tokens) is a fixed-length string over a fixed
//! ASCII alphabet, produced by a CSPRNG. Nothing can be promised about which
//! string comes back, so the contract states only the length and the
//! alphabet.

use vstd::prelude::*;

verus! {

/// The URL-safe 64-symbol alphabet used for identifiers and session tokens.
pub open spec fn safe_alphabet() -> Seq<char> {
    "_-0123456789abcdefghijklmnopqrstuvwxyzABCDEFGHIJKLMNOPQRSTUVWXYZ"@
}

/// The 62-symbol alphanumeric alphabet used for email and invite tokens.
pub open spec fn alnum_alphabet() -> Seq<char> {
    "1234567890abcdefghijklmnopqrstuvwxyzABCDEFGHIJKLMNOPQRSTUVWXYZ"@
}

/// The URL-safe alphabet as a string slice.
pub fn safe_alphabet_str() -> (r: &'static str)
    ensures
        r@ == safe_alphabet(),
        r.is_ascii(),
{
    let s = "_-0123456789abcdefghijklmnopqrstuvwxyzABCDEFGHIJKLMNOPQRSTUVWXYZ";
    proof {
        reveal_strlit("_-0123456789abcdefghijklmnopqrstuvwxyzABCDEFGHIJKLMNOPQRSTUVWXYZ");
    }
    s
}

/// The alphanumeric alphabet as a string slice.
pub fn alnum_alphabet_str() -> (r: &'static str)
    ensures
        r@ == alnum_alphabet(),
        r.is_ascii(),
{
    let s = "1234567890abcdefghijklmnopqrstuvwxyzABCDEFGHIJKLMNOPQRSTUVWXYZ";
    proof {
        reveal_strlit("1234567890abcdefghijklmnopqrstuvwxyzABCDEFGHIJKLMNOPQRSTUVWXYZ");
    }
    s
}

/// Relies on `nanoid::format` with `nanoid::rngs::default`: a fresh random
/// string of exactly `len` symbols, each drawn from `alphabet`. The
/// generator draws `8 * len / 5` bytes per round for an alphabet whose
/// size is not a power of two, so a zero length would make it loop
/// forever; the callers always ask for at least one symbol.
#[verifier::external_body]
fn random_string(alphabet: &str, len: usize) -> (r: String)
    requires
        1 <= len,
        alphabet.is_ascii(),
        1 <= alphabet@.len() <= 255,
    ensures
        r@.len() == len as nat,
        forall|i: int| 0 <= i < r@.len() ==> alphabet@.contains(#[trigger] r@[i]),
        r.is_ascii(),
{
    let chars: Vec<char> = alphabet.chars().collect();
    nanoid::format(nanoid::rngs::default, &chars, len)
}

/// A fresh random token of `len` symbols over the URL-safe alphabet.
pub fn random_safe_token(len: usize) -> (r: String)
    requires
        1 <= len,
    ensures
        r@.len() == len as nat,
        forall|i: int| 0 <= i < r@.len() ==> safe_alphabet().contains(#[trigger] r@[i]),
        r.is_ascii(),
{
    let alphabet = safe_alphabet_str();
    proof {
        reveal_strlit("_-0123456789abcdefghijklmnopqrstuvwxyzABCDEFGHIJKLMNOPQRSTUVWXYZ");
    }
    random_string(alphabet, len)
}

/// A fresh random token of `len` symbols over the alphanumeric alphabet.
pub fn random_alnum_token(len: usize) -> (r: String)
    requires
        1 <= len,
    ensures
        r@.len() == len as nat,
        forall|i: int| 0 <= i < r@.len() ==> alnum_alphabet().contains(#[trigger] r@[i]),
        r.is_ascii(),
{
    let alphabet = alnum_alphabet_str();
    proof {
        reveal_strlit("1234567890abcdefghijklmnopqrstuvwxyzABCDEFGHIJKLMNOPQRSTUVWXYZ");
    }
    random_string(alphabet, len)
}

} // verus!
