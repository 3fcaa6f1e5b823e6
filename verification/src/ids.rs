//! Typed opaque identifiers.
//!
//! An identifier is a 21-character string over the URL-safe 64-symbol
//! alphabet, tagged at compile time by a kind so that identifiers of
//! different entities are not interchangeable. Parsing accepts exactly the
//! strings of the right length whose every character is in the alphabet.

use crate::random::{random_safe_token, safe_alphabet, safe_alphabet_str};
use vstd::prelude::*;

verus! {

/// Character length of every identifier.
pub const ID_LEN: usize = 21;

/// True when `s` has exactly [`ID_LEN`] characters, all drawn from the
/// URL-safe alphabet: exactly the strings [`ID::parse`] accepts.
pub open spec fn valid_id_chars(s: Seq<char>) -> bool {
    &&& s.len() == ID_LEN
    &&& forall|i: int| 0 <= i < s.len() ==> safe_alphabet().contains(#[trigger] s[i])
}

/// What parsing a string as an identifier yields: the same characters when
/// they form a valid identifier, and `InvalidId` otherwise.
pub open spec fn parse_spec(s: Seq<char>) -> Result<Seq<char>, crate::Error> {
    if valid_id_chars(s) {
        Ok(s)
    } else {
        Err(crate::Error::InvalidId)
    }
}

/// A typed random identifier: 21 URL-safe characters, tagged by `KIND`.
#[derive(Debug)]
pub struct ID<const KIND: u64> {
    s: String,
}

impl<const KIND: u64> View for ID<KIND> {
    type V = Seq<char>;

    closed spec fn view(&self) -> Seq<char> {
        self.s@
    }
}

impl<const KIND: u64> ID<KIND> {
    /// Every identifier value satisfies this; constructors establish it.
    pub open spec fn wf(&self) -> bool {
        valid_id_chars(self@)
    }

    /// Generate a fresh random identifier.
    pub fn new() -> (r: Self)
        ensures
            r.wf(),
    {
        let s = random_safe_token(ID_LEN);
        ID { s }
    }

    /// Parse an identifier from a string. Succeeds exactly when the string
    /// has 21 characters, all from the URL-safe alphabet.
    pub fn parse(s: &str) -> (r: Result<Self, crate::Error>)
        ensures
            match r {
                Ok(id) => parse_spec(s@) == Ok::<_, crate::Error>(id@) && id.wf(),
                Err(e) => parse_spec(s@) == Err::<Seq<char>, _>(e),
            },
    {
        let len = s.unicode_len();
        if len != ID_LEN {
            return Err(crate::Error::InvalidId);
        }
        let alphabet = safe_alphabet_str();
        let alpha_len = alphabet.unicode_len();
        let mut i: usize = 0;
        while i < len
            invariant
                len == s@.len(),
                len == ID_LEN,
                alphabet@ == safe_alphabet(),
                alpha_len == alphabet@.len(),
                i <= len,
                forall|k: int| 0 <= k < i ==> safe_alphabet().contains(#[trigger] s@[k]),
            decreases len - i,
        {
            let c = s.get_char(i);
            let mut found = false;
            let mut j: usize = 0;
            while j < alpha_len
                invariant
                    alphabet@ == safe_alphabet(),
                    alpha_len == alphabet@.len(),
                    j <= alpha_len,
                    c == s@[i as int],
                    i < s@.len(),
                    found == exists|k: int| 0 <= k < j && alphabet@[k] == c,
                decreases alpha_len - j,
            {
                if alphabet.get_char(j) == c {
                    found = true;
                }
                j += 1;
            }
            if !found {
                proof {
                    assert(!safe_alphabet().contains(s@[i as int]));
                }
                return Err(crate::Error::InvalidId);
            }
            i += 1;
        }
        Ok(ID { s: s.to_owned() })
    }

    /// The identifier as a string slice.
    pub fn as_str(&self) -> (r: &str)
        ensures
            r@ == self@,
    {
        self.s.as_str()
    }

    /// The kind tag of this identifier type.
    pub fn kind() -> (r: u64)
        ensures
            r == KIND,
    {
        KIND
    }

    /// Identifier equality, character for character.
    pub fn same(&self, other: &Self) -> (r: bool)
        ensures
            r == (self@ == other@),
    {
        self.s == other.s
    }

    /// A copy of this identifier.
    pub fn duplicate(&self) -> (r: Self)
        ensures
            r@ == self@,
    {
        ID { s: self.s.clone() }
    }
}

/// Round trip: rendering an identifier and parsing the result back yields
/// exactly the same characters. Every well-formed identifier — in
/// particular every freshly generated one — survives the trip, and parsing
/// succeeds precisely on the well-formed character sequences.
pub proof fn lemma_id_round_trip(s: Seq<char>)
    requires
        valid_id_chars(s),
    ensures
        parse_spec(s) == Ok::<_, crate::Error>(s),
{
}

/// Identifies a user account.
pub type UserID = ID<0>;

/// Identifies a login attempt / session row.
pub type LoginID = ID<1>;

/// Identifies a role grant.
pub type RoleID = ID<2>;

/// Identifies an invitation.
pub type InviteID = ID<3>;

/// Identifies a submitted URL.
pub type UrlID = ID<4>;

/// Identifies a comment.
pub type CommentID = ID<5>;

} // verus!
