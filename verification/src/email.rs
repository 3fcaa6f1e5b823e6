//! The login email message.
//!
//! The body carries the email token as its only 12-character
//! whitespace-delimited token; the surrounding text is fixed. Sending is
//! left to the mail transport around the library.

use vstd::prelude::*;
use vstd::string::StringExecFns;

verus! {

/// The subject line of a login email.
pub open spec fn login_email_subject_spec() -> Seq<char> {
    "Login request"@
}

/// The body of a login email for the given address and token.
pub open spec fn login_email_body_spec(email: Seq<char>, token: Seq<char>) -> Seq<char> {
    "A login code was requested for your account ("@ + email
        + ").\n\nCode: "@ + token
        + "\n\nIf you did not request the code, you may safely ignore this email."@
}

/// A plain email message, ready for whatever transport surrounds the
/// library.
#[derive(Debug)]
pub struct EmailMessage {
    pub to_name: String,
    pub to_email: String,
    pub subject: String,
    pub body: String,
}

/// The subject line of a login email.
pub fn login_email_subject() -> (r: &'static str)
    ensures
        r@ == login_email_subject_spec(),
{
    "Login request"
}

/// Compose the body of a login email.
pub fn login_email_body(email: &str, token: &str) -> (r: String)
    ensures
        r@ == login_email_body_spec(email@, token@),
{
    let mut s = String::new();
    s.append("A login code was requested for your account (");
    s.append(email);
    s.append(").\n\nCode: ");
    s.append(token);
    s.append("\n\nIf you did not request the code, you may safely ignore this email.");
    s
}

} // verus!
