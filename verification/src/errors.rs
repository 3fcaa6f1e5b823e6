//! Error kinds surfaced by the trust-plane operations.

use vstd::prelude::*;

verus! {

/// Every failure a trust-plane operation can report.
#[derive(Debug, Clone, Copy, PartialEq, Eq, Structural)]
pub enum Error {
    /// A string failed to parse as a typed identifier.
    InvalidId,
    /// An input value failed validation (empty name, bad email, bad URL).
    InvalidInput,
    /// The operation needs a logged-in user and the context is anonymous.
    NotAuthenticated,
    /// No role of the user satisfies the required capability.
    NotAuthorized,
    /// A state-changing request did not carry a matching XSRF token.
    XsrfMismatch,
    /// Too many login requests for this user within the last hour.
    LoginRateLimited,
    /// The user has reached the invite quota and lacks the
    /// unlimited-invites capability.
    QuotaExceeded,
    /// The login or invite was already claimed.
    AlreadyClaimed,
    /// The claim window of a pending login has passed.
    Expired,
    /// The submitted email token does not match the login's token.
    InvalidToken,
    /// The session's sliding window has elapsed.
    SessionExpired,
    /// The session was explicitly revoked.
    SessionRevoked,
    /// The login was never claimed, so it has no session yet.
    SessionPending,
    /// No login carries the presented session token.
    SessionNotFound,
    /// A URL with the same canonical form was already submitted.
    DuplicateUrl,
    /// Fetching the submitted URL returned the carried non-success status.
    FetchFailed(u16),
    /// A session envelope failed to decode.
    Malformed,
    /// A session envelope's signature failed verification.
    BadSignature,
    /// A storage or collaborator failure.
    Internal,
}

/// Outcome classes the page layer renders: each maps to a status class.
#[derive(Debug, Clone, Copy, PartialEq, Eq, Structural)]
pub enum ServerError {
    /// Storage or collaborator failure, rendered as a 500-class page.
    Internal,
    /// Missing object, rendered as a 404 page.
    NotFound,
    /// Client-caused failure, rendered as a 400-class page.
    Request,
}

/// Coerce any operation error to a 404 not-found page outcome.
pub fn not_found(error: &Error) -> (r: ServerError)
    ensures
        r == ServerError::NotFound,
{
    let _ = error;
    ServerError::NotFound
}

/// Coerce any operation error to a 400 bad-request page outcome.
pub fn request(error: &Error) -> (r: ServerError)
    ensures
        r == ServerError::Request,
{
    let _ = error;
    ServerError::Request
}

} // verus!
