//! Instants and the shared rate / quota policy constants.
//!
//! All timestamps are UTC, carried as whole seconds since the epoch. The
//! request clock is pinned once per request, so every operation takes the
//! pinned instant as an argument rather than reading a wall clock.

use vstd::prelude::*;

verus! {

/// Maximum number of invites a user without the unlimited-invites
/// capability may create in total.
pub const MAX_INVITES_PER_USER: u64 = 3;

/// Maximum number of logins a single user may request per rolling hour.
pub const LOGIN_LIMIT_PER_HOUR: u64 = 3;

/// Seconds a pending login stays claimable.
pub const LOGIN_CLAIM_WINDOW_SECS: i64 = 3600;

/// Sliding session validity window, in seconds (90 days).
pub const SESSION_SLIDING_TTL_SECS: i64 = 7776000;

/// One hour, in seconds: the rolling window of the login rate limit.
pub const LOGIN_RATE_WINDOW_SECS: i64 = 3600;

/// Length of the one-shot token sent by email.
pub const EMAIL_TOKEN_LEN: usize = 12;

/// Length of the long-lived session token.
pub const SESSION_TOKEN_LEN: usize = 64;

/// Length of the single-use invitation token.
pub const INVITE_TOKEN_LEN: usize = 32;

/// Largest second count an instant may carry; far beyond any plausible
/// wall-clock value, and small enough that adding any policy window to an
/// instant can never overflow an `i64`.
pub const MAX_INSTANT_SECS: i64 = 100000000000;

/// Largest second count a request clock may carry: it leaves more than
/// thirty years of headroom below [`MAX_INSTANT_SECS`], so adding any
/// policy window to a request instant stays a well-formed instant.
pub const MAX_NOW_SECS: i64 = 99000000000;

/// A UTC timestamp in whole seconds since the epoch.
#[derive(Debug, Clone, Copy, PartialEq, Eq, Structural)]
pub struct Instant {
    pub secs: i64,
}

impl Instant {
    /// An instant carries a non-negative, bounded second count.
    pub open spec fn wf(self) -> bool {
        0 <= self.secs <= MAX_INSTANT_SECS
    }

    /// A request clock additionally leaves headroom for every policy
    /// window: operations that compute deadlines require this of `now`.
    pub open spec fn wf_clock(self) -> bool {
        0 <= self.secs <= MAX_NOW_SECS
    }

    /// Build an instant from a second count.
    pub fn from_secs(secs: i64) -> (r: Self)
        requires
            0 <= secs <= MAX_INSTANT_SECS,
        ensures
            r.secs == secs,
            r.wf(),
    {
        Instant { secs }
    }

    /// True when `self` is no later than `other`.
    pub fn le(&self, other: &Instant) -> (r: bool)
        ensures
            r == (self.secs <= other.secs),
    {
        self.secs <= other.secs
    }

    /// True when `self` is strictly before `other`.
    pub fn lt(&self, other: &Instant) -> (r: bool)
        ensures
            r == (self.secs < other.secs),
    {
        self.secs < other.secs
    }

    /// The instant `delta` seconds later.
    pub fn plus(&self, delta: i64) -> (r: Instant)
        requires
            self.wf(),
            0 <= delta,
            self.secs + delta <= MAX_INSTANT_SECS,
        ensures
            r.secs == self.secs + delta,
            r.wf(),
    {
        Instant { secs: self.secs + delta }
    }
}

} // verus!
