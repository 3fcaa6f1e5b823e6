//! Resolved configuration values.
//!
//! The surrounding process reads the environment and hands the resolved
//! values in; the core only consumes them. When no session key is
//! supplied, the process generates a random one, which invalidates all
//! sessions across restarts.

use crate::clock::SESSION_TOKEN_LEN;
use crate::random::random_safe_token;
use vstd::prelude::*;
use vstd::string::StrSliceExecFns;

verus! {

/// The default SMTP submission port.
pub const DEFAULT_SMTP_PORT: u16 = 587;

/// SMTP host and credentials.
#[derive(Debug)]
pub struct SmtpConfig {
    pub smtp_host: String,
    pub smtp_port: Option<u16>,
    pub smtp_user: String,
    pub smtp_password: String,
}

/// Resolved application configuration.
#[derive(Debug)]
pub struct Config {
    pub database_url: String,
    pub www_dir: String,
    pub session_key: Vec<u8>,
    pub host_name: String,
    pub smtp_config: Option<SmtpConfig>,
}

impl SmtpConfig {
    /// The SMTP server host.
    pub fn host(&self) -> (r: &str)
        ensures
            r@ == self.smtp_host@,
    {
        self.smtp_host.as_str()
    }

    /// The SMTP port, defaulting to the submission port.
    pub fn port(&self) -> (r: u16)
        ensures
            r == match self.smtp_port {
                Some(p) => p,
                None => DEFAULT_SMTP_PORT,
            },
    {
        match self.smtp_port {
            Some(p) => p,
            None => DEFAULT_SMTP_PORT,
        }
    }

    /// The SMTP user name.
    pub fn user(&self) -> (r: &str)
        ensures
            r@ == self.smtp_user@,
    {
        self.smtp_user.as_str()
    }

    /// The SMTP password.
    pub fn password(&self) -> (r: &str)
        ensures
            r@ == self.smtp_password@,
    {
        self.smtp_password.as_str()
    }
}

/// Whether the database URL carries the `file:` prefix.
pub open spec fn has_file_prefix(s: Seq<char>) -> bool {
    s.len() >= 5 && s.subrange(0, 5) == "file:"@
}

/// The file path inside a database URL: what stands between a `file:`
/// prefix and the first `?`, or the whole URL without the prefix.
pub open spec fn database_file_spec(s: Seq<char>) -> Seq<char> {
    if has_file_prefix(s) {
        let tail = s.subrange(5, s.len() as int);
        let q = crate::url_canon::first_char_from(tail, 0, '?');
        if q == -1 {
            tail
        } else {
            tail.subrange(0, q)
        }
    } else {
        s
    }
}

impl Config {
    /// The database URL.
    pub fn database(&self) -> (r: &str)
        ensures
            r@ == self.database_url@,
    {
        self.database_url.as_str()
    }

    /// The database file behind the database URL.
    pub fn database_file(&self) -> (r: &str)
        ensures
            r@ == database_file_spec(self.database_url@),
    {
        let uri = self.database_url.as_str();
        let len = uri.unicode_len();
        proof {
            reveal_strlit("file:");
        }
        if len < 5 {
            proof {
                assert(!has_file_prefix(uri@));
            }
            return uri;
        }
        let prefix = uri.substring_char(0, 5);
        if !crate::strutil::str_equal(prefix, "file:") {
            proof {
                assert(uri@.subrange(0, 5) != "file:"@);
            }
            return uri;
        }
        let tail = uri.substring_char(5, len);
        let tail_len = len - 5;
        let mut i: usize = 0;
        while i < tail_len
            invariant
                tail_len == tail@.len(),
                has_file_prefix(self.database_url@),
                tail@ == self.database_url@.subrange(5, self.database_url@.len() as int),
                i <= tail_len,
                forall|j: int| 0 <= j < i ==> tail@[j] != '?',
            decreases tail_len - i,
        {
            if tail.get_char(i) == '?' {
                proof {
                    crate::url_canon::lemma_first_char_found(tail@, 0, '?', i as int);
                }
                return tail.substring_char(0, i);
            }
            i += 1;
        }
        proof {
            crate::url_canon::lemma_first_char_none(tail@, 0, '?');
        }
        tail
    }

    /// The directory to serve static files from.
    pub fn www(&self) -> (r: &str)
        ensures
            r@ == self.www_dir@,
    {
        self.www_dir.as_str()
    }

    /// The SMTP configuration, when one was supplied.
    pub fn smtp(&self) -> (r: &Option<SmtpConfig>)
        ensures
            r == &self.smtp_config,
    {
        &self.smtp_config
    }

    /// The key that signs session envelopes.
    pub fn session_key(&self) -> (r: &[u8])
        ensures
            r@ == self.session_key@,
    {
        self.session_key.as_slice()
    }

    /// The host name used in API responses and links.
    pub fn hostname(&self) -> (r: &str)
        ensures
            r@ == self.host_name@,
    {
        self.host_name.as_str()
    }
}

/// A fresh random session key, used when the operator supplies none.
pub fn random_session_key() -> (r: Vec<u8>)
    ensures
        r@.len() == SESSION_TOKEN_LEN,
{
    let s = random_safe_token(SESSION_TOKEN_LEN);
    let slice = s.as_str();
    let v = slice.as_bytes_vec();
    proof {
        vstd::string::is_ascii_spec_bytes(slice);
    }
    v
}

} // verus!
