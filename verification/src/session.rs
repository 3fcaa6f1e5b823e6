//! Signed detached session container.
//!
//! A session envelope carries `(value, expires)` as plain bytes followed by
//! an HMAC-SHA256 tag over those bytes, rendered in base64 for transport.
//! The byte layout is: 8 bytes little-endian payload length, the payload
//! (8 bytes little-endian expiry seconds, then the value bytes), then the
//! tag. A well-formed cookie is decoded without any server round-trip;
//! callers still confirm the carried value against persistent state before
//! trusting it.

use crate::clock::{Instant, MAX_INSTANT_SECS};
use crate::crypto::{base64_decode, base64_encode, base64_of, hmac_sha256, hmac_sha256_of,
    hmac_sha256_verify};
use crate::errors::Error;
use crate::strutil::append_bytes;
use vstd::bytes::{lemma_auto_spec_u64_to_from_le_bytes, spec_u64_from_le_bytes,
    spec_u64_to_le_bytes, u64_from_le_bytes, u64_to_le_bytes};
use vstd::prelude::*;
use vstd::slice::{slice_subrange, slice_to_vec};

verus! {

/// The plain payload bytes of an envelope: the expiry then the value.
pub open spec fn payload_spec(value: Seq<u8>, expires: u64) -> Seq<u8> {
    spec_u64_to_le_bytes(expires) + value
}

/// The full envelope bytes: the payload length, the payload, and the
/// payload's tag under `key`.
pub open spec fn envelope_bytes_spec(value: Seq<u8>, expires: u64, key: Seq<u8>) -> Seq<u8> {
    spec_u64_to_le_bytes((value.len() + 8) as u64) + payload_spec(value, expires) + hmac_sha256_of(
        key,
        payload_spec(value, expires),
    )
}

/// What decoding envelope bytes under `key` yields: the carried value and
/// expiry, or the failure. Structure is checked first, then the tag.
pub open spec fn envelope_decode_spec(b: Seq<u8>, key: Seq<u8>) -> Result<(Seq<u8>, u64), Error> {
    if b.len() < 16 {
        Err(Error::Malformed)
    } else {
        let plen = spec_u64_from_le_bytes(b.subrange(0, 8)) as int;
        if plen < 8 || 8 + plen > b.len() {
            Err(Error::Malformed)
        } else {
            let payload = b.subrange(8, 8 + plen);
            let tag = b.subrange(8 + plen, b.len() as int);
            if tag != hmac_sha256_of(key, payload) {
                Err(Error::BadSignature)
            } else {
                let expires = spec_u64_from_le_bytes(payload.subrange(0, 8));
                if expires > MAX_INSTANT_SECS as u64 {
                    Err(Error::Malformed)
                } else {
                    Ok((payload.subrange(8, plen), expires))
                }
            }
        }
    }
}

/// Decoding with the expiry check applied at `now`.
pub open spec fn decode_spec(b: Seq<u8>, key: Seq<u8>, now: Instant) -> Result<Seq<u8>, Error> {
    match envelope_decode_spec(b, key) {
        Ok((value, expires)) => if now.secs > expires as i64 {
            Err(Error::Expired)
        } else {
            Ok(value)
        },
        Err(e) => Err(e),
    }
}

/// A session container: a value with an expiry instant, to be signed with
/// a process-wide key.
#[derive(Debug)]
pub struct Session {
    value: Vec<u8>,
    expires: Instant,
}

impl Session {
    /// The expiry is well formed and the value leaves room for the frame.
    pub closed spec fn wf(&self) -> bool {
        self.expires.wf() && self.value@.len() + 8 <= u64::MAX
    }

    /// The carried value bytes.
    pub closed spec fn spec_value(&self) -> Seq<u8> {
        self.value@
    }

    /// The expiry instant.
    pub closed spec fn spec_expires(&self) -> Instant {
        self.expires
    }

    /// Construct a new session.
    pub fn new(value: Vec<u8>, expires: Instant) -> (r: Self)
        requires
            expires.wf(),
            value@.len() + 8 <= u64::MAX,
        ensures
            r.spec_value() == value@,
            r.spec_expires() == expires,
            r.wf(),
    {
        Session { value, expires }
    }

    /// The carried value, if the session has not expired at `now`;
    /// `None` once `now` is past the expiry.
    pub fn value(self, now: Instant) -> (r: Option<Vec<u8>>)
        ensures
            now.secs <= self.spec_expires().secs ==> (r matches Some(v) && v@
                == self.spec_value()),
            now.secs > self.spec_expires().secs ==> r is None,
    {
        if now.secs <= self.expires.secs {
            Some(self.value)
        } else {
            None
        }
    }

    /// The signed base64 rendering of this session under `key`.
    pub fn base64(&self, key: &[u8]) -> (r: String)
        requires
            self.wf(),
        ensures
            r@ == base64_of(
                envelope_bytes_spec(self.spec_value(), self.spec_expires().secs as u64, key@),
            ),
    {
        let value_len = self.value.len();
        let mut payload = u64_to_le_bytes(self.expires.secs as u64);
        append_bytes(&mut payload, self.value.as_slice());
        proof {
            assert(payload@ =~= payload_spec(self.spec_value(), self.spec_expires().secs as u64));
        }
        let tag = hmac_sha256(key, payload.as_slice());
        let mut buf = u64_to_le_bytes(value_len as u64 + 8);
        append_bytes(&mut buf, payload.as_slice());
        append_bytes(&mut buf, tag.as_slice());
        proof {
            assert(buf@ =~= envelope_bytes_spec(
                self.spec_value(),
                self.spec_expires().secs as u64,
                key@,
            ));
        }
        base64_encode(buf.as_slice())
    }

    /// Decode a base64 session string under `key`, without the expiry
    /// check. For every byte string whose base64 rendering is the input,
    /// the result is exactly what decoding those bytes yields.
    pub fn from_base64(s: &str, key: &[u8]) -> (r: Result<Self, Error>)
        ensures
            match r {
                Ok(sess) => sess.wf() && forall|b: Seq<u8>|
                    s@ == base64_of(b) ==> envelope_decode_spec(b, key@) == Ok::<_, Error>(
                        (sess.spec_value(), sess.spec_expires().secs as u64),
                    ),
                Err(e) => (e == Error::Malformed || e == Error::BadSignature) && forall|b: Seq<u8>|
                    s@ == base64_of(b) ==> envelope_decode_spec(b, key@) == Err::<
                        (Seq<u8>, u64),
                        _,
                    >(e),
            },
    {
        let bytes = match base64_decode(s) {
            Ok(v) => v,
            Err(_) => {
                return Err(Error::Malformed);
            },
        };
        let len = bytes.len();
        if len < 16 {
            return Err(Error::Malformed);
        }
        let plen_u64 = u64_from_le_bytes(slice_subrange(bytes.as_slice(), 0, 8));
        if plen_u64 < 8 || plen_u64 > (len - 8) as u64 {
            return Err(Error::Malformed);
        }
        let plen = plen_u64 as usize;
        let payload = slice_subrange(bytes.as_slice(), 8, 8 + plen);
        let tag = slice_subrange(bytes.as_slice(), 8 + plen, len);
        if !hmac_sha256_verify(key, payload, tag) {
            return Err(Error::BadSignature);
        }
        let expires_u64 = u64_from_le_bytes(slice_subrange(payload, 0, 8));
        if expires_u64 > MAX_INSTANT_SECS as u64 {
            return Err(Error::Malformed);
        }
        let value = slice_to_vec(slice_subrange(payload, 8, plen));
        proof {
            let b = bytes@;
            let sp = b.subrange(8, 8 + plen as int);
            assert(payload@.subrange(0, 8) =~= sp.subrange(0, 8));
            assert(value@ =~= sp.subrange(8, plen as int));
        }
        Ok(Session { value, expires: Instant::from_secs(expires_u64 as i64) })
    }

    /// Byte-wise equality of value and expiry.
    pub fn same(&self, other: &Self) -> (r: bool)
        ensures
            r == (self.spec_value() == other.spec_value() && self.spec_expires()
                == other.spec_expires()),
    {
        if self.expires.secs != other.expires.secs {
            return false;
        }
        let a_len = self.value.len();
        let b_len = other.value.len();
        if a_len != b_len {
            proof {
                assert(self.spec_value() != other.spec_value());
            }
            return false;
        }
        let mut i: usize = 0;
        while i < a_len
            invariant
                a_len == self.value@.len(),
                a_len == other.value@.len(),
                i <= a_len,
                forall|k: int| 0 <= k < i ==> self.value@[k] == other.value@[k],
            decreases a_len - i,
    {
            if self.value[i] != other.value[i] {
                proof {
                    assert(self.spec_value() != other.spec_value());
                }
                return false;
            }
            i += 1;
        }
        proof {
            assert(self.spec_value() =~= other.spec_value());
        }
        true
    }
}

/// Decode a base64 session string and apply the expiry check at `now`:
/// the value comes back exactly when the envelope is intact, signed with
/// `key`, and not yet expired.
pub fn decode_session(s: &str, key: &[u8], now: Instant) -> (r: Result<Vec<u8>, Error>)
    ensures
        match r {
            Ok(v) => forall|b: Seq<u8>|
                s@ == base64_of(b) ==> decode_spec(b, key@, now) == Ok::<_, Error>(v@),
            Err(e) => forall|b: Seq<u8>|
                s@ == base64_of(b) ==> decode_spec(b, key@, now) == Err::<Seq<u8>, _>(e),
        },
{
    match Session::from_base64(s, key) {
        Ok(sess) => match sess.value(now) {
            Some(v) => Ok(v),
            None => Err(Error::Expired),
        },
        Err(e) => Err(e),
    }
}

/// Envelope round trip: decoding an encoded envelope under the same key
/// recovers exactly the carried value and expiry.
pub proof fn lemma_envelope_round_trip(value: Seq<u8>, expires: u64, key: Seq<u8>)
    requires
        expires <= MAX_INSTANT_SECS as u64,
        value.len() + 8 <= u64::MAX,
    ensures
        envelope_decode_spec(envelope_bytes_spec(value, expires, key), key) == Ok::<_, Error>(
            (value, expires),
        ),
{
    lemma_auto_spec_u64_to_from_le_bytes();
    let payload = payload_spec(value, expires);
    let b = envelope_bytes_spec(value, expires, key);
    let plen: int = value.len() as int + 8;
    assert(b.subrange(0, 8) =~= spec_u64_to_le_bytes(plen as u64));
    assert(b.subrange(8, 8 + plen) =~= payload);
    assert(b.subrange(8 + plen, b.len() as int) =~= hmac_sha256_of(key, payload));
    assert(payload.subrange(0, 8) =~= spec_u64_to_le_bytes(expires));
    assert(payload.subrange(8, plen) =~= value);
}

/// Decoding an envelope under a key whose tag for the payload differs
/// fails with `BadSignature`.
pub proof fn lemma_envelope_key_mismatch(
    value: Seq<u8>,
    expires: u64,
    key: Seq<u8>,
    other_key: Seq<u8>,
)
    requires
        value.len() + 8 <= u64::MAX,
        hmac_sha256_of(other_key, payload_spec(value, expires)) != hmac_sha256_of(
            key,
            payload_spec(value, expires),
        ),
    ensures
        envelope_decode_spec(envelope_bytes_spec(value, expires, key), other_key) == Err::<
            (Seq<u8>, u64),
            _,
        >(Error::BadSignature),
{
    lemma_auto_spec_u64_to_from_le_bytes();
    let payload = payload_spec(value, expires);
    let b = envelope_bytes_spec(value, expires, key);
    let plen: int = value.len() as int + 8;
    assert(b.subrange(0, 8) =~= spec_u64_to_le_bytes(plen as u64));
    assert(b.subrange(8, 8 + plen) =~= payload);
    assert(b.subrange(8 + plen, b.len() as int) =~= hmac_sha256_of(key, payload));
}

} // verus!
