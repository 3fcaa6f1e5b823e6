//! Trusted bindings to the HMAC-SHA256 and base64 implementations.
//!
//! The MAC value and the base64 image are functions of their inputs alone;
//! they are given names here, and everything the library proves about
//! envelopes goes through those names.

use base64::Engine;
use hmac::KeyInit;
use hmac::Mac;
use vstd::prelude::*;

verus! {

/// The HMAC-SHA256 tag of `msg` under `key`.
pub uninterp spec fn hmac_sha256_of(key: Seq<u8>, msg: Seq<u8>) -> Seq<u8>;

/// The standard (padded) base64 rendering of `b`.
pub uninterp spec fn base64_of(b: Seq<u8>) -> Seq<char>;

/// Relies on `hmac::Hmac<sha2::Sha256>`: the tag is a function of key and
/// message alone and is 32 bytes long.
#[verifier::external_body]
pub fn hmac_sha256(key: &[u8], msg: &[u8]) -> (r: Vec<u8>)
    ensures
        r@ == hmac_sha256_of(key@, msg@),
        r@.len() == 32,
{
    let mut mac = hmac::Hmac::<sha2::Sha256>::new_from_slice(key)
        .expect("HMAC accepts keys of any length");
    mac.update(msg);
    mac.finalize().into_bytes().to_vec()
}

/// Relies on `hmac::Hmac<sha2::Sha256>` and its constant-time
/// `verify_slice`: verification succeeds exactly when `tag` equals the
/// HMAC-SHA256 tag of `msg` under `key`.
#[verifier::external_body]
pub fn hmac_sha256_verify(key: &[u8], msg: &[u8], tag: &[u8]) -> (r: bool)
    ensures
        r == (tag@ == hmac_sha256_of(key@, msg@)),
{
    let mut mac = hmac::Hmac::<sha2::Sha256>::new_from_slice(key)
        .expect("HMAC accepts keys of any length");
    mac.update(msg);
    mac.verify_slice(tag).is_ok()
}

/// Relies on `base64::engine::general_purpose::STANDARD.encode`: the
/// padded standard rendering of the input bytes.
#[verifier::external_body]
pub fn base64_encode(b: &[u8]) -> (r: String)
    ensures
        r@ == base64_of(b@),
{
    base64::engine::general_purpose::STANDARD.encode(b)
}

/// Relies on `base64::engine::general_purpose::STANDARD.decode`: decoding
/// inverts encoding, and every canonical rendering decodes successfully.
#[verifier::external_body]
pub fn base64_decode(s: &str) -> (r: Result<Vec<u8>, crate::Error>)
    ensures
        match r {
            Ok(v) => forall|b: Seq<u8>| s@ == base64_of(b) ==> v@ == b,
            Err(e) => e == crate::Error::Malformed && forall|b: Seq<u8>| s@ != base64_of(b),
        },
{
    match base64::engine::general_purpose::STANDARD.decode(s) {
        Ok(v) => Ok(v),
        Err(_) => Err(crate::Error::Malformed),
    }
}

} // verus!
