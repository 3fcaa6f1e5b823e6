//! Signed session envelopes: round trips, tampering, expiry.

use urls_core::decode_session;
use urls_core::Error;
use urls_core::Instant;
use urls_core::Session;

const KEY: &[u8] = b"my super secret test key";

#[test]
fn basic_session() {
    let now = Instant::from_secs(1700000000);
    let sess = Session::new(b"hello world".to_vec(), now);
    let token: String = sess.base64(KEY);
    let sess2: Session = Session::from_base64(&token, KEY).unwrap();
    let again = Session::new(b"hello world".to_vec(), now);
    assert!(again.same(&sess2));
}

#[test]
fn basic_bad_session() {
    let now = Instant::from_secs(1700000000);
    let sess = Session::new(b"hello world".to_vec(), now);
    let token = sess.base64(KEY);
    let sess2: Result<Session, Error> = Session::from_base64(&token[1..], KEY);
    assert!(sess2.is_err());
}

#[test]
fn test_different_keys() {
    let now = Instant::from_secs(1700000000);
    let sess = Session::new(b"hello world".to_vec(), now);
    let token1 = sess.base64(b"hello world");
    let token2 = sess.base64(b"hallo Welt");
    assert_ne!(token1, token2);
}

#[test]
fn session_expires() {
    let now = Instant::from_secs(1700000000);
    let expired = Session::new(b"expired".to_vec(), Instant::from_secs(1700000000 - 60));
    let valid = Session::new(b"valid".to_vec(), Instant::from_secs(1700000000 + 60));

    assert_eq!(None, expired.value(now));
    assert_eq!(Some(b"valid".to_vec()), valid.value(now));
}

#[test]
fn wrong_key_fails_signature() {
    let now = Instant::from_secs(1700000000);
    let sess = Session::new(b"hello world".to_vec(), now);
    let token = sess.base64(KEY);
    let r = Session::from_base64(&token, b"another key entirely");
    assert!(matches!(r, Err(Error::BadSignature)));
}

#[test]
fn garbage_is_malformed() {
    let r = Session::from_base64("%%%not-base64%%%", KEY);
    assert!(matches!(r, Err(Error::Malformed)));
    let r2 = Session::from_base64("AAAA", KEY);
    assert!(matches!(r2, Err(Error::Malformed)));
}

#[test]
fn decode_applies_expiry() {
    let now = Instant::from_secs(1700000000);
    let sess = Session::new(b"user".to_vec(), now);
    let token = sess.base64(KEY);
    let before = decode_session(&token, KEY, Instant::from_secs(1700000000 - 1));
    assert_eq!(before.unwrap(), b"user".to_vec());
    let after = decode_session(&token, KEY, Instant::from_secs(1700000000 + 1));
    assert!(matches!(after, Err(Error::Expired)));
}
