//! URL canonicalisation: tracking parameters, schemes, idempotence.

use urls_core::canonicalize;
use urls_core::Error;

#[test]
fn test_canonicalize() {
    let pairs = [
        (
            "https://urls.fyi/?utm_source=google&utm_campaign=test&allowed&other=test",
            "https://urls.fyi/?allowed&other=test",
        ),
        (
            "https://urls.fyi/no-other-params?utm_medium=cpc&utm_content=textlink&utm_term=running+shoes",
            "https://urls.fyi/no-other-params",
        ),
        (
            "https://urls.fyi/no-proto?other_test=&utm_medium=cpc&utm_content=text",
            "https://urls.fyi/no-proto?other_test",
        ),
        (
            "https://www.youtube.com/watch?v=XXX&t=200s",
            "https://www.youtube.com/watch?v=XXX",
        ),
        (
            "https://www.youtube.com/watch?v=XXX&t=200s",
            "https://www.youtube.com/watch?v=XXX",
        ),
        ("https://youtu.be/YYY?t=200", "https://youtu.be/YYY"),
    ];
    for (raw, clean) in pairs {
        assert_eq!(clean, canonicalize(raw).unwrap());
    }
}

#[test]
fn scheme_defaults_to_https() {
    assert_eq!(canonicalize("urls.fyi/path").unwrap(), "https://urls.fyi/path");
    assert_eq!(canonicalize("http://urls.fyi/path").unwrap(), "http://urls.fyi/path");
}

#[test]
fn empty_authority_is_rejected() {
    assert!(matches!(canonicalize(""), Err(Error::InvalidInput)));
    assert!(matches!(canonicalize("https:///path"), Err(Error::InvalidInput)));
}

#[test]
fn twitter_share_tag_is_dropped() {
    assert_eq!(
        canonicalize("https://twitter.com/some/status?s=20&x=1").unwrap(),
        "https://twitter.com/some/status?x=1"
    );
    assert_eq!(
        canonicalize("https://example.com/some?s=20").unwrap(),
        "https://example.com/some?s=20"
    );
}

#[test]
fn canonicalize_is_idempotent_on_samples() {
    let samples = [
        "https://urls.fyi/?utm_source=google&utm_campaign=test&allowed&other=test",
        "https://youtu.be/YYY?t=200",
        "urls.fyi",
        "https://user@host:8080/p/q?a=b&c",
        "https://urls.fyi/no-proto?other_test=&utm_medium=cpc",
    ];
    for raw in samples {
        let once = canonicalize(raw).unwrap();
        let twice = canonicalize(&once).unwrap();
        assert_eq!(once, twice);
    }
}

#[test]
fn bare_host_gets_root_path() {
    assert_eq!(canonicalize("https://urls.fyi").unwrap(), "https://urls.fyi/");
    assert_eq!(canonicalize("https://urls.fyi?utm_source=x").unwrap(), "https://urls.fyi/");
}
