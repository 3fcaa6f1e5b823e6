//! Slugs derived from titles and stored URLs.

use urls_core::Instant;
use urls_core::Url;
use urls_core::UrlID;
use urls_core::UserID;

#[test]
fn test_slug() {
    // 2022-10-15 16:05:00 UTC, as seconds since the epoch.
    let date = Instant::from_secs(1665849900);
    let url = Url {
        id: UrlID::new(),
        created_at: date,
        updated_at: date,
        url: "https://urls.fyi/error/404".into(),
        status_code: 404,
        title: Some("404 :: Page Not Found".into()),
        description: None,
        image: None,
        created_by: UserID::new(),
    };
    assert_eq!(url.slug().unwrap(), "404-page-not-found");
    let url = Url { title: None, ..url };
    assert_eq!(url.slug().unwrap(), "urls-fyi-error-404");
    let url = Url {
        url: "https://tilman.dev/".into(),
        ..url
    };
    assert_eq!(url.slug().unwrap(), "tilman-dev");
}

#[test]
fn slugify_joins_and_lowercases() {
    assert_eq!(urls_core::slugify("Hello, World!"), "hello-world");
    assert_eq!(urls_core::slugify("  "), "");
    assert_eq!(urls_core::slugify("a--b"), "a-b");
}
