//! Email heuristics: disposable providers and normalisation.

use urls_core::is_disposable;
use urls_core::normalize;

#[test]
fn basic_smoke_test_disposable() {
    assert_eq!(is_disposable("fridraraho@memeil.top"), true);
    assert_eq!(is_disposable("peter.parker@gmail.com"), false);
}

#[test]
fn basic_smoke_test_normalize() {
    assert_eq!(
        normalize("peter.parker@gmail.com"),
        normalize("PeterParker@gmail.com")
    );
}

#[test]
fn normalize_trims_and_lowercases() {
    assert_eq!(normalize("  Somebody@Example.COM \n"), "somebody@example.com");
    assert_eq!(normalize("plain"), "plain");
}

#[test]
fn normalize_gmail_drops_dots() {
    assert_eq!(normalize("a.b.c@gmail.com"), "abc@gmail.com");
    assert_eq!(normalize("Mixed.Case@gmail.com"), "mixedcase@gmail.com");
    assert_eq!(normalize("dots@other.com"), "dots@other.com");
}

#[test]
fn normalize_lowers_ascii_in_non_ascii_addresses() {
    assert_eq!(normalize(" Ünser.Mann@Example.com "), "Ünser.mann@example.com");
    assert_eq!(normalize("Ü.Ser@gmail.com"), "Üser@gmail.com");
}

#[test]
fn bare_host_counts_as_host() {
    assert_eq!(is_disposable("memeil.top"), true);
    assert_eq!(is_disposable("example.org"), false);
}
