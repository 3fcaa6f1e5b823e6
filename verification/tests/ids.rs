//! Typed identifier behaviour: generation, parsing, rendering.

use urls_core::Error;
use urls_core::ID;

type TestID = ID<0>;

#[test]
fn generate_ids() {
    let a = TestID::new();
    let b = TestID::new();

    assert!(!a.same(&b));
}

#[test]
fn from_str() {
    let raw = TestID::new().as_str().to_string();
    let big = "a".repeat(100);
    let small = "a".to_string();

    assert!(TestID::parse(raw.as_str()).is_ok());
    assert!(TestID::parse(big.as_str()).is_err());
    assert!(TestID::parse(small.as_str()).is_err());
}

#[test]
fn to_str() {
    let before = TestID::new();
    let raw = before.as_str().to_string();
    let after = TestID::parse(raw.as_str()).unwrap();

    assert!(before.same(&after));
}

#[test]
fn parse_accepts_only_the_alphabet() {
    assert!(TestID::parse("abcdefghijklmnopqrstu").is_ok());
    assert!(TestID::parse("abcdefghijklmnopqrst!").is_err());
    assert!(TestID::parse("abcdefghij klmnopqrst").is_err());
    assert!(matches!(TestID::parse(""), Err(Error::InvalidId)));
}

#[test]
fn kind_tags_are_distinct() {
    assert_eq!(ID::<0>::kind(), 0);
    assert_eq!(ID::<4>::kind(), 4);
}
