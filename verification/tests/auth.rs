use axum::http::header::AUTHORIZATION;
use axum::http::{HeaderMap, HeaderValue};
use qqh::auth::{accepts, bearer, check};

fn with_value(value: &[u8]) -> HeaderMap {
    let mut header = HeaderMap::new();
    header.insert(AUTHORIZATION, HeaderValue::from_bytes(value).unwrap());
    header
}

fn passes(value: &str, password: &str) -> bool {
    check(with_value(value.as_bytes()), password).is_ok()
}

#[test]
fn the_password_is_let_through() {
    assert!(passes("Bearer secret", "secret"));
}

#[test]
fn blanks_around_the_password_do_not_matter() {
    assert!(passes("Bearer   \tsecret \t ", "secret"));
    assert!(passes("Bearer two words", "two words"));
}

#[test]
fn another_password_is_refused_in_words() {
    let error = check(with_value(b"Bearer guess"), "secret").unwrap_err();
    assert_eq!(error.0, "Wrong password!");
    assert!(!passes("Bearer secre", "secret"));
    assert!(!passes("Bearer secrets", "secret"));
    assert!(!passes("Bearer Secret", "secret"));
}

#[test]
fn the_prefix_must_be_there() {
    assert!(!passes("secret", "secret"));
    assert!(!passes("bearer secret", "secret"));
    assert!(!passes("Bearer", ""));
    assert!(!passes("Bearersecret", "secret"));
    assert!(!passes(" Bearer secret", "secret"));
    assert!(!passes("Basic secret", "secret"));
}

#[test]
fn a_missing_header_is_refused() {
    assert!(check(HeaderMap::new(), "secret").is_err());
    assert!(check(HeaderMap::new(), "").is_err());
}

#[test]
fn an_empty_password_must_be_presented() {
    assert!(passes("Bearer ", ""));
    assert!(passes("Bearer    ", ""));
    assert!(!passes("Bearer x", ""));
}

#[test]
fn a_value_outside_visible_ascii_is_refused() {
    assert!(!passes("Bearer 你的秘钥", "你的秘钥"));
    assert!(check(with_value(b"Bearer \xff"), "\u{ff}").is_err());
}

#[test]
fn a_password_with_a_blank_at_an_end_is_never_met() {
    assert!(!passes("Bearer secret ", "secret "));
    assert!(!passes("Bearer  secret", " secret"));
}

#[test]
fn only_the_first_value_counts() {
    let mut header = with_value(b"Bearer first");
    header.append(AUTHORIZATION, HeaderValue::from_static("Bearer second"));
    assert!(check(header.clone(), "first").is_ok());
    assert!(check(header, "second").is_err());
}

#[test]
fn what_bearer_writes_is_accepted() {
    assert_eq!(bearer("secret"), "Bearer secret");
    assert!(passes(&bearer("secret"), "secret"));
    assert!(!passes(&bearer("secret"), "other"));
}

#[test]
fn accepts_decides_on_the_text_of_the_field() {
    assert!(accepts(Some("Bearer secret"), "secret"));
    assert!(!accepts(Some("Bearer secret"), "Secret"));
    assert!(!accepts(Some("secret"), "secret"));
    assert!(!accepts(None, ""));
}
