use leanpub_client::urls::auth_url;
use leanpub_client::urls::build_candidates;
use leanpub_client::urls::public_url;

#[test]
fn candidate_urls_for_authenticated_invocation() {
    let urls = build_candidates("my-book", "abc123", false);
    assert_eq!(urls.len(), 2);
    assert_eq!(urls[0], "https://leanpub.com/my-book/book_metadata.json?api_key=abc123");
    assert_eq!(urls[1], "https://leanpub.com/my-book.json");
}

#[test]
fn legacy_invocation_attempts_exactly_one_url_without_credential() {
    let urls = build_candidates("my-book", "abc123", true);
    assert_eq!(urls.len(), 1);
    assert_eq!(urls[0], "https://leanpub.com/my-book.json");
    assert!(!urls[0].contains("abc123"));
    let other = build_candidates("my-book", "another-secret", true);
    assert_eq!(urls, other);
}

#[test]
fn authenticated_url_comes_strictly_before_fallback() {
    let urls = build_candidates("slug", "key", false);
    assert_eq!(urls[0], auth_url("slug", "key"));
    assert_eq!(urls[1], public_url("slug"));
}

#[test]
fn fallback_keeps_the_identifier_unchanged() {
    let urls = build_candidates("some-book", "k", false);
    assert_eq!(urls[1], "https://leanpub.com/some-book.json");
    assert_eq!(urls[1], build_candidates("some-book", "k", true)[0]);
}

#[test]
fn empty_identifier_still_builds_the_templates() {
    let urls = build_candidates("", "k", false);
    assert_eq!(urls[0], "https://leanpub.com//book_metadata.json?api_key=k");
    assert_eq!(urls[1], "https://leanpub.com/.json");
}
