use bunnypmsl::url_encoding::{build_path_url, build_search_url, encode_url};

#[test]
fn test_encode_url_simple() {
    assert_eq!(encode_url("hello"), "hello");
}

#[test]
fn test_encode_url_with_spaces() {
    assert_eq!(encode_url("hello world"), "hello%20world");
}

#[test]
fn test_encode_url_with_special_chars() {
    assert_eq!(encode_url("hello<world>"), "hello%3Cworld%3E");
}

#[test]
fn test_build_search_url() {
    let url = build_search_url("https://google.com/search", "q", "hello world");
    assert_eq!(url, "https://google.com/search?q=hello%20world");
}

#[test]
fn test_build_path_url() {
    let url = build_path_url("https://github.com", "daveio/bunnypmsl");
    assert_eq!(url, "https://github.com/daveio/bunnypmsl");
}

#[test]
fn test_build_path_url_with_trailing_slash() {
    let url = build_path_url("https://github.com/", "daveio/bunnypmsl");
    assert_eq!(url, "https://github.com/daveio/bunnypmsl");
}

#[test]
fn test_encode_url_identity_on_safe_text() {
    assert_eq!(encode_url("abc/DEF?x=1&y=2"), "abc/DEF?x=1&y=2");
    assert_eq!(encode_url(""), "");
}

#[test]
fn test_encode_url_controls_and_quotes() {
    assert_eq!(encode_url("a\"b"), "a%22b");
    assert_eq!(encode_url("a`b"), "a%60b");
    assert_eq!(encode_url("a\tb"), "a%09b");
    assert_eq!(encode_url("a\nb"), "a%0Ab");
}

#[test]
fn test_encode_url_non_ascii_escaped() {
    assert_eq!(encode_url("caf\u{e9}"), "caf%C3%A9");
    assert_eq!(encode_url("\u{e9}"), "%C3%A9");
    assert!(encode_url("snowman \u{2603}").is_ascii());
}

#[test]
fn test_build_search_url_exact_shape() {
    assert_eq!(build_search_url("https://x/search", "q", "a b"), "https://x/search?q=a%20b");
}

#[test]
fn test_build_path_url_many_trailing_slashes() {
    assert_eq!(build_path_url("https://x///", "a/b"), "https://x/a/b");
    assert_eq!(build_path_url("https://x", "a b"), "https://x/a%20b");
}
