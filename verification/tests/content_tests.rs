use community_store::content::{get_content_type, has_ending};

#[test]
fn known_endings() {
    assert_eq!(get_content_type("index.html"), "text/html");
    assert_eq!(get_content_type("/static/js/bundle.js"), "text/javascript");
    assert_eq!(get_content_type("main.css"), "text/css");
    assert_eq!(get_content_type("/temp/metadata.txt"), "text/plain");
    assert_eq!(get_content_type("README.md"), "text/markdown");
}

#[test]
fn unknown_endings_are_octet_streams() {
    assert_eq!(get_content_type("child.wasm"), "application/octet-stream");
    assert_eq!(get_content_type(""), "application/octet-stream");
    assert_eq!(get_content_type("html"), "application/octet-stream");
    assert_eq!(get_content_type("/.well-known/ic-domains"), "application/octet-stream");
}

#[test]
fn the_ending_alone_is_a_name() {
    assert_eq!(get_content_type(".js"), "text/javascript");
    assert_eq!(get_content_type(".md"), "text/markdown");
}

#[test]
fn endings_of_names_beyond_ascii() {
    assert!(has_ending("caf\u{e9}.txt", ".txt"));
    assert!(has_ending("menu\u{e9}", "\u{e9}"));
    assert!(!has_ending("menu\u{e9}", "e"));
    assert!(has_ending("abc", ""));
    assert!(!has_ending("bc", "abc"));
    assert_eq!(get_content_type("\u{65e5}\u{672c}.html"), "text/html");
}
