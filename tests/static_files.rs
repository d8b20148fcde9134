use wiredforge::static_files::{has_know_extention, join_to_root, normalize_path, resolve_static_path, text_ends_with};

#[test]
fn trailing_slash_gets_index() {
    assert_eq!(resolve_static_path("/site", "/about/"), "/site/about/index.html");
}

#[test]
fn known_extension_is_kept() {
    assert_eq!(resolve_static_path("/site", "/app.js"), "/site/app.js");
    assert_eq!(resolve_static_path("/site", "/fonts/a.woff2"), "/site/fonts/a.woff2");
}

#[test]
fn bare_name_is_a_directory() {
    assert_eq!(resolve_static_path("/site", "/app"), "/site/app/index.html");
    assert_eq!(resolve_static_path("/site", "/data.json"), "/site/data.json/index.html");
}

#[test]
fn one_separator_between_root_and_path() {
    assert_eq!(resolve_static_path("/site/", "/about/"), "/site/about/index.html");
    assert_ne!(resolve_static_path("/site/", "/about/"), "/site//about/index.html");
    assert_eq!(resolve_static_path("/site/", "/app.js"), "/site/app.js");
    assert_eq!(resolve_static_path("/site/", "/"), "/site/index.html");
}

#[test]
fn root_path_is_the_index() {
    assert_eq!(resolve_static_path("/site", "/"), "/site/index.html");
    assert_eq!(resolve_static_path("/site", ""), "/site/index.html");
}

#[test]
fn join_keeps_both_separators_only_when_they_differ() {
    assert_eq!(join_to_root("/site/", "/a"), "/site/a");
    assert_eq!(join_to_root("/site", "/a"), "/site/a");
    assert_eq!(join_to_root("/site/", "a"), "/site/a");
    assert_eq!(join_to_root("/site", "a"), "/sitea");
    assert_eq!(join_to_root("", ""), "");
}

#[test]
fn extensions() {
    for p in ["a.html", "a.js", "a.css", "a.ico", "a.jpg", "a.png", "a.woff2", "a.ttf", "a.txt", "a.xml"] {
        assert!(has_know_extention(p), "{}", p);
    }
    assert!(!has_know_extention("a.json"));
    assert!(!has_know_extention("a.HTML"));
    assert!(!has_know_extention("html"));
    assert!(!has_know_extention(""));
}

#[test]
fn suffixes() {
    assert!(text_ends_with("héllo", "llo"));
    assert!(text_ends_with("abc", ""));
    assert!(text_ends_with("abc", "abc"));
    assert!(!text_ends_with("bc", "abc"));
    assert!(!text_ends_with("abc", "abd"));
}

#[test]
fn dot_segments_are_resolved() {
    let n = |p: &str| normalize_path(p);
    assert_eq!(n("/a/../b.html"), Some(String::from("/b.html")));
    assert_eq!(n("/a/./b/"), Some(String::from("/a/b/")));
    assert_eq!(n("/a/b/.."), Some(String::from("/a/")));
    assert_eq!(n("/a/."), Some(String::from("/a/")));
    assert_eq!(n("/a/.."), Some(String::from("/")));
    assert_eq!(n("//a//b"), Some(String::from("/a/b")));
    assert_eq!(n("/a/..b.txt"), Some(String::from("/a/..b.txt")));
    assert_eq!(n("/about/"), Some(String::from("/about/")));
    assert_eq!(n("/app.js"), Some(String::from("/app.js")));
}

#[test]
fn relative_request_paths_get_a_leading_separator() {
    assert_eq!(normalize_path("x.html"), Some(String::from("/x.html")));
    assert_eq!(normalize_path(""), Some(String::from("/")));
    assert_eq!(normalize_path("."), Some(String::from("/")));
}

#[test]
fn paths_above_the_root_are_refused() {
    assert_eq!(normalize_path(".."), None);
    assert_eq!(normalize_path("/.."), None);
    assert_eq!(normalize_path("/../etc/app.js"), None);
    assert_eq!(normalize_path("/a/../../b"), None);
    assert_eq!(normalize_path("/a/b/../../../c"), None);
}
