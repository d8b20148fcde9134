use wiredforge::router::{ConfigError, Dispatch, Method, WiredForge, WiredForgeBuilder};

fn site(root: &str) -> WiredForge<u32> {
    let mut b: WiredForgeBuilder<u32> = WiredForgeBuilder::new();
    b.get(String::from("/"), 1);
    b.post(String::from("/send"), 2);
    assert_eq!(b.set_static(String::from(root), true), Ok(()));
    b.build()
}

#[test]
fn last_registration_wins() {
    let mut b: WiredForgeBuilder<u32> = WiredForgeBuilder::new();
    b.get(String::from("/a"), 1);
    b.get(String::from("/b"), 5);
    b.get(String::from("/a"), 2);
    b.post(String::from("/a"), 3);
    b.post(String::from("/a"), 4);
    let f = b.build();
    assert_eq!(f.lookup(Method::Get, "/a"), Some(&2));
    assert_eq!(f.lookup(Method::Get, "/b"), Some(&5));
    assert_eq!(f.lookup(Method::Post, "/a"), Some(&4));
    assert_eq!(f.lookup(Method::Post, "/b"), None);
}

#[test]
fn lookup_is_exact() {
    let f = site("/site");
    assert_eq!(f.lookup(Method::Get, "/"), Some(&1));
    assert_eq!(f.lookup(Method::Post, "/send"), Some(&2));
    assert_eq!(f.lookup(Method::Post, "/send/"), None);
    assert_eq!(f.lookup(Method::Post, "/SEND"), None);
    assert_eq!(f.lookup(Method::Get, "/send"), None);
    assert_eq!(f.lookup(Method::Other, "/"), None);
}

#[test]
fn routed_request_gets_its_handler() {
    let f = site("/site");
    assert!(matches!(f.call(Method::Get, "/"), Dispatch::Routed(&1)));
    assert!(matches!(f.call(Method::Post, "/send"), Dispatch::Routed(&2)));
}

#[test]
fn unrouted_get_falls_back_to_static() {
    let f = site("/site");
    match f.call(Method::Get, "/about/") {
        Dispatch::StaticFallback(p) => assert_eq!(p, "/site/about/index.html"),
        _ => panic!("expected a static fallback"),
    }
    match f.call(Method::Get, "/app.js") {
        Dispatch::StaticFallback(p) => assert_eq!(p, "/site/app.js"),
        _ => panic!("expected a static fallback"),
    }
}

#[test]
fn unrouted_post_is_not_found() {
    let f = site("/site");
    assert!(matches!(f.call(Method::Post, "/about/"), Dispatch::NotFound));
    assert!(matches!(f.call(Method::Post, "/"), Dispatch::NotFound));
}

#[test]
fn other_methods_are_not_found() {
    let f = site("/site");
    assert!(matches!(f.call(Method::Other, "/"), Dispatch::NotFound));
    assert!(matches!(f.call(Method::Other, "/app.js"), Dispatch::NotFound));
}

#[test]
fn unrouted_get_without_static_is_not_found() {
    let mut b: WiredForgeBuilder<u32> = WiredForgeBuilder::new();
    b.get(String::from("/"), 1);
    let f = b.build();
    assert!(!f.static_enabled());
    assert!(matches!(f.call(Method::Get, "/about/"), Dispatch::NotFound));
    assert_eq!(f.not_found_path(), None);
}

#[test]
fn paths_above_the_root_never_reach_the_disk() {
    let f = site("/site");
    assert!(matches!(f.call(Method::Get, "/../etc/passwd"), Dispatch::NotFound));
    assert!(matches!(f.call(Method::Get, "/../etc/app.js"), Dispatch::NotFound));
    assert!(matches!(f.call(Method::Get, "/a/../../b.html"), Dispatch::NotFound));
    assert_eq!(f.static_file("/a/../../b.txt"), None);
}

#[test]
fn dot_segments_inside_the_root_are_served() {
    let f = site("/site");
    assert_eq!(f.static_file("/a/../b.html"), Some(String::from("/site/b.html")));
    assert_eq!(f.static_file("/a/..b.txt"), Some(String::from("/site/a/..b.txt")));
    assert_eq!(f.static_file("/a/.."), Some(String::from("/site/index.html")));
    match f.call(Method::Get, "/a/./b/../c/") {
        Dispatch::StaticFallback(p) => assert_eq!(p, "/site/a/c/index.html"),
        _ => panic!("expected a static fallback"),
    }
}

#[test]
fn relative_request_path_stays_under_the_root() {
    let f = site("/site");
    assert_eq!(f.static_file("x.html"), Some(String::from("/site/x.html")));
    let g = site("/site/");
    assert_eq!(g.static_file("x.html"), Some(String::from("/site/x.html")));
    assert_eq!(g.static_file("//about/"), Some(String::from("/site/about/index.html")));
}

#[test]
fn missing_static_root_is_refused() {
    let mut b: WiredForgeBuilder<u32> = WiredForgeBuilder::new();
    let r = b.set_static(String::from("/nowhere"), false);
    assert_eq!(r, Err(ConfigError::StaticRootMissing(String::from("/nowhere"))));
    let f = b.build();
    assert!(!f.static_enabled());
    assert_eq!(f.static_path(), "");
}

#[test]
fn not_found_page_defaults_under_static_root() {
    let f = site("/site/");
    assert_eq!(f.static_path(), "/site/");
    assert_eq!(f.not_found_path(), Some(String::from("/site/404/index.html")));
    let g = site("public");
    assert_eq!(g.not_found_path(), Some(String::from("public/404/index.html")));
}

#[test]
fn not_found_page_can_be_set_apart() {
    let mut b: WiredForgeBuilder<u32> = WiredForgeBuilder::new();
    assert_eq!(b.set_static(String::from("/site"), true), Ok(()));
    b.set_not_found_page(String::from("public/404/index.html"));
    let f = b.build();
    assert_eq!(f.not_found_path(), Some(String::from("public/404/index.html")));
}

#[test]
fn frozen_table_answers_every_request_alike() {
    let f = std::sync::Arc::new(site("/site"));
    let g = f.clone();
    for _ in 0..3 {
        assert!(matches!(f.call(Method::Get, "/"), Dispatch::Routed(&1)));
        assert!(matches!(g.call(Method::Get, "/"), Dispatch::Routed(&1)));
        match (f.call(Method::Get, "/x.css"), g.call(Method::Get, "/x.css")) {
            (Dispatch::StaticFallback(a), Dispatch::StaticFallback(b)) => {
                assert_eq!(a, b);
                assert_eq!(a, "/site/x.css");
            }
            _ => panic!("expected static fallbacks"),
        }
    }
}
