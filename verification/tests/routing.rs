use easywind::server::paths::{join_path, resolve, split_path, CanonicalPath};
use easywind::server::{path, root, serve_internal_css, PathAction, RootAction, APP_CSS};
use easywind::server::respond::ResponseBody;

fn strings(parts: &[&str]) -> Vec<String> {
    parts.iter().map(|s| s.to_string()).collect()
}

fn root_at(parts: &[&str]) -> CanonicalPath {
    CanonicalPath::from_segments(strings(parts)).unwrap()
}

#[test]
fn split_drops_empty_segments() {
    let parts = split_path("a//b/c/");
    assert_eq!(parts, strings(&["a", "b", "c"]));
    assert_eq!(split_path(""), Vec::<String>::new());
    assert_eq!(split_path("///"), Vec::<String>::new());
}

#[test]
fn resolve_plain_path() {
    let root = root_at(&["home", "site"]);
    let r = resolve(&root, "sub/file.css").unwrap();
    assert_eq!(r.segs, strings(&["home", "site", "sub", "file.css"]));
}

#[test]
fn resolve_rejects_dotdot() {
    let root = root_at(&["home", "site"]);
    assert!(resolve(&root, "../etc/passwd").is_none());
    assert!(resolve(&root, "a/../b").is_none());
    assert!(resolve(&root, "..").is_none());
    assert!(resolve(&root, "./a").is_none());
}

#[test]
fn resolve_contains_absolute_looking_path() {
    let root = root_at(&["home", "site"]);
    let r = resolve(&root, "/etc/passwd").unwrap();
    // The leading separator gives no segment; the result stays under the root.
    assert_eq!(r.segs, strings(&["home", "site", "etc", "passwd"]));
    assert!(r.segs.starts_with(&strings(&["home", "site"])));
}

#[test]
fn resolve_never_escapes_root() {
    let root = root_at(&["srv", "www"]);
    for request in ["x", "x/y/z", "/abs", "a//b", "trailing/", ""] {
        if let Some(r) = resolve(&root, request) {
            assert!(r.segs.starts_with(&strings(&["srv", "www"])));
        }
    }
}

#[test]
fn join_path_round() {
    assert_eq!(join_path(&strings(&["a", "b", "c"])), "a/b/c");
    assert_eq!(join_path(&strings(&[])), "");
    assert_eq!(join_path(&strings(&["only"])), "only");
}

#[test]
fn root_serves_index_when_present() {
    match root(Some("<html>hi</html>".to_string())) {
        RootAction::ServeIndex(h) => assert_eq!(h, "<html>hi</html>"),
        RootAction::RenderListing => panic!("index.html should be served verbatim"),
    }
    assert!(matches!(root(None), RootAction::RenderListing));
}

#[test]
fn path_route_decisions() {
    let root = root_at(&["site"]);
    let dir = resolve(&root, "sub").unwrap();
    assert!(matches!(path(dir, true), PathAction::List(_)));

    let html = resolve(&root, "page.html").unwrap();
    match path(html, false) {
        PathAction::RawHtml(p) => assert_eq!(p.segs, strings(&["site", "page.html"])),
        _ => panic!("an html file is returned as raw text"),
    }

    let css = resolve(&root, "app.css").unwrap();
    assert!(matches!(path(css, false), PathAction::ServeStatic(_)));

    let plain = resolve(&root, "README").unwrap();
    assert!(matches!(path(plain, false), PathAction::ServeStatic(_)));
}

#[test]
fn internal_css_route_response() {
    let r = serve_internal_css();
    assert_eq!(r.status, 200);
    assert_eq!(r.content_type.as_deref(), Some("text/css"));
    match r.body {
        ResponseBody::Text(t) => assert_eq!(t, APP_CSS),
        ResponseBody::Bytes(_) => panic!("the stylesheet is text"),
    }
}
