use easywind::server::listing::{
    build_links, current_dir_of, index_template, render_index, sort_links, ChildEntry,
    DirEntryLink, LISTING_FOOTER, LISTING_MID, LISTING_PREAMBLE,
};
use easywind::server::paths::{resolve, CanonicalPath};

fn strings(parts: &[&str]) -> Vec<String> {
    parts.iter().map(|s| s.to_string()).collect()
}

fn link(is_dir: bool, rel: &str) -> DirEntryLink {
    DirEntryLink { is_dir, relative_path: rel.to_string() }
}

fn rels(links: &[DirEntryLink]) -> Vec<String> {
    links.iter().map(|l| l.relative_path.clone()).collect()
}

#[test]
fn listing_order_dirs_first_then_lexicographic() {
    let sorted = sort_links(vec![
        link(false, "b.txt"),
        link(false, "a.txt"),
        link(true, "sub"),
        link(false, "z.txt"),
    ]);
    assert_eq!(rels(&sorted), strings(&["sub", "a.txt", "b.txt", "z.txt"]));
    assert!(sorted[0].is_dir);
}

#[test]
fn listing_order_within_groups() {
    let sorted = sort_links(vec![
        link(true, "zeta"),
        link(false, "alpha"),
        link(true, "alpha"),
        link(false, "beta"),
    ]);
    assert_eq!(rels(&sorted), strings(&["alpha", "zeta", "alpha", "beta"]));
    assert!(sorted[0].is_dir && sorted[1].is_dir);
    assert!(!sorted[2].is_dir && !sorted[3].is_dir);
}

#[test]
fn build_links_prefixes_subdirectory() {
    let children = vec![
        ChildEntry { name: "a.txt".to_string(), is_dir: false },
        ChildEntry { name: "inner".to_string(), is_dir: true },
    ];
    let links = build_links(&children, &"sub".to_string());
    assert_eq!(rels(&links), strings(&["sub/a.txt", "sub/inner"]));

    let at_root = build_links(&children, &"".to_string());
    assert_eq!(rels(&at_root), strings(&["a.txt", "inner"]));
}

#[test]
fn breadcrumb_empty_for_root_itself() {
    let root = CanonicalPath::from_segments(strings(&["site"])).unwrap();
    let at_root = resolve(&root, "").unwrap();
    assert_eq!(current_dir_of(&root, &at_root), "");
    let below = resolve(&root, "a/b").unwrap();
    assert_eq!(current_dir_of(&root, &below), "a/b/");
}

#[test]
fn render_index_exact_page() {
    let links = vec![link(true, "sub"), link(false, "a.txt")];
    let page = render_index(&links, &"".to_string());
    let expected = format!(
        "{}{}{}{}",
        LISTING_PREAMBLE,
        LISTING_MID,
        "<li><a href=\"/sub\">sub/</a></li>\n<li><a href=\"/a.txt\">a.txt</a></li>\n",
        LISTING_FOOTER,
    );
    assert_eq!(page, expected);
}

#[test]
fn index_template_sorts_and_renders() {
    let root = CanonicalPath::from_segments(strings(&["site"])).unwrap();
    let dir = resolve(&root, "").unwrap();
    let children = vec![
        ChildEntry { name: "b.txt".to_string(), is_dir: false },
        ChildEntry { name: "a.txt".to_string(), is_dir: false },
        ChildEntry { name: "sub".to_string(), is_dir: true },
        ChildEntry { name: "z.txt".to_string(), is_dir: false },
    ];
    let page = index_template(&root, &dir, children);
    let rows = "<li><a href=\"/sub\">sub/</a></li>\n\
                <li><a href=\"/a.txt\">a.txt</a></li>\n\
                <li><a href=\"/b.txt\">b.txt</a></li>\n\
                <li><a href=\"/z.txt\">z.txt</a></li>\n";
    let expected = format!("{}{}{}{}", LISTING_PREAMBLE, LISTING_MID, rows, LISTING_FOOTER);
    assert_eq!(page, expected);
}

#[test]
fn empty_directory_renders_no_rows() {
    let page = render_index(&vec![], &"sub/".to_string());
    let expected = format!("{}{}{}{}", LISTING_PREAMBLE, "sub/", LISTING_MID, LISTING_FOOTER);
    assert_eq!(page, expected);
}
