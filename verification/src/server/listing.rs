//! Directory-index generation.
//!
//! The immediate children of a directory are turned into links relative to
//! the served root, ordered with directories first and lexicographically
//! within each group, and rendered as an HTML listing with a breadcrumb.

use vstd::prelude::*;
use vstd::multiset::Multiset;
use vstd::seq_lib::group_to_multiset_ensures;
use crate::server::paths::{
    breadcrumb, contained_in, join_segments, CanonicalPath, ResolvedPath, views_of,
};

verus! {

broadcast use {group_to_multiset_ensures, vstd::multiset::group_multiset_axioms};

/// One row of a directory listing.
pub struct DirEntryLink {
    /// Whether the entry is a directory; directories sort first.
    pub is_dir: bool,
    /// The entry's path relative to the served root, the link target.
    pub relative_path: String,
}

/// One raw child of the listed directory, as the shell read it.
pub struct ChildEntry {
    /// The child's file name, without any separator.
    pub name: String,
    /// Whether the child is a directory.
    pub is_dir: bool,
}

/// Lexicographic order on character sequences, by code point.
pub open spec fn lex_le(a: Seq<char>, b: Seq<char>) -> bool
    decreases a.len(),
{
    if a.len() == 0 {
        true
    } else if b.len() == 0 {
        false
    } else if (a[0] as u32) == (b[0] as u32) {
        lex_le(a.skip(1), b.skip(1))
    } else {
        (a[0] as u32) < (b[0] as u32)
    }
}

/// The listing order: directories before files, then lexicographic.
pub open spec fn link_le(a: DirEntryLink, b: DirEntryLink) -> bool {
    if a.is_dir == b.is_dir {
        lex_le(a.relative_path@, b.relative_path@)
    } else {
        a.is_dir
    }
}

/// Adjacent pairs are ordered.
pub open spec fn sorted_links(s: Seq<DirEntryLink>) -> bool {
    forall|i: int| 0 <= i && i + 1 < s.len() ==> link_le(#[trigger] s[i], s[i + 1])
}

/// The lexicographic order is total.
pub proof fn lemma_lex_le_total(a: Seq<char>, b: Seq<char>)
    ensures
        lex_le(a, b) || lex_le(b, a),
    decreases a.len(),
{
    if a.len() == 0 {
    } else if b.len() == 0 {
    } else if (a[0] as u32) == (b[0] as u32) {
        lemma_lex_le_total(a.skip(1), b.skip(1));
    }
}

/// The listing order is total.
pub proof fn lemma_link_le_total(a: DirEntryLink, b: DirEntryLink)
    ensures
        link_le(a, b) || link_le(b, a),
{
    lemma_lex_le_total(a.relative_path@, b.relative_path@);
}

/// In a sorted listing, every directory row stands before every file row:
/// a directory at position `j` makes everything up to it a directory too.
pub proof fn lemma_directories_first(s: Seq<DirEntryLink>, i: int, j: int)
    requires
        sorted_links(s),
        0 <= i <= j < s.len(),
        s[j].is_dir,
    ensures
        s[i].is_dir,
    decreases j - i,
{
    if i < j {
        assert(link_le(s[j - 1], s[j]));
        assert(s[j - 1].is_dir);
        lemma_directories_first(s, i, j - 1);
    }
}

/// Decides the lexicographic order of two strings.
pub fn lex_le_exec(a: &str, b: &str) -> (r: bool)
    ensures
        r == lex_le(a@, b@),
{
    let alen = a.unicode_len();
    let blen = b.unicode_len();
    let mut i: usize = 0;
    proof {
        assert(a@.skip(0) =~= a@);
        assert(b@.skip(0) =~= b@);
    }
    while i < alen
        invariant
            i <= alen,
            i <= blen,
            alen == a@.len(),
            blen == b@.len(),
            lex_le(a@, b@) == lex_le(a@.skip(i as int), b@.skip(i as int)),
        decreases alen - i,
    {
        let ghost ra = a@.skip(i as int);
        let ghost rb = b@.skip(i as int);
        proof {
            assert(ra.len() > 0);
        }
        if i >= blen {
            proof {
                assert(rb.len() == 0);
            }
            return false;
        }
        let ca = a.get_char(i);
        let cb = b.get_char(i);
        proof {
            assert(ra[0] == a@[i as int]);
            assert(rb[0] == b@[i as int]);
        }
        if (ca as u32) != (cb as u32) {
            return (ca as u32) < (cb as u32);
        }
        proof {
            assert(ra.skip(1) =~= a@.skip(i + 1));
            assert(rb.skip(1) =~= b@.skip(i + 1));
        }
        i = i + 1;
    }
    proof {
        assert(a@.skip(i as int).len() == 0);
    }
    true
}

/// Decides the listing order of two rows.
pub fn link_le_exec(a: &DirEntryLink, b: &DirEntryLink) -> (r: bool)
    ensures
        r == link_le(*a, *b),
{
    if a.is_dir == b.is_dir {
        lex_le_exec(a.relative_path.as_str(), b.relative_path.as_str())
    } else {
        a.is_dir
    }
}

/// The first position whose row does not precede `x`, scanning left to right.
fn find_insert_pos(r: &Vec<DirEntryLink>, x: &DirEntryLink) -> (p: usize)
    ensures
        p <= r@.len(),
        forall|k: int| 0 <= k < p ==> link_le(#[trigger] r@[k], *x),
        p < r@.len() ==> !link_le(r@[p as int], *x),
{
    let mut p: usize = 0;
    while p < r.len()
        invariant
            p <= r@.len(),
            forall|k: int| 0 <= k < p ==> link_le(#[trigger] r@[k], *x),
        decreases r@.len() - p,
    {
        if !link_le_exec(&r[p], x) {
            return p;
        }
        p = p + 1;
    }
    p
}

/// Sorts listing rows: directories first, then lexicographic ascending.
///
/// The result is a reordering of the input (equal as a multiset) whose
/// adjacent rows respect the listing order.
pub fn sort_links(v: Vec<DirEntryLink>) -> (r: Vec<DirEntryLink>)
    ensures
        sorted_links(r@),
        r@.to_multiset() == v@.to_multiset(),
{
    let ghost orig = v@;
    let mut rest = v;
    let mut r: Vec<DirEntryLink> = Vec::new();
    proof {
        assert(r@.to_multiset().add(rest@.to_multiset()) =~= orig.to_multiset());
    }
    loop
        invariant
            orig == v@,
            sorted_links(r@),
            r@.to_multiset().add(rest@.to_multiset()) == orig.to_multiset(),
        decreases rest@.len(),
    {
        let ghost rest_before = rest@;
        let popped = rest.pop();
        match popped {
            None => {
                proof {
                    assert(rest_before.len() == 0);
                    assert(rest_before.to_multiset() =~= Multiset::<DirEntryLink>::empty()) by {
                        assert(forall|e: DirEntryLink| !rest_before.contains(e));
                    }
                    assert(r@.to_multiset().add(Multiset::<DirEntryLink>::empty())
                        =~= r@.to_multiset());
                }
                return r;
            },
            Some(x) => {
                proof {
                    assert(rest_before =~= rest@.push(x));
                    assert(rest@.push(x).to_multiset() == rest@.to_multiset().insert(x));
                    assert(rest_before.to_multiset() == rest@.to_multiset().insert(x));
                }
                let ghost r_before = r@;
                let p = find_insert_pos(&r, &x);
                proof {
                    if p < r@.len() {
                        lemma_link_le_total(r@[p as int], x);
                    }
                    r_before.insert_ensures(p as int, x);
                }
                r.insert(p, x);
                proof {
                    assert(sorted_links(r@)) by {
                        assert(forall|i: int|
                            0 <= i && i + 1 < r@.len() ==> link_le(#[trigger] r@[i], r@[i + 1]))
                            by {
                            assert forall|i: int|
                                0 <= i && i + 1 < r@.len() implies link_le(
                                #[trigger] r@[i],
                                r@[i + 1],
                            ) by {
                                if i + 1 < p {
                                    assert(r@[i] == r_before[i]);
                                    assert(r@[i + 1] == r_before[i + 1]);
                                } else if i + 1 == p {
                                    assert(r@[i] == r_before[i]);
                                    assert(r@[i + 1] == x);
                                } else if i == p {
                                    assert(r@[i] == x);
                                    assert(r@[i + 1] == r_before[i]);
                                    assert(!link_le(r_before[i], x));
                                } else {
                                    assert(r@[i] == r_before[i - 1]);
                                    assert(r@[i + 1] == r_before[i]);
                                }
                            }
                        }
                    }
                    assert(r@.to_multiset().add(rest@.to_multiset()) =~= orig.to_multiset()) by {
                        assert(r@ == r_before.insert(p as int, x));
                        vstd::seq_lib::to_multiset_insert(r_before, p as int, x);
                        assert(r@.to_multiset() == r_before.to_multiset().insert(x));
                        assert(r_before.to_multiset().insert(x).add(rest@.to_multiset())
                            =~= r_before.to_multiset().add(rest@.to_multiset().insert(x)));
                    }
                }
            },
        }
    }
}

/// A child's path relative to the root, under the listed directory's prefix.
pub open spec fn child_rel(prefix: Seq<char>, name: Seq<char>) -> Seq<char> {
    if prefix.len() == 0 {
        name
    } else {
        prefix + "/"@ + name
    }
}

/// The rows stand for exactly these children, in order.
pub open spec fn links_match(
    raw: Seq<DirEntryLink>,
    children: Seq<ChildEntry>,
    prefix: Seq<char>,
) -> bool {
    &&& raw.len() == children.len()
    &&& forall|i: int|
        0 <= i < children.len() ==> (#[trigger] raw[i]).is_dir == children[i].is_dir
            && raw[i].relative_path@ == child_rel(prefix, children[i].name@)
}

/// Turns raw children into listing rows linked relative to the root.
pub fn build_links(children: &Vec<ChildEntry>, prefix: &String) -> (r: Vec<DirEntryLink>)
    ensures
        links_match(r@, children@, prefix@),
{
    let mut r: Vec<DirEntryLink> = Vec::new();
    let mut i: usize = 0;
    while i < children.len()
        invariant
            i <= children@.len(),
            r@.len() == i,
            forall|k: int|
                0 <= k < i ==> (#[trigger] r@[k]).is_dir == children@[k].is_dir
                    && r@[k].relative_path@ == child_rel(prefix@, children@[k].name@),
        decreases children@.len() - i,
    {
        let relative_path = if prefix.as_str().unicode_len() == 0 {
            children[i].name.clone()
        } else {
            prefix.clone().concat("/").concat(children[i].name.as_str())
        };
        r.push(DirEntryLink { is_dir: children[i].is_dir, relative_path });
        i = i + 1;
    }
    r
}

/// Everything of the listing page before the breadcrumb.
pub const LISTING_PREAMBLE: &'static str = "<!DOCTYPE html>\n<html>\n<head>\n<meta charset=\"utf-8\">\n<link rel=\"stylesheet\" href=\"/__internal_only_easywind_css_file__.css\">\n<title>Directory listing</title>\n</head>\n<body>\n<h1>Directory listing for /";

/// Between the breadcrumb and the rows.
pub const LISTING_MID: &'static str = "</h1>\n<ul>\n";

/// After the rows.
pub const LISTING_FOOTER: &'static str = "</ul>\n</body>\n</html>\n";

/// The link target of a row.
pub open spec fn link_href(l: DirEntryLink) -> Seq<char> {
    "/"@ + l.relative_path@
}

/// The visible text of a row; directories carry a trailing marker.
pub open spec fn link_label(l: DirEntryLink) -> Seq<char> {
    if l.is_dir {
        l.relative_path@ + "/"@
    } else {
        l.relative_path@
    }
}

/// One rendered row.
pub open spec fn render_row(l: DirEntryLink) -> Seq<char> {
    "<li><a href=\""@ + link_href(l) + "\">"@ + link_label(l) + "</a></li>\n"@
}

/// All rows, in order.
pub open spec fn render_rows(s: Seq<DirEntryLink>) -> Seq<char>
    decreases s.len(),
{
    if s.len() == 0 {
        Seq::empty()
    } else {
        render_rows(s.drop_last()) + render_row(s.last())
    }
}

/// The whole listing page.
pub open spec fn render_listing(links: Seq<DirEntryLink>, cur: Seq<char>) -> Seq<char> {
    LISTING_PREAMBLE@ + cur + LISTING_MID@ + render_rows(links) + LISTING_FOOTER@
}

/// Renders the listing page for the given rows and breadcrumb.
pub fn render_index(links: &Vec<DirEntryLink>, current_dir: &String) -> (r: String)
    ensures
        r@ == render_listing(links@, current_dir@),
{
    let mut out = String::from_str(LISTING_PREAMBLE);
    out.append(current_dir.as_str());
    out.append(LISTING_MID);
    let ghost head = LISTING_PREAMBLE@ + current_dir@ + LISTING_MID@;
    proof {
        assert(out@ =~= head + render_rows(links@.take(0)));
    }
    let mut i: usize = 0;
    while i < links.len()
        invariant
            i <= links@.len(),
            head == LISTING_PREAMBLE@ + current_dir@ + LISTING_MID@,
            out@ == head + render_rows(links@.take(i as int)),
        decreases links@.len() - i,
    {
        let ghost before = out@;
        out.append("<li><a href=\"");
        out.append("/");
        out.append(links[i].relative_path.as_str());
        out.append("\">");
        if links[i].is_dir {
            out.append(links[i].relative_path.as_str());
            out.append("/");
        } else {
            out.append(links[i].relative_path.as_str());
        }
        out.append("</a></li>\n");
        proof {
            let l = links@[i as int];
            assert(out@ =~= before + render_row(l));
            assert(links@.take(i + 1).drop_last() =~= links@.take(i as int));
            assert(links@.take(i + 1).last() == l);
            assert(out@ =~= head + render_rows(links@.take(i + 1)));
        }
        i = i + 1;
    }
    proof {
        assert(links@.take(links@.len() as int) =~= links@);
    }
    out.append(LISTING_FOOTER);
    proof {
        assert(out@ =~= render_listing(links@, current_dir@));
    }
    out
}

/// The listed directory's path relative to the root.
pub fn relative_of(root: &CanonicalPath, dir: &ResolvedPath) -> (r: String)
    requires
        contained_in(views_of(dir.segs@), views_of(root.segs@)),
    ensures
        r@ == join_segments(views_of(dir.segs@).skip(root.segs@.len() as int)),
{
    let rootlen = root.segs.len();
    let ghost tail = views_of(dir.segs@).skip(rootlen as int);
    let mut acc = String::new();
    let mut i: usize = rootlen;
    proof {
        assert(views_of(dir.segs@).len() == dir.segs@.len());
        assert(tail.take(0) =~= Seq::<Seq<char>>::empty());
    }
    while i < dir.segs.len()
        invariant
            rootlen <= i <= dir.segs@.len(),
            rootlen == root.segs@.len(),
            tail == views_of(dir.segs@).skip(rootlen as int),
            acc@ == join_segments(tail.take(i - rootlen)),
        decreases dir.segs@.len() - i,
    {
        if i > rootlen {
            acc.append("/");
        }
        acc.append(dir.segs[i].as_str());
        proof {
            crate::server::paths::lemma_views_index(dir.segs@, i as int);
            assert(tail[i - rootlen] == views_of(dir.segs@)[i as int]);
            assert(tail.take(i - rootlen + 1).drop_last() =~= tail.take(i - rootlen));
            assert(tail.take(i - rootlen + 1).last() == tail[i - rootlen]);
        }
        i = i + 1;
    }
    proof {
        assert(tail.take(dir.segs@.len() - rootlen) =~= tail);
    }
    acc
}

/// The breadcrumb shown above the listing: the directory's path relative to
/// the root with a trailing separator, empty for the root itself.
pub fn current_dir_of(root: &CanonicalPath, dir: &ResolvedPath) -> (r: String)
    requires
        contained_in(views_of(dir.segs@), views_of(root.segs@)),
    ensures
        r@ == breadcrumb(views_of(dir.segs@), root.segs@.len() as int),
{
    if dir.segs.len() == root.segs.len() {
        proof {
            assert(views_of(dir.segs@).len() == dir.segs@.len());
        }
        String::new()
    } else {
        let rel = relative_of(root, dir);
        rel.concat("/")
    }
}

/// Renders the directory index for `dir` under `root`.
///
/// The rows are the given children linked relative to the root, reordered so
/// that directories come first and each group ascends lexicographically; the
/// breadcrumb is the directory's path relative to the root.
pub fn index_template(root: &CanonicalPath, dir: &ResolvedPath, children: Vec<ChildEntry>) -> (r:
    String)
    requires
        contained_in(views_of(dir.segs@), views_of(root.segs@)),
    ensures
        exists|raw: Seq<DirEntryLink>, sorted: Seq<DirEntryLink>|
            {
                &&& links_match(
                    raw,
                    children@,
                    join_segments(views_of(dir.segs@).skip(root.segs@.len() as int)),
                )
                &&& sorted.to_multiset() == raw.to_multiset()
                &&& sorted_links(sorted)
                &&& r@ == render_listing(
                    sorted,
                    breadcrumb(views_of(dir.segs@), root.segs@.len() as int),
                )
            },
{
    let prefix = relative_of(root, dir);
    let raw = build_links(&children, &prefix);
    let ghost raw_view = raw@;
    let sorted = sort_links(raw);
    let current_dir = current_dir_of(root, dir);
    let r = render_index(&sorted, &current_dir);
    proof {
        let ghost sorted_view = sorted@;
        assert(links_match(
            raw_view,
            children@,
            join_segments(views_of(dir.segs@).skip(root.segs@.len() as int)),
        ) && sorted_view.to_multiset() == raw_view.to_multiset() && sorted_links(sorted_view)
            && r@ == render_listing(
            sorted_view,
            breadcrumb(views_of(dir.segs@), root.segs@.len() as int),
        ));
    }
    r
}

} // verus!
