//! Request-path resolution and containment.
//!
//! A request path is split on `/` into segments; a segment that is empty is
//! dropped, and a request whose segments contain `.` or `..` is rejected
//! outright. A resolved path is therefore always the root's segments followed
//! by clean request segments — it can never name anything outside the root.

use vstd::prelude::*;

verus! {

/// The views of a sequence of owned strings.
pub open spec fn views_of(s: Seq<String>) -> Seq<Seq<char>> {
    s.map_values(|t: String| t@)
}

/// Closes the segment under construction: empty segments are dropped.
pub open spec fn seg_closed(cur: Seq<char>) -> Seq<Seq<char>> {
    if cur.len() > 0 {
        seq![cur]
    } else {
        Seq::empty()
    }
}

/// Splitting `s` on `/` with `cur` the partial segment read so far.
pub open spec fn segments_rec(s: Seq<char>, cur: Seq<char>) -> Seq<Seq<char>>
    decreases s.len(),
{
    if s.len() == 0 {
        seg_closed(cur)
    } else if s[0] == '/' {
        seg_closed(cur) + segments_rec(s.skip(1), Seq::empty())
    } else {
        segments_rec(s.skip(1), cur.push(s[0]))
    }
}

/// The nonempty `/`-separated segments of a path string.
pub open spec fn path_segments(s: Seq<char>) -> Seq<Seq<char>> {
    segments_rec(s, Seq::empty())
}

/// A segment that may be served: nonempty and free of dot traversal.
pub open spec fn seg_ok(s: Seq<char>) -> bool {
    s.len() > 0 && s != "."@ && s != ".."@
}

/// All segments of a split path may be served.
pub open spec fn all_segs_ok(parts: Seq<Seq<char>>) -> bool {
    forall|i: int| 0 <= i < parts.len() ==> #[trigger] seg_ok(parts[i])
}

/// `path` begins with every segment of `root`, in order.
pub open spec fn contained_in(path: Seq<Seq<char>>, root: Seq<Seq<char>>) -> bool {
    path.len() >= root.len() && path.take(root.len() as int) == root
}

/// Indexing commutes with taking views.
pub proof fn lemma_views_index(s: Seq<String>, i: int)
    requires
        0 <= i < s.len(),
    ensures
        views_of(s)[i] == s[i]@,
{
}

/// Pushing commutes with taking views.
pub proof fn lemma_views_push(s: Seq<String>, x: String)
    ensures
        views_of(s.push(x)) =~= views_of(s).push(x@),
{
    assert forall|j: int| 0 <= j < s.push(x).len() implies views_of(s.push(x))[j] == views_of(
        s,
    ).push(x@)[j] by {
        if j < s.len() {
            assert(s.push(x)[j] == s[j]);
        } else {
            assert(s.push(x)[j] == x);
        }
    }
}

/// Every segment the splitter emits is nonempty, whatever was pending.
proof fn lemma_segments_rec_nonempty(s: Seq<char>, cur: Seq<char>)
    ensures
        forall|i: int|
            0 <= i < segments_rec(s, cur).len() ==> #[trigger] segments_rec(s, cur)[i].len() > 0,
    decreases s.len(),
{
    if s.len() == 0 {
    } else if s[0] == '/' {
        lemma_segments_rec_nonempty(s.skip(1), Seq::empty());
        let closed = seg_closed(cur);
        let rest = segments_rec(s.skip(1), Seq::empty());
        let whole = segments_rec(s, cur);
        assert forall|i: int| 0 <= i < whole.len() implies #[trigger] whole[i].len() > 0 by {
            if i < closed.len() {
                assert(whole[i] == cur);
            } else {
                assert(whole[i] == rest[i - closed.len()]);
            }
        }
    } else {
        lemma_segments_rec_nonempty(s.skip(1), cur.push(s[0]));
        let rest = segments_rec(s.skip(1), cur.push(s[0]));
        let whole = segments_rec(s, cur);
        assert(whole == rest);
        assert forall|i: int| 0 <= i < whole.len() implies #[trigger] whole[i].len() > 0 by {
            assert(whole[i] == rest[i]);
        }
    }
}

/// Splits a request path on `/`, dropping empty segments.
pub fn split_path(s: &str) -> (parts: Vec<String>)
    ensures
        views_of(parts@) == path_segments(s@),
        forall|i: int| 0 <= i < parts@.len() ==> #[trigger] parts@[i]@.len() > 0,
{
    let n = s.unicode_len();
    let mut parts: Vec<String> = Vec::new();
    let mut seg_start: usize = 0;
    let mut i: usize = 0;
    proof {
        assert(views_of(parts@) =~= Seq::<Seq<char>>::empty());
        assert(s@.skip(0) =~= s@);
        assert(s@.subrange(0, 0) =~= Seq::<char>::empty());
    }
    while i < n
        invariant
            seg_start <= i <= n,
            n == s@.len(),
            views_of(parts@) + segments_rec(s@.skip(i as int), s@.subrange(seg_start as int, i as int))
                == path_segments(s@),
        decreases n - i,
    {
        let ghost cur = s@.subrange(seg_start as int, i as int);
        let ghost rest = s@.skip(i as int);
        proof {
            assert(rest[0] == s@[i as int]);
        }
        let c = s.get_char(i);
        if c == '/' {
            proof {
                assert(rest.skip(1) =~= s@.skip(i + 1));
            }
            if seg_start < i {
                let seg = s.substring_char(seg_start, i);
                let owned = seg.to_owned();
                proof {
                    assert(owned@ =~= cur);
                    assert(cur.len() > 0);
                }
                parts.push(owned);
                proof {
                    assert(views_of(parts@) =~= views_of(parts@.drop_last()) + seg_closed(cur));
                }
            } else {
                proof {
                    assert(cur.len() == 0);
                    assert(views_of(parts@) + seg_closed(cur) =~= views_of(parts@));
                }
            }
            i = i + 1;
            seg_start = i;
            proof {
                assert(s@.subrange(seg_start as int, i as int) =~= Seq::<char>::empty());
                assert(views_of(parts@) + (seg_closed(cur) + segments_rec(
                    s@.skip(i as int),
                    Seq::empty(),
                )) =~= (views_of(parts@) + seg_closed(cur)) + segments_rec(
                    s@.skip(i as int),
                    Seq::empty(),
                ));
            }
        } else {
            proof {
                assert(rest.skip(1) =~= s@.skip(i + 1));
                assert(s@.subrange(seg_start as int, i + 1) =~= cur.push(s@[i as int]));
            }
            i = i + 1;
        }
    }
    proof {
        assert(s@.skip(n as int) =~= Seq::<char>::empty());
    }
    if seg_start < n {
        let seg = s.substring_char(seg_start, n);
        let owned = seg.to_owned();
        proof {
            assert(owned@ =~= s@.subrange(seg_start as int, n as int));
            assert(views_of(parts@.push(owned)) =~= views_of(parts@) + seg_closed(owned@));
        }
        parts.push(owned);
    } else {
        proof {
            let cur = s@.subrange(seg_start as int, n as int);
            assert(cur.len() == 0);
            assert(views_of(parts@) + seg_closed(cur) =~= views_of(parts@));
        }
    }
    proof {
        lemma_segments_rec_nonempty(s@, Seq::empty());
        assert(forall|i: int|
            0 <= i < parts@.len() ==> #[trigger] parts@[i]@.len() > 0) by {
            assert(forall|i: int|
                0 <= i < parts@.len() ==> views_of(parts@)[i] == #[trigger] parts@[i]@);
        }
    }
    parts
}

/// The canonical absolute form of the served root, as clean segments.
pub struct CanonicalPath {
    /// The root's path segments, each nonempty and free of dot traversal.
    pub segs: Vec<String>,
}

impl CanonicalPath {
    /// All segments are clean.
    pub open spec fn wf(&self) -> bool {
        all_segs_ok(views_of(self.segs@))
    }

    /// Accepts a pre-split canonical path whose segments are all clean.
    pub fn from_segments(segs: Vec<String>) -> (r: Option<CanonicalPath>)
        ensures
            r matches Some(c) ==> c.segs == segs && c.wf(),
            r is None ==> !all_segs_ok(views_of(segs@)),
    {
        let mut j: usize = 0;
        while j < segs.len()
            invariant
                j <= segs@.len(),
                forall|k: int| 0 <= k < j ==> #[trigger] seg_ok(views_of(segs@)[k]),
            decreases segs@.len() - j,
        {
            let sj = segs[j].as_str();
            if sj.unicode_len() == 0 || crate::strutil::str_eq(sj, ".") || crate::strutil::str_eq(
                sj,
                "..",
            ) {
                proof {
                    assert(!seg_ok(views_of(segs@)[j as int]));
                }
                return None;
            }
            proof {
                assert(seg_ok(views_of(segs@)[j as int]));
            }
            j = j + 1;
        }
        Some(CanonicalPath { segs })
    }
}

/// A request target proven to lie under the root.
pub struct ResolvedPath {
    /// The full segment list: the root's segments, then the request's.
    pub segs: Vec<String>,
}

impl ResolvedPath {
    /// All segments are clean.
    pub open spec fn wf(&self) -> bool {
        all_segs_ok(views_of(self.segs@))
    }
}

/// Resolves a request path against the canonical root.
///
/// Succeeds exactly when every segment of the request is clean; the result is
/// then the root extended by those segments, hence always contained in the
/// root. A request that tries `.` or `..` traversal is refused.
pub fn resolve(root: &CanonicalPath, request: &str) -> (r: Option<ResolvedPath>)
    requires
        root.wf(),
    ensures
        (r is Some) <==> all_segs_ok(path_segments(request@)),
        r matches Some(p) ==> views_of(p.segs@) == views_of(root.segs@) + path_segments(request@),
        r matches Some(p) ==> p.wf() && contained_in(views_of(p.segs@), views_of(root.segs@)),
{
    let parts = split_path(request);
    let ghost part_views = path_segments(request@);
    let mut j: usize = 0;
    while j < parts.len()
        invariant
            j <= parts@.len(),
            part_views == path_segments(request@),
            views_of(parts@) == part_views,
            forall|i: int| 0 <= i < parts@.len() ==> #[trigger] parts@[i]@.len() > 0,
            forall|k: int| 0 <= k < j ==> #[trigger] seg_ok(part_views[k]),
        decreases parts@.len() - j,
    {
        let sj = parts[j].as_str();
        proof {
            lemma_views_index(parts@, j as int);
        }
        if crate::strutil::str_eq(sj, ".") || crate::strutil::str_eq(sj, "..") {
            proof {
                assert(!all_segs_ok(part_views)) by {
                    assert(!seg_ok(part_views[j as int]));
                }
            }
            return None;
        }
        proof {
            assert(seg_ok(part_views[j as int]));
        }
        j = j + 1;
    }
    let mut segs: Vec<String> = Vec::new();
    let mut k: usize = 0;
    while k < root.segs.len()
        invariant
            k <= root.segs@.len(),
            views_of(segs@) == views_of(root.segs@).take(k as int),
        decreases root.segs@.len() - k,
    {
        let ghost before = segs@;
        let c = root.segs[k].clone();
        segs.push(c);
        proof {
            lemma_views_push(before, c);
            lemma_views_index(root.segs@, k as int);
            assert(views_of(segs@) =~= views_of(root.segs@).take(k + 1));
        }
        k = k + 1;
    }
    proof {
        assert(views_of(segs@) =~= views_of(root.segs@));
    }
    let mut rest = parts;
    let ghost segs_before = segs@;
    let ghost rest_before = rest@;
    segs.append(&mut rest);
    proof {
        assert(segs@ == segs_before + rest_before);
        assert(views_of(segs@) =~= views_of(segs_before) + views_of(rest_before));
    }
    let result = ResolvedPath { segs };
    proof {
        assert(views_of(result.segs@) =~= views_of(root.segs@) + part_views);
        assert(contained_in(views_of(result.segs@), views_of(root.segs@))) by {
            assert(views_of(result.segs@).take(views_of(root.segs@).len() as int) =~= views_of(
                root.segs@,
            ));
        }
        assert(result.wf()) by {
            let whole = views_of(result.segs@);
            assert(forall|i: int| 0 <= i < whole.len() ==> #[trigger] seg_ok(whole[i])) by {
                assert(forall|i: int|
                    0 <= i < views_of(root.segs@).len() ==> whole[i] == #[trigger] views_of(
                        root.segs@,
                    )[i]);
                assert(forall|i: int|
                    views_of(root.segs@).len() <= i < whole.len() ==> whole[i]
                        == #[trigger] part_views[i - views_of(root.segs@).len()]);
            }
        }
    }
    Some(result)
}

/// The segments joined with `/`, no leading or trailing separator.
pub open spec fn join_segments(parts: Seq<Seq<char>>) -> Seq<char>
    decreases parts.len(),
{
    if parts.len() == 0 {
        Seq::empty()
    } else if parts.len() == 1 {
        parts[0]
    } else {
        join_segments(parts.drop_last()) + "/"@ + parts.last()
    }
}

/// The breadcrumb of a directory under a root of `rootlen` segments: its
/// relative path with a trailing separator, empty for the root itself.
pub open spec fn breadcrumb(path: Seq<Seq<char>>, rootlen: int) -> Seq<char> {
    if path.len() <= rootlen {
        Seq::empty()
    } else {
        join_segments(path.skip(rootlen)) + "/"@
    }
}

/// Joins path segments with `/`.
pub fn join_path(parts: &Vec<String>) -> (r: String)
    ensures
        r@ == join_segments(views_of(parts@)),
{
    let mut acc = String::new();
    let mut i: usize = 0;
    proof {
        assert(views_of(parts@).take(0) =~= Seq::<Seq<char>>::empty());
    }
    while i < parts.len()
        invariant
            i <= parts@.len(),
            acc@ == join_segments(views_of(parts@).take(i as int)),
        decreases parts@.len() - i,
    {
        if i > 0 {
            acc.append("/");
        }
        acc.append(parts[i].as_str());
        proof {
            let pv = views_of(parts@);
            assert(pv.take(i + 1).drop_last() =~= pv.take(i as int));
            assert(pv.take(i + 1).last() == pv[i as int]);
        }
        i = i + 1;
    }
    proof {
        assert(views_of(parts@).take(parts@.len() as int) =~= views_of(parts@));
    }
    acc
}

} // verus!
