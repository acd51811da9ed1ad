use vstd::prelude::*;

verus! {

/// The segment that pops one level during resolution.
pub open spec fn dot_dot() -> Seq<char> {
    ".."@
}

/// The segment that is skipped during resolution.
pub open spec fn dot() -> Seq<char> {
    "."@
}

/// The file name appended when a resolved path names a directory.
pub open spec fn index_html() -> Seq<char> {
    "index.html"@
}

/// The suffix appended when a resolved file name has no extension.
pub open spec fn html_suffix() -> Seq<char> {
    ".html"@
}

/// The views of a sequence of segments.
pub open spec fn seg_views(v: Seq<String>) -> Seq<Seq<char>> {
    Seq::new(v.len(), |i: int| v[i]@)
}

proof fn lemma_seg_views_push(s: Seq<String>, x: String)
    ensures
        seg_views(s.push(x)) =~= seg_views(s).push(x@),
{
}

proof fn lemma_seg_views_drop_last(s: Seq<String>)
    requires
        s.len() > 0,
    ensures
        seg_views(s.drop_last()) =~= seg_views(s).drop_last(),
{
}

/// The non-empty `/`-separated segments of `s` from position `i` on, with
/// `start` marking where the segment currently being scanned began.
pub open spec fn segments_from(s: Seq<char>, i: int, start: int) -> Seq<Seq<char>>
    decreases s.len() - i,
{
    if i >= s.len() {
        if start < i {
            seq![s.subrange(start, i)]
        } else {
            Seq::empty()
        }
    } else if s[i] == '/' {
        if start < i {
            seq![s.subrange(start, i)] + segments_from(s, i + 1, i + 1)
        } else {
            segments_from(s, i + 1, i + 1)
        }
    } else {
        segments_from(s, i + 1, start)
    }
}

/// The non-empty `/`-separated segments of a path string.  Leading, trailing
/// and repeated separators contribute no segments.
pub open spec fn path_segments(s: Seq<char>) -> Seq<Seq<char>> {
    segments_from(s, 0, 0)
}

/// Resolution of request segments against an accumulated relative path:
/// `..` pops the last accumulated segment (a pop on an empty accumulation is
/// a no-op, so resolution can never climb above its starting point), `.` is
/// skipped, and any other segment is appended verbatim.
pub open spec fn resolve_rel(segs: Seq<Seq<char>>, acc: Seq<Seq<char>>) -> Seq<Seq<char>>
    decreases segs.len(),
{
    if segs.len() == 0 {
        acc
    } else {
        let first = segs[0];
        let acc2 = if first == dot_dot() {
            if acc.len() == 0 {
                acc
            } else {
                acc.drop_last()
            }
        } else if first == dot() {
            acc
        } else {
            acc.push(first)
        };
        resolve_rel(segs.drop_first(), acc2)
    }
}

/// The relative segments a request path resolves to.
pub open spec fn resolved_segments(segs: Seq<Seq<char>>) -> Seq<Seq<char>> {
    resolve_rel(segs, Seq::empty())
}

/// The absolute segments a request resolves to: the root's segments followed
/// by the resolved relative segments.
pub open spec fn spec_canonical(root: Seq<Seq<char>>, req: Seq<Seq<char>>) -> Seq<Seq<char>> {
    root + resolved_segments(req)
}

/// The largest index `j` with `1 <= j < i` and `s[j] == '.'`, or `0` if
/// there is none.  Index `0` never counts: a name consisting of a single
/// leading dot plus a suffix has no extension.
pub open spec fn rfind_dot(s: Seq<char>, i: int) -> int
    decreases i,
{
    if i <= 1 {
        0
    } else if s[i - 1] == '.' {
        i - 1
    } else {
        rfind_dot(s, i - 1)
    }
}

/// The extension of a file name: the part after the last dot, where a dot in
/// first position does not count.  `None` when there is no such dot.
pub open spec fn spec_extension(s: Seq<char>) -> Option<Seq<char>> {
    let j = rfind_dot(s, s.len() as int);
    if j == 0 {
        None
    } else {
        Some(s.subrange(j + 1, s.len() as int))
    }
}

/// The directory and extension fallbacks applied to a canonical path: a
/// directory gains a final `index.html` segment; then, if the final segment
/// has no extension, it gains a `.html` suffix.
pub open spec fn spec_finalize(p: Seq<Seq<char>>, is_dir: bool) -> Seq<Seq<char>> {
    let q = if is_dir {
        p.push(index_html())
    } else {
        p
    };
    if q.len() == 0 {
        q
    } else if spec_extension(q.last()) is None {
        q.drop_last().push(q.last() + html_suffix())
    } else {
        q
    }
}

/// Segments joined with `/` separators.
pub open spec fn join_from(segs: Seq<Seq<char>>) -> Seq<char>
    decreases segs.len(),
{
    if segs.len() == 0 {
        Seq::empty()
    } else if segs.len() == 1 {
        segs[0]
    } else {
        join_from(segs.drop_last()) + "/"@ + segs.last()
    }
}

/// The textual form of a segment path; absolute paths carry a leading `/`.
pub open spec fn spec_render(absolute: bool, segs: Seq<Seq<char>>) -> Seq<char> {
    if absolute {
        "/"@ + join_from(segs)
    } else {
        join_from(segs)
    }
}

/// Character-by-character string equality, stated over the views.
pub fn str_eq(a: &str, b: &str) -> (r: bool)
    ensures
        r == (a@ == b@),
{
    let alen = a.unicode_len();
    let blen = b.unicode_len();
    if alen != blen {
        return false;
    }
    let mut i: usize = 0;
    while i < alen
        invariant
            alen == a@.len(),
            blen == b@.len(),
            alen == blen,
            i <= alen,
            forall|j: int| 0 <= j < i ==> a@[j] == b@[j],
        decreases alen - i,
    {
        if a.get_char(i) != b.get_char(i) {
            return false;
        }
        i += 1;
    }
    proof {
        assert(a@ =~= b@);
    }
    true
}

fn collect_segments(s: &str, i: usize, start: usize, out: &mut Vec<String>)
    requires
        start <= i <= s@.len(),
    ensures
        seg_views(final(out)@) == seg_views(old(out)@) + segments_from(
            s@,
            i as int,
            start as int,
        ),
    decreases s@.len() - i,
{
    let n = s.unicode_len();
    if i >= n {
        if start < i {
            let ghost prev = out@;
            let seg = s.substring_char(start, i).to_owned();
            out.push(seg);
            proof {
                lemma_seg_views_push(prev, seg);
                assert(seg_views(prev).push(seg@) =~= seg_views(prev) + seq![
                    s@.subrange(start as int, i as int),
                ]);
            }
        } else {
            proof {
                assert(seg_views(out@) =~= seg_views(out@) + Seq::<Seq<char>>::empty());
            }
        }
    } else if s.get_char(i) == '/' {
        let ghost prev = out@;
        if start < i {
            let seg = s.substring_char(start, i).to_owned();
            out.push(seg);
            proof {
                lemma_seg_views_push(prev, seg);
            }
        }
        collect_segments(s, i + 1, i + 1, out);
        proof {
            if start < i {
                assert(seg_views(out@) =~= seg_views(prev) + (seq![
                    s@.subrange(start as int, i as int),
                ] + segments_from(s@, i + 1, i + 1)));
            }
        }
    } else {
        collect_segments(s, i + 1, start, out);
    }
}

/// Splits a path string into its non-empty `/`-separated segments.
pub fn split_path(s: &str) -> (r: Vec<String>)
    ensures
        seg_views(r@) == path_segments(s@),
{
    let mut out: Vec<String> = Vec::new();
    proof {
        assert(seg_views(out@) =~= Seq::<Seq<char>>::empty());
    }
    collect_segments(s, 0, 0, &mut out);
    proof {
        assert(Seq::<Seq<char>>::empty() + segments_from(s@, 0, 0) =~= segments_from(s@, 0, 0));
    }
    out
}

fn append_all(dst: &mut Vec<String>, src: &Vec<String>)
    ensures
        seg_views(final(dst)@) == seg_views(old(dst)@) + seg_views(src@),
{
    let mut i: usize = 0;
    while i < src.len()
        invariant
            i <= src@.len(),
            seg_views(dst@) == seg_views(old(dst)@) + seg_views(src@).subrange(0, i as int),
        decreases src@.len() - i,
    {
        let ghost prev = dst@;
        dst.push(src[i].clone());
        proof {
            lemma_seg_views_push(prev, src@[i as int]);
            assert(seg_views(prev).push(src@[i as int]@) =~= seg_views(old(dst)@) + seg_views(
                src@,
            ).subrange(0, i + 1));
        }
        i += 1;
    }
    proof {
        assert(seg_views(src@).subrange(0, src@.len() as int) =~= seg_views(src@));
    }
}

/// The immutable server configuration: the root's segments, and whether the
/// root path was absolute.  All resolved targets lie beneath the root.
pub struct StaticServer {
    pub root: Vec<String>,
    pub absolute: bool,
}

impl StaticServer {
    /// Builds a server for the given root directory path.
    pub fn new(root: &str) -> (r: StaticServer)
        ensures
            seg_views(r.root@) == path_segments(root@),
            r.absolute == (root@.len() > 0 && root@[0] == '/'),
    {
        let abs = root.unicode_len() > 0 && root.get_char(0) == '/';
        StaticServer { root: split_path(root), absolute: abs }
    }

    /// Resolves request segments against the root: `..` pops, `.` is
    /// skipped, anything else is appended.  The result always starts with
    /// the root's own segments.
    pub fn canonicalize(&self, segments: &Vec<String>) -> (r: Vec<String>)
        ensures
            seg_views(r@) == spec_canonical(seg_views(self.root@), seg_views(segments@)),
    {
        let ghost all = seg_views(segments@);
        let mut rel: Vec<String> = Vec::new();
        proof {
            assert(seg_views(rel@) =~= Seq::<Seq<char>>::empty());
            assert(all.subrange(0, all.len() as int) =~= all);
        }
        let mut i: usize = 0;
        while i < segments.len()
            invariant
                i <= segments@.len(),
                all == seg_views(segments@),
                resolve_rel(all.subrange(i as int, all.len() as int), seg_views(rel@))
                    == resolved_segments(all),
            decreases segments@.len() - i,
        {
            let ghost pre = seg_views(rel@);
            let ghost prev = rel@;
            let ghost remaining = all.subrange(i as int, all.len() as int);
            let seg = &segments[i];
            proof {
                assert(remaining[0] == all[i as int]);
                assert(all[i as int] == seg@);
                assert(remaining.drop_first() =~= all.subrange(i + 1, all.len() as int));
            }
            if str_eq(seg.as_str(), "..") {
                if rel.len() > 0 {
                    rel.pop();
                    proof {
                        assert(rel@ =~= prev.drop_last());
                        lemma_seg_views_drop_last(prev);
                    }
                }
            } else if str_eq(seg.as_str(), ".") {
            } else {
                rel.push(seg.clone());
                proof {
                    lemma_seg_views_push(prev, *seg);
                }
            }
            proof {
                assert(resolve_rel(remaining, pre) == resolve_rel(
                    remaining.drop_first(),
                    seg_views(rel@),
                ));
            }
            i += 1;
        }
        proof {
            assert(all.subrange(all.len() as int, all.len() as int) =~= Seq::<Seq<char>>::empty());
        }
        let mut out: Vec<String> = Vec::new();
        proof {
            assert(seg_views(out@) =~= Seq::<Seq<char>>::empty());
        }
        append_all(&mut out, &self.root);
        proof {
            assert(Seq::<Seq<char>>::empty() + seg_views(self.root@) =~= seg_views(self.root@));
        }
        append_all(&mut out, &rel);
        out
    }

    /// The textual form of a segment path under this server's root kind.
    pub fn render(&self, segs: &Vec<String>) -> (r: String)
        ensures
            r@ == spec_render(self.absolute, seg_views(segs@)),
    {
        let ghost dv = seg_views(segs@);
        let mut out = String::new();
        if self.absolute {
            out.append("/");
        }
        let ghost prefix0 = out@;
        proof {
            assert(prefix0 + join_from(dv.subrange(0, 0)) =~= prefix0);
        }
        let mut i: usize = 0;
        while i < segs.len()
            invariant
                i <= segs@.len(),
                dv == seg_views(segs@),
                prefix0 == (if self.absolute {
                    "/"@
                } else {
                    Seq::<char>::empty()
                }),
                out@ == prefix0 + join_from(dv.subrange(0, i as int)),
            decreases segs@.len() - i,
        {
            if i > 0 {
                out.append("/");
            }
            out.append(segs[i].as_str());
            proof {
                let q = dv.subrange(0, i + 1);
                assert(q.drop_last() =~= dv.subrange(0, i as int));
                assert(q.last() == dv[i as int]);
                assert(dv[i as int] == segs@[i as int]@);
                assert(out@ =~= prefix0 + join_from(q));
            }
            i += 1;
        }
        proof {
            assert(dv.subrange(0, dv.len() as int) =~= dv);
            if !self.absolute {
                assert(Seq::<char>::empty() + join_from(dv) =~= join_from(dv));
            }
        }
        out
    }
}

fn rfind_dot_exec(s: &str, i: usize) -> (r: usize)
    requires
        i <= s@.len(),
    ensures
        r == rfind_dot(s@, i as int),
    decreases i,
{
    if i <= 1 {
        0
    } else if s.get_char(i - 1) == '.' {
        i - 1
    } else {
        rfind_dot_exec(s, i - 1)
    }
}

proof fn lemma_rfind_dot_bounds(s: Seq<char>, i: int)
    requires
        i <= s.len(),
    ensures
        rfind_dot(s, i) == 0 || (1 <= rfind_dot(s, i) < i && s[rfind_dot(s, i)] == '.'),
    decreases i,
{
    if i <= 1 {
    } else if s[i - 1] == '.' {
    } else {
        lemma_rfind_dot_bounds(s, i - 1);
    }
}

/// Whether a file name has an extension.
pub fn has_extension(s: &str) -> (r: bool)
    ensures
        r == (spec_extension(s@) is Some),
{
    let n = s.unicode_len();
    rfind_dot_exec(s, n) != 0
}

/// The extension of a file name, if any.
pub fn extension_of(s: &str) -> (r: Option<String>)
    ensures
        r matches Some(e) ==> spec_extension(s@) == Some(e@),
        r is None ==> spec_extension(s@) is None,
{
    let n = s.unicode_len();
    let j = rfind_dot_exec(s, n);
    if j == 0 {
        None
    } else {
        proof {
            lemma_rfind_dot_bounds(s@, n as int);
        }
        Some(s.substring_char(j + 1, n).to_owned())
    }
}

/// Applies the directory and extension fallbacks to a canonical path,
/// exactly as `spec_finalize` describes: an existing directory is served
/// through its `index.html`, and a final segment without an extension gains
/// a `.html` suffix.
pub fn finalize_path(path: Vec<String>, is_dir: bool) -> (r: Vec<String>)
    ensures
        seg_views(r@) == spec_finalize(seg_views(path@), is_dir),
        is_dir ==> seg_views(r@) == seg_views(path@).push(index_html()),
        !is_dir && path@.len() > 0 && spec_extension(seg_views(path@).last()) is None
            ==> seg_views(r@) == seg_views(path@).drop_last().push(
            seg_views(path@).last() + html_suffix(),
        ),
{
    let ghost before = seg_views(path@);
    let mut p = path;
    if is_dir {
        let ghost prev = p@;
        p.push(String::from_str("index.html"));
        proof {
            lemma_seg_views_push(prev, p@.last());
            assert(seg_views(p@) =~= before.push(index_html()));
        }
    }
    let ghost q = seg_views(p@);
    if p.len() == 0 {
        return p;
    }
    let has_ext = has_extension(p[p.len() - 1].as_str());
    proof {
        assert(q.last() == p@[p@.len() - 1]@);
    }
    if !has_ext {
        let ghost prev = p@;
        let last = match p.pop() {
            Some(l) => l,
            None => String::new(),
        };
        proof {
            assert(p@ =~= prev.drop_last());
            lemma_seg_views_drop_last(prev);
            assert(last@ == q.last());
        }
        let newlast = last.concat(".html");
        let ghost mid = p@;
        p.push(newlast);
        proof {
            lemma_seg_views_push(mid, newlast);
            assert(seg_views(p@) =~= q.drop_last().push(q.last() + html_suffix()));
        }
    }
    proof {
        if is_dir {
            lemma_index_html_has_extension();
        }
    }
    p
}

/// The appended `index.html` segment itself has an extension, so the
/// `.html` fallback never alters it.
proof fn lemma_index_html_has_extension()
    ensures
        spec_extension(index_html()) is Some,
{
    reveal_strlit("index.html");
    reveal_with_fuel(rfind_dot, 7);
    assert(index_html().len() == 10);
    assert(rfind_dot(index_html(), 10) == 5);
}

/// Law: resolution is confined to the root.  Whatever the request segments
/// are — any number of `..` segments included — the canonical path starts
/// with the root's own segments.
pub proof fn lemma_resolution_confined(root: Seq<Seq<char>>, req: Seq<Seq<char>>)
    ensures
        root.is_prefix_of(spec_canonical(root, req)),
{
    assert(root =~= spec_canonical(root, req).subrange(0, root.len() as int));
}

/// Law: the fully resolved target — directory and extension fallbacks
/// applied — still starts with the root's own segments, whenever the
/// request names a directory or leaves at least one relative segment.
pub proof fn lemma_resolved_target_confined(
    root: Seq<Seq<char>>,
    req: Seq<Seq<char>>,
    is_dir: bool,
)
    requires
        is_dir || resolved_segments(req).len() > 0,
    ensures
        root.is_prefix_of(spec_finalize(spec_canonical(root, req), is_dir)),
{
    let c = spec_canonical(root, req);
    let q = if is_dir {
        c.push(index_html())
    } else {
        c
    };
    let r = spec_finalize(c, is_dir);
    assert(root.len() < q.len());
    if spec_extension(q.last()) is None {
        assert(r =~= q.drop_last().push(q.last() + html_suffix()));
        assert(root =~= r.subrange(0, root.len() as int));
    } else {
        assert(root =~= r.subrange(0, root.len() as int));
    }
}

} // verus!
