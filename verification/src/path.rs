//! Unix path semantics on strings: splitting into components, joining, the file name,
//! the file stem and the parent directory, each as `std::path` defines it.
//!
//! A path is held as a `String`. Its components are an optional root (`/`), an optional
//! leading current-directory marker (`.` when the path starts with `./` or is `.`), and the
//! segments between separators that are neither empty nor `.`.

use vstd::prelude::*;
use crate::text::{chars_of, string_from_range, string_from_chars, push_char};

verus! {

/// A segment between separators counts as a component unless it is empty or `.`.
pub open spec fn is_component(seg: Seq<char>) -> bool {
    seg.len() > 0 && !(seg.len() == 1 && seg[0] == '.')
}

/// Scans the first `n` characters of `p`: the ranges of the completed segments that count
/// as components, and the start of the segment being read.
pub open spec fn seg_scan(p: Seq<char>, n: int) -> (Seq<(int, int)>, int)
    decreases n,
{
    if n <= 0 {
        (seq![], 0)
    } else {
        let (r, st) = seg_scan(p, n - 1);
        if p[n - 1] == '/' {
            (if is_component(p.subrange(st, n - 1)) { r.push((st, n - 1)) } else { r }, n)
        } else {
            (r, st)
        }
    }
}

/// The ranges `[start, end)` of the segments of `p` that are components, in order.
pub open spec fn seg_ranges(p: Seq<char>) -> Seq<(int, int)> {
    let (r, st) = seg_scan(p, p.len() as int);
    if is_component(p.subrange(st, p.len() as int)) {
        r.push((st, p.len() as int))
    } else {
        r
    }
}

/// The segments of `p` that are components, in order.
pub open spec fn segments(p: Seq<char>) -> Seq<Seq<char>> {
    seg_ranges(p).map_values(|r: (int, int)| p.subrange(r.0, r.1))
}

pub open spec fn has_root(p: Seq<char>) -> bool {
    p.len() > 0 && p[0] == '/'
}

/// A relative path that starts with the current directory (`.` or `./...`).
pub open spec fn has_cur_dir(p: Seq<char>) -> bool {
    !has_root(p) && p.len() > 0 && p[0] == '.' && (p.len() == 1 || p[1] == '/')
}

/// Length of the part before the first segment: the root or the current-directory marker.
pub open spec fn body_start(p: Seq<char>) -> int {
    if has_root(p) || has_cur_dir(p) {
        1
    } else {
        0
    }
}

/// The components of `p` (`Path::components`): the root as `/`, the leading current
/// directory as `.`, then the segments.
pub open spec fn components(p: Seq<char>) -> Seq<Seq<char>> {
    (if has_root(p) { seq![seq!['/']] } else { seq![] }) + (if has_cur_dir(p) {
        seq![seq!['.']]
    } else {
        seq![]
    }) + segments(p)
}

/// `Path::file_name`: the last component when it is a normal segment.
pub open spec fn spec_file_name(p: Seq<char>) -> Option<Seq<char>> {
    let s = segments(p);
    if s.len() == 0 || s.last() == seq!['.', '.'] {
        None
    } else {
        Some(s.last())
    }
}

/// Index of the last `.` among the first `k` characters of `n`, or -1.
pub open spec fn last_dot(n: Seq<char>, k: int) -> int
    decreases k,
{
    if k <= 0 {
        -1
    } else if n[k - 1] == '.' {
        k - 1
    } else {
        last_dot(n, k - 1)
    }
}

/// The stem of a file name: the part before its last `.`, unless that dot is the first
/// character or there is none.
pub open spec fn stem_of(n: Seq<char>) -> Seq<char> {
    let d = last_dot(n, n.len() as int);
    if d <= 0 {
        n
    } else {
        n.subrange(0, d)
    }
}

/// `Path::file_stem`.
pub open spec fn spec_file_stem(p: Seq<char>) -> Option<Seq<char>> {
    match spec_file_name(p) {
        Some(n) => Some(stem_of(n)),
        None => None,
    }
}

/// `Path::parent`: the path without its last component, or `None` for a path that is
/// empty or only a root.
pub open spec fn spec_parent(p: Seq<char>) -> Option<Seq<char>> {
    let r = seg_ranges(p);
    if r.len() > 0 {
        let end = if r.len() >= 2 { r[r.len() - 2].1 } else { body_start(p) };
        Some(p.subrange(0, end))
    } else if has_root(p) {
        None
    } else if has_cur_dir(p) {
        Some(seq![])
    } else {
        None
    }
}

/// `Path::join` / `PathBuf::push`: an absolute `rest` replaces `base`; otherwise a
/// separator is inserted when `base` is not empty and does not end with one.
pub open spec fn spec_join(base: Seq<char>, rest: Seq<char>) -> Seq<char> {
    if rest.len() > 0 && rest[0] == '/' {
        rest
    } else if base.len() > 0 && base.last() != '/' {
        base + seq!['/'] + rest
    } else {
        base + rest
    }
}

pub open spec fn opt_view(o: Option<String>) -> Option<Seq<char>> {
    match o {
        Some(s) => Some(s@),
        None => None,
    }
}

pub open spec fn ranges_view(r: Seq<(usize, usize)>) -> Seq<(int, int)> {
    r.map_values(|x: (usize, usize)| (x.0 as int, x.1 as int))
}

/// Every range produced by the scan lies within the scanned prefix, in increasing order,
/// and ends before the segment being read.
pub open spec fn scan_ok(p: Seq<char>, n: int) -> bool {
    let (r, st) = seg_scan(p, n);
    &&& 0 <= st <= n
    &&& forall|i: int| 0 <= i < r.len() ==> 0 <= #[trigger] r[i].0 < r[i].1 && r[i].1 < st
    &&& forall|i: int, j: int| 0 <= i < j < r.len() ==> #[trigger] r[i].1 < #[trigger] r[j].0
    &&& forall|i: int, k: int|
        #![trigger r[i], p[k]]
        0 <= i < r.len() && r[i].0 <= k < r[i].1 ==> p[k] != '/'
    &&& forall|k: int| st <= k < n ==> p[k] != '/'
}

proof fn lemma_scan_ok(p: Seq<char>, n: int)
    requires
        0 <= n <= p.len(),
    ensures
        scan_ok(p, n),
    decreases n,
{
    if n > 0 {
        lemma_scan_ok(p, n - 1);
    }
}

/// Each component range is non-empty, in bounds, holds no separator and is not `.`;
/// the ranges are in increasing order.
pub proof fn lemma_seg_ranges(p: Seq<char>)
    ensures
        forall|i: int|
            0 <= i < seg_ranges(p).len() ==> 0 <= #[trigger] seg_ranges(p)[i].0 < seg_ranges(
                p,
            )[i].1 <= p.len(),
        forall|i: int, j: int|
            0 <= i < j < seg_ranges(p).len() ==> #[trigger] seg_ranges(p)[i].1
                < #[trigger] seg_ranges(p)[j].0,
        forall|i: int, k: int|
            0 <= i < seg_ranges(p).len() && #[trigger] seg_ranges(p)[i].0 <= k < seg_ranges(
                p,
            )[i].1 ==> #[trigger] p[k] != '/',
        forall|i: int|
            0 <= i < seg_ranges(p).len() ==> is_component(
                p.subrange(#[trigger] seg_ranges(p)[i].0, seg_ranges(p)[i].1),
            ),
{
    lemma_scan_ok(p, p.len() as int);
    lemma_scan_components(p, p.len() as int);
    let (r, st) = seg_scan(p, p.len() as int);
    if is_component(p.subrange(st, p.len() as int)) {
        let q = seg_ranges(p);
        assert forall|i: int, j: int| 0 <= i < j < q.len() implies #[trigger] q[i].1
            < #[trigger] q[j].0 by {
            assert(scan_ok(p, p.len() as int));
            assert(0 <= r[i].0 < r[i].1 && r[i].1 < st);
            if j < r.len() {
                assert(q[i] == r[i] && q[j] == r[j]);
                assert(r[i].1 < r[j].0);
            } else {
                assert(q[i] == r[i]);
            }
        }
        assert forall|i: int, k: int|
            0 <= i < q.len() && #[trigger] q[i].0 <= k < q[i].1 implies #[trigger] p[k]
            != '/' by {
            if i < r.len() {
                assert(q[i] == r[i]);
            }
        }
        assert forall|i: int| 0 <= i < q.len() implies is_component(
            p.subrange(#[trigger] q[i].0, q[i].1),
        ) by {
            if i < r.len() {
                assert(q[i] == r[i]);
            }
        }
    }
}

proof fn lemma_scan_components(p: Seq<char>, n: int)
    requires
        0 <= n <= p.len(),
    ensures
        forall|i: int|
            0 <= i < seg_scan(p, n).0.len() ==> is_component(
                p.subrange(#[trigger] seg_scan(p, n).0[i].0, seg_scan(p, n).0[i].1),
            ),
    decreases n,
{
    if n > 0 {
        lemma_scan_components(p, n - 1);
        let (r, st) = seg_scan(p, n - 1);
        if p[n - 1] == '/' && is_component(p.subrange(st, n - 1)) {
            assert forall|i: int| 0 <= i < seg_scan(p, n).0.len() implies is_component(
                p.subrange(#[trigger] seg_scan(p, n).0[i].0, seg_scan(p, n).0[i].1),
            ) by {
                if i < r.len() {
                    assert(seg_scan(p, n).0[i] == r[i]);
                }
            }
        }
    }
}

/// The ranges of the components of `chars`.
fn component_ranges(chars: &Vec<char>) -> (r: Vec<(usize, usize)>)
    ensures
        ranges_view(r@) == seg_ranges(chars@),
{
    let n = chars.len();
    let mut ranges: Vec<(usize, usize)> = Vec::new();
    let mut st: usize = 0;
    let mut i: usize = 0;
    while i < n
        invariant
            n == chars.len(),
            st <= i <= n,
            (ranges_view(ranges@), st as int) == seg_scan(chars@, i as int),
        decreases n - i,
    {
        if chars[i] == '/' {
            let comp = i > st && !(i == st + 1 && chars[st] == '.');
            assert(comp == is_component(chars@.subrange(st as int, i as int)));
            if comp {
                ranges.push((st, i));
                assert(ranges_view(ranges@) =~= ranges_view(ranges@.drop_last()).push(
                    (st as int, i as int),
                ));
            }
            st = i + 1;
        }
        i += 1;
    }
    let comp = n > st && !(n == st + 1 && chars[st] == '.');
    assert(comp == is_component(chars@.subrange(st as int, n as int)));
    if comp {
        ranges.push((st, n));
        assert(ranges_view(ranges@) =~= ranges_view(ranges@.drop_last()).push(
            (st as int, n as int),
        ));
    }
    ranges
}

fn root_of(chars: &Vec<char>) -> (b: bool)
    ensures
        b == has_root(chars@),
{
    chars.len() > 0 && chars[0] == '/'
}

fn cur_dir_of(chars: &Vec<char>) -> (b: bool)
    ensures
        b == has_cur_dir(chars@),
{
    !(chars.len() > 0 && chars[0] == '/') && chars.len() > 0 && chars[0] == '.' && (chars.len()
        == 1 || chars[1] == '/')
}

/// Joins `rest` onto `base` as `Path::join` does.
pub fn join_path(base: &str, rest: &str) -> (r: String)
    ensures
        r@ == spec_join(base@, rest@),
{
    let b = chars_of(base);
    let t = chars_of(rest);
    if t.len() > 0 && t[0] == '/' {
        return string_from_chars(&t);
    }
    let mut out = string_from_chars(&b);
    if b.len() > 0 && b[b.len() - 1] != '/' {
        push_char(&mut out, '/');
    }
    let mut i: usize = 0;
    let ghost start = out@;
    while i < t.len()
        invariant
            i <= t.len(),
            out@ == start + t@.take(i as int),
        decreases t.len() - i,
    {
        push_char(&mut out, t[i]);
        assert(t@.take(i + 1) =~= t@.take(i as int).push(t@[i as int]));
        i += 1;
    }
    assert(t@.take(t.len() as int) =~= t@);
    assert(b@.len() > 0 ==> b@.last() == b@[b.len() - 1]);
    out
}

/// The last component of `path` when it is a normal segment (`Path::file_name`).
pub fn file_name(path: &str) -> (r: Option<String>)
    ensures
        opt_view(r) == spec_file_name(path@),
{
    let chars = chars_of(path);
    let ranges = component_ranges(&chars);
    proof {
        lemma_seg_ranges(chars@);
    }
    if ranges.len() == 0 {
        return None;
    }
    let (a, b) = ranges[ranges.len() - 1];
    assert(ranges_view(ranges@)[ranges.len() - 1] == (a as int, b as int));
    let ghost segs = segments(path@);
    assert(segs.last() == chars@.subrange(a as int, b as int));
    if b - a == 2 && chars[a] == '.' && chars[a + 1] == '.' {
        assert(segs.last() =~= seq!['.', '.']);
        None
    } else {
        assert(segs.last() != seq!['.', '.']) by {
            if segs.last() == seq!['.', '.'] {
                assert(segs.last().len() == 2);
                assert(segs.last()[0] == chars@[a as int]);
                assert(segs.last()[1] == chars@[a + 1]);
            }
        }
        Some(string_from_range(&chars, a, b))
    }
}

/// The stem of `name`, as `Path::file_stem` takes it from a file name.
fn stem_of_name(name: &Vec<char>) -> (r: String)
    ensures
        r@ == stem_of(name@),
{
    let mut k: usize = name.len();
    while k > 0 && name[k - 1] != '.'
        invariant
            k <= name.len(),
            last_dot(name@, name.len() as int) == last_dot(name@, k as int),
        decreases k,
    {
        k -= 1;
    }
    // k is 0 (no dot) or one past the last dot.
    if k <= 1 {
        string_from_chars(name)
    } else {
        string_from_range(name, 0, k - 1)
    }
}

/// The file name of `path` without its extension (`Path::file_stem`).
pub fn file_stem(path: &str) -> (r: Option<String>)
    ensures
        opt_view(r) == spec_file_stem(path@),
{
    match file_name(path) {
        Some(n) => {
            let chars = chars_of(n.as_str());
            Some(stem_of_name(&chars))
        },
        None => None,
    }
}

/// The path without its last component (`Path::parent`).
pub fn parent(path: &str) -> (r: Option<String>)
    ensures
        opt_view(r) == spec_parent(path@),
{
    let chars = chars_of(path);
    let ranges = component_ranges(&chars);
    proof {
        lemma_seg_ranges(chars@);
    }
    let n = ranges.len();
    if n > 0 {
        let end = if n >= 2 {
            assert(ranges_view(ranges@)[n - 2] == (ranges@[n - 2].0 as int, ranges@[n - 2].1 as int));
            ranges[n - 2].1
        } else if root_of(&chars) || cur_dir_of(&chars) {
            1
        } else {
            0
        };
        assert(end <= chars.len()) by {
            if n < 2 && end == 1 {
                assert(chars@.len() > 0);
            }
        }
        Some(string_from_range(&chars, 0, end))
    } else if root_of(&chars) {
        None
    } else if cur_dir_of(&chars) {
        Some(String::new())
    } else {
        None
    }
}

/// Whether two character ranges hold the same characters.
fn range_equal(x: &Vec<char>, xs: usize, xe: usize, y: &Vec<char>, ys: usize, ye: usize) -> (r: bool)
    requires
        xs <= xe <= x.len(),
        ys <= ye <= y.len(),
    ensures
        r == (x@.subrange(xs as int, xe as int) == y@.subrange(ys as int, ye as int)),
{
    if xe - xs != ye - ys {
        assert(x@.subrange(xs as int, xe as int).len() != y@.subrange(ys as int, ye as int).len());
        return false;
    }
    let len = xe - xs;
    let ghost xa = x@.subrange(xs as int, xe as int);
    let ghost ya = y@.subrange(ys as int, ye as int);
    let mut k: usize = 0;
    while k < len
        invariant
            xs + len == xe <= x.len(),
            ys + len == ye <= y.len(),
            xa == x@.subrange(xs as int, xe as int),
            ya == y@.subrange(ys as int, ye as int),
            k <= len,
            forall|m: int| 0 <= m < k ==> #[trigger] xa[m] == ya[m],
        decreases len - k,
    {
        if x[xs + k] != y[ys + k] {
            assert(xa[k as int] != ya[k as int]);
            return false;
        }
        assert(xa[k as int] == ya[k as int]);
        k += 1;
    }
    assert(xa =~= ya);
    true
}

/// Each segment of `p` is a component that holds no separator.
proof fn lemma_segments_shape(p: Seq<char>)
    ensures
        forall|i: int|
            0 <= i < segments(p).len() ==> is_component(#[trigger] segments(p)[i]) && segments(
                p,
            )[i][0] != '/',
{
    lemma_seg_ranges(p);
    assert forall|i: int| 0 <= i < segments(p).len() implies is_component(
        #[trigger] segments(p)[i],
    ) && segments(p)[i][0] != '/' by {
        let r = seg_ranges(p)[i];
        assert(segments(p)[i] == p.subrange(r.0, r.1));
        assert(p[r.0] != '/');
    }
}

/// Whether two paths have the same components (`Path`'s `==`).
pub fn same_path(a: &str, b: &str) -> (r: bool)
    ensures
        r == (components(a@) == components(b@)),
{
    let ca = chars_of(a);
    let cb = chars_of(b);
    let ra = component_ranges(&ca);
    let rb = component_ranges(&cb);
    proof {
        lemma_seg_ranges(ca@);
        lemma_seg_ranges(cb@);
        lemma_segments_shape(ca@);
        lemma_segments_shape(cb@);
    }
    let root_a = root_of(&ca);
    let root_b = root_of(&cb);
    let cur_a = cur_dir_of(&ca);
    let cur_b = cur_dir_of(&cb);
    let ghost sa = segments(a@);
    let ghost sb = segments(b@);
    let ghost ma: Seq<Seq<char>> = (if root_a { seq![seq!['/']] } else { seq![] }) + (if cur_a {
        seq![seq!['.']]
    } else {
        seq![]
    });
    let ghost mb: Seq<Seq<char>> = (if root_b { seq![seq!['/']] } else { seq![] }) + (if cur_b {
        seq![seq!['.']]
    } else {
        seq![]
    });
    assert(components(a@) == ma + sa);
    assert(components(b@) == mb + sb);
    if root_a != root_b || cur_a != cur_b {
        proof {
            if components(a@) == components(b@) {
                let c = components(a@);
                assert(c.len() > 0) by {
                    assert(ma.len() + sa.len() == mb.len() + sb.len());
                }
                if root_a {
                    assert(c[0] == seq!['/']);
                    if cur_b {
                        assert(components(b@)[0] == seq!['.']);
                        assert(seq!['.'][0] != seq!['/'][0]);
                    } else {
                        assert(components(b@)[0] == sb[0]);
                        assert(sb[0][0] != '/');
                    }
                } else if root_b {
                    assert(components(b@)[0] == seq!['/']);
                    if cur_a {
                        assert(c[0] == seq!['.']);
                        assert(seq!['.'][0] != seq!['/'][0]);
                    } else {
                        assert(c[0] == sa[0]);
                        assert(sa[0][0] != '/');
                    }
                } else if cur_a {
                    assert(c[0] == seq!['.']);
                    assert(components(b@)[0] == sb[0]);
                    assert(is_component(sb[0]));
                } else {
                    assert(components(b@)[0] == seq!['.']);
                    assert(c[0] == sa[0]);
                    assert(is_component(sa[0]));
                }
            }
        }
        return false;
    }
    assert(ma == mb);
    if ra.len() != rb.len() {
        proof {
            if components(a@) == components(b@) {
                assert((ma + sa).len() == (mb + sb).len());
            }
        }
        return false;
    }
    let n = ra.len();
    let mut i: usize = 0;
    while i < n
        invariant
            n == ra.len() == rb.len(),
            n == sa.len() == sb.len(),
            i <= n,
            ranges_view(ra@) == seg_ranges(ca@),
            ranges_view(rb@) == seg_ranges(cb@),
            sa == segments(ca@),
            sb == segments(cb@),
            ca@ == a@,
            cb@ == b@,
            ma == mb,
            components(a@) == ma + sa,
            components(b@) == mb + sb,
            forall|m: int| 0 <= m < seg_ranges(ca@).len() ==> 0 <= #[trigger] seg_ranges(ca@)[m].0 < seg_ranges(ca@)[m].1 <= ca@.len(),
            forall|m: int| 0 <= m < seg_ranges(cb@).len() ==> 0 <= #[trigger] seg_ranges(cb@)[m].0 < seg_ranges(cb@)[m].1 <= cb@.len(),
            forall|m: int| 0 <= m < i ==> sa[m] == sb[m],
        decreases n - i,
    {
        assert(seg_ranges(ca@)[i as int] == (ra@[i as int].0 as int, ra@[i as int].1 as int));
        assert(seg_ranges(cb@)[i as int] == (rb@[i as int].0 as int, rb@[i as int].1 as int));
        let (xs, xe) = ra[i];
        let (ys, ye) = rb[i];
        if !range_equal(&ca, xs, xe, &cb, ys, ye) {
            proof {
                assert(sa[i as int] == ca@.subrange(xs as int, xe as int));
                assert(sb[i as int] == cb@.subrange(ys as int, ye as int));
                if components(a@) == components(b@) {
                    assert(ma + sa == mb + sb);
                    assert((ma + sa)[ma.len() + i] == sa[i as int]);
                    assert((mb + sb)[mb.len() + i] == sb[i as int]);
                    assert(false);
                }
            }
            return false;
        }
        assert(sa[i as int] == ca@.subrange(xs as int, xe as int));
        assert(sb[i as int] == cb@.subrange(ys as int, ye as int));
        i += 1;
    }
    assert(sa =~= sb);
    true
}

} // verus!
