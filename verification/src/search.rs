//! Highlighting the matches of a search in a line of text. Matching ignores case: the
//! query and the text are lower-cased and searched byte by byte; the pieces are then cut
//! out of the text as written at the byte offsets found in its lower-cased form.

use vstd::prelude::*;
use vstd::utf8::{
    encode_utf8, encode_utf8_valid_utf8, is_char_boundary, length_of_first_scalar,
    pop_first_scalar, valid_utf8,
};


verus! {

/// The text in lower case (`str::to_lowercase`).
pub uninterp spec fn lowercase(s: Seq<char>) -> Seq<char>;

/// Lower-cases a text (`str::to_lowercase`).
///
/// Trusted: the result, a function of the text alone, is named `lowercase`.
#[verifier::external_body]
fn to_lower(s: &str) -> (r: String)
    ensures
        r@ == lowercase(s@),
{
    s.to_lowercase()
}

/// A boundary at or after another one stays a boundary of the text that starts there.
proof fn lemma_boundary_shift(bytes: Seq<u8>, a: int, b: int)
    requires
        valid_utf8(bytes),
        is_char_boundary(bytes, a),
        is_char_boundary(bytes, b),
        a <= b,
    ensures
        is_char_boundary(bytes.subrange(a, bytes.len() as int), b - a),
    decreases bytes.len(),
{
    if a == 0 {
        assert(bytes.subrange(0, bytes.len() as int) =~= bytes);
    } else {
        let l = length_of_first_scalar(bytes);
        let rest = pop_first_scalar(bytes);
        assert(1 <= l <= 4);
        assert(valid_utf8(rest));
        assert(0 < a <= bytes.len());
        assert(is_char_boundary(rest, a - l));
        assert(is_char_boundary(rest, b - l));
        assert(a - l >= 0);
        assert(rest == bytes.subrange(l, bytes.len() as int));
        lemma_boundary_shift(rest, a - l, b - l);
        assert(rest.subrange(a - l, rest.len() as int) =~= bytes.subrange(a, bytes.len() as int));
    }
}

/// The text between two byte offsets that are character boundaries.
fn byte_slice(s: &str, from: usize, to: usize) -> (r: String)
    requires
        from <= to,
        is_char_boundary(encode_utf8(s@), from as int),
        is_char_boundary(encode_utf8(s@), to as int),
    ensures
        encode_utf8(r@) == encode_utf8(s@).subrange(from as int, to as int),
{
    proof {
        encode_utf8_valid_utf8(s@);
        lemma_boundary_shift(encode_utf8(s@), from as int, to as int);
    }
    let (_, tail) = s.split_at(from);
    let (piece, _) = tail.split_at(to - from);
    assert(encode_utf8(piece@) =~= encode_utf8(s@).subrange(from as int, to as int));
    String::from_str(piece)
}

/// `n` occurs in `h` at byte `i`.
pub open spec fn bytes_match(h: Seq<u8>, n: Seq<u8>, i: int) -> bool {
    0 <= i && i + n.len() <= h.len() && h.subrange(i, i + n.len()) == n
}

/// The first byte offset from `i` on where `n` occurs in `h` (`str::find` on the rest).
pub open spec fn find_from(h: Seq<u8>, n: Seq<u8>, i: int) -> Option<int>
    decreases h.len() + 1 - i,
{
    if i < 0 || i + n.len() > h.len() {
        None
    } else if bytes_match(h, n, i) {
        Some(i)
    } else {
        find_from(h, n, i + 1)
    }
}

pub proof fn lemma_find_from(h: Seq<u8>, n: Seq<u8>, i: int)
    requires
        0 <= i,
    ensures
        find_from(h, n, i) matches Some(k) ==> i <= k && bytes_match(h, n, k),
        find_from(h, n, i) is None ==> forall|k: int| i <= k ==> !bytes_match(h, n, k),
    decreases h.len() + 1 - i,
{
    if !(i < 0 || i + n.len() > h.len()) && !bytes_match(h, n, i) {
        lemma_find_from(h, n, i + 1);
        assert forall|k: int| i <= k && find_from(h, n, i) is None implies !bytes_match(h, n, k) by {
            if k == i {
            }
        }
    }
}

/// The pieces of the text `t` from byte `start` on, each marked when it is a match; `l` is
/// the lower-cased text, `q` the lower-cased query and `qlen` the byte length of the
/// query as typed. `None` when a cut would fall inside a character or past the end, where
/// slicing a string aborts.
pub open spec fn spec_highlight_from(
    t: Seq<u8>,
    l: Seq<u8>,
    q: Seq<u8>,
    qlen: int,
    start: int,
) -> Option<Seq<(Seq<u8>, bool)>>
    decreases l.len() + 1 - start,
{
    if !(0 <= start <= l.len()) || !is_char_boundary(l, start) || qlen <= 0 {
        None
    } else {
        match find_from(l, q, start) {
            Some(abs) => {
                let before_ok = abs == start || (is_char_boundary(t, start) && is_char_boundary(
                    t,
                    abs,
                ));
                let match_ok = is_char_boundary(t, abs) && is_char_boundary(t, abs + qlen);
                let next = abs + qlen;
                if !before_ok || !match_ok || next > l.len() {
                    None
                } else {
                    proof {
                        lemma_find_from(l, q, start);
                    }
                    let head = (if abs > start {
                        seq![(t.subrange(start, abs), false)]
                    } else {
                        seq![]
                    }) + seq![(t.subrange(abs, next), true)];
                    match spec_highlight_from(t, l, q, qlen, next) {
                        Some(rest) => Some(head + rest),
                        None => None,
                    }
                }
            },
            None => if start < t.len() {
                if is_char_boundary(t, start) {
                    Some(seq![(t.subrange(start, t.len() as int), false)])
                } else {
                    None
                }
            } else {
                Some(seq![])
            },
        }
    }
}

/// The pieces of `text` with the matches of `query` marked (as bytes), or `None` when
/// cutting them would split a character.
pub open spec fn spec_highlight(text: Seq<char>, query: Seq<char>) -> Option<
    Seq<(Seq<u8>, bool)>,
> {
    spec_highlight_from(
        encode_utf8(text),
        encode_utf8(lowercase(text)),
        encode_utf8(lowercase(query)),
        encode_utf8(query).len() as int,
        0,
    )
}

pub open spec fn pieces_bytes(v: Seq<(String, bool)>) -> Seq<(Seq<u8>, bool)> {
    v.map_values(|p: (String, bool)| (encode_utf8(p.0@), p.1))
}

pub open spec fn prepend_opt(
    acc: Seq<(Seq<u8>, bool)>,
    o: Option<Seq<(Seq<u8>, bool)>>,
) -> Option<Seq<(Seq<u8>, bool)>> {
    match o {
        Some(rest) => Some(acc + rest),
        None => None,
    }
}

/// Whether `n` occurs in `h` at `i`.
fn matches_at(h: &[u8], n: &[u8], i: usize) -> (b: bool)
    ensures
        b == bytes_match(h@, n@, i as int),
{
    if i > h.len() || n.len() > h.len() - i {
        return false;
    }
    let mut k: usize = 0;
    while k < n.len()
        invariant
            i + n.len() <= h.len(),
            k <= n.len(),
            h@.subrange(i as int, i + k) == n@.subrange(0, k as int),
        decreases n.len() - k,
    {
        if h[i + k] != n[k] {
            assert(h@.subrange(i as int, i + n.len())[k as int] != n@[k as int]);
            return false;
        }
        assert(h@.subrange(i as int, i + k + 1) =~= h@.subrange(i as int, i + k).push(h@[i + k]));
        assert(n@.subrange(0, k + 1) =~= n@.subrange(0, k as int).push(n@[k as int]));
        k += 1;
    }
    assert(n@.subrange(0, n.len() as int) =~= n@);
    true
}

/// First offset from `i` on where `n` occurs in `h`.
fn find_bytes(h: &[u8], n: &[u8], i: usize) -> (r: Option<usize>)
    ensures
        match r {
            Some(k) => find_from(h@, n@, i as int) == Some(k as int),
            None => find_from(h@, n@, i as int) is None,
        },
{
    let mut j: usize = i;
    while j <= h.len() && n.len() <= h.len() - j
        invariant
            i <= j,
            find_from(h@, n@, i as int) == find_from(h@, n@, j as int),
        decreases h.len() + 1 - j,
    {
        if matches_at(h, n, j) {
            return Some(j);
        }
        if j == h.len() {
            proof {
                assert(n@.len() == 0);
                assert(h@.subrange(j as int, j as int) =~= n@);
            }
            return None;
        }
        j += 1;
    }
    None
}

/// The pieces of `text` with the matches of `query` marked, or `None` where cutting them
/// would split a character.
fn highlight_text(text: &str, query_lower: &str, query_len: usize) -> (r: Option<Vec<(String, bool)>>)
    ensures
        match r {
            Some(v) => spec_highlight_from(
                encode_utf8(text@),
                encode_utf8(lowercase(text@)),
                encode_utf8(query_lower@),
                query_len as int,
                0,
            ) == Some(pieces_bytes(v@)),
            None => spec_highlight_from(
                encode_utf8(text@),
                encode_utf8(lowercase(text@)),
                encode_utf8(query_lower@),
                query_len as int,
                0,
            ) is None,
        },
{
    let lower = to_lower(text);
    highlight_pieces(text, lower.as_str(), query_lower, query_len)
}

/// The pieces of `text` with the matches marked, given `text` lower-cased (`lower`), the
/// query lower-cased (`query_lower`) and the byte length of the query as typed; `None`
/// where a cut would split a character or fall past the end of `text`.
pub fn highlight_pieces(text: &str, lower: &str, query_lower: &str, query_len: usize) -> (r: Option<
    Vec<(String, bool)>,
>)
    ensures
        match r {
            Some(v) => spec_highlight_from(
                encode_utf8(text@),
                encode_utf8(lower@),
                encode_utf8(query_lower@),
                query_len as int,
                0,
            ) == Some(pieces_bytes(v@)),
            None => spec_highlight_from(
                encode_utf8(text@),
                encode_utf8(lower@),
                encode_utf8(query_lower@),
                query_len as int,
                0,
            ) is None,
        },
{
    let t = text.as_bytes();
    let l = lower.as_bytes();
    let q = query_lower.as_bytes();
    let ghost tb = encode_utf8(text@);
    let ghost lb = encode_utf8(lower@);
    let ghost qb = encode_utf8(query_lower@);
    assert(t@ == tb && l@ == lb && q@ == qb);
    proof {
        vstd::utf8::encode_utf8_valid_utf8(text@);
        vstd::utf8::encode_utf8_valid_utf8(lower@);
    }
    let mut out: Vec<(String, bool)> = Vec::new();
    let mut start: usize = 0;
    assert(pieces_bytes(out@) =~= Seq::<(Seq<u8>, bool)>::empty());
    assert(prepend_opt(pieces_bytes(out@), spec_highlight_from(tb, lb, qb, query_len as int, 0))
        =~= spec_highlight_from(tb, lb, qb, query_len as int, 0)) by {
        match spec_highlight_from(tb, lb, qb, query_len as int, 0) {
            Some(rest) => {
                assert(Seq::<(Seq<u8>, bool)>::empty() + rest =~= rest);
            },
            None => {},
        }
    }
    loop
        invariant
            t@ == tb,
            l@ == lb,
            q@ == qb,
            tb == encode_utf8(text@),
            lb == encode_utf8(lower@),
            qb == encode_utf8(query_lower@),
            start <= l.len(),
            vstd::utf8::valid_utf8(tb),
            vstd::utf8::valid_utf8(lb),
            spec_highlight_from(tb, lb, qb, query_len as int, 0) == prepend_opt(
                pieces_bytes(out@),
                spec_highlight_from(tb, lb, qb, query_len as int, start as int),
            ),
        decreases l.len() + 1 - start,
    {
        if !lower.is_char_boundary(start) || query_len == 0 {
            assert(spec_highlight_from(tb, lb, qb, query_len as int, start as int) is None);
            return None;
        }
        let found = find_bytes(l, q, start);
        proof {
            lemma_find_from(lb, qb, start as int);
        }
        match found {
            Some(abs) => {
                if abs > t.len() {
                    assert(!is_char_boundary(tb, abs as int));
                    return None;
                }
                let before_ok = abs == start || (text.is_char_boundary(start)
                    && text.is_char_boundary(abs));
                if !before_ok || !text.is_char_boundary(abs) {
                    return None;
                }
                if query_len > t.len() - abs || !text.is_char_boundary(abs + query_len) {
                    return None;
                }
                let next = abs + query_len;
                if next > l.len() {
                    return None;
                }
                let ghost head = (if abs > start {
                    seq![(tb.subrange(start as int, abs as int), false)]
                } else {
                    seq![]
                }) + seq![(tb.subrange(abs as int, next as int), true)];
                let ghost before = pieces_bytes(out@);
                if abs > start {
                    let piece = byte_slice(text, start, abs);
                    out.push((piece, false));
                }
                let m = byte_slice(text, abs, next);
                out.push((m, true));
                assert(pieces_bytes(out@) =~= before + head);
                proof {
                    match spec_highlight_from(tb, lb, qb, query_len as int, next as int) {
                        Some(rest) => {
                            assert(before + (head + rest) =~= (before + head) + rest);
                        },
                        None => {},
                    }
                }
                start = next;
            },
            None => {
                if start < t.len() {
                    if !text.is_char_boundary(start) {
                        return None;
                    }
                    let ghost before = pieces_bytes(out@);
                    proof {
                        vstd::utf8::is_char_boundary_start_end_of_seq(tb);
                    }
                    let piece = byte_slice(text, start, t.len());
                    out.push((piece, false));
                    assert(pieces_bytes(out@) =~= before + seq![(tb.subrange(start as int, tb.len() as int), false)]);
                } else {
                    assert(pieces_bytes(out@) =~= pieces_bytes(out@) + Seq::<(Seq<u8>, bool)>::empty());
                }
                return Some(out);
            },
        }
    }
}

/// The pieces of the spans of a line, in order, each with the position of its span.
pub open spec fn spec_highlight_line(spans: Seq<Seq<char>>, query: Seq<char>) -> Option<
    Seq<(int, Seq<u8>, bool)>,
>
    decreases spans.len(),
{
    if spans.len() == 0 {
        Some(seq![])
    } else {
        match (
            spec_highlight_line(spans.drop_last(), query),
            spec_highlight(spans.last(), query),
        ) {
            (Some(before), Some(last)) => Some(
                before + last.map_values(
                    |p: (Seq<u8>, bool)| ((spans.len() - 1) as int, p.0, p.1),
                ),
            ),
            _ => None,
        }
    }
}

proof fn lemma_line_none_extends(spans: Seq<Seq<char>>, query: Seq<char>, k: int)
    requires
        0 <= k <= spans.len(),
        spec_highlight_line(spans.take(k), query) is None,
    ensures
        spec_highlight_line(spans, query) is None,
    decreases spans.len() - k,
{
    if k < spans.len() {
        assert(spans.take(k + 1).drop_last() =~= spans.take(k));
        lemma_line_none_extends(spans, query, k + 1);
    } else {
        assert(spans.take(k) =~= spans);
    }
}

pub open spec fn line_pieces_bytes(v: Seq<(usize, String, bool)>) -> Seq<(int, Seq<u8>, bool)> {
    v.map_values(|p: (usize, String, bool)| (p.0 as int, encode_utf8(p.1@), p.2))
}

fn highlight_line_opt(spans: &Vec<String>, query: &str) -> (r: Option<Vec<(usize, String, bool)>>)
    ensures
        match r {
            Some(v) => spec_highlight_line(spans@.map_values(|s: String| s@), query@) == Some(
                line_pieces_bytes(v@),
            ),
            None => spec_highlight_line(spans@.map_values(|s: String| s@), query@) is None,
        },
{
    let ghost sv = spans@.map_values(|s: String| s@);
    let query_lower = to_lower(query);
    let query_len = query.as_bytes().len();
    assert(query_len == encode_utf8(query@).len());
    let mut out: Vec<(usize, String, bool)> = Vec::new();
    let mut i: usize = 0;
    assert(sv.take(0) =~= Seq::<Seq<char>>::empty());
    assert(line_pieces_bytes(out@) =~= Seq::<(int, Seq<u8>, bool)>::empty());
    while i < spans.len()
        invariant
            i <= spans.len(),
            sv == spans@.map_values(|s: String| s@),
            query_lower@ == lowercase(query@),
            query_len == encode_utf8(query@).len(),
            spec_highlight_line(sv.take(i as int), query@) == Some(line_pieces_bytes(out@)),
        decreases spans.len() - i,
    {
        assert(sv.take(i + 1).drop_last() =~= sv.take(i as int));
        assert(sv.take(i + 1).last() == spans@[i as int]@);
        match highlight_text(spans[i].as_str(), query_lower.as_str(), query_len) {
            Some(pieces) => {
                let ghost before = line_pieces_bytes(out@);
                let mut k: usize = 0;
                while k < pieces.len()
                    invariant
                        k <= pieces.len(),
                        line_pieces_bytes(out@) == before + pieces_bytes(pieces@).take(
                            k as int,
                        ).map_values(|p: (Seq<u8>, bool)| (i as int, p.0, p.1)),
                    decreases pieces.len() - k,
                {
                    let (text, mark) = (pieces[k].0.clone(), pieces[k].1);
                    let ghost prev = out@;
                    out.push((i, text, mark));
                    let ghost pb = pieces_bytes(pieces@);
                    assert(pb[k as int] == (encode_utf8(text@), mark));
                    assert(pb.take(k + 1) =~= pb.take(k as int).push(pb[k as int]));
                    assert(line_pieces_bytes(out@) =~= line_pieces_bytes(prev).push(
                        (i as int, encode_utf8(text@), mark),
                    ));
                    assert(pb.take(k + 1).map_values(|p: (Seq<u8>, bool)| (i as int, p.0, p.1))
                        =~= pb.take(k as int).map_values(
                        |p: (Seq<u8>, bool)| (i as int, p.0, p.1),
                    ).push((i as int, encode_utf8(text@), mark)));
                    k += 1;
                }
                assert(pieces_bytes(pieces@).take(pieces.len() as int) =~= pieces_bytes(
                    pieces@,
                ));
            },
            None => {
                proof {
                    lemma_line_none_extends(sv, query@, i + 1);
                }
                return None;
            },
        }
        i += 1;
    }
    assert(sv.take(spans.len() as int) =~= sv);
    Some(out)
}

/// Whether the matches of `query` in every span can be cut out without splitting a
/// character (see [`spec_highlight`]).
pub fn highlight_fits(spans: &Vec<String>, query: &str) -> (b: bool)
    ensures
        b == spec_highlight_line(spans@.map_values(|s: String| s@), query@) is Some,
{
    highlight_line_opt(spans, query).is_some()
}

/// Splits the spans of a line around the matches of a non-empty `query`, ignoring case.
/// Each piece comes with the position of the span it is cut from and whether it is a
/// match; pieces that are not matches keep their span's style.
pub fn highlight_search(spans: &Vec<String>, query: &str) -> (r: Vec<(usize, String, bool)>)
    requires
        spec_highlight_line(spans@.map_values(|s: String| s@), query@) is Some,
    ensures
        Some(line_pieces_bytes(r@)) == spec_highlight_line(
            spans@.map_values(|s: String| s@),
            query@,
        ),
{
    match highlight_line_opt(spans, query) {
        Some(v) => v,
        None => Vec::new(),
    }
}

/// Splits the spans around the matches of `query` when they can be cut out without
/// splitting a character, and gives `None` otherwise (see [`highlight_search`]).
pub fn try_highlight_search(spans: &Vec<String>, query: &str) -> (r: Option<Vec<(usize, String, bool)>>)
    ensures
        match r {
            Some(v) => Some(line_pieces_bytes(v@)) == spec_highlight_line(
                spans@.map_values(|s: String| s@),
                query@,
            ),
            None => spec_highlight_line(spans@.map_values(|s: String| s@), query@) is None,
        },
{
    if highlight_fits(spans, query) {
        Some(highlight_search(spans, query))
    } else {
        None
    }
}

/// Every piece of a highlighted line comes from one of its spans.
pub proof fn lemma_highlight_line_spans(spans: Seq<Seq<char>>, query: Seq<char>)
    ensures
        spec_highlight_line(spans, query) matches Some(v) ==> forall|k: int|
            0 <= k < v.len() ==> 0 <= (#[trigger] v[k]).0 < spans.len(),
    decreases spans.len(),
{
    if spans.len() > 0 {
        lemma_highlight_line_spans(spans.drop_last(), query);
        if let Some(v) = spec_highlight_line(spans, query) {
            let before = spec_highlight_line(spans.drop_last(), query)->0;
            let last = spec_highlight(spans.last(), query)->0;
            assert(v == before + last.map_values(
                |p: (Seq<u8>, bool)| ((spans.len() - 1) as int, p.0, p.1),
            ));
            assert forall|k: int| 0 <= k < v.len() implies 0 <= (#[trigger] v[k]).0 < spans.len() by {
                if k < before.len() {
                    assert(v[k] == before[k]);
                } else {
                    assert(v[k].0 == spans.len() - 1);
                }
            }
        }
    }
}

} // verus!
