//! The list of recently opened documents: most recent first, without repeats, bounded in
//! length, stored one path per line.

use vstd::prelude::*;
use crate::path::{components, same_path, spec_join, join_path, opt_view};
use crate::text::{chars_of, string_from_chars, push_char};

verus! {

/// How many documents the list keeps.
pub const MAX_RECENTS: usize = 50;

pub open spec fn strings_view(v: Seq<String>) -> Seq<Seq<char>> {
    v.map_values(|s: String| s@)
}

/// The entries that do not name the same path as `path`, in order.
pub open spec fn without_path(entries: Seq<Seq<char>>, path: Seq<char>) -> Seq<Seq<char>>
    decreases entries.len(),
{
    if entries.len() == 0 {
        seq![]
    } else {
        let rest = without_path(entries.drop_last(), path);
        if components(entries.last()) == components(path) {
            rest
        } else {
            rest.push(entries.last())
        }
    }
}

/// `path` in front of the other entries, cut to at most `max` entries.
pub open spec fn spec_promote(entries: Seq<Seq<char>>, path: Seq<char>, max: int) -> Seq<
    Seq<char>,
> {
    let full = seq![path] + without_path(entries, path);
    if max < full.len() {
        full.take(max)
    } else {
        full
    }
}

proof fn lemma_without_path_len(entries: Seq<Seq<char>>, path: Seq<char>)
    ensures
        without_path(entries, path).len() <= entries.len(),
    decreases entries.len(),
{
    if entries.len() > 0 {
        lemma_without_path_len(entries.drop_last(), path);
    }
}

/// Moves `path` to the front of `entries`, dropping other entries for the same path and
/// keeping at most `max` entries.
pub fn promote(entries: Vec<String>, path: &str, max: usize) -> (r: Vec<String>)
    ensures
        strings_view(r@) == spec_promote(strings_view(entries@), path@, max as int),
{
    let ghost ev = strings_view(entries@);
    let mut kept: Vec<String> = Vec::new();
    let mut i: usize = 0;
    while i < entries.len()
        invariant
            i <= entries.len(),
            ev == strings_view(entries@),
            strings_view(kept@) == without_path(ev.take(i as int), path@),
        decreases entries.len() - i,
    {
        assert(ev.take(i + 1).drop_last() =~= ev.take(i as int));
        assert(ev.take(i + 1).last() == entries@[i as int]@);
        if !same_path(entries[i].as_str(), path) {
            kept.push(entries[i].clone());
            assert(strings_view(kept@) =~= strings_view(kept@.drop_last()).push(
                kept@.last()@,
            ));
        }
        i += 1;
    }
    assert(ev.take(entries.len() as int) =~= ev);
    let ghost full = seq![path@] + without_path(ev, path@);
    let mut r: Vec<String> = Vec::new();
    if max == 0 {
        assert(full.take(0) =~= seq![]);
        return r;
    }
    r.push(String::from_str(path));
    let mut j: usize = 0;
    while j < kept.len() && r.len() < max
        invariant
            j <= kept.len(),
            r.len() == j + 1,
            r.len() <= max,
            full == seq![path@] + strings_view(kept@),
            strings_view(r@) == full.take(j + 1),
        decreases kept.len() - j,
    {
        r.push(kept[j].clone());
        assert(full.take(j + 2) =~= full.take(j + 1).push(kept@[j as int]@));
        assert(strings_view(r@) =~= strings_view(r@.drop_last()).push(r@.last()@));
        j += 1;
    }
    assert(strings_view(r@) == spec_promote(ev, path@, max as int)) by {
        if max < full.len() {
            assert(r.len() == max);
        } else {
            assert(j == kept.len());
            assert(full.take(j + 1) =~= full);
        }
    }
    r
}

/// Scans the first `n` characters of `s` into lines as `str::lines` does (a line ends at
/// `\n`, and a `\r` just before that `\n` is dropped), keeping only non-empty lines.
/// Returns the completed lines and the line being read.
pub open spec fn line_scan(s: Seq<char>, n: int) -> (Seq<Seq<char>>, Seq<char>)
    decreases n,
{
    if n <= 0 {
        (seq![], seq![])
    } else {
        let (done, cur) = line_scan(s, n - 1);
        if s[n - 1] == '\n' {
            let line = if cur.len() > 0 && cur.last() == '\r' { cur.drop_last() } else { cur };
            (if line.len() > 0 { done.push(line) } else { done }, seq![])
        } else {
            (done, cur.push(s[n - 1]))
        }
    }
}

/// The non-empty lines of `s`; a final line without `\n` is kept as it is.
pub open spec fn nonempty_lines(s: Seq<char>) -> Seq<Seq<char>> {
    let (done, cur) = line_scan(s, s.len() as int);
    if cur.len() > 0 {
        done.push(cur)
    } else {
        done
    }
}

/// The entries of a stored list: its non-empty lines.
pub fn parse_recent(contents: &str) -> (r: Vec<String>)
    ensures
        strings_view(r@) == nonempty_lines(contents@),
{
    let chars = chars_of(contents);
    let mut done: Vec<String> = Vec::new();
    let mut cur: Vec<char> = Vec::new();
    let mut i: usize = 0;
    while i < chars.len()
        invariant
            i <= chars.len(),
            chars@ == contents@,
            (strings_view(done@), cur@) == line_scan(chars@, i as int),
        decreases chars.len() - i,
    {
        if chars[i] == '\n' {
            if cur.len() > 0 && cur[cur.len() - 1] == '\r' {
                cur.pop();
            }
            if cur.len() > 0 {
                done.push(string_from_chars(&cur));
                assert(strings_view(done@) =~= strings_view(done@.drop_last()).push(
                    done@.last()@,
                ));
            }
            cur = Vec::new();
        } else {
            cur.push(chars[i]);
        }
        i += 1;
    }
    if cur.len() > 0 {
        done.push(string_from_chars(&cur));
        assert(strings_view(done@) =~= strings_view(done@.drop_last()).push(done@.last()@));
    }
    done
}

/// The entries separated by `\n`.
pub open spec fn join_lines(entries: Seq<Seq<char>>) -> Seq<char>
    decreases entries.len(),
{
    if entries.len() == 0 {
        seq![]
    } else if entries.len() == 1 {
        entries[0]
    } else {
        join_lines(entries.drop_last()) + seq!['\n'] + entries.last()
    }
}

/// The stored form of a list: the entries joined by `\n`, then a final `\n`.
pub open spec fn spec_render_recent(entries: Seq<Seq<char>>) -> Seq<char> {
    join_lines(entries).push('\n')
}

fn append_chars(out: &mut String, s: &str)
    ensures
        final(out)@ == old(out)@ + s@,
{
    let chars = chars_of(s);
    let mut i: usize = 0;
    let ghost start = out@;
    while i < chars.len()
        invariant
            i <= chars.len(),
            chars@ == s@,
            out@ == start + chars@.take(i as int),
        decreases chars.len() - i,
    {
        push_char(out, chars[i]);
        assert(chars@.take(i + 1) =~= chars@.take(i as int).push(chars@[i as int]));
        i += 1;
    }
    assert(chars@.take(chars.len() as int) =~= chars@);
}

/// The text that stores `entries`.
pub fn render_recent(entries: &Vec<String>) -> (r: String)
    ensures
        r@ == spec_render_recent(strings_view(entries@)),
{
    let ghost ev = strings_view(entries@);
    let mut out = String::new();
    let mut i: usize = 0;
    while i < entries.len()
        invariant
            i <= entries.len(),
            ev == strings_view(entries@),
            out@ == join_lines(ev.take(i as int)),
        decreases entries.len() - i,
    {
        if i > 0 {
            push_char(&mut out, '\n');
        }
        append_chars(&mut out, entries[i].as_str());
        assert(ev.take(i + 1).drop_last() =~= ev.take(i as int));
        assert(ev.take(i + 1).last() == entries@[i as int]@);
        proof {
            if i == 0 {
                assert(ev.take(1)[0] == entries@[0]@);
                assert(out@ =~= join_lines(ev.take(1)));
            } else {
                assert(out@ =~= join_lines(ev.take(i + 1)));
            }
        }
        i += 1;
    }
    assert(ev.take(entries.len() as int) =~= ev);
    push_char(&mut out, '\n');
    out
}

/// Where the list is stored: `$XDG_CACHE_HOME/mdr/recent` when that variable is set and not
/// empty, otherwise `$HOME/.cache/mdr/recent`, or nowhere without either.
pub open spec fn spec_recent_store_path(xdg_cache: Option<Seq<char>>, home: Option<Seq<char>>) -> Option<
    Seq<char>,
> {
    let base = match xdg_cache {
        Some(x) if x.len() > 0 => Some(x),
        _ => match home {
            Some(h) => Some(spec_join(h, seq!['.', 'c', 'a', 'c', 'h', 'e'])),
            None => None,
        },
    };
    match base {
        Some(b) => Some(spec_join(spec_join(b, seq!['m', 'd', 'r']), seq!['r', 'e', 'c', 'e', 'n', 't'])),
        None => None,
    }
}

/// The file that holds the list, given the values of `XDG_CACHE_HOME` and `HOME`.
pub fn recent_store_path(xdg_cache: Option<&str>, home: Option<&str>) -> (r: Option<String>)
    ensures
        opt_view(r) == spec_recent_store_path(
            match xdg_cache { Some(x) => Some(x@), None => None },
            match home { Some(h) => Some(h@), None => None },
        ),
{
    let base: Option<String> = match xdg_cache {
        Some(x) if x.unicode_len() > 0 => Some(String::from_str(x)),
        _ => match home {
            Some(h) => {
                let cache = string_from_chars(&vec!['.', 'c', 'a', 'c', 'h', 'e']);
                Some(join_path(h, cache.as_str()))
            },
            None => None,
        },
    };
    match base {
        Some(b) => {
            let app = string_from_chars(&vec!['m', 'd', 'r']);
            let file = string_from_chars(&vec!['r', 'e', 'c', 'e', 'n', 't']);
            let dir = join_path(b.as_str(), app.as_str());
            Some(join_path(dir.as_str(), file.as_str()))
        },
        None => None,
    }
}

// ---------------------------------------------------------------------------------------
// Laws of the list.

/// No two entries name the same path.
pub open spec fn distinct_paths(entries: Seq<Seq<char>>) -> bool {
    forall|i: int, j: int|
        0 <= i < j < entries.len() ==> components(#[trigger] entries[i]) != components(
            #[trigger] entries[j],
        )
}

proof fn lemma_without_path_members(entries: Seq<Seq<char>>, path: Seq<char>)
    ensures
        forall|k: int|
            0 <= k < without_path(entries, path).len() ==> components(
                #[trigger] without_path(entries, path)[k],
            ) != components(path) && entries.contains(without_path(entries, path)[k]),
    decreases entries.len(),
{
    if entries.len() > 0 {
        let d = entries.drop_last();
        lemma_without_path_members(d, path);
        let w = without_path(entries, path);
        assert forall|k: int| 0 <= k < w.len() implies components(#[trigger] w[k]) != components(
            path,
        ) && entries.contains(w[k]) by {
            let wd = without_path(d, path);
            if k < wd.len() {
                assert(w[k] == wd[k]);
                let i = choose|i: int| 0 <= i < d.len() && d[i] == wd[k];
                assert(entries[i] == d[i]);
            } else {
                assert(w[k] == entries.last());
                assert(entries[entries.len() - 1] == entries.last());
            }
        }
    }
}

proof fn lemma_without_path_all_kept(entries: Seq<Seq<char>>, path: Seq<char>)
    requires
        forall|k: int| 0 <= k < entries.len() ==> components(#[trigger] entries[k]) != components(path),
    ensures
        without_path(entries, path) == entries,
    decreases entries.len(),
{
    if entries.len() > 0 {
        let d = entries.drop_last();
        assert forall|k: int| 0 <= k < d.len() implies components(#[trigger] d[k]) != components(
            path,
        ) by {
            assert(d[k] == entries[k]);
        }
        lemma_without_path_all_kept(d, path);
        assert(entries[entries.len() - 1] == entries.last());
        assert(d.push(entries.last()) =~= entries);
    }
}

proof fn lemma_without_path_prepend(first: Seq<char>, rest: Seq<Seq<char>>, path: Seq<char>)
    ensures
        without_path(seq![first] + rest, path) == (if components(first) == components(path) {
            without_path(rest, path)
        } else {
            seq![first] + without_path(rest, path)
        }),
    decreases rest.len(),
{
    let all = seq![first] + rest;
    if rest.len() == 0 {
        assert(all =~= seq![first]);
        assert(all.drop_last() =~= seq![]);
        assert(seq![first] + seq![] =~= seq![first]);
        assert(rest =~= seq![]);
    } else {
        let rd = rest.drop_last();
        lemma_without_path_prepend(first, rd, path);
        assert(all.drop_last() =~= seq![first] + rd);
        assert(all.last() == rest.last());
        if components(first) != components(path) {
            if components(rest.last()) != components(path) {
                assert((seq![first] + without_path(rd, path)).push(rest.last()) =~= seq![first]
                    + without_path(rd, path).push(rest.last()));
            }
        }
    }
}

/// Distinct entries stay distinct after filtering.
proof fn lemma_without_path_distinct(entries: Seq<Seq<char>>, path: Seq<char>)
    requires
        distinct_paths(entries),
    ensures
        distinct_paths(without_path(entries, path)),
    decreases entries.len(),
{
    if entries.len() > 0 {
        let d = entries.drop_last();
        assert(distinct_paths(d)) by {
            assert forall|i: int, j: int| 0 <= i < j < d.len() implies components(
                #[trigger] d[i],
            ) != components(#[trigger] d[j]) by {
                assert(d[i] == entries[i] && d[j] == entries[j]);
            }
        }
        lemma_without_path_distinct(d, path);
        lemma_without_path_members(d, path);
        let wd = without_path(d, path);
        let w = without_path(entries, path);
        if components(entries.last()) != components(path) {
            assert forall|i: int, j: int| 0 <= i < j < w.len() implies components(
                #[trigger] w[i],
            ) != components(#[trigger] w[j]) by {
                if j == wd.len() {
                    assert(w[j] == entries.last());
                    assert(w[i] == wd[i]);
                    assert(d.contains(wd[i]));
                    let m = choose|m: int| 0 <= m < d.len() && d[m] == wd[i];
                    assert(entries[m] == d[m]);
                    assert(entries[entries.len() - 1] == entries.last());
                } else {
                    assert(w[i] == wd[i] && w[j] == wd[j]);
                }
            }
        }
    }
}

/// After a document is promoted, it comes first (when the list may hold anything at all),
/// the list holds at most `max` entries, and no later entry names the same path.
pub proof fn law_promote_front(entries: Seq<Seq<char>>, path: Seq<char>, max: int)
    requires
        max >= 0,
    ensures
        spec_promote(entries, path, max).len() <= max,
        max > 0 ==> spec_promote(entries, path, max)[0] == path,
        forall|k: int|
            1 <= k < spec_promote(entries, path, max).len() ==> components(
                #[trigger] spec_promote(entries, path, max)[k],
            ) != components(path),
{
    lemma_without_path_len(entries, path);
    lemma_without_path_members(entries, path);
    let w = without_path(entries, path);
    let full = seq![path] + w;
    let r = spec_promote(entries, path, max);
    assert forall|k: int| 1 <= k < r.len() implies components(#[trigger] r[k]) != components(
        path,
    ) by {
        assert(r[k] == full[k]);
        assert(full[k] == w[k - 1]);
    }
    if max < full.len() {
        assert(r.len() == max);
    } else {
        assert(r.len() == full.len());
    }
}

/// Promoting a document keeps a list free of repeated paths.
pub proof fn law_promote_keeps_distinct(entries: Seq<Seq<char>>, path: Seq<char>, max: int)
    requires
        max >= 0,
        distinct_paths(entries),
    ensures
        distinct_paths(spec_promote(entries, path, max)),
{
    lemma_without_path_distinct(entries, path);
    lemma_without_path_members(entries, path);
    let w = without_path(entries, path);
    let full = seq![path] + w;
    let r = spec_promote(entries, path, max);
    assert forall|i: int, j: int| 0 <= i < j < r.len() implies components(#[trigger] r[i])
        != components(#[trigger] r[j]) by {
        assert(r[i] == full[i] && r[j] == full[j]);
        assert(full[j] == w[j - 1]);
        if i > 0 {
            assert(full[i] == w[i - 1]);
        }
    }
}

/// Promoting the same document twice gives the same list as promoting it once.
pub proof fn law_promote_idempotent(entries: Seq<Seq<char>>, path: Seq<char>, max: int)
    requires
        max >= 0,
    ensures
        spec_promote(spec_promote(entries, path, max), path, max) == spec_promote(
            entries,
            path,
            max,
        ),
{
    law_promote_front(entries, path, max);
    let p1 = spec_promote(entries, path, max);
    if max == 0 {
        assert(p1.len() == 0);
        assert(p1 =~= seq![]);
        assert(without_path(p1, path) =~= seq![]);
        assert(spec_promote(p1, path, max) =~= seq![]);
    } else {
        let tail = p1.skip(1);
        assert(p1 =~= seq![path] + tail);
        assert forall|k: int| 0 <= k < tail.len() implies components(#[trigger] tail[k])
            != components(path) by {
            assert(tail[k] == p1[k + 1]);
        }
        lemma_without_path_all_kept(tail, path);
        lemma_without_path_prepend(path, tail, path);
        assert(without_path(p1, path) == tail);
        assert(seq![path] + tail =~= p1);
    }
}

/// Line scanning of a prefix does not depend on what follows it.
proof fn lemma_line_scan_prefix(u: Seq<char>, v: Seq<char>, n: int)
    requires
        0 <= n <= u.len(),
    ensures
        line_scan(u + v, n) == line_scan(u, n),
    decreases n,
{
    if n > 0 {
        lemma_line_scan_prefix(u, v, n - 1);
        assert((u + v)[n - 1] == u[n - 1]);
    }
}

/// Scanning a line that holds no `\n` accumulates it as the line being read.
proof fn lemma_line_scan_line(t: Seq<char>, m: int, line: Seq<char>, k: int)
    requires
        0 <= m,
        0 <= k <= line.len(),
        m + line.len() <= t.len(),
        t.subrange(m, m + line.len()) == line,
        forall|i: int| 0 <= i < line.len() ==> line[i] != '\n',
        line_scan(t, m).1 == Seq::<char>::empty(),
    ensures
        line_scan(t, m + k) == (line_scan(t, m).0, line.take(k)),
    decreases k,
{
    if k == 0 {
        assert(line.take(0) =~= Seq::<char>::empty());
    } else {
        lemma_line_scan_line(t, m, line, k - 1);
        assert(t[m + k - 1] == t.subrange(m, m + line.len())[k - 1]);
        assert(line.take(k - 1).push(line[k - 1]) =~= line.take(k));
    }
}

/// A line that can be stored: not empty, without `\n`, and not ending in `\r`.
pub open spec fn storable_entry(e: Seq<char>) -> bool {
    &&& e.len() > 0
    &&& forall|i: int| 0 <= i < e.len() ==> e[i] != '\n'
    &&& e.last() != '\r'
}

proof fn lemma_render_scan(entries: Seq<Seq<char>>)
    requires
        forall|i: int| 0 <= i < entries.len() ==> storable_entry(#[trigger] entries[i]),
    ensures
        line_scan(
            spec_render_recent(entries),
            spec_render_recent(entries).len() as int,
        ) == (entries, Seq::<char>::empty()),
    decreases entries.len(),
{
    let t = spec_render_recent(entries);
    if entries.len() == 0 {
        assert(t =~= seq!['\n']);
        assert(line_scan(t, 0) == (Seq::<Seq<char>>::empty(), Seq::<char>::empty()));
        assert(entries =~= Seq::<Seq<char>>::empty());
    } else {
        let d = entries.drop_last();
        let e = entries.last();
        assert(storable_entry(e)) by {
            assert(entries[entries.len() - 1] == e);
        }
        // The text before the last entry.
        let u: Seq<char> = if d.len() == 0 { seq![] } else { spec_render_recent(d) };
        assert(t =~= u + e + seq!['\n']) by {
            if d.len() == 0 {
                assert(entries =~= seq![e]);
            }
        }
        let m = u.len() as int;
        assert(line_scan(t, m) == (d, Seq::<char>::empty())) by {
            if d.len() == 0 {
                assert(d =~= Seq::<Seq<char>>::empty());
            } else {
                assert forall|i: int| 0 <= i < d.len() implies storable_entry(#[trigger] d[i]) by {
                    assert(d[i] == entries[i]);
                }
                lemma_render_scan(d);
                lemma_line_scan_prefix(u, e + seq!['\n'], m);
                assert(u + (e + seq!['\n']) =~= t);
            }
        }
        assert(t.subrange(m, m + e.len()) =~= e);
        lemma_line_scan_line(t, m, e, e.len() as int);
        assert(e.take(e.len() as int) =~= e);
        assert(t[m + e.len()] == '\n');
        assert(t.len() == m + e.len() + 1);
        assert(d.push(e) =~= entries);
    }
}

/// Reading back a stored list gives the list that was stored, when each entry is a
/// storable line.
pub proof fn law_recent_round_trip(entries: Seq<Seq<char>>)
    requires
        forall|i: int| 0 <= i < entries.len() ==> storable_entry(#[trigger] entries[i]),
    ensures
        nonempty_lines(spec_render_recent(entries)) == entries,
{
    lemma_render_scan(entries);
}

} // verus!
