use mdr::recent::{parse_recent, promote, recent_store_path, render_recent, MAX_RECENTS};

fn paths(items: &[&str]) -> Vec<String> {
    items.iter().map(|s| s.to_string()).collect()
}

#[test]
fn promote_moves_existing_entry_to_front() {
    let entries = paths(&["/synthetic/a.md", "/synthetic/b.md"]);

    let promoted = promote(entries, "/synthetic/b.md", 50);

    assert_eq!(promoted[0], "/synthetic/b.md");
    assert_eq!(promoted.len(), 2);
}

#[test]
fn promote_adds_new_entry_in_front() {
    let promoted = promote(paths(&["/a.md", "/b.md"]), "/c.md", 50);
    assert_eq!(promoted, paths(&["/c.md", "/a.md", "/b.md"]));
}

#[test]
fn promote_drops_entries_that_name_the_same_path() {
    // Paths compare by their components, as `Path` does.
    let promoted = promote(paths(&["/x//a.md", "/b.md", "/x/./a.md/"]), "/x/a.md", 50);
    assert_eq!(promoted, paths(&["/x/a.md", "/b.md"]));
}

#[test]
fn promote_keeps_at_most_max_entries() {
    let promoted = promote(paths(&["/a", "/b", "/c"]), "/d", 2);
    assert_eq!(promoted, paths(&["/d", "/a"]));
    assert!(promote(paths(&["/a"]), "/d", 0).is_empty());
    assert_eq!(MAX_RECENTS, 50);
}

#[test]
fn promote_twice_is_promote_once() {
    let once = promote(paths(&["/a", "/b", "/c"]), "/b", 3);
    let twice = promote(once.clone(), "/b", 3);
    assert_eq!(once, twice);
}

#[test]
fn parse_recent_keeps_nonempty_lines() {
    assert_eq!(parse_recent("/a.md\n\n/b.md\r\n/c.md"), paths(&["/a.md", "/b.md", "/c.md"]));
    assert!(parse_recent("").is_empty());
    assert!(parse_recent("\n\r\n").is_empty());
    // A carriage return not followed by a line feed stays in the line.
    assert_eq!(parse_recent("/a\r"), paths(&["/a\r"]));
}

#[test]
fn render_recent_ends_every_entry_with_newline() {
    assert_eq!(render_recent(&paths(&["/a.md", "/b.md"])), "/a.md\n/b.md\n");
    assert_eq!(render_recent(&Vec::new()), "\n");
}

#[test]
fn stored_list_reads_back_unchanged() {
    let entries = paths(&["/synthetic/one.md", "/synthetic/two words.md", "relative.md"]);
    assert_eq!(parse_recent(&render_recent(&entries)), entries);
}

#[test]
fn recent_store_path_prefers_xdg_cache_home() {
    assert_eq!(recent_store_path(Some("/cache"), Some("/home/u")), Some("/cache/mdr/recent".to_string()));
    assert_eq!(recent_store_path(Some(""), Some("/home/u")), Some("/home/u/.cache/mdr/recent".to_string()));
    assert_eq!(recent_store_path(None, Some("/home/u/")), Some("/home/u/.cache/mdr/recent".to_string()));
    assert_eq!(recent_store_path(None, None), None);
}
