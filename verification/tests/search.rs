use mdr::search::highlight_pieces;
use mdr::search::{highlight_fits, highlight_search, try_highlight_search};

fn spans(items: &[&str]) -> Vec<String> {
    items.iter().map(|s| s.to_string()).collect()
}

#[test]
fn matches_are_split_out_ignoring_case() {
    let line = spans(&["Hello world", "say HELLO hello"]);
    assert!(highlight_fits(&line, "hello"));
    let pieces = highlight_search(&line, "hello");
    let expected: Vec<(usize, String, bool)> = vec![
        (0, "Hello".into(), true),
        (0, " world".into(), false),
        (1, "say ".into(), false),
        (1, "HELLO".into(), true),
        (1, " ".into(), false),
        (1, "hello".into(), true),
    ];
    assert_eq!(pieces, expected);
}

#[test]
fn spans_without_matches_stay_whole() {
    let line = spans(&["nothing here", ""]);
    let pieces = highlight_search(&line, "zz");
    assert_eq!(pieces, vec![(0, "nothing here".to_string(), false)]);
}

#[test]
fn non_ascii_text_is_cut_at_characters() {
    let line = spans(&["ÄÖÜ äöü"]);
    let pieces = highlight_search(&line, "äö");
    assert_eq!(
        pieces,
        vec![(0, "ÄÖ".to_string(), true), (0, "Ü ".to_string(), false), (0, "äö".to_string(), true), (0, "ü".to_string(), false)]
    );
}

#[test]
fn lowercasing_that_changes_lengths_is_detected() {
    // 'İ' takes two bytes but its lower case takes three, so the match offset found in the
    // lower-cased text falls past the end of the text as written.
    assert!(!highlight_fits(&spans(&["İx"]), "x"));
    assert!(!highlight_fits(&spans(&["abc"]), ""));
    assert!(highlight_fits(&spans(&["abc"]), "b"));
}

#[test]
fn highlight_pieces_cut_at_lowered_offsets() {
    let pieces = highlight_pieces("Find THE the", "find the the", "the", 3).unwrap();
    assert_eq!(
        pieces,
        vec![("Find ".to_string(), false), ("THE".to_string(), true), (" ".to_string(), false), ("the".to_string(), true)]
    );
    // Offsets beyond the text as written cannot be cut.
    assert!(highlight_pieces("ab", "xxab", "ab", 2).is_none());
}

#[test]
fn try_highlight_reports_cuts_inside_characters() {
    assert!(try_highlight_search(&spans(&["İx"]), "x").is_none());
    assert_eq!(
        try_highlight_search(&spans(&["ab"]), "B"),
        Some(vec![(0, "a".to_string(), false), (0, "b".to_string(), true)])
    );
}
