use mdr::path::{file_name, file_stem, join_path, parent, same_path};
use std::path::Path;

const SAMPLES: &[&str] = &[
    "", "/", "//", ".", "./", "..", "../", "a", "a/", "a/b", "a//b", "a/./b", "a/b/.", "a/b/..",
    "/a", "//a", "./a", ".//a", "./.", "/./a/", "a.b", ".hidden", ".hidden.md", "x/y.tar.gz",
    "dir/file.", "a..b", "/synthetic/project/recent.md", "~/themes/dark-night.toml", "é/ü.md",
];

#[test]
fn file_name_matches_std_path() {
    for s in SAMPLES {
        let expected = Path::new(s).file_name().map(|n| n.to_str().unwrap().to_string());
        assert_eq!(file_name(s), expected, "file_name({s:?})");
    }
}

#[test]
fn file_stem_matches_std_path() {
    for s in SAMPLES {
        let expected = Path::new(s).file_stem().map(|n| n.to_str().unwrap().to_string());
        assert_eq!(file_stem(s), expected, "file_stem({s:?})");
    }
}

#[test]
fn parent_matches_std_path() {
    for s in SAMPLES {
        let expected = Path::new(s).parent().map(|n| n.to_str().unwrap().to_string());
        assert_eq!(parent(s), expected, "parent({s:?})");
    }
}

#[test]
fn join_matches_std_path() {
    for base in SAMPLES {
        for rest in SAMPLES {
            let expected = Path::new(base).join(rest).to_str().unwrap().to_string();
            assert_eq!(join_path(base, rest), expected, "join({base:?}, {rest:?})");
        }
    }
}

#[test]
fn same_path_matches_std_path_equality() {
    for a in SAMPLES {
        for b in SAMPLES {
            assert_eq!(same_path(a, b), Path::new(a) == Path::new(b), "same_path({a:?}, {b:?})");
        }
    }
}
