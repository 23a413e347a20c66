use mdr::names::{name_less, NameMap};

#[test]
fn insert_keeps_names_in_order_and_replaces() {
    let mut m: NameMap<u32> = NameMap::new();
    assert!(m.is_empty());
    m.insert("beta".to_string(), 2);
    m.insert("alpha".to_string(), 1);
    m.insert("gamma".to_string(), 3);
    m.insert("beta".to_string(), 20);
    assert_eq!(m.len(), 3);
    let names: Vec<String> = (0..m.len()).map(|i| m.entry(i).0.clone()).collect();
    assert_eq!(names, vec!["alpha", "beta", "gamma"]);
    assert_eq!(m.get("beta"), Some(&20));
    assert_eq!(m.get("delta"), None);
}

#[test]
fn read_after_write_gives_written_value() {
    let mut m: NameMap<String> = NameMap::new();
    m.insert("accent".to_string(), "#112233".to_string());
    m.insert("bg".to_string(), "#000000".to_string());
    assert_eq!(m.get("accent").map(|s| s.as_str()), Some("#112233"));
    m.insert("accent".to_string(), "#abcdef".to_string());
    assert_eq!(m.get("accent").map(|s| s.as_str()), Some("#abcdef"));
    assert_eq!(m.get("bg").map(|s| s.as_str()), Some("#000000"));
}

#[test]
fn names_order_like_strings() {
    let words = ["", "a", "ab", "b", "B", "é", "z", "Zeta", "theme 01", "theme 1"];
    for a in words {
        for b in words {
            let av: Vec<char> = a.chars().collect();
            let bv: Vec<char> = b.chars().collect();
            assert_eq!(name_less(&av, &bv), a < b, "{a:?} < {b:?}");
        }
    }
}
