use searchfox_api::{FileMatches, FuzzyMatches, LineMatch, MatchContext};

fn map_line(text: &str, number: usize) -> LineMatch {
    LineMatch {
        line: text.to_string(),
        number,
        bounds: (2, 5),
        peek_lines: None,
        context: None,
    }
}

#[test]
fn new_file_map_is_empty() {
    let files = FileMatches::new();
    assert!(files.is_empty());
    assert_eq!(files.len(), 0);
    assert!(!files.contains_key("a"));
    assert_eq!(files.get("a"), None);
    assert!(files.entries().is_empty());
}

#[test]
fn insert_then_get() {
    let mut files = FileMatches::new();
    files.insert("a".to_string(), vec![map_line("x", 1)]);
    files.insert("b".to_string(), vec![]);
    assert!(!files.is_empty());
    assert_eq!(files.len(), 2);
    assert!(files.contains_key("a"));
    assert!(files.contains_key("b"));
    assert!(!files.contains_key("c"));
    assert_eq!(files.get("a"), Some(&vec![map_line("x", 1)]));
    assert_eq!(files.get("b"), Some(&vec![]));
}

#[test]
fn insert_replaces_what_stood_under_the_path() {
    let mut files = FileMatches::new();
    files.insert("a".to_string(), vec![map_line("x", 1)]);
    files.insert("b".to_string(), vec![map_line("y", 2)]);
    files.insert("a".to_string(), vec![map_line("z", 3)]);
    assert_eq!(files.len(), 2);
    assert_eq!(files.get("a"), Some(&vec![map_line("z", 3)]));
    assert_eq!(files.get("b"), Some(&vec![map_line("y", 2)]));
}

#[test]
fn entries_hold_each_path_once() {
    let mut files = FileMatches::new();
    files.insert("a".to_string(), vec![map_line("x", 1)]);
    files.insert("b".to_string(), vec![]);
    files.insert("a".to_string(), vec![]);
    let mut paths: Vec<&str> = files.entries().iter().map(|entry| entry.0.as_str()).collect();
    paths.sort();
    assert_eq!(paths, vec!["a", "b"]);
}

#[test]
fn file_maps_are_equal_in_any_order() {
    let mut one = FileMatches::new();
    one.insert("a".to_string(), vec![map_line("x", 1)]);
    one.insert("b".to_string(), vec![map_line("y", 2)]);
    let mut other = FileMatches::new();
    other.insert("b".to_string(), vec![map_line("y", 2)]);
    other.insert("a".to_string(), vec![map_line("x", 1)]);
    assert_eq!(one, other);
}

#[test]
fn file_maps_differ_by_path_lines_and_size() {
    let mut one = FileMatches::new();
    one.insert("a".to_string(), vec![map_line("x", 1)]);
    let mut other_path = FileMatches::new();
    other_path.insert("b".to_string(), vec![map_line("x", 1)]);
    let mut other_lines = FileMatches::new();
    other_lines.insert("a".to_string(), vec![map_line("x", 2)]);
    let mut larger = FileMatches::new();
    larger.insert("a".to_string(), vec![map_line("x", 1)]);
    larger.insert("b".to_string(), vec![]);
    assert_ne!(one, other_path);
    assert_ne!(one, other_lines);
    assert_ne!(one, larger);
    assert_ne!(larger, one);
    assert_ne!(one, FileMatches::new());
}

#[test]
fn lines_are_equal_field_by_field() {
    let base = LineMatch {
        line: "x".to_string(),
        number: 1,
        bounds: (2, 3),
        peek_lines: Some("p".to_string()),
        context: Some(MatchContext { context: "c".to_string(), symbol: "s".to_string() }),
    };
    let same = LineMatch {
        line: "x".to_string(),
        number: 1,
        bounds: (2, 3),
        peek_lines: Some("p".to_string()),
        context: Some(MatchContext { context: "c".to_string(), symbol: "s".to_string() }),
    };
    assert_eq!(base, same);
    assert_ne!(base, LineMatch { line: "y".to_string(), ..map_full() });
    assert_ne!(base, LineMatch { number: 9, ..map_full() });
    assert_ne!(base, LineMatch { bounds: (9, 3), ..map_full() });
    assert_ne!(base, LineMatch { bounds: (2, 9), ..map_full() });
    assert_ne!(base, LineMatch { peek_lines: None, ..map_full() });
    assert_ne!(base, LineMatch { peek_lines: Some("q".to_string()), ..map_full() });
    assert_ne!(base, LineMatch { context: None, ..map_full() });
    assert_ne!(
        base,
        LineMatch {
            context: Some(MatchContext { context: "c".to_string(), symbol: "t".to_string() }),
            ..map_full()
        }
    );
    assert_ne!(
        base,
        LineMatch {
            context: Some(MatchContext { context: "d".to_string(), symbol: "s".to_string() }),
            ..map_full()
        }
    );
}

fn map_full() -> LineMatch {
    LineMatch {
        line: "x".to_string(),
        number: 1,
        bounds: (2, 3),
        peek_lines: Some("p".to_string()),
        context: Some(MatchContext { context: "c".to_string(), symbol: "s".to_string() }),
    }
}

#[test]
fn new_symbol_map_is_empty() {
    let symbols = FuzzyMatches::new();
    assert!(symbols.is_empty());
    assert_eq!(symbols.len(), 0);
    assert!(!symbols.contains_key("Foo"));
    assert_eq!(symbols.get("Foo"), None);
    assert!(symbols.entries().is_empty());
}

#[test]
fn symbol_map_inserts_and_replaces() {
    let mut a = FileMatches::new();
    a.insert("a.cpp".to_string(), vec![map_line("x", 1)]);
    let mut b = FileMatches::new();
    b.insert("b.cpp".to_string(), vec![map_line("y", 2)]);
    let mut c = FileMatches::new();
    c.insert("c.cpp".to_string(), vec![map_line("z", 3)]);

    let mut symbols = FuzzyMatches::new();
    symbols.insert("Foo".to_string(), a);
    symbols.insert("Bar".to_string(), b);
    assert_eq!(symbols.len(), 2);
    assert!(symbols.contains_key("Foo"));
    assert_eq!(symbols.get("Foo").unwrap().get("a.cpp"), Some(&vec![map_line("x", 1)]));
    assert_eq!(symbols.get("Bar").unwrap().get("b.cpp"), Some(&vec![map_line("y", 2)]));

    symbols.insert("Foo".to_string(), c);
    assert_eq!(symbols.len(), 2);
    assert_eq!(symbols.get("Foo").unwrap().get("a.cpp"), None);
    assert_eq!(symbols.get("Foo").unwrap().get("c.cpp"), Some(&vec![map_line("z", 3)]));
    assert_eq!(symbols.entries().len(), 2);
}

#[test]
fn symbol_maps_are_equal_in_any_order() {
    let mut one = FuzzyMatches::new();
    one.insert("Foo".to_string(), FileMatches::new());
    let mut bar = FileMatches::new();
    bar.insert("b.cpp".to_string(), vec![map_line("y", 2)]);
    one.insert("Bar".to_string(), bar);

    let mut other = FuzzyMatches::new();
    let mut bar = FileMatches::new();
    bar.insert("b.cpp".to_string(), vec![map_line("y", 2)]);
    other.insert("Bar".to_string(), bar);
    other.insert("Foo".to_string(), FileMatches::new());
    assert_eq!(one, other);

    let mut changed = FuzzyMatches::new();
    changed.insert("Bar".to_string(), FileMatches::new());
    changed.insert("Foo".to_string(), FileMatches::new());
    assert_ne!(one, changed);
    assert_ne!(one, FuzzyMatches::new());
}

#[test]
fn default_maps_are_empty() {
    assert_eq!(FileMatches::default(), FileMatches::new());
    assert_eq!(FuzzyMatches::default(), FuzzyMatches::new());
    assert!(FileMatches::default().is_empty());
    assert!(FuzzyMatches::default().is_empty());
}
