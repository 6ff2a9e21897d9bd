use searchfox_api::{DecodeError, FileMatches, LineMatch, RawMatch};

fn raw_line(text: &str, number: usize) -> LineMatch {
    LineMatch {
        line: text.to_string(),
        number,
        bounds: (0, 1),
        peek_lines: None,
        context: None,
    }
}

fn raw_group(path: &str, lines: Vec<LineMatch>) -> RawMatch {
    RawMatch { lines, path: path.to_string() }
}

#[test]
fn no_groups_no_files() {
    let files = RawMatch::into_hashmap(Vec::new());
    assert!(files.is_empty());
    assert_eq!(files.len(), 0);
    assert_eq!(files, FileMatches::new());
}

#[test]
fn groups_become_a_map_from_path_to_lines() {
    let files = RawMatch::into_hashmap(vec![
        raw_group("a.cpp", vec![raw_line("one", 1), raw_line("two", 2)]),
        raw_group("b.cpp", vec![raw_line("three", 3)]),
        raw_group("c.cpp", vec![]),
    ]);
    assert_eq!(files.len(), 3);
    assert_eq!(files.get("a.cpp"), Some(&vec![raw_line("one", 1), raw_line("two", 2)]));
    assert_eq!(files.get("b.cpp"), Some(&vec![raw_line("three", 3)]));
    assert_eq!(files.get("c.cpp"), Some(&vec![]));
    assert_eq!(files.get("d.cpp"), None);
}

#[test]
fn later_group_with_the_same_path_wins() {
    let files = RawMatch::into_hashmap(vec![
        raw_group("a.cpp", vec![raw_line("first", 1)]),
        raw_group("a.cpp", vec![raw_line("second", 2)]),
    ]);
    assert_eq!(files.len(), 1);
    assert_eq!(files.get("a.cpp"), Some(&vec![raw_line("second", 2)]));
}

#[test]
fn later_group_wins_among_other_groups() {
    let files = RawMatch::into_hashmap(vec![
        raw_group("a.cpp", vec![raw_line("first", 1)]),
        raw_group("b.cpp", vec![raw_line("other", 7)]),
        raw_group("a.cpp", vec![]),
        raw_group("a.cpp", vec![raw_line("third", 3), raw_line("fourth", 4)]),
    ]);
    assert_eq!(files.len(), 2);
    assert_eq!(files.get("a.cpp"), Some(&vec![raw_line("third", 3), raw_line("fourth", 4)]));
    assert_eq!(files.get("b.cpp"), Some(&vec![raw_line("other", 7)]));
}

#[test]
fn paths_keep_their_order() {
    let paths = RawMatch::into_paths(vec![
        raw_group("b.h", vec![]),
        raw_group("a.h", vec![]),
        raw_group("b.h", vec![]),
    ]);
    assert_eq!(paths, Ok(vec!["b.h".to_string(), "a.h".to_string(), "b.h".to_string()]));
}

#[test]
fn no_groups_no_paths() {
    assert_eq!(RawMatch::into_paths(Vec::new()), Ok(Vec::new()));
}

#[test]
fn file_name_with_lines_is_invalid() {
    let paths = RawMatch::into_paths(vec![
        raw_group("a.h", vec![]),
        raw_group("b.h", vec![raw_line("x", 1)]),
    ]);
    assert_eq!(paths, Err(DecodeError::InvalidValue));
}

#[test]
fn groups_are_equal_by_path_and_lines() {
    assert_eq!(raw_group("a", vec![raw_line("x", 1)]), raw_group("a", vec![raw_line("x", 1)]));
    assert_ne!(raw_group("a", vec![raw_line("x", 1)]), raw_group("b", vec![raw_line("x", 1)]));
    assert_ne!(raw_group("a", vec![raw_line("x", 1)]), raw_group("a", vec![raw_line("x", 2)]));
    assert_ne!(raw_group("a", vec![raw_line("x", 1)]), raw_group("a", vec![]));
}
