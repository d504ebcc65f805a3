use search_panel::entries::{list_entries, PathSet, SearchPanelEntry};
use search_panel::files::{FileMatches, ProjectPath};
use search_panel::matches::{AnchorRange, ByteRange, MatchData};

fn path(name: &str) -> ProjectPath {
    ProjectPath {
        worktree_id: 0,
        path: name.to_string(),
    }
}

fn found(line: &str) -> MatchData {
    MatchData {
        range: AnchorRange { start: 0, end: 1 },
        line_text: line.to_string(),
        match_range_in_line: ByteRange { start: 0, end: 1 },
    }
}

fn add(files: &mut FileMatches, name: &str, buffer: u64, lines: &[&str]) {
    files.add_matches(
        &path(name),
        Some(name.to_string()),
        format!("./{name}"),
        buffer,
        lines.iter().map(|line| found(line)).collect(),
    );
}

fn listed(files: &FileMatches) -> Vec<(String, u64, Vec<String>)> {
    let mut list = Vec::new();
    for index in 0..files.len() {
        let (path, data) = files.at(index).unwrap();
        let lines = data.matches.iter().map(|m| m.line_text.clone()).collect();
        list.push((path.path, data.buffer, lines));
    }
    list
}

fn entry(name: &str, buffer: u64, lines: &[&str]) -> (String, u64, Vec<String>) {
    (
        name.to_string(),
        buffer,
        lines.iter().map(|line| line.to_string()).collect(),
    )
}

#[test]
fn table_without_files() {
    let files = FileMatches::new();
    assert_eq!(files.len(), 0);
    assert!(files.at(0).is_none());
    assert!(files.get(&path("a")).is_none());
}

#[test]
fn files_are_found_by_path() {
    let mut files = FileMatches::new();
    add(&mut files, "a", 1, &["x"]);
    add(&mut files, "b", 2, &["y"]);
    assert_eq!(files.get(&path("b")).unwrap().buffer, 2);
    assert_eq!(files.get(&path("b")).unwrap().display_path, "./b");
    assert!(files.get(&path("c")).is_none());
    assert!(files.at(2).is_none());
}

#[test]
fn files_keep_their_order() {
    let mut files = FileMatches::new();
    add(&mut files, "z", 1, &["1"]);
    add(&mut files, "a", 2, &["2"]);
    add(&mut files, "m", 3, &["3"]);
    add(&mut files, "z", 9, &["4", "5"]);
    assert_eq!(
        listed(&files),
        vec![
            entry("z", 1, &["1", "4", "5"]),
            entry("a", 2, &["2"]),
            entry("m", 3, &["3"]),
        ]
    );
}

#[test]
fn removing_matches() {
    let mut files = FileMatches::new();
    add(&mut files, "a", 1, &["1", "2", "3"]);
    add(&mut files, "b", 2, &["4"]);
    add(&mut files, "c", 3, &["5"]);
    assert!(files.remove_match(&path("a"), 1));
    assert_eq!(listed(&files)[0], entry("a", 1, &["1", "3"]));
    assert!(!files.remove_match(&path("a"), 2));
    assert!(!files.remove_match(&path("x"), 0));
    assert_eq!(files.len(), 3);
    assert!(files.remove_match(&path("a"), 0));
    assert!(files.remove_match(&path("a"), 0));
    assert_eq!(
        listed(&files),
        vec![entry("c", 3, &["5"]), entry("b", 2, &["4"])]
    );
    assert!(files.remove_match(&path("b"), 0));
    assert_eq!(listed(&files), vec![entry("c", 3, &["5"])]);
}

#[test]
fn clearing_the_table() {
    let mut files = FileMatches::new();
    add(&mut files, "a", 1, &["1"]);
    files.clear();
    assert_eq!(files.len(), 0);
    assert!(files.get(&path("a")).is_none());
    add(&mut files, "a", 2, &["2"]);
    assert_eq!(listed(&files), vec![entry("a", 2, &["2"])]);
}

#[test]
fn sets_of_paths() {
    let mut set = PathSet::new();
    assert!(!set.contains(&path("a")));
    set.insert(&path("a"));
    set.insert(&path("a"));
    set.insert(&path("b"));
    assert!(set.contains(&path("a")) && set.contains(&path("b")));
    set.remove(&path("a"));
    assert!(!set.contains(&path("a")) && set.contains(&path("b")));
    set.remove(&path("a"));
    set.clear();
    assert!(!set.contains(&path("b")));
}

#[test]
fn same_paths() {
    let other = ProjectPath {
        worktree_id: 1,
        path: "a".to_string(),
    };
    assert!(path("a").same_as(&path("a").clone()));
    assert!(!path("a").same_as(&path("b")));
    assert!(!path("a").same_as(&other));
}

#[test]
fn rows_of_a_collapsed_file() {
    let mut files = FileMatches::new();
    add(&mut files, "a", 1, &["1", "2"]);
    add(&mut files, "b", 2, &["3"]);
    let mut collapsed_files = PathSet::new();
    assert_eq!(list_entries(&files, &collapsed_files).len(), 5);
    collapsed_files.insert(&path("a"));
    let entries = list_entries(&files, &collapsed_files);
    assert_eq!(entries.len(), 3);
    match &entries[0] {
        SearchPanelEntry::FileHeader {
            path,
            file_name,
            display_path,
            match_count,
            collapsed,
        } => {
            assert_eq!(path.path, "a");
            assert_eq!(file_name.as_deref(), Some("a"));
            assert_eq!(display_path, "./a");
            assert_eq!(*match_count, 2);
            assert!(*collapsed);
        }
        SearchPanelEntry::Match { .. } => panic!("a file starts with its header"),
    }
    assert!(matches!(
        &entries[1],
        SearchPanelEntry::FileHeader { collapsed: false, .. }
    ));
    assert!(matches!(
        &entries[2],
        SearchPanelEntry::Match { match_index: 0, .. }
    ));
}
