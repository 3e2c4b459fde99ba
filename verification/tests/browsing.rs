use p7z::browser::{
    cursor_target, matching_rows, parent_of_folder, remember_navigation, select, sort_rows, up_from,
    CursorKey, Location, Selection, SortKey,
};
use p7z::catalog::Entry;

fn row(path: &str, directory: bool, size: Option<u64>, modified: &str) -> Entry {
    Entry {
        path: path.to_string(),
        name: path.rsplit('/').next().unwrap().to_string(),
        directory,
        size,
        modified: modified.to_string(),
        link: false,
        encrypted: false,
    }
}

fn names(rows: &[Entry]) -> Vec<String> {
    rows.iter().map(|e| e.name.clone()).collect()
}

#[test]
fn rows_sort_folders_first_then_key() {
    let rows = vec![
        row("b.txt", false, Some(5), "2024-02"),
        row("Zed", true, None, ""),
        row("a.txt", false, Some(9), "2024-01"),
        row("alpha", true, None, ""),
        row("C.txt", false, None, "2023-12"),
    ];
    let by_name = sort_rows(rows.clone(), SortKey::Name, false);
    assert_eq!(names(&by_name), vec!["alpha", "Zed", "a.txt", "b.txt", "C.txt"]);
    let descending = sort_rows(rows.clone(), SortKey::Name, true);
    assert_eq!(names(&descending), vec!["Zed", "alpha", "C.txt", "b.txt", "a.txt"]);
    let by_size = sort_rows(rows.clone(), SortKey::Size, false);
    assert_eq!(names(&by_size), vec!["Zed", "alpha", "C.txt", "b.txt", "a.txt"]);
    let by_date = sort_rows(rows, SortKey::Modified, false);
    assert_eq!(names(&by_date), vec!["Zed", "alpha", "C.txt", "a.txt", "b.txt"]);
    assert!(SortKey::from_number(1) == SortKey::Size);
    assert!(SortKey::from_number(2) == SortKey::Modified);
    assert!(SortKey::from_number(0) == SortKey::Name);
}

#[test]
fn search_in_folder() {
    let rows = vec![row("Report.PDF", false, None, ""), row("notes.txt", false, None, "")];
    assert_eq!(names(&matching_rows(&rows, "report")), vec!["Report.PDF"]);
    assert_eq!(matching_rows(&rows, "").len(), 2);
}

#[test]
fn click_selection() {
    let rows = vec![row("a", false, None, ""), row("b", false, None, ""), row("c", false, None, "")];
    let mut selection = Selection::new();
    let mut anchor = None;
    let mut cursor = None;
    select(&rows, &mut selection, &mut anchor, &mut cursor, "a", false, false);
    assert!(selection.contains("a"));
    assert_eq!(anchor.as_deref(), Some("a"));
    select(&rows, &mut selection, &mut anchor, &mut cursor, "c", true, false);
    assert_eq!(selection.len(), 3);
    assert_eq!(anchor.as_deref(), Some("a"));
    assert_eq!(cursor.as_deref(), Some("c"));
    select(&rows, &mut selection, &mut anchor, &mut cursor, "b", false, true);
    assert_eq!(selection.len(), 2);
    assert!(!selection.contains("b"));
    select(&rows, &mut selection, &mut anchor, &mut cursor, "b", false, false);
    assert_eq!(selection.len(), 1);
    assert!(selection.contains("b"));
    selection.toggle("b");
    assert_eq!(selection.len(), 0);
}

#[test]
fn cursor_keys() {
    let rows = vec![row("a", false, None, ""), row("b", false, None, ""), row("c", false, None, "")];
    assert_eq!(cursor_target(&rows, &None, CursorKey::Down), 1);
    assert_eq!(cursor_target(&rows, &Some("c".to_string()), CursorKey::Down), 2);
    assert_eq!(cursor_target(&rows, &Some("a".to_string()), CursorKey::Up), 0);
    assert_eq!(cursor_target(&rows, &Some("b".to_string()), CursorKey::End), 2);
    assert_eq!(cursor_target(&rows, &Some("gone".to_string()), CursorKey::Home), 0);
}

#[test]
fn parents_and_history() {
    assert_eq!(parent_of_folder("a/b/c"), "a/b");
    assert_eq!(parent_of_folder("a"), "");
    let inside = Location::Archive("C:/x.7z".to_string(), "a/b".to_string());
    match up_from(&inside, None) {
        Some(Location::Archive(p, f)) => {
            assert_eq!(p, "C:/x.7z");
            assert_eq!(f, "a");
        }
        _ => panic!("expected the parent folder"),
    }
    let top = Location::Archive("C:/x.7z".to_string(), String::new());
    assert!(matches!(up_from(&top, Some("C:/".to_string())), Some(Location::Directory(d)) if d == "C:/"));
    assert!(up_from(&Location::Home, Some("C:/".to_string())).is_none());

    let mut history: Vec<Location> = Vec::new();
    let mut returning = false;
    let here = Location::Directory("C:/a".to_string());
    let there = Location::Directory("C:/b".to_string());
    remember_navigation(&mut history, &mut returning, here.clone(), &there);
    assert_eq!(history.len(), 1);
    remember_navigation(&mut history, &mut returning, there.clone(), &there);
    assert_eq!(history.len(), 1);
    returning = true;
    remember_navigation(&mut history, &mut returning, there, &here);
    assert!(history.is_empty());
    assert!(!returning);
}

#[test]
fn select_all_invert_and_copy() {
    let rows = vec![row("b", false, None, ""), row("a", false, None, ""), row("c", false, None, "")];
    let all = Selection::all_of(&rows);
    assert_eq!(all.len(), 3);
    assert_eq!(all.paths(), vec!["a".to_string(), "b".to_string(), "c".to_string()]);
    assert_eq!(all.copied_text(), "a\nb\nc");
    let mut some = Selection::new();
    some.toggle("c");
    some.toggle("a");
    let inverted = some.inverted(&rows);
    assert_eq!(inverted.paths(), vec!["b".to_string()]);
    assert_eq!(Selection::new().copied_text(), "");
    assert_eq!(Selection::all_of(&vec![]).len(), 0);
}

#[test]
fn address_bar_input() {
    assert_eq!(p7z::browser::address_input("  \"C:\\Data\\a.7z\"  "), "C:\\Data\\a.7z");
    assert_eq!(p7z::browser::address_input("\"\""), "");
    assert_eq!(p7z::browser::address_input(" plain "), "plain");
    assert_eq!(p7z::browser::address_input("\"a\" b\""), "a\" b");
}
