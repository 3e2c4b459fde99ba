use p7z::history::{apply_change, apply_entry_change, keep_entries, prune, same_paths, stored_bytes, stored_paths, Change, Entry, HistoryError, Kind};

fn paths(v: &[&str]) -> Vec<String> {
    v.iter().map(|s| s.to_string()).collect()
}

#[test]
fn remember_puts_path_first_once() {
    let list = paths(&["a", "b", "c"]);
    let r = apply_change(&list, &Change::Remember("b".to_string()));
    assert_eq!(r, paths(&["b", "a", "c"]));
    let again = apply_change(&r, &Change::Remember("b".to_string()));
    assert_eq!(again, r);
    let new = apply_change(&list, &Change::Remember("z".to_string()));
    assert_eq!(new, paths(&["z", "a", "b", "c"]));
}

#[test]
fn remember_keeps_twenty() {
    let list: Vec<String> = (0..20).map(|i| format!("p{i}")).collect();
    let r = apply_change(&list, &Change::Remember("new".to_string()));
    assert_eq!(r.len(), 20);
    assert_eq!(r[0], "new");
    assert_eq!(r[19], "p18");
    let removed = apply_change(&r, &Change::Remove("new".to_string()));
    assert_eq!(removed, list[..19].to_vec());
}

#[test]
fn remove_clear_and_load() {
    let list = paths(&["a", "b", "a"]);
    assert_eq!(apply_change(&list, &Change::Remove("a".to_string())), paths(&["b"]));
    assert!(apply_change(&list, &Change::Clear).is_empty());
    assert_eq!(apply_change(&list, &Change::Load), list);
}

#[test]
fn pruning_and_writing() {
    let list = paths(&["a", "b", "c"]);
    let kept = prune(&list, &vec![false, true, false]);
    assert_eq!(kept, paths(&["a", "c"]));
    assert!(!same_paths(&kept, &list));
    assert!(same_paths(&list, &paths(&["a", "b", "c"])));
    assert_eq!(Kind::Archives.file_name(), "recent-archives.json");
    assert_eq!(Kind::Folders.file_name(), "recent-folders.json");
}

#[test]
fn shared_history_moves_path_to_its_list() {
    let items = vec![
        Entry { path: "a".to_string(), kind: Kind::Archives },
        Entry { path: "d".to_string(), kind: Kind::Folders },
    ];
    let r = apply_entry_change(&items, &Change::Remember("d".to_string()), Kind::Archives);
    assert_eq!(r.len(), 2);
    assert_eq!(r[0].path, "d");
    assert!(r[0].kind == Kind::Archives);
    assert_eq!(r[1].path, "a");
    let many: Vec<Entry> = (0..25).map(|i| Entry { path: format!("p{i}"), kind: Kind::Folders }).collect();
    let missing: Vec<bool> = (0..25).map(|i| i % 5 == 0).collect();
    let kept = keep_entries(&many, &missing);
    assert_eq!(kept.len(), 20);
    assert_eq!(kept[0].path, "p1");
}

#[test]
fn list_files_round_trip() {
    let list = paths(&["C:\\a \"b\".7z", "D:/x/ü.zip"]);
    let bytes = stored_bytes(&list);
    assert_eq!(stored_paths(Some(bytes)).unwrap(), list);
    assert_eq!(stored_paths(None).unwrap(), Vec::<String>::new());
    assert_eq!(stored_paths(Some(b"[\"a\",\"b\"]".to_vec())).unwrap(), paths(&["a", "b"]));
    assert_eq!(stored_paths(Some(b"{}".to_vec())).unwrap_err(), HistoryError::Unreadable);
}
