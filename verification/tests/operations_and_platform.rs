use p7z::catalog::{Catalog, Entry};
use p7z::history::Change;
use p7z::operations::{delete_after_transfer, history_change_allowed};
use p7z::operations::{count_files, extract_all_for, folder_allowed, quick_options, runs_program, QuickFormat, Request};
use p7z::registry::{associated, extension_belongs_to, icon, may_configure, menu_owner, open_with, removal_plan, Ownership, RegistrationRefusal};
use p7z::shell_menu::{can_unload, fetch, fetch_arguments_valid, skip, title, MenuNode};
use p7z::theme::{themes, ThemeId, ThemeMode};

fn parts(v: &[&str]) -> Vec<String> {
    v.iter().map(|s| s.to_string()).collect()
}

#[test]
fn extraction_folder_names() {
    assert!(folder_allowed("archive"));
    assert!(!folder_allowed("."));
    assert!(!folder_allowed(".."));
    assert!(!folder_allowed("a/b"));
    assert!(!folder_allowed("a\\b"));
    assert!(!folder_allowed("C:"));
    assert!(folder_allowed("..."));
}

#[test]
fn open_entry_rules() {
    assert!(extract_all_for("*.htm; *.html ;css", "HTML"));
    assert!(extract_all_for("..css", "css"));
    assert!(!extract_all_for("*.htm", "html"));
    assert!(!extract_all_for("; ;*.", ""));
    assert!(runs_program("EXE"));
    assert!(runs_program("ps1"));
    assert!(!runs_program("txt"));
    let q = quick_options(QuickFormat::Zip, "pw");
    assert_eq!(q.format, "zip");
    assert_eq!(q.method, "Deflate");
    assert_eq!(q.level, "5");
    let catalog = Catalog { path: "a".to_string(), entries: vec![], warning: false, format: "7Z".to_string(), size: 0, open_type: None };
    assert_eq!(Request::Check(catalog.clone()).label(), "checking");
    assert_eq!(Request::Open("a".to_string()).label(), "opening");
    assert_eq!(Request::Edit(catalog).label(), "archive-editing");
    let entries = vec![
        Entry { path: "d".to_string(), name: "d".to_string(), directory: true, size: None, modified: String::new(), link: false, encrypted: false },
        Entry { path: "d/f".to_string(), name: "f".to_string(), directory: false, size: Some(1), modified: String::new(), link: false, encrypted: false },
    ];
    assert_eq!(count_files(&entries), 1);
}

#[test]
fn menu_titles_and_walk() {
    assert_eq!(title("Add to {name}", "R&D.7z"), "Add to R&&D.7z");
    assert_eq!(title("{name} / {name}", "x"), "x / x");
    assert_eq!(title("Plain", "x"), "Plain");
    assert_eq!(fetch(0, 3, 11), (0, 3, true));
    assert_eq!(fetch(10, 3, 11), (10, 11, false));
    assert_eq!(fetch(0, u32::MAX, 5), (0, 5, false));
    assert_eq!(skip(2, 3, 11), (5, true));
    assert_eq!(skip(9, 3, 11), (11, false));
    assert!(fetch_arguments_valid(true, false, 1));
    assert!(!fetch_arguments_valid(true, false, 2));
    assert!(!fetch_arguments_valid(false, true, 1));
    assert!(can_unload(0, 0));
    assert!(!can_unload(1, 0));
    assert_eq!(MenuNode::Action(4).offset(), 5);
    assert_eq!(MenuNode::Email.offset(), 1002);
}

#[test]
fn registration_rules() {
    let dir = parts(&["C:", "\\", "Program Files", "Plus7z"]);
    assert!(extension_belongs_to(&parts(&["c:", "\\", "program files", "plus7z", "7-zip-plus.dll"]), Some(&dir)));
    assert!(!extension_belongs_to(&parts(&["C:", "\\", "Program Files", "Plus7z"]), Some(&dir)));
    assert!(!extension_belongs_to(&parts(&["C:", "\\", "Program Files", "Other", "x.dll"]), Some(&dir)));
    assert!(!extension_belongs_to(&parts(&["C:", "\\", "Program Files", "Plus7z", "..", "x.dll"]), Some(&dir)));
    assert!(!extension_belongs_to(&parts(&["x.dll"]), None));
    assert_eq!(icon("C:\\p7z.exe"), "\"C:\\p7z.exe\",0");
    assert_eq!(open_with("C:\\p7z.exe"), "\"C:\\p7z.exe\" --open \"%1\"");
    assert_eq!(menu_owner(Ownership::Missing, Some(true)), Ownership::Current);
    assert_eq!(menu_owner(Ownership::Current, Some(false)), Ownership::Other);
    assert_eq!(menu_owner(Ownership::Missing, None), Ownership::Missing);
    assert_eq!(may_configure(Ownership::Other, Ownership::Current, false, true, true), Err(RegistrationRefusal::OtherInstallation));
    assert_eq!(may_configure(Ownership::Current, Ownership::Missing, true, true, true), Err(RegistrationRefusal::ShellRequired));
    assert_eq!(may_configure(Ownership::Current, Ownership::Current, true, true, true), Ok(()));
    assert_eq!(may_configure(Ownership::Missing, Ownership::Missing, false, false, false), Ok(()));
    assert_eq!(removal_plan(Ownership::Current, Ownership::Other), (false, true, true));
    assert_eq!(associated(&parts(&[".7z", ".zip"]), &parts(&[".zip"])), vec![false, true]);
    assert_eq!(RegistrationRefusal::ShellRequired.key(), "registration-shell-required");
}

#[test]
fn themes_and_palettes() {
    assert_eq!(themes(), [ThemeId::FluentLight, ThemeId::OneDark]);
    assert_eq!(ThemeId::default_theme(), ThemeId::FluentLight);
    assert_eq!(ThemeId::Dracula.mode(), ThemeMode::Dark);
    assert_eq!(ThemeId::GithubLight.mode(), ThemeMode::Light);
    assert_eq!(ThemeId::OneDark.label(), "theme-one-dark");
    assert_eq!(ThemeId::FluentLight.palette().accent, 0x3479cf);
    assert_eq!(ThemeId::Dracula.palette().scrim, 0x00000088);
}

#[test]
fn transfer_and_history_gates() {
    assert_eq!(delete_after_transfer(true, false), Some(true));
    assert_eq!(delete_after_transfer(true, true), None);
    assert_eq!(delete_after_transfer(false, true), Some(false));
    assert!(!history_change_allowed(false, &Change::Remember("a".to_string())));
    assert!(history_change_allowed(false, &Change::Remove("a".to_string())));
    assert!(history_change_allowed(true, &Change::Remember("a".to_string())));
}

#[test]
fn renaming_entries() {
    assert_eq!(p7z::operations::rename_target("docs/a.txt", "  b.txt ").as_deref(), Some("docs/b.txt"));
    assert_eq!(p7z::operations::rename_target("a.txt", "b.txt").as_deref(), Some("b.txt"));
    assert_eq!(p7z::operations::rename_target("x/y/a.txt", "c").as_deref(), Some("x/y/c"));
    assert_eq!(p7z::operations::rename_target("a.txt", "b/c"), None);
    assert_eq!(p7z::operations::rename_target("a.txt", "b\\c"), None);
    assert!(!p7z::operations::rename_ready("   "));
    assert!(p7z::operations::rename_ready(" a "));
}
