use p7z::catalog::{Catalog, CreateOptions, Entry, Overwrite};
use p7z::dispatch::{
    action_text, dispatch_step, parse_action, shell_request_allowed, DispatchAction, DispatchState, ShellAction,
};
use p7z::engine::{
    catalog_of, extraction_plan, may_start, probe_stops, settle, ChecksumCheck, ChecksumStep, CommandFailure,
    CreateJob, Engine, EngineError, Output, Refusal, Settled, TargetProbe,
};
use p7z::history::{apply_change, apply_entry_change, keep_entries, same_place, same_paths, stored_bytes, stored_paths, Change, Entry as Item, Kind};
use p7z::operations::{join_path, perform_next, Finish, PerformStage, PerformStep, QuickFormat, Request};
use p7z::pages::{key_action, KeyAction, KeyCommand, KeyContext};
use p7z::browser::CursorKey;
use p7z::registry::{register_check, RegistrationRefusal};

const LISTING: &str = "Listing archive: a.7z\n\n--\nPath = a.7z\nType = 7z\n\n----------\nPath = docs\nAttributes = D\nEncrypted = -\n\nPath = docs/x.txt\nSize = 3\nAttributes = A\nEncrypted = -\n\n";

fn engine() -> Engine {
    Engine::new("7z".to_string())
}

fn entry(path: &str, directory: bool) -> Entry {
    Entry {
        path: path.to_string(),
        name: path.rsplit('/').next().unwrap().to_string(),
        directory,
        size: None,
        modified: String::new(),
        link: false,
        encrypted: false,
    }
}

fn catalog(entries: Vec<Entry>) -> Catalog {
    Catalog {
        path: "/home/u/a.7z".to_string(),
        entries,
        warning: false,
        format: "7Z".to_string(),
        size: 10,
        open_type: None,
    }
}

fn strings(v: &[&str]) -> Vec<String> {
    v.iter().map(|s| s.to_string()).collect()
}

fn state(launches: Vec<Vec<String>>) -> DispatchState {
    DispatchState {
        blocked: false,
        modal_open: false,
        after_open: None,
        archive: None,
        archive_parent: None,
        open_after: true,
        password: "pw".to_string(),
        launches,
    }
}

fn clear() -> TargetProbe {
    TargetProbe { is_source: false, reparse_ancestor: None }
}

#[test]
fn extract_here_opens_each_archive_then_extracts_it() {
    let mut s = state(vec![strings(&["--extract-here", "/d/a.7z", "/d/b.7z"])]);
    let (files, action, step) = dispatch_step(&mut s);
    assert!(files);
    assert!(matches!(action, Some(ShellAction::ExtractHere)));
    assert!(matches!(step, DispatchAction::Execute(Request::Open(ref p), ref pw) if p == "/d/a.7z" && pw.is_empty()));
    assert_eq!(s.launches, vec![strings(&["--extract-here", "/d/b.7z"])]);
    assert!(matches!(s.after_open, Some(ShellAction::ExtractHere)));
    s.archive = Some(catalog(vec![entry("x.txt", false)]));
    s.archive_parent = Some("/d".to_string());
    let (files, _, step) = dispatch_step(&mut s);
    assert!(!files);
    match step {
        DispatchAction::Execute(Request::Extract { selected, parent, folder, overwrite, open_after, .. }, pw) => {
            assert!(selected.is_empty());
            assert_eq!(parent, "/d");
            assert_eq!(folder, "");
            assert_eq!(overwrite, Overwrite::RenameIncoming);
            assert!(open_after);
            assert_eq!(pw, "pw");
        }
        _ => panic!("expected an extraction"),
    }
    assert!(s.after_open.is_none());
    let (_, _, step) = dispatch_step(&mut s);
    assert!(matches!(step, DispatchAction::Execute(Request::Open(ref p), _) if p == "/d/b.7z"));
}

#[test]
fn busy_or_dialog_waits() {
    let mut s = state(vec![strings(&["/d/a.7z"])]);
    s.blocked = true;
    assert!(matches!(dispatch_step(&mut s).2, DispatchAction::Wait));
    s.blocked = false;
    s.modal_open = true;
    assert!(matches!(dispatch_step(&mut s).2, DispatchAction::Wait));
    assert_eq!(s.launches.len(), 1);
    s.modal_open = false;
    let (_, action, step) = dispatch_step(&mut s);
    assert!(matches!(action, Some(ShellAction::Open)));
    assert!(matches!(step, DispatchAction::Execute(Request::Open(ref p), _) if p == "/d/a.7z"));
    assert!(s.launches.is_empty());
    s.after_open = None;
    assert!(matches!(dispatch_step(&mut s).2, DispatchAction::Wait));
}

#[test]
fn launches_without_paths_or_action() {
    let mut s = state(vec![strings(&["--shell-request"]), strings(&["--frobnicate", "/x"]), strings(&["--compress"])]);
    assert!(matches!(dispatch_step(&mut s).2, DispatchAction::Message("shell-path-required")));
    assert!(matches!(dispatch_step(&mut s).2, DispatchAction::UnknownAction(ref w) if w == "--frobnicate"));
    assert!(matches!(dispatch_step(&mut s).2, DispatchAction::Message("shell-path-required")));
    assert!(s.launches.is_empty());
}

#[test]
fn menu_actions_that_take_all_paths() {
    let mut s = state(vec![
        strings(&["--shell-request", "/tmp/7zplus-request-1"]),
        strings(&["--compress-email", "/a", "/b"]),
        strings(&["--quick-zip", "/a"]),
        strings(&["--checksum=SHA256", "/a"]),
    ]);
    assert!(matches!(dispatch_step(&mut s).2, DispatchAction::ReadShellRequest(ref p) if p == "/tmp/7zplus-request-1"));
    assert!(matches!(dispatch_step(&mut s).2, DispatchAction::CreateDialog { ref paths, email: true } if paths.len() == 2));
    assert!(matches!(
        dispatch_step(&mut s).2,
        DispatchAction::Execute(Request::QuickCompress { format: QuickFormat::Zip, email: false, .. }, _)
    ));
    assert!(matches!(
        dispatch_step(&mut s).2,
        DispatchAction::Checksums { action: ShellAction::Checksum(ref m), .. } if m == "SHA256"
    ));
    assert!(s.after_open.is_none());
}

#[test]
fn action_words_read_back() {
    for word in ["--open", "--test", "--extract-here", "--quick-7z-email", "--checksum=CRC32", "--open-as=zip", "--open-as-parser=#"] {
        let action = parse_action(word).unwrap();
        assert_eq!(action_text(&action), word);
    }
    assert!(parse_action("--opened").is_none());
    assert!(matches!(parse_action("--open-as-parser=*"), Some(ShellAction::OpenAs(ref t)) if t.parser && t.value == "*"));
}

#[test]
fn shell_request_files_must_come_from_the_menu() {
    assert!(shell_request_allowed(Some("/tmp"), Some("7zplus-request-9"), "/tmp", "7zplus-request-").is_ok());
    assert_eq!(shell_request_allowed(Some("/home"), Some("7zplus-request-9"), "/tmp", "7zplus-request-"), Err("shell-request-invalid"));
    assert_eq!(shell_request_allowed(Some("/tmp"), Some("other"), "/tmp", "7zplus-request-"), Err("shell-request-invalid"));
    assert_eq!(shell_request_allowed(None, Some("7zplus-request-9"), "/tmp", "7zplus-request-"), Err("shell-request-invalid"));
}

#[test]
fn extraction_refuses_bad_folder_then_extracts_into_it() {
    let request = Request::Extract {
        catalog: catalog(vec![entry("x.txt", false)]),
        selected: Vec::new(),
        parent: "/d".to_string(),
        folder: "a/b".to_string(),
        overwrite: Overwrite::Skip,
        open_after: false,
    };
    assert!(matches!(perform_next(&engine(), &request, "", PerformStage::Start, false), PerformStep::Fail("folder-name-invalid")));
    let request = Request::Extract {
        catalog: catalog(vec![entry("x.txt", false)]),
        selected: strings(&["x.txt"]),
        parent: "/d".to_string(),
        folder: "a".to_string(),
        overwrite: Overwrite::Skip,
        open_after: true,
    };
    match perform_next(&engine(), &request, "", PerformStage::Start, false) {
        PerformStep::Extract { destination, selected, overwrite } => {
            assert_eq!(destination, "/d/a");
            assert_eq!(selected, strings(&["x.txt"]));
            assert_eq!(overwrite, Overwrite::Skip);
        }
        _ => panic!("expected an extraction"),
    }
    assert!(matches!(
        perform_next(&engine(), &request, "", PerformStage::Ran(true), false),
        PerformStep::Done(Finish::Extracted { ref destination, warning: true, open: true }) if destination == "/d/a"
    ));
}

#[test]
fn moving_out_deletes_after_a_clean_extraction() {
    let request = Request::Transfer {
        catalog: catalog(vec![entry("x.txt", false)]),
        selected: strings(&["x.txt"]),
        destination: "/out".to_string(),
        move_entries: true,
    };
    assert!(matches!(
        perform_next(&engine(), &request, "", PerformStage::Start, false),
        PerformStep::Extract { overwrite: Overwrite::RenameIncoming, .. }
    ));
    assert!(matches!(perform_next(&engine(), &request, "", PerformStage::Ran(true), false), PerformStep::Fail("archive-move-warning")));
    assert!(matches!(perform_next(&engine(), &request, "", PerformStage::Ran(false), false), PerformStep::Delete(ref s) if s == &strings(&["x.txt"])));
    assert!(matches!(
        perform_next(&engine(), &request, "", PerformStage::Deleted, false),
        PerformStep::Done(Finish::Moved { ref destination }) if destination == "/out"
    ));
}

#[test]
fn checking_counts_files() {
    let request = Request::Check(catalog(vec![entry("d", true), entry("d/x", false), entry("y", false)]));
    match perform_next(&engine(), &request, "pw", PerformStage::Start, false) {
        PerformStep::Run(i) => assert_eq!(i.arguments, strings(&["t", "-sccUTF-8", "-ppw", "--", "/home/u/a.7z"])),
        _ => panic!("expected a test"),
    }
    assert!(matches!(perform_next(&engine(), &request, "pw", PerformStage::Ran(false), false), PerformStep::Done(Finish::CheckComplete(2))));
    assert!(matches!(perform_next(&engine(), &request, "pw", PerformStage::Ran(true), false), PerformStep::Done(Finish::CheckWarning)));
}

#[test]
fn folders_join_with_one_slash() {
    assert_eq!(join_path("/d", "a"), "/d/a");
    assert_eq!(join_path("/d/", "a"), "/d/a");
    assert_eq!(join_path("/d", ""), "/d/");
    assert_eq!(join_path("", "a"), "a");
}

#[test]
fn extraction_plan_checks_every_entry() {
    let entries = vec![entry("a/x", false), entry("a/y", false), entry("b", false)];
    let selected = strings(&["a"]);
    let plan = extraction_plan(&entries, &selected, Overwrite::Replace, &vec![clear(), clear()], false).unwrap();
    assert_eq!(plan.as_deref(), Some("a/x\na/y\n"));
    assert_eq!(extraction_plan(&entries, &Vec::new(), Overwrite::Skip, &vec![clear(), clear(), clear()], false).unwrap(), None);
    let source = TargetProbe { is_source: true, reparse_ancestor: None };
    assert!(matches!(
        extraction_plan(&entries, &selected, Overwrite::RenameExisting, &vec![clear(), source.clone()], false),
        Err(EngineError::Refused(Refusal::ExtractSourceConflict))
    ));
    assert!(extraction_plan(&entries, &selected, Overwrite::RenameIncoming, &vec![clear(), source], false).is_ok());
    let junction = TargetProbe { is_source: false, reparse_ancestor: Some("/out/a".to_string()) };
    assert!(matches!(
        extraction_plan(&entries, &selected, Overwrite::Skip, &vec![junction, clear()], false),
        Err(EngineError::UnsafeEntry(ref p)) if p == "/out/a"
    ));
    let bad = vec![entry("../evil", false)];
    assert!(matches!(
        extraction_plan(&bad, &Vec::new(), Overwrite::Skip, &vec![clear()], false),
        Err(EngineError::UnsafeEntry(ref p)) if p == "../evil"
    ));
    assert!(matches!(
        extraction_plan(&bad, &Vec::new(), Overwrite::Skip, &vec![clear()], true),
        Err(EngineError::Refused(Refusal::ExtractCancelled))
    ));
}

#[test]
fn listing_outcome_becomes_catalog() {
    let output = Output { text: LISTING.to_string(), warning: true };
    let c = catalog_of("/d/a.7z".to_string(), 99, None, Ok(output), "a").unwrap();
    assert_eq!(c.format, "7Z");
    assert_eq!(c.entries.len(), 2);
    assert_eq!(c.entries[1].path, "docs/x.txt");
    assert!(c.warning);
    assert_eq!(c.size, 99);
    assert!(matches!(
        catalog_of("/d/a.7z".to_string(), 1, None, Err(EngineError::Refused(Refusal::TaskCancelled)), "a"),
        Err(EngineError::Refused(Refusal::TaskCancelled))
    ));
    let empty = Output { text: "no dashes".to_string(), warning: false };
    assert!(matches!(catalog_of("/d/a.7z".to_string(), 1, None, Ok(empty), "a"), Err(EngineError::Listing(_))));
}

#[test]
fn cancelled_commands_do_not_start() {
    assert_eq!(may_start(true), Err(Refusal::TaskCancelled));
    assert_eq!(may_start(false), Ok(()));
}

#[test]
fn checksum_check_reports_every_file() {
    let mut check = ChecksumCheck::new(strings(&["/d/a.sha256", "/e/b.sha256"]), vec![Some("/d".to_string()), None]);
    match check.next(&engine(), false) {
        ChecksumStep::Run(i) => {
            assert_eq!(i.arguments, strings(&["t", "-thash", "-sccUTF-8", "--", "/d/a.sha256"]));
            assert_eq!(i.directory.as_deref(), Some("/d"));
        }
        _ => panic!("expected a run"),
    }
    assert!(check.ran(Ok(Output { text: "ok a\n".to_string(), warning: false }), false));
    assert!(matches!(check.next(&engine(), true), ChecksumStep::Stop(Refusal::TaskCancelled)));
    assert!(!check.ran(Err("boom".to_string()), true));
    assert!(check.ran(Err("boom".to_string()), false));
    match check.next(&engine(), false) {
        ChecksumStep::Finished(o) => {
            assert_eq!(o.text, "ok a\n/e/b.sha256\nboom\n");
            assert!(o.warning);
        }
        _ => panic!("expected the report"),
    }
}

#[test]
fn creation_rules_refuse_before_staging() {
    let options = CreateOptions {
        format: "gzip".to_string(),
        level: "5".to_string(),
        method: String::new(),
        threads: "auto".to_string(),
        split: "none".to_string(),
        solid: false,
        password: String::new(),
        encrypt_names: false,
    };
    let e = engine();
    assert!(matches!(CreateJob::start(&e, &options, 0, false, "t".into(), "l", "d".into(), "b".into(), false), Err(Refusal::SourceRequired)));
    assert!(matches!(CreateJob::start(&e, &options, 2, false, "t".into(), "l", "d".into(), "b".into(), false), Err(Refusal::SingleFileOnly)));
    assert!(CreateJob::start(&e, &options, 1, false, "t".into(), "l", "d".into(), "b".into(), false).is_ok());
}

#[test]
fn extension_must_lie_beside_the_program() {
    let dir = strings(&["/", "Program Files", "7zplus"]);
    assert_eq!(register_check(&strings(&["/", "program files", "7ZPLUS", "shell.dll"]), Some(&dir)), Ok(()));
    assert_eq!(register_check(&strings(&["/", "Other", "shell.dll"]), Some(&dir)), Err(RegistrationRefusal::ExtensionLocation));
    assert_eq!(register_check(&strings(&["shell.dll"]), None), Err(RegistrationRefusal::ExtensionLocation));
}

#[test]
fn shared_history_remembering_twice_is_once() {
    let items = vec![
        Item { path: "b".to_string(), kind: Kind::Folders },
        Item { path: "a".to_string(), kind: Kind::Archives },
    ];
    let once = apply_entry_change(&items, &Change::Remember("a".to_string()), Kind::Archives);
    let once = keep_entries(&once, &vec![false; once.len()]);
    let twice = apply_entry_change(&once, &Change::Remember("a".to_string()), Kind::Archives);
    let twice = keep_entries(&twice, &vec![false; twice.len()]);
    assert_eq!(once.len(), 2);
    assert_eq!(twice.len(), once.len());
    for (x, y) in once.iter().zip(&twice) {
        assert_eq!(x.path, y.path);
        assert_eq!(x.kind, y.kind);
    }
    assert_eq!(once[0].path, "a");
}

#[test]
fn places_compare_by_components() {
    assert!(same_place("/a/b", "/a//b/"));
    assert!(same_place("C:\\d\\a.7z", "C:/d/a.7z"));
    assert!(same_place("/a/./b", "/a/b"));
    assert!(!same_place("./a", "a"));
    assert!(!same_place("/a", "a"));
    assert!(!same_place("/a/b", "/a/c"));
}

#[test]
fn remembering_a_path_written_differently_keeps_it_once() {
    let list = strings(&["C:\\d\\a.7z", "C:/e.7z"]);
    let r = apply_change(&list, &Change::Remember("C:/d/a.7z".to_string()));
    assert_eq!(r, strings(&["C:/d/a.7z", "C:/e.7z"]));
    assert!(same_paths(&r, &strings(&["C:\\d\\a.7z", "C:/e.7z"])));
    assert!(!same_paths(&r, &strings(&["C:/e.7z", "C:/d/a.7z"])));
}

#[test]
fn history_bytes_always_read_back() {
    let list = strings(&["/a \"quoted\"", "/b"]);
    assert_eq!(stored_paths(Some(stored_bytes(&list))).unwrap(), list);
}

fn files() -> KeyContext {
    KeyContext {
        context_menu: false,
        busy: false,
        modal_open: false,
        files_page: true,
        address_focused: false,
        list_focused: true,
        search_empty: true,
        directory_shown: false,
        has_rows: true,
        one_row_selected: false,
        has_cursor: true,
    }
}

#[test]
fn escape_undoes_one_thing_at_a_time() {
    let mut c = files();
    c.address_focused = true;
    c.modal_open = true;
    c.search_empty = false;
    assert_eq!(key_action(c, false, false, false, "escape"), KeyAction::LeaveAddress);
    c.address_focused = false;
    assert_eq!(key_action(c, false, false, false, "escape"), KeyAction::CloseDialog);
    c.modal_open = false;
    c.files_page = false;
    assert_eq!(key_action(c, false, false, false, "escape"), KeyAction::ShowFiles);
    c.files_page = true;
    assert_eq!(key_action(c, false, false, false, "escape"), KeyAction::ClearSearch);
    c.search_empty = true;
    assert_eq!(key_action(c, false, false, false, "escape"), KeyAction::ClearSelection);
    c.busy = true;
    assert_eq!(key_action(c, false, false, false, "escape"), KeyAction::Ignore);
}

#[test]
fn keys_act_only_where_they_may() {
    let c = files();
    assert_eq!(key_action(c, true, false, false, "o"), KeyAction::Command(KeyCommand::Open));
    assert_eq!(key_action(c, false, false, false, "down"), KeyAction::MoveCursor(CursorKey::Down));
    assert_eq!(key_action(c, false, false, false, "space"), KeyAction::ToggleCursor);
    assert_eq!(key_action(c, false, false, false, "enter"), KeyAction::Ignore);
    let mut busy = c;
    busy.busy = true;
    assert_eq!(key_action(busy, true, false, false, "l"), KeyAction::Ignore);
    assert_eq!(key_action(busy, true, false, false, "f"), KeyAction::FocusSearch);
    assert_eq!(key_action(busy, false, false, false, "backspace"), KeyAction::Ignore);
    let mut settings = c;
    settings.files_page = false;
    assert_eq!(key_action(settings, true, false, false, "s"), KeyAction::SaveSettings);
    assert_eq!(key_action(settings, true, false, false, "o"), KeyAction::Ignore);
    let mut menu = c;
    menu.context_menu = true;
    assert_eq!(key_action(menu, false, false, false, "escape"), KeyAction::Ignore);
}

#[test]
fn opening_an_entry_extracts_it_then_asks_for_programs() {
    let request = Request::OpenEntry {
        catalog: catalog(vec![entry("docs/run.EXE", false)]),
        path: "docs/run.EXE".to_string(),
        extract_all: "*.htm; .chm".to_string(),
        temp_directory: String::new(),
    };
    assert!(matches!(
        perform_next(&engine(), &request, "", PerformStage::Start, false),
        PerformStep::OpenCopy { root: None, ref selected } if selected == &strings(&["docs/run.EXE"])
    ));
    assert!(matches!(perform_next(&engine(), &request, "", PerformStage::Ran(true), false), PerformStep::Fail("integrity-warning")));
    assert!(matches!(perform_next(&engine(), &request, "", PerformStage::Ran(false), false), PerformStep::Confirm { ref path } if path == "docs/run.EXE"));
    assert!(matches!(perform_next(&engine(), &request, "", PerformStage::Confirmed(false), false), PerformStep::Done(Finish::Cancelled)));
    assert!(matches!(perform_next(&engine(), &request, "", PerformStage::Confirmed(true), true), PerformStep::Done(Finish::Cancelled)));
    assert!(matches!(
        perform_next(&engine(), &request, "", PerformStage::Confirmed(true), false),
        PerformStep::Done(Finish::OpenEntry { ref path }) if path == "docs/run.EXE"
    ));
    let help = Request::OpenEntry {
        catalog: catalog(vec![entry("a.chm", false)]),
        path: "a.chm".to_string(),
        extract_all: "*.htm; .chm".to_string(),
        temp_directory: "/t".to_string(),
    };
    assert!(matches!(
        perform_next(&engine(), &help, "", PerformStage::Start, false),
        PerformStep::OpenCopy { root: Some(ref r), ref selected } if r == "/t" && selected.is_empty()
    ));
    assert!(matches!(
        perform_next(&engine(), &help, "", PerformStage::Ran(false), false),
        PerformStep::Done(Finish::OpenEntry { .. })
    ));
}

#[test]
fn quick_compress_uses_the_quick_options() {
    let request = Request::QuickCompress { paths: strings(&["/a", "/b"]), format: QuickFormat::Zip, email: true };
    match perform_next(&engine(), &request, "pw", PerformStage::Start, false) {
        PerformStep::Create { paths, options } => {
            assert_eq!(paths, strings(&["/a", "/b"]));
            assert_eq!(options.format, "zip");
            assert_eq!(options.method, "Deflate");
            assert_eq!(options.password, "pw");
        }
        _ => panic!("expected a creation"),
    }
    assert!(matches!(perform_next(&engine(), &request, "pw", PerformStage::Ran(false), false), PerformStep::Done(Finish::Created { email: true })));
}

#[test]
fn extensions_come_from_the_last_part() {
    use_extension("docs/a.tar.gz", "gz");
    use_extension("docs.d/readme", "");
    use_extension("a/.hidden", "");
    use_extension("name.", "");
    use_extension("", "");
}

fn use_extension(path: &str, expected: &str) {
    assert_eq!(p7z::operations::extension_of(path), expected);
}

#[test]
fn password_errors_ask_for_a_password() {
    let wanting = EngineError::Failed(CommandFailure { code: Some(2), details: "Wrong password".to_string(), password_required: true });
    assert!(matches!(settle::<u8>(Err(wanting)), Settled::AskPassword));
    let broken = EngineError::Failed(CommandFailure { code: Some(2), details: "boom".to_string(), password_required: false });
    assert!(matches!(settle::<u8>(Err(broken)), Settled::Failed(EngineError::Failed(ref f)) if f.details == "boom"));
    assert!(matches!(settle::<u8>(Err(EngineError::Refused(Refusal::TaskCancelled))), Settled::Failed(_)));
    assert!(matches!(settle(Ok(7u8)), Settled::Done(7)));
}

#[test]
fn probes_that_stop_an_extraction() {
    let source = TargetProbe { is_source: true, reparse_ancestor: None };
    assert!(probe_stops(&source, Overwrite::Replace));
    assert!(!probe_stops(&source, Overwrite::Skip));
    let link = TargetProbe { is_source: false, reparse_ancestor: Some("/x".to_string()) };
    assert!(probe_stops(&link, Overwrite::RenameIncoming));
    assert!(!probe_stops(&clear(), Overwrite::Replace));
}

#[test]
fn remembering_again_after_pruning_changes_nothing() {
    let list = strings(&["/gone", "/b", "/a"]);
    let changed = apply_change(&list, &Change::Remember("/a".to_string()));
    assert_eq!(changed, strings(&["/a", "/gone", "/b"]));
    let once = p7z::history::prune(&changed, &vec![false, true, false]);
    assert_eq!(once, strings(&["/a", "/b"]));
    let again = apply_change(&once, &Change::Remember("/a".to_string()));
    let twice = p7z::history::prune(&again, &vec![false; again.len()]);
    assert!(same_paths(&twice, &once));
    assert_eq!(twice, once);
}
