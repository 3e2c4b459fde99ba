use p7z::catalog::{CreateOptions, Entry};
use p7z::engine::{CreateJob, CreateStage, CreateStep, Engine, Refusal};
use p7z::operations::{archive_file_name, drop_opens_archive, reopening_password, summarize};
use p7z::pages::{key_command, matching_recent, set_destination, window_title, DestinationKind, KeyCommand, Page, Tab};
use p7z::shell_menu::ModuleUse;

fn entry(path: &str, directory: bool, size: Option<u64>, encrypted: bool) -> Entry {
    Entry { path: path.to_string(), name: path.to_string(), directory, size, modified: String::new(), link: false, encrypted }
}

#[test]
fn new_archive_names() {
    assert_eq!(archive_file_name("backup", "gzip", "none").as_deref(), Some("backup.gz"));
    assert_eq!(archive_file_name("backup", "bzip2", "none").as_deref(), Some("backup.bz2"));
    assert_eq!(archive_file_name("backup", "7z", "100m").as_deref(), Some("backup.7z-volumes.zip"));
    assert_eq!(archive_file_name("a/b", "zip", "none"), None);
    assert_eq!(archive_file_name("c:", "zip", "none"), None);
    assert_eq!(reopening_password("none", "pw".to_string()), "pw");
    assert_eq!(reopening_password("10m", "pw".to_string()), "");
}

#[test]
fn dropped_files() {
    assert!(drop_opens_archive(1, Some("ZIP")));
    assert!(drop_opens_archive(1, Some("001")));
    assert!(!drop_opens_archive(2, Some("zip")));
    assert!(!drop_opens_archive(1, Some("txt")));
    assert!(!drop_opens_archive(1, None));
}

#[test]
fn properties_summary() {
    let entries = vec![
        entry("d", true, Some(100), false),
        entry("d/a", false, Some(10), false),
        entry("d/b", false, None, true),
        entry("c", false, Some(5), false),
    ];
    let s = summarize(&entries);
    assert_eq!(s.unpacked_size, 15);
    assert_eq!(s.files, 3);
    assert_eq!(s.folders, 1);
    assert!(s.encrypted);
}

#[test]
fn pages_and_titles() {
    assert_eq!(Page::Files.order(), 0);
    assert_eq!(Page::Settings(Tab::Advanced).order(), 4);
    assert_eq!(Tab::Appearance.order(), 2);
    assert_eq!(Tab::Associations.label(), "settings-associations");
    assert_eq!(window_title(Some("a.7z")), "a.7z - 7zplus");
    assert_eq!(window_title(None), "7zplus");
    assert_eq!(DestinationKind::Downloads.icon(), "ArrowDownload");
    assert_eq!(DestinationKind::Custom.label(), "custom-directory");
}

#[test]
fn recent_search_and_destinations() {
    let recent = vec!["C:/Data/Photos.7z".to_string(), "C:/x.zip".to_string(), "D:/photos/old.rar".to_string()];
    assert_eq!(matching_recent(&recent, "PHOTOS"), vec![0, 2]);
    assert_eq!(matching_recent(&recent, ""), vec![0, 1, 2]);
    let mut d = vec![(DestinationKind::Archive, "C:/a".to_string()), (DestinationKind::Downloads, "C:/dl".to_string())];
    assert_eq!(set_destination(&mut d, DestinationKind::Custom, "C:/pick".to_string()), 2);
    assert_eq!(set_destination(&mut d, DestinationKind::Custom, "C:/other".to_string()), 2);
    assert_eq!(set_destination(&mut d, DestinationKind::Archive, "E:/arch".to_string()), 0);
    assert_eq!(d[0].1, "E:/arch");
    assert_eq!(d.len(), 3);
    assert_eq!(d[2].1, "C:/other");
}

#[test]
fn keyboard_commands() {
    assert_eq!(key_command(true, false, false, "o"), Some(KeyCommand::Open));
    assert_eq!(key_command(true, false, true, "s"), Some(KeyCommand::Save));
    assert_eq!(key_command(false, true, true, "e"), Some(KeyCommand::Extract));
    assert_eq!(key_command(false, false, true, "f1"), Some(KeyCommand::Help));
    assert_eq!(key_command(true, true, false, "e"), None);
    assert_eq!(key_command(false, false, false, "o"), None);
}

#[test]
fn module_use_counts() {
    let mut u = ModuleUse::new();
    assert!(u.idle());
    u.object_made();
    assert!(!u.idle());
    u.lock_server(true);
    u.object_released();
    assert!(!u.idle());
    u.lock_server(false);
    assert!(u.idle());
    u.object_released();
    assert_eq!(u.objects, usize::MAX);
}

#[test]
fn creation_steps() {
    let engine = Engine::new("7z".to_string());
    let options = CreateOptions {
        format: "7z".to_string(),
        level: "5".to_string(),
        method: "LZMA2".to_string(),
        threads: "auto".to_string(),
        split: "10m".to_string(),
        solid: false,
        password: String::new(),
        encrypt_names: false,
    };
    let (mut job, first) = CreateJob::start(&engine, &options, 1, false, "S/a.7z".to_string(), "L", "D/a.7z-volumes.zip".to_string(), "S/volumes.zip".to_string(), false).unwrap();
    assert_eq!(first.arguments[0], "a");
    assert!(first.arguments.contains(&"-ms=off".to_string()));
    match job.finished(&engine, false, false) {
        CreateStep::Run(test) => assert_eq!(test.arguments, vec!["t", "-sccUTF-8", "-p", "--", "S/a.7z.001"]),
        _ => panic!("expected the test"),
    }
    assert!(matches!(job.finished(&engine, false, false), CreateStep::ListVolumes));
    assert_eq!(job.stage, CreateStage::Bundling);
    let bundle = job.volumes_listed(&engine, &vec!["S/a.7z.001".to_string()]);
    assert_eq!(bundle.arguments[5], "S/volumes.zip");
    match job.finished(&engine, false, false) {
        CreateStep::Publish { source, destination, replace } => {
            assert_eq!(source, "S/volumes.zip");
            assert_eq!(destination, "D/a.7z-volumes.zip");
            assert!(!replace);
        }
        _ => panic!("expected publishing"),
    }
    let mut single = options.clone();
    single.split = "none".to_string();
    let (mut job, _) = CreateJob::start(&engine, &single, 1, false, "S/a.7z".to_string(), "L", "D/a.7z".to_string(), "S/volumes.zip".to_string(), true).unwrap();
    assert!(matches!(job.finished(&engine, true, false), CreateStep::Refuse(Refusal::CreateWarning)));
    let (mut job, _) = CreateJob::start(&engine, &single, 1, false, "S/a.7z".to_string(), "L", "D/a.7z".to_string(), "S/v.zip".to_string(), true).unwrap();
    let _ = job.finished(&engine, false, false);
    assert!(matches!(job.finished(&engine, false, true), CreateStep::Refuse(Refusal::TaskCancelled)));
    let (mut job, _) = CreateJob::start(&engine, &single, 1, false, "S/a.7z".to_string(), "L", "D/a.7z".to_string(), "S/v.zip".to_string(), true).unwrap();
    let _ = job.finished(&engine, false, false);
    match job.finished(&engine, false, false) {
        CreateStep::Publish { source, replace, .. } => {
            assert_eq!(source, "S/a.7z");
            assert!(replace);
        }
        _ => panic!("expected publishing"),
    }
}

#[test]
fn task_endings() {
    assert_eq!(p7z::operations::extraction_end(true, false, false, false), (true, "extract-finished"));
    assert_eq!(p7z::operations::extraction_end(true, true, false, false), (false, "extract-warning"));
    assert_eq!(p7z::operations::extraction_end(true, false, false, true).0, false);
    assert_eq!(p7z::operations::stopped_messages(true), ("extract-stopped", "extract-stopped-detail"));
    assert_eq!(p7z::operations::stopped_messages(false), ("task-cancelled", "task-cancelled"));
}

#[test]
fn notice_timing() {
    let shown = Some("saved".to_string());
    assert_eq!(p7z::pages::notice_step(&shown, &None, 0), p7z::pages::NoticeStep::Restart);
    assert_eq!(p7z::pages::notice_step(&shown, &Some("other".to_string()), 9), p7z::pages::NoticeStep::Restart);
    assert_eq!(p7z::pages::notice_step(&shown, &shown, 5), p7z::pages::NoticeStep::Keep);
    assert_eq!(p7z::pages::notice_step(&shown, &shown, 6), p7z::pages::NoticeStep::Clear);
    assert_eq!(p7z::pages::notice_step(&None, &shown, 1), p7z::pages::NoticeStep::Forget);
}
