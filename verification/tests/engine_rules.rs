use p7z::catalog::{CreateOptions, Entry, OpenType, Overwrite};
use p7z::engine::{
    check_create, classify, conclude, first_volume_path, list_file_text, needs_password, select,
    staged_file_name, unsafe_entry, ChecksumReport, Engine, EngineError, Output, Refusal,
};

fn engine() -> Engine {
    Engine::new("C:/p7z/runtime/7zip/7z.exe".to_string())
}

fn entry(path: &str) -> Entry {
    Entry {
        path: path.to_string(),
        name: path.rsplit('/').next().unwrap().to_string(),
        directory: false,
        size: Some(1),
        modified: String::new(),
        link: false,
        encrypted: false,
    }
}

fn options(format: &str, password: &str) -> CreateOptions {
    CreateOptions {
        format: format.to_string(),
        level: "5".to_string(),
        method: "LZMA2".to_string(),
        threads: "auto".to_string(),
        split: "none".to_string(),
        solid: true,
        password: password.to_string(),
        encrypt_names: true,
    }
}

#[test]
fn list_and_test_commands() {
    let e = engine();
    let list = e.list("C:/a.7z", "pw");
    assert_eq!(list.program, "C:/p7z/runtime/7zip/7z.exe");
    assert_eq!(list.arguments, vec!["l", "-slt", "-sccUTF-8", "-ppw", "--", "C:/a.7z"]);
    assert!(list.directory.is_none());
    let kind = Some(OpenType { value: "#".to_string(), parser: true });
    let listed = e.list_as("C:/a.bin", &kind, "");
    assert_eq!(listed.arguments, vec!["l", "-slt", "-sccUTF-8", "-p", "-t#", "--", "C:/a.bin"]);
    let test = e.test("C:/a.7z", "");
    assert_eq!(test.arguments, vec!["t", "-sccUTF-8", "-p", "--", "C:/a.7z"]);
    let test_as = e.test_as("C:/a.7z", &kind, "x");
    assert_eq!(test_as.arguments, vec!["t", "-sccUTF-8", "-px", "-t#", "--", "C:/a.7z"]);
}

#[test]
fn extract_command() {
    let e = engine();
    let plain = e.extract("C:/a.7z", &None, "C:/out", "", Overwrite::Skip, None, false);
    assert_eq!(
        plain.arguments,
        vec!["x", "-aos", "-y", "-sccUTF-8", "-spd", "-p", "-oC:/out", "--", "C:/a.7z"]
    );
    let kind = Some(OpenType { value: "zip".to_string(), parser: false });
    let full = e.extract("C:/a.7z", &kind, "C:/out", "pw", Overwrite::Replace, Some("C:/t/list"), true);
    assert_eq!(
        full.arguments,
        vec![
            "x", "-bsp2", "-bso1", "-bse1", "-aoa", "-y", "-sccUTF-8", "-spd", "-ppw", "-tzip",
            "-oC:/out", "-scsUTF-8", "-i@C:/t/list", "--", "C:/a.7z"
        ]
    );
}

#[test]
fn create_command_and_rules() {
    let e = engine();
    let seven = e.create(&options("7z", "pw"), "C:/s/a.7z", "C:/t/in").unwrap();
    assert_eq!(
        seven.arguments,
        vec![
            "a", "-t7z", "-mx=5", "-sccUTF-8", "-spd", "-ppw", "-mhe=on", "-m0=LZMA2", "-ms=on",
            "-scsUTF-8", "--", "C:/s/a.7z", "@C:/t/in"
        ]
    );
    let mut zip = options("zip", "pw");
    zip.method = "Deflate".to_string();
    zip.threads = "4".to_string();
    zip.split = "10m".to_string();
    let z = e.create(&zip, "C:/s/a.zip", "L").unwrap();
    assert_eq!(
        z.arguments,
        vec![
            "a", "-tzip", "-mx=5", "-sccUTF-8", "-spd", "-ppw", "-mem=AES256", "-mm=Deflate",
            "-mmt=4", "-v10m", "-scsUTF-8", "--", "C:/s/a.zip", "@L"
        ]
    );
    let tar = e.create(&options("tar", ""), "T", "L").unwrap();
    assert_eq!(tar.arguments, vec!["a", "-ttar", "-mx=5", "-sccUTF-8", "-spd", "-scsUTF-8", "--", "T", "@L"]);
    assert_eq!(e.create(&options("tar", "pw"), "T", "L").unwrap_err(), Refusal::PasswordUnsupported);
    assert_eq!(check_create(&options("7z", ""), 0, false, false), Err(Refusal::SourceRequired));
    let mut split = options("7z", "");
    split.split = "10m".to_string();
    assert_eq!(check_create(&split, 1, false, true), Err(Refusal::SplitUpdateUnsupported));
    assert_eq!(check_create(&split, 1, false, false), Ok(()));
    assert_eq!(check_create(&options("gzip", ""), 2, false, false), Err(Refusal::SingleFileOnly));
    assert_eq!(check_create(&options("xz", ""), 1, true, false), Err(Refusal::SingleFileOnly));
    assert_eq!(check_create(&options("bzip2", ""), 1, false, false), Ok(()));
    assert_eq!(Refusal::SingleFileOnly.key(), "single-file-only");
}

#[test]
fn volumes_and_checksums() {
    let e = engine();
    assert_eq!(staged_file_name("a-volumes.zip", "10m"), "a");
    assert_eq!(staged_file_name("a-volumes.zip", "none"), "a-volumes.zip");
    assert_eq!(staged_file_name("a.7z", "10m"), "a.7z");
    assert_eq!(first_volume_path("C:/s/a.7z", "none"), "C:/s/a.7z");
    assert_eq!(first_volume_path("C:/s/a.7z", "10m"), "C:/s/a.7z.001");
    let volumes = vec!["C:/s/a.7z.001".to_string(), "C:/s/a.7z.002".to_string()];
    let b = e.bundle("C:/s/volumes.zip", &volumes);
    assert_eq!(
        b.arguments,
        vec!["a", "-tzip", "-mx=0", "-sccUTF-8", "--", "C:/s/volumes.zip", "C:/s/a.7z.001", "C:/s/a.7z.002"]
    );
    let h = e.checksum("SHA256", "L");
    assert_eq!(h.arguments, vec!["h", "-scrcSHA256", "-sccUTF-8", "-scsUTF-8", "-spd", "-i@L"]);
    let g = e.generate_checksum("C:/s/x.sha256", "L", "C:/d".to_string());
    assert_eq!(g.directory.as_deref(), Some("C:/d"));
    assert_eq!(g.arguments[8], "@L");
    let v = e.verify_checksums(&vec!["C:/d/x.sha256".to_string()], &vec![Some("C:/d".to_string())]);
    assert_eq!(v.len(), 1);
    assert_eq!(v[0].arguments, vec!["t", "-thash", "-sccUTF-8", "--", "C:/d/x.sha256"]);
    assert_eq!(list_file_text(&vec!["a".to_string(), "b/c".to_string()]), "a\nb/c\n");
}

#[test]
fn outcomes_of_commands() {
    let ok = classify(Some(0), "listing".to_string(), "").unwrap();
    assert_eq!(ok.text, "listing");
    assert!(!ok.warning);
    assert!(classify(Some(1), "x".to_string(), "").unwrap().warning);
    let failed = classify(Some(2), "out".to_string(), "ERROR: Wrong password : a.7z");
    match &failed {
        Err(EngineError::Failed(f)) => {
            assert_eq!(f.code, Some(2));
            assert_eq!(f.details, "out\nERROR: Wrong password : a.7z");
            assert!(f.password_required);
        }
        _ => panic!("expected a failure"),
    }
    assert!(needs_password(&failed.unwrap_err()));
    let other = classify(None, String::new(), "Cannot open the file").unwrap_err();
    assert!(!needs_password(&other));
    let encrypted = classify(Some(2), String::new(), "Data Error in encrypted file. Wrong password?").unwrap_err();
    assert!(needs_password(&encrypted));
    assert!(matches!(conclude(true, Some(0), b"x".to_vec(), b""), Err(EngineError::Refused(Refusal::ExtractCancelled))));
    assert!(matches!(conclude(false, Some(0), vec![0xff, 0xfe], b""), Err(EngineError::Refused(Refusal::EncodingInvalid))));
    let done = conclude(false, Some(0), "héllo".as_bytes().to_vec(), b"").unwrap();
    assert_eq!(done.text, "héllo");
    match conclude(false, Some(7), b"a".to_vec(), &[b'b', 0xff]) {
        Err(EngineError::Failed(f)) => assert_eq!(f.details, "a\nb\u{fffd}"),
        _ => panic!("expected a failure"),
    }
}

#[test]
fn selection_and_unsafe_entries() {
    let entries = vec![entry("a"), entry("a/b"), entry("ab"), entry("c/d")];
    let all = select(&entries, &vec![]);
    assert_eq!(all.len(), 4);
    let some = select(&entries, &vec!["a".to_string()]);
    let paths: Vec<&str> = some.iter().map(|e| e.path.as_str()).collect();
    assert_eq!(paths, vec!["a", "a/b"]);
    assert!(!unsafe_entry(&entry("a/b.txt")));
    assert!(unsafe_entry(&entry("/etc/passwd")));
    assert!(unsafe_entry(&entry("a/../b")));
    assert!(unsafe_entry(&entry("C:x")));
    assert!(unsafe_entry(&entry("a/b ")));
    assert!(unsafe_entry(&entry("a./b")));
    assert!(unsafe_entry(&entry("a\nb")));
    assert!(!unsafe_entry(&entry("a/.b")));
    let mut link = entry("x");
    link.link = true;
    assert!(unsafe_entry(&link));
}

#[test]
fn checksum_report_collects() {
    let mut report = ChecksumReport::new();
    assert!(report.record("a.sha256", Ok(Output { text: "Everything is Ok\n".to_string(), warning: false }), false));
    assert!(report.record("b.sha256", Err("bad file".to_string()), false));
    assert_eq!(report.output.text, "Everything is Ok\nb.sha256\nbad file\n");
    assert!(report.output.warning);
    assert!(!report.record("c.sha256", Err("stopped".to_string()), true));
    assert_eq!(report.output.text, "Everything is Ok\nb.sha256\nbad file\n");
}
