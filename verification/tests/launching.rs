use p7z::launch::{launch_request, parse_launch, queued_launches, Launch, Maintenance};

fn args(v: &[&str]) -> Vec<String> {
    v.iter().map(|s| s.to_string()).collect()
}

#[test]
fn language_is_taken_out() {
    match parse_launch(args(&["a.7z", "--lang", "de", "b.zip"])) {
        Launch::Window { language, arguments, first_path } => {
            assert_eq!(language.as_deref(), Some("de"));
            assert_eq!(arguments, args(&["a.7z", "b.zip"]));
            assert_eq!(first_path, 0);
        }
        _ => panic!("expected the window"),
    }
    assert!(matches!(parse_launch(args(&["x", "--lang"])), Launch::LanguageMissing));
}

#[test]
fn maintenance_commands() {
    match parse_launch(args(&["--register", "C:/x.dll"])) {
        Launch::Maintenance { command: Maintenance::Register(Some(d)), language: None } => assert_eq!(d, "C:/x.dll"),
        _ => panic!("expected register"),
    }
    assert!(matches!(parse_launch(args(&["--unregister"])), Launch::Maintenance { command: Maintenance::Unregister, .. }));
    assert!(matches!(
        parse_launch(args(&["--lang", "fr", "--prepare-install"])),
        Launch::Maintenance { command: Maintenance::PrepareInstall(None), language: Some(_) }
    ));
    match parse_launch(args(&["--extract", "a.7z"])) {
        Launch::Window { first_path, .. } => assert_eq!(first_path, 1),
        _ => panic!("expected the window"),
    }
}

#[test]
fn launch_requests() {
    let (action, paths) = launch_request(&args(&["a.7z", "b.7z"]));
    assert_eq!(action, "--open");
    assert_eq!(paths, args(&["a.7z", "b.7z"]));
    let (action, paths) = launch_request(&args(&["--test", "a.7z"]));
    assert_eq!(action, "--test");
    assert_eq!(paths, args(&["a.7z"]));
    let queued = queued_launches("--test", &args(&["a", "b", "c"]));
    assert_eq!(queued, vec![args(&["--test", "b"]), args(&["--test", "c"])]);
}
