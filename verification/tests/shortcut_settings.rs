use p7z::shortcuts::{validate, Shortcut, ShortcutAction, ShortcutError, Shortcuts};

fn key(k: &str, control: bool, shift: bool, alt: bool) -> Shortcut {
    Shortcut { key: k.to_string(), control, shift, alt }
}

#[test]
fn defaults_are_valid() {
    let values = Shortcuts::new();
    assert!(validate(&values).is_ok());
    for action in ShortcutAction::all() {
        if let Some(s) = action.default_shortcut() {
            assert!(s.allowed(), "{:?}", action);
        }
    }
}

#[test]
fn display_of_shortcuts() {
    assert_eq!(key("o", true, false, false).display(), "Ctrl+O");
    assert_eq!(key("enter", false, false, true).display(), "Alt+Enter");
    assert_eq!(key("s", true, true, false).display(), "Ctrl+Shift+S");
    assert_eq!(key("delete", false, false, false).display(), "Del");
}

#[test]
fn allowed_keys() {
    assert!(key("f5", false, false, false).allowed());
    assert!(!key("f13", false, false, false).allowed());
    assert!(!key("a", false, false, false).allowed());
    assert!(!key("c", true, false, false).allowed());
    assert!(key("c", true, true, false).allowed());
    assert!(!key("delete", true, false, true).allowed());
    assert!(!key("space", false, false, true).allowed());
    assert!(!key("pagedown", true, false, false).allowed());
}

#[test]
fn settings_and_conflicts() {
    let mut values = Shortcuts::new();
    values.set(ShortcutAction::Create, Some(key("o", true, false, false)));
    match validate(&values) {
        Err(ShortcutError::Conflict { existing, .. }) => assert_eq!(existing, ShortcutAction::Open),
        other => panic!("expected a conflict, got {:?}", other),
    }
    values.clear(ShortcutAction::Create);
    assert!(validate(&values).is_ok());
    values.set(ShortcutAction::Open, Some(key("q", false, false, false)));
    assert!(matches!(validate(&values), Err(ShortcutError::Invalid { action: ShortcutAction::Open, .. })));
    values.set(ShortcutAction::Open, None);
    assert!(ShortcutAction::Open.binding(&values).is_none());
    assert!(validate(&values).is_ok());
    assert_eq!(ShortcutAction::Open.label(), "archive-open");
    assert_eq!(ShortcutAction::Open.description(), "shortcut-desc-open");
}

#[test]
fn thirty_three_actions() {
    let all = ShortcutAction::all();
    assert_eq!(all.len(), 33);
    for (i, a) in all.iter().enumerate() {
        assert_eq!(a.code(), i);
    }
}

#[test]
fn every_action_has_a_name_of_its_own() {
    let all = ShortcutAction::all();
    assert_eq!(all.len(), 33);
    for (i, a) in all.iter().enumerate() {
        for b in &all[i + 1..] {
            assert_ne!(a.label(), b.label());
        }
    }
}

#[test]
fn defaults_are_allowed_and_distinct() {
    let all = ShortcutAction::all();
    let defaults: Vec<Shortcut> = all.iter().filter_map(|a| a.default_shortcut()).collect();
    for (i, s) in defaults.iter().enumerate() {
        assert!(s.allowed(), "{:?}", s);
        for t in &defaults[i + 1..] {
            assert!(!s.same_as(t));
        }
    }
}
