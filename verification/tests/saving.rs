use swhkd_gui::codec::encode_config;
use swhkd_gui::errors::ConfigError;
use swhkd_gui::model::AppMode;
use swhkd_gui::model::AppState;
use swhkd_gui::model::GuiAction;
use swhkd_gui::model::GuiHotkey;
use swhkd_gui::persist::backup_path;
use swhkd_gui::persist::config_path_for_home;
use swhkd_gui::persist::find_duplicate;
use swhkd_gui::persist::prepare_save;
use swhkd_gui::persist::prepare_save_as;

fn hotkey(mods: &[&str], key: &str, command: &str, active: bool) -> GuiHotkey {
    GuiHotkey {
        modifiers: mods.iter().map(|m| String::from(*m)).collect(),
        key: String::from(key),
        action: GuiAction { command: String::from(command), active, layer_id: 0 },
    }
}

fn state_of(modes: Vec<AppMode>) -> AppState {
    AppState { modes, selected_mode: 0, recording_hotkey: None, last_backup: None }
}

#[test]
fn duplicate_bindings_fail_the_save() {
    // Two active bindings with the same modifiers and key, differing only in
    // command, abort the save; no plan exists, so nothing touches the disk.
    let state = state_of(vec![AppMode {
        name: String::from("Default"),
        hotkeys: vec![
            hotkey(&["ctrl"], "t", "one", true),
            hotkey(&["ctrl"], "t", "two", true),
        ],
    }]);
    match prepare_save(&state, "/tmp/swhkdrc", Some(String::from("old"))) {
        Err(ConfigError::DuplicateBinding(combo)) => assert_eq!(combo, "ctrl + t"),
        other => panic!("expected a duplicate-binding error, got {:?}", other),
    }
}

#[test]
fn inactive_duplicates_are_allowed() {
    let state = state_of(vec![AppMode {
        name: String::from("Default"),
        hotkeys: vec![
            hotkey(&["ctrl"], "t", "one", true),
            hotkey(&["ctrl"], "t", "two", false),
        ],
    }]);
    assert!(find_duplicate(&state).is_none());
    assert!(prepare_save(&state, "/tmp/swhkdrc", None).is_ok());
}

#[test]
fn duplicates_detected_per_mode_only() {
    let state = state_of(vec![
        AppMode {
            name: String::from("Default"),
            hotkeys: vec![hotkey(&["ctrl"], "t", "one", true)],
        },
        AppMode {
            name: String::from("gaming"),
            hotkeys: vec![hotkey(&["ctrl"], "t", "two", true)],
        },
    ]);
    assert!(find_duplicate(&state).is_none());
}

#[test]
fn duplicate_identity_ignores_modifier_order_via_sorted_sets() {
    let state = state_of(vec![AppMode {
        name: String::from("Default"),
        hotkeys: vec![
            hotkey(&["alt", "ctrl"], "t", "one", true),
            hotkey(&["alt", "ctrl"], "t", "two", true),
        ],
    }]);
    assert_eq!(find_duplicate(&state).as_deref(), Some("alt + ctrl + t"));
}

#[test]
fn save_backs_up_previous_content_before_overwrite() {
    // The file holds C1; saving C2 must plan the backup with C1 and the
    // target with the new encoding.
    let state = state_of(vec![AppMode {
        name: String::from("Default"),
        hotkeys: vec![hotkey(&["ctrl"], "n", "new-cmd", true)],
    }]);
    let c1 = String::from("ctrl + o\n    old-cmd\n\n\n");
    let plan = prepare_save(&state, "/home/u/.config/swhkd/swhkdrc", Some(c1.clone())).unwrap();
    let backup = plan.backup.expect("a backup step was planned");
    assert_eq!(backup.path, "/home/u/.config/swhkd/swhkdrc.bak");
    assert_eq!(backup.content, c1);
    assert_eq!(plan.target.path, "/home/u/.config/swhkd/swhkdrc");
    assert_eq!(plan.target.content, encode_config(&state));
    assert_eq!(plan.target.content, "ctrl + n\n    new-cmd\n\n\n");
}

#[test]
fn save_without_existing_file_plans_no_backup() {
    let state = state_of(vec![AppMode {
        name: String::from("Default"),
        hotkeys: vec![hotkey(&[], "a", "x", true)],
    }]);
    let plan = prepare_save(&state, "/tmp/swhkdrc", None).unwrap();
    assert!(plan.backup.is_none());
}

#[test]
fn save_as_skips_backup() {
    let state = state_of(vec![AppMode {
        name: String::from("Default"),
        hotkeys: vec![hotkey(&[], "a", "x", true)],
    }]);
    let plan = prepare_save_as(&state, "/tmp/export").unwrap();
    assert!(plan.backup.is_none());
    assert_eq!(plan.target.path, "/tmp/export");
    assert_eq!(plan.target.content, "a\n    x\n\n\n");
}

#[test]
fn backup_path_appends_bak() {
    assert_eq!(backup_path("/home/u/.config/swhkd/swhkdrc"), "/home/u/.config/swhkd/swhkdrc.bak");
}

#[test]
fn config_path_under_home() {
    assert_eq!(config_path_for_home("/home/u"), "/home/u/.config/swhkd/swhkdrc");
}

#[test]
fn error_variants_carry_their_payloads() {
    let e = ConfigError::DuplicateBinding(String::from("ctrl + t"));
    assert_eq!(e.duplicate_combination().map(|s| s.as_str()), Some("ctrl + t"));
    assert!(ConfigError::NoHomeDirectory.duplicate_combination().is_none());
    assert!(matches!(ConfigError::ParseError(String::from("bad")), ConfigError::ParseError(_)));
    assert!(matches!(ConfigError::IoError(String::from("denied")), ConfigError::IoError(_)));
}
