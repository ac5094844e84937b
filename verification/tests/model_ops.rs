use swhkd_gui::model::AppMode;
use swhkd_gui::model::AppState;
use swhkd_gui::model::Effect;
use swhkd_gui::model::GuiAction;
use swhkd_gui::model::GuiHotkey;
use swhkd_gui::model::Message;

fn hotkey(mods: &[&str], key: &str, command: &str, active: bool) -> GuiHotkey {
    GuiHotkey {
        modifiers: mods.iter().map(|m| String::from(*m)).collect(),
        key: String::from(key),
        action: GuiAction { command: String::from(command), active, layer_id: 0 },
    }
}

#[test]
fn new_state_has_one_default_mode() {
    let state = AppState::new();
    assert_eq!(state.modes.len(), 1);
    assert_eq!(state.modes[0].name, "Default");
    assert!(state.modes[0].hotkeys.is_empty());
    assert_eq!(state.selected_mode, 0);
    assert!(state.recording_hotkey.is_none());
}

#[test]
fn add_hotkey_appends_and_starts_recording() {
    let mut state = AppState::new();
    state.add_hotkey();
    assert_eq!(state.modes[0].hotkeys.len(), 1);
    let hk = &state.modes[0].hotkeys[0];
    assert!(hk.modifiers.is_empty());
    assert_eq!(hk.key, "");
    assert_eq!(hk.action.command, "");
    assert!(hk.action.active);
    assert_eq!(state.recording_hotkey, Some(0));
}

#[test]
fn delete_hotkey_removes_and_shifts_recording() {
    let mut state = AppState::new();
    state.modes[0].hotkeys.push(hotkey(&[], "a", "one", true));
    state.modes[0].hotkeys.push(hotkey(&[], "b", "two", true));
    state.recording_hotkey = Some(1);
    state.delete_hotkey(0);
    assert_eq!(state.modes[0].hotkeys.len(), 1);
    assert_eq!(state.modes[0].hotkeys[0].key, "b");
    assert_eq!(state.recording_hotkey, Some(0));
    state.recording_hotkey = Some(0);
    state.delete_hotkey(0);
    assert!(state.modes[0].hotkeys.is_empty());
    assert!(state.recording_hotkey.is_none());
}

#[test]
fn toggle_active_and_edit_command() {
    let mut state = AppState::new();
    state.modes[0].hotkeys.push(hotkey(&[], "a", "one", true));
    state.toggle_active(0, false);
    assert!(!state.modes[0].hotkeys[0].action.active);
    state.edit_command(0, String::from("two"));
    assert_eq!(state.modes[0].hotkeys[0].action.command, "two");
    state.edit_command(5, String::from("ignored"));
    assert_eq!(state.modes[0].hotkeys[0].action.command, "two");
}

#[test]
fn add_mode_selects_new_mode() {
    let mut state = AppState::new();
    state.add_mode();
    assert_eq!(state.modes.len(), 2);
    assert_eq!(state.modes[1].name, "New Mode");
    assert_eq!(state.selected_mode, 1);
}

#[test]
fn added_mode_names_are_unique() {
    let mut state = AppState::new();
    state.add_mode();
    state.add_mode();
    state.add_mode();
    assert_eq!(state.modes[1].name, "New Mode");
    assert_eq!(state.modes[2].name, "New Mode 1");
    assert_eq!(state.modes[3].name, "New Mode 2");
    state.delete_mode(2);
    state.add_mode();
    assert_eq!(state.modes[3].name, "New Mode 1");
    for i in 0..state.modes.len() {
        for j in 0..i {
            assert_ne!(state.modes[i].name, state.modes[j].name);
        }
    }
}

#[test]
fn delete_only_mode_reinstates_default() {
    let mut state = AppState::new();
    state.modes[0].name = String::from("work");
    state.modes[0].hotkeys.push(hotkey(&[], "a", "x", true));
    state.delete_mode(0);
    assert_eq!(state.modes.len(), 1);
    assert_eq!(state.modes[0].name, "Default");
    assert!(state.modes[0].hotkeys.is_empty());
    assert_eq!(state.selected_mode, 0);
}

#[test]
fn delete_mode_clamps_selection() {
    let mut state = AppState::new();
    state.add_mode();
    state.add_mode();
    assert_eq!(state.selected_mode, 2);
    state.delete_mode(2);
    assert_eq!(state.modes.len(), 2);
    assert_eq!(state.selected_mode, 1);
}

#[test]
fn key_recorded_sets_modifiers_and_key() {
    let mut state = AppState::new();
    state.add_hotkey();
    state.key_recorded("ctrl + shift + t");
    assert!(state.recording_hotkey.is_none());
    let hk = &state.modes[0].hotkeys[0];
    assert_eq!(hk.modifiers, vec![String::from("ctrl"), String::from("shift")]);
    assert_eq!(hk.key, "t");
}

#[test]
fn key_recorded_single_key_clears_modifiers() {
    let mut state = AppState::new();
    state.modes[0].hotkeys.push(hotkey(&["ctrl"], "a", "x", true));
    state.start_recording(0);
    state.key_recorded("escape");
    let hk = &state.modes[0].hotkeys[0];
    assert!(hk.modifiers.is_empty());
    assert_eq!(hk.key, "escape");
    assert_eq!(hk.action.command, "x");
}

#[test]
fn key_recorded_without_recording_changes_nothing() {
    let mut state = AppState::new();
    state.modes[0].hotkeys.push(hotkey(&[], "a", "x", true));
    state.key_recorded("ctrl + b");
    assert_eq!(state.modes[0].hotkeys[0].key, "a");
}

#[test]
fn select_mode_cancels_recording() {
    let mut state = AppState::new();
    state.add_mode();
    state.select_mode(0);
    state.add_hotkey();
    assert_eq!(state.recording_hotkey, Some(0));
    state.select_mode(1);
    assert_eq!(state.selected_mode, 1);
    assert!(state.recording_hotkey.is_none());
}

#[test]
fn merge_loaded_hotkeys_replaces_selected_mode() {
    let mut state = AppState::new();
    state.modes[0].hotkeys.push(hotkey(&[], "a", "old", true));
    state.merge_loaded_hotkeys(vec![hotkey(&["super"], "g", "new", true)]);
    assert_eq!(state.modes[0].hotkeys.len(), 1);
    assert_eq!(state.modes[0].hotkeys[0].action.command, "new");
}

#[test]
fn update_dispatches_messages_and_effects() {
    let mut state = AppState::new();
    assert!(matches!(state.update(Message::AddHotkey), Effect::Nothing));
    assert_eq!(state.modes[0].hotkeys.len(), 1);
    assert!(matches!(
        state.update(Message::KeyRecorded(String::from("ctrl + t"))),
        Effect::Nothing
    ));
    assert_eq!(state.modes[0].hotkeys[0].key, "t");
    assert!(matches!(
        state.update(Message::EditCommand(0, String::from("run"))),
        Effect::Nothing
    ));
    assert_eq!(state.modes[0].hotkeys[0].action.command, "run");
    assert!(matches!(state.update(Message::SaveConfig), Effect::Save));
    assert!(matches!(state.update(Message::SaveConfigAs), Effect::PickSavePath));
    assert!(matches!(state.update(Message::LoadConfigFile), Effect::PickConfigFile));
    match state.update(Message::ConfigFilePicked(Some(String::from("/tmp/rc")))) {
        Effect::LoadConfigAt(p) => assert_eq!(p, "/tmp/rc"),
        _ => panic!("expected a load effect"),
    }
    match state.update(Message::ConfigFileSavePath(Some(String::from("/tmp/out")))) {
        Effect::SaveAt(p) => assert_eq!(p, "/tmp/out"),
        _ => panic!("expected a save-at effect"),
    }
    assert!(matches!(state.update(Message::DeleteHotkey(0)), Effect::SaveSnapshot));
    assert!(matches!(state.update(Message::DeleteHotkey(7)), Effect::Nothing));
    match state.update(Message::ShowError(String::from("boom"))) {
        Effect::ShowError(m) => assert_eq!(m, "boom"),
        _ => panic!("expected an error effect"),
    }
    assert!(matches!(state.update(Message::ClearError), Effect::ClearError));
}

#[test]
fn binary_picked_sets_command() {
    let mut state = AppState::new();
    state.modes[0].hotkeys.push(hotkey(&[], "a", "", true));
    state.update(Message::BinaryPicked(0, Some(String::from("/usr/bin/app"))));
    assert_eq!(state.modes[0].hotkeys[0].action.command, "/usr/bin/app");
    state.update(Message::BinaryPicked(0, None));
    assert_eq!(state.modes[0].hotkeys[0].action.command, "/usr/bin/app");
}

#[test]
fn edit_mode_name_renames_selected() {
    let mut state = AppState::new();
    let _ = state.update(Message::EditModeName(String::from("media")));
    assert_eq!(state.modes[0].name, "media");
}

#[test]
fn default_state_matches_new() {
    let a = AppState::default();
    let b = AppState::new();
    assert_eq!(a.modes.len(), b.modes.len());
    assert_eq!(a.modes[0].name, b.modes[0].name);
    assert_eq!(a.selected_mode, b.selected_mode);
}

#[test]
fn modes_field_is_plain_data() {
    let mode = AppMode { name: String::from("x"), hotkeys: vec![] };
    assert_eq!(mode.name, "x");
}
