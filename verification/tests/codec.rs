use swhkd_gui::codec::decode_config;
use swhkd_gui::codec::decode_config_flat;
use swhkd_gui::codec::encode_config;
use swhkd_gui::model::AppMode;
use swhkd_gui::model::AppState;
use swhkd_gui::model::GuiAction;
use swhkd_gui::model::GuiHotkey;

fn hotkey(mods: &[&str], key: &str, command: &str, active: bool) -> GuiHotkey {
    GuiHotkey {
        modifiers: mods.iter().map(|m| String::from(*m)).collect(),
        key: String::from(key),
        action: GuiAction { command: String::from(command), active, layer_id: 0 },
    }
}

fn state_of(modes: Vec<AppMode>) -> AppState {
    AppState { modes, selected_mode: 0, recording_hotkey: None, last_backup: None }
}

#[test]
fn decode_example_file() {
    let text = "@gaming\n\nsuper + g\n    launch-game\n\na\n    echo hi\n\n";
    let modes = decode_config(text);
    assert_eq!(modes.len(), 1);
    assert_eq!(modes[0].name, "gaming");
    assert_eq!(modes[0].hotkeys.len(), 2);
    assert_eq!(modes[0].hotkeys[0].modifiers, vec![String::from("super")]);
    assert_eq!(modes[0].hotkeys[0].key, "g");
    assert_eq!(modes[0].hotkeys[0].action.command, "launch-game");
    assert!(modes[0].hotkeys[0].action.active);
    assert!(modes[0].hotkeys[1].modifiers.is_empty());
    assert_eq!(modes[0].hotkeys[1].key, "a");
    assert_eq!(modes[0].hotkeys[1].action.command, "echo hi");
}

#[test]
fn decode_two_modes() {
    let text = "super + g\n    launch-game\n\n@gaming\n\na\n    echo hi\n";
    let modes = decode_config(text);
    assert_eq!(modes.len(), 2);
    assert_eq!(modes[0].name, "Default");
    assert_eq!(modes[0].hotkeys.len(), 1);
    assert_eq!(modes[0].hotkeys[0].key, "g");
    assert_eq!(modes[1].name, "gaming");
    assert_eq!(modes[1].hotkeys.len(), 1);
    assert_eq!(modes[1].hotkeys[0].key, "a");
}

#[test]
fn decode_empty_text_yields_default_mode() {
    let modes = decode_config("");
    assert_eq!(modes.len(), 1);
    assert_eq!(modes[0].name, "Default");
    assert!(modes[0].hotkeys.is_empty());
}

#[test]
fn decode_skips_comments_and_blanks() {
    let text = "# a comment\n\nctrl + x\n    run\n# trailing comment\n";
    let modes = decode_config(text);
    assert_eq!(modes.len(), 1);
    assert_eq!(modes[0].hotkeys.len(), 1);
    assert_eq!(modes[0].hotkeys[0].modifiers, vec![String::from("ctrl")]);
    assert_eq!(modes[0].hotkeys[0].key, "x");
    assert_eq!(modes[0].hotkeys[0].action.command, "run");
}

#[test]
fn decode_discards_header_without_command() {
    let text = "ctrl + x\n\nctrl + y\n    kept\n";
    let modes = decode_config(text);
    assert_eq!(modes.len(), 1);
    assert_eq!(modes[0].hotkeys.len(), 1);
    assert_eq!(modes[0].hotkeys[0].key, "y");
}

#[test]
fn decode_lowercases_and_sorts_modifiers() {
    let text = "Shift + CTRL + T\n    term\n";
    let modes = decode_config(text);
    assert_eq!(modes[0].hotkeys.len(), 1);
    let hk = &modes[0].hotkeys[0];
    assert_eq!(hk.modifiers, vec![String::from("ctrl"), String::from("shift")]);
    assert_eq!(hk.key, "t");
}

#[test]
fn decode_drops_empty_and_repeated_modifiers() {
    let text = "ctrl + + ctrl + t\n    x\n";
    let modes = decode_config(text);
    let hk = &modes[0].hotkeys[0];
    assert_eq!(hk.modifiers, vec![String::from("ctrl")]);
    assert_eq!(hk.key, "t");
}

#[test]
fn encode_exact_text() {
    let state = state_of(vec![
        AppMode {
            name: String::from("Default"),
            hotkeys: vec![hotkey(&["ctrl", "shift"], "t", "terminal", true)],
        },
        AppMode { name: String::from("gaming"), hotkeys: vec![hotkey(&[], "g", "game", true)] },
    ]);
    let text = encode_config(&state);
    assert_eq!(text, "ctrl + shift + t\n    terminal\n\n\n@gaming\n\ng\n    game\n\n\n");
}

#[test]
fn encode_drops_inactive_binding() {
    let state = state_of(vec![AppMode {
        name: String::from("Default"),
        hotkeys: vec![hotkey(&[], "a", "kept", true), hotkey(&[], "b", "dropped", false)],
    }]);
    let text = encode_config(&state);
    assert!(!text.contains("dropped"));
    assert!(!text.contains("b\n"));
    assert!(text.contains("kept"));
}

#[test]
fn inactive_binding_not_reproduced_after_round_trip() {
    let state = state_of(vec![AppMode {
        name: String::from("Default"),
        hotkeys: vec![hotkey(&[], "a", "kept", true), hotkey(&["ctrl"], "b", "dropped", false)],
    }]);
    let decoded = decode_config(&encode_config(&state));
    assert_eq!(decoded.len(), 1);
    assert_eq!(decoded[0].hotkeys.len(), 1);
    assert_eq!(decoded[0].hotkeys[0].key, "a");
}

#[test]
fn round_trip_preserves_modes_and_bindings() {
    let state = state_of(vec![
        AppMode {
            name: String::from("Default"),
            hotkeys: vec![
                hotkey(&["ctrl", "shift"], "t", "terminal", true),
                hotkey(&[], "escape", "panic-button", true),
            ],
        },
        AppMode {
            name: String::from("gaming"),
            hotkeys: vec![hotkey(&["super"], "g", "launch-game", true)],
        },
    ]);
    let decoded = decode_config(&encode_config(&state));
    assert_eq!(decoded.len(), 2);
    assert_eq!(decoded[0].name, "Default");
    assert_eq!(decoded[0].hotkeys.len(), 2);
    assert_eq!(decoded[0].hotkeys[0].modifiers, vec![
        String::from("ctrl"),
        String::from("shift"),
    ]);
    assert_eq!(decoded[0].hotkeys[0].key, "t");
    assert_eq!(decoded[0].hotkeys[0].action.command, "terminal");
    assert_eq!(decoded[0].hotkeys[1].key, "escape");
    assert_eq!(decoded[1].name, "gaming");
    assert_eq!(decoded[1].hotkeys[0].modifiers, vec![String::from("super")]);
    assert_eq!(decoded[1].hotkeys[0].key, "g");
    assert_eq!(decoded[1].hotkeys[0].action.command, "launch-game");
}

#[test]
fn default_mode_header_omitted_any_casing() {
    for name in ["Default", "default", "DEFAULT", "DeFaUlT"] {
        let state = state_of(vec![AppMode {
            name: String::from(name),
            hotkeys: vec![hotkey(&[], "a", "x", true)],
        }]);
        let text = encode_config(&state);
        assert!(!text.contains('@'), "unexpected header for mode name {}", name);
    }
    let state = state_of(vec![AppMode {
        name: String::from("defaults"),
        hotkeys: vec![hotkey(&[], "a", "x", true)],
    }]);
    assert!(encode_config(&state).starts_with("@defaults\n"));
}

#[test]
fn flat_decode_ignores_mode_headers() {
    let text = "a\n    one\n\n@gaming\n\nb\n    two\n";
    let hotkeys = decode_config_flat(text);
    assert_eq!(hotkeys.len(), 2);
    assert_eq!(hotkeys[0].key, "a");
    assert_eq!(hotkeys[1].key, "b");
}

#[test]
fn load_from_text_replaces_configuration() {
    let mut state = AppState::new();
    state.load_from_text("@work\n\nctrl + w\n    work-cmd\n");
    assert_eq!(state.modes.len(), 1);
    assert_eq!(state.modes[0].name, "work");
    assert_eq!(state.selected_mode, 0);
    assert!(state.recording_hotkey.is_none());
}

#[test]
fn load_from_flat_text_yields_single_default_mode() {
    let mut state = AppState::new();
    state.load_from_flat_text("@work\n\nctrl + w\n    work-cmd\n");
    assert_eq!(state.modes.len(), 1);
    assert_eq!(state.modes[0].name, "Default");
    assert_eq!(state.modes[0].hotkeys.len(), 1);
    assert_eq!(state.modes[0].hotkeys[0].action.command, "work-cmd");
}
