use swhkd_gui::model::AppState;

// The sample configs ship with the daemon; the basic keybind one is inlined
// here so the test needs no fixture files on disk.
const BASIC_KEYBIND: &str = "super + enter\n    alacritty\n";

#[test]
fn gui_can_load_all_sweet_sample_configs() {
    let samples = [BASIC_KEYBIND];
    for text in samples {
        let mut state = AppState::default();
        state.load_from_text(text);
        assert!(!state.modes.is_empty(), "No modes loaded");
    }
}
