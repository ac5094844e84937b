use swhkd_gui::errors::ConfigError;
use swhkd_gui::keys::Modifier;
use swhkd_gui::keys::NativeKey;
use swhkd_gui::keys::is_modifier_key;
use swhkd_gui::keys::key_code_to_string;
use swhkd_gui::keys::key_to_string;
use swhkd_gui::keys::modifier_to_string;
use swhkd_gui::keys::string_to_evdev_key;
use swhkd_gui::keys::string_to_modifier;

#[test]
fn unknown_key_name_fails_cleanly() {
    match string_to_evdev_key("not_a_real_key") {
        Err(ConfigError::UnsupportedKey(name)) => assert_eq!(name, "not_a_real_key"),
        other => panic!("expected an unsupported-key error, got {:?}", other),
    }
}

#[test]
fn key_names_round_trip() {
    let keys = [
        NativeKey::KeyA,
        NativeKey::KeyZ,
        NativeKey::Key0,
        NativeKey::Key9,
        NativeKey::Escape,
        NativeKey::Enter,
        NativeKey::Space,
        NativeKey::BracketLeft,
        NativeKey::Apostrophe,
        NativeKey::Slash,
        NativeKey::F1,
        NativeKey::F12,
        NativeKey::PageUp,
        NativeKey::Backspace,
    ];
    for k in keys {
        let name = key_to_string(&k);
        assert_eq!(string_to_evdev_key(&name).unwrap(), k);
    }
}

#[test]
fn key_name_decode_is_case_insensitive() {
    assert_eq!(string_to_evdev_key("A").unwrap(), NativeKey::KeyA);
    assert_eq!(string_to_evdev_key("ESCAPE").unwrap(), NativeKey::Escape);
    assert_eq!(string_to_evdev_key("Page_Up").unwrap(), NativeKey::PageUp);
}

#[test]
fn key_name_exact_values() {
    assert_eq!(key_to_string(&NativeKey::KeyA), "a");
    assert_eq!(key_to_string(&NativeKey::Key1), "1");
    assert_eq!(key_to_string(&NativeKey::Escape), "escape");
    assert_eq!(key_to_string(&NativeKey::BracketLeft), "bracketleft");
    assert_eq!(key_to_string(&NativeKey::Dot), "dot");
    assert_eq!(key_to_string(&NativeKey::PageDown), "page_down");
}

#[test]
fn key_to_string_never_fails_and_falls_back() {
    assert_eq!(key_to_string(&NativeKey::Other(300)), "key_300");
    assert_eq!(key_to_string(&NativeKey::Other(0)), "key_0");
    assert_eq!(key_to_string(&NativeKey::LControl), "leftctrl");
    assert_eq!(key_to_string(&NativeKey::RSuper), "rightmeta");
}

#[test]
fn recorder_side_mapping_rejects_modifier_keys() {
    assert_eq!(key_code_to_string(&NativeKey::KeyT).as_deref(), Some("t"));
    assert_eq!(key_code_to_string(&NativeKey::F5).as_deref(), Some("f5"));
    assert!(key_code_to_string(&NativeKey::LShift).is_none());
    assert!(key_code_to_string(&NativeKey::Other(999)).is_none());
}

#[test]
fn modifier_key_detection() {
    assert!(is_modifier_key(&NativeKey::LControl));
    assert!(is_modifier_key(&NativeKey::RControl));
    assert!(is_modifier_key(&NativeKey::LAlt));
    assert!(is_modifier_key(&NativeKey::RShift));
    assert!(is_modifier_key(&NativeKey::LSuper));
    assert!(!is_modifier_key(&NativeKey::KeyA));
    assert!(!is_modifier_key(&NativeKey::Escape));
}

#[test]
fn modifier_names_round_trip() {
    for m in [Modifier::Control, Modifier::Alt, Modifier::Shift, Modifier::Super] {
        let name = modifier_to_string(&m);
        assert_eq!(string_to_modifier(&name), Some(m));
    }
    assert_eq!(modifier_to_string(&Modifier::Control), "ctrl");
    assert_eq!(string_to_modifier("control"), Some(Modifier::Control));
    assert_eq!(string_to_modifier("CONTROL"), Some(Modifier::Control));
    assert_eq!(string_to_modifier("Shift"), Some(Modifier::Shift));
    assert_eq!(string_to_modifier("hyper"), None);
}
