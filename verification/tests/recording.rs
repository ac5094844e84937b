use swhkd_gui::keys::NativeKey;
use swhkd_gui::recorder::HeldModifiers;
use swhkd_gui::recorder::key_recorder;

fn held(control: bool, alt: bool, shift: bool, logo: bool) -> HeldModifiers {
    HeldModifiers { control, alt, shift, logo }
}

#[test]
fn modifiers_come_out_in_canonical_order() {
    // Held modifiers are a set: however Shift and Control were pressed, the
    // combination always reads control first.
    let combo = key_recorder(&NativeKey::KeyT, &held(true, false, true, false));
    assert_eq!(combo.as_deref(), Some("ctrl + shift + t"));
}

#[test]
fn all_modifiers_in_order() {
    let combo = key_recorder(&NativeKey::KeyX, &held(true, true, true, true));
    assert_eq!(combo.as_deref(), Some("ctrl + alt + shift + super + x"));
}

#[test]
fn bare_key_records_alone() {
    let combo = key_recorder(&NativeKey::Escape, &held(false, false, false, false));
    assert_eq!(combo.as_deref(), Some("escape"));
}

#[test]
fn modifier_only_press_is_suppressed() {
    assert!(key_recorder(&NativeKey::LControl, &held(true, false, false, false)).is_none());
    assert!(key_recorder(&NativeKey::RShift, &held(false, false, true, false)).is_none());
}

#[test]
fn unmapped_key_is_suppressed() {
    assert!(key_recorder(&NativeKey::Other(511), &held(true, false, false, false)).is_none());
}

#[test]
fn super_modifier_spelled_super() {
    let combo = key_recorder(&NativeKey::KeyG, &held(false, false, false, true));
    assert_eq!(combo.as_deref(), Some("super + g"));
}
