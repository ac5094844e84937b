//! The key and modifier codec: the library's native key identifiers and the
//! two-way mapping between them and the daemon's canonical lowercase names.
//!
//! The mapping table is the single source of truth: `key_name` drives the
//! encode direction, the decode direction, and the recorder alike, so the
//! two directions cannot drift apart.

use vstd::prelude::*;

use crate::errors::ConfigError;
use crate::text::dec_spec;
use crate::text::lower_seq;
use crate::text::str_eq;
use crate::text::to_lower;

verus! {

/// A modifier key of a binding.
#[derive(Clone, Copy, Debug, PartialEq, Eq, Structural)]
pub enum Modifier {
    Control,
    Alt,
    Shift,
    Super,
}

/// A physical key as the keyboard-input source identifies it.
/// `Other` carries the raw code of a key outside the table.
#[derive(Clone, Copy, Debug, PartialEq, Eq, Structural)]
pub enum NativeKey {
    KeyA,
    KeyB,
    KeyC,
    KeyD,
    KeyE,
    KeyF,
    KeyG,
    KeyH,
    KeyI,
    KeyJ,
    KeyK,
    KeyL,
    KeyM,
    KeyN,
    KeyO,
    KeyP,
    KeyQ,
    KeyR,
    KeyS,
    KeyT,
    KeyU,
    KeyV,
    KeyW,
    KeyX,
    KeyY,
    KeyZ,
    Key1,
    Key2,
    Key3,
    Key4,
    Key5,
    Key6,
    Key7,
    Key8,
    Key9,
    Key0,
    Escape,
    Enter,
    Tab,
    Space,
    Minus,
    Equal,
    Backslash,
    BracketLeft,
    BracketRight,
    Semicolon,
    Apostrophe,
    Comma,
    Dot,
    Slash,
    F1,
    F2,
    F3,
    F4,
    F5,
    F6,
    F7,
    F8,
    F9,
    F10,
    F11,
    F12,
    Insert,
    Delete,
    Home,
    End,
    PageUp,
    PageDown,
    Left,
    Right,
    Up,
    Down,
    Backspace,
    LControl,
    RControl,
    LAlt,
    RAlt,
    LShift,
    RShift,
    LSuper,
    RSuper,
    Other(u16),
}

/// The canonical lowercase name of each modifier.
pub open spec fn modifier_name(m: Modifier) -> Seq<char> {
    match m {
        Modifier::Control => seq!['c', 't', 'r', 'l'],
        Modifier::Alt => seq!['a', 'l', 't'],
        Modifier::Shift => seq!['s', 'h', 'i', 'f', 't'],
        Modifier::Super => seq!['s', 'u', 'p', 'e', 'r'],
    }
}

/// Whether a lowercased name denotes the modifier: `Control` also has the
/// alias `control`.
pub open spec fn modifier_accepts(m: Modifier, t: Seq<char>) -> bool {
    match m {
        Modifier::Control => t == modifier_name(m) || t == seq!['c', 'o', 'n', 't', 'r', 'o', 'l'],
        _ => t == modifier_name(m),
    }
}

/// Whether the key is one of the physical modifier keys, which the recorder
/// suppresses.
pub open spec fn is_modifier_key_spec(k: NativeKey) -> bool {
    matches!(k, NativeKey::LControl | NativeKey::RControl | NativeKey::LAlt | NativeKey::RAlt | NativeKey::LShift | NativeKey::RShift | NativeKey::LSuper | NativeKey::RSuper)
}

/// Whether the key has a canonical name in the daemon's vocabulary.
pub open spec fn key_supported(k: NativeKey) -> bool {
    !is_modifier_key_spec(k) && !(k is Other)
}

/// The name the encode direction gives each key: the canonical name for a
/// supported key, and a lossy fallback, never parsed back, for the rest.
pub open spec fn key_name(k: NativeKey) -> Seq<char> {
    match k {
        NativeKey::KeyA => seq!['a'],
        NativeKey::KeyB => seq!['b'],
        NativeKey::KeyC => seq!['c'],
        NativeKey::KeyD => seq!['d'],
        NativeKey::KeyE => seq!['e'],
        NativeKey::KeyF => seq!['f'],
        NativeKey::KeyG => seq!['g'],
        NativeKey::KeyH => seq!['h'],
        NativeKey::KeyI => seq!['i'],
        NativeKey::KeyJ => seq!['j'],
        NativeKey::KeyK => seq!['k'],
        NativeKey::KeyL => seq!['l'],
        NativeKey::KeyM => seq!['m'],
        NativeKey::KeyN => seq!['n'],
        NativeKey::KeyO => seq!['o'],
        NativeKey::KeyP => seq!['p'],
        NativeKey::KeyQ => seq!['q'],
        NativeKey::KeyR => seq!['r'],
        NativeKey::KeyS => seq!['s'],
        NativeKey::KeyT => seq!['t'],
        NativeKey::KeyU => seq!['u'],
        NativeKey::KeyV => seq!['v'],
        NativeKey::KeyW => seq!['w'],
        NativeKey::KeyX => seq!['x'],
        NativeKey::KeyY => seq!['y'],
        NativeKey::KeyZ => seq!['z'],
        NativeKey::Key1 => seq!['1'],
        NativeKey::Key2 => seq!['2'],
        NativeKey::Key3 => seq!['3'],
        NativeKey::Key4 => seq!['4'],
        NativeKey::Key5 => seq!['5'],
        NativeKey::Key6 => seq!['6'],
        NativeKey::Key7 => seq!['7'],
        NativeKey::Key8 => seq!['8'],
        NativeKey::Key9 => seq!['9'],
        NativeKey::Key0 => seq!['0'],
        NativeKey::Escape => seq!['e', 's', 'c', 'a', 'p', 'e'],
        NativeKey::Enter => seq!['e', 'n', 't', 'e', 'r'],
        NativeKey::Tab => seq!['t', 'a', 'b'],
        NativeKey::Space => seq!['s', 'p', 'a', 'c', 'e'],
        NativeKey::Minus => seq!['m', 'i', 'n', 'u', 's'],
        NativeKey::Equal => seq!['e', 'q', 'u', 'a', 'l'],
        NativeKey::Backslash => seq!['b', 'a', 'c', 'k', 's', 'l', 'a', 's', 'h'],
        NativeKey::BracketLeft => seq!['b', 'r', 'a', 'c', 'k', 'e', 't', 'l', 'e', 'f', 't'],
        NativeKey::BracketRight => seq!['b', 'r', 'a', 'c', 'k', 'e', 't', 'r', 'i', 'g', 'h', 't'],
        NativeKey::Semicolon => seq!['s', 'e', 'm', 'i', 'c', 'o', 'l', 'o', 'n'],
        NativeKey::Apostrophe => seq!['a', 'p', 'o', 's', 't', 'r', 'o', 'p', 'h', 'e'],
        NativeKey::Comma => seq!['c', 'o', 'm', 'm', 'a'],
        NativeKey::Dot => seq!['d', 'o', 't'],
        NativeKey::Slash => seq!['s', 'l', 'a', 's', 'h'],
        NativeKey::F1 => seq!['f', '1'],
        NativeKey::F2 => seq!['f', '2'],
        NativeKey::F3 => seq!['f', '3'],
        NativeKey::F4 => seq!['f', '4'],
        NativeKey::F5 => seq!['f', '5'],
        NativeKey::F6 => seq!['f', '6'],
        NativeKey::F7 => seq!['f', '7'],
        NativeKey::F8 => seq!['f', '8'],
        NativeKey::F9 => seq!['f', '9'],
        NativeKey::F10 => seq!['f', '1', '0'],
        NativeKey::F11 => seq!['f', '1', '1'],
        NativeKey::F12 => seq!['f', '1', '2'],
        NativeKey::Insert => seq!['i', 'n', 's', 'e', 'r', 't'],
        NativeKey::Delete => seq!['d', 'e', 'l', 'e', 't', 'e'],
        NativeKey::Home => seq!['h', 'o', 'm', 'e'],
        NativeKey::End => seq!['e', 'n', 'd'],
        NativeKey::PageUp => seq!['p', 'a', 'g', 'e', '_', 'u', 'p'],
        NativeKey::PageDown => seq!['p', 'a', 'g', 'e', '_', 'd', 'o', 'w', 'n'],
        NativeKey::Left => seq!['l', 'e', 'f', 't'],
        NativeKey::Right => seq!['r', 'i', 'g', 'h', 't'],
        NativeKey::Up => seq!['u', 'p'],
        NativeKey::Down => seq!['d', 'o', 'w', 'n'],
        NativeKey::Backspace => seq!['b', 'a', 'c', 'k', 's', 'p', 'a', 'c', 'e'],
        NativeKey::LControl => seq!['l', 'e', 'f', 't', 'c', 't', 'r', 'l'],
        NativeKey::RControl => seq!['r', 'i', 'g', 'h', 't', 'c', 't', 'r', 'l'],
        NativeKey::LAlt => seq!['l', 'e', 'f', 't', 'a', 'l', 't'],
        NativeKey::RAlt => seq!['r', 'i', 'g', 'h', 't', 'a', 'l', 't'],
        NativeKey::LShift => seq!['l', 'e', 'f', 't', 's', 'h', 'i', 'f', 't'],
        NativeKey::RShift => seq!['r', 'i', 'g', 'h', 't', 's', 'h', 'i', 'f', 't'],
        NativeKey::LSuper => seq!['l', 'e', 'f', 't', 'm', 'e', 't', 'a'],
        NativeKey::RSuper => seq!['r', 'i', 'g', 'h', 't', 'm', 'e', 't', 'a'],
        NativeKey::Other(code) => seq!['k', 'e', 'y', '_'] + dec_spec(code as nat),
    }
}

/// The canonical modifier name as a string.
pub fn modifier_to_string(m: &Modifier) -> (r: String)
    ensures
        r@ == modifier_name(*m),
{
    match m {
        Modifier::Control => {
            proof {
                reveal_strlit("ctrl");
                assert("ctrl"@ =~= modifier_name(Modifier::Control));
            }
            String::from_str("ctrl")
        },
        Modifier::Alt => {
            proof {
                reveal_strlit("alt");
                assert("alt"@ =~= modifier_name(Modifier::Alt));
            }
            String::from_str("alt")
        },
        Modifier::Shift => {
            proof {
                reveal_strlit("shift");
                assert("shift"@ =~= modifier_name(Modifier::Shift));
            }
            String::from_str("shift")
        },
        Modifier::Super => {
            proof {
                reveal_strlit("super");
                assert("super"@ =~= modifier_name(Modifier::Super));
            }
            String::from_str("super")
        },
    }
}

/// The modifier a name denotes, case-insensitively, or `None`.
pub fn string_to_modifier(s: &str) -> (r: Option<Modifier>)
    ensures
        match r {
            Some(m) => modifier_accepts(m, lower_seq(s@)),
            None => forall|m: Modifier| !modifier_accepts(m, lower_seq(s@)),
        },
{
    let low = to_lower(s);
    proof {
        reveal_strlit("ctrl");
        reveal_strlit("control");
        reveal_strlit("alt");
        reveal_strlit("shift");
        reveal_strlit("super");
        assert("ctrl"@ =~= seq!['c', 't', 'r', 'l']);
        assert("control"@ =~= seq!['c', 'o', 'n', 't', 'r', 'o', 'l']);
        assert("alt"@ =~= seq!['a', 'l', 't']);
        assert("shift"@ =~= seq!['s', 'h', 'i', 'f', 't']);
        assert("super"@ =~= seq!['s', 'u', 'p', 'e', 'r']);
    }
    if str_eq(low.as_str(), "ctrl") || str_eq(low.as_str(), "control") {
        Some(Modifier::Control)
    } else if str_eq(low.as_str(), "alt") {
        Some(Modifier::Alt)
    } else if str_eq(low.as_str(), "shift") {
        Some(Modifier::Shift)
    } else if str_eq(low.as_str(), "super") {
        Some(Modifier::Super)
    } else {
        None
    }
}

/// The name of a key on the encode side; total, as encoding must never fail.
pub fn key_to_string(key: &NativeKey) -> (r: String)
    ensures
        r@ == key_name(*key),
{
    match key {
        NativeKey::KeyA => {
            proof {
                reveal_strlit("a");
                assert("a"@ =~= key_name(NativeKey::KeyA));
            }
            String::from_str("a")
        },
        NativeKey::KeyB => {
            proof {
                reveal_strlit("b");
                assert("b"@ =~= key_name(NativeKey::KeyB));
            }
            String::from_str("b")
        },
        NativeKey::KeyC => {
            proof {
                reveal_strlit("c");
                assert("c"@ =~= key_name(NativeKey::KeyC));
            }
            String::from_str("c")
        },
        NativeKey::KeyD => {
            proof {
                reveal_strlit("d");
                assert("d"@ =~= key_name(NativeKey::KeyD));
            }
            String::from_str("d")
        },
        NativeKey::KeyE => {
            proof {
                reveal_strlit("e");
                assert("e"@ =~= key_name(NativeKey::KeyE));
            }
            String::from_str("e")
        },
        NativeKey::KeyF => {
            proof {
                reveal_strlit("f");
                assert("f"@ =~= key_name(NativeKey::KeyF));
            }
            String::from_str("f")
        },
        NativeKey::KeyG => {
            proof {
                reveal_strlit("g");
                assert("g"@ =~= key_name(NativeKey::KeyG));
            }
            String::from_str("g")
        },
        NativeKey::KeyH => {
            proof {
                reveal_strlit("h");
                assert("h"@ =~= key_name(NativeKey::KeyH));
            }
            String::from_str("h")
        },
        NativeKey::KeyI => {
            proof {
                reveal_strlit("i");
                assert("i"@ =~= key_name(NativeKey::KeyI));
            }
            String::from_str("i")
        },
        NativeKey::KeyJ => {
            proof {
                reveal_strlit("j");
                assert("j"@ =~= key_name(NativeKey::KeyJ));
            }
            String::from_str("j")
        },
        NativeKey::KeyK => {
            proof {
                reveal_strlit("k");
                assert("k"@ =~= key_name(NativeKey::KeyK));
            }
            String::from_str("k")
        },
        NativeKey::KeyL => {
            proof {
                reveal_strlit("l");
                assert("l"@ =~= key_name(NativeKey::KeyL));
            }
            String::from_str("l")
        },
        NativeKey::KeyM => {
            proof {
                reveal_strlit("m");
                assert("m"@ =~= key_name(NativeKey::KeyM));
            }
            String::from_str("m")
        },
        NativeKey::KeyN => {
            proof {
                reveal_strlit("n");
                assert("n"@ =~= key_name(NativeKey::KeyN));
            }
            String::from_str("n")
        },
        NativeKey::KeyO => {
            proof {
                reveal_strlit("o");
                assert("o"@ =~= key_name(NativeKey::KeyO));
            }
            String::from_str("o")
        },
        NativeKey::KeyP => {
            proof {
                reveal_strlit("p");
                assert("p"@ =~= key_name(NativeKey::KeyP));
            }
            String::from_str("p")
        },
        NativeKey::KeyQ => {
            proof {
                reveal_strlit("q");
                assert("q"@ =~= key_name(NativeKey::KeyQ));
            }
            String::from_str("q")
        },
        NativeKey::KeyR => {
            proof {
                reveal_strlit("r");
                assert("r"@ =~= key_name(NativeKey::KeyR));
            }
            String::from_str("r")
        },
        NativeKey::KeyS => {
            proof {
                reveal_strlit("s");
                assert("s"@ =~= key_name(NativeKey::KeyS));
            }
            String::from_str("s")
        },
        NativeKey::KeyT => {
            proof {
                reveal_strlit("t");
                assert("t"@ =~= key_name(NativeKey::KeyT));
            }
            String::from_str("t")
        },
        NativeKey::KeyU => {
            proof {
                reveal_strlit("u");
                assert("u"@ =~= key_name(NativeKey::KeyU));
            }
            String::from_str("u")
        },
        NativeKey::KeyV => {
            proof {
                reveal_strlit("v");
                assert("v"@ =~= key_name(NativeKey::KeyV));
            }
            String::from_str("v")
        },
        NativeKey::KeyW => {
            proof {
                reveal_strlit("w");
                assert("w"@ =~= key_name(NativeKey::KeyW));
            }
            String::from_str("w")
        },
        NativeKey::KeyX => {
            proof {
                reveal_strlit("x");
                assert("x"@ =~= key_name(NativeKey::KeyX));
            }
            String::from_str("x")
        },
        NativeKey::KeyY => {
            proof {
                reveal_strlit("y");
                assert("y"@ =~= key_name(NativeKey::KeyY));
            }
            String::from_str("y")
        },
        NativeKey::KeyZ => {
            proof {
                reveal_strlit("z");
                assert("z"@ =~= key_name(NativeKey::KeyZ));
            }
            String::from_str("z")
        },
        NativeKey::Key1 => {
            proof {
                reveal_strlit("1");
                assert("1"@ =~= key_name(NativeKey::Key1));
            }
            String::from_str("1")
        },
        NativeKey::Key2 => {
            proof {
                reveal_strlit("2");
                assert("2"@ =~= key_name(NativeKey::Key2));
            }
            String::from_str("2")
        },
        NativeKey::Key3 => {
            proof {
                reveal_strlit("3");
                assert("3"@ =~= key_name(NativeKey::Key3));
            }
            String::from_str("3")
        },
        NativeKey::Key4 => {
            proof {
                reveal_strlit("4");
                assert("4"@ =~= key_name(NativeKey::Key4));
            }
            String::from_str("4")
        },
        NativeKey::Key5 => {
            proof {
                reveal_strlit("5");
                assert("5"@ =~= key_name(NativeKey::Key5));
            }
            String::from_str("5")
        },
        NativeKey::Key6 => {
            proof {
                reveal_strlit("6");
                assert("6"@ =~= key_name(NativeKey::Key6));
            }
            String::from_str("6")
        },
        NativeKey::Key7 => {
            proof {
                reveal_strlit("7");
                assert("7"@ =~= key_name(NativeKey::Key7));
            }
            String::from_str("7")
        },
        NativeKey::Key8 => {
            proof {
                reveal_strlit("8");
                assert("8"@ =~= key_name(NativeKey::Key8));
            }
            String::from_str("8")
        },
        NativeKey::Key9 => {
            proof {
                reveal_strlit("9");
                assert("9"@ =~= key_name(NativeKey::Key9));
            }
            String::from_str("9")
        },
        NativeKey::Key0 => {
            proof {
                reveal_strlit("0");
                assert("0"@ =~= key_name(NativeKey::Key0));
            }
            String::from_str("0")
        },
        NativeKey::Escape => {
            proof {
                reveal_strlit("escape");
                assert("escape"@ =~= key_name(NativeKey::Escape));
            }
            String::from_str("escape")
        },
        NativeKey::Enter => {
            proof {
                reveal_strlit("enter");
                assert("enter"@ =~= key_name(NativeKey::Enter));
            }
            String::from_str("enter")
        },
        NativeKey::Tab => {
            proof {
                reveal_strlit("tab");
                assert("tab"@ =~= key_name(NativeKey::Tab));
            }
            String::from_str("tab")
        },
        NativeKey::Space => {
            proof {
                reveal_strlit("space");
                assert("space"@ =~= key_name(NativeKey::Space));
            }
            String::from_str("space")
        },
        NativeKey::Minus => {
            proof {
                reveal_strlit("minus");
                assert("minus"@ =~= key_name(NativeKey::Minus));
            }
            String::from_str("minus")
        },
        NativeKey::Equal => {
            proof {
                reveal_strlit("equal");
                assert("equal"@ =~= key_name(NativeKey::Equal));
            }
            String::from_str("equal")
        },
        NativeKey::Backslash => {
            proof {
                reveal_strlit("backslash");
                assert("backslash"@ =~= key_name(NativeKey::Backslash));
            }
            String::from_str("backslash")
        },
        NativeKey::BracketLeft => {
            proof {
                reveal_strlit("bracketleft");
                assert("bracketleft"@ =~= key_name(NativeKey::BracketLeft));
            }
            String::from_str("bracketleft")
        },
        NativeKey::BracketRight => {
            proof {
                reveal_strlit("bracketright");
                assert("bracketright"@ =~= key_name(NativeKey::BracketRight));
            }
            String::from_str("bracketright")
        },
        NativeKey::Semicolon => {
            proof {
                reveal_strlit("semicolon");
                assert("semicolon"@ =~= key_name(NativeKey::Semicolon));
            }
            String::from_str("semicolon")
        },
        NativeKey::Apostrophe => {
            proof {
                reveal_strlit("apostrophe");
                assert("apostrophe"@ =~= key_name(NativeKey::Apostrophe));
            }
            String::from_str("apostrophe")
        },
        NativeKey::Comma => {
            proof {
                reveal_strlit("comma");
                assert("comma"@ =~= key_name(NativeKey::Comma));
            }
            String::from_str("comma")
        },
        NativeKey::Dot => {
            proof {
                reveal_strlit("dot");
                assert("dot"@ =~= key_name(NativeKey::Dot));
            }
            String::from_str("dot")
        },
        NativeKey::Slash => {
            proof {
                reveal_strlit("slash");
                assert("slash"@ =~= key_name(NativeKey::Slash));
            }
            String::from_str("slash")
        },
        NativeKey::F1 => {
            proof {
                reveal_strlit("f1");
                assert("f1"@ =~= key_name(NativeKey::F1));
            }
            String::from_str("f1")
        },
        NativeKey::F2 => {
            proof {
                reveal_strlit("f2");
                assert("f2"@ =~= key_name(NativeKey::F2));
            }
            String::from_str("f2")
        },
        NativeKey::F3 => {
            proof {
                reveal_strlit("f3");
                assert("f3"@ =~= key_name(NativeKey::F3));
            }
            String::from_str("f3")
        },
        NativeKey::F4 => {
            proof {
                reveal_strlit("f4");
                assert("f4"@ =~= key_name(NativeKey::F4));
            }
            String::from_str("f4")
        },
        NativeKey::F5 => {
            proof {
                reveal_strlit("f5");
                assert("f5"@ =~= key_name(NativeKey::F5));
            }
            String::from_str("f5")
        },
        NativeKey::F6 => {
            proof {
                reveal_strlit("f6");
                assert("f6"@ =~= key_name(NativeKey::F6));
            }
            String::from_str("f6")
        },
        NativeKey::F7 => {
            proof {
                reveal_strlit("f7");
                assert("f7"@ =~= key_name(NativeKey::F7));
            }
            String::from_str("f7")
        },
        NativeKey::F8 => {
            proof {
                reveal_strlit("f8");
                assert("f8"@ =~= key_name(NativeKey::F8));
            }
            String::from_str("f8")
        },
        NativeKey::F9 => {
            proof {
                reveal_strlit("f9");
                assert("f9"@ =~= key_name(NativeKey::F9));
            }
            String::from_str("f9")
        },
        NativeKey::F10 => {
            proof {
                reveal_strlit("f10");
                assert("f10"@ =~= key_name(NativeKey::F10));
            }
            String::from_str("f10")
        },
        NativeKey::F11 => {
            proof {
                reveal_strlit("f11");
                assert("f11"@ =~= key_name(NativeKey::F11));
            }
            String::from_str("f11")
        },
        NativeKey::F12 => {
            proof {
                reveal_strlit("f12");
                assert("f12"@ =~= key_name(NativeKey::F12));
            }
            String::from_str("f12")
        },
        NativeKey::Insert => {
            proof {
                reveal_strlit("insert");
                assert("insert"@ =~= key_name(NativeKey::Insert));
            }
            String::from_str("insert")
        },
        NativeKey::Delete => {
            proof {
                reveal_strlit("delete");
                assert("delete"@ =~= key_name(NativeKey::Delete));
            }
            String::from_str("delete")
        },
        NativeKey::Home => {
            proof {
                reveal_strlit("home");
                assert("home"@ =~= key_name(NativeKey::Home));
            }
            String::from_str("home")
        },
        NativeKey::End => {
            proof {
                reveal_strlit("end");
                assert("end"@ =~= key_name(NativeKey::End));
            }
            String::from_str("end")
        },
        NativeKey::PageUp => {
            proof {
                reveal_strlit("page_up");
                assert("page_up"@ =~= key_name(NativeKey::PageUp));
            }
            String::from_str("page_up")
        },
        NativeKey::PageDown => {
            proof {
                reveal_strlit("page_down");
                assert("page_down"@ =~= key_name(NativeKey::PageDown));
            }
            String::from_str("page_down")
        },
        NativeKey::Left => {
            proof {
                reveal_strlit("left");
                assert("left"@ =~= key_name(NativeKey::Left));
            }
            String::from_str("left")
        },
        NativeKey::Right => {
            proof {
                reveal_strlit("right");
                assert("right"@ =~= key_name(NativeKey::Right));
            }
            String::from_str("right")
        },
        NativeKey::Up => {
            proof {
                reveal_strlit("up");
                assert("up"@ =~= key_name(NativeKey::Up));
            }
            String::from_str("up")
        },
        NativeKey::Down => {
            proof {
                reveal_strlit("down");
                assert("down"@ =~= key_name(NativeKey::Down));
            }
            String::from_str("down")
        },
        NativeKey::Backspace => {
            proof {
                reveal_strlit("backspace");
                assert("backspace"@ =~= key_name(NativeKey::Backspace));
            }
            String::from_str("backspace")
        },
        NativeKey::LControl => {
            proof {
                reveal_strlit("leftctrl");
                assert("leftctrl"@ =~= key_name(NativeKey::LControl));
            }
            String::from_str("leftctrl")
        },
        NativeKey::RControl => {
            proof {
                reveal_strlit("rightctrl");
                assert("rightctrl"@ =~= key_name(NativeKey::RControl));
            }
            String::from_str("rightctrl")
        },
        NativeKey::LAlt => {
            proof {
                reveal_strlit("leftalt");
                assert("leftalt"@ =~= key_name(NativeKey::LAlt));
            }
            String::from_str("leftalt")
        },
        NativeKey::RAlt => {
            proof {
                reveal_strlit("rightalt");
                assert("rightalt"@ =~= key_name(NativeKey::RAlt));
            }
            String::from_str("rightalt")
        },
        NativeKey::LShift => {
            proof {
                reveal_strlit("leftshift");
                assert("leftshift"@ =~= key_name(NativeKey::LShift));
            }
            String::from_str("leftshift")
        },
        NativeKey::RShift => {
            proof {
                reveal_strlit("rightshift");
                assert("rightshift"@ =~= key_name(NativeKey::RShift));
            }
            String::from_str("rightshift")
        },
        NativeKey::LSuper => {
            proof {
                reveal_strlit("leftmeta");
                assert("leftmeta"@ =~= key_name(NativeKey::LSuper));
            }
            String::from_str("leftmeta")
        },
        NativeKey::RSuper => {
            proof {
                reveal_strlit("rightmeta");
                assert("rightmeta"@ =~= key_name(NativeKey::RSuper));
            }
            String::from_str("rightmeta")
        },
        NativeKey::Other(code) => {
            proof {
                reveal_strlit("key_");
                assert("key_"@ =~= seq!['k', 'e', 'y', '_']);
            }
            let mut r = String::from_str("key_");
            crate::text::push_dec(*code as u64, &mut r);
            r
        },
    }
}

/// The key a canonical name denotes, case-insensitively; names outside the
/// table fail with `UnsupportedKey`, never defaulting silently.
pub fn string_to_evdev_key(s: &str) -> (r: Result<NativeKey, ConfigError>)
    ensures
        match r {
            Ok(k) => key_supported(k) && key_name(k) == lower_seq(s@),
            Err(e) => (e matches ConfigError::UnsupportedKey(t) && t@ == s@)
                && forall|k: NativeKey| key_supported(k) ==> key_name(k) != lower_seq(s@),
        },
{
    let low = to_lower(s);
    proof {
        reveal_strlit("a");
        reveal_strlit("b");
        reveal_strlit("c");
        reveal_strlit("d");
        reveal_strlit("e");
        reveal_strlit("f");
        reveal_strlit("g");
        reveal_strlit("h");
        reveal_strlit("i");
        reveal_strlit("j");
        reveal_strlit("k");
        reveal_strlit("l");
        reveal_strlit("m");
        reveal_strlit("n");
        reveal_strlit("o");
        reveal_strlit("p");
        reveal_strlit("q");
        reveal_strlit("r");
        reveal_strlit("s");
        reveal_strlit("t");
        reveal_strlit("u");
        reveal_strlit("v");
        reveal_strlit("w");
        reveal_strlit("x");
        reveal_strlit("y");
        reveal_strlit("z");
        reveal_strlit("1");
        reveal_strlit("2");
        reveal_strlit("3");
        reveal_strlit("4");
        reveal_strlit("5");
        reveal_strlit("6");
        reveal_strlit("7");
        reveal_strlit("8");
        reveal_strlit("9");
        reveal_strlit("0");
        reveal_strlit("escape");
        reveal_strlit("enter");
        reveal_strlit("tab");
        reveal_strlit("space");
        reveal_strlit("minus");
        reveal_strlit("equal");
        reveal_strlit("backslash");
        reveal_strlit("bracketleft");
        reveal_strlit("bracketright");
        reveal_strlit("semicolon");
        reveal_strlit("apostrophe");
        reveal_strlit("comma");
        reveal_strlit("dot");
        reveal_strlit("slash");
        reveal_strlit("f1");
        reveal_strlit("f2");
        reveal_strlit("f3");
        reveal_strlit("f4");
        reveal_strlit("f5");
        reveal_strlit("f6");
        reveal_strlit("f7");
        reveal_strlit("f8");
        reveal_strlit("f9");
        reveal_strlit("f10");
        reveal_strlit("f11");
        reveal_strlit("f12");
        reveal_strlit("insert");
        reveal_strlit("delete");
        reveal_strlit("home");
        reveal_strlit("end");
        reveal_strlit("page_up");
        reveal_strlit("page_down");
        reveal_strlit("left");
        reveal_strlit("right");
        reveal_strlit("up");
        reveal_strlit("down");
        reveal_strlit("backspace");
        assert("a"@ =~= key_name(NativeKey::KeyA));
        assert("b"@ =~= key_name(NativeKey::KeyB));
        assert("c"@ =~= key_name(NativeKey::KeyC));
        assert("d"@ =~= key_name(NativeKey::KeyD));
        assert("e"@ =~= key_name(NativeKey::KeyE));
        assert("f"@ =~= key_name(NativeKey::KeyF));
        assert("g"@ =~= key_name(NativeKey::KeyG));
        assert("h"@ =~= key_name(NativeKey::KeyH));
        assert("i"@ =~= key_name(NativeKey::KeyI));
        assert("j"@ =~= key_name(NativeKey::KeyJ));
        assert("k"@ =~= key_name(NativeKey::KeyK));
        assert("l"@ =~= key_name(NativeKey::KeyL));
        assert("m"@ =~= key_name(NativeKey::KeyM));
        assert("n"@ =~= key_name(NativeKey::KeyN));
        assert("o"@ =~= key_name(NativeKey::KeyO));
        assert("p"@ =~= key_name(NativeKey::KeyP));
        assert("q"@ =~= key_name(NativeKey::KeyQ));
        assert("r"@ =~= key_name(NativeKey::KeyR));
        assert("s"@ =~= key_name(NativeKey::KeyS));
        assert("t"@ =~= key_name(NativeKey::KeyT));
        assert("u"@ =~= key_name(NativeKey::KeyU));
        assert("v"@ =~= key_name(NativeKey::KeyV));
        assert("w"@ =~= key_name(NativeKey::KeyW));
        assert("x"@ =~= key_name(NativeKey::KeyX));
        assert("y"@ =~= key_name(NativeKey::KeyY));
        assert("z"@ =~= key_name(NativeKey::KeyZ));
        assert("1"@ =~= key_name(NativeKey::Key1));
        assert("2"@ =~= key_name(NativeKey::Key2));
        assert("3"@ =~= key_name(NativeKey::Key3));
        assert("4"@ =~= key_name(NativeKey::Key4));
        assert("5"@ =~= key_name(NativeKey::Key5));
        assert("6"@ =~= key_name(NativeKey::Key6));
        assert("7"@ =~= key_name(NativeKey::Key7));
        assert("8"@ =~= key_name(NativeKey::Key8));
        assert("9"@ =~= key_name(NativeKey::Key9));
        assert("0"@ =~= key_name(NativeKey::Key0));
        assert("escape"@ =~= key_name(NativeKey::Escape));
        assert("enter"@ =~= key_name(NativeKey::Enter));
        assert("tab"@ =~= key_name(NativeKey::Tab));
        assert("space"@ =~= key_name(NativeKey::Space));
        assert("minus"@ =~= key_name(NativeKey::Minus));
        assert("equal"@ =~= key_name(NativeKey::Equal));
        assert("backslash"@ =~= key_name(NativeKey::Backslash));
        assert("bracketleft"@ =~= key_name(NativeKey::BracketLeft));
        assert("bracketright"@ =~= key_name(NativeKey::BracketRight));
        assert("semicolon"@ =~= key_name(NativeKey::Semicolon));
        assert("apostrophe"@ =~= key_name(NativeKey::Apostrophe));
        assert("comma"@ =~= key_name(NativeKey::Comma));
        assert("dot"@ =~= key_name(NativeKey::Dot));
        assert("slash"@ =~= key_name(NativeKey::Slash));
        assert("f1"@ =~= key_name(NativeKey::F1));
        assert("f2"@ =~= key_name(NativeKey::F2));
        assert("f3"@ =~= key_name(NativeKey::F3));
        assert("f4"@ =~= key_name(NativeKey::F4));
        assert("f5"@ =~= key_name(NativeKey::F5));
        assert("f6"@ =~= key_name(NativeKey::F6));
        assert("f7"@ =~= key_name(NativeKey::F7));
        assert("f8"@ =~= key_name(NativeKey::F8));
        assert("f9"@ =~= key_name(NativeKey::F9));
        assert("f10"@ =~= key_name(NativeKey::F10));
        assert("f11"@ =~= key_name(NativeKey::F11));
        assert("f12"@ =~= key_name(NativeKey::F12));
        assert("insert"@ =~= key_name(NativeKey::Insert));
        assert("delete"@ =~= key_name(NativeKey::Delete));
        assert("home"@ =~= key_name(NativeKey::Home));
        assert("end"@ =~= key_name(NativeKey::End));
        assert("page_up"@ =~= key_name(NativeKey::PageUp));
        assert("page_down"@ =~= key_name(NativeKey::PageDown));
        assert("left"@ =~= key_name(NativeKey::Left));
        assert("right"@ =~= key_name(NativeKey::Right));
        assert("up"@ =~= key_name(NativeKey::Up));
        assert("down"@ =~= key_name(NativeKey::Down));
        assert("backspace"@ =~= key_name(NativeKey::Backspace));
    }
    if str_eq(low.as_str(), "a") {
        Ok(NativeKey::KeyA)
    } else if str_eq(low.as_str(), "b") {
        Ok(NativeKey::KeyB)
    } else if str_eq(low.as_str(), "c") {
        Ok(NativeKey::KeyC)
    } else if str_eq(low.as_str(), "d") {
        Ok(NativeKey::KeyD)
    } else if str_eq(low.as_str(), "e") {
        Ok(NativeKey::KeyE)
    } else if str_eq(low.as_str(), "f") {
        Ok(NativeKey::KeyF)
    } else if str_eq(low.as_str(), "g") {
        Ok(NativeKey::KeyG)
    } else if str_eq(low.as_str(), "h") {
        Ok(NativeKey::KeyH)
    } else if str_eq(low.as_str(), "i") {
        Ok(NativeKey::KeyI)
    } else if str_eq(low.as_str(), "j") {
        Ok(NativeKey::KeyJ)
    } else if str_eq(low.as_str(), "k") {
        Ok(NativeKey::KeyK)
    } else if str_eq(low.as_str(), "l") {
        Ok(NativeKey::KeyL)
    } else if str_eq(low.as_str(), "m") {
        Ok(NativeKey::KeyM)
    } else if str_eq(low.as_str(), "n") {
        Ok(NativeKey::KeyN)
    } else if str_eq(low.as_str(), "o") {
        Ok(NativeKey::KeyO)
    } else if str_eq(low.as_str(), "p") {
        Ok(NativeKey::KeyP)
    } else if str_eq(low.as_str(), "q") {
        Ok(NativeKey::KeyQ)
    } else if str_eq(low.as_str(), "r") {
        Ok(NativeKey::KeyR)
    } else if str_eq(low.as_str(), "s") {
        Ok(NativeKey::KeyS)
    } else if str_eq(low.as_str(), "t") {
        Ok(NativeKey::KeyT)
    } else if str_eq(low.as_str(), "u") {
        Ok(NativeKey::KeyU)
    } else if str_eq(low.as_str(), "v") {
        Ok(NativeKey::KeyV)
    } else if str_eq(low.as_str(), "w") {
        Ok(NativeKey::KeyW)
    } else if str_eq(low.as_str(), "x") {
        Ok(NativeKey::KeyX)
    } else if str_eq(low.as_str(), "y") {
        Ok(NativeKey::KeyY)
    } else if str_eq(low.as_str(), "z") {
        Ok(NativeKey::KeyZ)
    } else if str_eq(low.as_str(), "1") {
        Ok(NativeKey::Key1)
    } else if str_eq(low.as_str(), "2") {
        Ok(NativeKey::Key2)
    } else if str_eq(low.as_str(), "3") {
        Ok(NativeKey::Key3)
    } else if str_eq(low.as_str(), "4") {
        Ok(NativeKey::Key4)
    } else if str_eq(low.as_str(), "5") {
        Ok(NativeKey::Key5)
    } else if str_eq(low.as_str(), "6") {
        Ok(NativeKey::Key6)
    } else if str_eq(low.as_str(), "7") {
        Ok(NativeKey::Key7)
    } else if str_eq(low.as_str(), "8") {
        Ok(NativeKey::Key8)
    } else if str_eq(low.as_str(), "9") {
        Ok(NativeKey::Key9)
    } else if str_eq(low.as_str(), "0") {
        Ok(NativeKey::Key0)
    } else if str_eq(low.as_str(), "escape") {
        Ok(NativeKey::Escape)
    } else if str_eq(low.as_str(), "enter") {
        Ok(NativeKey::Enter)
    } else if str_eq(low.as_str(), "tab") {
        Ok(NativeKey::Tab)
    } else if str_eq(low.as_str(), "space") {
        Ok(NativeKey::Space)
    } else if str_eq(low.as_str(), "minus") {
        Ok(NativeKey::Minus)
    } else if str_eq(low.as_str(), "equal") {
        Ok(NativeKey::Equal)
    } else if str_eq(low.as_str(), "backslash") {
        Ok(NativeKey::Backslash)
    } else if str_eq(low.as_str(), "bracketleft") {
        Ok(NativeKey::BracketLeft)
    } else if str_eq(low.as_str(), "bracketright") {
        Ok(NativeKey::BracketRight)
    } else if str_eq(low.as_str(), "semicolon") {
        Ok(NativeKey::Semicolon)
    } else if str_eq(low.as_str(), "apostrophe") {
        Ok(NativeKey::Apostrophe)
    } else if str_eq(low.as_str(), "comma") {
        Ok(NativeKey::Comma)
    } else if str_eq(low.as_str(), "dot") {
        Ok(NativeKey::Dot)
    } else if str_eq(low.as_str(), "slash") {
        Ok(NativeKey::Slash)
    } else if str_eq(low.as_str(), "f1") {
        Ok(NativeKey::F1)
    } else if str_eq(low.as_str(), "f2") {
        Ok(NativeKey::F2)
    } else if str_eq(low.as_str(), "f3") {
        Ok(NativeKey::F3)
    } else if str_eq(low.as_str(), "f4") {
        Ok(NativeKey::F4)
    } else if str_eq(low.as_str(), "f5") {
        Ok(NativeKey::F5)
    } else if str_eq(low.as_str(), "f6") {
        Ok(NativeKey::F6)
    } else if str_eq(low.as_str(), "f7") {
        Ok(NativeKey::F7)
    } else if str_eq(low.as_str(), "f8") {
        Ok(NativeKey::F8)
    } else if str_eq(low.as_str(), "f9") {
        Ok(NativeKey::F9)
    } else if str_eq(low.as_str(), "f10") {
        Ok(NativeKey::F10)
    } else if str_eq(low.as_str(), "f11") {
        Ok(NativeKey::F11)
    } else if str_eq(low.as_str(), "f12") {
        Ok(NativeKey::F12)
    } else if str_eq(low.as_str(), "insert") {
        Ok(NativeKey::Insert)
    } else if str_eq(low.as_str(), "delete") {
        Ok(NativeKey::Delete)
    } else if str_eq(low.as_str(), "home") {
        Ok(NativeKey::Home)
    } else if str_eq(low.as_str(), "end") {
        Ok(NativeKey::End)
    } else if str_eq(low.as_str(), "page_up") {
        Ok(NativeKey::PageUp)
    } else if str_eq(low.as_str(), "page_down") {
        Ok(NativeKey::PageDown)
    } else if str_eq(low.as_str(), "left") {
        Ok(NativeKey::Left)
    } else if str_eq(low.as_str(), "right") {
        Ok(NativeKey::Right)
    } else if str_eq(low.as_str(), "up") {
        Ok(NativeKey::Up)
    } else if str_eq(low.as_str(), "down") {
        Ok(NativeKey::Down)
    } else if str_eq(low.as_str(), "backspace") {
        Ok(NativeKey::Backspace)
    } else {
        Err(ConfigError::UnsupportedKey(String::from_str(s)))
    }
}

/// Whether the key is one of the physical modifier keys.
pub fn is_modifier_key(key: &NativeKey) -> (r: bool)
    ensures
        r == is_modifier_key_spec(*key),
{
    matches!(
        key,
        NativeKey::LControl
            | NativeKey::RControl
            | NativeKey::LAlt
            | NativeKey::RAlt
            | NativeKey::LShift
            | NativeKey::RShift
            | NativeKey::LSuper
            | NativeKey::RSuper
    )
}

/// The recorder-side mapping: the canonical name of a supported key, and
/// `None` for a modifier key or a key outside the table.
pub fn key_code_to_string(key: &NativeKey) -> (r: Option<String>)
    ensures
        match r {
            Some(s) => key_supported(*key) && s@ == key_name(*key),
            None => !key_supported(*key),
        },
{
    if is_modifier_key(key) {
        None
    } else if matches!(key, NativeKey::Other(_)) {
        None
    } else {
        Some(key_to_string(key))
    }
}


/// The length of each supported key's name, used to tell names apart.
pub open spec fn key_len(k: NativeKey) -> int {
    match k {
        NativeKey::KeyA => 1,
        NativeKey::KeyB => 1,
        NativeKey::KeyC => 1,
        NativeKey::KeyD => 1,
        NativeKey::KeyE => 1,
        NativeKey::KeyF => 1,
        NativeKey::KeyG => 1,
        NativeKey::KeyH => 1,
        NativeKey::KeyI => 1,
        NativeKey::KeyJ => 1,
        NativeKey::KeyK => 1,
        NativeKey::KeyL => 1,
        NativeKey::KeyM => 1,
        NativeKey::KeyN => 1,
        NativeKey::KeyO => 1,
        NativeKey::KeyP => 1,
        NativeKey::KeyQ => 1,
        NativeKey::KeyR => 1,
        NativeKey::KeyS => 1,
        NativeKey::KeyT => 1,
        NativeKey::KeyU => 1,
        NativeKey::KeyV => 1,
        NativeKey::KeyW => 1,
        NativeKey::KeyX => 1,
        NativeKey::KeyY => 1,
        NativeKey::KeyZ => 1,
        NativeKey::Key1 => 1,
        NativeKey::Key2 => 1,
        NativeKey::Key3 => 1,
        NativeKey::Key4 => 1,
        NativeKey::Key5 => 1,
        NativeKey::Key6 => 1,
        NativeKey::Key7 => 1,
        NativeKey::Key8 => 1,
        NativeKey::Key9 => 1,
        NativeKey::Key0 => 1,
        NativeKey::Escape => 6,
        NativeKey::Enter => 5,
        NativeKey::Tab => 3,
        NativeKey::Space => 5,
        NativeKey::Minus => 5,
        NativeKey::Equal => 5,
        NativeKey::Backslash => 9,
        NativeKey::BracketLeft => 11,
        NativeKey::BracketRight => 12,
        NativeKey::Semicolon => 9,
        NativeKey::Apostrophe => 10,
        NativeKey::Comma => 5,
        NativeKey::Dot => 3,
        NativeKey::Slash => 5,
        NativeKey::F1 => 2,
        NativeKey::F2 => 2,
        NativeKey::F3 => 2,
        NativeKey::F4 => 2,
        NativeKey::F5 => 2,
        NativeKey::F6 => 2,
        NativeKey::F7 => 2,
        NativeKey::F8 => 2,
        NativeKey::F9 => 2,
        NativeKey::F10 => 3,
        NativeKey::F11 => 3,
        NativeKey::F12 => 3,
        NativeKey::Insert => 6,
        NativeKey::Delete => 6,
        NativeKey::Home => 4,
        NativeKey::End => 3,
        NativeKey::PageUp => 7,
        NativeKey::PageDown => 9,
        NativeKey::Left => 4,
        NativeKey::Right => 5,
        NativeKey::Up => 2,
        NativeKey::Down => 4,
        NativeKey::Backspace => 9,
        _ => 0,
    }
}

/// The first character of each supported key's name.
pub open spec fn key_first(k: NativeKey) -> char {
    match k {
        NativeKey::KeyA => 'a',
        NativeKey::KeyB => 'b',
        NativeKey::KeyC => 'c',
        NativeKey::KeyD => 'd',
        NativeKey::KeyE => 'e',
        NativeKey::KeyF => 'f',
        NativeKey::KeyG => 'g',
        NativeKey::KeyH => 'h',
        NativeKey::KeyI => 'i',
        NativeKey::KeyJ => 'j',
        NativeKey::KeyK => 'k',
        NativeKey::KeyL => 'l',
        NativeKey::KeyM => 'm',
        NativeKey::KeyN => 'n',
        NativeKey::KeyO => 'o',
        NativeKey::KeyP => 'p',
        NativeKey::KeyQ => 'q',
        NativeKey::KeyR => 'r',
        NativeKey::KeyS => 's',
        NativeKey::KeyT => 't',
        NativeKey::KeyU => 'u',
        NativeKey::KeyV => 'v',
        NativeKey::KeyW => 'w',
        NativeKey::KeyX => 'x',
        NativeKey::KeyY => 'y',
        NativeKey::KeyZ => 'z',
        NativeKey::Key1 => '1',
        NativeKey::Key2 => '2',
        NativeKey::Key3 => '3',
        NativeKey::Key4 => '4',
        NativeKey::Key5 => '5',
        NativeKey::Key6 => '6',
        NativeKey::Key7 => '7',
        NativeKey::Key8 => '8',
        NativeKey::Key9 => '9',
        NativeKey::Key0 => '0',
        NativeKey::Escape => 'e',
        NativeKey::Enter => 'e',
        NativeKey::Tab => 't',
        NativeKey::Space => 's',
        NativeKey::Minus => 'm',
        NativeKey::Equal => 'e',
        NativeKey::Backslash => 'b',
        NativeKey::BracketLeft => 'b',
        NativeKey::BracketRight => 'b',
        NativeKey::Semicolon => 's',
        NativeKey::Apostrophe => 'a',
        NativeKey::Comma => 'c',
        NativeKey::Dot => 'd',
        NativeKey::Slash => 's',
        NativeKey::F1 => 'f',
        NativeKey::F2 => 'f',
        NativeKey::F3 => 'f',
        NativeKey::F4 => 'f',
        NativeKey::F5 => 'f',
        NativeKey::F6 => 'f',
        NativeKey::F7 => 'f',
        NativeKey::F8 => 'f',
        NativeKey::F9 => 'f',
        NativeKey::F10 => 'f',
        NativeKey::F11 => 'f',
        NativeKey::F12 => 'f',
        NativeKey::Insert => 'i',
        NativeKey::Delete => 'd',
        NativeKey::Home => 'h',
        NativeKey::End => 'e',
        NativeKey::PageUp => 'p',
        NativeKey::PageDown => 'p',
        NativeKey::Left => 'l',
        NativeKey::Right => 'r',
        NativeKey::Up => 'u',
        NativeKey::Down => 'd',
        NativeKey::Backspace => 'b',
        _ => ' ',
    }
}

/// The last character of each supported key's name.
pub open spec fn key_last(k: NativeKey) -> char {
    match k {
        NativeKey::KeyA => 'a',
        NativeKey::KeyB => 'b',
        NativeKey::KeyC => 'c',
        NativeKey::KeyD => 'd',
        NativeKey::KeyE => 'e',
        NativeKey::KeyF => 'f',
        NativeKey::KeyG => 'g',
        NativeKey::KeyH => 'h',
        NativeKey::KeyI => 'i',
        NativeKey::KeyJ => 'j',
        NativeKey::KeyK => 'k',
        NativeKey::KeyL => 'l',
        NativeKey::KeyM => 'm',
        NativeKey::KeyN => 'n',
        NativeKey::KeyO => 'o',
        NativeKey::KeyP => 'p',
        NativeKey::KeyQ => 'q',
        NativeKey::KeyR => 'r',
        NativeKey::KeyS => 's',
        NativeKey::KeyT => 't',
        NativeKey::KeyU => 'u',
        NativeKey::KeyV => 'v',
        NativeKey::KeyW => 'w',
        NativeKey::KeyX => 'x',
        NativeKey::KeyY => 'y',
        NativeKey::KeyZ => 'z',
        NativeKey::Key1 => '1',
        NativeKey::Key2 => '2',
        NativeKey::Key3 => '3',
        NativeKey::Key4 => '4',
        NativeKey::Key5 => '5',
        NativeKey::Key6 => '6',
        NativeKey::Key7 => '7',
        NativeKey::Key8 => '8',
        NativeKey::Key9 => '9',
        NativeKey::Key0 => '0',
        NativeKey::Escape => 'e',
        NativeKey::Enter => 'r',
        NativeKey::Tab => 'b',
        NativeKey::Space => 'e',
        NativeKey::Minus => 's',
        NativeKey::Equal => 'l',
        NativeKey::Backslash => 'h',
        NativeKey::BracketLeft => 't',
        NativeKey::BracketRight => 't',
        NativeKey::Semicolon => 'n',
        NativeKey::Apostrophe => 'e',
        NativeKey::Comma => 'a',
        NativeKey::Dot => 't',
        NativeKey::Slash => 'h',
        NativeKey::F1 => '1',
        NativeKey::F2 => '2',
        NativeKey::F3 => '3',
        NativeKey::F4 => '4',
        NativeKey::F5 => '5',
        NativeKey::F6 => '6',
        NativeKey::F7 => '7',
        NativeKey::F8 => '8',
        NativeKey::F9 => '9',
        NativeKey::F10 => '0',
        NativeKey::F11 => '1',
        NativeKey::F12 => '2',
        NativeKey::Insert => 't',
        NativeKey::Delete => 'e',
        NativeKey::Home => 'e',
        NativeKey::End => 'd',
        NativeKey::PageUp => 'p',
        NativeKey::PageDown => 'n',
        NativeKey::Left => 't',
        NativeKey::Right => 't',
        NativeKey::Up => 'p',
        NativeKey::Down => 'n',
        NativeKey::Backspace => 'e',
        _ => ' ',
    }
}

/// Length, first and last character of a supported key's name; together
/// they tell all supported names apart.
proof fn lemma_key_sig(k: NativeKey)
    requires
        key_supported(k),
    ensures
        key_name(k).len() == key_len(k),
        key_name(k)[0] == key_first(k),
        key_name(k)[key_len(k) - 1] == key_last(k),
{
    match k {
        NativeKey::KeyA => {
            assert(key_name(k).len() == 1);
            assert(key_name(k)[0] == 'a');
            assert(key_name(k)[0] == 'a');
        },
        NativeKey::KeyB => {
            assert(key_name(k).len() == 1);
            assert(key_name(k)[0] == 'b');
            assert(key_name(k)[0] == 'b');
        },
        NativeKey::KeyC => {
            assert(key_name(k).len() == 1);
            assert(key_name(k)[0] == 'c');
            assert(key_name(k)[0] == 'c');
        },
        NativeKey::KeyD => {
            assert(key_name(k).len() == 1);
            assert(key_name(k)[0] == 'd');
            assert(key_name(k)[0] == 'd');
        },
        NativeKey::KeyE => {
            assert(key_name(k).len() == 1);
            assert(key_name(k)[0] == 'e');
            assert(key_name(k)[0] == 'e');
        },
        NativeKey::KeyF => {
            assert(key_name(k).len() == 1);
            assert(key_name(k)[0] == 'f');
            assert(key_name(k)[0] == 'f');
        },
        NativeKey::KeyG => {
            assert(key_name(k).len() == 1);
            assert(key_name(k)[0] == 'g');
            assert(key_name(k)[0] == 'g');
        },
        NativeKey::KeyH => {
            assert(key_name(k).len() == 1);
            assert(key_name(k)[0] == 'h');
            assert(key_name(k)[0] == 'h');
        },
        NativeKey::KeyI => {
            assert(key_name(k).len() == 1);
            assert(key_name(k)[0] == 'i');
            assert(key_name(k)[0] == 'i');
        },
        NativeKey::KeyJ => {
            assert(key_name(k).len() == 1);
            assert(key_name(k)[0] == 'j');
            assert(key_name(k)[0] == 'j');
        },
        NativeKey::KeyK => {
            assert(key_name(k).len() == 1);
            assert(key_name(k)[0] == 'k');
            assert(key_name(k)[0] == 'k');
        },
        NativeKey::KeyL => {
            assert(key_name(k).len() == 1);
            assert(key_name(k)[0] == 'l');
            assert(key_name(k)[0] == 'l');
        },
        NativeKey::KeyM => {
            assert(key_name(k).len() == 1);
            assert(key_name(k)[0] == 'm');
            assert(key_name(k)[0] == 'm');
        },
        NativeKey::KeyN => {
            assert(key_name(k).len() == 1);
            assert(key_name(k)[0] == 'n');
            assert(key_name(k)[0] == 'n');
        },
        NativeKey::KeyO => {
            assert(key_name(k).len() == 1);
            assert(key_name(k)[0] == 'o');
            assert(key_name(k)[0] == 'o');
        },
        NativeKey::KeyP => {
            assert(key_name(k).len() == 1);
            assert(key_name(k)[0] == 'p');
            assert(key_name(k)[0] == 'p');
        },
        NativeKey::KeyQ => {
            assert(key_name(k).len() == 1);
            assert(key_name(k)[0] == 'q');
            assert(key_name(k)[0] == 'q');
        },
        NativeKey::KeyR => {
            assert(key_name(k).len() == 1);
            assert(key_name(k)[0] == 'r');
            assert(key_name(k)[0] == 'r');
        },
        NativeKey::KeyS => {
            assert(key_name(k).len() == 1);
            assert(key_name(k)[0] == 's');
            assert(key_name(k)[0] == 's');
        },
        NativeKey::KeyT => {
            assert(key_name(k).len() == 1);
            assert(key_name(k)[0] == 't');
            assert(key_name(k)[0] == 't');
        },
        NativeKey::KeyU => {
            assert(key_name(k).len() == 1);
            assert(key_name(k)[0] == 'u');
            assert(key_name(k)[0] == 'u');
        },
        NativeKey::KeyV => {
            assert(key_name(k).len() == 1);
            assert(key_name(k)[0] == 'v');
            assert(key_name(k)[0] == 'v');
        },
        NativeKey::KeyW => {
            assert(key_name(k).len() == 1);
            assert(key_name(k)[0] == 'w');
            assert(key_name(k)[0] == 'w');
        },
        NativeKey::KeyX => {
            assert(key_name(k).len() == 1);
            assert(key_name(k)[0] == 'x');
            assert(key_name(k)[0] == 'x');
        },
        NativeKey::KeyY => {
            assert(key_name(k).len() == 1);
            assert(key_name(k)[0] == 'y');
            assert(key_name(k)[0] == 'y');
        },
        NativeKey::KeyZ => {
            assert(key_name(k).len() == 1);
            assert(key_name(k)[0] == 'z');
            assert(key_name(k)[0] == 'z');
        },
        NativeKey::Key1 => {
            assert(key_name(k).len() == 1);
            assert(key_name(k)[0] == '1');
            assert(key_name(k)[0] == '1');
        },
        NativeKey::Key2 => {
            assert(key_name(k).len() == 1);
            assert(key_name(k)[0] == '2');
            assert(key_name(k)[0] == '2');
        },
        NativeKey::Key3 => {
            assert(key_name(k).len() == 1);
            assert(key_name(k)[0] == '3');
            assert(key_name(k)[0] == '3');
        },
        NativeKey::Key4 => {
            assert(key_name(k).len() == 1);
            assert(key_name(k)[0] == '4');
            assert(key_name(k)[0] == '4');
        },
        NativeKey::Key5 => {
            assert(key_name(k).len() == 1);
            assert(key_name(k)[0] == '5');
            assert(key_name(k)[0] == '5');
        },
        NativeKey::Key6 => {
            assert(key_name(k).len() == 1);
            assert(key_name(k)[0] == '6');
            assert(key_name(k)[0] == '6');
        },
        NativeKey::Key7 => {
            assert(key_name(k).len() == 1);
            assert(key_name(k)[0] == '7');
            assert(key_name(k)[0] == '7');
        },
        NativeKey::Key8 => {
            assert(key_name(k).len() == 1);
            assert(key_name(k)[0] == '8');
            assert(key_name(k)[0] == '8');
        },
        NativeKey::Key9 => {
            assert(key_name(k).len() == 1);
            assert(key_name(k)[0] == '9');
            assert(key_name(k)[0] == '9');
        },
        NativeKey::Key0 => {
            assert(key_name(k).len() == 1);
            assert(key_name(k)[0] == '0');
            assert(key_name(k)[0] == '0');
        },
        NativeKey::Escape => {
            assert(key_name(k).len() == 6);
            assert(key_name(k)[0] == 'e');
            assert(key_name(k)[5] == 'e');
        },
        NativeKey::Enter => {
            assert(key_name(k).len() == 5);
            assert(key_name(k)[0] == 'e');
            assert(key_name(k)[4] == 'r');
        },
        NativeKey::Tab => {
            assert(key_name(k).len() == 3);
            assert(key_name(k)[0] == 't');
            assert(key_name(k)[2] == 'b');
        },
        NativeKey::Space => {
            assert(key_name(k).len() == 5);
            assert(key_name(k)[0] == 's');
            assert(key_name(k)[4] == 'e');
        },
        NativeKey::Minus => {
            assert(key_name(k).len() == 5);
            assert(key_name(k)[0] == 'm');
            assert(key_name(k)[4] == 's');
        },
        NativeKey::Equal => {
            assert(key_name(k).len() == 5);
            assert(key_name(k)[0] == 'e');
            assert(key_name(k)[4] == 'l');
        },
        NativeKey::Backslash => {
            assert(key_name(k).len() == 9);
            assert(key_name(k)[0] == 'b');
            assert(key_name(k)[8] == 'h');
        },
        NativeKey::BracketLeft => {
            assert(key_name(k).len() == 11);
            assert(key_name(k)[0] == 'b');
            assert(key_name(k)[10] == 't');
        },
        NativeKey::BracketRight => {
            assert(key_name(k).len() == 12);
            assert(key_name(k)[0] == 'b');
            assert(key_name(k)[11] == 't');
        },
        NativeKey::Semicolon => {
            assert(key_name(k).len() == 9);
            assert(key_name(k)[0] == 's');
            assert(key_name(k)[8] == 'n');
        },
        NativeKey::Apostrophe => {
            assert(key_name(k).len() == 10);
            assert(key_name(k)[0] == 'a');
            assert(key_name(k)[9] == 'e');
        },
        NativeKey::Comma => {
            assert(key_name(k).len() == 5);
            assert(key_name(k)[0] == 'c');
            assert(key_name(k)[4] == 'a');
        },
        NativeKey::Dot => {
            assert(key_name(k).len() == 3);
            assert(key_name(k)[0] == 'd');
            assert(key_name(k)[2] == 't');
        },
        NativeKey::Slash => {
            assert(key_name(k).len() == 5);
            assert(key_name(k)[0] == 's');
            assert(key_name(k)[4] == 'h');
        },
        NativeKey::F1 => {
            assert(key_name(k).len() == 2);
            assert(key_name(k)[0] == 'f');
            assert(key_name(k)[1] == '1');
        },
        NativeKey::F2 => {
            assert(key_name(k).len() == 2);
            assert(key_name(k)[0] == 'f');
            assert(key_name(k)[1] == '2');
        },
        NativeKey::F3 => {
            assert(key_name(k).len() == 2);
            assert(key_name(k)[0] == 'f');
            assert(key_name(k)[1] == '3');
        },
        NativeKey::F4 => {
            assert(key_name(k).len() == 2);
            assert(key_name(k)[0] == 'f');
            assert(key_name(k)[1] == '4');
        },
        NativeKey::F5 => {
            assert(key_name(k).len() == 2);
            assert(key_name(k)[0] == 'f');
            assert(key_name(k)[1] == '5');
        },
        NativeKey::F6 => {
            assert(key_name(k).len() == 2);
            assert(key_name(k)[0] == 'f');
            assert(key_name(k)[1] == '6');
        },
        NativeKey::F7 => {
            assert(key_name(k).len() == 2);
            assert(key_name(k)[0] == 'f');
            assert(key_name(k)[1] == '7');
        },
        NativeKey::F8 => {
            assert(key_name(k).len() == 2);
            assert(key_name(k)[0] == 'f');
            assert(key_name(k)[1] == '8');
        },
        NativeKey::F9 => {
            assert(key_name(k).len() == 2);
            assert(key_name(k)[0] == 'f');
            assert(key_name(k)[1] == '9');
        },
        NativeKey::F10 => {
            assert(key_name(k).len() == 3);
            assert(key_name(k)[0] == 'f');
            assert(key_name(k)[2] == '0');
        },
        NativeKey::F11 => {
            assert(key_name(k).len() == 3);
            assert(key_name(k)[0] == 'f');
            assert(key_name(k)[2] == '1');
        },
        NativeKey::F12 => {
            assert(key_name(k).len() == 3);
            assert(key_name(k)[0] == 'f');
            assert(key_name(k)[2] == '2');
        },
        NativeKey::Insert => {
            assert(key_name(k).len() == 6);
            assert(key_name(k)[0] == 'i');
            assert(key_name(k)[5] == 't');
        },
        NativeKey::Delete => {
            assert(key_name(k).len() == 6);
            assert(key_name(k)[0] == 'd');
            assert(key_name(k)[5] == 'e');
        },
        NativeKey::Home => {
            assert(key_name(k).len() == 4);
            assert(key_name(k)[0] == 'h');
            assert(key_name(k)[3] == 'e');
        },
        NativeKey::End => {
            assert(key_name(k).len() == 3);
            assert(key_name(k)[0] == 'e');
            assert(key_name(k)[2] == 'd');
        },
        NativeKey::PageUp => {
            assert(key_name(k).len() == 7);
            assert(key_name(k)[0] == 'p');
            assert(key_name(k)[6] == 'p');
        },
        NativeKey::PageDown => {
            assert(key_name(k).len() == 9);
            assert(key_name(k)[0] == 'p');
            assert(key_name(k)[8] == 'n');
        },
        NativeKey::Left => {
            assert(key_name(k).len() == 4);
            assert(key_name(k)[0] == 'l');
            assert(key_name(k)[3] == 't');
        },
        NativeKey::Right => {
            assert(key_name(k).len() == 5);
            assert(key_name(k)[0] == 'r');
            assert(key_name(k)[4] == 't');
        },
        NativeKey::Up => {
            assert(key_name(k).len() == 2);
            assert(key_name(k)[0] == 'u');
            assert(key_name(k)[1] == 'p');
        },
        NativeKey::Down => {
            assert(key_name(k).len() == 4);
            assert(key_name(k)[0] == 'd');
            assert(key_name(k)[3] == 'n');
        },
        NativeKey::Backspace => {
            assert(key_name(k).len() == 9);
            assert(key_name(k)[0] == 'b');
            assert(key_name(k)[8] == 'e');
        },
        _ => {},
    }
}

/// Law: within the supported set, a canonical name identifies one key.
pub proof fn lemma_key_name_injective(k1: NativeKey, k2: NativeKey)
    requires
        key_supported(k1),
        key_supported(k2),
        key_name(k1) == key_name(k2),
    ensures
        k1 == k2,
{
    lemma_key_sig(k1);
    lemma_key_sig(k2);
    assert(key_len(k1) == key_len(k2));
    assert(key_first(k1) == key_first(k2));
    assert(key_last(k1) == key_last(k2));
    assert(k1 == k2);
}

/// Law: the canonical name of a supported key is already lowercase, so the
/// case-insensitive decode direction sees it unchanged.
pub proof fn lemma_key_name_lowercase(k: NativeKey)
    requires
        key_supported(k),
    ensures
        lower_seq(key_name(k)) == key_name(k),
{
    assert(lower_seq(key_name(k)) =~= key_name(k));
}

/// Law: the two directions of the key codec are mutually inverse on the
/// supported keys. Whatever `string_to_evdev_key` returns for a string that
/// holds `key_to_string(k)`'s result, its contract forces that result to be
/// exactly `Ok(k)`.
pub proof fn lemma_key_codec_roundtrip(k: NativeKey, r: Result<NativeKey, ConfigError>)
    requires
        key_supported(k),
        match r {
            Ok(k2) => key_supported(k2) && key_name(k2) == lower_seq(key_name(k)),
            Err(_) => forall|k2: NativeKey| key_supported(k2) ==> key_name(k2) != lower_seq(
                key_name(k),
            ),
        },
    ensures
        r == Ok::<NativeKey, ConfigError>(k),
{
    lemma_key_name_lowercase(k);
    match r {
        Ok(k2) => {
            lemma_key_name_injective(k, k2);
        },
        Err(_) => {
            assert(key_name(k) == lower_seq(key_name(k)));
            assert(false);
        },
    }
}

} // verus!
