//! The recorder: turns one raw key-press event — a key and the set of held
//! modifiers — into a canonical combination string, or suppresses the event.
//! Modifier-only presses and unmapped keys never produce a combination.

use vstd::prelude::*;

use crate::codec::sep_plus;
use crate::keys::NativeKey;
use crate::keys::is_modifier_key;
use crate::keys::is_modifier_key_spec;
use crate::keys::key_code_to_string;
use crate::keys::key_name;
use crate::keys::key_supported;
use crate::text::join_spec;
use crate::text::seq_views;

verus! {

/// Which modifiers were held when a key was pressed.
#[derive(Clone, Copy, Debug, PartialEq, Eq, Structural)]
pub struct HeldModifiers {
    pub control: bool,
    pub alt: bool,
    pub shift: bool,
    pub logo: bool,
}

/// The held modifiers' names in the one canonical order — control, alt,
/// shift, super — whatever order the keys were pressed in.
pub open spec fn held_names(m: HeldModifiers) -> Seq<Seq<char>> {
    (if m.control {
        seq![seq!['c', 't', 'r', 'l']]
    } else {
        Seq::empty()
    }) + (if m.alt {
        seq![seq!['a', 'l', 't']]
    } else {
        Seq::empty()
    }) + (if m.shift {
        seq![seq!['s', 'h', 'i', 'f', 't']]
    } else {
        Seq::empty()
    }) + (if m.logo {
        seq![seq!['s', 'u', 'p', 'e', 'r']]
    } else {
        Seq::empty()
    })
}

/// What one key-press event records: nothing for a modifier key or an
/// unmapped key, else the held modifiers in canonical order and the key's
/// canonical name, joined by ` + `.
pub open spec fn record_spec(key: NativeKey, m: HeldModifiers) -> Option<Seq<char>> {
    if is_modifier_key_spec(key) || !key_supported(key) {
        None
    } else {
        Some(join_spec(held_names(m).push(key_name(key)), sep_plus()))
    }
}

/// Records one key-press event as a combination string, or suppresses it.
pub fn key_recorder(key: &NativeKey, held: &HeldModifiers) -> (r: Option<String>)
    ensures
        match r {
            Some(s) => record_spec(*key, *held) == Some(s@),
            None => record_spec(*key, *held) is None,
        },
{
    if is_modifier_key(key) {
        return None;
    }
    let name = match key_code_to_string(key) {
        Some(n) => n,
        None => {
            return None;
        },
    };
    let mut parts: Vec<String> = Vec::new();
    proof {
        reveal_strlit("ctrl");
        reveal_strlit("alt");
        reveal_strlit("shift");
        reveal_strlit("super");
        assert("ctrl"@ =~= seq!['c', 't', 'r', 'l']);
        assert("alt"@ =~= seq!['a', 'l', 't']);
        assert("shift"@ =~= seq!['s', 'h', 'i', 'f', 't']);
        assert("super"@ =~= seq!['s', 'u', 'p', 'e', 'r']);
    }
    if held.control {
        parts.push(String::from_str("ctrl"));
    }
    if held.alt {
        parts.push(String::from_str("alt"));
    }
    if held.shift {
        parts.push(String::from_str("shift"));
    }
    if held.logo {
        parts.push(String::from_str("super"));
    }
    parts.push(name);
    proof {
        assert(seq_views(parts@) =~= held_names(*held).push(key_name(*key)));
        reveal_strlit(" + ");
        assert(" + "@ =~= sep_plus());
    }
    Some(crate::text::join_with(&parts, " + "))
}

} // verus!
