//! The binding model: hotkey bindings (modifier set, key, command, active
//! flag) grouped into named modes, and the editing operations a user
//! interface drives through `Message` values.

use vstd::prelude::*;

use crate::text::dec_spec;
use crate::text::lex_lt;
use crate::text::seq_views;
use crate::text::str_eq;
use crate::text::str_lt;
use crate::text::split_spec;
use crate::text::trim_spec;

verus! {

/// What a binding does: the command run and whether the binding is active.
pub struct GuiAction {
    pub command: String,
    pub active: bool,
    pub layer_id: usize,
}

/// One hotkey binding. The modifiers are kept sorted lexicographically with
/// no repeats, the order they are displayed and serialized in.
pub struct GuiHotkey {
    pub modifiers: Vec<String>,
    pub key: String,
    pub action: GuiAction,
}

/// A named, ordered group of bindings.
pub struct AppMode {
    pub name: String,
    pub hotkeys: Vec<GuiHotkey>,
}

/// The whole configuration under edit: the modes, which one is selected,
/// and which binding, if any, is being recorded from keyboard input.
pub struct AppState {
    pub modes: Vec<AppMode>,
    pub selected_mode: usize,
    pub recording_hotkey: Option<usize>,
    pub last_backup: Option<String>,
}

/// The mathematical value of one binding.
#[verifier::ext_equal]
pub ghost struct HotkeyV {
    pub mods: Seq<Seq<char>>,
    pub key: Seq<char>,
    pub command: Seq<char>,
    pub active: bool,
    pub layer_id: int,
}

/// The mathematical value of one mode.
#[verifier::ext_equal]
pub ghost struct ModeV {
    pub name: Seq<char>,
    pub hotkeys: Seq<HotkeyV>,
}

/// The mathematical value of the whole configuration.
#[verifier::ext_equal]
pub ghost struct StateV {
    pub modes: Seq<ModeV>,
    pub selected_mode: int,
    pub recording_hotkey: Option<int>,
    pub last_backup: Option<Seq<char>>,
}

impl View for GuiHotkey {
    type V = HotkeyV;

    open spec fn view(&self) -> HotkeyV {
        HotkeyV {
            mods: seq_views(self.modifiers@),
            key: self.key@,
            command: self.action.command@,
            active: self.action.active,
            layer_id: self.action.layer_id as int,
        }
    }
}

impl View for AppMode {
    type V = ModeV;

    open spec fn view(&self) -> ModeV {
        ModeV { name: self.name@, hotkeys: self.hotkeys@.map_values(|h: GuiHotkey| h@) }
    }
}

impl View for AppState {
    type V = StateV;

    open spec fn view(&self) -> StateV {
        StateV {
            modes: self.modes@.map_values(|m: AppMode| m@),
            selected_mode: self.selected_mode as int,
            recording_hotkey: match self.recording_hotkey {
                Some(i) => Some(i as int),
                None => None,
            },
            last_backup: match self.last_backup {
                Some(ref p) => Some(p@),
                None => None,
            },
        }
    }
}

/// A modifier set is sorted strictly, hence free of repeats.
pub open spec fn mods_wf(mods: Seq<Seq<char>>) -> bool {
    forall|i: int, j: int| 0 <= i < j < mods.len() ==> lex_lt(mods[i], mods[j])
}

/// Two bindings have the same identity when modifier set and key agree;
/// command, active flag and layer do not participate.
pub open spec fn same_identity(a: HotkeyV, b: HotkeyV) -> bool {
    a.mods == b.mods && a.key == b.key
}

impl HotkeyV {
    /// Well-formed: the modifier set is sorted and duplicate-free.
    pub open spec fn wf(self) -> bool {
        mods_wf(self.mods)
    }
}

impl ModeV {
    pub open spec fn wf(self) -> bool {
        forall|i: int| 0 <= i < self.hotkeys.len() ==> (#[trigger] self.hotkeys[i]).wf()
    }
}

/// The name of the implicit mode: present from the start, reinstated when the
/// last mode is deleted, and never written as a header by the codec.
pub open spec fn default_mode_name() -> Seq<char> {
    seq!['D', 'e', 'f', 'a', 'u', 'l', 't']
}

/// The mode a fresh or emptied configuration holds.
pub open spec fn default_mode() -> ModeV {
    ModeV { name: default_mode_name(), hotkeys: Seq::empty() }
}

impl StateV {
    /// The configuration's invariant: at least one mode, a valid selection,
    /// a recording index that refers to a binding of the selected mode, and
    /// well-formed modifier sets throughout.
    pub open spec fn wf(self) -> bool {
        &&& self.modes.len() >= 1
        &&& 0 <= self.selected_mode < self.modes.len()
        &&& (match self.recording_hotkey {
            Some(i) => 0 <= i < self.modes[self.selected_mode].hotkeys.len(),
            None => true,
        })
        &&& forall|i: int| 0 <= i < self.modes.len() ==> (#[trigger] self.modes[i]).wf()
    }

    /// The fresh configuration: one empty mode named `Default`.
    pub open spec fn initial() -> StateV {
        StateV {
            modes: seq![default_mode()],
            selected_mode: 0,
            recording_hotkey: None,
            last_backup: None,
        }
    }
}

/// The binding a fresh "add binding" press creates: no modifiers, no key,
/// empty command, active.
pub open spec fn new_hotkey() -> HotkeyV {
    HotkeyV {
        mods: Seq::empty(),
        key: Seq::empty(),
        command: Seq::empty(),
        active: true,
        layer_id: 0,
    }
}

/// The stem of auto-generated mode names.
pub open spec fn new_mode_name() -> Seq<char> {
    seq!['N', 'e', 'w', ' ', 'M', 'o', 'd', 'e']
}

/// The candidates for a freshly added mode's name: `New Mode`, then
/// `New Mode 1`, `New Mode 2`, and so on.
pub open spec fn candidate_spec(k: nat) -> Seq<char> {
    if k == 0 {
        new_mode_name()
    } else {
        new_mode_name() + seq![' '] + dec_spec(k)
    }
}

/// Whether some existing name is the k-th candidate.
pub open spec fn name_taken(names: Seq<Seq<char>>, k: nat) -> bool {
    exists|mi: int| 0 <= mi < names.len() && names[mi] == candidate_spec(k)
}

/// Whether `kk` is the first candidate no existing name matches.
pub open spec fn least_free(names: Seq<Seq<char>>, kk: nat) -> bool {
    !name_taken(names, kk) && forall|k2: nat| k2 < kk ==> #[trigger] name_taken(names, k2)
}

/// The first auto-generated name none of the existing names matches: what a
/// freshly added mode is called, unique among the modes by construction.
pub open spec fn fresh_name_spec(names: Seq<Seq<char>>) -> Seq<char> {
    candidate_spec(choose|kk: nat| least_free(names, kk))
}

/// The names of a sequence of modes.
pub open spec fn mode_names(ms: Seq<ModeV>) -> Seq<Seq<char>> {
    ms.map_values(|m: ModeV| m.name)
}

/// Distinct candidate indices give distinct names.
#[verifier::rlimit(50)]
proof fn lemma_candidate_injective(k1: nat, k2: nat)
    requires
        candidate_spec(k1) == candidate_spec(k2),
    ensures
        k1 == k2,
{
    crate::text::lemma_dec_len(k1);
    crate::text::lemma_dec_len(k2);
    if k1 != 0 && k2 != 0 {
        let s1 = candidate_spec(k1);
        let s2 = candidate_spec(k2);
        assert(dec_spec(k1) =~= s1.subrange(9, s1.len() as int));
        assert(dec_spec(k2) =~= s2.subrange(9, s2.len() as int));
        crate::text::lemma_dec_injective(k1, k2);
    }
}

/// Only one candidate is the first free one.
proof fn lemma_least_free_unique(names: Seq<Seq<char>>, k1: nat, k2: nat)
    requires
        least_free(names, k1),
        least_free(names, k2),
    ensures
        k1 == k2,
{
    if k1 < k2 {
        assert(name_taken(names, k1));
    } else if k2 < k1 {
        assert(name_taken(names, k2));
    }
}

/// Below any free candidate there is a first free one.
proof fn lemma_least_exists(names: Seq<Seq<char>>, k0: nat)
    requires
        !name_taken(names, k0),
    ensures
        exists|kk: nat| kk <= k0 && least_free(names, kk),
    decreases k0,
{
    if forall|k2: nat| k2 < k0 ==> #[trigger] name_taken(names, k2) {
        assert(least_free(names, k0));
    } else {
        let k1 = choose|k2: nat| k2 < k0 && !(#[trigger] name_taken(names, k2));
        lemma_least_exists(names, k1);
        let kk = choose|kk: nat| kk <= k1 && least_free(names, kk);
        assert(kk <= k0 && least_free(names, kk));
    }
}

/// Among the first `names.len() + 1` candidates one is always free: the
/// candidates are pairwise distinct, and there are more of them than names.
proof fn lemma_free_candidate_exists(names: Seq<Seq<char>>)
    ensures
        exists|kk: nat| kk <= names.len() && least_free(names, kk),
{
    let n = names.len() as int;
    if forall|k: nat| k <= names.len() ==> #[trigger] name_taken(names, k) {
        let f = |k: int|
            choose|mi: int| 0 <= mi < names.len() && names[mi] == candidate_spec(k as nat);
        let ks = vstd::set_lib::set_int_range(0, n + 1);
        vstd::set_lib::lemma_int_range(0, n + 1);
        assert forall|k: int| ks.contains(k) implies 0 <= #[trigger] f(k) < n && names[f(k)]
            == candidate_spec(k as nat) by {
            assert(name_taken(names, k as nat));
        }
        assert(vstd::relations::injective_on(f, ks)) by {
            assert forall|k1: int, k2: int|
                ks.contains(k1) && ks.contains(k2) && #[trigger] f(k1) == #[trigger] f(
                    k2,
                ) implies k1 == k2 by {
                assert(names[f(k1)] == candidate_spec(k1 as nat));
                assert(names[f(k2)] == candidate_spec(k2 as nat));
                lemma_candidate_injective(k1 as nat, k2 as nat);
            }
        }
        let img = ks.map(f);
        vstd::set_lib::lemma_map_size(ks, img, f);
        let idxs = vstd::set_lib::set_int_range(0, n);
        vstd::set_lib::lemma_int_range(0, n);
        assert forall|mi: int| img.contains(mi) implies idxs.contains(mi) by {
            let k = choose|k: int| ks.contains(k) && f(k) == mi;
            assert(0 <= f(k) < n);
        }
        vstd::set_lib::lemma_len_subset(img, idxs);
        assert(false);
    } else {
        let k0 = choose|k: nat| k <= names.len() && !name_taken(names, k);
        lemma_least_exists(names, k0);
        let kk = choose|kk: nat| kk <= k0 && least_free(names, kk);
        assert(kk <= names.len() && least_free(names, kk));
    }
}

impl StateV {
    /// Whether `idx` selects a binding of the selected mode.
    pub open spec fn hotkey_index_valid(self, idx: int) -> bool {
        0 <= self.selected_mode < self.modes.len() && 0 <= idx
            < self.modes[self.selected_mode].hotkeys.len()
    }

    /// The selected mode with one binding replaced.
    pub open spec fn with_hotkey(self, idx: int, h: HotkeyV) -> StateV {
        let m = self.modes[self.selected_mode];
        StateV {
            modes: self.modes.update(
                self.selected_mode,
                ModeV { name: m.name, hotkeys: m.hotkeys.update(idx, h) },
            ),
            ..self
        }
    }

    /// Selecting a mode: takes effect only on a valid index and cancels any
    /// recording in progress, which referred to the previous mode.
    pub open spec fn select_mode_spec(self, idx: int) -> StateV {
        if 0 <= idx < self.modes.len() {
            StateV { selected_mode: idx, recording_hotkey: None, ..self }
        } else {
            self
        }
    }

    /// Renaming the selected mode.
    pub open spec fn edit_mode_name_spec(self, name: Seq<char>) -> StateV {
        if 0 <= self.selected_mode < self.modes.len() {
            let m = self.modes[self.selected_mode];
            StateV {
                modes: self.modes.update(self.selected_mode, ModeV { name, hotkeys: m.hotkeys }),
                ..self
            }
        } else {
            self
        }
    }

    /// Editing the command of one binding of the selected mode.
    pub open spec fn edit_command_spec(self, idx: int, cmd: Seq<char>) -> StateV {
        if self.hotkey_index_valid(idx) {
            let h = self.modes[self.selected_mode].hotkeys[idx];
            self.with_hotkey(
                idx,
                HotkeyV {
                    mods: h.mods,
                    key: h.key,
                    command: cmd,
                    active: h.active,
                    layer_id: h.layer_id,
                },
            )
        } else {
            self
        }
    }

    /// Setting the active flag of one binding of the selected mode.
    pub open spec fn toggle_active_spec(self, idx: int, active: bool) -> StateV {
        if self.hotkey_index_valid(idx) {
            let h = self.modes[self.selected_mode].hotkeys[idx];
            self.with_hotkey(
                idx,
                HotkeyV {
                    mods: h.mods,
                    key: h.key,
                    command: h.command,
                    active,
                    layer_id: h.layer_id,
                },
            )
        } else {
            self
        }
    }

    /// Removing one binding of the selected mode; a recording index past the
    /// removed binding shifts down, one at it is cancelled.
    pub open spec fn delete_hotkey_spec(self, idx: int) -> StateV {
        if self.hotkey_index_valid(idx) {
            let m = self.modes[self.selected_mode];
            StateV {
                modes: self.modes.update(
                    self.selected_mode,
                    ModeV { name: m.name, hotkeys: m.hotkeys.remove(idx) },
                ),
                recording_hotkey: match self.recording_hotkey {
                    Some(j) => if j < idx {
                        Some(j)
                    } else if j == idx {
                        None
                    } else {
                        Some(j - 1)
                    },
                    None => None,
                },
                ..self
            }
        } else {
            self
        }
    }

    /// Appending a fresh binding to the selected mode and starting to record
    /// its key combination.
    pub open spec fn add_hotkey_spec(self) -> StateV {
        if 0 <= self.selected_mode < self.modes.len() {
            let m = self.modes[self.selected_mode];
            StateV {
                modes: self.modes.update(
                    self.selected_mode,
                    ModeV { name: m.name, hotkeys: m.hotkeys.push(new_hotkey()) },
                ),
                recording_hotkey: Some(m.hotkeys.len() as int),
                ..self
            }
        } else {
            self
        }
    }

    /// Appending a fresh empty mode, under the first auto-generated name no
    /// existing mode bears, and selecting it.
    pub open spec fn add_mode_spec(self) -> StateV {
        StateV {
            modes: self.modes.push(
                ModeV { name: fresh_name_spec(mode_names(self.modes)), hotkeys: Seq::empty() },
            ),
            selected_mode: self.modes.len() as int,
            recording_hotkey: None,
            ..self
        }
    }

    /// Starting to record a binding of the selected mode.
    pub open spec fn start_recording_spec(self, idx: int) -> StateV {
        if self.hotkey_index_valid(idx) {
            StateV { recording_hotkey: Some(idx), ..self }
        } else {
            self
        }
    }

    /// Cancelling a recording without touching the model.
    pub open spec fn stop_recording_spec(self) -> StateV {
        StateV { recording_hotkey: None, ..self }
    }

    /// Removing a mode: the selection is clamped to the remaining modes, and
    /// deleting the last mode reinstates one empty default mode.
    pub open spec fn delete_mode_spec(self, idx: int) -> StateV {
        if 0 <= idx < self.modes.len() {
            let ms = self.modes.remove(idx);
            if ms.len() == 0 {
                StateV {
                    modes: seq![default_mode()],
                    selected_mode: 0,
                    recording_hotkey: None,
                    ..self
                }
            } else {
                StateV {
                    modes: ms,
                    selected_mode: if self.selected_mode >= ms.len() {
                        ms.len() - 1
                    } else {
                        self.selected_mode
                    },
                    recording_hotkey: None,
                    ..self
                }
            }
        } else {
            self
        }
    }

    /// The effect of one recorded key combination: the segments of the
    /// combination, trimmed, become the recorded binding's modifier set and
    /// key, and the recording ends.
    pub open spec fn key_recorded_spec(self, combo: Seq<char>) -> StateV {
        let parts = split_spec(combo, '+').map_values(|p: Seq<char>| trim_spec(p));
        let rec = match self.recording_hotkey {
            Some(idx) => if self.hotkey_index_valid(idx) {
                let h = self.modes[self.selected_mode].hotkeys[idx];
                let upd = if parts.len() == 1 {
                    HotkeyV {
                        mods: Seq::empty(),
                        key: parts[0],
                        command: h.command,
                        active: h.active,
                        layer_id: h.layer_id,
                    }
                } else {
                    HotkeyV {
                        mods: mods_from(parts.drop_last(), false),
                        key: parts.last(),
                        command: h.command,
                        active: h.active,
                        layer_id: h.layer_id,
                    }
                };
                self.with_hotkey(idx, upd)
            } else {
                self
            },
            None => self,
        };
        StateV { recording_hotkey: None, ..rec }
    }

    /// Replacing the selected mode's bindings with freshly loaded ones, as a
    /// "load into current mode" action does; cancels any recording.
    pub open spec fn merge_hotkeys_spec(self, hks: Seq<HotkeyV>) -> StateV {
        if 0 <= self.selected_mode < self.modes.len() {
            let m = self.modes[self.selected_mode];
            StateV {
                modes: self.modes.update(self.selected_mode, ModeV { name: m.name, hotkeys: hks }),
                recording_hotkey: None,
                ..self
            }
        } else {
            StateV { recording_hotkey: None, ..self }
        }
    }
}

/// Law: deleting the only remaining mode leaves exactly one empty mode named
/// `Default`, with the selection on it and no recording in progress.
pub proof fn lemma_delete_last_mode(s: StateV)
    requires
        s.modes.len() == 1,
    ensures
        s.delete_mode_spec(0).modes == seq![default_mode()],
        s.delete_mode_spec(0).selected_mode == 0,
        s.delete_mode_spec(0).recording_hotkey is None,
{
    assert(s.modes.remove(0).len() == 0);
}

/// Insertion into a sorted, duplicate-free modifier set.
pub open spec fn insert_sorted_spec(ms: Seq<Seq<char>>, x: Seq<char>) -> Seq<Seq<char>>
    decreases ms.len(),
{
    if ms.len() == 0 {
        seq![x]
    } else if lex_lt(ms[0], x) {
        seq![ms[0]] + insert_sorted_spec(ms.drop_first(), x)
    } else if ms[0] == x {
        ms
    } else {
        seq![x] + ms
    }
}

/// The sorted modifier set a sequence of raw segments collects into; when
/// `skip_empty` is set, empty segments are left out, as the config parser does.
pub open spec fn mods_from(parts: Seq<Seq<char>>, skip_empty: bool) -> Seq<Seq<char>>
    decreases parts.len(),
{
    if parts.len() == 0 {
        Seq::empty()
    } else if skip_empty && parts.last().len() == 0 {
        mods_from(parts.drop_last(), skip_empty)
    } else {
        insert_sorted_spec(mods_from(parts.drop_last(), skip_empty), parts.last())
    }
}

/// Every element of an insertion result is the inserted one or was in the set.
proof fn lemma_insert_sorted_elems(ms: Seq<Seq<char>>, x: Seq<char>)
    ensures
        forall|j: int|
            0 <= j < insert_sorted_spec(ms, x).len() ==> (#[trigger] insert_sorted_spec(ms, x)[j])
                == x || ms.contains(insert_sorted_spec(ms, x)[j]),
    decreases ms.len(),
{
    let r = insert_sorted_spec(ms, x);
    if ms.len() == 0 {
    } else if lex_lt(ms[0], x) {
        lemma_insert_sorted_elems(ms.drop_first(), x);
        assert forall|j: int| 0 <= j < r.len() implies (#[trigger] r[j]) == x || ms.contains(
            r[j],
        ) by {
            if j == 0 {
                assert(ms[0] == r[0]);
            } else {
                let rr = insert_sorted_spec(ms.drop_first(), x);
                assert(r[j] == rr[j - 1]);
                if rr[j - 1] != x {
                    let i = choose|i: int| 0 <= i < ms.drop_first().len() && ms.drop_first()[i]
                        == rr[j - 1];
                    assert(ms[i + 1] == rr[j - 1]);
                }
            }
        }
    } else if ms[0] == x {
    } else {
        assert forall|j: int| 0 <= j < r.len() implies (#[trigger] r[j]) == x || ms.contains(
            r[j],
        ) by {
            if j > 0 {
                assert(ms[j - 1] == r[j]);
            }
        }
    }
}

/// Insertion keeps a modifier set sorted and duplicate-free.
pub proof fn lemma_insert_sorted_wf(ms: Seq<Seq<char>>, x: Seq<char>)
    requires
        mods_wf(ms),
    ensures
        mods_wf(insert_sorted_spec(ms, x)),
    decreases ms.len(),
{
    let r = insert_sorted_spec(ms, x);
    if ms.len() == 0 {
    } else if lex_lt(ms[0], x) {
        lemma_insert_sorted_wf(ms.drop_first(), x);
        lemma_insert_sorted_elems(ms.drop_first(), x);
        let rr = insert_sorted_spec(ms.drop_first(), x);
        assert forall|i: int, j: int| 0 <= i < j < r.len() implies lex_lt(r[i], r[j]) by {
            if i == 0 {
                assert(r[j] == rr[j - 1]);
                if rr[j - 1] == x {
                } else {
                    let m = choose|m: int| 0 <= m < ms.drop_first().len() && ms.drop_first()[m]
                        == rr[j - 1];
                    assert(ms[m + 1] == rr[j - 1]);
                    assert(lex_lt(ms[0], ms[m + 1]));
                }
            } else {
                assert(r[i] == rr[i - 1] && r[j] == rr[j - 1]);
            }
        }
    } else if ms[0] == x {
    } else {
        crate::text::lemma_lex_trichotomy(ms[0], x);
        assert(lex_lt(x, ms[0]));
        assert forall|i: int, j: int| 0 <= i < j < r.len() implies lex_lt(r[i], r[j]) by {
            if i == 0 {
                if j > 1 {
                    assert(lex_lt(ms[0], ms[j - 1]));
                    crate::text::lemma_lex_trans(x, ms[0], ms[j - 1]);
                }
            } else {
                assert(r[i] == ms[i - 1] && r[j] == ms[j - 1]);
            }
        }
    }
}

/// A collected modifier set is sorted and duplicate-free.
pub proof fn lemma_mods_from_wf(parts: Seq<Seq<char>>, skip_empty: bool)
    ensures
        mods_wf(mods_from(parts, skip_empty)),
    decreases parts.len(),
{
    if parts.len() > 0 {
        lemma_mods_from_wf(parts.drop_last(), skip_empty);
        if !(skip_empty && parts.last().len() == 0) {
            lemma_insert_sorted_wf(mods_from(parts.drop_last(), skip_empty), parts.last());
        }
    }
}

/// Where a scan for the insertion point stopped determines the result.
pub proof fn lemma_insert_sorted_at(ms: Seq<Seq<char>>, x: Seq<char>, k: int)
    requires
        0 <= k <= ms.len(),
        forall|j: int| 0 <= j < k ==> lex_lt(#[trigger] ms[j], x),
        k < ms.len() ==> !lex_lt(ms[k], x),
    ensures
        insert_sorted_spec(ms, x) == (if k < ms.len() && ms[k] == x {
            ms
        } else {
            ms.subrange(0, k) + seq![x] + ms.subrange(k, ms.len() as int)
        }),
    decreases ms.len(),
{
    if k == 0 {
        if ms.len() == 0 {
            assert(insert_sorted_spec(ms, x) =~~= ms.subrange(0, 0) + seq![x] + ms.subrange(
                0,
                ms.len() as int,
            ));
        } else if ms[0] == x {
            crate::text::lemma_lex_irrefl(x);
        } else {
            assert(insert_sorted_spec(ms, x) =~~= ms.subrange(0, 0) + seq![x] + ms.subrange(
                0,
                ms.len() as int,
            ));
        }
    } else {
        assert(lex_lt(ms[0], x));
        let rest = ms.drop_first();
        assert forall|j: int| 0 <= j < k - 1 implies lex_lt(#[trigger] rest[j], x) by {
            assert(rest[j] == ms[j + 1]);
        }
        lemma_insert_sorted_at(rest, x, k - 1);
        if k < ms.len() && ms[k] == x {
            assert(rest[k - 1] == ms[k]);
            assert(insert_sorted_spec(ms, x) =~~= ms);
        } else {
            assert(insert_sorted_spec(ms, x) =~~= ms.subrange(0, k) + seq![x] + ms.subrange(
                k,
                ms.len() as int,
            ));
        }
    }
}

/// Inserts a modifier name into a sorted, duplicate-free set; inserting a
/// name already present leaves the set unchanged.
pub fn insert_sorted(v: &mut Vec<String>, s: String)
    ensures
        seq_views(final(v)@) == insert_sorted_spec(seq_views(old(v)@), s@),
{
    let ghost ms = seq_views(old(v)@);
    let mut i: usize = 0;
    while i < v.len() && str_lt(v[i].as_str(), s.as_str())
        invariant
            i <= v@.len(),
            v == old(v),
            forall|j: int| 0 <= j < i ==> lex_lt(#[trigger] seq_views(v@)[j], s@),
        decreases v@.len() - i,
    {
        i = i + 1;
    }
    proof {
        lemma_insert_sorted_at(ms, s@, i as int);
    }
    if i < v.len() && str_eq(v[i].as_str(), s.as_str()) {
        proof {
            assert(seq_views(v@) =~~= insert_sorted_spec(ms, s@));
        }
    } else {
        v.insert(i, s);
        proof {
            assert(seq_views(v@) =~~= ms.subrange(0, i as int) + seq![s@] + ms.subrange(
                i as int,
                ms.len() as int,
            ));
        }
    }
}

/// Collects the first `upto` segments into a sorted modifier set, leaving
/// out empty segments when `skip_empty` is set.
pub fn collect_mods(parts: &Vec<String>, upto: usize, skip_empty: bool) -> (r: Vec<String>)
    requires
        upto <= parts@.len(),
    ensures
        seq_views(r@) == mods_from(seq_views(parts@).subrange(0, upto as int), skip_empty),
        mods_wf(seq_views(r@)),
{
    let mut r: Vec<String> = Vec::new();
    let mut i: usize = 0;
    proof {
        assert(seq_views(parts@).subrange(0, 0) =~= Seq::<Seq<char>>::empty());
        assert(seq_views(r@) =~= Seq::<Seq<char>>::empty());
    }
    while i < upto
        invariant
            i <= upto <= parts@.len(),
            seq_views(r@) == mods_from(seq_views(parts@).subrange(0, i as int), skip_empty),
        decreases upto - i,
    {
        let ghost pre = seq_views(parts@).subrange(0, i as int);
        let ghost post = seq_views(parts@).subrange(0, i + 1);
        proof {
            assert(post.drop_last() =~= pre);
            assert(post.last() == parts@[i as int]@);
        }
        if !(skip_empty && parts[i].as_str().unicode_len() == 0) {
            let m = parts[i].clone();
            insert_sorted(&mut r, m);
        }
        i = i + 1;
    }
    proof {
        assert(seq_views(parts@).subrange(0, upto as int) == seq_views(parts@).subrange(
            0,
            i as int,
        ));
        lemma_mods_from_wf(seq_views(parts@).subrange(0, upto as int), skip_empty);
    }
    r
}

/// Whether two modifier sets are equal as string sequences.
pub fn mods_eq(a: &Vec<String>, b: &Vec<String>) -> (r: bool)
    ensures
        r == (seq_views(a@) == seq_views(b@)),
{
    if a.len() != b.len() {
        proof {
            assert(seq_views(a@).len() != seq_views(b@).len());
        }
        return false;
    }
    let mut i: usize = 0;
    while i < a.len()
        invariant
            a@.len() == b@.len(),
            i <= a@.len(),
            forall|j: int| 0 <= j < i ==> #[trigger] seq_views(a@)[j] == seq_views(b@)[j],
        decreases a@.len() - i,
    {
        if !str_eq(a[i].as_str(), b[i].as_str()) {
            proof {
                assert(seq_views(a@)[i as int] != seq_views(b@)[i as int]);
            }
            return false;
        }
        i = i + 1;
    }
    proof {
        assert(seq_views(a@) =~= seq_views(b@));
    }
    true
}

/// A fresh, empty default mode.
fn make_default_mode() -> (r: AppMode)
    ensures
        r@ == default_mode(),
{
    proof {
        reveal_strlit("Default");
        assert("Default"@ =~= default_mode_name());
    }
    let r = AppMode { name: String::from_str("Default"), hotkeys: Vec::new() };
    proof {
        assert(r@.hotkeys =~= default_mode().hotkeys);
    }
    r
}

impl Default for AppState {
    /// The configuration a fresh start or a failed load falls back to.
    fn default() -> (r: AppState)
        ensures
            r@ == StateV::initial(),
            r@.wf(),
    {
        let mut modes: Vec<AppMode> = Vec::new();
        modes.push(make_default_mode());
        let r = AppState { modes, selected_mode: 0, recording_hotkey: None, last_backup: None };
        proof {
            assert(r@.modes =~= StateV::initial().modes);
        }
        r
    }
}

/// Whether any mode bears the given name.
fn mode_name_is_taken(modes: &Vec<AppMode>, name: &str) -> (r: bool)
    ensures
        r == exists|mi: int| 0 <= mi < modes@.len() && (#[trigger] modes@[mi])@.name == name@,
{
    let mut i: usize = 0;
    while i < modes.len()
        invariant
            i <= modes@.len(),
            forall|mi: int| 0 <= mi < i ==> (#[trigger] modes@[mi])@.name != name@,
        decreases modes@.len() - i,
    {
        if str_eq(modes[i].name.as_str(), name) {
            return true;
        }
        i = i + 1;
    }
    false
}

/// The k-th candidate name for a new mode.
fn make_candidate(k: usize) -> (r: String)
    ensures
        r@ == candidate_spec(k as nat),
{
    proof {
        reveal_strlit("New Mode");
        reveal_strlit("New Mode ");
        assert("New Mode"@ =~= new_mode_name());
        assert("New Mode "@ =~= new_mode_name() + seq![' ']);
    }
    if k == 0 {
        String::from_str("New Mode")
    } else {
        let mut s = String::from_str("New Mode ");
        crate::text::push_dec(k as u64, &mut s);
        s
    }
}

/// The first auto-generated name no existing mode bears. The scan cannot run
/// past the number of modes: there are more candidates than names they could
/// collide with.
fn fresh_mode_name(modes: &Vec<AppMode>) -> (r: String)
    ensures
        r@ == fresh_name_spec(mode_names(modes@.map_values(|m: AppMode| m@))),
{
    let ghost names = mode_names(modes@.map_values(|m: AppMode| m@));
    proof {
        assert forall|mi: int| 0 <= mi < modes@.len() implies names[mi] == (
        #[trigger] modes@[mi])@.name by {}
    }
    let n = modes.len();
    let mut k: usize = 0;
    loop
        invariant
            k <= n,
            n == modes@.len(),
            names == mode_names(modes@.map_values(|m: AppMode| m@)),
            forall|mi: int| 0 <= mi < modes@.len() ==> names[mi] == (#[trigger] modes@[mi])@.name,
            forall|k2: nat| k2 < k ==> #[trigger] name_taken(names, k2),
        decreases n - k,
    {
        let cand = make_candidate(k);
        if !mode_name_is_taken(modes, cand.as_str()) {
            proof {
                assert(!name_taken(names, k as nat)) by {
                    if name_taken(names, k as nat) {
                        let mi = choose|mi: int|
                            0 <= mi < names.len() && names[mi] == candidate_spec(k as nat);
                        assert(modes@[mi]@.name == cand@);
                    }
                }
                assert(least_free(names, k as nat));
                let kk = choose|kk: nat| least_free(names, kk);
                lemma_least_free_unique(names, kk, k as nat);
            }
            return cand;
        }
        proof {
            let mi = choose|mi: int| 0 <= mi < modes@.len() && modes@[mi]@.name == cand@;
            assert(names[mi] == candidate_spec(k as nat));
            assert(name_taken(names, k as nat));
            if k == n {
                lemma_free_candidate_exists(names);
                let kk = choose|kk: nat| kk <= names.len() && least_free(names, kk);
                if kk == k as nat {
                    assert(name_taken(names, k as nat));
                }
                assert(name_taken(names, kk));
                assert(false);
            }
        }
        k = k + 1;
    }
}

impl AppState {
    /// A fresh configuration, equal to the default one.
    pub fn new() -> (r: Self)
        ensures
            r@ == StateV::initial(),
            r@.wf(),
    {
        Self::default()
    }

    /// Selects the mode at `idx` and cancels any recording; out-of-range
    /// indices are ignored.
    pub fn select_mode(&mut self, idx: usize)
        ensures
            final(self)@ == old(self)@.select_mode_spec(idx as int),
            old(self)@.wf() ==> final(self)@.wf(),
    {
        if idx < self.modes.len() {
            self.selected_mode = idx;
            self.recording_hotkey = None;
        }
    }

    /// Renames the selected mode.
    pub fn edit_mode_name(&mut self, new_name: String)
        ensures
            final(self)@ == old(self)@.edit_mode_name_spec(new_name@),
            old(self)@.wf() ==> final(self)@.wf(),
    {
        if self.selected_mode < self.modes.len() {
            let sel = self.selected_mode;
            let mut mode = self.modes.remove(sel);
            mode.name = new_name;
            self.modes.insert(sel, mode);
            proof {
                assert(self@.modes =~~= old(self)@.edit_mode_name_spec(new_name@).modes);
                if old(self)@.wf() {
                    assert forall|i: int| 0 <= i < self@.modes.len() implies (
                    #[trigger] self@.modes[i]).wf() by {
                        assert(old(self)@.modes[i].wf());
                    }
                }
            }
        }
    }

    /// Edits the command of the binding at `idx` of the selected mode.
    pub fn edit_command(&mut self, idx: usize, new_command: String)
        ensures
            final(self)@ == old(self)@.edit_command_spec(idx as int, new_command@),
            old(self)@.wf() ==> final(self)@.wf(),
    {
        if self.selected_mode < self.modes.len() {
            let sel = self.selected_mode;
            let mut mode = self.modes.remove(sel);
            if idx < mode.hotkeys.len() {
                let mut hk = mode.hotkeys.remove(idx);
                hk.action.command = new_command;
                mode.hotkeys.insert(idx, hk);
                proof {
                    assert(mode@.hotkeys =~~= old(self)@.modes[sel as int].hotkeys.update(
                        idx as int,
                        old(self)@.edit_command_spec(
                            idx as int,
                            new_command@,
                        ).modes[sel as int].hotkeys[idx as int],
                    ));
                }
            }
            self.modes.insert(sel, mode);
            proof {
                assert(self@.modes =~~= old(self)@.edit_command_spec(
                    idx as int,
                    new_command@,
                ).modes);
                if old(self)@.wf() {
                    assert forall|i: int| 0 <= i < self@.modes.len() implies (
                    #[trigger] self@.modes[i]).wf() by {
                        assert(old(self)@.modes[i].wf());
                        if i == sel as int && (idx as int)
                            < old(self)@.modes[i].hotkeys.len() {
                            assert forall|j: int| 0 <= j < self@.modes[i].hotkeys.len() implies (
                            #[trigger] self@.modes[i].hotkeys[j]).wf() by {
                                assert(old(self)@.modes[i].hotkeys[j].wf());
                            }
                        }
                    }
                }
            }
        }
    }

    /// Sets the active flag of the binding at `idx` of the selected mode.
    pub fn toggle_active(&mut self, idx: usize, active: bool)
        ensures
            final(self)@ == old(self)@.toggle_active_spec(idx as int, active),
            old(self)@.wf() ==> final(self)@.wf(),
    {
        if self.selected_mode < self.modes.len() {
            let sel = self.selected_mode;
            let mut mode = self.modes.remove(sel);
            if idx < mode.hotkeys.len() {
                let mut hk = mode.hotkeys.remove(idx);
                hk.action.active = active;
                mode.hotkeys.insert(idx, hk);
                proof {
                    assert(mode@.hotkeys =~~= old(self)@.modes[sel as int].hotkeys.update(
                        idx as int,
                        old(self)@.toggle_active_spec(
                            idx as int,
                            active,
                        ).modes[sel as int].hotkeys[idx as int],
                    ));
                }
            }
            self.modes.insert(sel, mode);
            proof {
                assert(self@.modes =~~= old(self)@.toggle_active_spec(idx as int, active).modes);
                if old(self)@.wf() {
                    assert forall|i: int| 0 <= i < self@.modes.len() implies (
                    #[trigger] self@.modes[i]).wf() by {
                        assert(old(self)@.modes[i].wf());
                        if i == sel as int && (idx as int)
                            < old(self)@.modes[i].hotkeys.len() {
                            assert forall|j: int| 0 <= j < self@.modes[i].hotkeys.len() implies (
                            #[trigger] self@.modes[i].hotkeys[j]).wf() by {
                                assert(old(self)@.modes[i].hotkeys[j].wf());
                            }
                        }
                    }
                }
            }
        }
    }

    /// Removes the binding at `idx` of the selected mode; a recording index
    /// past it shifts down, one at it is cancelled.
    pub fn delete_hotkey(&mut self, idx: usize)
        ensures
            final(self)@ == old(self)@.delete_hotkey_spec(idx as int),
            old(self)@.wf() ==> final(self)@.wf(),
    {
        if self.selected_mode < self.modes.len() {
            let sel = self.selected_mode;
            let mut mode = self.modes.remove(sel);
            if idx < mode.hotkeys.len() {
                mode.hotkeys.remove(idx);
                self.recording_hotkey = match self.recording_hotkey {
                    Some(j) => if j < idx {
                        Some(j)
                    } else if j == idx {
                        None
                    } else {
                        Some(j - 1)
                    },
                    None => None,
                };
            }
            self.modes.insert(sel, mode);
            proof {
                assert(self@.modes =~~= old(self)@.delete_hotkey_spec(idx as int).modes);
                if old(self)@.wf() {
                    assert forall|i: int| 0 <= i < self@.modes.len() implies (
                    #[trigger] self@.modes[i]).wf() by {
                        assert(old(self)@.modes[i].wf());
                        if i == sel as int && (idx as int)
                            < old(self)@.modes[i].hotkeys.len() {
                            assert forall|j: int| 0 <= j < self@.modes[i].hotkeys.len() implies (
                            #[trigger] self@.modes[i].hotkeys[j]).wf() by {
                                if j < idx as int {
                                    assert(old(self)@.modes[i].hotkeys[j].wf());
                                } else {
                                    assert(old(self)@.modes[i].hotkeys[j + 1].wf());
                                }
                            }
                        }
                    }
                }
            }
        }
    }

    /// Appends a fresh binding to the selected mode and starts recording it.
    pub fn add_hotkey(&mut self)
        ensures
            final(self)@ == old(self)@.add_hotkey_spec(),
            old(self)@.wf() ==> final(self)@.wf(),
    {
        if self.selected_mode < self.modes.len() {
            let sel = self.selected_mode;
            let mut mode = self.modes.remove(sel);
            let n = mode.hotkeys.len();
            mode.hotkeys.push(
                GuiHotkey {
                    modifiers: Vec::new(),
                    key: String::new(),
                    action: GuiAction { command: String::new(), active: true, layer_id: 0 },
                },
            );
            self.modes.insert(sel, mode);
            self.recording_hotkey = Some(n);
            proof {
                assert(self@.modes[sel as int].hotkeys.last() =~~= new_hotkey());
                assert(self@.modes =~~= old(self)@.add_hotkey_spec().modes);
                if old(self)@.wf() {
                    assert forall|i: int| 0 <= i < self@.modes.len() implies (
                    #[trigger] self@.modes[i]).wf() by {
                        assert(old(self)@.modes[i].wf());
                        if i == sel as int {
                            assert forall|j: int| 0 <= j < self@.modes[i].hotkeys.len() implies (
                            #[trigger] self@.modes[i].hotkeys[j]).wf() by {
                                if j < old(self)@.modes[i].hotkeys.len() {
                                    assert(old(self)@.modes[i].hotkeys[j].wf());
                                }
                            }
                        }
                    }
                }
            }
        }
    }

    /// Appends a fresh empty mode, under a unique auto-generated name, and
    /// selects it.
    pub fn add_mode(&mut self)
        ensures
            final(self)@ == old(self)@.add_mode_spec(),
            old(self)@.wf() ==> final(self)@.wf(),
    {
        let n = self.modes.len();
        let name = fresh_mode_name(&self.modes);
        self.modes.push(AppMode { name, hotkeys: Vec::new() });
        self.selected_mode = n;
        self.recording_hotkey = None;
        proof {
            assert(mode_names(old(self)@.modes) =~= mode_names(
                old(self).modes@.map_values(|m: AppMode| m@),
            ));
            assert(self@.modes =~~= old(self)@.add_mode_spec().modes);
            if old(self)@.wf() {
                assert forall|i: int| 0 <= i < self@.modes.len() implies (
                #[trigger] self@.modes[i]).wf() by {
                    if i < old(self)@.modes.len() {
                        assert(old(self)@.modes[i].wf());
                    }
                }
            }
        }
    }

    /// Starts recording the binding at `idx` of the selected mode.
    pub fn start_recording(&mut self, idx: usize)
        ensures
            final(self)@ == old(self)@.start_recording_spec(idx as int),
            old(self)@.wf() ==> final(self)@.wf(),
    {
        if self.selected_mode < self.modes.len() {
            let valid = idx < self.modes[self.selected_mode].hotkeys.len();
            if valid {
                self.recording_hotkey = Some(idx);
            }
        }
    }

    /// Cancels any recording without touching the model.
    pub fn stop_recording(&mut self)
        ensures
            final(self)@ == old(self)@.stop_recording_spec(),
            old(self)@.wf() ==> final(self)@.wf(),
    {
        self.recording_hotkey = None;
    }

    /// Removes the mode at `idx`, clamping the selection; deleting the last
    /// remaining mode reinstates one empty mode named `Default`.
    pub fn delete_mode(&mut self, idx: usize)
        ensures
            final(self)@ == old(self)@.delete_mode_spec(idx as int),
            old(self)@.wf() ==> final(self)@.wf(),
    {
        if idx < self.modes.len() {
            self.modes.remove(idx);
            self.recording_hotkey = None;
            if self.modes.len() == 0 {
                self.modes.push(make_default_mode());
                self.selected_mode = 0;
                proof {
                    assert(self@.modes =~~= old(self)@.delete_mode_spec(idx as int).modes);
                }
            } else {
                if self.selected_mode >= self.modes.len() {
                    self.selected_mode = self.modes.len() - 1;
                }
                proof {
                    assert(self@.modes =~~= old(self)@.delete_mode_spec(idx as int).modes);
                    if old(self)@.wf() {
                        assert forall|i: int| 0 <= i < self@.modes.len() implies (
                        #[trigger] self@.modes[i]).wf() by {
                            if i < idx as int {
                                assert(old(self)@.modes[i].wf());
                            } else {
                                assert(old(self)@.modes[i + 1].wf());
                            }
                        }
                    }
                }
            }
        }
    }

    /// Applies a recorded key combination to the binding being recorded: the
    /// `+`-separated segments, trimmed, become its modifier set and key; the
    /// recording ends whether or not a binding was still there to update.
    pub fn key_recorded(&mut self, combo: &str)
        ensures
            final(self)@ == old(self)@.key_recorded_spec(combo@),
            old(self)@.wf() ==> final(self)@.wf(),
    {
        let ghost parts_spec = split_spec(combo@, '+').map_values(|p: Seq<char>| trim_spec(p));
        if let Some(idx) = self.recording_hotkey {
            if self.selected_mode < self.modes.len() {
                let sel = self.selected_mode;
                let mut mode = self.modes.remove(sel);
                if idx < mode.hotkeys.len() {
                    let raw = crate::text::split_on(combo, '+');
                    let parts = crate::text::trim_all(&raw);
                    proof {
                        assert(seq_views(parts@) == parts_spec);
                    }
                    let mut hk = mode.hotkeys.remove(idx);
                    if parts.len() == 1 {
                        hk.modifiers = Vec::new();
                        hk.key = parts[0].clone();
                        proof {
                            assert(seq_views(hk.modifiers@) =~= Seq::<Seq<char>>::empty());
                        }
                    } else {
                        let n = parts.len();
                        hk.modifiers = collect_mods(&parts, n - 1, false);
                        hk.key = parts[n - 1].clone();
                        proof {
                            assert(seq_views(parts@).subrange(0, n - 1) =~= parts_spec.drop_last());
                        }
                    }
                    mode.hotkeys.insert(idx, hk);
                }
                self.modes.insert(sel, mode);
                proof {
                    let stepped = old(self)@.key_recorded_spec(combo@);
                    assert(self@.modes =~~= stepped.modes);
                    if old(self)@.wf() {
                        lemma_mods_from_wf(parts_spec.drop_last(), false);
                        assert forall|i: int| 0 <= i < self@.modes.len() implies (
                        #[trigger] self@.modes[i]).wf() by {
                            assert(old(self)@.modes[i].wf());
                            if i == sel as int && (idx as int)
                                < old(self)@.modes[i].hotkeys.len() {
                                assert forall|j: int|
                                    0 <= j < self@.modes[i].hotkeys.len() implies (
                                #[trigger] self@.modes[i].hotkeys[j]).wf() by {
                                    assert(old(self)@.modes[i].hotkeys[j].wf());
                                }
                            }
                        }
                    }
                }
            }
        }
        self.recording_hotkey = None;
    }

    /// Replaces the selected mode's bindings with loaded ones and cancels any
    /// recording, as loading a file into the current mode does.
    pub fn merge_loaded_hotkeys(&mut self, hotkeys: Vec<GuiHotkey>)
        ensures
            final(self)@ == old(self)@.merge_hotkeys_spec(
                hotkeys@.map_values(|h: GuiHotkey| h@),
            ),
            (old(self)@.wf() && forall|j: int|
                0 <= j < hotkeys@.len() ==> (#[trigger] hotkeys@[j]@).wf()) ==> final(self)@.wf(),
    {
        self.recording_hotkey = None;
        if self.selected_mode < self.modes.len() {
            let sel = self.selected_mode;
            let mut mode = self.modes.remove(sel);
            mode.hotkeys = hotkeys;
            self.modes.insert(sel, mode);
            proof {
                assert(self@.modes =~~= old(self)@.merge_hotkeys_spec(
                    hotkeys@.map_values(|h: GuiHotkey| h@),
                ).modes);
                if old(self)@.wf() && (forall|j: int|
                    0 <= j < hotkeys@.len() ==> (#[trigger] hotkeys@[j]@).wf()) {
                    assert forall|i: int| 0 <= i < self@.modes.len() implies (
                    #[trigger] self@.modes[i]).wf() by {
                        assert(old(self)@.modes[i].wf());
                    }
                }
            }
        }
    }
}


/// The editing and persistence events a user interface produces; `update`
/// applies each one to the model.
pub enum Message {
    SelectMode(usize),
    EditModeName(String),
    EditCommand(usize, String),
    ToggleActive(usize, bool),
    DeleteHotkey(usize),
    DeleteMode(usize),
    AddHotkey,
    StartRecording(usize),
    KeyRecorded(String),
    StopRecording,
    AddMode,
    SaveConfig,
    ShowError(String),
    ClearError,
    OpenBinaryPicker(usize),
    BinaryPicked(usize, Option<String>),
    LoadConfigFile,
    ConfigFilePicked(Option<String>),
    SaveConfigAs,
    ConfigFileSavePath(Option<String>),
}

/// What the surrounding application must do after a message is applied:
/// the outside work (dialogs, file I/O, snapshots, error display) that the
/// model itself cannot perform.
pub enum Effect {
    /// Nothing left to do.
    Nothing,
    /// Persist the GUI-state snapshot.
    SaveSnapshot,
    /// Save the configuration to the daemon's config path.
    Save,
    /// Open a file chooser for the command of the given binding.
    PickBinary(usize),
    /// Open a file chooser for a config file to load.
    PickConfigFile,
    /// Load the config file at the given path into the selected mode.
    LoadConfigAt(String),
    /// Open a file chooser for a "save as" target path.
    PickSavePath,
    /// Save the configuration to the given path, without backup or reload.
    SaveAt(String),
    /// Display the given transient error message.
    ShowError(String),
    /// Clear any displayed error message.
    ClearError,
}

/// The model after one message: messages that only request outside work
/// leave it unchanged.
pub open spec fn step_spec(s: StateV, msg: Message) -> StateV {
    match msg {
        Message::SelectMode(i) => s.select_mode_spec(i as int),
        Message::EditModeName(n) => s.edit_mode_name_spec(n@),
        Message::EditCommand(i, c) => s.edit_command_spec(i as int, c@),
        Message::ToggleActive(i, a) => s.toggle_active_spec(i as int, a),
        Message::DeleteHotkey(i) => s.delete_hotkey_spec(i as int),
        Message::DeleteMode(i) => s.delete_mode_spec(i as int),
        Message::AddHotkey => s.add_hotkey_spec(),
        Message::StartRecording(i) => s.start_recording_spec(i as int),
        Message::KeyRecorded(c) => s.key_recorded_spec(c@),
        Message::StopRecording => s.stop_recording_spec(),
        Message::AddMode => s.add_mode_spec(),
        Message::BinaryPicked(i, Some(p)) => s.edit_command_spec(i as int, p@),
        _ => s,
    }
}

impl AppState {
    /// Applies one event to the model and says what outside work is owed:
    /// the single transition function a user interface drives.
    pub fn update(&mut self, msg: Message) -> (eff: Effect)
        ensures
            final(self)@ == step_spec(old(self)@, msg),
            old(self)@.wf() ==> final(self)@.wf(),
            match msg {
                Message::DeleteHotkey(i) => if old(self)@.hotkey_index_valid(i as int) {
                    eff is SaveSnapshot
                } else {
                    eff is Nothing
                },
                Message::SaveConfig => eff is Save,
                Message::ShowError(m) => eff matches Effect::ShowError(m2) && m2 == m,
                Message::ClearError => eff is ClearError,
                Message::OpenBinaryPicker(i) => eff matches Effect::PickBinary(j) && j == i,
                Message::LoadConfigFile => eff is PickConfigFile,
                Message::ConfigFilePicked(p0) => match p0 {
                    Some(p) => eff matches Effect::LoadConfigAt(q) && q == p,
                    None => eff is Nothing,
                },
                Message::SaveConfigAs => eff is PickSavePath,
                Message::ConfigFileSavePath(p0) => match p0 {
                    Some(p) => eff matches Effect::SaveAt(q) && q == p,
                    None => eff is Nothing,
                },
                _ => eff is Nothing,
            },
    {
        match msg {
            Message::SelectMode(i) => {
                self.select_mode(i);
                Effect::Nothing
            },
            Message::EditModeName(n) => {
                self.edit_mode_name(n);
                Effect::Nothing
            },
            Message::EditCommand(i, c) => {
                self.edit_command(i, c);
                Effect::Nothing
            },
            Message::ToggleActive(i, a) => {
                self.toggle_active(i, a);
                Effect::Nothing
            },
            Message::DeleteHotkey(i) => {
                let valid = self.selected_mode < self.modes.len() && i
                    < self.modes[self.selected_mode].hotkeys.len();
                self.delete_hotkey(i);
                if valid {
                    Effect::SaveSnapshot
                } else {
                    Effect::Nothing
                }
            },
            Message::DeleteMode(i) => {
                self.delete_mode(i);
                Effect::Nothing
            },
            Message::AddHotkey => {
                self.add_hotkey();
                Effect::Nothing
            },
            Message::StartRecording(i) => {
                self.start_recording(i);
                Effect::Nothing
            },
            Message::KeyRecorded(c) => {
                self.key_recorded(c.as_str());
                Effect::Nothing
            },
            Message::StopRecording => {
                self.stop_recording();
                Effect::Nothing
            },
            Message::AddMode => {
                self.add_mode();
                Effect::Nothing
            },
            Message::SaveConfig => Effect::Save,
            Message::ShowError(m) => Effect::ShowError(m),
            Message::ClearError => Effect::ClearError,
            Message::OpenBinaryPicker(i) => Effect::PickBinary(i),
            Message::BinaryPicked(i, p0) => {
                match p0 {
                    Some(p) => {
                        self.edit_command(i, p);
                        Effect::Nothing
                    },
                    None => Effect::Nothing,
                }
            },
            Message::LoadConfigFile => Effect::PickConfigFile,
            Message::ConfigFilePicked(p0) => {
                match p0 {
                    Some(p) => Effect::LoadConfigAt(p),
                    None => Effect::Nothing,
                }
            },
            Message::SaveConfigAs => Effect::PickSavePath,
            Message::ConfigFileSavePath(p0) => {
                match p0 {
                    Some(p) => Effect::SaveAt(p),
                    None => Effect::Nothing,
                }
            },
        }
    }
}

} // verus!
