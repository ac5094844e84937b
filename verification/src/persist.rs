//! The persistence protocol around the on-disk config file: duplicate
//! detection over the whole configuration, and the save plan — what to back
//! up and what to write — computed before anything touches the filesystem.
//! The surrounding application executes a plan verbatim; a save that fails
//! duplicate detection produces no plan, so nothing on disk changes.

use vstd::prelude::*;

use crate::codec::combo_of;
use crate::codec::combo_string;
use crate::codec::encode_config;
use crate::codec::encode_spec;
use crate::errors::ConfigError;
use crate::model::AppState;
use crate::model::ModeV;
use crate::model::mods_eq;
use crate::model::same_identity;
use crate::text::str_eq;

verus! {

/// Whether the active binding at `j` collides with an earlier active binding
/// of the same mode on (modifiers, key).
pub open spec fn dup_at(m: ModeV, j: int) -> bool {
    m.hotkeys[j].active && exists|i: int|
        0 <= i < j && m.hotkeys[i].active && same_identity(m.hotkeys[i], m.hotkeys[j])
}

/// Whether some active binding of the mode repeats an earlier one.
pub open spec fn mode_has_dup(m: ModeV) -> bool {
    exists|j: int| 0 <= j < m.hotkeys.len() && dup_at(m, j)
}

/// The first colliding binding of the mode at or after `j`.
pub open spec fn first_dup_in_mode_from(m: ModeV, j: int) -> Option<int>
    decreases m.hotkeys.len() - j,
{
    if j < 0 || j >= m.hotkeys.len() {
        None
    } else if dup_at(m, j) {
        Some(j)
    } else {
        first_dup_in_mode_from(m, j + 1)
    }
}

/// The first colliding binding of the mode, in scan order.
pub open spec fn first_dup_in_mode(m: ModeV) -> Option<int> {
    first_dup_in_mode_from(m, 0)
}

/// The first (mode, binding) collision of the whole configuration at or
/// after mode `i`.
pub open spec fn first_dup_from(ms: Seq<ModeV>, i: int) -> Option<(int, int)>
    decreases ms.len() - i,
{
    if i < 0 || i >= ms.len() {
        None
    } else {
        match first_dup_in_mode(ms[i]) {
            Some(j) => Some((i, j)),
            None => first_dup_from(ms, i + 1),
        }
    }
}

/// The first (mode, binding) collision of the whole configuration.
pub open spec fn first_dup(ms: Seq<ModeV>) -> Option<(int, int)> {
    first_dup_from(ms, 0)
}

proof fn lemma_first_dup_in_mode_from_none(m: ModeV, j: int)
    requires
        0 <= j,
        first_dup_in_mode_from(m, j) is None,
    ensures
        forall|k: int| j <= k < m.hotkeys.len() ==> !dup_at(m, k),
    decreases m.hotkeys.len() - j,
{
    if j < m.hotkeys.len() {
        lemma_first_dup_in_mode_from_none(m, j + 1);
    }
}

proof fn lemma_first_dup_in_mode_from_some(m: ModeV, j0: int, j: int)
    requires
        0 <= j0,
        first_dup_in_mode_from(m, j0) == Some(j),
    ensures
        0 <= j < m.hotkeys.len(),
        dup_at(m, j),
    decreases m.hotkeys.len() - j0,
{
    if j0 < m.hotkeys.len() && !dup_at(m, j0) {
        lemma_first_dup_in_mode_from_some(m, j0 + 1, j);
    }
}

proof fn lemma_first_dup_from_none(ms: Seq<ModeV>, i: int)
    requires
        0 <= i,
        first_dup_from(ms, i) is None,
    ensures
        forall|k: int| i <= k < ms.len() ==> !mode_has_dup(#[trigger] ms[k]),
    decreases ms.len() - i,
{
    if i < ms.len() {
        lemma_first_dup_in_mode_from_none(ms[i], 0);
        lemma_first_dup_from_none(ms, i + 1);
    }
}

proof fn lemma_first_dup_from_some(ms: Seq<ModeV>, i0: int, i: int, j: int)
    requires
        0 <= i0,
        first_dup_from(ms, i0) == Some((i, j)),
    ensures
        0 <= i < ms.len(),
        0 <= j < ms[i].hotkeys.len(),
        dup_at(ms[i], j),
        mode_has_dup(ms[i]),
    decreases ms.len() - i0,
{
    if i0 < ms.len() {
        match first_dup_in_mode(ms[i0]) {
            Some(j2) => {
                lemma_first_dup_in_mode_from_some(ms[i0], 0, j2);
            },
            None => {
                lemma_first_dup_from_some(ms, i0 + 1, i, j);
            },
        }
    }
}

/// Law: duplicate detection is complete and sound — the scan comes up empty
/// exactly when no mode holds two active bindings of one identity, and what
/// it points at is such a collision.
pub proof fn lemma_first_dup_exact(ms: Seq<ModeV>)
    ensures
        (first_dup(ms) is None) <==> (forall|i: int|
            0 <= i < ms.len() ==> !mode_has_dup(#[trigger] ms[i])),
        match first_dup(ms) {
            Some((i, j)) => 0 <= i < ms.len() && 0 <= j < ms[i].hotkeys.len() && dup_at(ms[i], j),
            None => true,
        },
{
    match first_dup(ms) {
        Some((i, j)) => {
            lemma_first_dup_from_some(ms, 0, i, j);
        },
        None => {
            lemma_first_dup_from_none(ms, 0);
        },
    }
}

/// Scans one mode for its first colliding active binding.
fn find_dup_in_mode(m: &crate::model::AppMode) -> (r: Option<usize>)
    ensures
        match r {
            Some(j) => (j as int) < m@.hotkeys.len() && first_dup_in_mode(m@) == Some(j as int),
            None => first_dup_in_mode(m@) is None,
        },
{
    let n = m.hotkeys.len();
    let mut j: usize = 0;
    while j < n
        invariant
            j <= n == m.hotkeys@.len(),
            first_dup_in_mode(m@) == first_dup_in_mode_from(m@, j as int),
        decreases n - j,
    {
        proof {
            assert(m@.hotkeys[j as int] == m.hotkeys@[j as int]@);
        }
        if m.hotkeys[j].action.active {
            let mut i: usize = 0;
            while i < j
                invariant
                    i <= j < m.hotkeys@.len(),
                    m@.hotkeys[j as int].active,
                    first_dup_in_mode(m@) == first_dup_in_mode_from(m@, j as int),
                    forall|k: int|
                        0 <= k < i ==> !((#[trigger] m@.hotkeys[k]).active && same_identity(
                            m@.hotkeys[k],
                            m@.hotkeys[j as int],
                        )),
                decreases j - i,
            {
                proof {
                    assert(m@.hotkeys[i as int] == m.hotkeys@[i as int]@);
                }
                if m.hotkeys[i].action.active && mods_eq(
                    &m.hotkeys[i].modifiers,
                    &m.hotkeys[j].modifiers,
                ) && str_eq(m.hotkeys[i].key.as_str(), m.hotkeys[j].key.as_str()) {
                    proof {
                        assert(same_identity(m@.hotkeys[i as int], m@.hotkeys[j as int]));
                        assert(dup_at(m@, j as int));
                        assert(first_dup_in_mode_from(m@, j as int) == Some(j as int));
                    }
                    return Some(j);
                }
                i = i + 1;
            }
            proof {
                assert(!dup_at(m@, j as int));
                assert(first_dup_in_mode_from(m@, j as int) == first_dup_in_mode_from(
                    m@,
                    j + 1,
                ));
            }
        } else {
            proof {
                assert(!dup_at(m@, j as int));
            }
        }
        j = j + 1;
    }
    None
}

/// Scans the whole configuration, mode by mode and binding by binding, for
/// the first pair of active bindings of one mode that share (modifiers, key);
/// returns the offending combination string, or `None` when every mode is
/// free of duplicates.
pub fn find_duplicate(state: &AppState) -> (r: Option<String>)
    ensures
        match r {
            Some(s) => match first_dup(state@.modes) {
                Some((i, j)) => s@ == combo_of(
                    state@.modes[i].hotkeys[j].mods,
                    state@.modes[i].hotkeys[j].key,
                ),
                None => false,
            },
            None => first_dup(state@.modes) is None,
        },
{
    let n = state.modes.len();
    let mut i: usize = 0;
    while i < n
        invariant
            i <= n == state.modes@.len(),
            first_dup(state@.modes) == first_dup_from(state@.modes, i as int),
        decreases n - i,
    {
        proof {
            assert(state@.modes[i as int] == state.modes@[i as int]@);
        }
        match find_dup_in_mode(&state.modes[i]) {
            Some(j) => {
                proof {
                    assert(first_dup_from(state@.modes, i as int) == Some((i as int, j as int)));
                    assert(state@.modes[i as int].hotkeys[j as int]
                        == state.modes@[i as int].hotkeys@[j as int]@);
                }
                let combo = combo_string(&state.modes[i].hotkeys[j]);
                return Some(combo);
            },
            None => {},
        }
        i = i + 1;
    }
    None
}

/// One file write of a save plan.
#[derive(Debug)]
pub struct FileWrite {
    pub path: String,
    pub content: String,
}

/// Everything a save must do to the filesystem, in order: first the backup
/// copy, if any, then the full write of the target file.
#[derive(Debug)]
pub struct SavePlan {
    pub backup: Option<FileWrite>,
    pub target: FileWrite,
}

/// The suffix the backup file's name appends to the config path.
pub open spec fn bak_suffix() -> Seq<char> {
    seq!['.', 'b', 'a', 'k']
}

/// The sibling path the previous file content is backed up to.
pub fn backup_path(path: &str) -> (r: String)
    ensures
        r@ == path@ + bak_suffix(),
{
    proof {
        reveal_strlit(".bak");
        assert(".bak"@ =~= bak_suffix());
    }
    let mut r = String::from_str(path);
    r.append(".bak");
    r
}

/// The save plan for the daemon's config path: fails with `DuplicateBinding`
/// when any mode holds two active bindings of one identity — in which case
/// nothing may be written — and otherwise backs up the existing content, if
/// any, before the full overwrite.
pub fn prepare_save(state: &AppState, path: &str, existing: Option<String>) -> (r: Result<
    SavePlan,
    ConfigError,
>)
    ensures
        match r {
            Ok(plan) => {
                &&& first_dup(state@.modes) is None
                &&& plan.target.path@ == path@
                &&& plan.target.content@ == encode_spec(state@.modes)
                &&& match existing {
                    Some(c1) => plan.backup matches Some(b) && b.path@ == path@ + bak_suffix()
                        && b.content@ == c1@,
                    None => plan.backup is None,
                }
            },
            Err(e) => {
                &&& match first_dup(state@.modes) {
                    Some((i, j)) => e matches ConfigError::DuplicateBinding(c) && c@ == combo_of(
                        state@.modes[i].hotkeys[j].mods,
                        state@.modes[i].hotkeys[j].key,
                    ),
                    None => false,
                }
            },
        },
{
    match find_duplicate(state) {
        Some(combo) => Err(ConfigError::DuplicateBinding(combo)),
        None => {
            let content = encode_config(state);
            let backup = match existing {
                Some(c1) => Some(FileWrite { path: backup_path(path), content: c1 }),
                None => None,
            };
            Ok(SavePlan { backup, target: FileWrite { path: String::from_str(path), content } })
        },
    }
}

/// The save plan for an explicit "save as" path: duplicate detection still
/// applies, but no backup is taken and no reload is requested.
pub fn prepare_save_as(state: &AppState, path: &str) -> (r: Result<SavePlan, ConfigError>)
    ensures
        match r {
            Ok(plan) => {
                &&& first_dup(state@.modes) is None
                &&& plan.target.path@ == path@
                &&& plan.target.content@ == encode_spec(state@.modes)
                &&& plan.backup is None
            },
            Err(e) => {
                &&& match first_dup(state@.modes) {
                    Some((i, j)) => e matches ConfigError::DuplicateBinding(c) && c@ == combo_of(
                        state@.modes[i].hotkeys[j].mods,
                        state@.modes[i].hotkeys[j].key,
                    ),
                    None => false,
                }
            },
        },
{
    match find_duplicate(state) {
        Some(combo) => Err(ConfigError::DuplicateBinding(combo)),
        None => {
            let content = encode_config(state);
            Ok(
                SavePlan {
                    backup: None,
                    target: FileWrite { path: String::from_str(path), content },
                },
            )
        },
    }
}

/// The daemon's config path under the given home directory.
pub fn config_path_for_home(home: &str) -> (r: String)
    ensures
        r@ == home@ + "/.config/swhkd/swhkdrc"@,
{
    let mut r = String::from_str(home);
    r.append("/.config/swhkd/swhkdrc");
    r
}

} // verus!
