//! The config text codec: parses the daemon's line-oriented config format
//! into modes of bindings and serializes them back.
//!
//! Decoding is a line machine: blank lines and `#` comments are skipped, a
//! line starting `@` opens a new named mode (flushing the one before), a
//! non-indented line is a combination header, and the next indented line is
//! its command; a header with no command is discarded. Encoding writes each
//! active binding as a header line, an indented command line and a blank
//! line, under an `@` header unless the mode is named `default` in any case.

use vstd::prelude::*;

use crate::model::AppMode;
use crate::model::AppState;
use crate::model::GuiAction;
use crate::model::GuiHotkey;
use crate::model::HotkeyV;
use crate::model::ModeV;
use crate::model::collect_mods;
use crate::model::default_mode_name;
use crate::model::mods_from;
use crate::text::join_spec;
use crate::text::lower_seq;
use crate::text::seq_views;
use crate::text::split_on;
use crate::text::split_spec;
use crate::text::starts_with_char;
use crate::text::to_lower;
use crate::text::trim;
use crate::text::trim_end;
use crate::text::trim_spec;
use crate::text::trim_end_spec;

verus! {

/// The segments of a combination header: split on `+`, trimmed, lowercased.
pub open spec fn combo_parts(line: Seq<char>) -> Seq<Seq<char>> {
    split_spec(line, '+').map_values(|p: Seq<char>| lower_seq(trim_spec(p)))
}

/// The binding a combination header and its command line parse into: every
/// segment but the last is a modifier (empty ones dropped), the last is the
/// key; a parsed binding is always active.
pub open spec fn parse_binding(line: Seq<char>, cmd: Seq<char>) -> HotkeyV {
    let parts = combo_parts(line);
    HotkeyV {
        mods: mods_from(parts.drop_last(), true),
        key: parts.last(),
        command: cmd,
        active: true,
        layer_id: 0,
    }
}

/// One step short of the whole decoder: the modes decoded from `lines[i..]`
/// starting from an accumulated mode (`name`, `hks`), earlier `modes`, and a
/// combination header still awaiting its command (`pending`). At the end the
/// accumulated mode is kept only if it has bindings or nothing was produced
/// yet, so a file without any `@` header still yields one mode.
pub open spec fn decode_from(
    lines: Seq<Seq<char>>,
    i: int,
    pending: Option<Seq<char>>,
    name: Seq<char>,
    hks: Seq<HotkeyV>,
    modes: Seq<ModeV>,
) -> Seq<ModeV>
    decreases lines.len() - i,
{
    if i < 0 || i >= lines.len() {
        if hks.len() > 0 || modes.len() == 0 {
            modes.push(ModeV { name, hotkeys: hks })
        } else {
            modes
        }
    } else {
        let l = trim_end_spec(lines[i]);
        if l.len() == 0 || l[0] == '#' {
            decode_from(lines, i + 1, pending, name, hks, modes)
        } else if l[0] == '@' {
            let nm = trim_spec(l.subrange(1, l.len() as int));
            if hks.len() > 0 || modes.len() > 0 {
                decode_from(
                    lines,
                    i + 1,
                    None,
                    nm,
                    Seq::empty(),
                    modes.push(ModeV { name, hotkeys: hks }),
                )
            } else {
                decode_from(lines, i + 1, None, nm, hks, modes)
            }
        } else if l[0] == ' ' || l[0] == '\t' {
            match pending {
                Some(combo) => decode_from(
                    lines,
                    i + 1,
                    None,
                    name,
                    hks.push(parse_binding(combo, trim_spec(l))),
                    modes,
                ),
                None => decode_from(lines, i + 1, None, name, hks, modes),
            }
        } else {
            decode_from(lines, i + 1, Some(l), name, hks, modes)
        }
    }
}

/// The modes a sequence of raw lines decodes into.
pub open spec fn decode_lines_spec(lines: Seq<Seq<char>>) -> Seq<ModeV> {
    decode_from(lines, 0, None, default_mode_name(), Seq::empty(), Seq::empty())
}

/// The modes a whole config text decodes into.
pub open spec fn decode_spec(text: Seq<char>) -> Seq<ModeV> {
    decode_lines_spec(split_spec(text, '\n'))
}

/// Splits a combination header on `+`, trimming and lowercasing each segment.
fn combo_parts_exec(line: &str) -> (r: Vec<String>)
    ensures
        seq_views(r@) == combo_parts(line@),
        r@.len() >= 1,
{
    let raw = split_on(line, '+');
    let mut r: Vec<String> = Vec::new();
    let mut i: usize = 0;
    while i < raw.len()
        invariant
            i <= raw@.len(),
            r@.len() == i,
            forall|j: int|
                0 <= j < i ==> (#[trigger] r@[j])@ == lower_seq(trim_spec(raw@[j]@)),
        decreases raw@.len() - i,
    {
        let t = trim(raw[i].as_str());
        r.push(to_lower(t.as_str()));
        i = i + 1;
    }
    proof {
        assert(seq_views(r@) =~~= combo_parts(line@));
    }
    r
}

/// Parses a combination header and its command line into a binding.
fn parse_binding_exec(line: &str, cmd: String) -> (hk: GuiHotkey)
    ensures
        hk@ == parse_binding(line@, cmd@),
        hk@.wf(),
{
    let parts = combo_parts_exec(line);
    let n = parts.len();
    let mods = collect_mods(&parts, n - 1, true);
    let key = parts[n - 1].clone();
    let hk = GuiHotkey {
        modifiers: mods,
        key,
        action: GuiAction { command: cmd, active: true, layer_id: 0 },
    };
    proof {
        assert(seq_views(parts@).subrange(0, n - 1) =~= combo_parts(line@).drop_last());
        assert(hk@ =~~= parse_binding(line@, cmd@));
    }
    hk
}

/// Decodes a whole config text into modes. Decoding never fails: unparsable
/// lines are skipped as the format prescribes.
pub fn decode_config(text: &str) -> (modes: Vec<AppMode>)
    ensures
        modes@.map_values(|m: AppMode| m@) == decode_spec(text@),
        modes@.len() >= 1,
        forall|i: int| 0 <= i < modes@.len() ==> (#[trigger] modes@[i]@).wf(),
{
    let lines = split_on(text, '\n');
    let ghost lv = seq_views(lines@);
    let mut modes: Vec<AppMode> = Vec::new();
    proof {
        reveal_strlit("Default");
        assert("Default"@ =~= default_mode_name());
    }
    let mut name = String::from_str("Default");
    let mut hks: Vec<GuiHotkey> = Vec::new();
    let mut pending: Option<String> = None;
    let mut i: usize = 0;
    proof {
        assert(hks@.map_values(|h: GuiHotkey| h@) =~= Seq::<HotkeyV>::empty());
        assert(modes@.map_values(|m: AppMode| m@) =~= Seq::<ModeV>::empty());
    }
    while i < lines.len()
        invariant
            i <= lines@.len(),
            lv == seq_views(lines@),
            decode_from(
                lv,
                i as int,
                match pending {
                    Some(ref p) => Some(p@),
                    None => None,
                },
                name@,
                hks@.map_values(|h: GuiHotkey| h@),
                modes@.map_values(|m: AppMode| m@),
            ) == decode_spec(text@),
            forall|j: int| 0 <= j < hks@.len() ==> (#[trigger] hks@[j]@).wf(),
            forall|j: int| 0 <= j < modes@.len() ==> (#[trigger] modes@[j]@).wf(),
        decreases lines@.len() - i,
    {
        let ghost hv0 = hks@.map_values(|h: GuiHotkey| h@);
        let ghost mv0 = modes@.map_values(|m: AppMode| m@);
        let l = trim_end(lines[i].as_str());
        let n = l.as_str().unicode_len();
        proof {
            assert(lv[i as int] == lines@[i as int]@);
        }
        if n == 0 || starts_with_char(l.as_str(), '#') {
            // comment or blank: skipped
        } else if starts_with_char(l.as_str(), '@') {
            let rest = l.as_str().substring_char(1, n);
            let nm = trim(rest);
            if hks.len() > 0 || modes.len() > 0 {
                let ghost nm0 = name@;
                let done = AppMode { name, hotkeys: hks };
                modes.push(done);
                name = nm;
                hks = Vec::new();
                proof {
                    assert(modes@.map_values(|m: AppMode| m@) =~= mv0.push(
                        ModeV { name: nm0, hotkeys: hv0 },
                    ));
                    assert(hks@.map_values(|h: GuiHotkey| h@) =~= Seq::<HotkeyV>::empty());
                }
            } else {
                name = nm;
            }
            pending = None;
        } else if starts_with_char(l.as_str(), ' ') || starts_with_char(l.as_str(), '\t') {
            let prev = pending;
            pending = None;
            match prev {
                Some(combo) => {
                    let hk = parse_binding_exec(combo.as_str(), trim(l.as_str()));
                    hks.push(hk);
                    proof {
                        assert(hks@.map_values(|h: GuiHotkey| h@) =~= hv0.push(hk@));
                    }
                },
                None => {},
            }
        } else {
            pending = Some(l);
        }
        i = i + 1;
    }
    if hks.len() > 0 || modes.len() == 0 {
        let done = AppMode { name, hotkeys: hks };
        let ghost mv0 = modes@.map_values(|m: AppMode| m@);
        let ghost hv0 = done@.hotkeys;
        modes.push(done);
        proof {
            assert(modes@.map_values(|m: AppMode| m@) =~= mv0.push(
                ModeV { name: done.name@, hotkeys: hv0 },
            ));
        }
    }
    modes
}

/// The separator written between modifiers and before the key.
pub open spec fn sep_plus() -> Seq<char> {
    seq![' ', '+', ' ']
}

/// The lowercase spelling of the implicit mode's name.
pub open spec fn default_lower() -> Seq<char> {
    seq!['d', 'e', 'f', 'a', 'u', 'l', 't']
}

/// The combination line of a binding: modifiers then key, joined by ` + `;
/// with no modifiers the line is just the key.
pub open spec fn combo_of(mods: Seq<Seq<char>>, key: Seq<char>) -> Seq<char> {
    join_spec(mods.push(key), sep_plus())
}

/// The lines one binding serializes to: the combination, the command
/// indented by four spaces, and a blank line. Inactive bindings are dropped.
pub open spec fn binding_lines(h: HotkeyV) -> Seq<Seq<char>> {
    if h.active {
        seq![combo_of(h.mods, h.key), seq![' ', ' ', ' ', ' '] + h.command, Seq::<char>::empty()]
    } else {
        Seq::empty()
    }
}

/// The header lines of a mode: none when the name lowercases to `default`.
pub open spec fn mode_header_lines(name: Seq<char>) -> Seq<Seq<char>> {
    if lower_seq(name) == default_lower() {
        Seq::empty()
    } else {
        seq![seq!['@'] + name, Seq::<char>::empty()]
    }
}

/// The binding lines of a whole mode, in order.
pub open spec fn bindings_lines(hks: Seq<HotkeyV>) -> Seq<Seq<char>>
    decreases hks.len(),
{
    if hks.len() == 0 {
        Seq::empty()
    } else {
        bindings_lines(hks.drop_last()) + binding_lines(hks.last())
    }
}

/// The lines of one mode block: header, bindings, and a separating blank line.
pub open spec fn mode_lines(m: ModeV) -> Seq<Seq<char>> {
    mode_header_lines(m.name) + bindings_lines(m.hotkeys) + seq![Seq::<char>::empty()]
}

/// The lines of the whole config, mode blocks in order.
pub open spec fn encode_lines_spec(ms: Seq<ModeV>) -> Seq<Seq<char>>
    decreases ms.len(),
{
    if ms.len() == 0 {
        Seq::empty()
    } else {
        encode_lines_spec(ms.drop_last()) + mode_lines(ms.last())
    }
}

/// Lines flattened to text, each followed by one newline.
pub open spec fn unlines(lines: Seq<Seq<char>>) -> Seq<char>
    decreases lines.len(),
{
    if lines.len() == 0 {
        Seq::empty()
    } else {
        unlines(lines.drop_last()) + lines.last() + seq!['\n']
    }
}

/// The full text a sequence of modes serializes to.
pub open spec fn encode_spec(ms: Seq<ModeV>) -> Seq<char> {
    unlines(encode_lines_spec(ms))
}

/// Flattening distributes over concatenation of line sequences.
pub proof fn lemma_unlines_concat(a: Seq<Seq<char>>, b: Seq<Seq<char>>)
    ensures
        unlines(a + b) == unlines(a) + unlines(b),
    decreases b.len(),
{
    if b.len() == 0 {
        assert(a + b =~= a);
        assert(unlines(a) + unlines(b) =~= unlines(a));
    } else {
        lemma_unlines_concat(a, b.drop_last());
        assert((a + b).drop_last() =~= a + b.drop_last());
        assert((a + b).last() == b.last());
        assert(unlines(a + b) =~= unlines(a) + unlines(b));
    }
}

/// Flattening a single line appends one newline.
pub proof fn lemma_unlines_one(l: Seq<char>)
    ensures
        unlines(seq![l]) == l + seq!['\n'],
{
    assert(seq![l].drop_last() =~= Seq::<Seq<char>>::empty());
    assert(seq![l].last() == l);
    assert(unlines(Seq::<Seq<char>>::empty()) =~= Seq::<char>::empty());
    assert(unlines(seq![l]) =~= l + seq!['\n']);
}

/// Flattening two lines.
pub proof fn lemma_unlines_two(a: Seq<char>, b: Seq<char>)
    ensures
        unlines(seq![a, b]) == a + seq!['\n'] + b + seq!['\n'],
{
    assert(seq![a, b] =~= seq![a] + seq![b]);
    lemma_unlines_concat(seq![a], seq![b]);
    lemma_unlines_one(a);
    lemma_unlines_one(b);
    assert(unlines(seq![a, b]) =~= a + seq!['\n'] + b + seq!['\n']);
}

/// Flattening three lines.
pub proof fn lemma_unlines_three(a: Seq<char>, b: Seq<char>, c: Seq<char>)
    ensures
        unlines(seq![a, b, c]) == a + seq!['\n'] + b + seq!['\n'] + c + seq!['\n'],
{
    assert(seq![a, b, c] =~= seq![a, b] + seq![c]);
    lemma_unlines_concat(seq![a, b], seq![c]);
    lemma_unlines_two(a, b);
    lemma_unlines_one(c);
    assert(unlines(seq![a, b, c]) =~= a + seq!['\n'] + b + seq!['\n'] + c + seq!['\n']);
}

/// The combination string of a binding, as serialization and the duplicate
/// error message both spell it.
pub fn combo_string(hk: &GuiHotkey) -> (r: String)
    ensures
        r@ == combo_of(hk@.mods, hk@.key),
{
    let mut parts: Vec<String> = Vec::new();
    let mut i: usize = 0;
    while i < hk.modifiers.len()
        invariant
            i <= hk.modifiers@.len(),
            parts@.len() == i,
            forall|j: int| 0 <= j < i ==> (#[trigger] parts@[j])@ == hk.modifiers@[j]@,
        decreases hk.modifiers@.len() - i,
    {
        parts.push(hk.modifiers[i].clone());
        i = i + 1;
    }
    parts.push(hk.key.clone());
    proof {
        assert(seq_views(parts@) =~= hk@.mods.push(hk@.key));
        reveal_strlit(" + ");
        assert(" + "@ =~= sep_plus());
    }
    crate::text::join_with(&parts, " + ")
}

/// Serializes the modes to the daemon's config text: only active bindings
/// are written, modifiers sorted and joined with ` + `, commands indented by
/// four spaces, each mode under its `@` header unless named `default` in any
/// casing, and one blank line between blocks.
pub fn encode_config(state: &AppState) -> (r: String)
    ensures
        r@ == encode_spec(state@.modes),
{
    let ghost msv = state@.modes;
    let mut out = String::new();
    let mut i: usize = 0;
    proof {
        assert(msv.subrange(0, 0) =~= Seq::<ModeV>::empty());
    }
    while i < state.modes.len()
        invariant
            i <= state.modes@.len(),
            msv == state@.modes,
            out@ == unlines(encode_lines_spec(msv.subrange(0, i as int))),
        decreases state.modes@.len() - i,
    {
        let ghost done = encode_lines_spec(msv.subrange(0, i as int));
        let ghost mv = msv[i as int];
        let mode = &state.modes[i];
        proof {
            assert(mode@ == mv);
            reveal_strlit("default");
            assert("default"@ =~= default_lower());
        }
        let low = to_lower(mode.name.as_str());
        if !crate::text::str_eq(low.as_str(), "default") {
            out.append("@");
            out.append(mode.name.as_str());
            out.append("\n");
            out.append("\n");
            proof {
                reveal_strlit("@");
                reveal_strlit("\n");
                lemma_unlines_two(seq!['@'] + mv.name, Seq::empty());
                assert(unlines(mode_header_lines(mv.name)) =~= seq!['@'] + mv.name + seq!['\n']
                    + seq!['\n']);
                lemma_unlines_concat(done, mode_header_lines(mv.name));
                assert(out@ =~= unlines(done + mode_header_lines(mv.name)));
            }
        } else {
            proof {
                assert(mode_header_lines(mv.name) =~= Seq::<Seq<char>>::empty());
                assert(done + mode_header_lines(mv.name) =~= done);
            }
        }
        let ghost done2 = done + mode_header_lines(mv.name);
        let mut j: usize = 0;
        proof {
            assert(mv.hotkeys.subrange(0, 0) =~= Seq::<HotkeyV>::empty());
            assert(done2 + bindings_lines(mv.hotkeys.subrange(0, 0)) =~= done2);
        }
        while j < mode.hotkeys.len()
            invariant
                j <= mode.hotkeys@.len(),
                mode@ == mv,
                mv == msv[i as int],
                out@ == unlines(done2 + bindings_lines(mv.hotkeys.subrange(0, j as int))),
            decreases mode.hotkeys@.len() - j,
        {
            let ghost hdone = done2 + bindings_lines(mv.hotkeys.subrange(0, j as int));
            let hk = &mode.hotkeys[j];
            proof {
                assert(hk@ == mv.hotkeys[j as int]);
                assert(mv.hotkeys.subrange(0, j + 1).drop_last() =~= mv.hotkeys.subrange(
                    0,
                    j as int,
                ));
                assert(mv.hotkeys.subrange(0, j + 1).last() == mv.hotkeys[j as int]);
            }
            if hk.action.active {
                let combo = combo_string(hk);
                out.append(combo.as_str());
                out.append("\n");
                out.append("    ");
                out.append(hk.action.command.as_str());
                out.append("\n");
                out.append("\n");
                proof {
                    reveal_strlit("\n");
                    reveal_strlit("    ");
                    assert("    "@ =~= seq![' ', ' ', ' ', ' ']);
                    lemma_unlines_concat(hdone, binding_lines(hk@));
                    lemma_unlines_three(
                        combo_of(hk@.mods, hk@.key),
                        seq![' ', ' ', ' ', ' '] + hk@.command,
                        Seq::empty(),
                    );
                    assert(unlines(binding_lines(hk@)) =~= combo_of(hk@.mods, hk@.key)
                        + seq!['\n'] + (seq![' ', ' ', ' ', ' '] + hk@.command) + seq!['\n']
                        + seq!['\n']);
                    assert(out@ =~= unlines(hdone + binding_lines(hk@)));
                    assert(hdone + binding_lines(hk@) =~= done2 + bindings_lines(
                        mv.hotkeys.subrange(0, j + 1),
                    ));
                }
            } else {
                proof {
                    assert(hdone + binding_lines(hk@) =~= hdone);
                    assert(hdone =~= done2 + bindings_lines(mv.hotkeys.subrange(0, j + 1)));
                }
            }
            j = j + 1;
        }
        out.append("\n");
        proof {
            reveal_strlit("\n");
            assert(mv.hotkeys.subrange(0, mode.hotkeys@.len() as int) =~= mv.hotkeys);
            let all = done2 + bindings_lines(mv.hotkeys);
            lemma_unlines_concat(all, seq![Seq::<char>::empty()]);
            lemma_unlines_one(Seq::empty());
            assert(unlines(seq![Seq::<char>::empty()]) =~= seq!['\n']);
            assert(out@ =~= unlines(all + seq![Seq::<char>::empty()]));
            assert(all + seq![Seq::<char>::empty()] =~= done + mode_lines(mv));
            assert(msv.subrange(0, i + 1).drop_last() =~= msv.subrange(0, i as int));
            assert(msv.subrange(0, i + 1).last() == mv);
            assert(done + mode_lines(mv) =~= encode_lines_spec(msv.subrange(0, i + 1)));
        }
        i = i + 1;
    }
    proof {
        assert(msv.subrange(0, i as int) =~= msv);
    }
    out
}

/// One step short of the flat decoder, which ignores `@` mode headers — an
/// `@` line only discards a header still awaiting its command — and gathers
/// every binding into one sequence.
pub open spec fn decode_flat_from(
    lines: Seq<Seq<char>>,
    i: int,
    pending: Option<Seq<char>>,
    hks: Seq<HotkeyV>,
) -> Seq<HotkeyV>
    decreases lines.len() - i,
{
    if i < 0 || i >= lines.len() {
        hks
    } else {
        let l = trim_end_spec(lines[i]);
        if l.len() == 0 || l[0] == '#' {
            decode_flat_from(lines, i + 1, pending, hks)
        } else if l[0] == '@' {
            decode_flat_from(lines, i + 1, None, hks)
        } else if l[0] == ' ' || l[0] == '\t' {
            match pending {
                Some(combo) => decode_flat_from(
                    lines,
                    i + 1,
                    None,
                    hks.push(parse_binding(combo, trim_spec(l))),
                ),
                None => decode_flat_from(lines, i + 1, None, hks),
            }
        } else {
            decode_flat_from(lines, i + 1, Some(l), hks)
        }
    }
}

/// The bindings a config text yields when mode headers are ignored.
pub open spec fn decode_flat_spec(text: Seq<char>) -> Seq<HotkeyV> {
    decode_flat_from(split_spec(text, '\n'), 0, None, Seq::empty())
}

/// Decodes a config text ignoring mode grouping: every binding of the file,
/// whatever mode block it stands in, in file order.
pub fn decode_config_flat(text: &str) -> (hotkeys: Vec<GuiHotkey>)
    ensures
        hotkeys@.map_values(|h: GuiHotkey| h@) == decode_flat_spec(text@),
        forall|i: int| 0 <= i < hotkeys@.len() ==> (#[trigger] hotkeys@[i]@).wf(),
{
    let lines = split_on(text, '\n');
    let ghost lv = seq_views(lines@);
    let mut hks: Vec<GuiHotkey> = Vec::new();
    let mut pending: Option<String> = None;
    let mut i: usize = 0;
    proof {
        assert(hks@.map_values(|h: GuiHotkey| h@) =~= Seq::<HotkeyV>::empty());
    }
    while i < lines.len()
        invariant
            i <= lines@.len(),
            lv == seq_views(lines@),
            decode_flat_from(
                lv,
                i as int,
                match pending {
                    Some(ref p) => Some(p@),
                    None => None,
                },
                hks@.map_values(|h: GuiHotkey| h@),
            ) == decode_flat_spec(text@),
            forall|j: int| 0 <= j < hks@.len() ==> (#[trigger] hks@[j]@).wf(),
        decreases lines@.len() - i,
    {
        let ghost hv0 = hks@.map_values(|h: GuiHotkey| h@);
        let l = trim_end(lines[i].as_str());
        let n = l.as_str().unicode_len();
        proof {
            assert(lv[i as int] == lines@[i as int]@);
        }
        if n == 0 || starts_with_char(l.as_str(), '#') {
            // comment or blank: skipped
        } else if starts_with_char(l.as_str(), '@') {
            pending = None;
        } else if starts_with_char(l.as_str(), ' ') || starts_with_char(l.as_str(), '\t') {
            let prev = pending;
            pending = None;
            match prev {
                Some(combo) => {
                    let hk = parse_binding_exec(combo.as_str(), trim(l.as_str()));
                    hks.push(hk);
                    proof {
                        assert(hks@.map_values(|h: GuiHotkey| h@) =~= hv0.push(hk@));
                    }
                },
                None => {},
            }
        } else {
            pending = Some(l);
        }
        i = i + 1;
    }
    hks
}

impl AppState {
    /// Replaces the whole configuration with the single `Default` mode the
    /// flat decode of `text` yields, as loading from the daemon's default
    /// path does in the variant that ignores mode headers.
    pub fn load_from_flat_text(&mut self, text: &str)
        ensures
            final(self)@.modes == seq![
                ModeV { name: default_mode_name(), hotkeys: decode_flat_spec(text@) },
            ],
            final(self)@.selected_mode == 0,
            final(self)@.recording_hotkey is None,
            final(self)@.last_backup == old(self)@.last_backup,
            final(self)@.wf(),
    {
        let hotkeys = decode_config_flat(text);
        proof {
            reveal_strlit("Default");
            assert("Default"@ =~= default_mode_name());
        }
        let mut modes: Vec<AppMode> = Vec::new();
        modes.push(AppMode { name: String::from_str("Default"), hotkeys });
        self.modes = modes;
        self.selected_mode = 0;
        self.recording_hotkey = None;
        proof {
            assert(self@.modes =~= seq![
                ModeV { name: default_mode_name(), hotkeys: decode_flat_spec(text@) },
            ]);
        }
    }

    /// Replaces the whole configuration with the modes decoded from `text`
    /// and selects the first mode, as loading the daemon's config file does.
    pub fn load_from_text(&mut self, text: &str)
        ensures
            final(self)@.modes == decode_spec(text@),
            final(self)@.selected_mode == 0,
            final(self)@.recording_hotkey is None,
            final(self)@.last_backup == old(self)@.last_backup,
            final(self)@.wf(),
    {
        let modes = decode_config(text);
        self.modes = modes;
        self.selected_mode = 0;
        self.recording_hotkey = None;
    }
}

} // verus!
