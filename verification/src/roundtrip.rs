//! Laws of the config text codec.
//!
//! The central one: decoding the text a configuration encodes to yields the
//! same modes — names, bindings by (modifiers, key) identity, commands and
//! active flags — for every configuration the format can carry: only active
//! bindings, at least one per mode, names and atoms free of the format's own
//! delimiters, and the implicit `Default` mode only in first position.
//! Alongside it: encoding ignores inactive bindings, everything decoding
//! produces is active, and only modes not named `default` emit a header.

use vstd::prelude::*;

use crate::codec::binding_lines;
use crate::codec::bindings_lines;
use crate::codec::combo_of;
use crate::codec::combo_parts;
use crate::codec::decode_from;
use crate::codec::decode_spec;
use crate::codec::default_lower;
use crate::codec::encode_lines_spec;
use crate::codec::encode_spec;
use crate::codec::lemma_unlines_concat;
use crate::codec::lemma_unlines_one;
use crate::codec::mode_header_lines;
use crate::codec::mode_lines;
use crate::codec::parse_binding;
use crate::codec::sep_plus;
use crate::codec::unlines;
use crate::model::HotkeyV;
use crate::model::ModeV;
use crate::model::default_mode_name;
use crate::model::lemma_insert_sorted_at;
use crate::model::mods_from;
use crate::model::mods_wf;
use crate::text::is_ws;
use crate::text::join_spec;
use crate::text::lemma_join_first;
use crate::text::lemma_join_last;
use crate::text::lemma_join_no_char;
use crate::text::lemma_split_nosep;
use crate::text::lemma_split_sep;
use crate::text::lemma_trim_end_at;
use crate::text::lemma_trim_start_at;
use crate::text::lower_seq;
use crate::text::split_spec;
use crate::text::trim_end_spec;
use crate::text::trim_spec;

verus! {

/// A modifier or key the codec reproduces exactly: nonempty, no surrounding
/// whitespace, already lowercase, free of the separator and of line breaks.
pub open spec fn clean_atom(s: Seq<char>) -> bool {
    &&& s.len() > 0
    &&& !is_ws(s[0])
    &&& !is_ws(s[s.len() - 1])
    &&& lower_seq(s) == s
    &&& forall|k: int| 0 <= k < s.len() ==> s[k] != '+' && s[k] != '\n'
}

/// A command the codec reproduces exactly: nonempty, no surrounding
/// whitespace, no line breaks.
pub open spec fn clean_command(s: Seq<char>) -> bool {
    &&& s.len() > 0
    &&& !is_ws(s[0])
    &&& !is_ws(s[s.len() - 1])
    &&& forall|k: int| 0 <= k < s.len() ==> s[k] != '\n'
}

/// A mode name the codec reproduces exactly after its `@` header.
pub open spec fn clean_name(s: Seq<char>) -> bool {
    &&& (s.len() == 0 || (!is_ws(s[0]) && !is_ws(s[s.len() - 1])))
    &&& forall|k: int| 0 <= k < s.len() ==> s[k] != '\n'
}

/// A binding the codec reproduces exactly: active, with a sorted clean
/// modifier set, a clean key, a clean command, and a combination line that
/// cannot be mistaken for a comment or a mode header.
pub open spec fn binding_rt(h: HotkeyV) -> bool {
    &&& h.active
    &&& mods_wf(h.mods)
    &&& forall|i: int| 0 <= i < h.mods.len() ==> clean_atom(#[trigger] h.mods[i])
    &&& clean_atom(h.key)
    &&& (if h.mods.len() > 0 {
        h.mods[0][0] != '@' && h.mods[0][0] != '#'
    } else {
        h.key[0] != '@' && h.key[0] != '#'
    })
    &&& clean_command(h.command)
}

/// A mode the codec reproduces exactly: at least one binding, all of them
/// reproducible, a clean name; a name that lowercases to `default` is allowed
/// only for the first mode, and then spelled exactly `Default`, since decoding
/// spells the implicit mode that way.
pub open spec fn mode_rt(m: ModeV, first: bool) -> bool {
    &&& m.hotkeys.len() >= 1
    &&& forall|j: int| 0 <= j < m.hotkeys.len() ==> binding_rt(#[trigger] m.hotkeys[j])
    &&& clean_name(m.name)
    &&& (lower_seq(m.name) == default_lower() ==> first && m.name == default_mode_name())
}

/// A configuration the text format carries without loss.
pub open spec fn round_trippable(ms: Seq<ModeV>) -> bool {
    ms.len() >= 1 && forall|i: int| 0 <= i < ms.len() ==> mode_rt(#[trigger] ms[i], i == 0)
}

/// A binding as decoding reconstructs it: the layer, which the text format
/// does not carry, reset to zero.
pub open spec fn zero_layer(h: HotkeyV) -> HotkeyV {
    HotkeyV { layer_id: 0, ..h }
}

/// A mode as decoding reconstructs it.
pub open spec fn zero_layers_mode(m: ModeV) -> ModeV {
    ModeV { name: m.name, hotkeys: m.hotkeys.map_values(|h: HotkeyV| zero_layer(h)) }
}

/// A configuration as decoding reconstructs it.
pub open spec fn zero_layers(ms: Seq<ModeV>) -> Seq<ModeV> {
    ms.map_values(|m: ModeV| zero_layers_mode(m))
}

/// Trimming the end of a sequence with no trailing whitespace changes nothing.
proof fn lemma_trim_end_noop(s: Seq<char>)
    requires
        s.len() == 0 || !is_ws(s[s.len() - 1]),
    ensures
        trim_end_spec(s) == s,
{
    lemma_trim_end_at(s, s.len() as int);
    assert(s.subrange(0, s.len() as int) =~= s);
}

/// Trimming a sequence with no surrounding whitespace changes nothing.
proof fn lemma_trim_noop(s: Seq<char>)
    requires
        s.len() == 0 || (!is_ws(s[0]) && !is_ws(s[s.len() - 1])),
    ensures
        trim_spec(s) == s,
{
    lemma_trim_end_noop(s);
    lemma_trim_start_at(s, 0);
    assert(s.subrange(0, s.len() as int) =~= s);
}

/// Trimming strips exactly the padding around a clean atom.
proof fn lemma_trim_pad(x: Seq<char>, lead: bool, trail: bool)
    requires
        x.len() > 0,
        !is_ws(x[0]),
        !is_ws(x[x.len() - 1]),
    ensures
        lead && trail ==> trim_spec(seq![' '] + x + seq![' ']) == x,
        lead && !trail ==> trim_spec(seq![' '] + x) == x,
        !lead && trail ==> trim_spec(x + seq![' ']) == x,
        !lead && !trail ==> trim_spec(x) == x,
{
    if lead && trail {
        let s = seq![' '] + x + seq![' '];
        lemma_trim_end_at(s, s.len() - 1);
        assert(s.subrange(0, s.len() - 1) =~= seq![' '] + x);
        lemma_trim_start_at(seq![' '] + x, 1);
        assert((seq![' '] + x).subrange(1, x.len() as int + 1) =~= x);
    } else if lead {
        let s = seq![' '] + x;
        lemma_trim_end_noop(s);
        lemma_trim_start_at(s, 1);
        assert(s.subrange(1, s.len() as int) =~= x);
    } else if trail {
        let s = x + seq![' '];
        lemma_trim_end_at(s, x.len() as int);
        assert(s.subrange(0, x.len() as int) =~= x);
        lemma_trim_start_at(x, 0);
        assert(x.subrange(0, x.len() as int) =~= x);
    } else {
        lemma_trim_noop(x);
    }
}

/// Lowercasing a clean atom padded with spaces and then trimming gives it back.
proof fn lemma_segment_restores(x: Seq<char>, lead: bool, trail: bool)
    requires
        clean_atom(x),
    ensures
        lead && trail ==> lower_seq(trim_spec(seq![' '] + x + seq![' '])) == x,
        lead && !trail ==> lower_seq(trim_spec(seq![' '] + x)) == x,
        !lead && trail ==> lower_seq(trim_spec(x + seq![' '])) == x,
        !lead && !trail ==> lower_seq(trim_spec(x)) == x,
{
    lemma_trim_pad(x, lead, trail);
}

/// Splitting a ` + ` join of clean atoms on `+` and normalizing each segment
/// restores the atoms, with or without one leading space before the join.
proof fn lemma_combo_parts_join(parts: Seq<Seq<char>>)
    requires
        parts.len() >= 1,
        forall|i: int| 0 <= i < parts.len() ==> clean_atom(#[trigger] parts[i]),
    ensures
        combo_parts(join_spec(parts, sep_plus())) == parts,
        combo_parts(seq![' '] + join_spec(parts, sep_plus())) == parts,
    decreases parts.len(),
{
    let f = |p: Seq<char>| lower_seq(trim_spec(p));
    if parts.len() == 1 {
        let p0 = parts[0];
        lemma_split_nosep(p0, '+');
        lemma_segment_restores(p0, false, false);
        assert(combo_parts(p0) =~~= parts);
        let s = seq![' '] + p0;
        assert forall|k: int| 0 <= k < s.len() implies s[k] != '+' by {
            if k > 0 {
                assert(s[k] == p0[k - 1]);
            }
        }
        lemma_split_nosep(s, '+');
        lemma_segment_restores(p0, true, false);
        assert(combo_parts(s) =~~= parts);
    } else {
        let p0 = parts[0];
        let rest = parts.drop_first();
        assert forall|i: int| 0 <= i < rest.len() implies clean_atom(#[trigger] rest[i]) by {
            assert(rest[i] == parts[i + 1]);
        }
        lemma_combo_parts_join(rest);
        let jr = join_spec(rest, sep_plus());
        let j = join_spec(parts, sep_plus());
        assert(j == p0 + sep_plus() + jr);
        let x = p0 + seq![' '];
        assert forall|k: int| 0 <= k < x.len() implies x[k] != '+' by {
            if k < p0.len() {
                assert(x[k] == p0[k]);
            }
        }
        assert(j =~= x + seq!['+'] + (seq![' '] + jr));
        lemma_split_sep(x, seq![' '] + jr, '+');
        lemma_segment_restores(p0, false, true);
        assert(split_spec(j, '+').map_values(f) =~~= seq![p0].map_values(f) + split_spec(
            seq![' '] + jr,
            '+',
        ).map_values(f));
        assert(combo_parts(j) =~~= parts);
        let x2 = seq![' '] + p0 + seq![' '];
        assert forall|k: int| 0 <= k < x2.len() implies x2[k] != '+' by {
            if 0 < k < p0.len() + 1 {
                assert(x2[k] == p0[k - 1]);
            }
        }
        assert(seq![' '] + j =~= x2 + seq!['+'] + (seq![' '] + jr));
        lemma_split_sep(x2, seq![' '] + jr, '+');
        lemma_segment_restores(p0, true, true);
        assert(combo_parts(seq![' '] + j) =~~= parts);
    }
}

/// Collecting a sorted clean modifier set rebuilds it unchanged.
proof fn lemma_mods_from_sorted(ms: Seq<Seq<char>>)
    requires
        mods_wf(ms),
        forall|i: int| 0 <= i < ms.len() ==> (#[trigger] ms[i]).len() > 0,
    ensures
        mods_from(ms, true) == ms,
    decreases ms.len(),
{
    if ms.len() == 0 {
        assert(mods_from(ms, true) =~~= ms);
    } else {
        let pre = ms.drop_last();
        assert forall|i: int, j: int| 0 <= i < j < pre.len() implies crate::text::lex_lt(
            pre[i],
            pre[j],
        ) by {
            assert(pre[i] == ms[i] && pre[j] == ms[j]);
        }
        assert forall|i: int| 0 <= i < pre.len() implies (#[trigger] pre[i]).len() > 0 by {
            assert(pre[i] == ms[i]);
        }
        lemma_mods_from_sorted(pre);
        assert forall|j: int| 0 <= j < pre.len() implies crate::text::lex_lt(
            #[trigger] pre[j],
            ms.last(),
        ) by {
            assert(pre[j] == ms[j]);
        }
        lemma_insert_sorted_at(pre, ms.last(), pre.len() as int);
        assert(pre.subrange(0, pre.len() as int) + seq![ms.last()] + pre.subrange(
            pre.len() as int,
            pre.len() as int,
        ) =~~= ms);
    }
}

/// Parsing back the lines a binding serializes to restores the binding.
proof fn lemma_parse_binding_inverse(h: HotkeyV)
    requires
        binding_rt(h),
    ensures
        parse_binding(combo_of(h.mods, h.key), h.command) == zero_layer(h),
{
    let parts = h.mods.push(h.key);
    assert forall|i: int| 0 <= i < parts.len() implies clean_atom(#[trigger] parts[i]) by {
        if i < h.mods.len() {
            assert(parts[i] == h.mods[i]);
        }
    }
    lemma_combo_parts_join(parts);
    assert(combo_parts(combo_of(h.mods, h.key)) == parts);
    assert(parts.drop_last() =~= h.mods);
    assert forall|i: int| 0 <= i < h.mods.len() implies (#[trigger] h.mods[i]).len() > 0 by {}
    lemma_mods_from_sorted(h.mods);
    assert(parse_binding(combo_of(h.mods, h.key), h.command) =~~= zero_layer(h));
}

/// The facts line classification needs of a combination line: nonempty, no
/// trailing whitespace, no line break, and a first character that reads as a
/// header, not a comment, mode line or indented line.
proof fn lemma_combo_line_facts(h: HotkeyV)
    requires
        binding_rt(h),
    ensures
        combo_of(h.mods, h.key).len() > 0,
        trim_end_spec(combo_of(h.mods, h.key)) == combo_of(h.mods, h.key),
        combo_of(h.mods, h.key)[0] != '#',
        combo_of(h.mods, h.key)[0] != '@',
        !is_ws(combo_of(h.mods, h.key)[0]),
        forall|k: int|
            0 <= k < combo_of(h.mods, h.key).len() ==> combo_of(h.mods, h.key)[k] != '\n',
{
    let parts = h.mods.push(h.key);
    let c = combo_of(h.mods, h.key);
    assert(parts.last() == h.key);
    assert(parts[0] == (if h.mods.len() > 0 {
        h.mods[0]
    } else {
        h.key
    }));
    lemma_join_first(parts, sep_plus());
    lemma_join_last(parts, sep_plus());
    lemma_trim_end_noop(c);
    assert forall|i: int, k: int|
        0 <= i < parts.len() && 0 <= k < parts[i].len() implies #[trigger] parts[i][k]
        != '\n' by {
        if i < h.mods.len() {
            assert(parts[i] == h.mods[i]);
            assert(clean_atom(h.mods[i]));
        } else {
            assert(parts[i] == h.key);
        }
    }
    lemma_join_no_char(parts, sep_plus(), '\n');
}

/// One binding block advances the machine by three lines and appends the
/// binding it serializes.
proof fn lemma_decode_binding_block(
    lines: Seq<Seq<char>>,
    i: int,
    h: HotkeyV,
    name: Seq<char>,
    hks: Seq<HotkeyV>,
    modes: Seq<ModeV>,
)
    requires
        binding_rt(h),
        0 <= i,
        i + 3 <= lines.len(),
        lines[i] == combo_of(h.mods, h.key),
        lines[i + 1] == seq![' ', ' ', ' ', ' '] + h.command,
        lines[i + 2] == Seq::<char>::empty(),
    ensures
        decode_from(lines, i, None, name, hks, modes) == decode_from(
            lines,
            i + 3,
            None,
            name,
            hks.push(zero_layer(h)),
            modes,
        ),
{
    let c = combo_of(h.mods, h.key);
    lemma_combo_line_facts(h);
    assert(decode_from(lines, i, None, name, hks, modes) == decode_from(
        lines,
        i + 1,
        Some(c),
        name,
        hks,
        modes,
    ));
    let l1 = seq![' ', ' ', ' ', ' '] + h.command;
    assert(l1[l1.len() - 1] == h.command[h.command.len() - 1]);
    lemma_trim_end_noop(l1);
    assert(l1[0] == ' ');
    assert(l1[4] == h.command[0]);
    lemma_trim_start_at(l1, 4);
    assert(l1.subrange(4, l1.len() as int) =~= h.command);
    assert(trim_spec(l1) == h.command);
    lemma_parse_binding_inverse(h);
    assert(decode_from(lines, i + 1, Some(c), name, hks, modes) == decode_from(
        lines,
        i + 2,
        None,
        name,
        hks.push(zero_layer(h)),
        modes,
    ));
    assert(trim_end_spec(lines[i + 2]).len() == 0);
    assert(decode_from(lines, i + 2, None, name, hks.push(zero_layer(h)), modes) == decode_from(
        lines,
        i + 3,
        None,
        name,
        hks.push(zero_layer(h)),
        modes,
    ));
}

/// Each active binding serializes to exactly three lines.
proof fn lemma_bindings_len(hks: Seq<HotkeyV>)
    requires
        forall|j: int| 0 <= j < hks.len() ==> (#[trigger] hks[j]).active,
    ensures
        bindings_lines(hks).len() == 3 * hks.len(),
    decreases hks.len(),
{
    if hks.len() > 0 {
        assert forall|j: int|
            0 <= j < hks.drop_last().len() implies (#[trigger] hks.drop_last()[j]).active by {
            assert(hks.drop_last()[j] == hks[j]);
        }
        lemma_bindings_len(hks.drop_last());
        assert(hks.last().active);
    }
}

/// The binding lines decompose at the front.
proof fn lemma_bindings_front(hks: Seq<HotkeyV>)
    requires
        hks.len() >= 1,
    ensures
        bindings_lines(hks) == binding_lines(hks[0]) + bindings_lines(hks.drop_first()),
    decreases hks.len(),
{
    if hks.len() == 1 {
        assert(hks.drop_last() =~= Seq::<HotkeyV>::empty());
        assert(hks.drop_first() =~= Seq::<HotkeyV>::empty());
        assert(bindings_lines(hks) =~= binding_lines(hks[0]) + bindings_lines(hks.drop_first()));
    } else {
        lemma_bindings_front(hks.drop_last());
        assert(hks.drop_first().drop_last() =~= hks.drop_last().drop_first());
        assert(hks.drop_last()[0] == hks[0]);
        assert(hks.drop_first().last() == hks.last());
        assert(bindings_lines(hks) =~= binding_lines(hks[0]) + bindings_lines(hks.drop_first()));
    }
}

/// A run of binding blocks appends the bindings, in order, layers zeroed.
proof fn lemma_decode_bindings(
    lines: Seq<Seq<char>>,
    i: int,
    bs: Seq<HotkeyV>,
    name: Seq<char>,
    hks: Seq<HotkeyV>,
    modes: Seq<ModeV>,
)
    requires
        forall|j: int| 0 <= j < bs.len() ==> binding_rt(#[trigger] bs[j]),
        0 <= i,
        i + 3 * bs.len() <= lines.len(),
        lines.subrange(i, i + 3 * bs.len()) == bindings_lines(bs),
    ensures
        decode_from(lines, i, None, name, hks, modes) == decode_from(
            lines,
            i + 3 * bs.len(),
            None,
            name,
            hks + bs.map_values(|h: HotkeyV| zero_layer(h)),
            modes,
        ),
    decreases bs.len(),
{
    if bs.len() == 0 {
        assert(hks + bs.map_values(|h: HotkeyV| zero_layer(h)) =~= hks);
    } else {
        let h0 = bs[0];
        let sub = lines.subrange(i, i + 3 * bs.len());
        lemma_bindings_front(bs);
        assert(binding_lines(h0) == seq![
            combo_of(h0.mods, h0.key),
            seq![' ', ' ', ' ', ' '] + h0.command,
            Seq::<char>::empty(),
        ]);
        assert(lines[i] == sub[0]);
        assert(lines[i + 1] == sub[1]);
        assert(lines[i + 2] == sub[2]);
        assert(sub[0] == combo_of(h0.mods, h0.key));
        assert(sub[1] == seq![' ', ' ', ' ', ' '] + h0.command);
        assert(sub[2] == Seq::<char>::empty());
        lemma_decode_binding_block(lines, i, h0, name, hks, modes);
        let rest = bs.drop_first();
        assert forall|j: int| 0 <= j < rest.len() implies binding_rt(#[trigger] rest[j]) by {
            assert(rest[j] == bs[j + 1]);
        }
        assert forall|j: int| 0 <= j < rest.len() implies (#[trigger] rest[j]).active by {}
        lemma_bindings_len(rest);
        assert forall|k: int|
            0 <= k < 3 * rest.len() implies lines.subrange(i + 3, i + 3 + 3 * rest.len())[k]
            == bindings_lines(rest)[k] by {
            assert(lines.subrange(i + 3, i + 3 + 3 * rest.len())[k] == lines[i + 3 + k]);
            assert(lines[i + 3 + k] == sub[3 + k]);
            assert(sub[3 + k] == (binding_lines(h0) + bindings_lines(rest))[3 + k]);
        }
        assert(lines.subrange(i + 3, i + 3 + 3 * rest.len()) =~= bindings_lines(rest));
        lemma_decode_bindings(lines, i + 3, rest, name, hks.push(zero_layer(h0)), modes);
        assert(hks.push(zero_layer(h0)) + rest.map_values(|h: HotkeyV| zero_layer(h)) =~= hks
            + bs.map_values(|h: HotkeyV| zero_layer(h)));
    }
}

/// The encoded lines decompose at the front mode.
proof fn lemma_encode_lines_front(ms: Seq<ModeV>)
    requires
        ms.len() >= 1,
    ensures
        encode_lines_spec(ms) == mode_lines(ms[0]) + encode_lines_spec(ms.drop_first()),
    decreases ms.len(),
{
    if ms.len() == 1 {
        assert(ms.drop_last() =~= Seq::<ModeV>::empty());
        assert(ms.drop_first() =~= Seq::<ModeV>::empty());
        assert(encode_lines_spec(ms) =~= mode_lines(ms[0]) + encode_lines_spec(ms.drop_first()));
    } else {
        lemma_encode_lines_front(ms.drop_last());
        assert(ms.drop_first().drop_last() =~= ms.drop_last().drop_first());
        assert(ms.drop_last()[0] == ms[0]);
        assert(ms.drop_first().last() == ms.last());
        assert(encode_lines_spec(ms) =~= mode_lines(ms[0]) + encode_lines_spec(ms.drop_first()));
    }
}

/// Mode blocks from `i` to the end of the lines — followed by the one empty
/// segment the final newline leaves behind — flush the accumulated mode and
/// rebuild the remaining modes, layers zeroed.
proof fn lemma_decode_modes(
    lines: Seq<Seq<char>>,
    i: int,
    rest: Seq<ModeV>,
    name: Seq<char>,
    hks: Seq<HotkeyV>,
    modes: Seq<ModeV>,
)
    requires
        forall|j: int| 0 <= j < rest.len() ==> mode_rt(#[trigger] rest[j], false),
        0 <= i <= lines.len(),
        lines.subrange(i, lines.len() as int) == encode_lines_spec(rest) + seq![
            Seq::<char>::empty(),
        ],
        hks.len() > 0,
    ensures
        decode_from(lines, i, None, name, hks, modes) == modes.push(
            ModeV { name, hotkeys: hks },
        ) + zero_layers(rest),
    decreases rest.len(),
{
    let sub = lines.subrange(i, lines.len() as int);
    if rest.len() == 0 {
        assert(encode_lines_spec(rest) + seq![Seq::<char>::empty()] =~= seq![
            Seq::<char>::empty(),
        ]);
        assert(sub.len() == 1);
        assert(lines[i] == sub[0]);
        assert(trim_end_spec(lines[i]).len() == 0);
        assert(decode_from(lines, i, None, name, hks, modes) == decode_from(
            lines,
            i + 1,
            None,
            name,
            hks,
            modes,
        ));
        assert(decode_from(lines, i + 1, None, name, hks, modes) == modes.push(
            ModeV { name, hotkeys: hks },
        ));
        assert(modes.push(ModeV { name, hotkeys: hks }) + zero_layers(rest) =~= modes.push(
            ModeV { name, hotkeys: hks },
        ));
    } else {
        let m0 = rest[0];
        assert(mode_rt(m0, false));
        assert(lower_seq(m0.name) != default_lower());
        lemma_encode_lines_front(rest);
        let b0 = m0.hotkeys.len() as int;
        assert forall|j: int| 0 <= j < m0.hotkeys.len() implies (#[trigger] m0.hotkeys[j]).active by {
            assert(binding_rt(m0.hotkeys[j]));
        }
        lemma_bindings_len(m0.hotkeys);
        let hl = seq!['@'] + m0.name;
        assert(mode_header_lines(m0.name) == seq![hl, Seq::<char>::empty()]);
        let ml = mode_lines(m0);
        let el = encode_lines_spec(rest);
        let er = encode_lines_spec(rest.drop_first());
        assert(el == ml + er);
        assert(el.len() == ml.len() + er.len());
        assert(ml.len() == 3 + 3 * b0);
        assert(ml[0] == hl);
        assert(ml[1] =~= Seq::<char>::empty());
        assert(sub.len() == lines.len() - i);
        assert(sub.len() == el.len() + 1);
        assert(lines[i] == sub[0]);
        assert(sub[0] == (el + seq![Seq::<char>::empty()])[0]);
        assert((el + seq![Seq::<char>::empty()])[0] == el[0]);
        assert(el[0] == (ml + er)[0]);
        assert((ml + er)[0] == ml[0]);
        assert(lines[i + 1] == sub[1]);
        assert(sub[1] == (el + seq![Seq::<char>::empty()])[1]);
        assert((el + seq![Seq::<char>::empty()])[1] == el[1]);
        assert(el[1] == (ml + er)[1]);
        assert((ml + er)[1] == ml[1]);
        // header line: ends in the name's last character or '@' itself
        if m0.name.len() > 0 {
            assert(hl[hl.len() - 1] == m0.name[m0.name.len() - 1]);
        }
        lemma_trim_end_noop(hl);
        assert(hl[0] == '@');
        assert(hl.subrange(1, hl.len() as int) =~= m0.name);
        lemma_trim_noop(m0.name);
        let cur = ModeV { name, hotkeys: hks };
        assert(decode_from(lines, i, None, name, hks, modes) == decode_from(
            lines,
            i + 1,
            None,
            m0.name,
            Seq::empty(),
            modes.push(cur),
        ));
        assert(decode_from(lines, i + 1, None, m0.name, Seq::empty(), modes.push(cur))
            == decode_from(lines, i + 2, None, m0.name, Seq::empty(), modes.push(cur)));
        // the binding blocks
        assert forall|k: int| 0 <= k < 3 * b0 implies lines[i + 2 + k] == bindings_lines(
            m0.hotkeys,
        )[k] by {
            assert(lines[i + 2 + k] == sub[2 + k]);
            assert(sub[2 + k] == el[2 + k]);
            assert(el[2 + k] == ml[2 + k]);
            assert(ml[2 + k] == (mode_header_lines(m0.name) + bindings_lines(m0.hotkeys))[2 + k]);
            assert((mode_header_lines(m0.name) + bindings_lines(m0.hotkeys))[2 + k]
                == bindings_lines(m0.hotkeys)[k]);
        }
        assert(lines.subrange(i + 2, i + 2 + 3 * b0) =~= bindings_lines(m0.hotkeys));
        assert forall|j: int| 0 <= j < m0.hotkeys.len() implies binding_rt(
            #[trigger] m0.hotkeys[j],
        ) by {}
        lemma_decode_bindings(lines, i + 2, m0.hotkeys, m0.name, Seq::empty(), modes.push(cur));
        let hks2 = Seq::<HotkeyV>::empty() + m0.hotkeys.map_values(|h: HotkeyV| zero_layer(h));
        assert(hks2 =~= m0.hotkeys.map_values(|h: HotkeyV| zero_layer(h)));
        // the recursion on the remaining modes
        let i2 = i + 2 + 3 * b0 + 1;
        assert forall|j: int| 0 <= j < rest.drop_first().len() implies mode_rt(
            #[trigger] rest.drop_first()[j],
            false,
        ) by {
            assert(rest.drop_first()[j] == rest[j + 1]);
        }
        assert forall|k: int|
            0 <= k < lines.len() - i2 implies lines.subrange(i2, lines.len() as int)[k] == (er
            + seq![Seq::<char>::empty()])[k] by {
            assert(lines.subrange(i2, lines.len() as int)[k] == lines[i2 + k]);
            assert(lines[i2 + k] == sub[ml.len() + k]);
            assert(sub[ml.len() + k] == (el + seq![Seq::<char>::empty()])[ml.len() + k]);
            if k < er.len() {
                assert((el + seq![Seq::<char>::empty()])[ml.len() + k] == el[ml.len() + k]);
                assert(el[ml.len() + k] == er[k]);
            } else {
                assert(ml.len() + k == el.len());
            }
        }
        assert(lines.subrange(i2, lines.len() as int) =~= er + seq![Seq::<char>::empty()]);
        // the blank separating line after the bindings: position i2 - 1
        assert(lines[i2 - 1] == sub[2 + 3 * b0]);
        assert(sub[2 + 3 * b0] == el[2 + 3 * b0]);
        assert(el[2 + 3 * b0] == ml[2 + 3 * b0]);
        assert(ml[2 + 3 * b0] == ((mode_header_lines(m0.name) + bindings_lines(m0.hotkeys))
            + seq![Seq::<char>::empty()])[2 + 3 * b0]);
        assert(ml[2 + 3 * b0] =~= Seq::<char>::empty());
        assert(trim_end_spec(lines[i2 - 1]).len() == 0);
        assert(decode_from(lines, i2 - 1, None, m0.name, hks2, modes.push(cur)) == decode_from(
            lines,
            i2,
            None,
            m0.name,
            hks2,
            modes.push(cur),
        ));
        assert(hks2.len() > 0);
        lemma_decode_modes(lines, i2, rest.drop_first(), m0.name, hks2, modes.push(cur));
        assert(ModeV { name: m0.name, hotkeys: hks2 } =~~= zero_layers_mode(m0));
        assert(modes.push(cur).push(ModeV { name: m0.name, hotkeys: hks2 }) + zero_layers(
            rest.drop_first(),
        ) =~~= modes.push(cur) + zero_layers(rest));
    }
}

/// No line a reproducible binding serializes to contains a line break.
proof fn lemma_bindings_lines_clean(hks: Seq<HotkeyV>)
    requires
        forall|j: int| 0 <= j < hks.len() ==> binding_rt(#[trigger] hks[j]),
    ensures
        forall|li: int, k: int|
            0 <= li < bindings_lines(hks).len() && 0 <= k < bindings_lines(hks)[li].len()
                ==> #[trigger] bindings_lines(hks)[li][k] != '\n',
    decreases hks.len(),
{
    if hks.len() > 0 {
        let pre = hks.drop_last();
        assert forall|j: int| 0 <= j < pre.len() implies binding_rt(#[trigger] pre[j]) by {
            assert(pre[j] == hks[j]);
        }
        lemma_bindings_lines_clean(pre);
        let h = hks.last();
        lemma_combo_line_facts(h);
        let bl = binding_lines(h);
        assert forall|li: int, k: int|
            0 <= li < bl.len() && 0 <= k < bl[li].len() implies #[trigger] bl[li][k] != '\n' by {
            if li == 1 {
                assert(bl[1] == seq![' ', ' ', ' ', ' '] + h.command);
                if k >= 4 {
                    assert(bl[1][k] == h.command[k - 4]);
                }
            }
        }
        assert forall|li: int, k: int|
            0 <= li < bindings_lines(hks).len() && 0 <= k < bindings_lines(hks)[li].len() implies
            #[trigger] bindings_lines(hks)[li][k] != '\n' by {
            if li < bindings_lines(pre).len() {
                assert(bindings_lines(hks)[li] == bindings_lines(pre)[li]);
            } else {
                assert(bindings_lines(hks)[li] == bl[li - bindings_lines(pre).len()]);
            }
        }
    }
}

/// No encoded line contains a line break.
proof fn lemma_encode_lines_clean(ms: Seq<ModeV>)
    requires
        forall|i: int| 0 <= i < ms.len() ==> mode_rt(#[trigger] ms[i], i == 0),
    ensures
        forall|li: int, k: int|
            0 <= li < encode_lines_spec(ms).len() && 0 <= k < encode_lines_spec(ms)[li].len()
                ==> #[trigger] encode_lines_spec(ms)[li][k] != '\n',
    decreases ms.len(),
{
    if ms.len() > 0 {
        let pre = ms.drop_last();
        assert forall|i: int| 0 <= i < pre.len() implies mode_rt(#[trigger] pre[i], i == 0) by {
            assert(pre[i] == ms[i]);
        }
        lemma_encode_lines_clean(pre);
        let m = ms.last();
        assert(mode_rt(m, ms.len() - 1 == 0));
        lemma_bindings_lines_clean(m.hotkeys);
        let hd = mode_header_lines(m.name);
        assert forall|li: int, k: int|
            0 <= li < hd.len() && 0 <= k < hd[li].len() implies #[trigger] hd[li][k] != '\n' by {
            if li == 0 && k > 0 {
                assert(hd[0] == seq!['@'] + m.name);
                assert(hd[0][k] == m.name[k - 1]);
            }
        }
        let body = hd + bindings_lines(m.hotkeys);
        let mls = mode_lines(m);
        assert(mls == body + seq![Seq::<char>::empty()]);
        assert forall|li: int, k: int|
            0 <= li < mls.len() && 0 <= k < mls[li].len() implies #[trigger] mls[li][k]
            != '\n' by {
            if li < hd.len() {
                assert(mls[li] == hd[li]);
            } else if li < body.len() {
                assert(mls[li] == bindings_lines(m.hotkeys)[li - hd.len()]);
            } else {
                assert(mls[li] == Seq::<char>::empty());
            }
        }
        assert forall|li: int, k: int|
            0 <= li < encode_lines_spec(ms).len() && 0 <= k < encode_lines_spec(ms)[li].len()
            implies #[trigger] encode_lines_spec(ms)[li][k] != '\n' by {
            if li < encode_lines_spec(pre).len() {
                assert(encode_lines_spec(ms)[li] == encode_lines_spec(pre)[li]);
            } else {
                assert(encode_lines_spec(ms)[li] == mls[li - encode_lines_spec(pre).len()]);
            }
        }
    }
}

/// Flattened lines split back into the lines, plus the empty segment after
/// the final newline, as long as no line holds a line break itself.
proof fn lemma_split_unlines(lines: Seq<Seq<char>>)
    requires
        forall|li: int, k: int|
            0 <= li < lines.len() && 0 <= k < lines[li].len() ==> #[trigger] lines[li][k] != '\n',
    ensures
        split_spec(unlines(lines), '\n') == lines.push(Seq::<char>::empty()),
    decreases lines.len(),
{
    if lines.len() == 0 {
        assert(split_spec(unlines(lines), '\n') =~= lines.push(Seq::<char>::empty()));
    } else {
        let l0 = lines[0];
        let rest = lines.drop_first();
        assert(lines =~= seq![l0] + rest);
        lemma_unlines_concat(seq![l0], rest);
        lemma_unlines_one(l0);
        assert(unlines(lines) == (l0 + seq!['\n']) + unlines(rest));
        assert(unlines(lines) =~= l0 + seq!['\n'] + unlines(rest));
        assert forall|k: int| 0 <= k < l0.len() implies l0[k] != '\n' by {
            assert(lines[0][k] != '\n');
        }
        lemma_split_sep(l0, unlines(rest), '\n');
        assert forall|li: int, k: int|
            0 <= li < rest.len() && 0 <= k < rest[li].len() implies #[trigger] rest[li][k]
            != '\n' by {
            assert(rest[li] == lines[li + 1]);
        }
        lemma_split_unlines(rest);
        assert(split_spec(unlines(lines), '\n') =~= lines.push(Seq::<char>::empty()));
    }
}

/// Law: decoding the text a configuration encodes to yields the same modes —
/// names, bindings by identity, commands, active flags — whenever the
/// configuration is one the text format can carry; only the layer, which the
/// format does not store, resets to zero.
pub proof fn lemma_round_trip(ms: Seq<ModeV>)
    requires
        round_trippable(ms),
    ensures
        decode_spec(encode_spec(ms)) == zero_layers(ms),
{
    let lines = encode_lines_spec(ms);
    lemma_encode_lines_clean(ms);
    lemma_split_unlines(lines);
    let ll = lines.push(Seq::<char>::empty());
    assert(decode_spec(encode_spec(ms)) == decode_from(
        ll,
        0,
        None,
        default_mode_name(),
        Seq::empty(),
        Seq::empty(),
    ));
    let m0 = ms[0];
    assert(mode_rt(m0, true));
    lemma_encode_lines_front(ms);
    let ml = mode_lines(m0);
    let er = encode_lines_spec(ms.drop_first());
    assert(lines == ml + er);
    let b0 = m0.hotkeys.len() as int;
    assert forall|j: int| 0 <= j < m0.hotkeys.len() implies (#[trigger] m0.hotkeys[j]).active by {
        assert(binding_rt(m0.hotkeys[j]));
    }
    lemma_bindings_len(m0.hotkeys);
    assert forall|j: int| 0 <= j < ms.drop_first().len() implies mode_rt(
        #[trigger] ms.drop_first()[j],
        false,
    ) by {
        assert(ms.drop_first()[j] == ms[j + 1]);
    }
    let zh = m0.hotkeys.map_values(|h: HotkeyV| zero_layer(h));
    if lower_seq(m0.name) == default_lower() {
        // no header: the machine accumulates under the initial Default mode
        assert(m0.name == default_mode_name());
        assert(ml == bindings_lines(m0.hotkeys) + seq![Seq::<char>::empty()]);
        assert forall|k: int| 0 <= k < 3 * b0 implies ll.subrange(0, 3 * b0)[k] == bindings_lines(
            m0.hotkeys,
        )[k] by {
            assert(ll.subrange(0, 3 * b0)[k] == ll[k]);
            assert(ll[k] == lines[k]);
            assert(lines[k] == ml[k]);
        }
        assert(ll.subrange(0, 3 * b0) =~= bindings_lines(m0.hotkeys));
        lemma_decode_bindings(ll, 0, m0.hotkeys, default_mode_name(), Seq::empty(), Seq::empty());
        assert(Seq::<HotkeyV>::empty() + zh =~= zh);
        // the mode-separating blank line
        assert(ll[3 * b0] == lines[3 * b0]);
        assert(lines[3 * b0] == ml[3 * b0]);
        assert(ml[3 * b0] =~= Seq::<char>::empty());
        assert(trim_end_spec(ll[3 * b0]).len() == 0);
        assert(decode_from(ll, 3 * b0, None, m0.name, zh, Seq::empty()) == decode_from(
            ll,
            3 * b0 + 1,
            None,
            m0.name,
            zh,
            Seq::empty(),
        ));
        assert forall|k: int|
            0 <= k < ll.len() - (3 * b0 + 1) implies ll.subrange(3 * b0 + 1, ll.len() as int)[k]
            == (er + seq![Seq::<char>::empty()])[k] by {
            assert(ll.subrange(3 * b0 + 1, ll.len() as int)[k] == ll[3 * b0 + 1 + k]);
            if 3 * b0 + 1 + k < lines.len() {
                assert(ll[3 * b0 + 1 + k] == lines[3 * b0 + 1 + k]);
                assert(lines[3 * b0 + 1 + k] == er[k]);
            } else {
                assert(ll[3 * b0 + 1 + k] =~= Seq::<char>::empty());
            }
        }
        assert(ll.subrange(3 * b0 + 1, ll.len() as int) =~= er + seq![Seq::<char>::empty()]);
        assert(zh.len() > 0);
        lemma_decode_modes(ll, 3 * b0 + 1, ms.drop_first(), m0.name, zh, Seq::empty());
        assert(Seq::<ModeV>::empty().push(ModeV { name: m0.name, hotkeys: zh }) + zero_layers(
            ms.drop_first(),
        ) =~~= zero_layers(ms));
    } else {
        // the header line, with nothing accumulated yet: no flush
        let hl = seq!['@'] + m0.name;
        assert(mode_header_lines(m0.name) == seq![hl, Seq::<char>::empty()]);
        assert(ml[0] == hl);
        assert(ml[1] =~= Seq::<char>::empty());
        assert(ll[0] == lines[0] && lines[0] == ml[0]);
        assert(ll[1] == lines[1] && lines[1] == ml[1]);
        if m0.name.len() > 0 {
            assert(hl[hl.len() - 1] == m0.name[m0.name.len() - 1]);
        }
        lemma_trim_end_noop(hl);
        assert(hl[0] == '@');
        assert(hl.subrange(1, hl.len() as int) =~= m0.name);
        lemma_trim_noop(m0.name);
        assert(decode_from(ll, 0, None, default_mode_name(), Seq::empty(), Seq::empty())
            == decode_from(ll, 1, None, m0.name, Seq::empty(), Seq::empty()));
        assert(trim_end_spec(ll[1]).len() == 0);
        assert(decode_from(ll, 1, None, m0.name, Seq::empty(), Seq::empty()) == decode_from(
            ll,
            2,
            None,
            m0.name,
            Seq::empty(),
            Seq::empty(),
        ));
        assert forall|k: int| 0 <= k < 3 * b0 implies ll.subrange(2, 2 + 3 * b0)[k]
            == bindings_lines(m0.hotkeys)[k] by {
            assert(ll.subrange(2, 2 + 3 * b0)[k] == ll[2 + k]);
            assert(ll[2 + k] == lines[2 + k]);
            assert(lines[2 + k] == ml[2 + k]);
            assert(ml[2 + k] == (mode_header_lines(m0.name) + bindings_lines(m0.hotkeys))[2 + k]);
            assert((mode_header_lines(m0.name) + bindings_lines(m0.hotkeys))[2 + k]
                == bindings_lines(m0.hotkeys)[k]);
        }
        assert(ll.subrange(2, 2 + 3 * b0) =~= bindings_lines(m0.hotkeys));
        lemma_decode_bindings(ll, 2, m0.hotkeys, m0.name, Seq::empty(), Seq::empty());
        assert(Seq::<HotkeyV>::empty() + zh =~= zh);
        // the mode-separating blank line
        assert(ll[2 + 3 * b0] == lines[2 + 3 * b0]);
        assert(lines[2 + 3 * b0] == ml[2 + 3 * b0]);
        assert(ml[2 + 3 * b0] == ((mode_header_lines(m0.name) + bindings_lines(m0.hotkeys))
            + seq![Seq::<char>::empty()])[2 + 3 * b0]);
        assert(ml[2 + 3 * b0] =~= Seq::<char>::empty());
        assert(trim_end_spec(ll[2 + 3 * b0]).len() == 0);
        assert(decode_from(ll, 2 + 3 * b0, None, m0.name, zh, Seq::empty()) == decode_from(
            ll,
            3 + 3 * b0,
            None,
            m0.name,
            zh,
            Seq::empty(),
        ));
        assert forall|k: int|
            0 <= k < ll.len() - (3 + 3 * b0) implies ll.subrange(3 + 3 * b0, ll.len() as int)[k]
            == (er + seq![Seq::<char>::empty()])[k] by {
            assert(ll.subrange(3 + 3 * b0, ll.len() as int)[k] == ll[3 + 3 * b0 + k]);
            if 3 + 3 * b0 + k < lines.len() {
                assert(ll[3 + 3 * b0 + k] == lines[3 + 3 * b0 + k]);
                assert(lines[3 + 3 * b0 + k] == er[k]);
            } else {
                assert(ll[3 + 3 * b0 + k] =~= Seq::<char>::empty());
            }
        }
        assert(ll.subrange(3 + 3 * b0, ll.len() as int) =~= er + seq![Seq::<char>::empty()]);
        assert(zh.len() > 0);
        lemma_decode_modes(ll, 3 + 3 * b0, ms.drop_first(), m0.name, zh, Seq::empty());
        assert(Seq::<ModeV>::empty().push(ModeV { name: m0.name, hotkeys: zh }) + zero_layers(
            ms.drop_first(),
        ) =~~= zero_layers(ms));
    }
}

/// A configuration with every inactive binding removed.
pub open spec fn active_only(ms: Seq<ModeV>) -> Seq<ModeV> {
    ms.map_values(
        |m: ModeV| ModeV { name: m.name, hotkeys: m.hotkeys.filter(|h: HotkeyV| h.active) },
    )
}

proof fn lemma_bindings_lines_filter(hks: Seq<HotkeyV>)
    ensures
        bindings_lines(hks) == bindings_lines(hks.filter(|h: HotkeyV| h.active)),
    decreases hks.len(),
{
    reveal(Seq::filter);
    let pred = |h: HotkeyV| h.active;
    if hks.len() > 0 {
        lemma_bindings_lines_filter(hks.drop_last());
        let f = hks.filter(pred);
        let fpre = hks.drop_last().filter(pred);
        if hks.last().active {
            assert(f == fpre.push(hks.last()));
            assert(f.drop_last() =~= fpre);
            assert(f.last() == hks.last());
            assert(bindings_lines(f) == bindings_lines(fpre) + binding_lines(hks.last()));
        } else {
            assert(f == fpre);
            assert(binding_lines(hks.last()) =~= Seq::<Seq<char>>::empty());
            assert(bindings_lines(hks) =~= bindings_lines(hks.drop_last()));
        }
    }
}

proof fn lemma_encode_lines_filter(ms: Seq<ModeV>)
    ensures
        encode_lines_spec(ms) == encode_lines_spec(active_only(ms)),
    decreases ms.len(),
{
    if ms.len() > 0 {
        lemma_encode_lines_filter(ms.drop_last());
        assert(active_only(ms.drop_last()) =~= active_only(ms).drop_last());
        let m = ms.last();
        let fm = active_only(ms).last();
        assert(fm == ModeV { name: m.name, hotkeys: m.hotkeys.filter(|h: HotkeyV| h.active) });
        lemma_bindings_lines_filter(m.hotkeys);
        assert(mode_lines(fm) == mode_lines(m));
        assert(encode_lines_spec(active_only(ms)) == encode_lines_spec(
            active_only(ms).drop_last(),
        ) + mode_lines(fm));
    }
}

/// Law: inactive bindings leave no trace in the encoded text — a
/// configuration encodes to the very text its active part encodes to, so no
/// save-and-reload cycle can bring an inactive binding back.
pub proof fn lemma_encode_drops_inactive(ms: Seq<ModeV>)
    ensures
        encode_spec(ms) == encode_spec(active_only(ms)),
{
    lemma_encode_lines_filter(ms);
}

/// Every binding of every mode is active, with no layer set.
pub open spec fn all_active(ms: Seq<ModeV>) -> bool {
    forall|i: int, j: int|
        0 <= i < ms.len() && 0 <= j < ms[i].hotkeys.len() ==> (#[trigger] ms[i].hotkeys[j]).active
            && ms[i].hotkeys[j].layer_id == 0
}

proof fn lemma_decode_from_active(
    lines: Seq<Seq<char>>,
    i: int,
    pending: Option<Seq<char>>,
    name: Seq<char>,
    hks: Seq<HotkeyV>,
    modes: Seq<ModeV>,
)
    requires
        forall|j: int| 0 <= j < hks.len() ==> (#[trigger] hks[j]).active && hks[j].layer_id == 0,
        all_active(modes),
    ensures
        all_active(decode_from(lines, i, pending, name, hks, modes)),
    decreases lines.len() - i,
{
    if i < 0 || i >= lines.len() {
        if hks.len() > 0 || modes.len() == 0 {
            let r = modes.push(ModeV { name, hotkeys: hks });
            assert forall|mi: int, j: int|
                0 <= mi < r.len() && 0 <= j < r[mi].hotkeys.len() implies (
            #[trigger] r[mi].hotkeys[j]).active && r[mi].hotkeys[j].layer_id == 0 by {
                if mi < modes.len() {
                    assert(r[mi] == modes[mi]);
                } else {
                    assert(r[mi].hotkeys == hks);
                }
            }
        }
    } else {
        let l = trim_end_spec(lines[i]);
        if l.len() == 0 || l[0] == '#' {
            lemma_decode_from_active(lines, i + 1, pending, name, hks, modes);
        } else if l[0] == '@' {
            let nm = trim_spec(l.subrange(1, l.len() as int));
            if hks.len() > 0 || modes.len() > 0 {
                let m2 = modes.push(ModeV { name, hotkeys: hks });
                assert forall|mi: int, j: int|
                    0 <= mi < m2.len() && 0 <= j < m2[mi].hotkeys.len() implies (
                #[trigger] m2[mi].hotkeys[j]).active && m2[mi].hotkeys[j].layer_id == 0 by {
                    if mi < modes.len() {
                        assert(m2[mi] == modes[mi]);
                    } else {
                        assert(m2[mi].hotkeys == hks);
                    }
                }
                lemma_decode_from_active(lines, i + 1, None, nm, Seq::empty(), m2);
            } else {
                lemma_decode_from_active(lines, i + 1, None, nm, hks, modes);
            }
        } else if l[0] == ' ' || l[0] == '\t' {
            match pending {
                Some(combo) => {
                    let h2 = hks.push(parse_binding(combo, trim_spec(l)));
                    assert forall|j: int|
                        0 <= j < h2.len() implies (#[trigger] h2[j]).active && h2[j].layer_id
                        == 0 by {
                        if j < hks.len() {
                            assert(h2[j] == hks[j]);
                        }
                    }
                    lemma_decode_from_active(lines, i + 1, None, name, h2, modes);
                },
                None => {
                    lemma_decode_from_active(lines, i + 1, None, name, hks, modes);
                },
            }
        } else {
            lemma_decode_from_active(lines, i + 1, Some(l), name, hks, modes);
        }
    }
}

/// Law: everything decoding produces is an active binding with no layer, so
/// a binding encoding dropped for being inactive is never reproduced.
pub proof fn lemma_decode_all_active(text: Seq<char>)
    ensures
        all_active(decode_spec(text)),
{
    lemma_decode_from_active(
        split_spec(text, '\n'),
        0,
        None,
        default_mode_name(),
        Seq::empty(),
        Seq::empty(),
    );
}

/// Law: a mode named `default` in any casing writes no `@` header — its
/// block is its binding lines alone — and a mode under any other name always
/// writes its `@` header as the block's first line.
pub proof fn lemma_default_mode_omitted(m: ModeV)
    ensures
        lower_seq(m.name) == default_lower() ==> mode_lines(m) == bindings_lines(m.hotkeys)
            + seq![Seq::<char>::empty()],
        lower_seq(m.name) != default_lower() ==> mode_lines(m).len() >= 1 && mode_lines(m)[0]
            == seq!['@'] + m.name,
{
    if lower_seq(m.name) == default_lower() {
        assert(mode_lines(m) =~= bindings_lines(m.hotkeys) + seq![Seq::<char>::empty()]);
    } else {
        assert(mode_header_lines(m.name) == seq![seq!['@'] + m.name, Seq::<char>::empty()]);
        assert(mode_lines(m)[0] == (seq![seq!['@'] + m.name, Seq::<char>::empty()]
            + bindings_lines(m.hotkeys))[0]);
    }
}


/// Law: one save-and-reload cycle reproduces exactly the active part of the
/// configuration — same mode names, same bindings by (modifiers, key)
/// identity, same commands — whenever that active part is one the text
/// format can carry; inactive bindings are gone, as the format prescribes.
pub proof fn lemma_save_reload(ms: Seq<ModeV>)
    requires
        round_trippable(active_only(ms)),
    ensures
        decode_spec(encode_spec(ms)) == zero_layers(active_only(ms)),
{
    lemma_encode_drops_inactive(ms);
    lemma_round_trip(active_only(ms));
}

} // verus!
