//! Verified character and string utilities shared by the codec and the
//! key tables: ASCII lowercasing, whitespace trimming, splitting and joining.

use vstd::prelude::*;

verus! {

/// The whitespace characters this crate trims: the ASCII ones that can occur
/// in a line-oriented config file.
pub open spec fn is_ws(c: char) -> bool {
    c == ' ' || c == '\t' || c == '\r' || c == '\n'
}

/// ASCII lowercasing of one character; other characters are unchanged.
pub open spec fn lower_char(c: char) -> char {
    if 'A' <= c && c <= 'Z' {
        ((c as u8) + 32) as char
    } else {
        c
    }
}

/// ASCII lowercasing of a character sequence.
pub open spec fn lower_seq(s: Seq<char>) -> Seq<char> {
    s.map_values(|c: char| lower_char(c))
}

/// The sequence with trailing whitespace removed.
pub open spec fn trim_end_spec(s: Seq<char>) -> Seq<char>
    decreases s.len(),
{
    if s.len() > 0 && is_ws(s[s.len() - 1]) {
        trim_end_spec(s.drop_last())
    } else {
        s
    }
}

/// The sequence with leading whitespace removed.
pub open spec fn trim_start_spec(s: Seq<char>) -> Seq<char>
    decreases s.len(),
{
    if s.len() > 0 && is_ws(s[0]) {
        trim_start_spec(s.subrange(1, s.len() as int))
    } else {
        s
    }
}

/// The sequence with whitespace removed on both sides.
pub open spec fn trim_spec(s: Seq<char>) -> Seq<char> {
    trim_start_spec(trim_end_spec(s))
}

/// `parts` with `p` prefixed onto its first segment.
pub open spec fn prepend_first(p: Seq<char>, parts: Seq<Seq<char>>) -> Seq<Seq<char>> {
    seq![p + parts[0]] + parts.drop_first()
}

/// The segments of `s` between occurrences of the separator `c`;
/// always at least one segment, and empty segments are kept.
pub open spec fn split_spec(s: Seq<char>, c: char) -> Seq<Seq<char>>
    decreases s.len(),
{
    if s.len() == 0 {
        seq![Seq::empty()]
    } else if s[0] == c {
        seq![Seq::<char>::empty()] + split_spec(s.drop_first(), c)
    } else {
        prepend_first(seq![s[0]], split_spec(s.drop_first(), c))
    }
}

/// Splitting always yields at least one segment.
pub proof fn lemma_split_nonempty(s: Seq<char>, c: char)
    ensures
        split_spec(s, c).len() >= 1,
    decreases s.len(),
{
    if s.len() > 0 {
        lemma_split_nonempty(s.drop_first(), c);
    }
}

/// The segments joined with the separator sequence between them.
pub open spec fn join_spec(parts: Seq<Seq<char>>, sep: Seq<char>) -> Seq<char>
    decreases parts.len(),
{
    if parts.len() == 0 {
        Seq::empty()
    } else if parts.len() == 1 {
        parts[0]
    } else {
        parts[0] + sep + join_spec(parts.drop_first(), sep)
    }
}

/// The views of a sequence of strings.
pub open spec fn seq_views(ss: Seq<String>) -> Seq<Seq<char>> {
    ss.map_values(|s: String| s@)
}

/// Strict lexicographic order on character sequences by code point,
/// the order `BTreeSet<String>` iterates ASCII strings in.
pub open spec fn lex_lt(a: Seq<char>, b: Seq<char>) -> bool
    decreases a.len(),
{
    b.len() > 0 && (a.len() == 0 || (a[0] as u32) < (b[0] as u32) || (a[0] == b[0] && lex_lt(
        a.drop_first(),
        b.drop_first(),
    )))
}

/// Executable whitespace test, equal to `is_ws`.
pub fn is_ws_char(c: char) -> (r: bool)
    ensures
        r == is_ws(c),
{
    c == ' ' || c == '\t' || c == '\r' || c == '\n'
}

/// Executable ASCII lowercasing of one character, equal to `lower_char`.
pub fn lower_char_exec(c: char) -> (r: char)
    ensures
        r == lower_char(c),
{
    if 'A' <= c && c <= 'Z' {
        ((c as u8) + 32) as char
    } else {
        c
    }
}

/// Relies on `String::push`: appends exactly the given character.
/// vstd specifies `+= &str` but not `push`, which the builders here need.
pub assume_specification[ String::push ](s: &mut String, c: char)
    ensures
        final(s)@ == old(s)@.push(c),
;

/// Executable ASCII lowercasing of a string.
pub fn to_lower(s: &str) -> (r: String)
    ensures
        r@ == lower_seq(s@),
{
    let n = s.unicode_len();
    let mut r = String::new();
    let mut i: usize = 0;
    while i < n
        invariant
            n == s@.len(),
            i <= n,
            r@ == lower_seq(s@.subrange(0, i as int)),
        decreases n - i,
    {
        let c = s.get_char(i);
        r.push(lower_char_exec(c));
        i = i + 1;
        proof {
            assert(s@.subrange(0, i as int).drop_last() =~= s@.subrange(0, i - 1));
            assert(lower_seq(s@.subrange(0, i as int)) =~= lower_seq(s@.subrange(0, i - 1)).push(
                lower_char(s@[i - 1]),
            ));
        }
    }
    proof {
        assert(s@.subrange(0, n as int) =~= s@);
    }
    r
}

/// String equality by contents.
pub fn str_eq(a: &str, b: &str) -> (r: bool)
    ensures
        r == (a@ == b@),
{
    let sa = String::from_str(a);
    let sb = String::from_str(b);
    sa.eq(&sb)
}

/// Whether `s` begins with the character `c`.
pub fn starts_with_char(s: &str, c: char) -> (r: bool)
    ensures
        r == (s@.len() > 0 && s@[0] == c),
{
    let n = s.unicode_len();
    if n == 0 {
        false
    } else {
        s.get_char(0) == c
    }
}

/// The decimal digits of `n`, most significant first.
pub open spec fn dec_spec(n: nat) -> Seq<char>
    decreases n,
{
    if n < 10 {
        seq![(((n + 48) as u8) as char)]
    } else {
        dec_spec(n / 10).push((((n % 10) + 48) as u8 as char))
    }
}

/// Appends the decimal digits of `n`.
pub fn push_dec(n: u64, out: &mut String)
    ensures
        final(out)@ == old(out)@ + dec_spec(n as nat),
    decreases n,
{
    if n < 10 {
        out.push(((n + 48) as u8) as char);
        proof {
            assert(old(out)@.push(((n + 48) as u8) as char) =~= old(out)@ + dec_spec(n as nat));
        }
    } else {
        push_dec(n / 10, out);
        out.push((((n % 10) + 48) as u8) as char);
        proof {
            assert((old(out)@ + dec_spec((n / 10) as nat)).push((((n % 10) + 48) as u8) as char)
                =~= old(out)@ + dec_spec(n as nat));
        }
    }
}

/// A one-digit rendering is exactly one character; a larger one at least two.
pub proof fn lemma_dec_len(n: nat)
    ensures
        dec_spec(n).len() >= 1,
        n < 10 ==> dec_spec(n).len() == 1,
        n >= 10 ==> dec_spec(n).len() >= 2,
    decreases n,
{
    if n >= 10 {
        lemma_dec_len(n / 10);
    }
}

/// Distinct numbers render to distinct digit strings.
pub proof fn lemma_dec_injective(a: nat, b: nat)
    requires
        dec_spec(a) == dec_spec(b),
    ensures
        a == b,
    decreases a,
{
    lemma_dec_len(a);
    lemma_dec_len(b);
    if a < 10 && b < 10 {
        let ca = dec_spec(a)[0];
        let cb = dec_spec(b)[0];
        assert(ca == (((a + 48) as u8) as char));
        assert(cb == (((b + 48) as u8) as char));
        assert((((a + 48) as u8) as char) as u32 == a + 48);
        assert((((b + 48) as u8) as char) as u32 == b + 48);
        assert(ca as u32 == cb as u32);
    } else if a >= 10 && b >= 10 {
        let la = dec_spec(a);
        let lb = dec_spec(b);
        assert(la.last() == lb.last());
        assert(la.last() == ((((a % 10) + 48) as u8) as char));
        assert(lb.last() == ((((b % 10) + 48) as u8) as char));
        assert(((((a % 10) + 48) as u8) as char) as u32 == (a % 10) + 48);
        assert(((((b % 10) + 48) as u8) as char) as u32 == (b % 10) + 48);
        assert(la.last() as u32 == lb.last() as u32);
        assert(a % 10 == b % 10);
        assert(la.drop_last() =~= dec_spec(a / 10));
        assert(lb.drop_last() =~= dec_spec(b / 10));
        lemma_dec_injective(a / 10, b / 10);
        vstd::arithmetic::div_mod::lemma_fundamental_div_mod(a as int, 10);
        vstd::arithmetic::div_mod::lemma_fundamental_div_mod(b as int, 10);
    } else {
        assert(dec_spec(a).len() != dec_spec(b).len());
    }
}

/// A sequence without the separator splits into itself alone.
pub proof fn lemma_split_nosep(s: Seq<char>, c: char)
    requires
        forall|k: int| 0 <= k < s.len() ==> s[k] != c,
    ensures
        split_spec(s, c) == seq![s],
    decreases s.len(),
{
    if s.len() == 0 {
        assert(split_spec(s, c) =~~= seq![s]);
    } else {
        lemma_split_nosep(s.drop_first(), c);
        assert(split_spec(s, c) == prepend_first(seq![s[0]], seq![s.drop_first()]));
        assert(split_spec(s, c) =~~= seq![s]);
    }
}

/// Splitting at the first separator peels off the prefix before it.
pub proof fn lemma_split_sep(x: Seq<char>, y: Seq<char>, c: char)
    requires
        forall|k: int| 0 <= k < x.len() ==> x[k] != c,
    ensures
        split_spec(x + seq![c] + y, c) == seq![x] + split_spec(y, c),
    decreases x.len(),
{
    let s = x + seq![c] + y;
    if x.len() == 0 {
        assert(s[0] == c);
        assert(s.drop_first() =~= y);
        assert(split_spec(s, c) =~~= seq![x] + split_spec(y, c));
    } else {
        lemma_split_sep(x.drop_first(), y, c);
        assert(s[0] == x[0]);
        assert(s[0] != c);
        assert(s.drop_first() =~= x.drop_first() + seq![c] + y);
        lemma_split_nonempty(y, c);
        assert(split_spec(s, c) == prepend_first(
            seq![x[0]],
            seq![x.drop_first()] + split_spec(y, c),
        ));
        assert(split_spec(s, c) =~~= seq![x] + split_spec(y, c));
    }
}

/// Joining keeps out any character absent from the segments and separator.
pub proof fn lemma_join_no_char(parts: Seq<Seq<char>>, sep: Seq<char>, c: char)
    requires
        forall|i: int, k: int|
            0 <= i < parts.len() && 0 <= k < parts[i].len() ==> #[trigger] parts[i][k] != c,
        forall|k: int| 0 <= k < sep.len() ==> sep[k] != c,
    ensures
        forall|k: int|
            0 <= k < join_spec(parts, sep).len() ==> #[trigger] join_spec(parts, sep)[k] != c,
    decreases parts.len(),
{
    if parts.len() == 0 {
    } else if parts.len() == 1 {
        assert forall|k: int|
            0 <= k < join_spec(parts, sep).len() implies #[trigger] join_spec(parts, sep)[k]
            != c by {
            assert(join_spec(parts, sep)[k] == parts[0][k]);
        }
    } else {
        let rest = parts.drop_first();
        assert forall|i: int, k: int|
            0 <= i < rest.len() && 0 <= k < rest[i].len() implies #[trigger] rest[i][k] != c by {
            assert(rest[i] == parts[i + 1]);
        }
        lemma_join_no_char(rest, sep, c);
        let j = join_spec(parts, sep);
        let jr = join_spec(rest, sep);
        assert forall|k: int| 0 <= k < j.len() implies #[trigger] j[k] != c by {
            if k < parts[0].len() {
                assert(j[k] == parts[0][k]);
            } else if k < parts[0].len() + sep.len() {
                assert(j[k] == sep[k - parts[0].len()]);
            } else {
                assert(j[k] == jr[k - parts[0].len() - sep.len()]);
            }
        }
    }
}

/// A join of segments starts with the first segment's first character.
pub proof fn lemma_join_first(parts: Seq<Seq<char>>, sep: Seq<char>)
    requires
        parts.len() >= 1,
        parts[0].len() >= 1,
    ensures
        join_spec(parts, sep).len() >= 1,
        join_spec(parts, sep)[0] == parts[0][0],
{
}

/// A join of segments ends with the last segment's last character.
pub proof fn lemma_join_last(parts: Seq<Seq<char>>, sep: Seq<char>)
    requires
        parts.len() >= 1,
        parts.last().len() >= 1,
    ensures
        join_spec(parts, sep).len() >= 1,
        join_spec(parts, sep).last() == parts.last().last(),
    decreases parts.len(),
{
    if parts.len() == 1 {
    } else {
        lemma_join_last(parts.drop_first(), sep);
        let j = join_spec(parts, sep);
        let jr = join_spec(parts.drop_first(), sep);
        assert(parts.drop_first().last() == parts.last());
        assert(j.last() == jr.last());
    }
}

/// Joining a further segment appends one separator and the segment.
pub proof fn lemma_join_push(parts: Seq<Seq<char>>, p: Seq<char>, sep: Seq<char>)
    requires
        parts.len() >= 1,
    ensures
        join_spec(parts.push(p), sep) == join_spec(parts, sep) + sep + p,
    decreases parts.len(),
{
    let pp = parts.push(p);
    if parts.len() == 1 {
        assert(pp.drop_first() =~= seq![p]);
        assert(join_spec(seq![p], sep) == p);
        assert(join_spec(pp, sep) == pp[0] + sep + join_spec(pp.drop_first(), sep));
    } else {
        lemma_join_push(parts.drop_first(), p, sep);
        assert(pp.drop_first() =~= parts.drop_first().push(p));
        assert(join_spec(pp, sep) =~= join_spec(parts, sep) + sep + p);
    }
}

/// Splits a string on the character `sep`.
pub fn split_on(s: &str, sep: char) -> (r: Vec<String>)
    ensures
        seq_views(r@) == split_spec(s@, sep),
        r@.len() >= 1,
{
    let n = s.unicode_len();
    let mut res: Vec<String> = Vec::new();
    let mut cur = String::new();
    let mut i: usize = 0;
    proof {
        lemma_split_nonempty(s@, sep);
        assert(s@.subrange(0, n as int) =~= s@);
        assert(seq_views(res@) + prepend_first(cur@, split_spec(s@, sep)) =~~= split_spec(
            s@,
            sep,
        ));
    }
    while i < n
        invariant
            n == s@.len(),
            i <= n,
            split_spec(s@, sep) == seq_views(res@) + prepend_first(
                cur@,
                split_spec(s@.subrange(i as int, n as int), sep),
            ),
        decreases n - i,
    {
        let ghost rest = s@.subrange(i as int, n as int);
        let ghost rest1 = s@.subrange(i + 1, n as int);
        proof {
            assert(rest[0] == s@[i as int]);
            assert(rest.drop_first() =~= rest1);
            lemma_split_nonempty(rest1, sep);
        }
        let c = s.get_char(i);
        if c == sep {
            proof {
                let x = split_spec(rest1, sep);
                assert(split_spec(rest, sep) == seq![Seq::<char>::empty()] + x);
                assert(prepend_first(cur@, seq![Seq::<char>::empty()] + x) =~~= seq![cur@] + x);
                assert(prepend_first(Seq::<char>::empty(), x) =~~= x);
                assert(seq_views(res@.push(cur)) =~~= seq_views(res@).push(cur@));
                assert(seq_views(res@.push(cur)) + prepend_first(Seq::<char>::empty(), x)
                    =~~= seq_views(res@) + prepend_first(cur@, split_spec(rest, sep)));
            }
            res.push(cur);
            cur = String::new();
        } else {
            proof {
                let x = split_spec(rest1, sep);
                assert(split_spec(rest, sep) == prepend_first(seq![s@[i as int]], x));
                assert(prepend_first(cur@, prepend_first(seq![s@[i as int]], x))
                    =~~= prepend_first(cur@.push(s@[i as int]), x));
                assert(seq_views(res@) + prepend_first(cur@.push(s@[i as int]), x) =~~= seq_views(
                    res@,
                ) + prepend_first(cur@, split_spec(rest, sep)));
            }
            cur.push(c);
        }
        i = i + 1;
    }
    proof {
        assert(s@.subrange(n as int, n as int) =~= Seq::<char>::empty());
        assert(prepend_first(cur@, split_spec(Seq::<char>::empty(), sep)) =~~= seq![cur@]);
        assert(seq_views(res@.push(cur)) =~~= seq_views(res@).push(cur@));
        assert(seq_views(res@.push(cur)) =~~= seq_views(res@) + prepend_first(
            cur@,
            split_spec(s@.subrange(n as int, n as int), sep),
        ));
    }
    res.push(cur);
    res
}

/// Joins the strings with the separator between them.
pub fn join_with(parts: &Vec<String>, sep: &str) -> (r: String)
    ensures
        r@ == join_spec(seq_views(parts@), sep@),
{
    let mut r = String::new();
    let mut i: usize = 0;
    while i < parts.len()
        invariant
            i <= parts@.len(),
            r@ == join_spec(seq_views(parts@.subrange(0, i as int)), sep@),
        decreases parts@.len() - i,
    {
        if i > 0 {
            r.append(sep);
        }
        r.append(parts[i].as_str());
        proof {
            let pre = seq_views(parts@.subrange(0, i as int));
            let post = seq_views(parts@.subrange(0, i + 1));
            assert(post =~= pre.push(parts@[i as int]@));
            if i > 0 {
                lemma_join_push(pre, parts@[i as int]@, sep@);
            }
        }
        i = i + 1;
    }
    proof {
        assert(parts@.subrange(0, parts@.len() as int) =~= parts@);
    }
    r
}

/// Two characters are equal exactly when their code points are; naming them
/// as parameters lets the solver see they are valid code points.
proof fn lemma_char_codes(x: char, y: char)
    ensures
        (x == y) <==> ((x as u32) == (y as u32)),
{
}

/// The order is irreflexive.
pub proof fn lemma_lex_irrefl(a: Seq<char>)
    ensures
        !lex_lt(a, a),
    decreases a.len(),
{
    if a.len() > 0 {
        lemma_lex_irrefl(a.drop_first());
    }
}

/// Any two sequences are ordered or equal.
pub proof fn lemma_lex_trichotomy(a: Seq<char>, b: Seq<char>)
    ensures
        lex_lt(a, b) || lex_lt(b, a) || a == b,
    decreases a.len(),
{
    if a.len() == 0 {
        if b.len() == 0 {
            assert(a =~= b);
        }
    } else if b.len() == 0 {
    } else if a[0] == b[0] {
        lemma_lex_trichotomy(a.drop_first(), b.drop_first());
        if a.drop_first() == b.drop_first() {
            assert(a.drop_first().len() == b.drop_first().len());
            assert(a.len() == b.len());
            assert forall|i: int| 0 <= i < a.len() implies a[i] == b[i] by {
                if i > 0 {
                    assert(a[i] == a.drop_first()[i - 1]);
                    assert(b[i] == b.drop_first()[i - 1]);
                }
            }
            assert(a =~= b);
        }
    } else {
        lemma_char_codes(a[0], b[0]);
        if (a[0] as u32) < (b[0] as u32) {
            assert(lex_lt(a, b));
        } else {
            assert(lex_lt(b, a));
        }
    }
}

/// The order is transitive.
pub proof fn lemma_lex_trans(a: Seq<char>, b: Seq<char>, c: Seq<char>)
    requires
        lex_lt(a, b),
        lex_lt(b, c),
    ensures
        lex_lt(a, c),
    decreases a.len(),
{
    if a.len() > 0 && !((a[0] as u32) < (c[0] as u32)) {
        lemma_char_codes(a[0], b[0]);
        lemma_char_codes(b[0], c[0]);
        lemma_char_codes(a[0], c[0]);
        lemma_lex_trans(a.drop_first(), b.drop_first(), c.drop_first());
    }
}

/// Lexicographic comparison of two strings by code point.
pub fn str_lt(a: &str, b: &str) -> (r: bool)
    ensures
        r == lex_lt(a@, b@),
{
    let na = a.unicode_len();
    let nb = b.unicode_len();
    let mut i: usize = 0;
    proof {
        assert(a@.subrange(0, na as int) =~= a@);
        assert(b@.subrange(0, nb as int) =~= b@);
    }
    while i < na && i < nb
        invariant
            na == a@.len(),
            nb == b@.len(),
            i <= na,
            i <= nb,
            lex_lt(a@, b@) == lex_lt(
                a@.subrange(i as int, na as int),
                b@.subrange(i as int, nb as int),
            ),
        decreases na - i,
    {
        let ghost ar = a@.subrange(i as int, na as int);
        let ghost br = b@.subrange(i as int, nb as int);
        let ca = a.get_char(i);
        let cb = b.get_char(i);
        if ca != cb {
            proof {
                assert(ar[0] == ca && br[0] == cb);
                assert(lex_lt(ar, br) == ((ca as u32) < (cb as u32)));
            }
            return (ca as u32) < (cb as u32);
        }
        proof {
            assert(ar[0] == ca && br[0] == cb);
            assert(ar.drop_first() =~= a@.subrange(i + 1, na as int));
            assert(br.drop_first() =~= b@.subrange(i + 1, nb as int));
            if (ca as u32) < (cb as u32) {
                assert(false);
            }
        }
        i = i + 1;
    }
    proof {
        let ar = a@.subrange(i as int, na as int);
        let br = b@.subrange(i as int, nb as int);
        if i >= na {
            assert(ar.len() == 0);
            assert(lex_lt(ar, br) == (br.len() > 0));
        } else {
            assert(br.len() == 0);
            assert(!lex_lt(ar, br));
        }
    }
    i >= na && i < nb
}

/// Trims every string of a sequence.
pub fn trim_all(parts: &Vec<String>) -> (r: Vec<String>)
    ensures
        seq_views(r@) == seq_views(parts@).map_values(|p: Seq<char>| trim_spec(p)),
{
    let mut r: Vec<String> = Vec::new();
    let mut i: usize = 0;
    while i < parts.len()
        invariant
            i <= parts@.len(),
            r@.len() == i,
            forall|j: int| 0 <= j < i ==> (#[trigger] r@[j])@ == trim_spec(parts@[j]@),
        decreases parts@.len() - i,
    {
        r.push(trim(parts[i].as_str()));
        i = i + 1;
    }
    proof {
        assert(seq_views(r@) =~~= seq_views(parts@).map_values(|p: Seq<char>| trim_spec(p)));
    }
    r
}

pub proof fn lemma_trim_start_at(s: Seq<char>, k: int)
    requires
        0 <= k <= s.len(),
        forall|j: int| 0 <= j < k ==> is_ws(s[j]),
        k < s.len() ==> !is_ws(s[k]),
    ensures
        trim_start_spec(s) == s.subrange(k, s.len() as int),
    decreases k,
{
    if k == 0 {
        if s.len() > 0 && is_ws(s[0]) {
            assert(false);
        }
        assert(s.subrange(0, s.len() as int) =~= s);
    } else {
        let t = s.subrange(1, s.len() as int);
        lemma_trim_start_at(t, k - 1);
        assert(t.subrange(k - 1, t.len() as int) =~= s.subrange(k, s.len() as int));
    }
}

pub proof fn lemma_trim_end_at(s: Seq<char>, k: int)
    requires
        0 <= k <= s.len(),
        forall|j: int| k <= j < s.len() ==> is_ws(s[j]),
        k > 0 ==> !is_ws(s[k - 1]),
    ensures
        trim_end_spec(s) == s.subrange(0, k),
    decreases s.len(),
{
    if k == s.len() {
        if s.len() > 0 && is_ws(s[s.len() - 1]) {
            assert(!is_ws(s[k - 1]));
            assert(false);
        }
        assert(s.subrange(0, k) =~= s);
    } else {
        assert(is_ws(s[s.len() - 1]));
        lemma_trim_end_at(s.drop_last(), k);
        assert(s.drop_last().subrange(0, k) =~= s.subrange(0, k));
    }
}

/// Executable trim of trailing whitespace.
pub fn trim_end(s: &str) -> (r: String)
    ensures
        r@ == trim_end_spec(s@),
{
    let n = s.unicode_len();
    let mut k = n;
    while k > 0 && is_ws_char(s.get_char(k - 1))
        invariant
            n == s@.len(),
            k <= n,
            forall|j: int| k <= j < n ==> is_ws(s@[j]),
        decreases k,
    {
        k = k - 1;
    }
    proof {
        lemma_trim_end_at(s@, k as int);
    }
    s.substring_char(0, k).to_owned()
}

/// Executable trim of whitespace on both sides.
pub fn trim(s: &str) -> (r: String)
    ensures
        r@ == trim_spec(s@),
{
    let n = s.unicode_len();
    let mut k = n;
    while k > 0 && is_ws_char(s.get_char(k - 1))
        invariant
            n == s@.len(),
            k <= n,
            forall|j: int| k <= j < n ==> is_ws(s@[j]),
        decreases k,
    {
        k = k - 1;
    }
    proof {
        lemma_trim_end_at(s@, k as int);
    }
    let mut b: usize = 0;
    while b < k && is_ws_char(s.get_char(b))
        invariant
            n == s@.len(),
            b <= k <= n,
            forall|j: int| 0 <= j < b ==> is_ws(s@[j]),
        decreases k - b,
    {
        b = b + 1;
    }
    proof {
        let e = s@.subrange(0, k as int);
        lemma_trim_start_at(e, b as int);
        assert(e.subrange(b as int, e.len() as int) =~= s@.subrange(b as int, k as int));
    }
    s.substring_char(b, k).to_owned()
}

} // verus!
