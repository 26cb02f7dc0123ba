//! Inlay hints: which occurrences of a variable get a hint showing its value,
//! how the value is shortened, and how many hints a line may hold.
use crate::config::{FeatureConfig, InlayHintConfig, MaskSurface, MaskingConfig};
use crate::position::{is_char_boundary_of, Position, Range};
use crate::text::{
    byte_len, byte_offset_of, chars_of, concat, lemma_byte_offset_step, push_char,
    string_from_chars, utf8_width,
};
use vstd::prelude::*;

verus! {

/// How an occurrence of a variable was found.
#[derive(Debug, Clone, Copy, PartialEq, Eq, Structural)]
pub enum EnvVarLocationKind {
    DirectReference,
    BindingDeclaration,
    BindingUsage,
    PropertyAccess,
}

/// Where an occurrence of a variable is.
#[derive(Debug, Clone, Copy, PartialEq, Eq, Structural)]
pub struct EnvVarLocation {
    pub range: Range,
    pub kind: EnvVarLocationKind,
}

/// The characters of `v` before its first LF, without a CR that ends them
/// (the first item `str::lines` yields).
pub open spec fn first_line(v: Seq<char>) -> Seq<char> {
    let l = v.take(first_index_of(v, '\n'));
    if l.len() > 0 && l.last() == '\r' {
        l.drop_last()
    } else {
        l
    }
}

/// Position of the first `c` in `v`, or its length when there is none.
pub open spec fn first_index_of(v: Seq<char>, c: char) -> int
    decreases v.len(),
{
    if v.len() == 0 {
        0
    } else if v[0] == c {
        0
    } else {
        1 + first_index_of(v.drop_first(), c)
    }
}

/// A multi-line value is shown by its first line followed by `...`.
pub open spec fn display_base(v: Seq<char>) -> Seq<char> {
    if v.contains('\n') {
        first_line(v) + "..."@
    } else {
        v
    }
}

/// The text an inlay hint shows for `v`: its display base, cut after
/// `max` bytes and followed by `...` when it is longer than that.
pub open spec fn spec_format_value(v: Seq<char>, max: nat) -> Seq<char> {
    let b = display_base(v);
    if byte_len(b) > max {
        b.take(choose|k: int| 0 <= k <= b.len() && #[trigger] byte_offset_of(b, k) == max) + "..."@
    } else {
        b
    }
}

/// Whether cutting the display base of `v` after `max` bytes splits no character.
pub open spec fn cut_is_aligned(v: Seq<char>, max: nat) -> bool {
    byte_len(display_base(v)) > max ==> is_char_boundary_of(display_base(v), max as int)
}

proof fn lemma_first_index(v: Seq<char>, c: char, i: int)
    requires
        0 <= i <= v.len(),
        forall|j: int| 0 <= j < i ==> v[j] != c,
        i == v.len() || v[i] == c,
    ensures
        first_index_of(v, c) == i,
    decreases v.len(),
{
    if v.len() > 0 && v[0] != c {
        lemma_first_index(v.drop_first(), c, i - 1);
    }
}

proof fn lemma_first_index_contains(v: Seq<char>, c: char)
    ensures
        0 <= first_index_of(v, c) <= v.len(),
        v.contains(c) <==> first_index_of(v, c) < v.len(),
    decreases v.len(),
{
    if v.len() > 0 && v[0] != c {
        lemma_first_index_contains(v.drop_first(), c);
        if v.contains(c) {
            let j = choose|j: int| 0 <= j < v.len() && v[j] == c;
            assert(v.drop_first()[j - 1] == c);
        }
        if v.drop_first().contains(c) {
            let j = choose|j: int| 0 <= j < v.drop_first().len() && v.drop_first()[j] == c;
            assert(v[j + 1] == c);
        }
    } else if v.len() > 0 {
        assert(v[0] == c);
    }
}

/// Byte length of the characters of `v`.
fn byte_length(v: &Vec<char>) -> (n: usize)
    requires
        byte_len(v@) <= usize::MAX,
    ensures
        n == byte_len(v@),
{
    let mut n: usize = 0;
    let mut i: usize = 0;
    while i < v.len()
        invariant
            0 <= i <= v.len(),
            byte_len(v@) <= usize::MAX,
            n == byte_offset_of(v@, i as int),
        decreases v.len() - i,
    {
        proof {
            lemma_byte_offset_step(v@, i as int);
            assert(v@.take(v@.len() as int) =~= v@);
            crate::text::lemma_byte_offset_monotone(v@, i + 1, v@.len() as int);
        }
        n = n + utf8_width(v[i]);
        i += 1;
    }
    assert(v@.take(v@.len() as int) =~= v@);
    n
}

/// The character position at which byte `b` starts.
fn char_index_at_byte(v: &Vec<char>, b: usize) -> (k: usize)
    requires
        is_char_boundary_of(v@, b as int),
    ensures
        k <= v@.len(),
        byte_offset_of(v@, k as int) == b,
{
    let mut n: usize = 0;
    let mut i: usize = 0;
    let ghost target = choose|k: int| 0 <= k <= v@.len() && #[trigger] byte_offset_of(v@, k) == b;
    while n < b
        invariant
            0 <= i <= target,
            0 <= target <= v.len(),
            byte_offset_of(v@, target) == b,
            n == byte_offset_of(v@, i as int),
        decreases target - i,
    {
        proof {
            if i == target {
                assert(false);
            }
            lemma_byte_offset_step(v@, i as int);
            crate::text::lemma_byte_offset_monotone(v@, i + 1, target);
        }
        n = n + utf8_width(v[i]);
        i += 1;
    }
    proof {
        if i < target {
            crate::text::lemma_byte_offset_monotone(v@, i as int, target);
        }
    }
    i
}

/// The value an inlay hint shows: the first line of a multi-line value followed
/// by `...`, cut after `max_value_length` bytes (and followed by `...`) when
/// longer.
pub fn format_value(value: &str, config: &InlayHintConfig) -> (r: String)
    requires
        byte_len(value@) + 3 <= usize::MAX,
        cut_is_aligned(value@, config.max_value_length as nat),
    ensures
        r@ == spec_format_value(value@, config.max_value_length as nat),
{
    let chars = chars_of(value);
    let mut nl: usize = 0;
    while nl < chars.len() && chars[nl] != '\n'
        invariant
            chars@ == value@,
            0 <= nl <= chars.len(),
            forall|j: int| 0 <= j < nl ==> chars@[j] != '\n',
        decreases chars.len() - nl,
    {
        nl += 1;
    }
    proof {
        lemma_first_index(value@, '\n', nl as int);
        lemma_first_index_contains(value@, '\n');
    }
    let base: Vec<char> = if nl < chars.len() {
        let mut end = nl;
        if end > 0 && chars[end - 1] == '\r' {
            end = end - 1;
        }
        let mut b: Vec<char> = Vec::new();
        let mut i: usize = 0;
        while i < end
            invariant
                0 <= i <= end <= chars.len(),
                b@ == chars@.take(i as int),
            decreases end - i,
        {
            b.push(chars[i]);
            i += 1;
            assert(b@ =~= chars@.take(i as int));
        }
        proof {
            let l = value@.take(nl as int);
            if l.len() > 0 && l.last() == '\r' {
                assert(b@ =~= l.drop_last());
            } else {
                assert(b@ =~= l);
            }
            assert(b@ == first_line(value@));
        }
        b.push('.');
        b.push('.');
        b.push('.');
        proof {
            reveal_strlit("...");
            assert(b@ =~= first_line(value@) + "..."@);
        }
        b
    } else {
        chars
    };
    assert(base@ == display_base(value@));
    proof {
        // The display base is never longer, in bytes, than the value plus `...`.
        if nl < chars@.len() {
            let fl = first_line(value@);
            crate::text::lemma_byte_offset_monotone(value@, fl.len() as int, value@.len() as int);
            assert(value@.take(value@.len() as int) =~= value@);
            assert(value@.take(fl.len() as int) =~= fl) by {
                let l = value@.take(nl as int);
                if l.len() > 0 && l.last() == '\r' {
                    assert(l.drop_last() =~= value@.take(nl - 1));
                }
            }
            reveal_strlit("...");
            crate::text::lemma_byte_len_concat(fl, "..."@);
            assert(byte_len("..."@) == 3) by {
                reveal_strlit("...");
                reveal_with_fuel(byte_len, 4);
                let d = "..."@;
                assert(d.drop_last().drop_last().drop_last() =~= Seq::<char>::empty());
            }
        }
    }
    let len = byte_length(&base);
    let max = config.max_value_length;
    if len > max {
        let k = char_index_at_byte(&base, max);
        let mut out = string_from_chars(&base, 0, k);
        out.append("...");
        proof {
            assert(base@.subrange(0, k as int) =~= base@.take(k as int));
            crate::text::lemma_byte_offset_injective(
                base@,
                k as int,
                choose|j: int| 0 <= j <= base@.len() && #[trigger] byte_offset_of(base@, j) == max,
            );
        }
        out
    } else {
        let out = string_from_chars(&base, 0, base.len());
        assert(base@.subrange(0, base@.len() as int) =~= base@);
        out
    }
}

/// Whether occurrences of `kind` get a hint.
pub open spec fn spec_should_show(kind: EnvVarLocationKind, config: InlayHintConfig) -> bool {
    match kind {
        EnvVarLocationKind::DirectReference => config.direct_references,
        EnvVarLocationKind::BindingDeclaration => config.binding_declarations,
        EnvVarLocationKind::BindingUsage => config.binding_usages,
        EnvVarLocationKind::PropertyAccess => config.property_accesses,
    }
}

/// The value an inlay hint shows, masked first where the masking settings
/// hide values in inlay hints.
pub fn masked_hint_display(masking: &MaskingConfig, value: &str, config: &InlayHintConfig) -> (r:
    String)
    requires
        byte_len(masking.spec_apply(value@, MaskSurface::InlayHint)) + 3 <= usize::MAX,
        cut_is_aligned(
            masking.spec_apply(value@, MaskSurface::InlayHint),
            config.max_value_length as nat,
        ),
    ensures
        r@ == spec_format_value(
            masking.spec_apply(value@, MaskSurface::InlayHint),
            config.max_value_length as nat,
        ),
{
    let shown = masking.apply(value, MaskSurface::InlayHint);
    format_value(shown.as_str(), config)
}

/// Whether occurrences of `kind` get a hint.
pub fn should_show(kind: EnvVarLocationKind, config: &InlayHintConfig) -> (b: bool)
    ensures
        b == spec_should_show(kind, *config),
{
    match kind {
        EnvVarLocationKind::DirectReference => config.direct_references,
        EnvVarLocationKind::BindingDeclaration => config.binding_declarations,
        EnvVarLocationKind::BindingUsage => config.binding_usages,
        EnvVarLocationKind::PropertyAccess => config.property_accesses,
    }
}

/// `a` comes at or before `b`.
pub open spec fn pos_le(a: Position, b: Position) -> bool {
    a.line < b.line || (a.line == b.line && a.character <= b.character)
}

/// Whether two ranges share a position: neither ends at or before the start
/// of the other.
pub open spec fn spec_overlaps(inner: Range, outer: Range) -> bool {
    !(inner.end.line < outer.start.line || (inner.end.line == outer.start.line
        && inner.end.character <= outer.start.character) || inner.start.line > outer.end.line || (
    inner.start.line == outer.end.line && inner.start.character >= outer.end.character))
}

/// Whether `inner` overlaps `outer`.
pub fn overlaps(inner: Range, outer: Range) -> (b: bool)
    ensures
        b == spec_overlaps(inner, outer),
        b == !(pos_le(inner.end, outer.start) || pos_le(outer.end, inner.start)),
{
    !(inner.end.line < outer.start.line || (inner.end.line == outer.start.line
        && inner.end.character <= outer.start.character) || inner.start.line > outer.end.line || (
    inner.start.line == outer.end.line && inner.start.character >= outer.end.character))
}

/// Overlap does not depend on which range is the requested one.
pub proof fn law_overlaps_symmetric(a: Range, b: Range)
    ensures
        spec_overlaps(a, b) == spec_overlaps(b, a),
{
}

/// A non-empty range overlaps itself, and a range overlaps nothing that ends
/// before it starts.
pub proof fn law_overlaps_self_and_disjoint(a: Range, b: Range)
    ensures
        !pos_le(a.end, a.start) ==> spec_overlaps(a, a),
        pos_le(b.end, a.start) ==> !spec_overlaps(a, b),
{
}

/// A variable whose value resolved, with what its hint shows and where it occurs.
#[derive(Debug, Clone)]
pub struct ResolvedVarHints {
    pub display: String,
    pub source: String,
    pub locations: Vec<EnvVarLocation>,
}

/// An inlay hint: the value after the occurrence, and its source as tooltip.
#[derive(Debug, Clone, PartialEq, Eq)]
pub struct InlayHint {
    pub position: Position,
    pub label: String,
    pub tooltip: String,
}

/// A candidate hint: which variable and which of its occurrences.
pub struct Candidate {
    pub var: int,
    pub loc: EnvVarLocation,
}

/// The occurrences that get a hint before any per-line limit: those inside the
/// requested range and of a kind the configuration shows, variable by
/// variable, occurrence by occurrence.
pub open spec fn candidates_of(
    vars: Seq<ResolvedVarHints>,
    range: Range,
    config: InlayHintConfig,
) -> Seq<Candidate>
    decreases vars.len(),
{
    if vars.len() == 0 {
        Seq::empty()
    } else {
        candidates_of(vars.drop_last(), range, config) + candidates_in(
            vars.len() - 1,
            vars.last().locations@,
            range,
            config,
        )
    }
}

/// The candidate occurrences of variable `var`.
pub open spec fn candidates_in(
    var: int,
    locs: Seq<EnvVarLocation>,
    range: Range,
    config: InlayHintConfig,
) -> Seq<Candidate>
    decreases locs.len(),
{
    if locs.len() == 0 {
        Seq::empty()
    } else {
        let before = candidates_in(var, locs.drop_last(), range, config);
        let l = locs.last();
        if spec_overlaps(l.range, range) && spec_should_show(l.kind, config) {
            before.push(Candidate { var, loc: l })
        } else {
            before
        }
    }
}

/// Number of candidates in `s` whose hint sits on `line`.
pub open spec fn count_on_line(s: Seq<Candidate>, line: u32) -> nat
    decreases s.len(),
{
    if s.len() == 0 {
        0
    } else {
        count_on_line(s.drop_last(), line) + (if s.last().loc.range.end.line == line {
            1nat
        } else {
            0nat
        })
    }
}

/// The candidates kept once each line is limited to `max` hints (no limit
/// when `max` is zero): a candidate is dropped when its line is already full.
pub open spec fn kept(s: Seq<Candidate>, max: nat) -> Seq<Candidate>
    decreases s.len(),
{
    if s.len() == 0 {
        Seq::empty()
    } else {
        let before = kept(s.drop_last(), max);
        if max == 0 || count_on_line(before, s.last().loc.range.end.line) < max {
            before.push(s.last())
        } else {
            before
        }
    }
}

/// Whether `h` is the hint of candidate `c`.
pub open spec fn is_hint_of(vars: Seq<ResolvedVarHints>, c: Candidate, h: InlayHint) -> bool {
    &&& h.position == c.loc.range.end
    &&& h.label@ == ": \""@ + vars[c.var].display@ + "\""@
    &&& h.tooltip@ == "Source: "@ + vars[c.var].source@
}

/// With a per-line limit, no line holds more hints than the limit.
pub proof fn law_hints_per_line_capped(s: Seq<Candidate>, max: nat, line: u32)
    requires
        max > 0,
    ensures
        count_on_line(kept(s, max), line) <= max,
    decreases s.len(),
{
    if s.len() > 0 {
        law_hints_per_line_capped(s.drop_last(), max, line);
        let before = kept(s.drop_last(), max);
        if count_on_line(before, s.last().loc.range.end.line) < max {
            assert(before.push(s.last()).drop_last() =~= before);
        }
    }
}

/// Without a per-line limit every candidate gets its hint.
pub proof fn law_no_limit_keeps_all(s: Seq<Candidate>)
    ensures
        kept(s, 0) == s,
    decreases s.len(),
{
    if s.len() > 0 {
        law_no_limit_keeps_all(s.drop_last());
        assert(s.drop_last().push(s.last()) =~= s);
    }
}

/// A (line, count) table lookup.
fn line_count(counts: &Vec<(u32, usize)>, line: u32) -> (r: usize)
    ensures
        (exists|i: int| 0 <= i < counts@.len() && counts@[i].0 == line) ==> (exists|i: int|
            0 <= i < counts@.len() && counts@[i].0 == line && counts@[i].1 == r),
        !(exists|i: int| 0 <= i < counts@.len() && counts@[i].0 == line) ==> r == 0,
{
    let mut i: usize = 0;
    while i < counts.len()
        invariant
            0 <= i <= counts.len(),
            forall|j: int| 0 <= j < i ==> counts@[j].0 != line,
        decreases counts.len() - i,
    {
        if counts[i].0 == line {
            return counts[i].1;
        }
        i += 1;
    }
    0
}


/// The (line, count) table holds, for every line, how many of `k` sit on it.
pub open spec fn counts_ok(counts: Seq<(u32, usize)>, k: Seq<Candidate>) -> bool {
    &&& forall|a: int, b: int| 0 <= a < b < counts.len() ==> (#[trigger] counts[a]).0 != (#[trigger] counts[b]).0
    &&& forall|j: int| 0 <= j < counts.len() ==> (#[trigger] counts[j]).1 == count_on_line(k, counts[j].0)
    &&& forall|line: u32|
        (forall|j: int| 0 <= j < counts.len() ==> (#[trigger] counts[j]).0 != line) ==> count_on_line(k, line) == 0
}

proof fn lemma_count_push(k: Seq<Candidate>, c: Candidate, line: u32)
    ensures
        count_on_line(k.push(c), line) == count_on_line(k, line) + (if c.loc.range.end.line
            == line {
            1nat
        } else {
            0nat
        }),
{
    assert(k.push(c).drop_last() =~= k);
}

/// Records one more hint on `line` in the table.
fn bump_line(counts: &mut Vec<(u32, usize)>, line: u32, Ghost(k): Ghost<Seq<Candidate>>, Ghost(c): Ghost<Candidate>)
    requires
        counts_ok(old(counts)@, k),
        c.loc.range.end.line == line,
        count_on_line(k, line) < usize::MAX,
    ensures
        counts_ok(final(counts)@, k.push(c)),
{
    proof {
        assert forall|x: u32| true implies count_on_line(k.push(c), x) == count_on_line(k, x) + (if x == line { 1nat } else { 0nat }) by {
            lemma_count_push(k, c, x);
        }
    }
    let mut i: usize = 0;
    while i < counts.len()
        invariant
            0 <= i <= counts.len(),
            counts@ == old(counts)@,
            counts_ok(counts@, k),
            forall|j: int| 0 <= j < i ==> counts@[j].0 != line,
        ensures
            0 <= i <= counts.len(),
            counts@ == old(counts)@,
            counts_ok(counts@, k),
            forall|j: int| 0 <= j < i ==> counts@[j].0 != line,
            i < counts.len() ==> counts@[i as int].0 == line,
        decreases counts.len() - i,
    {
        if counts[i].0 == line {
            break;
        }
        i += 1;
    }
    let ghost kc = k.push(c);
    if i < counts.len() {
        let n = counts[i].1;
        proof {
            assert(counts@[i as int].1 == count_on_line(k, counts@[i as int].0));
        }
        let ghost before = counts@;
        counts.set(i, (line, n + 1));
        proof {
            assert forall|j: int| 0 <= j < counts@.len() implies (#[trigger] counts@[j]).1 == count_on_line(kc, counts@[j].0) by {
                lemma_count_push(k, c, counts@[j].0);
                if j != i {
                    assert(counts@[j] == before[j]);
                    assert(before[i as int].0 == line);
                    assert(before[j].1 == count_on_line(k, before[j].0));
                }
            }
            assert forall|x: u32| (forall|j: int| 0 <= j < counts@.len() ==> (#[trigger] counts@[j]).0 != x) implies count_on_line(kc, x) == 0 by {
                lemma_count_push(k, c, x);
                assert(counts@[i as int].0 == line);
                assert forall|j: int| 0 <= j < before.len() implies (#[trigger] before[j]).0 != x by {
                    if j != i {
                        assert(counts@[j] == before[j]);
                    }
                }
            }
        }
    } else {
        let ghost before = counts@;
        counts.push((line, 1));
        proof {
            assert(count_on_line(k, line) == 0);
            assert forall|j: int| 0 <= j < counts@.len() implies (#[trigger] counts@[j]).1 == count_on_line(kc, counts@[j].0) by {
                lemma_count_push(k, c, counts@[j].0);
                if j < before.len() {
                    assert(counts@[j] == before[j]);
                    assert(before[j].1 == count_on_line(k, before[j].0));
                }
            }
            assert forall|x: u32| (forall|j: int| 0 <= j < counts@.len() ==> (#[trigger] counts@[j]).0 != x) implies count_on_line(kc, x) == 0 by {
                lemma_count_push(k, c, x);
                assert(counts@[before.len() as int].0 == line);
                assert forall|j: int| 0 <= j < before.len() implies (#[trigger] before[j]).0 != x by {
                    assert(counts@[j] == before[j]);
                }
            }
        }
    }
}

/// The hint shown for an occurrence of a resolved variable.
fn make_hint(var: &ResolvedVarHints, loc: &EnvVarLocation) -> (h: InlayHint)
    ensures
        h.position == loc.range.end,
        h.label@ == ": \""@ + var.display@ + "\""@,
        h.tooltip@ == "Source: "@ + var.source@,
{
    let mut label = concat(": \"", var.display.as_str());
    label.append("\"");
    InlayHint { position: loc.range.end, label, tooltip: concat("Source: ", var.source.as_str()) }
}

/// The inlay hints for `range`: for every resolved variable, in order, a hint
/// after each of its occurrences that overlaps the range and whose kind the
/// configuration shows, at most `max_hints_per_line` per line when that is
/// positive.
pub fn build_inlay_hints(vars: &Vec<ResolvedVarHints>, range: Range, config: &InlayHintConfig) -> (hints: Vec<InlayHint>)
    ensures
        hints@.len() == kept(candidates_of(vars@, range, *config), config.max_hints_per_line as nat).len(),
        forall|i: int|
            0 <= i < hints@.len() ==> is_hint_of(
                vars@,
                #[trigger] kept(candidates_of(vars@, range, *config), config.max_hints_per_line as nat)[i],
                hints@[i],
            ),
{
    let max = config.max_hints_per_line;
    let ghost m = max as nat;
    let mut hints: Vec<InlayHint> = Vec::new();
    let mut counts: Vec<(u32, usize)> = Vec::new();
    let ghost mut cands: Seq<Candidate> = Seq::empty();
    let mut v: usize = 0;
    proof {
        assert(vars@.take(0) =~= Seq::<ResolvedVarHints>::empty());
    }
    while v < vars.len()
        invariant
            0 <= v <= vars.len(),
            m == max as nat,
            max == config.max_hints_per_line,
            cands == candidates_of(vars@.take(v as int), range, *config),
            hints@.len() == kept(cands, m).len(),
            forall|i: int| 0 <= i < hints@.len() ==> is_hint_of(vars@, #[trigger] kept(cands, m)[i], hints@[i]),
            m > 0 ==> counts_ok(counts@, kept(cands, m)),
        decreases vars.len() - v,
    {
        let locs = &vars[v].locations;
        let ghost base = cands;
        let mut l: usize = 0;
        proof {
            assert(locs@.take(0) =~= Seq::<EnvVarLocation>::empty());
            assert(base + candidates_in(v as int, locs@.take(0), range, *config) =~= base);
        }
        while l < locs.len()
            invariant
                0 <= v < vars.len(),
                locs@ == vars@[v as int].locations@,
                0 <= l <= locs.len(),
                m == max as nat,
                max == config.max_hints_per_line,
                cands == base + candidates_in(v as int, locs@.take(l as int), range, *config),
                hints@.len() == kept(cands, m).len(),
                forall|i: int| 0 <= i < hints@.len() ==> is_hint_of(vars@, #[trigger] kept(cands, m)[i], hints@[i]),
                m > 0 ==> counts_ok(counts@, kept(cands, m)),
            decreases locs.len() - l,
        {
            let loc = &locs[l];
            proof {
                assert(locs@.take(l + 1).drop_last() =~= locs@.take(l as int));
            }
            if overlaps(loc.range, range) && should_show(loc.kind, config) {
                let ghost c = Candidate { var: v as int, loc: *loc };
                let ghost old_cands = cands;
                proof {
                    cands = cands.push(c);
                    assert(base + candidates_in(v as int, locs@.take(l + 1), range, *config)
                        =~= (base + candidates_in(v as int, locs@.take(l as int), range, *config)).push(c));
                    assert(cands.drop_last() =~= old_cands);
                }
                let line = loc.range.end.line;
                let keep = if max > 0 {
                    let n = line_count(&counts, line);
                    proof {
                        if exists|i: int| 0 <= i < counts@.len() && counts@[i].0 == line {
                            let i = choose|i: int| 0 <= i < counts@.len() && counts@[i].0 == line && counts@[i].1 == n;
                            assert(counts@[i].1 == count_on_line(kept(old_cands, m), counts@[i].0));
                        } else {
                            assert(forall|j: int| 0 <= j < counts@.len() ==> (#[trigger] counts@[j]).0 != line);
                        }
                        assert(n == count_on_line(kept(old_cands, m), line));
                    }
                    if n < max {
                        bump_line(&mut counts, line, Ghost(kept(old_cands, m)), Ghost(c));
                        true
                    } else {
                        false
                    }
                } else {
                    true
                };
                if keep {
                    let h = make_hint(&vars[v], loc);
                    hints.push(h);
                    proof {
                        assert(kept(cands, m) == kept(old_cands, m).push(c));
                        assert forall|i: int| 0 <= i < hints@.len() implies is_hint_of(vars@, #[trigger] kept(cands, m)[i], hints@[i]) by {
                            if i < hints@.len() - 1 {
                                assert(kept(cands, m)[i] == kept(old_cands, m)[i]);
                            }
                        }
                    }
                } else {
                    assert(kept(cands, m) == kept(old_cands, m));
                }
            } else {
                proof {
                    assert(base + candidates_in(v as int, locs@.take(l + 1), range, *config)
                        =~= base + candidates_in(v as int, locs@.take(l as int), range, *config));
                }
            }
            l += 1;
        }
        proof {
            assert(locs@.take(locs@.len() as int) =~= locs@);
            assert(vars@.take(v + 1).drop_last() =~= vars@.take(v as int));
            assert(candidates_of(vars@.take(v + 1), range, *config) == candidates_of(vars@.take(v as int), range, *config) + candidates_in(v as int, vars@[v as int].locations@, range, *config));
        }
        v += 1;
    }
    proof {
        assert(vars@.take(vars@.len() as int) =~= vars@);
    }
    hints
}

/// A variable whose value resolved, with the value as resolution gave it, its
/// source and where it occurs.
#[derive(Debug, Clone)]
pub struct ResolvedVarValue {
    pub value: String,
    pub source: String,
    pub locations: Vec<EnvVarLocation>,
}

/// Whether the hint text of value `v` can be cut without splitting a
/// character, once masked.
pub open spec fn value_fits_hint(masking: MaskingConfig, config: InlayHintConfig, v: Seq<char>) -> bool {
    &&& byte_len(masking.spec_apply(v, MaskSurface::InlayHint)) + 3 <= usize::MAX
    &&& cut_is_aligned(
        masking.spec_apply(v, MaskSurface::InlayHint),
        config.max_value_length as nat,
    )
}

/// Whether `vars` are `values` as hints show them: each value masked where
/// the masking settings hide values in inlay hints, then shortened; source
/// and occurrences as they are.
pub open spec fn shown_as_hints(
    masking: MaskingConfig,
    config: InlayHintConfig,
    values: Seq<ResolvedVarValue>,
    vars: Seq<ResolvedVarHints>,
) -> bool {
    &&& vars.len() == values.len()
    &&& forall|i: int|
        0 <= i < vars.len() ==> {
            &&& #[trigger] vars[i].display@ == spec_format_value(
                masking.spec_apply(values[i].value@, MaskSurface::InlayHint),
                config.max_value_length as nat,
            )
            &&& vars[i].source@ == values[i].source@
            &&& vars[i].locations@ == values[i].locations@
        }
}

/// Whether `hints` are the hints of `vars` in `range`.
pub open spec fn are_hints_of(
    vars: Seq<ResolvedVarHints>,
    range: Range,
    config: InlayHintConfig,
    hints: Seq<InlayHint>,
) -> bool {
    &&& hints.len() == kept(candidates_of(vars, range, config), config.max_hints_per_line as nat).len()
    &&& forall|i: int|
        0 <= i < hints.len() ==> is_hint_of(
            vars,
            #[trigger] kept(candidates_of(vars, range, config), config.max_hints_per_line as nat)[i],
            hints[i],
        )
}

/// The inlay hints of a document in `range`: none at all when inlay hints
/// are switched off; otherwise the hints of the resolved variables, each
/// showing its value masked where the masking settings hide values in inlay
/// hints, then shortened.
pub fn value_hints(
    features: &FeatureConfig,
    masking: &MaskingConfig,
    values: &Vec<ResolvedVarValue>,
    range: Range,
    config: &InlayHintConfig,
) -> (r: Option<Vec<InlayHint>>)
    requires
        forall|i: int|
            0 <= i < values@.len() ==> value_fits_hint(*masking, *config, #[trigger] values@[i].value@),
    ensures
        !features.inlay_hints ==> r is None,
        features.inlay_hints ==> (r matches Some(h) && exists|vars: Seq<ResolvedVarHints>|
            shown_as_hints(*masking, *config, values@, vars) && are_hints_of(vars, range, *config, h@)),
{
    if !features.inlay_hints {
        return None;
    }
    let mut vars: Vec<ResolvedVarHints> = Vec::new();
    let mut i: usize = 0;
    while i < values.len()
        invariant
            0 <= i <= values.len(),
            vars@.len() == i,
            forall|j: int|
                0 <= j < values@.len() ==> value_fits_hint(*masking, *config, #[trigger] values@[j].value@),
            forall|j: int|
                0 <= j < i ==> {
                    &&& #[trigger] vars@[j].display@ == spec_format_value(
                        masking.spec_apply(values@[j].value@, MaskSurface::InlayHint),
                        config.max_value_length as nat,
                    )
                    &&& vars@[j].source@ == values@[j].source@
                    &&& vars@[j].locations@ == values@[j].locations@
                },
        decreases values.len() - i,
    {
        let v = &values[i];
        assert(value_fits_hint(*masking, *config, values@[i as int].value@));
        let display = masked_hint_display(masking, v.value.as_str(), config);
        let mut locations: Vec<EnvVarLocation> = Vec::new();
        let mut k: usize = 0;
        while k < v.locations.len()
            invariant
                0 <= k <= v.locations.len(),
                locations@ == v.locations@.take(k as int),
            decreases v.locations.len() - k,
        {
            locations.push(v.locations[k]);
            k += 1;
            assert(locations@ =~= v.locations@.take(k as int));
        }
        assert(v.locations@.take(v.locations@.len() as int) =~= v.locations@);
        vars.push(ResolvedVarHints { display, source: v.source.clone(), locations });
        i += 1;
    }
    let hints = build_inlay_hints(&vars, range, config);
    assert(shown_as_hints(*masking, *config, values@, vars@));
    assert(are_hints_of(vars@, range, *config, hints@));
    Some(hints)
}

/// Each kind of occurrence has its own switch: direct references, binding
/// declarations, uses of a bound name and property accesses get hints
/// exactly when their switch is on.
pub proof fn law_each_kind_has_its_switch(kind: EnvVarLocationKind, config: InlayHintConfig)
    ensures
        kind is DirectReference ==> (spec_should_show(kind, config) <==> config.direct_references),
        kind is BindingDeclaration ==> (spec_should_show(kind, config) <==> config.binding_declarations),
        kind is BindingUsage ==> (spec_should_show(kind, config) <==> config.binding_usages),
        kind is PropertyAccess ==> (spec_should_show(kind, config) <==> config.property_accesses),
{
}

proof fn lemma_candidates_in(var: int, locs: Seq<EnvVarLocation>, range: Range, config: InlayHintConfig)
    ensures
        forall|k: int|
            0 <= k < candidates_in(var, locs, range, config).len() ==> {
                let c = #[trigger] candidates_in(var, locs, range, config)[k];
                &&& c.var == var
                &&& locs.contains(c.loc)
                &&& spec_overlaps(c.loc.range, range)
                &&& spec_should_show(c.loc.kind, config)
            },
    decreases locs.len(),
{
    if locs.len() > 0 {
        let p = locs.drop_last();
        lemma_candidates_in(var, p, range, config);
        let r = candidates_in(var, locs, range, config);
        assert forall|k: int| 0 <= k < r.len() implies {
            let c = #[trigger] r[k];
            &&& c.var == var
            &&& locs.contains(c.loc)
            &&& spec_overlaps(c.loc.range, range)
            &&& spec_should_show(c.loc.kind, config)
        } by {
            if k < candidates_in(var, p, range, config).len() {
                let c = candidates_in(var, p, range, config)[k];
                let j = choose|j: int| 0 <= j < p.len() && p[j] == c.loc;
                assert(locs[j] == p[j]);
            } else {
                assert(locs[locs.len() - 1] == locs.last());
            }
        }
    }
}

/// Every occurrence that gets a hint lies in the requested range and is of
/// a kind the configuration shows, and is an occurrence of its variable.
pub proof fn law_hints_only_for_shown_occurrences(
    vars: Seq<ResolvedVarHints>,
    range: Range,
    config: InlayHintConfig,
)
    ensures
        forall|k: int|
            0 <= k < candidates_of(vars, range, config).len() ==> {
                let c = #[trigger] candidates_of(vars, range, config)[k];
                &&& 0 <= c.var < vars.len()
                &&& vars[c.var].locations@.contains(c.loc)
                &&& spec_overlaps(c.loc.range, range)
                &&& spec_should_show(c.loc.kind, config)
            },
    decreases vars.len(),
{
    if vars.len() > 0 {
        let p = vars.drop_last();
        law_hints_only_for_shown_occurrences(p, range, config);
        let n = vars.len() - 1;
        lemma_candidates_in(n, vars.last().locations@, range, config);
        let a = candidates_of(p, range, config);
        let b = candidates_in(n, vars.last().locations@, range, config);
        let r = candidates_of(vars, range, config);
        assert(r == a + b);
        assert forall|k: int| 0 <= k < r.len() implies {
            let c = #[trigger] r[k];
            &&& 0 <= c.var < vars.len()
            &&& vars[c.var].locations@.contains(c.loc)
            &&& spec_overlaps(c.loc.range, range)
            &&& spec_should_show(c.loc.kind, config)
        } by {
            if k < a.len() {
                assert(r[k] == a[k]);
                assert(vars[a[k].var] == p[a[k].var]);
            } else {
                assert(r[k] == b[k - a.len()]);
                assert(vars[n] == vars.last());
            }
        }
    }
}

} // verus!
