//! Semantic tokens of dotenv files: the `export` keyword, keys, `=`, values
//! and comments, encoded as the protocol asks, each token relative to the one
//! before it. A span that runs over several lines gives one token per
//! non-empty line.
use crate::dotenv::{DotenvEntry, QuoteKind, Span};
use crate::position::{
    breaks_upto, is_char_boundary_of, line_start, rope_chars, rope_from_str, rope_line_col,
    spec_line_col,
};
use crate::text::{byte_len, byte_offset_of, chars_of, lemma_byte_offset_injective, lemma_byte_offset_monotone, lemma_byte_offset_step, lemma_str_len, utf8_width};
use ropey::Rope;
use vstd::prelude::*;

verus! {

/// A token as the protocol sends it: its line and start relative to the
/// token before it, its length, type and modifiers.
#[derive(Debug, Clone, Copy, PartialEq, Eq, Structural)]
pub struct SemanticToken {
    pub delta_line: u32,
    pub delta_start: u32,
    pub length: u32,
    pub token_type: u32,
    pub token_modifiers_bitset: u32,
}

/// The line and start of the last token, and the tokens so far.
pub type TokState = (u32, u32, Seq<SemanticToken>);

/// The character that starts at byte `b` of `t`.
pub open spec fn char_of(t: Seq<char>, b: int) -> int {
    choose|k: int| 0 <= k <= t.len() && byte_offset_of(t, k) == b
}

/// Index of the first LF of `t`, or its length.
pub open spec fn first_lf(t: Seq<char>) -> int
    decreases t.len(),
{
    if t.len() == 0 {
        0
    } else if t[0] == '\n' {
        0
    } else {
        1 + first_lf(t.drop_first())
    }
}

pub proof fn lemma_first_lf(t: Seq<char>)
    ensures
        0 <= first_lf(t) <= t.len(),
        first_lf(t) < t.len() ==> t[first_lf(t)] == '\n',
        forall|j: int| 0 <= j < first_lf(t) ==> t[j] != '\n',
    decreases t.len(),
{
    if t.len() > 0 && t[0] != '\n' {
        lemma_first_lf(t.drop_first());
        assert forall|j: int| 0 <= j < first_lf(t) implies t[j] != '\n' by {
            if j > 0 {
                assert(t[j] == t.drop_first()[j - 1]);
            }
        }
    }
}

/// The lines of `t` as `str::lines` yields them: split at LF, a CR before
/// the LF dropped, and no empty line after a final LF.
pub open spec fn str_lines(t: Seq<char>) -> Seq<Seq<char>>
    decreases t.len(),
{
    if t.len() == 0 {
        Seq::empty()
    } else {
        let i = first_lf(t);
        proof {
            lemma_first_lf(t);
        }
        if i >= t.len() {
            seq![t]
        } else {
            let piece = t.take(i);
            let line = if piece.len() > 0 && piece.last() == '\r' {
                piece.drop_last()
            } else {
                piece
            };
            seq![line] + str_lines(t.skip(i + 1))
        }
    }
}

/// A token at `(line, col)` after the state `s`; `None` where the line or
/// the start would run backwards.
pub open spec fn emit(s: TokState, line: u32, col: u32, len: u32, ty: u32) -> Option<TokState> {
    if line < s.0 {
        None
    } else if line == s.0 && col < s.1 {
        None
    } else {
        let dl = (line - s.0) as u32;
        let ds = if dl == 0 {
            (col - s.1) as u32
        } else {
            col
        };
        Some(
            (
                line,
                col,
                s.2.push(
                    SemanticToken {
                        delta_line: dl,
                        delta_start: ds,
                        length: len,
                        token_type: ty,
                        token_modifiers_bitset: 0,
                    },
                ),
            ),
        )
    }
}

/// A later line of a span that runs over several lines: it starts its line.
pub open spec fn emit_next_line(s: TokState, line: u32, len: u32, ty: u32) -> Option<TokState> {
    if line < s.0 {
        None
    } else {
        Some(
            (
                line,
                0,
                s.2.push(
                    SemanticToken {
                        delta_line: (line - s.0) as u32,
                        delta_start: 0,
                        length: len,
                        token_type: ty,
                        token_modifiers_bitset: 0,
                    },
                ),
            ),
        )
    }
}

/// The tokens of the lines `lines[i..]` of a span, the first of them at
/// byte `cur` of `t`; `None` where a line starts inside a character or a
/// token would come before the one before it.
pub open spec fn lines_fold(
    t: Seq<char>,
    s: TokState,
    cur: int,
    lines: Seq<Seq<char>>,
    i: int,
    first: bool,
    ty: u32,
) -> Option<TokState>
    decreases lines.len() - i,
{
    if i < 0 || i >= lines.len() {
        Some(s)
    } else {
        let l = lines[i];
        if l.len() == 0 {
            if cur + 1 > usize::MAX {
                None
            } else {
                lines_fold(t, s, cur + 1, lines, i + 1, first, ty)
            }
        } else if !is_char_boundary_of(t, cur) {
            None
        } else {
            let (tl, tc) = spec_line_col(t, char_of(t, cur));
            let next = if first {
                emit(s, tl, tc, l.len() as u32, ty)
            } else {
                emit_next_line(s, tl, l.len() as u32, ty)
            };
            match next {
                None => None,
                Some(s2) => if cur + byte_len(l) + 1 > usize::MAX {
                    None
                } else {
                    lines_fold(t, s2, cur + byte_len(l) + 1, lines, i + 1, false, ty)
                },
            }
        }
    }
}

/// The tokens of a span of type `ty` after the state `s`.
pub open spec fn span_step(t: Seq<char>, s: TokState, span: Span, ty: u32) -> Option<TokState> {
    let n = byte_len(t);
    let e = if span.end < n {
        span.end as int
    } else {
        n as int
    };
    if !is_char_boundary_of(t, span.start as int) {
        None
    } else if !(span.start <= e && is_char_boundary_of(t, e)) {
        None
    } else {
        let k0 = char_of(t, span.start as int);
        let text = t.subrange(k0, char_of(t, e));
        if text.contains('\n') {
            lines_fold(t, s, span.start as int, str_lines(text), 0, true, ty)
        } else {
            let length = (span.end - span.start) as u32;
            if length == 0 {
                Some(s)
            } else {
                let (l, c) = spec_line_col(t, k0);
                emit(s, l, c, length, ty)
            }
        }
    }
}

/// `span_step` where the state is known.
pub open spec fn opt_step(t: Seq<char>, s: Option<TokState>, span: Option<Span>, ty: u32) -> Option<TokState> {
    match s {
        None => None,
        Some(st) => match span {
            None => Some(st),
            Some(sp) => span_step(t, st, sp, ty),
        },
    }
}

/// The span of `=` at byte `pos`; `None` where `pos + 1` does not fit.
pub open spec fn equals_step(t: Seq<char>, s: Option<TokState>, pos: Option<usize>) -> Option<TokState> {
    match pos {
        None => s,
        Some(p) => if p + 1 > usize::MAX {
            None
        } else {
            opt_step(t, s, Some(Span { start: p, end: (p + 1) as usize }), 5)
        },
    }
}

/// The type of a value token: a number where it is unquoted and reads as
/// one, a string otherwise.
pub open spec fn value_type(quote: QuoteKind, numeric: bool) -> u32 {
    if quote == QuoteKind::Unquoted && numeric {
        3
    } else {
        2
    }
}

/// The tokens of one entry after the state `s`.
pub open spec fn entry_step(t: Seq<char>, s: Option<TokState>, e: DotenvEntry, numeric: bool) -> Option<TokState> {
    match e {
        DotenvEntry::Pair(p) => {
            let a = opt_step(t, s, p.export_span, 1);
            let b = opt_step(t, a, p.key_span, 0);
            let c = equals_step(t, b, p.equals_pos);
            opt_step(t, c, p.value_span, value_type(p.quote, numeric))
        },
        DotenvEntry::Comment(span) => opt_step(t, s, Some(span), 4),
        DotenvEntry::Error(_) => s,
    }
}

/// The tokens of the entries `es`, in order; `numeric` tells, per entry,
/// whether its value reads as a number.
pub open spec fn entries_fold(t: Seq<char>, es: Seq<DotenvEntry>, numeric: Seq<bool>) -> Option<TokState>
    decreases es.len(),
{
    if es.len() == 0 {
        Some((0u32, 0u32, Seq::empty()))
    } else {
        entry_step(
            t,
            entries_fold(t, es.drop_last(), numeric),
            es.last(),
            if es.len() - 1 < numeric.len() {
                numeric[es.len() - 1]
            } else {
                false
            },
        )
    }
}

/// The character of `t` that starts at byte `b`, where one does.
pub(crate) fn char_at_byte(chars: &Vec<char>, b: usize) -> (r: Option<usize>)
    requires
        byte_len(chars@) <= usize::MAX,
    ensures
        match r {
            Some(k) => k <= chars@.len() && byte_offset_of(chars@, k as int) == b && k == char_of(
                chars@,
                b as int,
            ),
            None => !is_char_boundary_of(chars@, b as int),
        },
{
    let ghost t = chars@;
    let mut j: usize = 0;
    let mut off: usize = 0;
    proof {
        assert(t.take(0) =~= Seq::<char>::empty());
        assert(t.take(t.len() as int) =~= t);
    }
    while j < chars.len() && off < b
        invariant
            t == chars@,
            byte_len(t) <= usize::MAX,
            0 <= j <= t.len(),
            off == byte_offset_of(t, j as int),
            forall|m: int| 0 <= m < j ==> byte_offset_of(t, m) < b,
        decreases t.len() - j,
    {
        proof {
            lemma_byte_offset_step(t, j as int);
            lemma_byte_offset_monotone(t, j + 1, t.len() as int);
            assert(t.take(t.len() as int) =~= t);
        }
        off = off + utf8_width(chars[j]);
        j = j + 1;
    }
    if off == b {
        proof {
            assert forall|k: int| 0 <= k <= t.len() && byte_offset_of(t, k) == b implies k == j by {
                lemma_byte_offset_injective(t, k, j as int);
            }
            assert(is_char_boundary_of(t, b as int));
            let c = char_of(t, b as int);
            assert(0 <= c <= t.len() && byte_offset_of(t, c) == b);
        }
        Some(j)
    } else {
        proof {
            assert forall|k: int| 0 <= k <= t.len() implies byte_offset_of(t, k) != b by {
                if k < j {
                } else if k == j {
                } else {
                    lemma_byte_offset_monotone(t, j as int, k);
                }
            }
            if j < t.len() {
                assert(off > b);
            } else {
                assert(off < b || off > b);
            }
        }
        None
    }
}

/// The characters of each line, in order.
pub open spec fn lines_view(v: Seq<Vec<char>>) -> Seq<Seq<char>> {
    Seq::new(v.len(), |i: int| v[i]@)
}

/// The lines of `chars[from..to]`, as `str::lines` yields them.
fn split_lines(chars: &Vec<char>, from: usize, to: usize) -> (r: Vec<Vec<char>>)
    requires
        from <= to <= chars@.len(),
    ensures
        lines_view(r@) == str_lines(chars@.subrange(from as int, to as int)),
{
    let ghost t = chars@.subrange(from as int, to as int);
    let mut out: Vec<Vec<char>> = Vec::new();
    let mut s: usize = from;
    proof {
        assert(t.skip(0) =~= t);
        assert(lines_view(out@) + str_lines(t.skip(0)) =~= str_lines(t));
    }
    while s < to
        invariant
            from <= s <= to <= chars@.len(),
            t == chars@.subrange(from as int, to as int),
            lines_view(out@) + str_lines(t.skip(s - from)) == str_lines(t),
        decreases to - s,
    {
        let ghost rest = t.skip(s - from);
        let mut i: usize = s;
        while i < to && chars[i] != '\n'
            invariant
                s <= i <= to <= chars@.len(),
                forall|j: int| s <= j < i ==> chars@[j] != '\n',
            decreases to - i,
        {
            i += 1;
        }
        proof {
            assert(rest =~= chars@.subrange(s as int, to as int));
            lemma_first_lf(rest);
            assert forall|j: int| 0 <= j < i - s implies rest[j] != '\n' by {
                assert(rest[j] == chars@[s + j]);
            }
            if i < to {
                assert(rest[i - s] == '\n');
            }
            if first_lf(rest) < i - s {
                assert(rest[first_lf(rest)] == '\n');
            }
            if first_lf(rest) > i - s {
                assert(rest[i - s] != '\n');
            }
            assert(first_lf(rest) == i - s);
        }
        let mut line: Vec<char> = Vec::new();
        let mut j: usize = s;
        while j < i
            invariant
                s <= j <= i <= to <= chars@.len(),
                line@ == chars@.subrange(s as int, j as int),
            decreases i - j,
        {
            line.push(chars[j]);
            j += 1;
            assert(line@ =~= chars@.subrange(s as int, j as int));
        }
        if i < to {
            if line.len() > 0 && line[line.len() - 1] == '\r' {
                line.pop();
            }
            let ghost before = out@;
            out.push(line);
            proof {
                let piece = rest.take(i - s);
                assert(piece =~= chars@.subrange(s as int, i as int));
                assert(rest.skip(i - s + 1) =~= t.skip(i + 1 - from));
                assert(lines_view(out@) =~= lines_view(before).push(out@[before.len() as int]@));
                assert(str_lines(rest) == seq![out@[before.len() as int]@] + str_lines(
                    rest.skip(i - s + 1),
                ));
                assert(lines_view(out@) + str_lines(t.skip(i + 1 - from)) =~= lines_view(before)
                    + str_lines(rest));
            }
            s = i + 1;
        } else {
            let ghost before = out@;
            out.push(line);
            proof {
                assert(rest.len() > 0);
                assert(str_lines(rest) == seq![rest]);
                assert(lines_view(out@) =~= lines_view(before).push(rest));
                assert(t.skip(to - from) =~= Seq::<char>::empty());
                assert(lines_view(out@) + str_lines(t.skip(to - from)) =~= lines_view(before)
                    + str_lines(rest));
            }
            s = to;
        }
    }
    proof {
        assert(t.skip(to - from) =~= Seq::<char>::empty());
        assert(lines_view(out@) =~= lines_view(out@) + str_lines(t.skip(to - from)));
    }
    out
}

/// The number of bytes of `v` in UTF-8, where it fits a `usize`.
fn utf8_len(v: &Vec<char>) -> (r: Option<usize>)
    ensures
        match r {
            Some(n) => n == byte_len(v@),
            None => byte_len(v@) > usize::MAX,
        },
{
    let mut n: usize = 0;
    let mut i: usize = 0;
    proof {
        assert(v@.take(0) =~= Seq::<char>::empty());
    }
    while i < v.len()
        invariant
            0 <= i <= v.len(),
            n == byte_len(v@.take(i as int)),
        decreases v.len() - i,
    {
        proof {
            assert(v@.take(i + 1).drop_last() =~= v@.take(i as int));
        }
        let w = utf8_width(v[i]);
        match n.checked_add(w) {
            Some(m) => n = m,
            None => {
                proof {
                    lemma_byte_len_prefix(v@, i + 1);
                }
                return None;
            },
        }
        i += 1;
    }
    assert(v@.take(v.len() as int) =~= v@);
    Some(n)
}

proof fn lemma_byte_len_prefix(v: Seq<char>, k: int)
    requires
        0 <= k <= v.len(),
    ensures
        byte_len(v.take(k)) <= byte_len(v),
{
    lemma_byte_offset_monotone(v, k, v.len() as int);
    assert(v.take(v.len() as int) =~= v);
}

/// Whether `chars[from..to]` holds an LF.
fn has_lf(chars: &Vec<char>, from: usize, to: usize) -> (b: bool)
    requires
        from <= to <= chars@.len(),
    ensures
        b == chars@.subrange(from as int, to as int).contains('\n'),
{
    let mut i: usize = from;
    while i < to
        invariant
            from <= i <= to <= chars@.len(),
            forall|j: int| from <= j < i ==> chars@[j] != '\n',
        decreases to - i,
    {
        if chars[i] == '\n' {
            assert(chars@.subrange(from as int, to as int)[i - from] == '\n');
            return true;
        }
        i += 1;
    }
    assert forall|j: int| 0 <= j < to - from implies chars@.subrange(from as int, to as int)[j]
        != '\n' by {
        assert(chars@.subrange(from as int, to as int)[j] == chars@[from + j]);
    }
    false
}

/// Collects tokens, remembering where the last one started.
struct TokenWriter {
    pre_line: u32,
    pre_start: u32,
    tokens: Vec<SemanticToken>,
}

impl TokenWriter {
    spec fn state(&self) -> TokState {
        (self.pre_line, self.pre_start, self.tokens@)
    }

    fn emit(&mut self, line: u32, col: u32, len: u32, ty: u32) -> (ok: bool)
        ensures
            ok == emit(old(self).state(), line, col, len, ty) is Some,
            ok ==> Some(final(self).state()) == emit(old(self).state(), line, col, len, ty),
    {
        if line < self.pre_line || (line == self.pre_line && col < self.pre_start) {
            return false;
        }
        let dl = line - self.pre_line;
        let ds = if dl == 0 {
            col - self.pre_start
        } else {
            col
        };
        self.tokens.push(
            SemanticToken {
                delta_line: dl,
                delta_start: ds,
                length: len,
                token_type: ty,
                token_modifiers_bitset: 0,
            },
        );
        self.pre_line = line;
        self.pre_start = col;
        true
    }

    fn emit_next_line(&mut self, line: u32, len: u32, ty: u32) -> (ok: bool)
        ensures
            ok == emit_next_line(old(self).state(), line, len, ty) is Some,
            ok ==> Some(final(self).state()) == emit_next_line(old(self).state(), line, len, ty),
    {
        if line < self.pre_line {
            return false;
        }
        self.tokens.push(
            SemanticToken {
                delta_line: line - self.pre_line,
                delta_start: 0,
                length: len,
                token_type: ty,
                token_modifiers_bitset: 0,
            },
        );
        self.pre_line = line;
        self.pre_start = 0;
        true
    }

    /// The tokens of `span`, of type `ty`.
    fn span(&mut self, rope: &Rope, chars: &Vec<char>, span: Span, ty: u32) -> (ok: bool)
        requires
            rope_chars(*rope) == chars@,
            byte_len(chars@) <= usize::MAX,
        ensures
            ok == span_step(chars@, old(self).state(), span, ty) is Some,
            ok ==> Some(final(self).state()) == span_step(chars@, old(self).state(), span, ty),
    {
        let ghost t = chars@;
        let ghost s0 = self.state();
        let k0 = match char_at_byte(chars, span.start) {
            Some(k) => k,
            None => return false,
        };
        proof {
            assert(t.take(t.len() as int) =~= t);
        }
        let n = crate::text::utf8_len_total(chars);
        let e = if span.end < n {
            span.end
        } else {
            n
        };
        if span.start > e {
            return false;
        }
        let k1 = match char_at_byte(chars, e) {
            Some(k) => k,
            None => return false,
        };
        if k1 < k0 {
            proof {
                lemma_byte_offset_monotone(t, k1 as int, k0 as int);
            }
            return false;
        }
        if has_lf(chars, k0, k1) {
            let lines = split_lines(chars, k0, k1);
            let ghost lv = lines_view(lines@);
            proof {
                assert(byte_offset_of(t, k0 as int) == span.start);
                assert(is_char_boundary_of(t, span.start as int));
                assert(byte_offset_of(t, k1 as int) == e);
                assert(is_char_boundary_of(t, e as int));
                assert(span_step(t, s0, span, ty) == lines_fold(
                    t,
                    s0,
                    span.start as int,
                    lv,
                    0,
                    true,
                    ty,
                ));
            }
            let mut cur: usize = span.start;
            let mut first = true;
            let mut i: usize = 0;
            while i < lines.len()
                invariant
                    rope_chars(*rope) == chars@,
                    t == chars@,
                    byte_len(t) <= usize::MAX,
                    lv == lines_view(lines@),
                    s0 == old(self).state(),
                    span_step(t, s0, span, ty) == lines_fold(t, s0, span.start as int, lv, 0, true, ty),
                    0 <= i <= lines.len(),
                    lines_fold(t, self.state(), cur as int, lv, i as int, first, ty) == lines_fold(
                        t,
                        s0,
                        span.start as int,
                        lv,
                        0,
                        true,
                        ty,
                    ),
                decreases lines.len() - i,
            {
                let l = &lines[i];
                assert(lv[i as int] == l@);
                assert(lv.len() == lines.len());
                if l.len() == 0 {
                    match cur.checked_add(1) {
                        Some(c) => cur = c,
                        None => {
                            assert(lines_fold(t, self.state(), cur as int, lv, i as int, first, ty)
                                is None);
                            return false;
                        },
                    }
                } else {
                    let k = match char_at_byte(chars, cur) {
                        Some(k) => k,
                        None => {
                            assert(lines_fold(t, self.state(), cur as int, lv, i as int, first, ty)
                                is None);
                            return false;
                        },
                    };
                    let (tl, tc) = rope_line_col(rope, cur);
                    let ok = if first {
                        self.emit(tl as u32, tc as u32, l.len() as u32, ty)
                    } else {
                        self.emit_next_line(tl as u32, l.len() as u32, ty)
                    };
                    if !ok {
                        return false;
                    }
                    let bl = match utf8_len(l) {
                        Some(b) => b,
                        None => return false,
                    };
                    let c1 = match cur.checked_add(bl) {
                        Some(c) => c,
                        None => return false,
                    };
                    match c1.checked_add(1) {
                        Some(c) => cur = c,
                        None => return false,
                    }
                    first = false;
                }
                i += 1;
            }
            true
        } else {
            let length = (span.end - span.start) as u32;
            if length == 0 {
                return true;
            }
            let (l, c) = rope_line_col(rope, span.start);
            self.emit(l as u32, c as u32, length, ty)
        }
    }
}

impl TokenWriter {
    /// The tokens of an optional span.
    fn opt_span(&mut self, rope: &Rope, chars: &Vec<char>, span: Option<Span>, ty: u32) -> (ok: bool)
        requires
            rope_chars(*rope) == chars@,
            byte_len(chars@) <= usize::MAX,
        ensures
            ok == opt_step(chars@, Some(old(self).state()), span, ty) is Some,
            ok ==> Some(final(self).state()) == opt_step(chars@, Some(old(self).state()), span, ty),
    {
        match span {
            Some(sp) => self.span(rope, chars, sp, ty),
            None => true,
        }
    }

    /// The tokens of one entry.
    fn entry(&mut self, rope: &Rope, chars: &Vec<char>, e: &DotenvEntry, numeric: bool) -> (ok: bool)
        requires
            rope_chars(*rope) == chars@,
            byte_len(chars@) <= usize::MAX,
        ensures
            ok == entry_step(chars@, Some(old(self).state()), *e, numeric) is Some,
            ok ==> Some(final(self).state()) == entry_step(
                chars@,
                Some(old(self).state()),
                *e,
                numeric,
            ),
    {
        match e {
            DotenvEntry::Pair(p) => {
                if !self.opt_span(rope, chars, p.export_span, 1) {
                    return false;
                }
                if !self.opt_span(rope, chars, p.key_span, 0) {
                    return false;
                }
                match p.equals_pos {
                    Some(pos) => {
                        if pos == usize::MAX {
                            return false;
                        }
                        if !self.opt_span(rope, chars, Some(Span { start: pos, end: pos + 1 }), 5) {
                            return false;
                        }
                    },
                    None => {},
                }
                let ty: u32 = if p.quote == QuoteKind::Unquoted && numeric {
                    3
                } else {
                    2
                };
                self.opt_span(rope, chars, p.value_span, ty)
            },
            DotenvEntry::Comment(span) => self.span(rope, chars, *span, 4),
            DotenvEntry::Error(_) => true,
        }
    }
}

/// Where dotenv semantic tokens come from, and the legend they refer to.
pub struct SemanticTokenProvider;

impl SemanticTokenProvider {
    /// The token types, by index: keys, `export`, values, numeric values,
    /// comments and `=`.
    pub fn legend_types() -> (r: Vec<&'static str>)
        ensures
            r@ == seq!["property", "keyword", "string", "number", "comment", "operator"],
    {
        vec!["property", "keyword", "string", "number", "comment", "operator"]
    }

    /// The token modifiers, by bit.
    pub fn legend_modifiers() -> (r: Vec<&'static str>)
        ensures
            r@ == seq!["declaration", "static", "abstract"],
    {
        vec!["declaration", "static", "abstract"]
    }

    /// The semantic tokens of a dotenv file holding `content` and parsed
    /// into `entries`; `numeric[i]` tells whether the value of entry `i`
    /// reads as a number. `None` where a span does not fit the text: one that
    /// starts or ends inside a character, or that runs backwards.
    pub fn extract_tokens(content: &str, entries: &Vec<DotenvEntry>, numeric: &Vec<bool>) -> (r:
        Option<Vec<SemanticToken>>)
        requires
            byte_len(content@) <= usize::MAX,
        ensures
            match r {
                Some(v) => entries_fold(content@, entries@, numeric@) matches Some(s) && v@ == s.2,
                None => entries_fold(content@, entries@, numeric@) is None,
            },
    {
        let chars = chars_of(content);
        let rope = rope_from_str(content);
        let mut w = TokenWriter { pre_line: 0, pre_start: 0, tokens: Vec::new() };
        let mut i: usize = 0;
        proof {
            assert(entries@.take(0) =~= Seq::<DotenvEntry>::empty());
            assert(w.state() =~= (0u32, 0u32, Seq::<SemanticToken>::empty()));
        }
        while i < entries.len()
            invariant
                chars@ == content@,
                rope_chars(rope) == chars@,
                byte_len(chars@) <= usize::MAX,
                0 <= i <= entries.len(),
                Some(w.state()) == entries_fold(content@, entries@.take(i as int), numeric@),
            decreases entries.len() - i,
        {
            let num = if i < numeric.len() {
                numeric[i]
            } else {
                false
            };
            proof {
                assert(entries@.take(i + 1).drop_last() =~= entries@.take(i as int));
                assert(entries@.take(i + 1).last() == entries@[i as int]);
            }
            if !w.entry(&rope, &chars, &entries[i], num) {
                proof {
                    lemma_fold_none_stays(content@, entries@, numeric@, i as int + 1);
                }
                return None;
            }
            i += 1;
        }
        assert(entries@.take(entries.len() as int) =~= entries@);
        Some(w.tokens)
    }
}

proof fn lemma_step_none(t: Seq<char>, e: DotenvEntry, numeric: bool)
    ensures
        entry_step(t, None, e, numeric) is None,
{
}

/// Once a prefix of the entries fails, the whole of them fails.
proof fn lemma_fold_none_stays(t: Seq<char>, es: Seq<DotenvEntry>, numeric: Seq<bool>, k: int)
    requires
        0 <= k <= es.len(),
        entries_fold(t, es.take(k), numeric) is None,
    ensures
        entries_fold(t, es, numeric) is None,
    decreases es.len() - k,
{
    if k < es.len() {
        assert(es.take(k + 1).drop_last() =~= es.take(k));
        lemma_step_none(t, es.take(k + 1).last(), if k < numeric.len() { numeric[k] } else { false });
        lemma_fold_none_stays(t, es, numeric, k + 1);
    } else {
        assert(es.take(k) =~= es);
    }
}

/// The line a decoder reaches after the tokens `ts`: the sum of their line
/// deltas.
pub open spec fn decoded_line(ts: Seq<SemanticToken>) -> int
    decreases ts.len(),
{
    if ts.len() == 0 {
        0
    } else {
        decoded_line(ts.drop_last()) + ts.last().delta_line
    }
}

pub open spec fn lines_agree(s: TokState) -> bool {
    s.0 == decoded_line(s.2)
}

proof fn lemma_emit_agrees(s: TokState, line: u32, col: u32, len: u32, ty: u32)
    requires
        lines_agree(s),
    ensures
        emit(s, line, col, len, ty) matches Some(s2) ==> lines_agree(s2),
        emit_next_line(s, line, len, ty) matches Some(s2) ==> lines_agree(s2),
{
    if let Some(s2) = emit(s, line, col, len, ty) {
        assert(s2.2.drop_last() =~= s.2);
    }
    if let Some(s2) = emit_next_line(s, line, len, ty) {
        assert(s2.2.drop_last() =~= s.2);
    }
}

proof fn lemma_lines_fold_agrees(
    t: Seq<char>,
    s: TokState,
    cur: int,
    lines: Seq<Seq<char>>,
    i: int,
    first: bool,
    ty: u32,
)
    requires
        lines_agree(s),
    ensures
        lines_fold(t, s, cur, lines, i, first, ty) matches Some(s2) ==> lines_agree(s2),
    decreases lines.len() - i,
{
    if 0 <= i < lines.len() {
        let l = lines[i];
        if l.len() == 0 {
            if cur + 1 <= usize::MAX {
                lemma_lines_fold_agrees(t, s, cur + 1, lines, i + 1, first, ty);
            }
        } else if is_char_boundary_of(t, cur) {
            let (tl, tc) = spec_line_col(t, char_of(t, cur));
            lemma_emit_agrees(s, tl, tc, l.len() as u32, ty);
            let next = if first {
                emit(s, tl, tc, l.len() as u32, ty)
            } else {
                emit_next_line(s, tl, l.len() as u32, ty)
            };
            if let Some(s2) = next {
                if cur + byte_len(l) + 1 <= usize::MAX {
                    lemma_lines_fold_agrees(t, s2, cur + byte_len(l) + 1, lines, i + 1, false, ty);
                }
            }
        }
    }
}

proof fn lemma_opt_step_agrees(t: Seq<char>, s: Option<TokState>, span: Option<Span>, ty: u32)
    requires
        s matches Some(st) ==> lines_agree(st),
    ensures
        opt_step(t, s, span, ty) matches Some(s2) ==> lines_agree(s2),
{
    if let Some(st) = s {
        if let Some(sp) = span {
            let n = byte_len(t);
            let e = if sp.end < n {
                sp.end as int
            } else {
                n as int
            };
            if is_char_boundary_of(t, sp.start as int) && sp.start <= e && is_char_boundary_of(t, e) {
                let k0 = char_of(t, sp.start as int);
                let text = t.subrange(k0, char_of(t, e));
                if text.contains('\n') {
                    lemma_lines_fold_agrees(t, st, sp.start as int, str_lines(text), 0, true, ty);
                } else {
                    let (l, c) = spec_line_col(t, k0);
                    lemma_emit_agrees(st, l, c, (sp.end - sp.start) as u32, ty);
                }
            }
        }
    }
}

proof fn lemma_entries_fold_agrees(t: Seq<char>, es: Seq<DotenvEntry>, numeric: Seq<bool>)
    ensures
        entries_fold(t, es, numeric) matches Some(s) ==> lines_agree(s),
    decreases es.len(),
{
    if es.len() == 0 {
        assert(lines_agree((0u32, 0u32, Seq::<SemanticToken>::empty())));
    } else {
        let prev = entries_fold(t, es.drop_last(), numeric);
        lemma_entries_fold_agrees(t, es.drop_last(), numeric);
        let num = if es.len() - 1 < numeric.len() {
            numeric[es.len() - 1]
        } else {
            false
        };
        match es.last() {
            DotenvEntry::Pair(p) => {
                let a = opt_step(t, prev, p.export_span, 1);
                lemma_opt_step_agrees(t, prev, p.export_span, 1);
                let b = opt_step(t, a, p.key_span, 0);
                lemma_opt_step_agrees(t, a, p.key_span, 0);
                let c = equals_step(t, b, p.equals_pos);
                if let Some(pos) = p.equals_pos {
                    if pos + 1 <= usize::MAX {
                        lemma_opt_step_agrees(t, b, Some(Span { start: pos, end: (pos + 1) as usize }), 5);
                    }
                }
                lemma_opt_step_agrees(t, c, p.value_span, value_type(p.quote, num));
            },
            DotenvEntry::Comment(span) => {
                lemma_opt_step_agrees(t, prev, Some(span), 4);
            },
            DotenvEntry::Error(_) => {},
        }
    }
}

/// Decoding the tokens of a file line by line lands on the line of the last
/// token: each token's line delta is its line less the line before it.
pub proof fn law_token_lines_decode(t: Seq<char>, es: Seq<DotenvEntry>, numeric: Seq<bool>)
    ensures
        entries_fold(t, es, numeric) matches Some(s) ==> s.0 == decoded_line(s.2),
{
    lemma_entries_fold_agrees(t, es, numeric);
}

} // verus!
