//! Editor positions: lines and columns computed from byte offsets, with the
//! line-break rules of the rope the server keeps documents in, and a plain
//! newline count used for dotenv spans.
use crate::text::{byte_len, byte_offset_of, chars_of, lemma_byte_offset_step, utf8_width, lemma_byte_offset_injective, lemma_byte_offset_monotone, lemma_str_len};
use ropey::{Rope, RopeSlice};
use vstd::prelude::*;

verus! {

/// A zero-based line and character position.
#[derive(Debug, Clone, Copy, PartialEq, Eq, Structural)]
pub struct Position {
    pub line: u32,
    pub character: u32,
}

/// A half-open span between two positions.
#[derive(Debug, Clone, Copy, PartialEq, Eq, Structural)]
pub struct Range {
    pub start: Position,
    pub end: Position,
}

impl Position {
    pub fn new(line: u32, character: u32) -> (p: Self)
        ensures
            p.line == line,
            p.character == character,
    {
        Position { line, character }
    }
}

impl Range {
    pub fn new(start: Position, end: Position) -> (r: Self)
        ensures
            r.start == start,
            r.end == end,
    {
        Range { start, end }
    }
}

/// A character that ends a line on its own: LF, VT, FF, NEL, LS and PS.
pub open spec fn is_single_break(c: char) -> bool {
    c == '\n' || c == '\u{0B}' || c == '\u{0C}' || c == '\u{85}' || c == '\u{2028}' || c
        == '\u{2029}'
}

/// Whether a line break ends just before character position `e` of `t`. A CR
/// ends a line unless an LF follows it, in which case the pair ends one line.
pub open spec fn is_break_end(t: Seq<char>, e: int) -> bool {
    1 <= e <= t.len() && (is_single_break(t[e - 1]) || (t[e - 1] == '\r' && (e == t.len() || t[e]
        != '\n')))
}

/// Number of line breaks that end at or before character position `k`.
pub open spec fn breaks_upto(t: Seq<char>, k: int) -> nat
    decreases k,
{
    if k <= 0 {
        0
    } else {
        breaks_upto(t, k - 1) + (if is_break_end(t, k) {
            1nat
        } else {
            0nat
        })
    }
}

/// Character position at which the line holding position `k` starts.
pub open spec fn line_start(t: Seq<char>, k: int) -> nat
    decreases k,
{
    if k <= 0 {
        0
    } else if is_break_end(t, k) {
        k as nat
    } else {
        line_start(t, k - 1)
    }
}

/// Whether byte offset `b` falls on the start of a character of `t` (or at its end).
pub open spec fn is_char_boundary_of(t: Seq<char>, b: int) -> bool {
    exists|k: int| 0 <= k <= t.len() && #[trigger] byte_offset_of(t, k) == b
}

pub proof fn lemma_line_start_le(t: Seq<char>, k: int)
    requires
        0 <= k,
    ensures
        line_start(t, k) <= k,
    decreases k,
{
    if k > 0 && !is_break_end(t, k) {
        lemma_line_start_le(t, k - 1);
    }
}

#[verifier::external_type_specification]
#[verifier::external_body]
pub struct ExRope(Rope);

#[verifier::external_type_specification]
#[verifier::external_body]
pub struct ExRopeSlice<'a>(RopeSlice<'a>);

/// The characters a rope holds.
pub uninterp spec fn rope_chars(r: Rope) -> Seq<char>;

/// The characters a rope slice holds.
pub uninterp spec fn rope_slice_chars(s: RopeSlice) -> Seq<char>;

/// `Rope::from_str`: a rope holding exactly the characters of `s`.
#[verifier::external_body]
pub(crate) fn rope_from_str(s: &str) -> (r: Rope)
    ensures
        rope_chars(r) == s@,
{
    Rope::from_str(s)
}

/// `Rope::byte_to_line`: the number of line breaks (LF, CRLF, CR, VT, FF, NEL,
/// LS, PS, as the crate's default `unicode_lines` feature counts them) that
/// end at or before the character starting at `byte`.
#[verifier::external_body]
fn rope_byte_to_line(r: &Rope, byte: usize) -> (line: usize)
    requires
        is_char_boundary_of(rope_chars(*r), byte as int),
    ensures
        forall|k: int|
            0 <= k <= rope_chars(*r).len() && #[trigger] byte_offset_of(rope_chars(*r), k) == byte
                ==> line == breaks_upto(rope_chars(*r), k),
{
    r.byte_to_line(byte)
}

/// `Rope::line_to_byte`: the byte offset at which line `line` starts.
#[verifier::external_body]
fn rope_line_to_byte(r: &Rope, line: usize) -> (b: usize)
    requires
        line <= breaks_upto(rope_chars(*r), rope_chars(*r).len() as int),
    ensures
        forall|k: int|
            0 <= k <= rope_chars(*r).len() && #[trigger] breaks_upto(rope_chars(*r), k) == line
                ==> b == byte_offset_of(rope_chars(*r), line_start(rope_chars(*r), k) as int),
{
    r.line_to_byte(line)
}

/// `Rope::byte_slice`: the characters between two character-aligned byte offsets.
#[verifier::external_body]
fn rope_byte_slice<'a>(r: &'a Rope, start: usize, end: usize) -> (s: RopeSlice<'a>)
    requires
        start <= end,
        is_char_boundary_of(rope_chars(*r), start as int),
        is_char_boundary_of(rope_chars(*r), end as int),
    ensures
        forall|ks: int, ke: int|
            0 <= ks <= rope_chars(*r).len() && 0 <= ke <= rope_chars(*r).len() && #[trigger]
                byte_offset_of(rope_chars(*r), ks) == start && #[trigger] byte_offset_of(
                rope_chars(*r),
                ke,
            ) == end ==> rope_slice_chars(s) == rope_chars(*r).subrange(ks, ke),
{
    r.byte_slice(start..end)
}

/// `RopeSlice::len_chars`: how many characters the slice holds.
#[verifier::external_body]
fn rope_slice_len_chars(s: &RopeSlice) -> (n: usize)
    ensures
        n == rope_slice_chars(*s).len(),
{
    s.len_chars()
}

/// Line and column (in characters) of the character that starts at byte
/// `offset` of `t`, both truncated to 32 bits.
pub open spec fn spec_line_col(t: Seq<char>, k: int) -> (u32, u32) {
    (breaks_upto(t, k) as u32, (k - line_start(t, k)) as u32)
}

proof fn lemma_breaks_monotone(t: Seq<char>, j: int, k: int)
    requires
        0 <= j <= k,
    ensures
        breaks_upto(t, j) <= breaks_upto(t, k),
    decreases k - j,
{
    if j < k {
        lemma_breaks_monotone(t, j, k - 1);
    }
}

/// Line (every break the rope recognises) and column (in characters) of the
/// character that starts at byte `b` of the rope's text.
pub(crate) fn rope_line_col(rope: &Rope, b: usize) -> (r: (usize, usize))
    requires
        byte_len(rope_chars(*rope)) <= usize::MAX,
        is_char_boundary_of(rope_chars(*rope), b as int),
    ensures
        forall|k: int|
            0 <= k <= rope_chars(*rope).len() && #[trigger] byte_offset_of(rope_chars(*rope), k)
                == b ==> r.0 == breaks_upto(rope_chars(*rope), k) && r.1 == k - line_start(
                rope_chars(*rope),
                k,
            ),
{
    let ghost t = rope_chars(*rope);
    let line_idx = rope_byte_to_line(rope, b);
    let ghost k = choose|k: int| 0 <= k <= t.len() && #[trigger] byte_offset_of(t, k) == b;
    proof {
        assert(t.take(t.len() as int) =~= t);
        lemma_breaks_monotone(t, k, t.len() as int);
        lemma_line_start_le(t, k);
    }
    let line_start_byte = rope_line_to_byte(rope, line_idx);
    proof {
        let ls = line_start(t, k) as int;
        lemma_byte_offset_monotone(t, ls, k);
        assert(is_char_boundary_of(t, line_start_byte as int)) by {
            assert(byte_offset_of(t, ls) == line_start_byte);
        }
    }
    let slice = rope_byte_slice(rope, line_start_byte, b);
    let col = rope_slice_len_chars(&slice);
    proof {
        let ls = line_start(t, k) as int;
        assert(byte_offset_of(t, ls) == line_start_byte);
        assert(rope_slice_chars(slice) == t.subrange(ls, k));
        assert forall|k2: int|
            0 <= k2 <= t.len() && #[trigger] byte_offset_of(t, k2) == b implies k2 == k by {
            lemma_byte_offset_injective(t, k2, k);
        }
    }
    (line_idx, col)
}

/// Line and column of byte `offset` of `content`, counting every line break
/// the rope recognises; `(0, 0)` for an offset at or past the end.
pub fn offset_to_linecol(content: &str, offset: usize) -> (r: (u32, u32))
    requires
        byte_len(content@) <= usize::MAX,
        offset >= byte_len(content@) || is_char_boundary_of(content@, offset as int),
    ensures
        offset >= byte_len(content@) ==> r == (0u32, 0u32),
        forall|k: int|
            0 <= k <= content@.len() && #[trigger] byte_offset_of(content@, k) == offset && offset
                < byte_len(content@) ==> r == spec_line_col(content@, k),
{
    proof {
        lemma_str_len(content);
    }
    if offset >= content.len() {
        return (0, 0);
    }
    let ghost t = content@;
    let rope = rope_from_str(content);
    let line_idx = rope_byte_to_line(&rope, offset);
    let ghost k = choose|k: int| 0 <= k <= t.len() && #[trigger] byte_offset_of(t, k) == offset;
    proof {
        assert(t.take(t.len() as int) =~= t);
        lemma_breaks_monotone(t, k, t.len() as int);
        lemma_line_start_le(t, k);
    }
    let line_start_byte = rope_line_to_byte(&rope, line_idx);
    proof {
        let ls = line_start(t, k) as int;
        lemma_byte_offset_monotone(t, ls, k);
        assert(is_char_boundary_of(t, line_start_byte as int)) by {
            assert(byte_offset_of(t, ls) == line_start_byte);
        }
    }
    let slice = rope_byte_slice(&rope, line_start_byte, offset);
    let col_char = rope_slice_len_chars(&slice);
    proof {
        let ls = line_start(t, k) as int;
        assert(byte_offset_of(t, ls) == line_start_byte);
        assert(rope_slice_chars(slice) == t.subrange(ls, k));
        assert forall|k2: int|
            0 <= k2 <= t.len() && #[trigger] byte_offset_of(t, k2) == offset implies k2 == k by {
            lemma_byte_offset_injective(t, k2, k);
        }
    }
    (line_idx as u32, col_char as u32)
}

/// Same as [`offset_to_linecol`]; the position of a byte offset inside a
/// document, used for dotenv diagnostics.
pub fn get_line_col(content: &str, offset: usize) -> (r: (u32, u32))
    requires
        byte_len(content@) <= usize::MAX,
        offset >= byte_len(content@) || is_char_boundary_of(content@, offset as int),
    ensures
        offset >= byte_len(content@) ==> r == (0u32, 0u32),
        forall|k: int|
            0 <= k <= content@.len() && #[trigger] byte_offset_of(content@, k) == offset && offset
                < byte_len(content@) ==> r == spec_line_col(content@, k),
{
    offset_to_linecol(content, offset)
}


/// Number of LF characters in `s`.
pub open spec fn newline_count(s: Seq<char>) -> nat
    decreases s.len(),
{
    if s.len() == 0 {
        0
    } else {
        newline_count(s.drop_last()) + (if s.last() == '\n' {
            1nat
        } else {
            0nat
        })
    }
}

/// Number of characters after the last LF of `s` (all of them when there is none).
pub open spec fn chars_since_newline(s: Seq<char>) -> nat
    decreases s.len(),
{
    if s.len() == 0 {
        0
    } else if s.last() == '\n' {
        0
    } else {
        chars_since_newline(s.drop_last()) + 1
    }
}

/// The first character position at or after `j` whose start byte is at least
/// `off`; the length of `t` when there is none.
pub open spec fn first_char_at_or_after(t: Seq<char>, off: int, j: int) -> int
    decreases t.len() - j,
{
    if j >= t.len() {
        t.len() as int
    } else if byte_offset_of(t, j) >= off {
        j
    } else {
        first_char_at_or_after(t, off, j + 1)
    }
}

/// Line (number of LFs) and column (characters since the last LF) of the
/// characters that start before byte `offset`.
pub open spec fn spec_newline_line_col(t: Seq<char>, offset: int) -> (u32, u32) {
    let k = first_char_at_or_after(t, offset, 0);
    (newline_count(t.take(k)) as u32, chars_since_newline(t.take(k)) as u32)
}

proof fn lemma_newline_counts_bounded(s: Seq<char>)
    ensures
        newline_count(s) <= s.len(),
        chars_since_newline(s) <= s.len(),
    decreases s.len(),
{
    if s.len() > 0 {
        lemma_newline_counts_bounded(s.drop_last());
    }
}

/// Line and column of byte `offset`, where only LF starts a new line and the
/// column counts characters; positions past the end fall on the last character.
pub fn offset_to_line_col(content: &str, offset: usize) -> (r: (u32, u32))
    requires
        byte_len(content@) <= usize::MAX,
        content@.len() <= u32::MAX,
    ensures
        r == spec_newline_line_col(content@, offset as int),
{
    let chars = chars_of(content);
    let ghost t = content@;
    let mut line: u32 = 0;
    let mut col: u32 = 0;
    let mut j: usize = 0;
    let mut i: usize = 0;
    proof {
        assert(t.take(0) =~= Seq::<char>::empty());
    }
    while j < chars.len()
        invariant
            chars@ == t,
            t.len() <= u32::MAX,
            byte_len(t) <= usize::MAX,
            0 <= j <= t.len(),
            i == byte_offset_of(t, j as int),
            first_char_at_or_after(t, offset as int, 0) == first_char_at_or_after(
                t,
                offset as int,
                j as int,
            ),
            forall|m: int| 0 <= m < j ==> byte_offset_of(t, m) < offset,
            line == newline_count(t.take(j as int)),
            col == chars_since_newline(t.take(j as int)),
        ensures
            first_char_at_or_after(t, offset as int, 0) == j,
            line == newline_count(t.take(j as int)),
            col == chars_since_newline(t.take(j as int)),
        decreases t.len() - j,
    {
        if i >= offset {
            break;
        }
        let ch = chars[j];
        proof {
            assert(t.take(j + 1).drop_last() =~= t.take(j as int));
            lemma_newline_counts_bounded(t.take(j as int));
            lemma_byte_offset_step(t, j as int);
            assert(t.take(t.len() as int) =~= t);
            crate::text::lemma_byte_offset_monotone(t, j + 1, t.len() as int);
        }
        if ch == '\n' {
            line = line + 1;
            col = 0;
        } else {
            col = col + 1;
        }
        i = i + utf8_width(ch);
        j = j + 1;
    }
    (line, col)
}

} // verus!
