//! Parsed dotenv entries and what the server derives from them: lint
//! diagnostics, the location of a key, the key under the cursor and the keys a
//! file defines.
use crate::position::{
    get_line_col, is_char_boundary_of, offset_to_line_col, spec_line_col, spec_newline_line_col,
    Position, Range,
};
use crate::semantic_tokens::char_at_byte;
use crate::text::{byte_len, byte_offset_of, chars_of, concat, str_eq};
use korni::{Entry, Error as KorniError, KeyValuePair, ParseOptions, QuoteType};
use vstd::prelude::*;

verus! {

/// A byte range of a dotenv file.
#[derive(Debug, Clone, Copy, PartialEq, Eq, Structural)]
pub struct Span {
    pub start: usize,
    pub end: usize,
}

impl Span {
    pub fn new(start: usize, end: usize) -> (s: Self)
        ensures
            s.start == start,
            s.end == end,
    {
        Span { start, end }
    }

    /// Length in bytes.
    pub fn len(&self) -> (n: usize)
        requires
            self.start <= self.end,
        ensures
            n == self.end - self.start,
    {
        self.end - self.start
    }
}

/// How a value was quoted.
#[derive(Debug, Clone, Copy, PartialEq, Eq, Structural)]
pub enum QuoteKind {
    Single,
    Double,
    Unquoted,
}

/// A `KEY=value` line.
#[derive(Debug, Clone, PartialEq, Eq)]
pub struct DotenvPair {
    pub key: String,
    pub key_span: Option<Span>,
    pub value: String,
    pub value_span: Option<Span>,
    pub quote: QuoteKind,
    /// Byte offset of the `=`.
    pub equals_pos: Option<usize>,
    pub is_exported: bool,
    pub export_span: Option<Span>,
    /// The pair sits in a comment (`# KEY=value`).
    pub is_comment: bool,
}

/// The kind of a parse error.
#[derive(Debug, Clone, Copy, PartialEq, Eq, Structural)]
pub enum DotenvErrorKind {
    InvalidUtf8,
    UnclosedQuote,
    InvalidKey,
    ForbiddenWhitespace,
    DoubleEquals,
    InvalidBom,
    Expected,
    Generic,
    Io,
}

/// A parse error.
#[derive(Debug, Clone, PartialEq, Eq)]
pub struct DotenvError {
    pub kind: DotenvErrorKind,
    /// Byte offset the error points at.
    pub offset: usize,
    /// The message of a generic error (empty for the other kinds).
    pub message: String,
    /// The error as the parser describes it.
    pub display: String,
}

/// One entry of a parsed dotenv file.
#[derive(Debug, Clone, PartialEq, Eq)]
pub enum DotenvEntry {
    Comment(Span),
    Pair(DotenvPair),
    Error(DotenvError),
}

/// How bad a diagnostic is.
#[derive(Debug, Clone, Copy, PartialEq, Eq, Structural)]
pub enum Severity {
    Error,
    Warning,
}

/// A problem reported on a range of a document.
#[derive(Debug, Clone, PartialEq, Eq)]
pub struct Diagnostic {
    pub range: Range,
    pub severity: Severity,
    pub code: String,
    pub source: String,
    pub message: String,
}

/// Range of a dotenv span, with lines counted by LF and columns by characters.
pub open spec fn spec_span_range(t: Seq<char>, span: Span) -> Range {
    let s = spec_newline_line_col(t, span.start as int);
    let e = spec_newline_line_col(t, span.end as int);
    Range { start: Position { line: s.0, character: s.1 }, end: Position { line: e.0, character: e.1 } }
}

/// The editor range of a dotenv span.
pub fn korni_span_to_range(content: &str, span: Span) -> (r: Range)
    requires
        byte_len(content@) <= usize::MAX,
        content@.len() <= u32::MAX,
    ensures
        r == spec_span_range(content@, span),
{
    let (start_line, start_col) = offset_to_line_col(content, span.start);
    let (end_line, end_col) = offset_to_line_col(content, span.end);
    Range {
        start: Position { line: start_line, character: start_col },
        end: Position { line: end_line, character: end_col },
    }
}

/// Title, code and severity a parse error is reported with.
pub open spec fn spec_error_title(e: DotenvError) -> Seq<char> {
    match e.kind {
        DotenvErrorKind::ForbiddenWhitespace => "Forbidden whitespace"@,
        DotenvErrorKind::DoubleEquals => "Double equals sign detected"@,
        DotenvErrorKind::Generic => if e.message@ == "Empty key"@ {
            "Empty key"@
        } else {
            "Syntax Error"@
        },
        DotenvErrorKind::InvalidKey => "Invalid character in key"@,
        DotenvErrorKind::UnclosedQuote => "Unclosed quote"@,
        DotenvErrorKind::InvalidUtf8 => "Invalid UTF-8 sequence"@,
        DotenvErrorKind::Expected => "Syntax error"@,
        _ => "Syntax Error"@,
    }
}

pub open spec fn spec_error_code(e: DotenvError) -> Seq<char> {
    match e.kind {
        DotenvErrorKind::ForbiddenWhitespace => "EDF001"@,
        DotenvErrorKind::DoubleEquals => "EDF002"@,
        DotenvErrorKind::Generic => if e.message@ == "Empty key"@ {
            "EDF003"@
        } else {
            "EDF999"@
        },
        DotenvErrorKind::InvalidKey => "EDF004"@,
        DotenvErrorKind::UnclosedQuote => "EDF005"@,
        DotenvErrorKind::InvalidUtf8 => "EDF006"@,
        _ => "EDF999"@,
    }
}

pub open spec fn spec_error_severity(e: DotenvError) -> Severity {
    match e.kind {
        DotenvErrorKind::InvalidUtf8 => Severity::Warning,
        _ => Severity::Error,
    }
}

/// Only a file that is not valid UTF-8 is a warning; every other parse
/// error of a dotenv file is an error. Each kind of error has its own title
/// and code, and the codes `EDF001` to `EDF006` name one kind each.
pub proof fn law_error_classification(e: DotenvError)
    ensures
        e.kind is InvalidUtf8 ==> spec_error_severity(e) is Warning,
        !(e.kind is InvalidUtf8) ==> spec_error_severity(e) is Error,
        e.kind is ForbiddenWhitespace <==> spec_error_code(e) == "EDF001"@,
        e.kind is DoubleEquals <==> spec_error_code(e) == "EDF002"@,
        (e.kind is Generic && e.message@ == "Empty key"@) <==> spec_error_code(e) == "EDF003"@,
        e.kind is InvalidKey <==> spec_error_code(e) == "EDF004"@,
        e.kind is UnclosedQuote <==> spec_error_code(e) == "EDF005"@,
        e.kind is InvalidUtf8 <==> spec_error_code(e) == "EDF006"@,
        e.kind is UnclosedQuote ==> spec_error_title(e) == "Unclosed quote"@,
        e.kind is InvalidUtf8 ==> spec_error_title(e) == "Invalid UTF-8 sequence"@,
        e.kind is ForbiddenWhitespace ==> spec_error_title(e) == "Forbidden whitespace"@,
        e.kind is DoubleEquals ==> spec_error_title(e) == "Double equals sign detected"@,
        e.kind is InvalidKey ==> spec_error_title(e) == "Invalid character in key"@,
        e.kind is Generic && e.message@ == "Empty key"@ ==> spec_error_title(e) == "Empty key"@,
{
    reveal_strlit("EDF001");
    reveal_strlit("EDF002");
    reveal_strlit("EDF003");
    reveal_strlit("EDF004");
    reveal_strlit("EDF005");
    reveal_strlit("EDF006");
    reveal_strlit("EDF999");
    assert("EDF001"@[5] != "EDF002"@[5]);
    assert("EDF001"@[5] != "EDF003"@[5]);
    assert("EDF001"@[5] != "EDF004"@[5]);
    assert("EDF001"@[5] != "EDF005"@[5]);
    assert("EDF001"@[5] != "EDF006"@[5]);
    assert("EDF001"@[3] != "EDF999"@[3]);
    assert("EDF002"@[5] != "EDF003"@[5]);
    assert("EDF002"@[5] != "EDF004"@[5]);
    assert("EDF002"@[5] != "EDF005"@[5]);
    assert("EDF002"@[5] != "EDF006"@[5]);
    assert("EDF002"@[3] != "EDF999"@[3]);
    assert("EDF003"@[5] != "EDF004"@[5]);
    assert("EDF003"@[5] != "EDF005"@[5]);
    assert("EDF003"@[5] != "EDF006"@[5]);
    assert("EDF003"@[3] != "EDF999"@[3]);
    assert("EDF004"@[5] != "EDF005"@[5]);
    assert("EDF004"@[5] != "EDF006"@[5]);
    assert("EDF004"@[3] != "EDF999"@[3]);
    assert("EDF005"@[5] != "EDF006"@[5]);
    assert("EDF005"@[3] != "EDF999"@[3]);
    assert("EDF006"@[3] != "EDF999"@[3]);
}

/// Title, code and severity of a parse error.
pub fn classify_error(e: &DotenvError) -> (r: (&'static str, &'static str, Severity))
    ensures
        r.0@ == spec_error_title(*e),
        r.1@ == spec_error_code(*e),
        r.2 == spec_error_severity(*e),
        e.kind is InvalidUtf8 ==> r.2 is Warning,
        !(e.kind is InvalidUtf8) ==> r.2 is Error,
{
    match e.kind {
        DotenvErrorKind::ForbiddenWhitespace => ("Forbidden whitespace", "EDF001", Severity::Error),
        DotenvErrorKind::DoubleEquals => (
            "Double equals sign detected",
            "EDF002",
            Severity::Error,
        ),
        DotenvErrorKind::Generic => {
            if str_eq(e.message.as_str(), "Empty key") {
                ("Empty key", "EDF003", Severity::Error)
            } else {
                ("Syntax Error", "EDF999", Severity::Error)
            }
        },
        DotenvErrorKind::InvalidKey => ("Invalid character in key", "EDF004", Severity::Error),
        DotenvErrorKind::UnclosedQuote => ("Unclosed quote", "EDF005", Severity::Error),
        DotenvErrorKind::InvalidUtf8 => ("Invalid UTF-8 sequence", "EDF006", Severity::Warning),
        DotenvErrorKind::Expected => ("Syntax error", "EDF999", Severity::Error),
        _ => ("Syntax Error", "EDF999", Severity::Error),
    }
}

/// The parse errors among `entries`, in order.
pub open spec fn errors_of(entries: Seq<DotenvEntry>) -> Seq<DotenvError>
    decreases entries.len(),
{
    if entries.len() == 0 {
        Seq::empty()
    } else {
        let init = errors_of(entries.drop_last());
        match entries.last() {
            DotenvEntry::Error(e) => init.push(e),
            _ => init,
        }
    }
}

/// Line and column an error offset is reported at.
pub open spec fn spec_error_position(t: Seq<char>, offset: int) -> (u32, u32) {
    if offset >= byte_len(t) {
        (0u32, 0u32)
    } else {
        spec_line_col(t, choose|k: int| 0 <= k <= t.len() && #[trigger] byte_offset_of(t, k) == offset)
    }
}

/// Whether the diagnostic `d` reports parse error `e` of a file holding `t`.
pub open spec fn reports_parse_error(t: Seq<char>, e: DotenvError, d: Diagnostic) -> bool {
    let (line, col) = spec_error_position(t, e.offset as int);
    &&& d.range.start == Position { line, character: col }
    &&& d.range.end == Position { line, character: (col + 1) as u32 }
    &&& d.severity == spec_error_severity(e)
    &&& d.code@ == spec_error_code(e)
    &&& d.source@ == "ecolog-linter"@
    &&& d.message@ == spec_error_title(e) + ": "@ + e.display@
}

/// Every parse error offset lies on a character boundary or past the end.
pub open spec fn error_offsets_aligned(t: Seq<char>, entries: Seq<DotenvEntry>) -> bool {
    forall|i: int|
        0 <= i < errors_of(entries).len() ==> ({
            let off = (#[trigger] errors_of(entries)[i]).offset as int;
            off >= byte_len(t) || is_char_boundary_of(t, off)
        })
}

proof fn lemma_errors_of_push(entries: Seq<DotenvEntry>, e: DotenvEntry)
    ensures
        errors_of(entries.push(e)) == match e {
            DotenvEntry::Error(err) => errors_of(entries).push(err),
            _ => errors_of(entries),
        },
{
    assert(entries.push(e).drop_last() =~= entries);
}

proof fn lemma_errors_of_len(entries: Seq<DotenvEntry>)
    ensures
        errors_of(entries).len() <= entries.len(),
    decreases entries.len(),
{
    if entries.len() > 0 {
        lemma_errors_of_len(entries.drop_last());
    }
}

/// One diagnostic per parse error of a dotenv file, in the order of the
/// errors, positioned at the error's offset and one character wide.
pub fn env_file_diagnostics(content: &str, entries: &Vec<DotenvEntry>) -> (d: Vec<Diagnostic>)
    requires
        byte_len(content@) <= usize::MAX,
        content@.len() < u32::MAX,
        error_offsets_aligned(content@, entries@),
    ensures
        d@.len() == errors_of(entries@).len(),
        forall|i: int|
            0 <= i < d@.len() ==> reports_parse_error(
                content@,
                #[trigger] errors_of(entries@)[i],
                d@[i],
            ),
{
    let ghost t = content@;
    let mut out: Vec<Diagnostic> = Vec::new();
    let mut i: usize = 0;
    proof {
        assert(entries@.take(0) =~= Seq::<DotenvEntry>::empty());
    }
    while i < entries.len()
        invariant
            t == content@,
            byte_len(t) <= usize::MAX,
            t.len() < u32::MAX,
            error_offsets_aligned(t, entries@),
            0 <= i <= entries.len(),
            out@.len() == errors_of(entries@.take(i as int)).len(),
            forall|j: int|
                0 <= j < out@.len() ==> reports_parse_error(
                    t,
                    #[trigger] errors_of(entries@.take(i as int))[j],
                    out@[j],
                ),
        decreases entries.len() - i,
    {
        proof {
            assert(entries@.take(i + 1) =~= entries@.take(i as int).push(entries@[i as int]));
            lemma_errors_of_push(entries@.take(i as int), entries@[i as int]);
        }
        match &entries[i] {
            DotenvEntry::Error(err) => {
                proof {
                    // The error is among all errors of the file, so its offset is aligned.
                    lemma_errors_prefix(entries@, i as int + 1);
                    let pre = errors_of(entries@.take(i + 1));
                    let idx = pre.len() - 1;
                    assert(pre[idx] == *err);
                    assert(errors_of(entries@)[idx] == *err);
                }
                let (title, code, severity) = classify_error(err);
                let (line, col) = get_line_col(content, err.offset);
                proof {
                    if (err.offset as int) < byte_len(t) {
                        let k = choose|k: int|
                            0 <= k <= t.len() && #[trigger] byte_offset_of(t, k) == err.offset;
                        assert(spec_error_position(t, err.offset as int) == spec_line_col(t, k));
                        crate::position::lemma_line_start_le(t, k);
                    }
                }
                let mut message = concat(title, ": ");
                message.append(err.display.as_str());
                out.push(
                    Diagnostic {
                        range: Range {
                            start: Position { line, character: col },
                            end: Position { line, character: col + 1 },
                        },
                        severity,
                        code: code.to_string(),
                        source: "ecolog-linter".to_string(),
                        message,
                    },
                );
            },
            _ => {},
        }
        i += 1;
    }
    proof {
        assert(entries@.take(entries@.len() as int) =~= entries@);
    }
    out
}

/// The errors of a prefix of the entries are a prefix of all errors.
proof fn lemma_errors_prefix(entries: Seq<DotenvEntry>, n: int)
    requires
        0 <= n <= entries.len(),
    ensures
        errors_of(entries.take(n)).len() <= errors_of(entries).len(),
        forall|j: int|
            0 <= j < errors_of(entries.take(n)).len() ==> errors_of(entries.take(n))[j]
                == errors_of(entries)[j],
    decreases entries.len() - n,
{
    if n < entries.len() {
        lemma_errors_prefix(entries, n + 1);
        assert(entries.take(n + 1) =~= entries.take(n).push(entries[n]));
        lemma_errors_of_push(entries.take(n), entries[n]);
    } else {
        assert(entries.take(n) =~= entries);
    }
}

/// Keys of the pairs that count as definitions, in file order.
pub open spec fn defined_keys(entries: Seq<DotenvEntry>) -> Seq<Seq<char>>
    decreases entries.len(),
{
    if entries.len() == 0 {
        Seq::empty()
    } else {
        let init = defined_keys(entries.drop_last());
        match entries.last() {
            DotenvEntry::Pair(p) => if !p.is_comment {
                init.push(p.key@)
            } else {
                init
            },
            _ => init,
        }
    }
}

/// The keys a dotenv file defines, in file order.
pub fn valid_pair_keys(entries: &Vec<DotenvEntry>) -> (keys: Vec<String>)
    ensures
        keys@.map_values(|k: String| k@) == defined_keys(entries@),
{
    let mut keys: Vec<String> = Vec::new();
    let mut i: usize = 0;
    while i < entries.len()
        invariant
            0 <= i <= entries.len(),
            keys@.map_values(|k: String| k@) == defined_keys(entries@.take(i as int)),
        decreases entries.len() - i,
    {
        proof {
            assert(entries@.take(i + 1).drop_last() =~= entries@.take(i as int));
        }
        match &entries[i] {
            DotenvEntry::Pair(p) => {
                if !p.is_comment {
                    let ghost before = keys@;
                    keys.push(p.key.clone());
                    assert(keys@.map_values(|k: String| k@) =~= before.map_values(|k: String| k@).push(p.key@));
                }
            },
            _ => {},
        }
        i += 1;
    }
    assert(entries@.take(entries@.len() as int) =~= entries@);
    keys
}

/// Index of the first pair (commented or not) with key `name` and a known key
/// span; `None` when there is none.
pub open spec fn first_key_index(entries: Seq<DotenvEntry>, name: Seq<char>, from: int) -> Option<int>
    decreases entries.len() - from,
{
    if from >= entries.len() || from < 0 {
        None
    } else {
        match entries[from] {
            DotenvEntry::Pair(p) => if p.key@ == name && p.key_span.is_some() {
                Some(from)
            } else {
                first_key_index(entries, name, from + 1)
            },
            _ => first_key_index(entries, name, from + 1),
        }
    }
}

/// Key span of the pair at `i` (meaningful when it is a pair with a span).
pub open spec fn key_span_at(entries: Seq<DotenvEntry>, i: int) -> Span {
    match entries[i] {
        DotenvEntry::Pair(p) => p.key_span.unwrap(),
        _ => Span { start: 0, end: 0 },
    }
}

/// Range of the first definition of `name` in a dotenv file.
pub fn find_key_range(content: &str, entries: &Vec<DotenvEntry>, name: &str) -> (r: Option<Range>)
    requires
        byte_len(content@) <= usize::MAX,
        content@.len() <= u32::MAX,
    ensures
        r == match first_key_index(entries@, name@, 0) {
            Some(i) => Some(spec_span_range(content@, key_span_at(entries@, i))),
            None => None,
        },
{
    let mut i: usize = 0;
    while i < entries.len()
        invariant
            0 <= i <= entries.len(),
            byte_len(content@) <= usize::MAX,
            content@.len() <= u32::MAX,
            first_key_index(entries@, name@, 0) == first_key_index(entries@, name@, i as int),
        decreases entries.len() - i,
    {
        match &entries[i] {
            DotenvEntry::Pair(p) => {
                if str_eq(p.key.as_str(), name) {
                    match p.key_span {
                        Some(span) => {
                            return Some(korni_span_to_range(content, span));
                        },
                        None => {},
                    }
                }
            },
            _ => {},
        }
        i += 1;
    }
    None
}

/// Whether `pos` falls inside `range`, line by line and column by column.
pub open spec fn spec_position_in_key(pos: Position, range: Range) -> bool {
    pos.line >= range.start.line && pos.line <= range.end.line && pos.character
        >= range.start.character && pos.character <= range.end.character
}

/// Index of the first non-commented pair with a key span whose key range
/// holds `pos`.
pub open spec fn key_index_at(t: Seq<char>, entries: Seq<DotenvEntry>, pos: Position, from: int) -> Option<int>
    decreases entries.len() - from,
{
    if from >= entries.len() || from < 0 {
        None
    } else {
        match entries[from] {
            DotenvEntry::Pair(p) => if !p.is_comment && p.key_span.is_some()
                && spec_position_in_key(pos, spec_span_range(t, p.key_span.unwrap())) {
                Some(from)
            } else {
                key_index_at(t, entries, pos, from + 1)
            },
            _ => key_index_at(t, entries, pos, from + 1),
        }
    }
}

/// Key of the pair at `i` (meaningful when it is a pair).
pub open spec fn key_at(entries: Seq<DotenvEntry>, i: int) -> Seq<char> {
    match entries[i] {
        DotenvEntry::Pair(p) => p.key@,
        _ => Seq::empty(),
    }
}

/// Whether the cursor `pos` stands on the key of entry `e`: a pair outside
/// any comment whose key's range holds `pos` on its lines and between its
/// first and last column.
pub open spec fn cursor_on_key(t: Seq<char>, e: DotenvEntry, pos: Position) -> bool {
    match e {
        DotenvEntry::Pair(p) => !p.is_comment && p.key_span is Some && {
            let r = spec_span_range(t, p.key_span.unwrap());
            &&& r.start.line <= pos.line <= r.end.line
            &&& r.start.character <= pos.character <= r.end.character
        },
        _ => false,
    }
}

proof fn lemma_key_index_at(t: Seq<char>, entries: Seq<DotenvEntry>, pos: Position, from: int)
    requires
        0 <= from,
    ensures
        key_index_at(t, entries, pos, from) matches Some(i) ==> from <= i < entries.len()
            && cursor_on_key(t, entries[i], pos) && forall|j: int|
            from <= j < i ==> !cursor_on_key(t, #[trigger] entries[j], pos),
        key_index_at(t, entries, pos, from) is None ==> forall|j: int|
            from <= j < entries.len() ==> !cursor_on_key(t, #[trigger] entries[j], pos),
    decreases entries.len() - from,
{
    if from < entries.len() {
        lemma_key_index_at(t, entries, pos, from + 1);
    }
}

/// The key found under the cursor is the first key, outside comments, whose
/// range holds the cursor on its lines and between its columns; where none
/// does, no key is found.
pub proof fn law_key_under_cursor(t: Seq<char>, entries: Seq<DotenvEntry>, pos: Position)
    ensures
        key_index_at(t, entries, pos, 0) matches Some(i) ==> 0 <= i < entries.len() && cursor_on_key(
            t,
            entries[i],
            pos,
        ) && forall|j: int| 0 <= j < i ==> !cursor_on_key(t, #[trigger] entries[j], pos),
        key_index_at(t, entries, pos, 0) is None ==> forall|j: int|
            0 <= j < entries.len() ==> !cursor_on_key(t, #[trigger] entries[j], pos),
{
    lemma_key_index_at(t, entries, pos, 0);
}

/// The key defined under the cursor in a dotenv file, with its range.
pub fn key_at_position(content: &str, entries: &Vec<DotenvEntry>, pos: Position) -> (r: Option<(String, Range)>)
    requires
        byte_len(content@) <= usize::MAX,
        content@.len() <= u32::MAX,
    ensures
        match key_index_at(content@, entries@, pos, 0) {
            Some(i) => r.is_some() && r.unwrap().0@ == key_at(entries@, i) && r.unwrap().1
                == spec_span_range(content@, key_span_at(entries@, i)),
            None => r.is_none(),
        },
        r is Some ==> r.unwrap().1.start.line <= pos.line <= r.unwrap().1.end.line
            && r.unwrap().1.start.character <= pos.character <= r.unwrap().1.end.character,
{
    proof {
        lemma_key_index_at(content@, entries@, pos, 0);
    }
    let mut i: usize = 0;
    while i < entries.len()
        invariant
            0 <= i <= entries.len(),
            byte_len(content@) <= usize::MAX,
            content@.len() <= u32::MAX,
            key_index_at(content@, entries@, pos, 0) == key_index_at(content@, entries@, pos, i as int),
        decreases entries.len() - i,
    {
        match &entries[i] {
            DotenvEntry::Pair(p) => {
                if !p.is_comment {
                    match p.key_span {
                        Some(span) => {
                            let range = korni_span_to_range(content, span);
                            if pos.line >= range.start.line && pos.line <= range.end.line
                                && pos.character >= range.start.character && pos.character
                                <= range.end.character {
                                return Some((p.key.clone(), range));
                            }
                        },
                        None => {},
                    }
                }
            },
            _ => {},
        }
        i += 1;
    }
    None
}

#[verifier::external_type_specification]
#[verifier::external_body]
pub struct ExKorniEntry<'a>(Entry<'a>);

#[verifier::external_type_specification]
#[verifier::external_body]
pub struct ExKorniPair<'a>(KeyValuePair<'a>);

#[verifier::external_type_specification]
#[verifier::external_body]
pub struct ExKorniError(KorniError);

/// The entries that korni's parser finds in `content`, with comments and
/// positions kept.
pub uninterp spec fn dotenv_parse(content: Seq<char>) -> Seq<DotenvEntry>;

/// A pair of korni's as an entry of this library: the same key, value,
/// spans and flags.
#[verifier::external_body]
fn pair_from(kv: &KeyValuePair) -> DotenvPair {
    let span = |s: Option<korni::Span>| s.map(|s| Span { start: s.start.offset, end: s.end.offset });
    let quote = match kv.quote {
        QuoteType::Single => QuoteKind::Single,
        QuoteType::Double => QuoteKind::Double,
        QuoteType::None => QuoteKind::Unquoted,
    };
    DotenvPair {
        key: kv.key.to_string(), key_span: span(kv.key_span),
        value: kv.value.to_string(), value_span: span(kv.value_span),
        quote, equals_pos: kv.equals_pos.map(|p| p.offset), is_exported: kv.is_exported,
        export_span: span(kv.export_span), is_comment: kv.is_comment,
    }
}

/// The kind of one of korni's errors, and its message where it is generic.
#[verifier::external_body]
fn error_kind_of(e: &KorniError) -> (DotenvErrorKind, String) {
    match e {
        KorniError::InvalidUtf8 { .. } => (DotenvErrorKind::InvalidUtf8, String::new()),
        KorniError::UnclosedQuote { .. } => (DotenvErrorKind::UnclosedQuote, String::new()),
        KorniError::InvalidKey { .. } => (DotenvErrorKind::InvalidKey, String::new()),
        KorniError::ForbiddenWhitespace { .. } => (DotenvErrorKind::ForbiddenWhitespace, String::new()),
        KorniError::DoubleEquals { .. } => (DotenvErrorKind::DoubleEquals, String::new()),
        KorniError::InvalidBom { .. } => (DotenvErrorKind::InvalidBom, String::new()),
        KorniError::Expected { .. } => (DotenvErrorKind::Expected, String::new()),
        KorniError::Generic { message, .. } => (DotenvErrorKind::Generic, message.clone()),
        KorniError::Io(_) => (DotenvErrorKind::Io, String::new()),
    }
}

/// One of korni's errors as an error of this library: its kind, the offset
/// `Error::offset` gives, and its text as korni's `Display` writes it.
#[verifier::external_body]
fn error_from(e: &KorniError) -> DotenvError {
    let (kind, message) = error_kind_of(e);
    DotenvError { kind, offset: e.offset(), message, display: e.to_string() }
}

/// One of korni's entries as an entry of this library.
#[verifier::external_body]
fn entry_from(e: &Entry) -> DotenvEntry {
    match e {
        Entry::Comment(s) => DotenvEntry::Comment(Span { start: s.start.offset, end: s.end.offset }),
        Entry::Pair(kv) => DotenvEntry::Pair(pair_from(kv)),
        Entry::Error(err) => DotenvEntry::Error(error_from(err)),
    }
}

/// `korni::parse_with_options` with comments and positions kept: the entries
/// of a dotenv file, in order.
#[verifier::external_body]
fn korni_entries(content: &str) -> (r: Vec<DotenvEntry>)
    ensures
        r@ == dotenv_parse(content@),
{
    korni::parse_with_options(content, ParseOptions::full()).iter().map(entry_from).collect()
}

/// The entries of the dotenv file `content`.
pub fn parse_env_file(content: &str) -> (r: Vec<DotenvEntry>)
    ensures
        r@ == dotenv_parse(content@),
{
    korni_entries(content)
}

/// Whether every parse error among `entries` points at a character boundary
/// of `chars` or past their end.
pub fn error_offsets_fit(chars: &Vec<char>, entries: &Vec<DotenvEntry>) -> (b: bool)
    requires
        byte_len(chars@) <= usize::MAX,
    ensures
        b == error_offsets_aligned(chars@, entries@),
{
    let n = crate::text::utf8_len_total(chars);
    let mut i: usize = 0;
    proof {
        assert(entries@.take(0) =~= Seq::<DotenvEntry>::empty());
    }
    while i < entries.len()
        invariant
            byte_len(chars@) <= usize::MAX,
            n == byte_len(chars@),
            0 <= i <= entries.len(),
            error_offsets_aligned(chars@, entries@.take(i as int)),
        decreases entries.len() - i,
    {
        proof {
            assert(entries@.take(i + 1) =~= entries@.take(i as int).push(entries@[i as int]));
            lemma_errors_of_push(entries@.take(i as int), entries@[i as int]);
        }
        if let DotenvEntry::Error(e) = &entries[i] {
            if e.offset < n && char_at_byte(chars, e.offset).is_none() {
                proof {
                    let k = errors_of(entries@.take(i as int)).len() as int;
                    assert(errors_of(entries@.take(i + 1))[k] == *e);
                    if error_offsets_aligned(chars@, entries@) {
                        lemma_aligned_prefix(chars@, entries@, i as int + 1);
                    }
                }
                return false;
            }
        }
        i += 1;
    }
    assert(entries@.take(entries.len() as int) =~= entries@);
    true
}

/// Alignment of all the entries gives alignment of each prefix.
proof fn lemma_aligned_prefix(t: Seq<char>, entries: Seq<DotenvEntry>, k: int)
    requires
        0 <= k <= entries.len(),
        error_offsets_aligned(t, entries),
    ensures
        error_offsets_aligned(t, entries.take(k)),
    decreases entries.len() - k,
{
    if k < entries.len() {
        lemma_aligned_prefix(t, entries, k + 1);
        assert(entries.take(k + 1) =~= entries.take(k).push(entries[k]));
        lemma_errors_of_push(entries.take(k), entries[k]);
        let a = errors_of(entries.take(k));
        let b = errors_of(entries.take(k + 1));
        assert forall|i: int| 0 <= i < a.len() implies ({
            let off = (#[trigger] a[i]).offset as int;
            off >= byte_len(t) || is_char_boundary_of(t, off)
        }) by {
            assert(b[i] == a[i]);
        }
    } else {
        assert(entries.take(k) =~= entries);
    }
}

/// The lint diagnostics of the dotenv file `content`: it is parsed, and each
/// parse error is reported as [`env_file_diagnostics`] does. `None` where an
/// error points inside a character, or the file is too long to number its
/// characters.
pub fn dotenv_diagnostics(content: &str) -> (r: Option<Vec<Diagnostic>>)
    requires
        byte_len(content@) <= usize::MAX,
    ensures
        match r {
            Some(d) => {
                let es = dotenv_parse(content@);
                &&& content@.len() < u32::MAX
                &&& error_offsets_aligned(content@, es)
                &&& d@.len() == errors_of(es).len()
                &&& forall|i: int|
                    0 <= i < d@.len() ==> reports_parse_error(
                        content@,
                        #[trigger] errors_of(es)[i],
                        d@[i],
                    )
            },
            None => content@.len() >= u32::MAX || !error_offsets_aligned(
                content@,
                dotenv_parse(content@),
            ),
        },
{
    let entries = korni_entries(content);
    let chars = chars_of(content);
    if chars.len() >= 0xffff_ffffusize {
        return None;
    }
    if !error_offsets_fit(&chars, &entries) {
        return None;
    }
    Some(env_file_diagnostics(content, &entries))
}

proof fn lemma_errors_of_members(entries: Seq<DotenvEntry>)
    ensures
        forall|k: int|
            0 <= k < errors_of(entries).len() ==> exists|i: int|
                0 <= i < entries.len() && entries[i] == DotenvEntry::Error(
                    #[trigger] errors_of(entries)[k],
                ),
        forall|i: int|
            0 <= i < entries.len() && #[trigger] entries[i] is Error ==> errors_of(entries).contains(
                entries[i]->Error_0,
            ),
    decreases entries.len(),
{
    if entries.len() > 0 {
        let p = entries.drop_last();
        lemma_errors_of_members(p);
        let r = errors_of(entries);
        assert forall|k: int| 0 <= k < r.len() implies exists|i: int|
            0 <= i < entries.len() && entries[i] == DotenvEntry::Error(#[trigger] r[k]) by {
            if k < errors_of(p).len() {
                let i = choose|i: int|
                    0 <= i < p.len() && p[i] == DotenvEntry::Error(#[trigger] errors_of(p)[k]);
                assert(entries[i] == p[i]);
            } else {
                assert(entries[entries.len() - 1] == DotenvEntry::Error(r[k]));
            }
        }
        assert forall|i: int| 0 <= i < entries.len() && #[trigger] entries[i] is Error implies r.contains(
            entries[i]->Error_0,
        ) by {
            if i < entries.len() - 1 {
                assert(p[i] == entries[i]);
                let k = choose|k: int| 0 <= k < errors_of(p).len() && errors_of(p)[k] == p[i]->Error_0;
                assert(r[k] == errors_of(p)[k]);
            } else {
                assert(r[r.len() - 1] == entries[i]->Error_0);
            }
        }
    }
}

/// The diagnostics of a dotenv file report exactly its parse errors: each
/// reported error is an error entry of the file, and every error entry is
/// reported. A report marks one character on the error's line, comes from
/// `ecolog-linter`, and its message begins with the error's title.
pub proof fn law_parse_errors_reported(t: Seq<char>, entries: Seq<DotenvEntry>, e: DotenvError, d: Diagnostic)
    ensures
        forall|k: int|
            0 <= k < errors_of(entries).len() ==> exists|i: int|
                0 <= i < entries.len() && entries[i] == DotenvEntry::Error(
                    #[trigger] errors_of(entries)[k],
                ),
        forall|i: int|
            0 <= i < entries.len() && #[trigger] entries[i] is Error ==> errors_of(entries).contains(
                entries[i]->Error_0,
            ),
        reports_parse_error(t, e, d) ==> d.range.end.line == d.range.start.line
            && d.range.end.character as int == (d.range.start.character + 1) as u32 as int
            && d.source@ == "ecolog-linter"@ && d.message@.take(spec_error_title(e).len() as int)
            == spec_error_title(e),
{
    lemma_errors_of_members(entries);
    if reports_parse_error(t, e, d) {
        assert(d.message@.take(spec_error_title(e).len() as int) =~= spec_error_title(e));
    }
}

proof fn lemma_first_key_index(entries: Seq<DotenvEntry>, name: Seq<char>, from: int)
    requires
        0 <= from,
    ensures
        first_key_index(entries, name, from) matches Some(i) ==> from <= i < entries.len()
            && entries[i] is Pair && entries[i]->Pair_0.key@ == name && entries[i]->Pair_0.key_span
            is Some && forall|j: int|
            from <= j < i ==> !(#[trigger] entries[j] is Pair && entries[j]->Pair_0.key@ == name
                && entries[j]->Pair_0.key_span is Some),
        first_key_index(entries, name, from) is None ==> forall|j: int|
            from <= j < entries.len() ==> !(#[trigger] entries[j] is Pair && entries[j]->Pair_0.key@
                == name && entries[j]->Pair_0.key_span is Some),
    decreases entries.len() - from,
{
    if from < entries.len() {
        lemma_first_key_index(entries, name, from + 1);
    }
}

/// The definition of a variable in a dotenv file is its first pair with
/// that key (and a known key position); where no pair has the key, there is
/// none.
pub proof fn law_definition_is_first_pair(entries: Seq<DotenvEntry>, name: Seq<char>)
    ensures
        first_key_index(entries, name, 0) matches Some(i) ==> 0 <= i < entries.len() && entries[i] is Pair
            && entries[i]->Pair_0.key@ == name && entries[i]->Pair_0.key_span is Some && forall|j: int|
            0 <= j < i ==> !(#[trigger] entries[j] is Pair && entries[j]->Pair_0.key@ == name
                && entries[j]->Pair_0.key_span is Some),
        first_key_index(entries, name, 0) is None ==> forall|j: int|
            0 <= j < entries.len() ==> !(#[trigger] entries[j] is Pair && entries[j]->Pair_0.key@
                == name && entries[j]->Pair_0.key_span is Some),
{
    lemma_first_key_index(entries, name, 0);
}

/// The keys a dotenv file defines are the keys of its pairs outside
/// comments: each listed key is such a pair's key, and each such pair's key
/// is listed; a pair written inside a comment defines nothing.
pub proof fn law_defined_keys_are_live_pairs(entries: Seq<DotenvEntry>)
    ensures
        forall|k: int|
            0 <= k < defined_keys(entries).len() ==> exists|i: int|
                0 <= i < entries.len() && entries[i] is Pair && !entries[i]->Pair_0.is_comment
                    && entries[i]->Pair_0.key@ == #[trigger] defined_keys(entries)[k],
        forall|i: int|
            0 <= i < entries.len() && #[trigger] entries[i] is Pair && !entries[i]->Pair_0.is_comment
                ==> defined_keys(entries).contains(entries[i]->Pair_0.key@),
    decreases entries.len(),
{
    if entries.len() > 0 {
        let p = entries.drop_last();
        law_defined_keys_are_live_pairs(p);
        let r = defined_keys(entries);
        assert forall|k: int| 0 <= k < r.len() implies exists|i: int|
            0 <= i < entries.len() && entries[i] is Pair && !entries[i]->Pair_0.is_comment
                && entries[i]->Pair_0.key@ == #[trigger] r[k] by {
            if k < defined_keys(p).len() {
                let i = choose|i: int|
                    0 <= i < p.len() && p[i] is Pair && !p[i]->Pair_0.is_comment && p[i]->Pair_0.key@
                        == #[trigger] defined_keys(p)[k];
                assert(entries[i] == p[i]);
            } else {
                assert(entries[entries.len() - 1] == entries.last());
            }
        }
        assert forall|i: int|
            0 <= i < entries.len() && #[trigger] entries[i] is Pair && !entries[i]->Pair_0.is_comment
                implies r.contains(entries[i]->Pair_0.key@) by {
            if i < entries.len() - 1 {
                assert(p[i] == entries[i]);
                let k = choose|k: int| 0 <= k < defined_keys(p).len() && defined_keys(p)[k] == p[i]->Pair_0.key@;
                assert(r[k] == defined_keys(p)[k]);
            } else {
                assert(r[r.len() - 1] == entries[i]->Pair_0.key@);
            }
        }
    }
}


} // verus!
