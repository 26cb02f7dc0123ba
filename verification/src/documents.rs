//! The documents the editor has open: their text, language and version, and
//! how the text changes when the editor sends edits. A position in an edit
//! counts lines by LF and columns by characters; a column past the end of
//! its line falls on the line's end, and a line past the end of the text on
//! the text's end.
use crate::keyed::KeyedMap;
use crate::position::{chars_since_newline, newline_count, Position, Range};
use crate::text::{chars_of, push_char, strs_of};
use vstd::prelude::*;

verus! {

/// An open document.
pub struct DocumentState {
    pub uri: String,
    pub language_id: String,
    pub content: String,
    pub version: i32,
}

/// An edit sent by the editor: `text` replaces `range`, or the whole text
/// where there is no range.
pub struct TextChange {
    pub range: Option<Range>,
    pub text: String,
}

/// Whether the search for `(line, character)` stops at character index `k`
/// of `t`.
pub open spec fn stops_at(t: Seq<char>, k: int, line: nat, character: nat) -> bool {
    ||| k >= t.len()
    ||| newline_count(t.take(k)) > line
    ||| newline_count(t.take(k)) == line && (chars_since_newline(t.take(k)) >= character || t[k]
        == '\n')
}

/// The first character index at or after `k` where the search for
/// `(line, character)` stops.
pub open spec fn offset_from(t: Seq<char>, k: int, line: nat, character: nat) -> int
    decreases t.len() - k,
{
    if k >= t.len() || stops_at(t, k, line, character) {
        k
    } else {
        offset_from(t, k + 1, line, character)
    }
}

/// The character index of position `p` in `t`.
pub open spec fn position_offset(t: Seq<char>, p: Position) -> int {
    offset_from(t, 0, p.line as nat, p.character as nat)
}

/// `t` with the characters from `a` to `b` replaced by `text` (nothing is
/// removed where `b` comes before `a`).
pub open spec fn splice(t: Seq<char>, a: int, b: int, text: Seq<char>) -> Seq<char> {
    let e = if b < a {
        a
    } else {
        b
    };
    t.take(a) + text + t.skip(e)
}

/// The text after one edit.
pub open spec fn apply_change(t: Seq<char>, c: TextChange) -> Seq<char> {
    match c.range {
        Some(r) => splice(t, position_offset(t, r.start), position_offset(t, r.end), c.text@),
        None => c.text@,
    }
}

/// The text after the edits `cs`, in order.
pub open spec fn apply_changes(t: Seq<char>, cs: Seq<TextChange>) -> Seq<char>
    decreases cs.len(),
{
    if cs.len() == 0 {
        t
    } else {
        apply_change(apply_changes(t, cs.drop_last()), cs.last())
    }
}

proof fn lemma_offset_from_bounds(t: Seq<char>, k: int, line: nat, character: nat)
    requires
        0 <= k <= t.len(),
    ensures
        k <= offset_from(t, k, line, character) <= t.len(),
    decreases t.len() - k,
{
    if !(k >= t.len() || stops_at(t, k, line, character)) {
        lemma_offset_from_bounds(t, k + 1, line, character);
    }
}

proof fn lemma_counts_step(t: Seq<char>, k: int)
    requires
        0 <= k < t.len(),
    ensures
        newline_count(t.take(k + 1)) == newline_count(t.take(k)) + (if t[k] == '\n' {
            1nat
        } else {
            0nat
        }),
        chars_since_newline(t.take(k + 1)) == (if t[k] == '\n' {
            0nat
        } else {
            chars_since_newline(t.take(k)) + 1
        }),
{
    assert(t.take(k + 1).drop_last() =~= t.take(k));
}

/// The character index of `p` in the characters `t`.
fn offset_of(t: &Vec<char>, p: Position) -> (k: usize)
    ensures
        k == position_offset(t@, p),
        k <= t@.len(),
{
    let line: u32 = p.line;
    let character: u32 = p.character;
    let mut k: usize = 0;
    let mut nl: u64 = 0;
    let mut col: u64 = 0;
    proof {
        assert(t@.take(0) =~= Seq::<char>::empty());
    }
    while k < t.len()
        invariant
            0 <= k <= t.len(),
            nl == newline_count(t@.take(k as int)),
            col == chars_since_newline(t@.take(k as int)),
            nl <= k,
            col <= k,
            position_offset(t@, p) == offset_from(t@, k as int, line as nat, character as nat),
        ensures
            k <= t.len(),
            k == offset_from(t@, k as int, line as nat, character as nat),
            position_offset(t@, p) == offset_from(t@, k as int, line as nat, character as nat),
        decreases t.len() - k,
    {
        if nl > line as u64 || (nl == line as u64 && (col >= character as u64 || t[k] == '\n')) {
            break;
        }
        proof {
            lemma_counts_step(t@, k as int);
        }
        if t[k] == '\n' {
            nl = nl + 1;
            col = 0;
        } else {
            col = col + 1;
        }
        k = k + 1;
    }
    k
}

/// The text `t` after the edit `c`.
fn apply_one(t: &Vec<char>, c: &TextChange) -> (r: Vec<char>)
    ensures
        r@ == apply_change(t@, *c),
{
    match &c.range {
        None => chars_of(c.text.as_str()),
        Some(range) => {
            let a = offset_of(t, range.start);
            let b = offset_of(t, range.end);
            let e = if b < a {
                a
            } else {
                b
            };
            let mut r: Vec<char> = Vec::new();
            let mut i: usize = 0;
            while i < a
                invariant
                    a <= t.len(),
                    0 <= i <= a,
                    r@ == t@.take(i as int),
                decreases a - i,
            {
                r.push(t[i]);
                i += 1;
                assert(r@ =~= t@.take(i as int));
            }
            let ins = chars_of(c.text.as_str());
            let mut j: usize = 0;
            while j < ins.len()
                invariant
                    a <= t.len(),
                    0 <= j <= ins.len(),
                    r@ == t@.take(a as int) + ins@.take(j as int),
                decreases ins.len() - j,
            {
                r.push(ins[j]);
                j += 1;
                assert(r@ =~= t@.take(a as int) + ins@.take(j as int));
            }
            assert(ins@.take(ins.len() as int) =~= ins@);
            let mut m: usize = e;
            while m < t.len()
                invariant
                    e <= m <= t.len(),
                    r@ == t@.take(a as int) + ins@ + t@.subrange(e as int, m as int),
                decreases t.len() - m,
            {
                r.push(t[m]);
                m += 1;
                assert(r@ =~= t@.take(a as int) + ins@ + t@.subrange(e as int, m as int));
            }
            assert(t@.subrange(e as int, t.len() as int) =~= t@.skip(e as int));
            r
        },
    }
}

/// A string holding the characters `v`.
fn string_of(v: &Vec<char>) -> (s: String)
    ensures
        s@ == v@,
{
    let mut s = String::new();
    let mut i: usize = 0;
    while i < v.len()
        invariant
            0 <= i <= v.len(),
            s@ == v@.take(i as int),
        decreases v.len() - i,
    {
        push_char(&mut s, v[i]);
        i += 1;
        assert(s@ =~= v@.take(i as int));
    }
    assert(v@.take(v.len() as int) =~= v@);
    s
}

/// `content` after the edits `changes`, in order.
pub fn apply_text_changes(content: &str, changes: &Vec<TextChange>) -> (r: String)
    ensures
        r@ == apply_changes(content@, changes@),
{
    let mut t = chars_of(content);
    let mut i: usize = 0;
    proof {
        assert(changes@.take(0) =~= Seq::<TextChange>::empty());
    }
    while i < changes.len()
        invariant
            0 <= i <= changes.len(),
            t@ == apply_changes(content@, changes@.take(i as int)),
        decreases changes.len() - i,
    {
        proof {
            assert(changes@.take(i + 1).drop_last() =~= changes@.take(i as int));
        }
        t = apply_one(&t, &changes[i]);
        i += 1;
    }
    assert(changes@.take(changes.len() as int) =~= changes@);
    string_of(&t)
}

/// The open documents, by URI.
pub struct DocumentManager {
    docs: KeyedMap<String, DocumentState>,
}

/// The text of a document, its language and version.
pub struct DocumentView {
    pub language_id: Seq<char>,
    pub content: Seq<char>,
    pub version: i32,
}

pub open spec fn doc_view(d: DocumentState) -> DocumentView {
    DocumentView { language_id: d.language_id@, content: d.content@, version: d.version }
}

impl DocumentManager {
    pub closed spec fn wf(&self) -> bool {
        self.docs.wf() && forall|u: Seq<char>|
            #[trigger] self.docs.map().dom().contains(u) ==> self.docs.map()[u].uri@ == u
    }

    /// The open documents, by URI.
    pub closed spec fn documents(&self) -> Map<Seq<char>, DocumentView> {
        self.docs.map().map_values(|d: DocumentState| doc_view(d))
    }

    /// No document open.
    pub fn new() -> (m: Self)
        ensures
            m.wf(),
            m.documents() == Map::<Seq<char>, DocumentView>::empty(),
    {
        let m = DocumentManager { docs: KeyedMap::new() };
        assert(m.documents() =~= Map::<Seq<char>, DocumentView>::empty());
        m
    }

    /// Opens `uri` with `content`, replacing a document open there.
    pub fn open(&mut self, uri: String, language_id: String, content: String, version: i32)
        requires
            old(self).wf(),
        ensures
            final(self).wf(),
            final(self).documents() == old(self).documents().insert(
                uri@,
                DocumentView { language_id: language_id@, content: content@, version },
            ),
    {
        let key = uri.clone();
        let d = DocumentState { uri, language_id, content, version };
        let ghost dv = doc_view(d);
        self.docs.insert(key, d);
        assert(self.documents() =~= old(self).documents().insert(key@, dv));
    }

    /// Applies the edits `changes` to `uri` and records its new version; a
    /// document that is not open is left alone.
    pub fn change(&mut self, uri: &str, changes: &Vec<TextChange>, version: i32)
        requires
            old(self).wf(),
        ensures
            final(self).wf(),
            old(self).documents().dom().contains(uri@) ==> final(self).documents() == old(
                self,
            ).documents().insert(
                uri@,
                DocumentView {
                    language_id: old(self).documents()[uri@].language_id,
                    content: apply_changes(old(self).documents()[uri@].content, changes@),
                    version,
                },
            ),
            !old(self).documents().dom().contains(uri@) ==> final(self).documents() == old(
                self,
            ).documents(),
    {
        let key = uri.to_string();
        let updated = match self.docs.get(&key) {
            Some(d) => {
                let content = apply_text_changes(d.content.as_str(), changes);
                Some(
                    DocumentState {
                        uri: d.uri.clone(),
                        language_id: d.language_id.clone(),
                        content,
                        version,
                    },
                )
            },
            None => None,
        };
        match updated {
            Some(d) => {
                let ghost dv = doc_view(d);
                self.docs.insert(key, d);
                assert(self.documents() =~= old(self).documents().insert(uri@, dv));
            },
            None => {},
        }
    }

    /// Closes `uri`.
    pub fn close(&mut self, uri: &str)
        requires
            old(self).wf(),
        ensures
            final(self).wf(),
            final(self).documents() == old(self).documents().remove(uri@),
    {
        self.docs.remove(&uri.to_string());
        assert(self.documents() =~= old(self).documents().remove(uri@));
    }

    /// The document open at `uri`.
    pub fn get(&self, uri: &str) -> (r: Option<&DocumentState>)
        requires
            self.wf(),
        ensures
            match r {
                Some(d) => self.documents().dom().contains(uri@) && doc_view(*d)
                    == self.documents()[uri@] && d.uri@ == uri@,
                None => !self.documents().dom().contains(uri@),
            },
    {
        self.docs.get(&uri.to_string())
    }

    /// The URIs of the open documents, each once.
    pub fn all_uris(&self) -> (r: Vec<String>)
        requires
            self.wf(),
        ensures
            strs_of(r@).no_duplicates(),
            forall|u: Seq<char>| strs_of(r@).contains(u) <==> self.documents().dom().contains(u),
    {
        proof {
            self.docs.lemma_entries();
        }
        let mut r: Vec<String> = Vec::new();
        let mut i: usize = 0;
        while i < self.docs.entries.len()
            invariant
                self.wf(),
                0 <= i <= self.docs.entries.len(),
                r@.len() == i,
                forall|j: int| 0 <= j < i ==> (#[trigger] r@[j])@ == self.docs.entries@[j].0@,
            decreases self.docs.entries.len() - i,
        {
            r.push(self.docs.entries[i].0.clone());
            i += 1;
        }
        assert(strs_of(r@) =~= crate::keyed::key_views(self.docs.entries@));
        r
    }

    /// How many documents are open.
    pub fn document_count(&self) -> (n: usize)
        requires
            self.wf(),
        ensures
            n == self.documents().dom().len(),
    {
        assert(self.documents().dom() =~= self.docs.map().dom());
        self.docs.len()
    }
}

/// An edit without a range replaces the whole text.
pub proof fn law_full_change_replaces(t: Seq<char>, text: String)
    ensures
        apply_change(t, TextChange { range: None, text }) == text@,
{
}

/// An edit whose range is empty at the end of the text appends to it.
pub proof fn law_insert_at_end(t: Seq<char>, p: Position, text: String)
    requires
        position_offset(t, p) == t.len(),
    ensures
        apply_change(t, TextChange { range: Some(Range { start: p, end: p }), text }) == t + text@,
{
    assert(t.take(t.len() as int) =~= t);
    assert(t.skip(t.len() as int) =~= Seq::<char>::empty());
    assert(t + text@ + Seq::<char>::empty() =~= t + text@);
}

/// Whatever edits came before, a final edit without a range leaves exactly
/// its text: a full-document sync always yields the text the editor sent.
pub proof fn law_last_full_change_wins(t: Seq<char>, cs: Seq<TextChange>)
    requires
        cs.len() > 0,
        cs.last().range is None,
    ensures
        apply_changes(t, cs) == cs.last().text@,
{
}

/// Opening a document and reading it gives back what was opened; other
/// documents are unaffected, and a closed document is no longer open.
pub proof fn law_open_then_read(
    docs: Map<Seq<char>, DocumentView>,
    uri: Seq<char>,
    doc: DocumentView,
    other: Seq<char>,
)
    ensures
        docs.insert(uri, doc)[uri] == doc,
        other != uri ==> docs.insert(uri, doc).dom().contains(other) == docs.dom().contains(other),
        other != uri && docs.dom().contains(other) ==> docs.insert(uri, doc)[other] == docs[other],
        !docs.insert(uri, doc).remove(uri).dom().contains(uri),
{
}

} // verus!
