//! The languages the server understands, and what each one says about how
//! environment variables are read in it: file extensions, editor language
//! ids, the objects and modules that hold the environment, the characters
//! after which completion is offered, and which syntax nodes open a scope.
use crate::text::{chars_of, str_eq, trim_text, trimmed};
use vstd::prelude::*;
use vstd::string::StrSliceExecFns;
use vstd::string::StringSliceAdditionalSpecFns;

pub mod bash;
pub mod c;
pub mod cpp;
pub mod csharp;
pub mod elixir;
pub mod go;
pub mod java;
pub mod javascript;
pub mod kotlin;
pub mod lua;
pub mod php;
pub mod python;
pub mod ruby;
pub mod rust;
pub mod typescript;
pub mod zig;

verus! {

/// The kind of a lexical scope.
#[derive(Debug, Clone, Copy, PartialEq, Eq, Structural)]
pub enum ScopeKind {
    Module,
    Function,
    Block,
    Class,
    Loop,
    Conditional,
}

/// The characters of each string in `s`.
pub open spec fn strs_view(s: Seq<&str>) -> Seq<Seq<char>> {
    Seq::new(s.len(), |i: int| s[i]@)
}

/// Whether `name` is one of the strings of `list`.
pub fn str_in(name: &str, list: &Vec<&str>) -> (b: bool)
    ensures
        b == strs_view(list@).contains(name@),
{
    let mut i: usize = 0;
    while i < list.len()
        invariant
            0 <= i <= list.len(),
            forall|j: int| 0 <= j < i ==> list@[j]@ != name@,
        decreases list.len() - i,
    {
        if str_eq(list[i], name) {
            assert(strs_view(list@)[i as int] == name@);
            return true;
        }
        i += 1;
    }
    assert forall|j: int| 0 <= j < strs_view(list@).len() implies strs_view(list@)[j] != name@ by {
        assert(strs_view(list@)[j] == list@[j]@);
    }
    false
}

/// Whether `c` is a quote character; the backtick counts only where the
/// language has template strings.
pub open spec fn is_quote(c: char, backtick: bool) -> bool {
    c == '"' || c == '\'' || (backtick && c == '`')
}

/// Number of quote characters at the start of `s`.
pub open spec fn lead_quotes(s: Seq<char>, backtick: bool) -> nat
    decreases s.len(),
{
    if s.len() > 0 && is_quote(s[0], backtick) {
        1 + lead_quotes(s.drop_first(), backtick)
    } else {
        0
    }
}

/// Number of quote characters at the end of `s`.
pub open spec fn trail_quotes(s: Seq<char>, backtick: bool) -> nat
    decreases s.len(),
{
    if s.len() > 0 && is_quote(s.last(), backtick) {
        1 + trail_quotes(s.drop_last(), backtick)
    } else {
        0
    }
}

/// `s` with every leading and trailing quote character removed.
pub open spec fn spec_trim_quotes(s: Seq<char>, backtick: bool) -> Seq<char> {
    let t = s.skip(lead_quotes(s, backtick) as int);
    t.take(t.len() - trail_quotes(t, backtick))
}

proof fn lemma_lead_quotes(s: Seq<char>, backtick: bool, a: int)
    requires
        0 <= a <= s.len(),
        forall|j: int| 0 <= j < a ==> is_quote(#[trigger] s[j], backtick),
        a == s.len() || !is_quote(s[a], backtick),
    ensures
        lead_quotes(s, backtick) == a,
        lead_quotes(s, backtick) <= s.len(),
    decreases a,
{
    if a > 0 {
        assert(is_quote(s[0], backtick));
        let t = s.drop_first();
        assert forall|j: int| 0 <= j < a - 1 implies is_quote(#[trigger] t[j], backtick) by {
            assert(t[j] == s[j + 1]);
        }
        lemma_lead_quotes(t, backtick, a - 1);
    }
}

proof fn lemma_trail_quotes(s: Seq<char>, backtick: bool, b: int)
    requires
        0 <= b <= s.len(),
        forall|j: int| b <= j < s.len() ==> is_quote(#[trigger] s[j], backtick),
        b == 0 || !is_quote(s[b - 1], backtick),
    ensures
        trail_quotes(s, backtick) == s.len() - b,
    decreases s.len() - b,
{
    if b < s.len() {
        assert(is_quote(s[s.len() - 1], backtick));
        let t = s.drop_last();
        assert forall|j: int| b <= j < t.len() implies is_quote(#[trigger] t[j], backtick) by {
            assert(t[j] == s[j]);
        }
        if b > 0 {
            assert(t[b - 1] == s[b - 1]);
        }
        lemma_trail_quotes(t, backtick, b);
    }
}

/// `text` with its leading and trailing quote characters removed.
pub fn trim_quotes<'a>(text: &'a str, backtick: bool) -> (r: &'a str)
    ensures
        r@ == spec_trim_quotes(text@, backtick),
{
    let chars = chars_of(text);
    let n = chars.len();
    let mut a: usize = 0;
    while a < n && (chars[a] == '"' || chars[a] == '\'' || (backtick && chars[a] == '`'))
        invariant
            chars@ == text@,
            n == chars.len(),
            0 <= a <= n,
            forall|j: int| 0 <= j < a ==> is_quote(#[trigger] chars@[j], backtick),
        decreases n - a,
    {
        a += 1;
    }
    proof {
        lemma_lead_quotes(text@, backtick, a as int);
    }
    let mut b: usize = n;
    while b > a && (chars[b - 1] == '"' || chars[b - 1] == '\'' || (backtick && chars[b - 1]
        == '`'))
        invariant
            chars@ == text@,
            n == chars.len(),
            0 <= a <= b <= n,
            forall|j: int| b <= j < n ==> is_quote(#[trigger] chars@[j], backtick),
        decreases b - a,
    {
        b -= 1;
    }
    proof {
        let t = text@.skip(a as int);
        assert forall|j: int| b - a <= j < t.len() implies is_quote(#[trigger] t[j], backtick) by {
            assert(t[j] == text@[j + a]);
        }
        if b > a {
            assert(t[b - a - 1] == text@[b - 1]);
        }
        lemma_trail_quotes(t, backtick, b - a);
        assert(t.take(b - a) =~= text@.subrange(a as int, b as int));
    }
    text.substring_char(a, b)
}

/// Whether the bytes of `source` just before `byte_offset` spell `pat`.
fn ends_with_at(source: &[u8], byte_offset: usize, pat: &[u8]) -> (b: bool)
    requires
        byte_offset <= source@.len(),
    ensures
        b == (pat@.len() <= byte_offset && source@.subrange(
            byte_offset - pat@.len(),
            byte_offset as int,
        ) == pat@),
{
    let len = pat.len();
    if len > byte_offset {
        return false;
    }
    let start = byte_offset - len;
    let mut i: usize = 0;
    while i < len
        invariant
            len == pat@.len(),
            start + len == byte_offset <= source@.len(),
            0 <= i <= len,
            forall|j: int| 0 <= j < i ==> source@[start + j] == pat@[j],
        decreases len - i,
    {
        if source[start + i] != pat[i] {
            assert(source@.subrange(start as int, byte_offset as int)[i as int] != pat@[i as int]);
            return false;
        }
        i += 1;
    }
    assert(source@.subrange(start as int, byte_offset as int) =~= pat@);
    true
}

/// Whether the text just before `byte_offset` ends with one of `triggers`
/// (empty triggers never match).
pub open spec fn spec_trigger_matches(
    triggers: Seq<Seq<u8>>,
    source: Seq<u8>,
    byte_offset: int,
) -> bool {
    exists|k: int|
        0 <= k < triggers.len() && #[trigger] triggers[k].len() > 0 && triggers[k].len()
            <= byte_offset && source.subrange(byte_offset - triggers[k].len(), byte_offset)
            == triggers[k]
}

/// The UTF-8 bytes of each string in `s`.
pub open spec fn strs_bytes(s: Seq<&str>) -> Seq<Seq<u8>> {
    Seq::new(s.len(), |i: int| s[i].spec_bytes())
}

/// Whether the text before `byte_offset` ends with one of `triggers`.
pub fn matches_trigger(triggers: &Vec<&str>, source: &[u8], byte_offset: usize) -> (b: bool)
    requires
        byte_offset <= source@.len(),
    ensures
        b == spec_trigger_matches(strs_bytes(triggers@), source@, byte_offset as int),
{
    let mut i: usize = 0;
    while i < triggers.len()
        invariant
            0 <= i <= triggers.len(),
            byte_offset <= source@.len(),
            forall|k: int|
                0 <= k < i ==> !(#[trigger] strs_bytes(triggers@)[k].len() > 0
                    && strs_bytes(triggers@)[k].len() <= byte_offset && source@.subrange(
                    byte_offset - strs_bytes(triggers@)[k].len(),
                    byte_offset as int,
                ) == strs_bytes(triggers@)[k]),
        decreases triggers.len() - i,
    {
        let t = triggers[i].as_bytes();
        assert(strs_bytes(triggers@)[i as int] == t@);
        if t.len() > 0 && ends_with_at(source, byte_offset, t) {
            return true;
        }
        i += 1;
    }
    false
}

/// The scope kind of a syntax node kind, shared by every language.
pub open spec fn spec_scope_kind(kind: Seq<char>) -> ScopeKind {
    if strs_view(function_kinds()).contains(kind) {
        ScopeKind::Function
    } else if strs_view(class_kinds()).contains(kind) {
        ScopeKind::Class
    } else if strs_view(loop_kinds()).contains(kind) {
        ScopeKind::Loop
    } else if strs_view(conditional_kinds()).contains(kind) {
        ScopeKind::Conditional
    } else {
        ScopeKind::Block
    }
}

pub open spec fn function_kinds() -> Seq<&'static str> {
    seq![
        "function_declaration",
        "arrow_function",
        "function",
        "method_definition",
        "function_definition",
        "function_item",
        "func_literal",
        "closure_expression",
        "generator_function",
        "generator_function_declaration",
    ]
}

pub open spec fn class_kinds() -> Seq<&'static str> {
    seq!["class_declaration", "class_definition", "class_body", "impl_item", "trait_item", "class"]
}

pub open spec fn loop_kinds() -> Seq<&'static str> {
    seq![
        "for_statement",
        "for_expression",
        "while_statement",
        "while_expression",
        "loop_expression",
        "do_statement",
        "for_in_statement",
        "for_of_statement",
    ]
}

pub open spec fn conditional_kinds() -> Seq<&'static str> {
    seq![
        "if_statement",
        "if_expression",
        "else_clause",
        "try_statement",
        "catch_clause",
        "match_expression",
        "switch_statement",
        "switch_case",
    ]
}

pub open spec fn root_kinds() -> Seq<&'static str> {
    seq!["program", "source_file", "module"]
}

/// The scope kind of the syntax node kind `kind`.
pub fn scope_kind_of(kind: &str) -> (r: ScopeKind)
    ensures
        r == spec_scope_kind(kind@),
{
    let functions: Vec<&str> = vec![
        "function_declaration",
        "arrow_function",
        "function",
        "method_definition",
        "function_definition",
        "function_item",
        "func_literal",
        "closure_expression",
        "generator_function",
        "generator_function_declaration",
    ];
    assert(functions@ == function_kinds());
    if str_in(kind, &functions) {
        return ScopeKind::Function;
    }
    let classes: Vec<&str> = vec![
        "class_declaration",
        "class_definition",
        "class_body",
        "impl_item",
        "trait_item",
        "class",
    ];
    assert(classes@ == class_kinds());
    if str_in(kind, &classes) {
        return ScopeKind::Class;
    }
    let loops: Vec<&str> = vec![
        "for_statement",
        "for_expression",
        "while_statement",
        "while_expression",
        "loop_expression",
        "do_statement",
        "for_in_statement",
        "for_of_statement",
    ];
    assert(loops@ == loop_kinds());
    if str_in(kind, &loops) {
        return ScopeKind::Loop;
    }
    let conditionals: Vec<&str> = vec![
        "if_statement",
        "if_expression",
        "else_clause",
        "try_statement",
        "catch_clause",
        "match_expression",
        "switch_statement",
        "switch_case",
    ];
    assert(conditionals@ == conditional_kinds());
    if str_in(kind, &conditionals) {
        return ScopeKind::Conditional;
    }
    ScopeKind::Block
}

/// Whether `kind` is the kind of a file's root node.
pub fn is_root_kind(kind: &str) -> (b: bool)
    ensures
        b == strs_view(root_kinds()).contains(kind@),
{
    let roots: Vec<&str> = vec!["program", "source_file", "module"];
    assert(roots@ == root_kinds());
    str_in(kind, &roots)
}

/// A node of a syntax tree as the analysis reads it: its kind, its text,
/// and its children that the grammar names by a field, in order.
#[derive(Debug)]
pub struct SyntaxNode {
    pub kind: String,
    pub text: String,
    pub fields: Vec<(String, SyntaxNode)>,
}

/// The first child of `fields` under the field name `name`.
pub open spec fn field_of(fields: Seq<(String, SyntaxNode)>, name: Seq<char>) -> Option<SyntaxNode>
    decreases fields.len(),
{
    if fields.len() == 0 {
        None
    } else if fields[0].0@ == name {
        Some(fields[0].1)
    } else {
        field_of(fields.drop_first(), name)
    }
}

impl SyntaxNode {
    /// The child under the field name `name`, as `child_by_field_name`
    /// finds it.
    pub open spec fn spec_field(self, name: Seq<char>) -> Option<SyntaxNode> {
        field_of(self.fields@, name)
    }

    /// The child under the field name `name`.
    pub fn field(&self, name: &str) -> (r: Option<&SyntaxNode>)
        ensures
            match r {
                Some(c) => self.spec_field(name@) == Some(*c),
                None => self.spec_field(name@) is None,
            },
    {
        let mut i: usize = 0;
        assert(self.fields@.skip(0) =~= self.fields@);
        while i < self.fields.len()
            invariant
                0 <= i <= self.fields.len(),
                field_of(self.fields@, name@) == field_of(self.fields@.skip(i as int), name@),
            decreases self.fields.len() - i,
        {
            proof {
                assert(self.fields@.skip(i as int).drop_first() =~= self.fields@.skip(i + 1));
            }
            if str_eq(self.fields[i].0.as_str(), name) {
                return Some(&self.fields[i].1);
            }
            i += 1;
        }
        assert(self.fields@.skip(i as int).len() == 0);
        None
    }
}

/// Whether a node's kind is `kind`.
pub open spec fn has_kind(n: SyntaxNode, kind: Seq<char>) -> bool {
    n.kind@ == kind
}

/// What a syntax node reads the environment through.
#[derive(Debug, Clone, PartialEq, Eq)]
pub enum EnvSourceKind {
    /// An object that holds the environment, under its usual name.
    Object { canonical_name: String },
    /// A single variable of the environment.
    Variable { name: String },
}

/// The value of an [`EnvSourceKind`].
pub enum EnvSourceView {
    Object(Seq<char>),
    Variable(Seq<char>),
}

/// The value of an optional [`EnvSourceKind`].
pub open spec fn env_source_view(r: Option<EnvSourceKind>) -> Option<EnvSourceView> {
    match r {
        Some(EnvSourceKind::Object { canonical_name }) => Some(EnvSourceView::Object(canonical_name@)),
        Some(EnvSourceKind::Variable { name }) => Some(EnvSourceView::Variable(name@)),
        None => None,
    }
}

/// An environment object known by its usual name.
pub open spec fn env_object(name: Seq<char>) -> Option<EnvSourceView> {
    Some(EnvSourceView::Object(name))
}

/// The object `name`, as a result.
pub fn env_object_named(name: &str) -> (r: Option<EnvSourceKind>)
    ensures
        env_source_view(r) == env_object(name@),
{
    Some(EnvSourceKind::Object { canonical_name: name.to_string() })
}

/// An optional reference to a node, as a value.
pub open spec fn opt_node(n: Option<&SyntaxNode>) -> Option<SyntaxNode> {
    match n {
        Some(p) => Some(*p),
        None => None,
    }
}

/// A property access as `(object, property)` text.
pub open spec fn access_view(r: Option<(String, String)>) -> Option<(Seq<char>, Seq<char>)> {
    match r {
        Some((o, p)) => Some((o@, p@)),
        None => None,
    }
}

/// The access that a node of kind `kind`, or its parent of that kind,
/// makes: the texts of its `object` and `property` fields. With `ident`, the
/// object must be a plain identifier.
pub open spec fn member_access(
    node: SyntaxNode,
    parent: Option<SyntaxNode>,
    kind: Seq<char>,
    object: Seq<char>,
    property: Seq<char>,
    ident: bool,
) -> Option<(Seq<char>, Seq<char>)> {
    let access = if has_kind(node, kind) {
        Some(node)
    } else {
        match parent {
            Some(p) => if has_kind(p, kind) {
                Some(p)
            } else {
                None
            },
            None => None,
        }
    };
    match access {
        Some(a) => match (a.spec_field(object), a.spec_field(property)) {
            (Some(o), Some(p)) => if ident && !has_kind(o, "identifier"@) {
                None
            } else {
                Some((o.text@, p.text@))
            },
            _ => None,
        },
        None => None,
    }
}

/// What a property access `object.property` is, as facts about the node
/// under the cursor, its parent and what is found (`r`): an access node of
/// kind `kind` (the node itself, or else its parent) with both children gives
/// the text of its `object` child and of its `property` child, provided the
/// object is a plain identifier where `ident` asks for one; anything found
/// comes from such an access node.
pub open spec fn member_access_facts(
    node: SyntaxNode,
    parent: Option<SyntaxNode>,
    kind: Seq<char>,
    object: Seq<char>,
    property: Seq<char>,
    ident: bool,
    r: Option<(Seq<char>, Seq<char>)>,
) -> bool {
    &&& (node.kind@ == kind && node.spec_field(object) is Some && node.spec_field(property) is Some
        && (!ident || node.spec_field(object).unwrap().kind@ == "identifier"@)) ==> r == Some(
        (node.spec_field(object).unwrap().text@, node.spec_field(property).unwrap().text@),
    )
    &&& (node.kind@ != kind && parent is Some && parent.unwrap().kind@ == kind
        && parent.unwrap().spec_field(object) is Some && parent.unwrap().spec_field(property) is Some
        && (!ident || parent.unwrap().spec_field(object).unwrap().kind@ == "identifier"@)) ==> r
        == Some(
        (
            parent.unwrap().spec_field(object).unwrap().text@,
            parent.unwrap().spec_field(property).unwrap().text@,
        ),
    )
    &&& r is Some ==> exists|a: SyntaxNode|
        (a == node || parent == Some(a)) && a.kind@ == kind && a.spec_field(object) is Some
            && a.spec_field(property) is Some && r == Some(
            (a.spec_field(object).unwrap().text@, a.spec_field(property).unwrap().text@),
        )
}

/// [`member_access`] meets the facts of [`member_access_facts`].
pub proof fn lemma_member_access_facts(
    node: SyntaxNode,
    parent: Option<SyntaxNode>,
    kind: Seq<char>,
    object: Seq<char>,
    property: Seq<char>,
    ident: bool,
)
    ensures
        member_access_facts(
            node,
            parent,
            kind,
            object,
            property,
            ident,
            member_access(node, parent, kind, object, property, ident),
        ),
{
    let r = member_access(node, parent, kind, object, property, ident);
    if r is Some {
        if has_kind(node, kind) {
            assert(node == node);
        } else {
            assert(parent == Some(parent.unwrap()));
        }
    }
}

/// What a JavaScript property access is: a property name whose parent is a
/// member expression on a plain identifier gives that identifier and the
/// property name, and anything found is such a property name.
pub open spec fn js_access_facts(
    node: SyntaxNode,
    parent: Option<SyntaxNode>,
    r: Option<(Seq<char>, Seq<char>)>,
) -> bool {
    &&& (node.kind@ == "property_identifier"@ && parent is Some && parent.unwrap().kind@
        == "member_expression"@ && parent.unwrap().spec_field("object"@) is Some
        && parent.unwrap().spec_field("object"@).unwrap().kind@ == "identifier"@) ==> r == Some(
        (parent.unwrap().spec_field("object"@).unwrap().text@, node.text@),
    )
    &&& r is Some ==> node.kind@ == "property_identifier"@ && parent is Some && parent.unwrap().kind@
        == "member_expression"@ && parent.unwrap().spec_field("object"@) is Some
        && parent.unwrap().spec_field("object"@).unwrap().kind@ == "identifier"@ && r == Some(
        (parent.unwrap().spec_field("object"@).unwrap().text@, node.text@),
    )
}

/// [`js_property_access`] meets the facts of [`js_access_facts`].
pub proof fn lemma_js_access_facts(node: SyntaxNode, parent: Option<SyntaxNode>)
    ensures
        js_access_facts(node, parent, js_property_access(node, parent)),
{
}

/// [`member_access`], computed.
pub fn find_member_access(
    node: &SyntaxNode,
    parent: Option<&SyntaxNode>,
    kind: &str,
    object: &str,
    property: &str,
    ident: bool,
) -> (r: Option<(String, String)>)
    ensures
        access_view(r) == member_access(
            *node,
            match parent {
                Some(p) => Some(*p),
                None => None,
            },
            kind@,
            object@,
            property@,
            ident,
        ),
{
    let access = if str_eq(node.kind.as_str(), kind) {
        node
    } else {
        match parent {
            Some(p) => if str_eq(p.kind.as_str(), kind) {
                p
            } else {
                return None;
            },
            None => return None,
        }
    };
    match (access.field(object), access.field(property)) {
        (Some(o), Some(p)) => {
            if ident && !str_eq(o.kind.as_str(), "identifier") {
                None
            } else {
                Some((o.text.clone(), p.text.clone()))
            }
        },
        _ => None,
    }
}

/// What a node of the JavaScript family reads the environment through:
/// `process.env`, or `import.meta.env`.
pub open spec fn js_env_source(node: SyntaxNode) -> Option<EnvSourceView> {
    if has_kind(node, "member_expression"@) {
        match (node.spec_field("object"@), node.spec_field("property"@)) {
            (Some(o), Some(p)) => if o.text@ == "process"@ && p.text@ == "env"@ {
                env_object("process.env"@)
            } else if has_kind(o, "member_expression"@) {
                match (o.spec_field("object"@), o.spec_field("property"@)) {
                    (Some(io), Some(ip)) => if io.text@ == "import"@ && ip.text@ == "meta"@ && p.text@
                        == "env"@ {
                        env_object("import.meta.env"@)
                    } else {
                        None
                    },
                    _ => None,
                }
            } else {
                None
            },
            _ => None,
        }
    } else {
        None
    }
}

/// What JavaScript and its dialects read the environment through, as facts
/// about a node and what it is found to be (`r`): the member expression
/// `process.env` is the object `process.env`; `import.meta.env` (a member
/// `env` of the member expression `import.meta`) is the object
/// `import.meta.env`; anything found is one of these two member expressions.
pub open spec fn js_env_facts(node: SyntaxNode, r: Option<EnvSourceView>) -> bool {
    &&& (node.kind@ == "member_expression"@ && node.spec_field("object"@) is Some
        && node.spec_field("object"@).unwrap().text@ == "process"@ && node.spec_field(
        "property"@,
    ) is Some && node.spec_field("property"@).unwrap().text@ == "env"@) ==> r == Some(
        EnvSourceView::Object("process.env"@),
    )
    &&& ({
        let o = node.spec_field("object"@).unwrap();
        node.kind@ == "member_expression"@ && node.spec_field("object"@) is Some && o.kind@
            == "member_expression"@ && o.text@ == "import.meta"@ && o.spec_field("object"@) is Some
            && o.spec_field("object"@).unwrap().text@ == "import"@ && o.spec_field("property"@) is Some
            && o.spec_field("property"@).unwrap().text@ == "meta"@ && node.spec_field("property"@) is Some
            && node.spec_field("property"@).unwrap().text@ == "env"@
    }) ==> r == Some(EnvSourceView::Object("import.meta.env"@))
    &&& r is Some ==> node.kind@ == "member_expression"@ && node.spec_field("property"@) is Some
        && node.spec_field("property"@).unwrap().text@ == "env"@ && (r == Some(
        EnvSourceView::Object("process.env"@),
    ) || r == Some(EnvSourceView::Object("import.meta.env"@)))
}

/// [`js_env_source`] meets the facts of [`js_env_facts`].
pub proof fn lemma_js_env_facts(node: SyntaxNode)
    ensures
        js_env_facts(node, js_env_source(node)),
{
    reveal_strlit("import.meta");
    reveal_strlit("process");
    assert("import.meta"@.len() != "process"@.len());
}

/// [`js_env_source`], computed.
pub fn js_env_source_node(node: &SyntaxNode) -> (r: Option<EnvSourceKind>)
    ensures
        env_source_view(r) == js_env_source(*node),
{
    if !str_eq(node.kind.as_str(), "member_expression") {
        return None;
    }
    match (node.field("object"), node.field("property")) {
        (Some(o), Some(p)) => {
            if str_eq(o.text.as_str(), "process") && str_eq(p.text.as_str(), "env") {
                env_object_named("process.env")
            } else if str_eq(o.kind.as_str(), "member_expression") {
                match (o.field("object"), o.field("property")) {
                    (Some(io), Some(ip)) => {
                        if str_eq(io.text.as_str(), "import") && str_eq(ip.text.as_str(), "meta")
                            && str_eq(p.text.as_str(), "env") {
                            env_object_named("import.meta.env")
                        } else {
                            None
                        }
                    },
                    _ => None,
                }
            } else {
                None
            }
        },
        _ => None,
    }
}

/// The key a JavaScript-family destructuring pattern takes: the `key` of a
/// `pair_pattern`, else the pattern's own text.
pub open spec fn js_destructure_key(node: SyntaxNode) -> Seq<char> {
    if has_kind(node, "pair_pattern"@) {
        match node.spec_field("key"@) {
            Some(k) => k.text@,
            None => node.text@,
        }
    } else {
        node.text@
    }
}

/// [`js_destructure_key`], computed.
pub fn js_destructure_key_of(node: &SyntaxNode) -> (r: Option<String>)
    ensures
        r matches Some(s) && s@ == js_destructure_key(*node),
{
    if str_eq(node.kind.as_str(), "pair_pattern") {
        if let Some(k) = node.field("key") {
            return Some(k.text.clone());
        }
    }
    Some(node.text.clone())
}

/// The access a JavaScript-family property name under the cursor makes:
/// the name must be a `property_identifier` of a `member_expression` whose
/// object is a plain identifier.
pub open spec fn js_property_access(node: SyntaxNode, parent: Option<SyntaxNode>) -> Option<
    (Seq<char>, Seq<char>),
> {
    if !has_kind(node, "property_identifier"@) {
        None
    } else {
        match parent {
            Some(p) => if !has_kind(p, "member_expression"@) {
                None
            } else {
                match p.spec_field("object"@) {
                    Some(o) => if has_kind(o, "identifier"@) {
                        Some((o.text@, node.text@))
                    } else {
                        None
                    },
                    None => None,
                }
            },
            None => None,
        }
    }
}

/// [`js_property_access`], computed.
pub fn js_property_access_of(node: &SyntaxNode, parent: Option<&SyntaxNode>) -> (r: Option<
    (String, String),
>)
    ensures
        access_view(r) == js_property_access(*node, opt_node(parent)),
{
    if !str_eq(node.kind.as_str(), "property_identifier") {
        return None;
    }
    let p = match parent {
        Some(p) => p,
        None => return None,
    };
    if !str_eq(p.kind.as_str(), "member_expression") {
        return None;
    }
    match p.field("object") {
        Some(o) => {
            if str_eq(o.kind.as_str(), "identifier") {
                Some((o.text.clone(), node.text.clone()))
            } else {
                None
            }
        },
        None => None,
    }
}

/// What the server needs to know of a language. Each method has a spec
/// function of the same name that fixes its result.
pub trait LanguageSupport {
    spec fn spec_id(&self) -> &'static str;

    spec fn spec_extensions(&self) -> Seq<&'static str>;

    spec fn spec_language_ids(&self) -> Seq<&'static str>;

    spec fn spec_known_env_modules(&self) -> Seq<&'static str>;

    spec fn spec_is_standard_env_object(&self, name: Seq<char>) -> bool;

    spec fn spec_default_env_object_name(&self) -> Option<&'static str>;

    spec fn spec_completion_trigger_characters(&self) -> Seq<&'static str>;

    spec fn spec_comment_node_kinds(&self) -> Seq<&'static str>;

    /// Whether a backtick counts as a quote in this language.
    spec fn spec_strips_backticks(&self) -> bool;

    /// The syntax node kinds that open a scope in this language.
    spec fn spec_scope_kinds(&self) -> Seq<&'static str>;

    /// The language's identifier.
    fn id(&self) -> (r: &'static str)
        ensures
            r == self.spec_id(),
    ;

    /// The file extensions of the language, without the dot.
    fn extensions(&self) -> (r: Vec<&'static str>)
        ensures
            r@ == self.spec_extensions(),
    ;

    /// The editor language ids of the language.
    fn language_ids(&self) -> (r: Vec<&'static str>)
        ensures
            r@ == self.spec_language_ids(),
    ;

    /// The modules whose import brings the environment into scope.
    fn known_env_modules(&self) -> (r: Vec<&'static str>)
        ensures
            r@ == self.spec_known_env_modules(),
    ;

    /// Whether `name` is an object through which the environment is read.
    fn is_standard_env_object(&self, name: &str) -> (b: bool)
        ensures
            b == self.spec_is_standard_env_object(name@),
    ;

    /// The usual name of the environment object, where there is one.
    fn default_env_object_name(&self) -> (r: Option<&'static str>)
        ensures
            r == self.spec_default_env_object_name(),
    ;

    /// The text after which completion of variable names is offered.
    fn completion_trigger_characters(&self) -> (r: Vec<&'static str>)
        ensures
            r@ == self.spec_completion_trigger_characters(),
    ;

    /// The syntax node kinds that are comments.
    fn comment_node_kinds(&self) -> (r: Vec<&'static str>)
        ensures
            r@ == self.spec_comment_node_kinds(),
    ;

    /// `text` without its surrounding quote characters.
    fn strip_quotes<'a>(&self, text: &'a str) -> (r: &'a str)
        ensures
            r@ == spec_trim_quotes(text@, self.spec_strips_backticks()),
    ;

    /// Whether the syntax node kind `kind` opens a scope.
    fn is_scope_kind(&self, kind: &str) -> (b: bool)
        ensures
            b == strs_view(self.spec_scope_kinds()).contains(kind@),
    ;

    /// Whether the text just before `byte_offset` is one of the language's
    /// completion triggers.
    fn is_valid_completion_trigger(&self, source: &[u8], byte_offset: usize) -> (b: bool)
        requires
            byte_offset <= source@.len(),
        ensures
            b == spec_trigger_matches(
                strs_bytes(self.spec_completion_trigger_characters()),
                source@,
                byte_offset as int,
            ),
    {
        let triggers = self.completion_trigger_characters();
        matches_trigger(&triggers, source, byte_offset)
    }

    /// The syntax node kinds of a file's root node.
    open spec fn spec_root_kinds(&self) -> Seq<&'static str> {
        root_kinds()
    }

    /// Whether `kind` is the kind of a file's root node.
    fn is_root_node_kind(&self, kind: &str) -> (b: bool)
        ensures
            b == strs_view(self.spec_root_kinds()).contains(kind@),
    ;

    /// What `node` reads the environment through, where it reads it.
    open spec fn spec_env_source_node(&self, node: SyntaxNode) -> Option<EnvSourceView> {
        None
    }

    /// What `node` reads the environment through, where it reads it.
    fn is_env_source_node(&self, node: &SyntaxNode) -> (r: Option<EnvSourceKind>)
        ensures
            env_source_view(r) == self.spec_env_source_node(*node),
    ;

    /// The object and property that the node under the cursor, with its
    /// parent, accesses.
    open spec fn spec_property_access(&self, node: SyntaxNode, parent: Option<SyntaxNode>) -> Option<
        (Seq<char>, Seq<char>),
    > {
        None
    }

    /// The object and property that `node`, under the cursor, or its parent
    /// `parent` accesses.
    fn extract_property_access(&self, node: &SyntaxNode, parent: Option<&SyntaxNode>) -> (r: Option<
        (String, String),
    >)
        ensures
            access_view(r) == self.spec_property_access(*node, opt_node(parent)),
    ;

    /// The variable name that the text of a node spells.
    open spec fn spec_var_name(&self, text: Seq<char>) -> Seq<char> {
        trimmed(text)
    }

    /// The variable name that `node` spells.
    fn extract_var_name(&self, node: &SyntaxNode) -> (r: Option<String>)
        ensures
            r matches Some(s) && s@ == self.spec_var_name(node.text@),
    ;

    /// The identifier that `node` spells.
    fn extract_identifier(&self, node: &SyntaxNode) -> (r: Option<String>)
        ensures
            r matches Some(s) && s@ == trimmed(node.text@),
    {
        Some(trim_text(node.text.as_str()))
    }

    /// The key that a destructuring pattern takes from the environment.
    open spec fn spec_destructure_key(&self, node: SyntaxNode) -> Seq<char> {
        trimmed(node.text@)
    }

    /// The key that the destructuring pattern `node` takes.
    fn extract_destructure_key(&self, node: &SyntaxNode) -> (r: Option<String>)
        ensures
            r matches Some(s) && s@ == self.spec_destructure_key(*node),
    ;

    /// Whether `node` opens a scope.
    fn is_scope_node(&self, node: &SyntaxNode) -> (b: bool)
        ensures
            b == strs_view(self.spec_scope_kinds()).contains(node.kind@),
    {
        self.is_scope_kind(node.kind.as_str())
    }

    /// Whether `node` is the root node of a file.
    fn is_root_node(&self, node: &SyntaxNode) -> (b: bool)
        ensures
            b == strs_view(self.spec_root_kinds()).contains(node.kind@),
    {
        self.is_root_node_kind(node.kind.as_str())
    }

    /// The scope kind that a node of kind `kind` opens.
    fn node_to_scope_kind(&self, kind: &str) -> (r: ScopeKind)
        ensures
            r == spec_scope_kind(kind@),
    {
        scope_kind_of(kind)
    }
}

} // verus!
