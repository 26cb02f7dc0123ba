//! TypeScript, and TypeScript with JSX.
use crate::languages::{
    is_root_kind, js_access_facts, lemma_js_access_facts, js_env_facts, lemma_js_env_facts, js_destructure_key, js_destructure_key_of, js_env_source, js_env_source_node,
    js_property_access, js_property_access_of, str_in, trim_quotes, EnvSourceKind, EnvSourceView,
    LanguageSupport, SyntaxNode,
};
use crate::text::{str_eq, trim_text};
use vstd::prelude::*;

verus! {

/// TypeScript, which reads the environment like JavaScript does.
pub struct TypeScript;

/// TypeScript with JSX elements.
pub struct TypeScriptReact;

impl LanguageSupport for TypeScript {
    fn is_root_node_kind(&self, kind: &str) -> (b: bool) {
        is_root_kind(kind)
    }

    open spec fn spec_env_source_node(&self, node: SyntaxNode) -> Option<EnvSourceView> {
        js_env_source(node)
    }

    fn is_env_source_node(&self, node: &SyntaxNode) -> (r: Option<EnvSourceKind>) {
        js_env_source_node(node)
    }

    open spec fn spec_property_access(&self, node: SyntaxNode, parent: Option<SyntaxNode>) -> Option<
        (Seq<char>, Seq<char>),
    > {
        js_property_access(node, parent)
    }

    fn extract_property_access(&self, node: &SyntaxNode, parent: Option<&SyntaxNode>) -> (r: Option<
        (String, String),
    >) {
        js_property_access_of(node, parent)
    }

    fn extract_var_name(&self, node: &SyntaxNode) -> (r: Option<String>) {
        Some(trim_text(node.text.as_str()))
    }

    open spec fn spec_destructure_key(&self, node: SyntaxNode) -> Seq<char> {
        js_destructure_key(node)
    }

    fn extract_destructure_key(&self, node: &SyntaxNode) -> (r: Option<String>) {
        js_destructure_key_of(node)
    }

    open spec fn spec_id(&self) -> &'static str {
        "typescript"
    }

    open spec fn spec_extensions(&self) -> Seq<&'static str> {
        seq!["ts", "mts", "cts"]
    }

    open spec fn spec_language_ids(&self) -> Seq<&'static str> {
        seq!["typescript"]
    }

    open spec fn spec_known_env_modules(&self) -> Seq<&'static str> {
        seq!["process"]
    }

    open spec fn spec_is_standard_env_object(&self, name: Seq<char>) -> bool {
        name == "process.env"@ || name == "import.meta.env"@
    }

    open spec fn spec_default_env_object_name(&self) -> Option<&'static str> {
        Some("process.env")
    }

    open spec fn spec_completion_trigger_characters(&self) -> Seq<&'static str> {
        seq![".", "\"", "'"]
    }

    open spec fn spec_comment_node_kinds(&self) -> Seq<&'static str> {
        seq!["comment"]
    }

    open spec fn spec_strips_backticks(&self) -> bool {
        true
    }

    open spec fn spec_scope_kinds(&self) -> Seq<&'static str> {
        seq![
            "program",
            "function_declaration",
            "arrow_function",
            "function",
            "method_definition",
            "class_body",
            "statement_block",
            "for_statement",
            "if_statement",
            "else_clause",
            "try_statement",
            "catch_clause",
            "interface_declaration",
            "module",
        ]
    }

    fn id(&self) -> (r: &'static str) {
        "typescript"
    }

    fn extensions(&self) -> (r: Vec<&'static str>) {
        vec!["ts", "mts", "cts"]
    }

    fn language_ids(&self) -> (r: Vec<&'static str>) {
        vec!["typescript"]
    }

    fn known_env_modules(&self) -> (r: Vec<&'static str>) {
        vec!["process"]
    }

    fn is_standard_env_object(&self, name: &str) -> (b: bool) {
        str_eq(name, "process.env") || str_eq(name, "import.meta.env")
    }

    fn default_env_object_name(&self) -> (r: Option<&'static str>) {
        Some("process.env")
    }

    fn completion_trigger_characters(&self) -> (r: Vec<&'static str>) {
        vec![".", "\"", "'"]
    }

    fn comment_node_kinds(&self) -> (r: Vec<&'static str>) {
        vec!["comment"]
    }

    fn strip_quotes<'a>(&self, text: &'a str) -> (r: &'a str) {
        trim_quotes(text, true)
    }

    fn is_scope_kind(&self, kind: &str) -> (b: bool) {
        let kinds: Vec<&str> = vec![
                    "program",
                    "function_declaration",
                    "arrow_function",
                    "function",
                    "method_definition",
                    "class_body",
                    "statement_block",
                    "for_statement",
                    "if_statement",
                    "else_clause",
                    "try_statement",
                    "catch_clause",
                    "interface_declaration",
                    "module",
                ];
        proof {
            assert(kinds@ == self.spec_scope_kinds());
        }
        str_in(kind, &kinds)
    }
}

impl LanguageSupport for TypeScriptReact {
    fn is_root_node_kind(&self, kind: &str) -> (b: bool) {
        is_root_kind(kind)
    }

    open spec fn spec_env_source_node(&self, node: SyntaxNode) -> Option<EnvSourceView> {
        js_env_source(node)
    }

    fn is_env_source_node(&self, node: &SyntaxNode) -> (r: Option<EnvSourceKind>) {
        js_env_source_node(node)
    }

    open spec fn spec_property_access(&self, node: SyntaxNode, parent: Option<SyntaxNode>) -> Option<
        (Seq<char>, Seq<char>),
    > {
        js_property_access(node, parent)
    }

    fn extract_property_access(&self, node: &SyntaxNode, parent: Option<&SyntaxNode>) -> (r: Option<
        (String, String),
    >) {
        js_property_access_of(node, parent)
    }

    fn extract_var_name(&self, node: &SyntaxNode) -> (r: Option<String>) {
        Some(trim_text(node.text.as_str()))
    }

    open spec fn spec_destructure_key(&self, node: SyntaxNode) -> Seq<char> {
        js_destructure_key(node)
    }

    fn extract_destructure_key(&self, node: &SyntaxNode) -> (r: Option<String>) {
        js_destructure_key_of(node)
    }

    open spec fn spec_id(&self) -> &'static str {
        "typescriptreact"
    }

    open spec fn spec_extensions(&self) -> Seq<&'static str> {
        seq!["tsx"]
    }

    open spec fn spec_language_ids(&self) -> Seq<&'static str> {
        seq!["typescriptreact"]
    }

    open spec fn spec_known_env_modules(&self) -> Seq<&'static str> {
        seq!["process"]
    }

    open spec fn spec_is_standard_env_object(&self, name: Seq<char>) -> bool {
        name == "process.env"@ || name == "import.meta.env"@
    }

    open spec fn spec_default_env_object_name(&self) -> Option<&'static str> {
        Some("process.env")
    }

    open spec fn spec_completion_trigger_characters(&self) -> Seq<&'static str> {
        seq![".", "\"", "'"]
    }

    open spec fn spec_comment_node_kinds(&self) -> Seq<&'static str> {
        seq!["comment"]
    }

    open spec fn spec_strips_backticks(&self) -> bool {
        true
    }

    open spec fn spec_scope_kinds(&self) -> Seq<&'static str> {
        seq![
            "program",
            "function_declaration",
            "arrow_function",
            "function",
            "method_definition",
            "class_body",
            "statement_block",
            "for_statement",
            "if_statement",
            "else_clause",
            "try_statement",
            "catch_clause",
            "interface_declaration",
            "module",
            "jsx_element",
        ]
    }

    fn id(&self) -> (r: &'static str) {
        "typescriptreact"
    }

    fn extensions(&self) -> (r: Vec<&'static str>) {
        vec!["tsx"]
    }

    fn language_ids(&self) -> (r: Vec<&'static str>) {
        vec!["typescriptreact"]
    }

    fn known_env_modules(&self) -> (r: Vec<&'static str>) {
        vec!["process"]
    }

    fn is_standard_env_object(&self, name: &str) -> (b: bool) {
        str_eq(name, "process.env") || str_eq(name, "import.meta.env")
    }

    fn default_env_object_name(&self) -> (r: Option<&'static str>) {
        Some("process.env")
    }

    fn completion_trigger_characters(&self) -> (r: Vec<&'static str>) {
        vec![".", "\"", "'"]
    }

    fn comment_node_kinds(&self) -> (r: Vec<&'static str>) {
        vec!["comment"]
    }

    fn strip_quotes<'a>(&self, text: &'a str) -> (r: &'a str) {
        trim_quotes(text, true)
    }

    fn is_scope_kind(&self, kind: &str) -> (b: bool) {
        let kinds: Vec<&str> = vec![
                    "program",
                    "function_declaration",
                    "arrow_function",
                    "function",
                    "method_definition",
                    "class_body",
                    "statement_block",
                    "for_statement",
                    "if_statement",
                    "else_clause",
                    "try_statement",
                    "catch_clause",
                    "interface_declaration",
                    "module",
                    "jsx_element",
                ];
        proof {
            assert(kinds@ == self.spec_scope_kinds());
        }
        str_in(kind, &kinds)
    }
}

/// TypeScript reads the environment through `process.env` and `import.meta.env`,
/// and through nothing else (see [`js_env_facts`]).
pub proof fn law_typescript_env_sources(node: SyntaxNode)
    ensures
        js_env_facts(node, TypeScript.spec_env_source_node(node)),
{
    lemma_js_env_facts(node);
}

/// TypeScriptReact reads the environment through `process.env` and `import.meta.env`,
/// and through nothing else (see [`js_env_facts`]).
pub proof fn law_tsx_env_sources(node: SyntaxNode)
    ensures
        js_env_facts(node, TypeScriptReact.spec_env_source_node(node)),
{
    lemma_js_env_facts(node);
}

/// A property access in TypeScript is a property name of a member expression on
/// a plain identifier (see [`js_access_facts`]).
pub proof fn law_typescript_property_access(node: SyntaxNode, parent: Option<SyntaxNode>)
    ensures
        js_access_facts(node, parent, TypeScript.spec_property_access(node, parent)),
{
    lemma_js_access_facts(node, parent);
}

/// A property access in TypeScriptReact is a property name of a member expression on
/// a plain identifier (see [`js_access_facts`]).
pub proof fn law_tsx_property_access(node: SyntaxNode, parent: Option<SyntaxNode>)
    ensures
        js_access_facts(node, parent, TypeScriptReact.spec_property_access(node, parent)),
{
    lemma_js_access_facts(node, parent);
}

} // verus!
