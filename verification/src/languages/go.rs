//! Go.
use crate::languages::{
    lemma_member_access_facts, member_access_facts,
    env_object, env_object_named, find_member_access, has_kind, is_root_kind, member_access,
    spec_trim_quotes, str_in, trim_quotes, EnvSourceKind, EnvSourceView, LanguageSupport,
    SyntaxNode,
};
use crate::text::{str_eq, trim_text};
use vstd::prelude::*;

verus! {

/// Go programs, which read the environment through the `os` package.
pub struct Go;

impl LanguageSupport for Go {
    fn is_root_node_kind(&self, kind: &str) -> (b: bool) {
        is_root_kind(kind)
    }

    open spec fn spec_env_source_node(&self, node: SyntaxNode) -> Option<EnvSourceView> {
        if has_kind(node, "identifier"@) && node.text@ == "os"@ {
            env_object("os"@)
        } else {
            None
        }
    }

    fn is_env_source_node(&self, node: &SyntaxNode) -> (r: Option<EnvSourceKind>) {
        if str_eq(node.kind.as_str(), "identifier") && str_eq(node.text.as_str(), "os") {
            env_object_named("os")
        } else {
            None
        }
    }

    open spec fn spec_property_access(&self, node: SyntaxNode, parent: Option<SyntaxNode>) -> Option<
        (Seq<char>, Seq<char>),
    > {
        member_access(node, parent, "selector_expression"@, "operand"@, "field"@, true)
    }

    fn extract_property_access(&self, node: &SyntaxNode, parent: Option<&SyntaxNode>) -> (r: Option<
        (String, String),
    >) {
        find_member_access(node, parent, "selector_expression", "operand", "field", true)
    }

    open spec fn spec_var_name(&self, text: Seq<char>) -> Seq<char> {
        spec_trim_quotes(text, self.spec_strips_backticks())
    }

    fn extract_var_name(&self, node: &SyntaxNode) -> (r: Option<String>) {
        Some(self.strip_quotes(node.text.as_str()).to_string())
    }

    fn extract_destructure_key(&self, node: &SyntaxNode) -> (r: Option<String>) {
        Some(trim_text(node.text.as_str()))
    }

    open spec fn spec_id(&self) -> &'static str {
        "go"
    }

    open spec fn spec_extensions(&self) -> Seq<&'static str> {
        seq!["go"]
    }

    open spec fn spec_language_ids(&self) -> Seq<&'static str> {
        seq!["go"]
    }

    open spec fn spec_known_env_modules(&self) -> Seq<&'static str> {
        seq!["os"]
    }

    open spec fn spec_is_standard_env_object(&self, name: Seq<char>) -> bool {
        name == "os"@
    }

    open spec fn spec_default_env_object_name(&self) -> Option<&'static str> {
        None
    }

    open spec fn spec_completion_trigger_characters(&self) -> Seq<&'static str> {
        seq!["(\"", "('"]
    }

    open spec fn spec_comment_node_kinds(&self) -> Seq<&'static str> {
        seq!["comment"]
    }

    open spec fn spec_strips_backticks(&self) -> bool {
        true
    }

    open spec fn spec_scope_kinds(&self) -> Seq<&'static str> {
        seq![
            "function_declaration",
            "method_declaration",
            "func_literal",
            "block",
            "for_statement",
            "if_statement",
            "switch_statement",
            "select_statement",
        ]
    }

    fn id(&self) -> (r: &'static str) {
        "go"
    }

    fn extensions(&self) -> (r: Vec<&'static str>) {
        vec!["go"]
    }

    fn language_ids(&self) -> (r: Vec<&'static str>) {
        vec!["go"]
    }

    fn known_env_modules(&self) -> (r: Vec<&'static str>) {
        vec!["os"]
    }

    fn is_standard_env_object(&self, name: &str) -> (b: bool) {
        str_eq(name, "os")
    }

    fn default_env_object_name(&self) -> (r: Option<&'static str>) {
        None
    }

    fn completion_trigger_characters(&self) -> (r: Vec<&'static str>) {
        vec!["(\"", "('"]
    }

    fn comment_node_kinds(&self) -> (r: Vec<&'static str>) {
        vec!["comment"]
    }

    fn strip_quotes<'a>(&self, text: &'a str) -> (r: &'a str) {
        trim_quotes(text, true)
    }

    fn is_scope_kind(&self, kind: &str) -> (b: bool) {
        let kinds: Vec<&str> = vec![
                    "function_declaration",
                    "method_declaration",
                    "func_literal",
                    "block",
                    "for_statement",
                    "if_statement",
                    "switch_statement",
                    "select_statement",
                ];
        proof {
            assert(kinds@ == self.spec_scope_kinds());
        }
        str_in(kind, &kinds)
    }
}

/// Go reads the environment through the package `os`: the identifier `os`
/// is the environment object `os`, and no other node is an environment
/// source.
pub proof fn law_go_env_sources(node: SyntaxNode)
    ensures
        node.kind@ == "identifier"@ && node.text@ == "os"@ ==> Go.spec_env_source_node(node) == Some(
            EnvSourceView::Object("os"@),
        ),
        Go.spec_env_source_node(node) is Some ==> node.kind@ == "identifier"@ && node.text@ == "os"@,
{
}

/// A property access in Go is a selector expression `operand.field` on a plain identifier (see
/// [`member_access_facts`]).
pub proof fn law_go_property_access(node: SyntaxNode, parent: Option<SyntaxNode>)
    ensures
        member_access_facts(node, parent, "selector_expression"@, "operand"@, "field"@, true, Go.spec_property_access(node, parent)),
{
    lemma_member_access_facts(node, parent, "selector_expression"@, "operand"@, "field"@, true);
}

} // verus!
