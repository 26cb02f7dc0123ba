//! Lua.
use crate::languages::{
    lemma_member_access_facts, member_access_facts,
    env_object, env_object_named, find_member_access, has_kind, is_root_kind, member_access,
    spec_trim_quotes, str_in, trim_quotes, EnvSourceKind, EnvSourceView, LanguageSupport,
    SyntaxNode,
};
use crate::text::{str_eq, trim_text};
use vstd::prelude::*;

verus! {

/// Lua scripts, which read the environment through `os.getenv`.
pub struct Lua;

impl LanguageSupport for Lua {
    fn is_root_node_kind(&self, kind: &str) -> (b: bool) {
        is_root_kind(kind)
    }

    open spec fn spec_env_source_node(&self, node: SyntaxNode) -> Option<EnvSourceView> {
        if has_kind(node, "identifier"@) && node.text@ == "os"@ {
            env_object("os"@)
        } else {
            None
        }
    }

    fn is_env_source_node(&self, node: &SyntaxNode) -> (r: Option<EnvSourceKind>) {
        if str_eq(node.kind.as_str(), "identifier") && str_eq(node.text.as_str(), "os") {
            env_object_named("os")
        } else {
            None
        }
    }

    open spec fn spec_property_access(&self, node: SyntaxNode, parent: Option<SyntaxNode>) -> Option<
        (Seq<char>, Seq<char>),
    > {
        member_access(node, parent, "dot_index_expression"@, "table"@, "field"@, true)
    }

    fn extract_property_access(&self, node: &SyntaxNode, parent: Option<&SyntaxNode>) -> (r: Option<
        (String, String),
    >) {
        find_member_access(node, parent, "dot_index_expression", "table", "field", true)
    }

    open spec fn spec_var_name(&self, text: Seq<char>) -> Seq<char> {
        spec_trim_quotes(text, self.spec_strips_backticks())
    }

    fn extract_var_name(&self, node: &SyntaxNode) -> (r: Option<String>) {
        Some(self.strip_quotes(node.text.as_str()).to_string())
    }

    fn extract_destructure_key(&self, node: &SyntaxNode) -> (r: Option<String>) {
        Some(trim_text(node.text.as_str()))
    }

    open spec fn spec_id(&self) -> &'static str {
        "lua"
    }

    open spec fn spec_extensions(&self) -> Seq<&'static str> {
        seq!["lua"]
    }

    open spec fn spec_language_ids(&self) -> Seq<&'static str> {
        seq!["lua"]
    }

    open spec fn spec_known_env_modules(&self) -> Seq<&'static str> {
        seq!["os"]
    }

    open spec fn spec_is_standard_env_object(&self, name: Seq<char>) -> bool {
        name == "os"@ || name == "os.getenv"@
    }

    open spec fn spec_default_env_object_name(&self) -> Option<&'static str> {
        Some("os.getenv")
    }

    open spec fn spec_completion_trigger_characters(&self) -> Seq<&'static str> {
        seq!["(\"", "('", " \"", " '"]
    }

    open spec fn spec_comment_node_kinds(&self) -> Seq<&'static str> {
        seq!["comment"]
    }

    open spec fn spec_strips_backticks(&self) -> bool {
        false
    }

    open spec fn spec_scope_kinds(&self) -> Seq<&'static str> {
        seq![
            "function_declaration",
            "function_definition",
            "do_statement",
            "while_statement",
            "repeat_statement",
            "for_statement",
            "if_statement",
        ]
    }

    fn id(&self) -> (r: &'static str) {
        "lua"
    }

    fn extensions(&self) -> (r: Vec<&'static str>) {
        vec!["lua"]
    }

    fn language_ids(&self) -> (r: Vec<&'static str>) {
        vec!["lua"]
    }

    fn known_env_modules(&self) -> (r: Vec<&'static str>) {
        vec!["os"]
    }

    fn is_standard_env_object(&self, name: &str) -> (b: bool) {
        str_eq(name, "os") || str_eq(name, "os.getenv")
    }

    fn default_env_object_name(&self) -> (r: Option<&'static str>) {
        Some("os.getenv")
    }

    fn completion_trigger_characters(&self) -> (r: Vec<&'static str>) {
        vec!["(\"", "('", " \"", " '"]
    }

    fn comment_node_kinds(&self) -> (r: Vec<&'static str>) {
        vec!["comment"]
    }

    fn strip_quotes<'a>(&self, text: &'a str) -> (r: &'a str) {
        trim_quotes(text, false)
    }

    fn is_scope_kind(&self, kind: &str) -> (b: bool) {
        let kinds: Vec<&str> = vec![
                    "function_declaration",
                    "function_definition",
                    "do_statement",
                    "while_statement",
                    "repeat_statement",
                    "for_statement",
                    "if_statement",
                ];
        proof {
            assert(kinds@ == self.spec_scope_kinds());
        }
        str_in(kind, &kinds)
    }
}

/// Lua reads the environment through the library `os`: the identifier `os`
/// is the environment object `os`, and no other node is an environment
/// source.
pub proof fn law_lua_env_sources(node: SyntaxNode)
    ensures
        node.kind@ == "identifier"@ && node.text@ == "os"@ ==> Lua.spec_env_source_node(node) == Some(
            EnvSourceView::Object("os"@),
        ),
        Lua.spec_env_source_node(node) is Some ==> node.kind@ == "identifier"@ && node.text@ == "os"@,
{
}

/// A property access in Lua is a dot index expression `table.field` on a plain identifier (see
/// [`member_access_facts`]).
pub proof fn law_lua_property_access(node: SyntaxNode, parent: Option<SyntaxNode>)
    ensures
        member_access_facts(node, parent, "dot_index_expression"@, "table"@, "field"@, true, Lua.spec_property_access(node, parent)),
{
    lemma_member_access_facts(node, parent, "dot_index_expression"@, "table"@, "field"@, true);
}

} // verus!
