//! PHP.
use crate::languages::{
    lemma_member_access_facts, member_access_facts,
    env_object, env_object_named, find_member_access, has_kind, member_access, spec_trim_quotes,
    str_in, trim_quotes, EnvSourceKind, EnvSourceView, LanguageSupport, SyntaxNode,
};
use crate::text::{str_eq, trim_text};
use vstd::prelude::*;

verus! {

/// PHP scripts, which read the environment through the `$_ENV` and `$_SERVER` superglobals or `getenv`.
pub struct Php;

impl LanguageSupport for Php {
    open spec fn spec_root_kinds(&self) -> Seq<&'static str> {
        seq!["program"]
    }

    fn is_root_node_kind(&self, kind: &str) -> (b: bool) {
        let kinds = vec!["program"];
        proof {
            assert(kinds@ == self.spec_root_kinds());
        }
        str_in(kind, &kinds)
    }

    open spec fn spec_env_source_node(&self, node: SyntaxNode) -> Option<EnvSourceView> {
        if has_kind(node, "variable_name"@) && (node.text@ == "$_ENV"@ || node.text@ == "_ENV"@) {
            env_object("$_ENV"@)
        } else if has_kind(node, "variable_name"@) && (node.text@ == "$_SERVER"@ || node.text@
            == "_SERVER"@) {
            env_object("$_SERVER"@)
        } else {
            None
        }
    }

    fn is_env_source_node(&self, node: &SyntaxNode) -> (r: Option<EnvSourceKind>) {
        if !str_eq(node.kind.as_str(), "variable_name") {
            return None;
        }
        if str_eq(node.text.as_str(), "$_ENV") || str_eq(node.text.as_str(), "_ENV") {
            env_object_named("$_ENV")
        } else if str_eq(node.text.as_str(), "$_SERVER") || str_eq(node.text.as_str(), "_SERVER") {
            env_object_named("$_SERVER")
        } else {
            None
        }
    }

    open spec fn spec_property_access(&self, node: SyntaxNode, parent: Option<SyntaxNode>) -> Option<
        (Seq<char>, Seq<char>),
    > {
        member_access(node, parent, "member_access_expression"@, "object"@, "name"@, false)
    }

    fn extract_property_access(&self, node: &SyntaxNode, parent: Option<&SyntaxNode>) -> (r: Option<
        (String, String),
    >) {
        find_member_access(node, parent, "member_access_expression", "object", "name", false)
    }

    open spec fn spec_var_name(&self, text: Seq<char>) -> Seq<char> {
        spec_trim_quotes(text, self.spec_strips_backticks())
    }

    fn extract_var_name(&self, node: &SyntaxNode) -> (r: Option<String>) {
        Some(self.strip_quotes(node.text.as_str()).to_string())
    }

    fn extract_destructure_key(&self, node: &SyntaxNode) -> (r: Option<String>) {
        Some(trim_text(node.text.as_str()))
    }

    open spec fn spec_id(&self) -> &'static str {
        "php"
    }

    open spec fn spec_extensions(&self) -> Seq<&'static str> {
        seq!["php", "phtml", "php3", "php4", "php5", "phps"]
    }

    open spec fn spec_language_ids(&self) -> Seq<&'static str> {
        seq!["php"]
    }

    open spec fn spec_known_env_modules(&self) -> Seq<&'static str> {
        seq![]
    }

    open spec fn spec_is_standard_env_object(&self, name: Seq<char>) -> bool {
        name == "$_ENV"@ || name == "$_SERVER"@ || name == "getenv"@ || name == "env"@
    }

    open spec fn spec_default_env_object_name(&self) -> Option<&'static str> {
        Some("$_ENV")
    }

    open spec fn spec_completion_trigger_characters(&self) -> Seq<&'static str> {
        seq!["[\"", "['", "(\"", "('"]
    }

    open spec fn spec_comment_node_kinds(&self) -> Seq<&'static str> {
        seq!["comment"]
    }

    open spec fn spec_strips_backticks(&self) -> bool {
        false
    }

    open spec fn spec_scope_kinds(&self) -> Seq<&'static str> {
        seq![
            "program",
            "function_definition",
            "method_declaration",
            "class_declaration",
            "anonymous_function",
            "arrow_function",
            "for_statement",
            "foreach_statement",
            "if_statement",
            "try_statement",
            "while_statement",
            "do_statement",
            "switch_statement",
        ]
    }

    fn id(&self) -> (r: &'static str) {
        "php"
    }

    fn extensions(&self) -> (r: Vec<&'static str>) {
        vec!["php", "phtml", "php3", "php4", "php5", "phps"]
    }

    fn language_ids(&self) -> (r: Vec<&'static str>) {
        vec!["php"]
    }

    fn known_env_modules(&self) -> (r: Vec<&'static str>) {
        Vec::new()
    }

    fn is_standard_env_object(&self, name: &str) -> (b: bool) {
        str_eq(name, "$_ENV") || str_eq(name, "$_SERVER") || str_eq(name, "getenv") || str_eq(name, "env")
    }

    fn default_env_object_name(&self) -> (r: Option<&'static str>) {
        Some("$_ENV")
    }

    fn completion_trigger_characters(&self) -> (r: Vec<&'static str>) {
        vec!["[\"", "['", "(\"", "('"]
    }

    fn comment_node_kinds(&self) -> (r: Vec<&'static str>) {
        vec!["comment"]
    }

    fn strip_quotes<'a>(&self, text: &'a str) -> (r: &'a str) {
        trim_quotes(text, false)
    }

    fn is_scope_kind(&self, kind: &str) -> (b: bool) {
        let kinds: Vec<&str> = vec![
                    "program",
                    "function_definition",
                    "method_declaration",
                    "class_declaration",
                    "anonymous_function",
                    "arrow_function",
                    "for_statement",
                    "foreach_statement",
                    "if_statement",
                    "try_statement",
                    "while_statement",
                    "do_statement",
                    "switch_statement",
                ];
        proof {
            assert(kinds@ == self.spec_scope_kinds());
        }
        str_in(kind, &kinds)
    }
}

/// PHP reads the environment through its superglobals: a variable named
/// `$_ENV` (or `_ENV`) is the object `$_ENV`, one named `$_SERVER` (or
/// `_SERVER`) is the object `$_SERVER`, and no other node is an environment
/// source.
pub proof fn law_php_env_sources(node: SyntaxNode)
    ensures
        node.kind@ == "variable_name"@ && (node.text@ == "$_ENV"@ || node.text@ == "_ENV"@)
            ==> Php.spec_env_source_node(node) == Some(EnvSourceView::Object("$_ENV"@)),
        node.kind@ == "variable_name"@ && (node.text@ == "$_SERVER"@ || node.text@ == "_SERVER"@)
            ==> Php.spec_env_source_node(node) == Some(EnvSourceView::Object("$_SERVER"@)),
        Php.spec_env_source_node(node) is Some ==> node.kind@ == "variable_name"@ && (node.text@
            == "$_ENV"@ || node.text@ == "_ENV"@ || node.text@ == "$_SERVER"@ || node.text@
            == "_SERVER"@),
{
    reveal_strlit("$_ENV");
    reveal_strlit("_ENV");
    reveal_strlit("$_SERVER");
    reveal_strlit("_SERVER");
    assert("$_ENV"@.len() != "$_SERVER"@.len());
    assert("_ENV"@.len() != "$_SERVER"@.len());
    assert("$_ENV"@[1] != "_SERVER"@[1]);
    assert("_ENV"@.len() != "_SERVER"@.len());
}

/// A property access in Php is a member access expression `object->name` (see
/// [`member_access_facts`]).
pub proof fn law_php_property_access(node: SyntaxNode, parent: Option<SyntaxNode>)
    ensures
        member_access_facts(node, parent, "member_access_expression"@, "object"@, "name"@, false, Php.spec_property_access(node, parent)),
{
    lemma_member_access_facts(node, parent, "member_access_expression"@, "object"@, "name"@, false);
}

} // verus!
