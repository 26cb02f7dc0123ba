//! Rust.
use crate::languages::{
    lemma_member_access_facts, member_access_facts,
    env_object, env_object_named, find_member_access, has_kind, is_root_kind, member_access, str_in,
    trim_quotes, EnvSourceKind, EnvSourceView, LanguageSupport, SyntaxNode,
};
use crate::text::{str_eq, trim_text};
use vstd::prelude::*;

verus! {

/// Rust, which reads the environment through `std::env`.
pub struct Rust;

impl LanguageSupport for Rust {
    fn is_root_node_kind(&self, kind: &str) -> (b: bool) {
        is_root_kind(kind)
    }

    open spec fn spec_env_source_node(&self, node: SyntaxNode) -> Option<EnvSourceView> {
        if has_kind(node, "scoped_identifier"@) && (node.text@ == "std::env"@ || node.text@ == "env"@) {
            env_object("std::env"@)
        } else if has_kind(node, "identifier"@) && node.text@ == "env"@ {
            env_object("std::env"@)
        } else {
            None
        }
    }

    fn is_env_source_node(&self, node: &SyntaxNode) -> (r: Option<EnvSourceKind>) {
        if str_eq(node.kind.as_str(), "scoped_identifier") && (str_eq(node.text.as_str(), "std::env")
            || str_eq(node.text.as_str(), "env")) {
            env_object_named("std::env")
        } else if str_eq(node.kind.as_str(), "identifier") && str_eq(node.text.as_str(), "env") {
            env_object_named("std::env")
        } else {
            None
        }
    }

    open spec fn spec_property_access(&self, node: SyntaxNode, parent: Option<SyntaxNode>) -> Option<
        (Seq<char>, Seq<char>),
    > {
        member_access(node, parent, "field_expression"@, "value"@, "field"@, true)
    }

    fn extract_property_access(&self, node: &SyntaxNode, parent: Option<&SyntaxNode>) -> (r: Option<
        (String, String),
    >) {
        find_member_access(node, parent, "field_expression", "value", "field", true)
    }

    fn extract_var_name(&self, node: &SyntaxNode) -> (r: Option<String>) {
        Some(trim_text(node.text.as_str()))
    }

    fn extract_destructure_key(&self, node: &SyntaxNode) -> (r: Option<String>) {
        Some(trim_text(node.text.as_str()))
    }

    open spec fn spec_id(&self) -> &'static str {
        "rust"
    }

    open spec fn spec_extensions(&self) -> Seq<&'static str> {
        seq!["rs"]
    }

    open spec fn spec_language_ids(&self) -> Seq<&'static str> {
        seq!["rust"]
    }

    open spec fn spec_known_env_modules(&self) -> Seq<&'static str> {
        seq!["std::env", "env"]
    }

    open spec fn spec_is_standard_env_object(&self, name: Seq<char>) -> bool {
        name == "std::env"@ || name == "std"@ || name == "env"@
    }

    open spec fn spec_default_env_object_name(&self) -> Option<&'static str> {
        None
    }

    open spec fn spec_completion_trigger_characters(&self) -> Seq<&'static str> {
        seq!["\""]
    }

    open spec fn spec_comment_node_kinds(&self) -> Seq<&'static str> {
        seq!["comment"]
    }

    open spec fn spec_strips_backticks(&self) -> bool {
        false
    }

    open spec fn spec_scope_kinds(&self) -> Seq<&'static str> {
        seq![
            "function_item",
            "closure_expression",
            "block",
            "for_expression",
            "if_expression",
            "loop_expression",
            "while_expression",
            "match_expression",
            "impl_item",
            "trait_item",
            "mod_item",
        ]
    }

    fn id(&self) -> (r: &'static str) {
        "rust"
    }

    fn extensions(&self) -> (r: Vec<&'static str>) {
        vec!["rs"]
    }

    fn language_ids(&self) -> (r: Vec<&'static str>) {
        vec!["rust"]
    }

    fn known_env_modules(&self) -> (r: Vec<&'static str>) {
        vec!["std::env", "env"]
    }

    fn is_standard_env_object(&self, name: &str) -> (b: bool) {
        str_eq(name, "std::env") || str_eq(name, "std") || str_eq(name, "env")
    }

    fn default_env_object_name(&self) -> (r: Option<&'static str>) {
        None
    }

    fn completion_trigger_characters(&self) -> (r: Vec<&'static str>) {
        vec!["\""]
    }

    fn comment_node_kinds(&self) -> (r: Vec<&'static str>) {
        vec!["comment"]
    }

    fn strip_quotes<'a>(&self, text: &'a str) -> (r: &'a str) {
        trim_quotes(text, false)
    }

    fn is_scope_kind(&self, kind: &str) -> (b: bool) {
        let kinds: Vec<&str> = vec![
                    "function_item",
                    "closure_expression",
                    "block",
                    "for_expression",
                    "if_expression",
                    "loop_expression",
                    "while_expression",
                    "match_expression",
                    "impl_item",
                    "trait_item",
                    "mod_item",
                ];
        proof {
            assert(kinds@ == self.spec_scope_kinds());
        }
        str_in(kind, &kinds)
    }
}

/// Rust reads the environment through the module `std::env`: the scoped
/// path `std::env` or `env`, and the bare identifier `env`, are the object
/// `std::env`, and no other node is an environment source.
pub proof fn law_rust_env_sources(node: SyntaxNode)
    ensures
        node.kind@ == "scoped_identifier"@ && (node.text@ == "std::env"@ || node.text@ == "env"@)
            ==> Rust.spec_env_source_node(node) == Some(EnvSourceView::Object("std::env"@)),
        node.kind@ == "identifier"@ && node.text@ == "env"@ ==> Rust.spec_env_source_node(node)
            == Some(EnvSourceView::Object("std::env"@)),
        Rust.spec_env_source_node(node) is Some ==> Rust.spec_env_source_node(node) == Some(
            EnvSourceView::Object("std::env"@),
        ) && (node.kind@ == "scoped_identifier"@ && (node.text@ == "std::env"@ || node.text@
            == "env"@) || node.kind@ == "identifier"@ && node.text@ == "env"@),
{
    reveal_strlit("scoped_identifier");
    reveal_strlit("identifier");
    assert("scoped_identifier"@.len() != "identifier"@.len());
}

/// A property access in Rust is a field expression `value.field` on a plain identifier (see
/// [`member_access_facts`]).
pub proof fn law_rust_property_access(node: SyntaxNode, parent: Option<SyntaxNode>)
    ensures
        member_access_facts(node, parent, "field_expression"@, "value"@, "field"@, true, Rust.spec_property_access(node, parent)),
{
    lemma_member_access_facts(node, parent, "field_expression"@, "value"@, "field"@, true);
}

} // verus!
