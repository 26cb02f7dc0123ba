//! C++.
use crate::languages::{
    is_root_kind, str_in, trim_quotes, EnvSourceKind, LanguageSupport, SyntaxNode,
};
use crate::text::{str_eq, trim_text};
use vstd::prelude::*;

verus! {

/// C++ programs, which read the environment through `getenv` or `std`.
pub struct Cpp;

impl LanguageSupport for Cpp {
    fn is_root_node_kind(&self, kind: &str) -> (b: bool) {
        is_root_kind(kind)
    }

    fn is_env_source_node(&self, node: &SyntaxNode) -> (r: Option<EnvSourceKind>) {
        None
    }

    fn extract_property_access(&self, node: &SyntaxNode, parent: Option<&SyntaxNode>) -> (r: Option<
        (String, String),
    >) {
        None
    }

    fn extract_var_name(&self, node: &SyntaxNode) -> (r: Option<String>) {
        Some(trim_text(node.text.as_str()))
    }

    fn extract_destructure_key(&self, node: &SyntaxNode) -> (r: Option<String>) {
        Some(trim_text(node.text.as_str()))
    }

    open spec fn spec_id(&self) -> &'static str {
        "cpp"
    }

    open spec fn spec_extensions(&self) -> Seq<&'static str> {
        seq!["cpp", "cc", "cxx", "hpp", "hh", "hxx"]
    }

    open spec fn spec_language_ids(&self) -> Seq<&'static str> {
        seq!["cpp", "c++"]
    }

    open spec fn spec_known_env_modules(&self) -> Seq<&'static str> {
        seq![]
    }

    open spec fn spec_is_standard_env_object(&self, name: Seq<char>) -> bool {
        name == "getenv"@ || name == "secure_getenv"@ || name == "std"@
    }

    open spec fn spec_default_env_object_name(&self) -> Option<&'static str> {
        None
    }

    open spec fn spec_completion_trigger_characters(&self) -> Seq<&'static str> {
        seq!["(\"", "('"]
    }

    open spec fn spec_comment_node_kinds(&self) -> Seq<&'static str> {
        seq!["comment"]
    }

    open spec fn spec_strips_backticks(&self) -> bool {
        false
    }

    open spec fn spec_scope_kinds(&self) -> Seq<&'static str> {
        seq![
            "function_definition",
            "compound_statement",
            "for_statement",
            "for_range_loop",
            "if_statement",
            "while_statement",
            "do_statement",
            "switch_statement",
            "class_specifier",
            "namespace_definition",
            "lambda_expression",
            "try_statement",
        ]
    }

    fn id(&self) -> (r: &'static str) {
        "cpp"
    }

    fn extensions(&self) -> (r: Vec<&'static str>) {
        vec!["cpp", "cc", "cxx", "hpp", "hh", "hxx"]
    }

    fn language_ids(&self) -> (r: Vec<&'static str>) {
        vec!["cpp", "c++"]
    }

    fn known_env_modules(&self) -> (r: Vec<&'static str>) {
        Vec::new()
    }

    fn is_standard_env_object(&self, name: &str) -> (b: bool) {
        str_eq(name, "getenv") || str_eq(name, "secure_getenv") || str_eq(name, "std")
    }

    fn default_env_object_name(&self) -> (r: Option<&'static str>) {
        None
    }

    fn completion_trigger_characters(&self) -> (r: Vec<&'static str>) {
        vec!["(\"", "('"]
    }

    fn comment_node_kinds(&self) -> (r: Vec<&'static str>) {
        vec!["comment"]
    }

    fn strip_quotes<'a>(&self, text: &'a str) -> (r: &'a str) {
        trim_quotes(text, false)
    }

    fn is_scope_kind(&self, kind: &str) -> (b: bool) {
        let kinds: Vec<&str> = vec![
                    "function_definition",
                    "compound_statement",
                    "for_statement",
                    "for_range_loop",
                    "if_statement",
                    "while_statement",
                    "do_statement",
                    "switch_statement",
                    "class_specifier",
                    "namespace_definition",
                    "lambda_expression",
                    "try_statement",
                ];
        proof {
            assert(kinds@ == self.spec_scope_kinds());
        }
        str_in(kind, &kinds)
    }
}

/// Cpp reads the environment only through function calls, which are found
/// by name: no syntax node is an environment object.
pub proof fn law_cpp_env_sources(node: SyntaxNode)
    ensures
        Cpp.spec_env_source_node(node) is None,
{
}

} // verus!
