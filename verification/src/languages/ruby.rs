//! Ruby.
use crate::languages::{
    lemma_member_access_facts, member_access_facts,
    env_object, env_object_named, find_member_access, has_kind, member_access, spec_trim_quotes,
    str_in, trim_quotes, EnvSourceKind, EnvSourceView, LanguageSupport, SyntaxNode,
};
use crate::text::{str_eq, trim_text};
use vstd::prelude::*;

verus! {

/// Ruby, which reads the environment through the `ENV` constant.
pub struct Ruby;

impl LanguageSupport for Ruby {
    open spec fn spec_root_kinds(&self) -> Seq<&'static str> {
        seq!["program"]
    }

    fn is_root_node_kind(&self, kind: &str) -> (b: bool) {
        let kinds = vec!["program"];
        proof {
            assert(kinds@ == self.spec_root_kinds());
        }
        str_in(kind, &kinds)
    }

    open spec fn spec_env_source_node(&self, node: SyntaxNode) -> Option<EnvSourceView> {
        if has_kind(node, "constant"@) && node.text@ == "ENV"@ {
            env_object("ENV"@)
        } else {
            None
        }
    }

    fn is_env_source_node(&self, node: &SyntaxNode) -> (r: Option<EnvSourceKind>) {
        if str_eq(node.kind.as_str(), "constant") && str_eq(node.text.as_str(), "ENV") {
            env_object_named("ENV")
        } else {
            None
        }
    }

    open spec fn spec_property_access(&self, node: SyntaxNode, parent: Option<SyntaxNode>) -> Option<
        (Seq<char>, Seq<char>),
    > {
        member_access(node, parent, "call"@, "receiver"@, "method"@, false)
    }

    fn extract_property_access(&self, node: &SyntaxNode, parent: Option<&SyntaxNode>) -> (r: Option<
        (String, String),
    >) {
        find_member_access(node, parent, "call", "receiver", "method", false)
    }

    open spec fn spec_var_name(&self, text: Seq<char>) -> Seq<char> {
        spec_trim_quotes(text, self.spec_strips_backticks())
    }

    fn extract_var_name(&self, node: &SyntaxNode) -> (r: Option<String>) {
        Some(self.strip_quotes(node.text.as_str()).to_string())
    }

    fn extract_destructure_key(&self, node: &SyntaxNode) -> (r: Option<String>) {
        Some(trim_text(node.text.as_str()))
    }

    open spec fn spec_id(&self) -> &'static str {
        "ruby"
    }

    open spec fn spec_extensions(&self) -> Seq<&'static str> {
        seq!["rb", "rake", "gemspec", "ru"]
    }

    open spec fn spec_language_ids(&self) -> Seq<&'static str> {
        seq!["ruby"]
    }

    open spec fn spec_known_env_modules(&self) -> Seq<&'static str> {
        seq!["dotenv"]
    }

    open spec fn spec_is_standard_env_object(&self, name: Seq<char>) -> bool {
        name == "ENV"@
    }

    open spec fn spec_default_env_object_name(&self) -> Option<&'static str> {
        Some("ENV")
    }

    open spec fn spec_completion_trigger_characters(&self) -> Seq<&'static str> {
        seq!["[\"", "['", "(\"", "('"]
    }

    open spec fn spec_comment_node_kinds(&self) -> Seq<&'static str> {
        seq!["comment"]
    }

    open spec fn spec_strips_backticks(&self) -> bool {
        false
    }

    open spec fn spec_scope_kinds(&self) -> Seq<&'static str> {
        seq![
            "program",
            "method",
            "singleton_method",
            "class",
            "module",
            "block",
            "do_block",
            "lambda",
            "for",
            "if",
            "unless",
            "case",
            "while",
            "until",
            "begin",
        ]
    }

    fn id(&self) -> (r: &'static str) {
        "ruby"
    }

    fn extensions(&self) -> (r: Vec<&'static str>) {
        vec!["rb", "rake", "gemspec", "ru"]
    }

    fn language_ids(&self) -> (r: Vec<&'static str>) {
        vec!["ruby"]
    }

    fn known_env_modules(&self) -> (r: Vec<&'static str>) {
        vec!["dotenv"]
    }

    fn is_standard_env_object(&self, name: &str) -> (b: bool) {
        str_eq(name, "ENV")
    }

    fn default_env_object_name(&self) -> (r: Option<&'static str>) {
        Some("ENV")
    }

    fn completion_trigger_characters(&self) -> (r: Vec<&'static str>) {
        vec!["[\"", "['", "(\"", "('"]
    }

    fn comment_node_kinds(&self) -> (r: Vec<&'static str>) {
        vec!["comment"]
    }

    fn strip_quotes<'a>(&self, text: &'a str) -> (r: &'a str) {
        trim_quotes(text, false)
    }

    fn is_scope_kind(&self, kind: &str) -> (b: bool) {
        let kinds: Vec<&str> = vec![
                    "program",
                    "method",
                    "singleton_method",
                    "class",
                    "module",
                    "block",
                    "do_block",
                    "lambda",
                    "for",
                    "if",
                    "unless",
                    "case",
                    "while",
                    "until",
                    "begin",
                ];
        proof {
            assert(kinds@ == self.spec_scope_kinds());
        }
        str_in(kind, &kinds)
    }
}

/// Ruby reads the environment through the constant `ENV`: it is the
/// environment object `ENV`, and no other node is an environment source.
pub proof fn law_ruby_env_sources(node: SyntaxNode)
    ensures
        node.kind@ == "constant"@ && node.text@ == "ENV"@ ==> Ruby.spec_env_source_node(node) == Some(
            EnvSourceView::Object("ENV"@),
        ),
        Ruby.spec_env_source_node(node) is Some ==> node.kind@ == "constant"@ && node.text@ == "ENV"@,
{
}

/// A property access in Ruby is a method call `receiver.method` (see
/// [`member_access_facts`]).
pub proof fn law_ruby_property_access(node: SyntaxNode, parent: Option<SyntaxNode>)
    ensures
        member_access_facts(node, parent, "call"@, "receiver"@, "method"@, false, Ruby.spec_property_access(node, parent)),
{
    lemma_member_access_facts(node, parent, "call"@, "receiver"@, "method"@, false);
}

} // verus!
