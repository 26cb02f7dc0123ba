//! Python.
use crate::languages::{
    lemma_member_access_facts, member_access_facts,
    env_object, env_object_named, find_member_access, has_kind, is_root_kind, member_access, str_in,
    trim_quotes, EnvSourceKind, EnvSourceView, LanguageSupport, SyntaxNode,
};
use crate::text::{str_eq, trim_text};
use vstd::prelude::*;

verus! {

/// Python, which reads the environment through `os.environ`.
pub struct Python;

impl LanguageSupport for Python {
    fn is_root_node_kind(&self, kind: &str) -> (b: bool) {
        is_root_kind(kind)
    }

    open spec fn spec_env_source_node(&self, node: SyntaxNode) -> Option<EnvSourceView> {
        if has_kind(node, "attribute"@) {
            match (node.spec_field("object"@), node.spec_field("attribute"@)) {
                (Some(o), Some(a)) => if o.text@ == "os"@ && a.text@ == "environ"@ {
                    env_object("os.environ"@)
                } else {
                    None
                },
                _ => None,
            }
        } else if has_kind(node, "identifier"@) && node.text@ == "environ"@ {
            env_object("os.environ"@)
        } else {
            None
        }
    }

    fn is_env_source_node(&self, node: &SyntaxNode) -> (r: Option<EnvSourceKind>) {
        if str_eq(node.kind.as_str(), "attribute") {
            match (node.field("object"), node.field("attribute")) {
                (Some(o), Some(a)) => {
                    if str_eq(o.text.as_str(), "os") && str_eq(a.text.as_str(), "environ") {
                        env_object_named("os.environ")
                    } else {
                        None
                    }
                },
                _ => None,
            }
        } else if str_eq(node.kind.as_str(), "identifier") && str_eq(node.text.as_str(), "environ") {
            env_object_named("os.environ")
        } else {
            None
        }
    }

    open spec fn spec_property_access(&self, node: SyntaxNode, parent: Option<SyntaxNode>) -> Option<
        (Seq<char>, Seq<char>),
    > {
        member_access(node, parent, "attribute"@, "object"@, "attribute"@, true)
    }

    fn extract_property_access(&self, node: &SyntaxNode, parent: Option<&SyntaxNode>) -> (r: Option<
        (String, String),
    >) {
        find_member_access(node, parent, "attribute", "object", "attribute", true)
    }

    fn extract_var_name(&self, node: &SyntaxNode) -> (r: Option<String>) {
        Some(trim_text(node.text.as_str()))
    }

    fn extract_destructure_key(&self, node: &SyntaxNode) -> (r: Option<String>) {
        Some(trim_text(node.text.as_str()))
    }

    open spec fn spec_id(&self) -> &'static str {
        "python"
    }

    open spec fn spec_extensions(&self) -> Seq<&'static str> {
        seq!["py"]
    }

    open spec fn spec_language_ids(&self) -> Seq<&'static str> {
        seq!["python"]
    }

    open spec fn spec_known_env_modules(&self) -> Seq<&'static str> {
        seq!["os", "dotenv", "decouple"]
    }

    open spec fn spec_is_standard_env_object(&self, name: Seq<char>) -> bool {
        name == "os.environ"@ || name == "os"@
    }

    open spec fn spec_default_env_object_name(&self) -> Option<&'static str> {
        Some("os.environ")
    }

    open spec fn spec_completion_trigger_characters(&self) -> Seq<&'static str> {
        seq![".", "[\"", "['", "(\"", "('"]
    }

    open spec fn spec_comment_node_kinds(&self) -> Seq<&'static str> {
        seq!["comment"]
    }

    open spec fn spec_strips_backticks(&self) -> bool {
        false
    }

    open spec fn spec_scope_kinds(&self) -> Seq<&'static str> {
        seq![
            "module",
            "function_definition",
            "class_definition",
            "for_statement",
            "if_statement",
            "try_statement",
            "with_statement",
            "while_statement",
        ]
    }

    fn id(&self) -> (r: &'static str) {
        "python"
    }

    fn extensions(&self) -> (r: Vec<&'static str>) {
        vec!["py"]
    }

    fn language_ids(&self) -> (r: Vec<&'static str>) {
        vec!["python"]
    }

    fn known_env_modules(&self) -> (r: Vec<&'static str>) {
        vec!["os", "dotenv", "decouple"]
    }

    fn is_standard_env_object(&self, name: &str) -> (b: bool) {
        str_eq(name, "os.environ") || str_eq(name, "os")
    }

    fn default_env_object_name(&self) -> (r: Option<&'static str>) {
        Some("os.environ")
    }

    fn completion_trigger_characters(&self) -> (r: Vec<&'static str>) {
        vec![".", "[\"", "['", "(\"", "('"]
    }

    fn comment_node_kinds(&self) -> (r: Vec<&'static str>) {
        vec!["comment"]
    }

    fn strip_quotes<'a>(&self, text: &'a str) -> (r: &'a str) {
        trim_quotes(text, false)
    }

    fn is_scope_kind(&self, kind: &str) -> (b: bool) {
        let kinds: Vec<&str> = vec![
                    "module",
                    "function_definition",
                    "class_definition",
                    "for_statement",
                    "if_statement",
                    "try_statement",
                    "with_statement",
                    "while_statement",
                ];
        proof {
            assert(kinds@ == self.spec_scope_kinds());
        }
        str_in(kind, &kinds)
    }
}

/// Python reads the environment through `os.environ`: written out as the
/// attribute `os.environ`, or as the bare name `environ` imported from `os`.
/// Each is the environment object `os.environ`, and no other node is an
/// environment source.
pub proof fn law_python_env_sources(node: SyntaxNode)
    ensures
        node.kind@ == "identifier"@ && node.text@ == "environ"@ ==> Python.spec_env_source_node(node)
            == Some(EnvSourceView::Object("os.environ"@)),
        node.kind@ == "attribute"@ && node.spec_field("object"@) is Some && node.spec_field(
            "object"@,
        ).unwrap().text@ == "os"@ && node.spec_field("attribute"@) is Some && node.spec_field(
            "attribute"@,
        ).unwrap().text@ == "environ"@ ==> Python.spec_env_source_node(node) == Some(
            EnvSourceView::Object("os.environ"@),
        ),
        Python.spec_env_source_node(node) is Some ==> Python.spec_env_source_node(node) == Some(
            EnvSourceView::Object("os.environ"@),
        ) && (node.kind@ == "identifier"@ && node.text@ == "environ"@ || node.kind@ == "attribute"@),
{
    reveal_strlit("identifier");
    reveal_strlit("attribute");
    assert("identifier"@.len() != "attribute"@.len());
}

/// A property access in Python is an attribute `object.attribute` on a plain identifier (see
/// [`member_access_facts`]).
pub proof fn law_python_property_access(node: SyntaxNode, parent: Option<SyntaxNode>)
    ensures
        member_access_facts(node, parent, "attribute"@, "object"@, "attribute"@, true, Python.spec_property_access(node, parent)),
{
    lemma_member_access_facts(node, parent, "attribute"@, "object"@, "attribute"@, true);
}

} // verus!
