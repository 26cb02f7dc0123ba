//! What each language reads off syntax nodes: environment sources, property
//! accesses, variable names, destructuring keys and scopes. The nodes come
//! from tree-sitter parses of real code.
use ecolog_lsp::languages::go::Go;
use ecolog_lsp::languages::javascript::JavaScript;
use ecolog_lsp::languages::lua::Lua;
use ecolog_lsp::languages::php::Php;
use ecolog_lsp::languages::python::Python;
use ecolog_lsp::languages::ruby::Ruby;
use ecolog_lsp::languages::rust::Rust;
use ecolog_lsp::languages::typescript::{TypeScript, TypeScriptReact};
use ecolog_lsp::languages::{EnvSourceKind, LanguageSupport, SyntaxNode};

fn parse(grammar: tree_sitter::Language, code: &str) -> tree_sitter::Tree {
    let mut parser = tree_sitter::Parser::new();
    parser.set_language(&grammar).unwrap();
    parser.parse(code, None).unwrap()
}

fn to_node(node: tree_sitter::Node, code: &str) -> SyntaxNode {
    let mut fields = Vec::new();
    let mut cursor = node.walk();
    if cursor.goto_first_child() {
        loop {
            if let Some(name) = cursor.field_name() {
                fields.push((name.to_string(), to_node(cursor.node(), code)));
            }
            if !cursor.goto_next_sibling() {
                break;
            }
        }
    }
    SyntaxNode {
        kind: node.kind().to_string(),
        text: node.utf8_text(code.as_bytes()).unwrap().to_string(),
        fields,
    }
}

fn find_node_of_kind<'a>(node: tree_sitter::Node<'a>, kind: &str) -> Option<tree_sitter::Node<'a>> {
    if node.kind() == kind {
        return Some(node);
    }
    for i in 0..node.child_count() {
        if let Some(child) = node.child(i) {
            if let Some(found) = find_node_of_kind(child, kind) {
                return Some(found);
            }
        }
    }
    None
}

/// Whether some node of one of `kinds` reads the environment object `name`.
fn finds_env_object(
    lang: &dyn LanguageSupport,
    node: tree_sitter::Node,
    code: &str,
    kinds: &[&str],
    name: &str,
) -> bool {
    if kinds.contains(&node.kind()) {
        if let Some(EnvSourceKind::Object { canonical_name }) =
            lang.is_env_source_node(&to_node(node, code))
        {
            if canonical_name == name {
                return true;
            }
        }
    }
    for i in 0..node.child_count() {
        if let Some(child) = node.child(i) {
            if finds_env_object(lang, child, code, kinds, name) {
                return true;
            }
        }
    }
    false
}

/// The access at the start of `word` in `code`.
fn access_at(lang: &dyn LanguageSupport, tree: &tree_sitter::Tree, code: &str, word: &str) -> Option<(String, String)> {
    let offset = code.find(word).unwrap();
    let leaf = tree.root_node().descendant_for_byte_range(offset, offset)?;
    let parent = leaf.parent().map(|p| to_node(p, code));
    lang.extract_property_access(&to_node(leaf, code), parent.as_ref())
}

#[test]
fn go_test_is_env_source_node_os() {
    let code = "package main\nimport \"os\"\nfunc main() { os.Getenv(\"VAR\") }";
    let tree = parse(tree_sitter_go::LANGUAGE.into(), code);
    assert!(
        finds_env_object(&Go, tree.root_node(), code, &["identifier"], "os"),
        "Should detect os as env source"
    );
}

#[test]
fn go_test_extract_property_access() {
    let code = "package main\nfunc main() { env.DATABASE_URL }";
    let tree = parse(tree_sitter_go::LANGUAGE.into(), code);
    let result = access_at(&Go, &tree, code, "DATABASE_URL");
    assert!(result.is_some());
    let (obj, prop) = result.unwrap();
    assert_eq!(obj.as_str(), "env");
    assert_eq!(prop.as_str(), "DATABASE_URL");
}

#[test]
fn go_test_is_scope_node() {
    let code = "package main\nfunc test() {}";
    let tree = parse(tree_sitter_go::LANGUAGE.into(), code);
    if let Some(func) = find_node_of_kind(tree.root_node(), "function_declaration") {
        assert!(Go.is_scope_node(&to_node(func, code)));
    }
}

#[test]
fn go_test_extract_var_name() {
    let code = "package main\nconst VAR = \"value\"";
    let tree = parse(tree_sitter_go::LANGUAGE.into(), code);
    if let Some(str_lit) = find_node_of_kind(tree.root_node(), "interpreted_string_literal") {
        let name = Go.extract_var_name(&to_node(str_lit, code));
        assert!(name.is_some());
        assert_eq!(name.unwrap().as_str(), "value");
    }
}

#[test]
fn test_is_env_source_node_process_env() {
    let code = "const x = process.env;";
    let tree = parse(tree_sitter_javascript::LANGUAGE.into(), code);
    assert!(
        finds_env_object(&JavaScript, tree.root_node(), code, &["member_expression"], "process.env"),
        "Should detect process.env as env source"
    );
}

#[test]
fn javascript_test_extract_property_access() {
    let code = "const x = env.DATABASE_URL;";
    let tree = parse(tree_sitter_javascript::LANGUAGE.into(), code);
    let result = access_at(&JavaScript, &tree, code, "DATABASE_URL");
    assert!(result.is_some());
    let (obj, prop) = result.unwrap();
    assert_eq!(obj.as_str(), "env");
    assert_eq!(prop.as_str(), "DATABASE_URL");
}

#[test]
fn test_extract_destructure_key_shorthand() {
    let code = "const { VAR } = process.env;";
    let tree = parse(tree_sitter_javascript::LANGUAGE.into(), code);
    let shorthand = find_node_of_kind(tree.root_node(), "shorthand_property_identifier_pattern");
    assert!(shorthand.is_some());
    let key = JavaScript.extract_destructure_key(&to_node(shorthand.unwrap(), code));
    assert!(key.is_some());
    assert_eq!(key.unwrap().as_str(), "VAR");
}

#[test]
fn lua_test_is_env_source_node_os() {
    let code = "local x = os.getenv(\"VAR\")";
    let tree = parse(tree_sitter_lua::LANGUAGE.into(), code);
    assert!(
        finds_env_object(&Lua, tree.root_node(), code, &["identifier"], "os"),
        "Should detect os as env source"
    );
}

#[test]
fn lua_test_extract_property_access() {
    let code = "local x = env.DATABASE_URL";
    let tree = parse(tree_sitter_lua::LANGUAGE.into(), code);
    let result = access_at(&Lua, &tree, code, "DATABASE_URL");
    assert!(result.is_some());
    let (table, field) = result.unwrap();
    assert_eq!(table.as_str(), "env");
    assert_eq!(field.as_str(), "DATABASE_URL");
}

#[test]
fn lua_test_is_scope_node() {
    let code = "function test()\nend";
    let tree = parse(tree_sitter_lua::LANGUAGE.into(), code);
    if let Some(func) = find_node_of_kind(tree.root_node(), "function_declaration") {
        assert!(Lua.is_scope_node(&to_node(func, code)));
    }
}

#[test]
fn lua_test_extract_var_name() {
    let code = "local VAR = \"value\"";
    let tree = parse(tree_sitter_lua::LANGUAGE.into(), code);
    if let Some(str_lit) = find_node_of_kind(tree.root_node(), "string") {
        let name = Lua.extract_var_name(&to_node(str_lit, code));
        assert!(name.is_some());
        assert_eq!(name.unwrap().as_str(), "value");
    }
}

#[test]
fn php_test_is_env_source_node_env() {
    let code = "<?php\n$x = $_ENV['VAR'];";
    let tree = parse(tree_sitter_php::LANGUAGE_PHP.into(), code);
    assert!(
        finds_env_object(&Php, tree.root_node(), code, &["variable_name"], "$_ENV"),
        "Should detect $_ENV as env source"
    );
}

#[test]
fn php_test_is_scope_node() {
    let code = "<?php\nfunction test() { }";
    let tree = parse(tree_sitter_php::LANGUAGE_PHP.into(), code);
    if let Some(func) = find_node_of_kind(tree.root_node(), "function_definition") {
        assert!(Php.is_scope_node(&to_node(func, code)));
    }
}

#[test]
fn test_is_env_source_node_os_environ() {
    let code = "import os\nx = os.environ";
    let tree = parse(tree_sitter_python::LANGUAGE.into(), code);
    assert!(
        finds_env_object(&Python, tree.root_node(), code, &["attribute"], "os.environ"),
        "Should detect os.environ as env source"
    );
}

#[test]
fn python_test_extract_property_access() {
    let code = "x = env.DATABASE_URL";
    let tree = parse(tree_sitter_python::LANGUAGE.into(), code);
    let result = access_at(&Python, &tree, code, "DATABASE_URL");
    assert!(result.is_some());
    let (obj, prop) = result.unwrap();
    assert_eq!(obj.as_str(), "env");
    assert_eq!(prop.as_str(), "DATABASE_URL");
}

#[test]
fn python_test_is_scope_node() {
    let code = "def test():\n    pass";
    let tree = parse(tree_sitter_python::LANGUAGE.into(), code);
    if let Some(func) = find_node_of_kind(tree.root_node(), "function_definition") {
        assert!(Python.is_scope_node(&to_node(func, code)));
    }
}

#[test]
fn ruby_test_is_env_source_node_env() {
    let code = "x = ENV['VAR']";
    let tree = parse(tree_sitter_ruby::LANGUAGE.into(), code);
    assert!(
        finds_env_object(&Ruby, tree.root_node(), code, &["constant"], "ENV"),
        "Should detect ENV as env source"
    );
}

#[test]
fn ruby_test_is_scope_node() {
    let code = "def test\nend";
    let tree = parse(tree_sitter_ruby::LANGUAGE.into(), code);
    if let Some(method) = find_node_of_kind(tree.root_node(), "method") {
        assert!(Ruby.is_scope_node(&to_node(method, code)));
    }
}

#[test]
fn rust_test_is_env_source_node_env() {
    let code = "use std::env; fn main() { env::var(\"VAR\"); }";
    let tree = parse(tree_sitter_rust::LANGUAGE.into(), code);
    assert!(
        finds_env_object(
            &Rust,
            tree.root_node(),
            code,
            &["identifier", "scoped_identifier"],
            "std::env"
        ),
        "Should detect env as env source"
    );
}

#[test]
fn rust_test_extract_property_access() {
    let code = "fn main() { config.database_url }";
    let tree = parse(tree_sitter_rust::LANGUAGE.into(), code);
    let result = access_at(&Rust, &tree, code, "database_url");
    assert!(result.is_some());
    let (obj, prop) = result.unwrap();
    assert_eq!(obj.as_str(), "config");
    assert_eq!(prop.as_str(), "database_url");
}

#[test]
fn rust_test_is_scope_node() {
    let code = "fn test() {}";
    let tree = parse(tree_sitter_rust::LANGUAGE.into(), code);
    if let Some(func) = find_node_of_kind(tree.root_node(), "function_item") {
        assert!(Rust.is_scope_node(&to_node(func, code)));
    }
}

#[test]
fn test_ts_is_env_source_node_process_env() {
    let code = "const x = process.env;";
    let tree = parse(tree_sitter_typescript::LANGUAGE_TYPESCRIPT.into(), code);
    assert!(
        finds_env_object(&TypeScript, tree.root_node(), code, &["member_expression"], "process.env"),
        "Should detect process.env as env source"
    );
}

#[test]
fn test_ts_extract_property_access() {
    let code = "const x = env.DATABASE_URL;";
    let tree = parse(tree_sitter_typescript::LANGUAGE_TYPESCRIPT.into(), code);
    let result = access_at(&TypeScript, &tree, code, "DATABASE_URL");
    assert!(result.is_some());
    let (obj, prop) = result.unwrap();
    assert_eq!(obj.as_str(), "env");
    assert_eq!(prop.as_str(), "DATABASE_URL");
}

#[test]
fn test_ts_extract_destructure_key_shorthand() {
    let code = "const { VAR } = process.env;";
    let tree = parse(tree_sitter_typescript::LANGUAGE_TYPESCRIPT.into(), code);
    let shorthand = find_node_of_kind(tree.root_node(), "shorthand_property_identifier_pattern");
    assert!(shorthand.is_some());
    let key = TypeScript.extract_destructure_key(&to_node(shorthand.unwrap(), code));
    assert!(key.is_some());
    assert_eq!(key.unwrap().as_str(), "VAR");
}

#[test]
fn test_ts_is_scope_node() {
    let code = "function test() {}";
    let tree = parse(tree_sitter_typescript::LANGUAGE_TYPESCRIPT.into(), code);
    if let Some(func) = find_node_of_kind(tree.root_node(), "function_declaration") {
        assert!(TypeScript.is_scope_node(&to_node(func, code)));
    }
}

#[test]
fn test_tsx_is_env_source_node_process_env() {
    let code = "const x = process.env;";
    let tree = parse(tree_sitter_typescript::LANGUAGE_TSX.into(), code);
    assert!(
        finds_env_object(
            &TypeScriptReact,
            tree.root_node(),
            code,
            &["member_expression"],
            "process.env"
        ),
        "Should detect process.env as env source"
    );
}

#[test]
fn test_tsx_extract_property_access() {
    let code = "const x = env.API_KEY;";
    let tree = parse(tree_sitter_typescript::LANGUAGE_TSX.into(), code);
    let result = access_at(&TypeScriptReact, &tree, code, "API_KEY");
    assert!(result.is_some());
    let (obj, prop) = result.unwrap();
    assert_eq!(obj.as_str(), "env");
    assert_eq!(prop.as_str(), "API_KEY");
}

#[test]
fn test_tsx_is_scope_node_jsx_element() {
    let code = "const App = () => <div>Hello</div>;";
    let tree = parse(tree_sitter_typescript::LANGUAGE_TSX.into(), code);
    if let Some(jsx) = find_node_of_kind(tree.root_node(), "jsx_element") {
        assert!(TypeScriptReact.is_scope_node(&to_node(jsx, code)));
    }
}

fn leaf(kind: &str, text: &str) -> SyntaxNode {
    SyntaxNode { kind: kind.to_string(), text: text.to_string(), fields: Vec::new() }
}

#[test]
fn import_meta_env_is_an_env_object() {
    let inner = SyntaxNode {
        kind: "member_expression".to_string(),
        text: "import.meta".to_string(),
        fields: vec![
            ("object".to_string(), leaf("identifier", "import")),
            ("property".to_string(), leaf("property_identifier", "meta")),
        ],
    };
    let outer = SyntaxNode {
        kind: "member_expression".to_string(),
        text: "import.meta.env".to_string(),
        fields: vec![
            ("object".to_string(), inner),
            ("property".to_string(), leaf("property_identifier", "env")),
        ],
    };
    assert_eq!(
        JavaScript.is_env_source_node(&outer),
        Some(EnvSourceKind::Object { canonical_name: "import.meta.env".to_string() })
    );
    assert_eq!(JavaScript.is_env_source_node(&leaf("identifier", "process")), None);
}

#[test]
fn pair_patterns_take_their_key() {
    let code = "const { API_KEY: key } = process.env;";
    let tree = parse(tree_sitter_javascript::LANGUAGE.into(), code);
    let pair = find_node_of_kind(tree.root_node(), "pair_pattern").unwrap();
    assert_eq!(JavaScript.extract_destructure_key(&to_node(pair, code)).unwrap(), "API_KEY");
}

#[test]
fn php_and_ruby_roots_are_programs_only() {
    let node = SyntaxNode { kind: "source_file".to_string(), text: String::new(), fields: Vec::new() };
    assert!(!Php.is_root_node(&node));
    assert!(!Ruby.is_root_node(&node));
    assert!(Go.is_root_node(&node));
    let program = SyntaxNode { kind: "program".to_string(), text: String::new(), fields: Vec::new() };
    assert!(Php.is_root_node(&program));
}

#[test]
fn default_names_are_trimmed_and_quoted_names_unquoted() {
    let node = SyntaxNode { kind: "string".to_string(), text: "  'KEY' ".to_string(), fields: Vec::new() };
    assert_eq!(Python.extract_var_name(&node).unwrap(), "'KEY'");
    assert_eq!(Ruby.extract_var_name(&node).unwrap(), "  'KEY' ");
    assert_eq!(Python.extract_identifier(&node).unwrap(), "'KEY'");
}
