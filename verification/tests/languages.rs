//! The per-language facts: identifiers, extensions, environment objects.
use ecolog_lsp::languages::LanguageSupport;
use ecolog_lsp::languages::bash::Bash;
use ecolog_lsp::languages::c::C;
use ecolog_lsp::languages::cpp::Cpp;
use ecolog_lsp::languages::csharp::CSharp;
use ecolog_lsp::languages::elixir::Elixir;
use ecolog_lsp::languages::go::Go;
use ecolog_lsp::languages::java::Java;
use ecolog_lsp::languages::javascript::JavaScript;
use ecolog_lsp::languages::kotlin::Kotlin;
use ecolog_lsp::languages::lua::Lua;
use ecolog_lsp::languages::php::Php;
use ecolog_lsp::languages::python::Python;
use ecolog_lsp::languages::ruby::Ruby;
use ecolog_lsp::languages::rust::Rust;
use ecolog_lsp::languages::typescript::TypeScript;
use ecolog_lsp::languages::typescript::TypeScriptReact;
use ecolog_lsp::languages::zig::Zig;

#[test]
fn bash_test_id() {
    assert_eq!(Bash.id(), "bash");
}

#[test]
fn bash_test_extensions() {
    let exts = Bash.extensions();
    assert!(exts.contains(&"sh"));
    assert!(exts.contains(&"bash"));
    assert!(exts.contains(&"zsh"));
}

#[test]
fn bash_test_language_ids() {
    let ids = Bash.language_ids();
    assert!(ids.contains(&"bash"));
    assert!(ids.contains(&"shellscript"));
}

#[test]
fn c_test_id() {
    assert_eq!(C.id(), "c");
}

#[test]
fn c_test_extensions() {
    let exts = C.extensions();
    assert!(exts.contains(&"c"));
    assert!(exts.contains(&"h"));
}

#[test]
fn c_test_language_ids() {
    let ids = C.language_ids();
    assert!(ids.contains(&"c"));
}

#[test]
fn cpp_test_id() {
    assert_eq!(Cpp.id(), "cpp");
}

#[test]
fn cpp_test_extensions() {
    let exts = Cpp.extensions();
    assert!(exts.contains(&"cpp"));
    assert!(exts.contains(&"hpp"));
}

#[test]
fn cpp_test_language_ids() {
    let ids = Cpp.language_ids();
    assert!(ids.contains(&"cpp"));
}

#[test]
fn csharp_test_id() {
    assert_eq!(CSharp.id(), "csharp");
}

#[test]
fn csharp_test_extensions() {
    let exts = CSharp.extensions();
    assert!(exts.contains(&"cs"));
    assert!(exts.contains(&"csx"));
}

#[test]
fn csharp_test_language_ids() {
    let ids = CSharp.language_ids();
    assert!(ids.contains(&"csharp"));
}

#[test]
fn elixir_test_id() {
    assert_eq!(Elixir.id(), "elixir");
}

#[test]
fn elixir_test_extensions() {
    let exts = Elixir.extensions();
    assert!(exts.contains(&"ex"));
    assert!(exts.contains(&"exs"));
}

#[test]
fn elixir_test_language_ids() {
    let ids = Elixir.language_ids();
    assert!(ids.contains(&"elixir"));
}

#[test]
fn go_test_id() {
    assert_eq!(Go.id(), "go");
}

#[test]
fn go_test_extensions() {
    let exts = Go.extensions();
    assert!(exts.contains(&"go"));
}

#[test]
fn go_test_language_ids() {
    let ids = Go.language_ids();
    assert!(ids.contains(&"go"));
}

#[test]
fn go_test_is_standard_env_object() {
    let go = Go;
    assert!(go.is_standard_env_object("os"));
    assert!(!go.is_standard_env_object("process"));
    assert!(!go.is_standard_env_object("something.else"));
}

#[test]
fn go_test_known_env_modules() {
    let modules = Go.known_env_modules();
    assert!(modules.contains(&"os"));
}

#[test]
fn go_test_strip_quotes() {
    let go = Go;
    assert_eq!(go.strip_quotes("\"hello\""), "hello");
    assert_eq!(go.strip_quotes("'a'"), "a");
    assert_eq!(go.strip_quotes("`raw`"), "raw");
    assert_eq!(go.strip_quotes("noquotes"), "noquotes");
}

#[test]
fn java_test_id() {
    assert_eq!(Java.id(), "java");
}

#[test]
fn java_test_extensions() {
    let exts = Java.extensions();
    assert!(exts.contains(&"java"));
}

#[test]
fn java_test_language_ids() {
    let ids = Java.language_ids();
    assert!(ids.contains(&"java"));
}

#[test]
fn javascript_test_id() {
    assert_eq!(JavaScript.id(), "javascript");
}

#[test]
fn javascript_test_extensions() {
    let exts = JavaScript.extensions();
    assert!(exts.contains(&"js"));
    assert!(exts.contains(&"jsx"));
    assert!(exts.contains(&"mjs"));
    assert!(exts.contains(&"cjs"));
}

#[test]
fn javascript_test_language_ids() {
    let ids = JavaScript.language_ids();
    assert!(ids.contains(&"javascript"));
    assert!(ids.contains(&"javascriptreact"));
}

#[test]
fn javascript_test_is_standard_env_object() {
    let js = JavaScript;
    assert!(js.is_standard_env_object("process.env"));
    assert!(js.is_standard_env_object("import.meta.env"));
    assert!(!js.is_standard_env_object("process"));
    assert!(!js.is_standard_env_object("import.meta"));
    assert!(!js.is_standard_env_object("something.else"));
}

#[test]
fn javascript_test_default_env_object_name() {
    assert_eq!(JavaScript.default_env_object_name(), Some("process.env"));
}

#[test]
fn javascript_test_known_env_modules() {
    let modules = JavaScript.known_env_modules();
    assert!(modules.contains(&"process"));
}

#[test]
fn javascript_test_strip_quotes() {
    let js = JavaScript;
    assert_eq!(js.strip_quotes("\"hello\""), "hello");
    assert_eq!(js.strip_quotes("'world'"), "world");
    assert_eq!(js.strip_quotes("`template`"), "template");
    assert_eq!(js.strip_quotes("noquotes"), "noquotes");
}

#[test]
fn kotlin_test_id() {
    assert_eq!(Kotlin.id(), "kotlin");
}

#[test]
fn kotlin_test_extensions() {
    let exts = Kotlin.extensions();
    assert!(exts.contains(&"kt"));
    assert!(exts.contains(&"kts"));
}

#[test]
fn kotlin_test_language_ids() {
    let ids = Kotlin.language_ids();
    assert!(ids.contains(&"kotlin"));
}

#[test]
fn lua_test_id() {
    assert_eq!(Lua.id(), "lua");
}

#[test]
fn lua_test_extensions() {
    let exts = Lua.extensions();
    assert!(exts.contains(&"lua"));
}

#[test]
fn lua_test_language_ids() {
    let ids = Lua.language_ids();
    assert!(ids.contains(&"lua"));
}

#[test]
fn lua_test_is_standard_env_object() {
    let lua = Lua;
    assert!(lua.is_standard_env_object("os"));
    assert!(lua.is_standard_env_object("os.getenv"));
    assert!(!lua.is_standard_env_object("process"));
}

#[test]
fn lua_test_default_env_object_name() {
    assert_eq!(Lua.default_env_object_name(), Some("os.getenv"));
}

#[test]
fn lua_test_known_env_modules() {
    let modules = Lua.known_env_modules();
    assert!(modules.contains(&"os"));
}

#[test]
fn lua_test_strip_quotes() {
    let lua = Lua;
    assert_eq!(lua.strip_quotes("\"hello\""), "hello");
    assert_eq!(lua.strip_quotes("'world'"), "world");
    assert_eq!(lua.strip_quotes("noquotes"), "noquotes");
}

#[test]
fn php_test_id() {
    assert_eq!(Php.id(), "php");
}

#[test]
fn php_test_extensions() {
    let exts = Php.extensions();
    assert!(exts.contains(&"php"));
    assert!(exts.contains(&"phtml"));
}

#[test]
fn php_test_language_ids() {
    let ids = Php.language_ids();
    assert!(ids.contains(&"php"));
}

#[test]
fn php_test_is_standard_env_object() {
    let php = Php;
    assert!(php.is_standard_env_object("$_ENV"));
    assert!(php.is_standard_env_object("$_SERVER"));
    assert!(php.is_standard_env_object("getenv"));
    assert!(php.is_standard_env_object("env"));
    assert!(!php.is_standard_env_object("process"));
}

#[test]
fn php_test_default_env_object_name() {
    assert_eq!(Php.default_env_object_name(), Some("$_ENV"));
}

#[test]
fn php_test_strip_quotes() {
    let php = Php;
    assert_eq!(php.strip_quotes("\"hello\""), "hello");
    assert_eq!(php.strip_quotes("'world'"), "world");
    assert_eq!(php.strip_quotes("noquotes"), "noquotes");
}

#[test]
fn python_test_id() {
    assert_eq!(Python.id(), "python");
}

#[test]
fn python_test_extensions() {
    let exts = Python.extensions();
    assert!(exts.contains(&"py"));
}

#[test]
fn python_test_language_ids() {
    let ids = Python.language_ids();
    assert!(ids.contains(&"python"));
}

#[test]
fn python_test_is_standard_env_object() {
    let py = Python;
    assert!(py.is_standard_env_object("os.environ"));
    assert!(py.is_standard_env_object("os")); // "os" is valid for function-call patterns like os.getenv()
    assert!(!py.is_standard_env_object("process"));
}

#[test]
fn python_test_default_env_object_name() {
    assert_eq!(Python.default_env_object_name(), Some("os.environ"));
}

#[test]
fn python_test_known_env_modules() {
    let modules = Python.known_env_modules();
    assert!(modules.contains(&"os"));
}

#[test]
fn python_test_strip_quotes() {
    let py = Python;
    assert_eq!(py.strip_quotes("\"hello\""), "hello");
    assert_eq!(py.strip_quotes("'world'"), "world");
    assert_eq!(py.strip_quotes("noquotes"), "noquotes");
}

#[test]
fn ruby_test_id() {
    assert_eq!(Ruby.id(), "ruby");
}

#[test]
fn ruby_test_extensions() {
    let exts = Ruby.extensions();
    assert!(exts.contains(&"rb"));
    assert!(exts.contains(&"rake"));
    assert!(exts.contains(&"gemspec"));
}

#[test]
fn ruby_test_language_ids() {
    let ids = Ruby.language_ids();
    assert!(ids.contains(&"ruby"));
}

#[test]
fn ruby_test_is_standard_env_object() {
    let ruby = Ruby;
    assert!(ruby.is_standard_env_object("ENV"));
    assert!(!ruby.is_standard_env_object("process"));
    assert!(!ruby.is_standard_env_object("os"));
}

#[test]
fn ruby_test_default_env_object_name() {
    assert_eq!(Ruby.default_env_object_name(), Some("ENV"));
}

#[test]
fn ruby_test_known_env_modules() {
    let modules = Ruby.known_env_modules();
    assert!(modules.contains(&"dotenv"));
}

#[test]
fn ruby_test_strip_quotes() {
    let ruby = Ruby;
    assert_eq!(ruby.strip_quotes("\"hello\""), "hello");
    assert_eq!(ruby.strip_quotes("'world'"), "world");
    assert_eq!(ruby.strip_quotes("noquotes"), "noquotes");
}

#[test]
fn rust_test_id() {
    assert_eq!(Rust.id(), "rust");
}

#[test]
fn rust_test_extensions() {
    let exts = Rust.extensions();
    assert!(exts.contains(&"rs"));
}

#[test]
fn rust_test_language_ids() {
    let ids = Rust.language_ids();
    assert!(ids.contains(&"rust"));
}

#[test]
fn rust_test_is_standard_env_object() {
    let rs = Rust;
    assert!(rs.is_standard_env_object("std::env"));
    assert!(rs.is_standard_env_object("std"));
    assert!(rs.is_standard_env_object("env"));
    assert!(!rs.is_standard_env_object("process"));
}

#[test]
fn rust_test_known_env_modules() {
    let modules = Rust.known_env_modules();
    assert!(modules.contains(&"std::env"));
    assert!(modules.contains(&"env"));
}

#[test]
fn test_ts_id() {
    assert_eq!(TypeScript.id(), "typescript");
}

#[test]
fn test_ts_extensions() {
    let exts = TypeScript.extensions();
    assert!(exts.contains(&"ts"));
    assert!(exts.contains(&"mts"));
    assert!(exts.contains(&"cts"));
}

#[test]
fn test_ts_language_ids() {
    let ids = TypeScript.language_ids();
    assert!(ids.contains(&"typescript"));
}

#[test]
fn test_ts_is_standard_env_object() {
    let ts = TypeScript;
    assert!(ts.is_standard_env_object("process.env"));
    assert!(ts.is_standard_env_object("import.meta.env"));
    assert!(!ts.is_standard_env_object("process"));
    assert!(!ts.is_standard_env_object("import.meta"));
    assert!(!ts.is_standard_env_object("something.else"));
}

#[test]
fn test_ts_default_env_object_name() {
    assert_eq!(TypeScript.default_env_object_name(), Some("process.env"));
}

#[test]
fn test_ts_known_env_modules() {
    let modules = TypeScript.known_env_modules();
    assert!(modules.contains(&"process"));
}

#[test]
fn test_ts_strip_quotes() {
    let ts = TypeScript;
    assert_eq!(ts.strip_quotes("\"hello\""), "hello");
    assert_eq!(ts.strip_quotes("'world'"), "world");
    assert_eq!(ts.strip_quotes("`template`"), "template");
    assert_eq!(ts.strip_quotes("noquotes"), "noquotes");
}

#[test]
fn test_tsx_id() {
    assert_eq!(TypeScriptReact.id(), "typescriptreact");
}

#[test]
fn test_tsx_extensions() {
    let exts = TypeScriptReact.extensions();
    assert!(exts.contains(&"tsx"));
}

#[test]
fn test_tsx_language_ids() {
    let ids = TypeScriptReact.language_ids();
    assert!(ids.contains(&"typescriptreact"));
}

#[test]
fn test_tsx_is_standard_env_object() {
    let tsx = TypeScriptReact;
    assert!(tsx.is_standard_env_object("process.env"));
    assert!(tsx.is_standard_env_object("import.meta.env"));
    assert!(!tsx.is_standard_env_object("process"));
    assert!(!tsx.is_standard_env_object("import.meta"));
    assert!(!tsx.is_standard_env_object("something.else"));
}

#[test]
fn test_tsx_default_env_object_name() {
    assert_eq!(TypeScriptReact.default_env_object_name(), Some("process.env"));
}

#[test]
fn test_tsx_known_env_modules() {
    let modules = TypeScriptReact.known_env_modules();
    assert!(modules.contains(&"process"));
}

#[test]
fn test_tsx_strip_quotes() {
    let tsx = TypeScriptReact;
    assert_eq!(tsx.strip_quotes("\"hello\""), "hello");
    assert_eq!(tsx.strip_quotes("'world'"), "world");
    assert_eq!(tsx.strip_quotes("`template`"), "template");
    assert_eq!(tsx.strip_quotes("noquotes"), "noquotes");
}

#[test]
fn zig_test_id() {
    assert_eq!(Zig.id(), "zig");
}

#[test]
fn zig_test_extensions() {
    let exts = Zig.extensions();
    assert!(exts.contains(&"zig"));
}

#[test]
fn zig_test_language_ids() {
    let ids = Zig.language_ids();
    assert!(ids.contains(&"zig"));
}
