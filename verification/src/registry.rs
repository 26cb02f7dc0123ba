//! Which language handles a document: languages are registered under their
//! id, each of their file extensions and each of their editor language ids,
//! and looked up by any of these. A later registration takes over the keys it
//! shares with an earlier one.
use crate::keyed::{key_views, lemma_pairs_map_dom, KeyedMap};
use crate::languages::bash::Bash;
use crate::languages::c::C;
use crate::languages::cpp::Cpp;
use crate::languages::csharp::CSharp;
use crate::languages::elixir::Elixir;
use crate::languages::go::Go;
use crate::languages::java::Java;
use crate::languages::javascript::JavaScript;
use crate::languages::kotlin::Kotlin;
use crate::languages::lua::Lua;
use crate::languages::php::Php;
use crate::languages::python::Python;
use crate::languages::ruby::Ruby;
use crate::languages::rust::Rust;
use crate::languages::typescript::{TypeScript, TypeScriptReact};
use crate::languages::zig::Zig;
use crate::languages::{strs_view, LanguageSupport};
use crate::paths::{extension_of, path_extension};
use tower_lsp::lsp_types::Url;
use vstd::prelude::*;

verus! {

#[verifier::external_type_specification]
#[verifier::external_body]
pub struct ExUrl(Url);

/// The local path that `Url::to_file_path` gives for a URL, as text, or
/// `None` where it gives none (or the path is not valid UTF-8).
pub uninterp spec fn url_file_path_of(uri: Url) -> Option<Seq<char>>;

/// `Url::to_file_path`: the local path that a URL names, as text. The path
/// depends on the URL alone (the platform's path rules are fixed when the
/// crate is built), so the result is named by `url_file_path_of`; which path
/// that is for a given URL is not stated.
#[verifier::external_body]
fn url_file_path(uri: &Url) -> (r: Option<String>)
    ensures
        match r {
            Some(s) => url_file_path_of(*uri) == Some(s@),
            None => url_file_path_of(*uri) is None,
        },
{
    uri.to_file_path().ok().and_then(|p| p.to_str().map(|s| s.to_string()))
}

/// One of the languages the server understands.
#[derive(Debug, Clone, Copy, PartialEq, Eq, Structural)]
pub enum Language {
    Bash,
    C,
    Cpp,
    CSharp,
    Elixir,
    Go,
    Java,
    JavaScript,
    Kotlin,
    Lua,
    Php,
    Python,
    Ruby,
    Rust,
    TypeScript,
    TypeScriptReact,
    Zig,
}

impl Language {
    /// The id of the language, as its own description gives it.
    pub open spec fn spec_id(self) -> &'static str {
        match self {
            Language::Bash => Bash.spec_id(),
            Language::C => C.spec_id(),
            Language::Cpp => Cpp.spec_id(),
            Language::CSharp => CSharp.spec_id(),
            Language::Elixir => Elixir.spec_id(),
            Language::Go => Go.spec_id(),
            Language::Java => Java.spec_id(),
            Language::JavaScript => JavaScript.spec_id(),
            Language::Kotlin => Kotlin.spec_id(),
            Language::Lua => Lua.spec_id(),
            Language::Php => Php.spec_id(),
            Language::Python => Python.spec_id(),
            Language::Ruby => Ruby.spec_id(),
            Language::Rust => Rust.spec_id(),
            Language::TypeScript => TypeScript.spec_id(),
            Language::TypeScriptReact => TypeScriptReact.spec_id(),
            Language::Zig => Zig.spec_id(),
        }
    }

    /// The file extensions of the language.
    pub open spec fn spec_extensions(self) -> Seq<&'static str> {
        match self {
            Language::Bash => Bash.spec_extensions(),
            Language::C => C.spec_extensions(),
            Language::Cpp => Cpp.spec_extensions(),
            Language::CSharp => CSharp.spec_extensions(),
            Language::Elixir => Elixir.spec_extensions(),
            Language::Go => Go.spec_extensions(),
            Language::Java => Java.spec_extensions(),
            Language::JavaScript => JavaScript.spec_extensions(),
            Language::Kotlin => Kotlin.spec_extensions(),
            Language::Lua => Lua.spec_extensions(),
            Language::Php => Php.spec_extensions(),
            Language::Python => Python.spec_extensions(),
            Language::Ruby => Ruby.spec_extensions(),
            Language::Rust => Rust.spec_extensions(),
            Language::TypeScript => TypeScript.spec_extensions(),
            Language::TypeScriptReact => TypeScriptReact.spec_extensions(),
            Language::Zig => Zig.spec_extensions(),
        }
    }

    /// The editor language ids of the language.
    pub open spec fn spec_language_ids(self) -> Seq<&'static str> {
        match self {
            Language::Bash => Bash.spec_language_ids(),
            Language::C => C.spec_language_ids(),
            Language::Cpp => Cpp.spec_language_ids(),
            Language::CSharp => CSharp.spec_language_ids(),
            Language::Elixir => Elixir.spec_language_ids(),
            Language::Go => Go.spec_language_ids(),
            Language::Java => Java.spec_language_ids(),
            Language::JavaScript => JavaScript.spec_language_ids(),
            Language::Kotlin => Kotlin.spec_language_ids(),
            Language::Lua => Lua.spec_language_ids(),
            Language::Php => Php.spec_language_ids(),
            Language::Python => Python.spec_language_ids(),
            Language::Ruby => Ruby.spec_language_ids(),
            Language::Rust => Rust.spec_language_ids(),
            Language::TypeScript => TypeScript.spec_language_ids(),
            Language::TypeScriptReact => TypeScriptReact.spec_language_ids(),
            Language::Zig => Zig.spec_language_ids(),
        }
    }

    /// The language's identifier.
    pub fn id(&self) -> (r: &'static str)
        ensures
            r == self.spec_id(),
    {
        match self {
            Language::Bash => Bash.id(),
            Language::C => C.id(),
            Language::Cpp => Cpp.id(),
            Language::CSharp => CSharp.id(),
            Language::Elixir => Elixir.id(),
            Language::Go => Go.id(),
            Language::Java => Java.id(),
            Language::JavaScript => JavaScript.id(),
            Language::Kotlin => Kotlin.id(),
            Language::Lua => Lua.id(),
            Language::Php => Php.id(),
            Language::Python => Python.id(),
            Language::Ruby => Ruby.id(),
            Language::Rust => Rust.id(),
            Language::TypeScript => TypeScript.id(),
            Language::TypeScriptReact => TypeScriptReact.id(),
            Language::Zig => Zig.id(),
        }
    }

    /// The file extensions of the language, without the dot.
    pub fn extensions(&self) -> (r: Vec<&'static str>)
        ensures
            r@ == self.spec_extensions(),
    {
        match self {
            Language::Bash => Bash.extensions(),
            Language::C => C.extensions(),
            Language::Cpp => Cpp.extensions(),
            Language::CSharp => CSharp.extensions(),
            Language::Elixir => Elixir.extensions(),
            Language::Go => Go.extensions(),
            Language::Java => Java.extensions(),
            Language::JavaScript => JavaScript.extensions(),
            Language::Kotlin => Kotlin.extensions(),
            Language::Lua => Lua.extensions(),
            Language::Php => Php.extensions(),
            Language::Python => Python.extensions(),
            Language::Ruby => Ruby.extensions(),
            Language::Rust => Rust.extensions(),
            Language::TypeScript => TypeScript.extensions(),
            Language::TypeScriptReact => TypeScriptReact.extensions(),
            Language::Zig => Zig.extensions(),
        }
    }

    /// The editor language ids of the language.
    pub fn language_ids(&self) -> (r: Vec<&'static str>)
        ensures
            r@ == self.spec_language_ids(),
    {
        match self {
            Language::Bash => Bash.language_ids(),
            Language::C => C.language_ids(),
            Language::Cpp => Cpp.language_ids(),
            Language::CSharp => CSharp.language_ids(),
            Language::Elixir => Elixir.language_ids(),
            Language::Go => Go.language_ids(),
            Language::Java => Java.language_ids(),
            Language::JavaScript => JavaScript.language_ids(),
            Language::Kotlin => Kotlin.language_ids(),
            Language::Lua => Lua.language_ids(),
            Language::Php => Php.language_ids(),
            Language::Python => Python.language_ids(),
            Language::Ruby => Ruby.language_ids(),
            Language::Rust => Rust.language_ids(),
            Language::TypeScript => TypeScript.language_ids(),
            Language::TypeScriptReact => TypeScriptReact.language_ids(),
            Language::Zig => Zig.language_ids(),
        }
    }
}

/// `m` with every key of `keys` now leading to `l`.
pub open spec fn assign_keys(m: Map<Seq<char>, Language>, keys: Seq<&'static str>, l: Language) -> Map<
    Seq<char>,
    Language,
> {
    Map::new(
        |k: Seq<char>| m.dom().contains(k) || strs_view(keys).contains(k),
        |k: Seq<char>|
            if strs_view(keys).contains(k) {
                l
            } else {
                m[k]
            },
    )
}

/// The registered languages, by id, by file extension and by editor
/// language id.
pub struct LanguageRegistry {
    by_id: KeyedMap<String, Language>,
    by_extension: KeyedMap<String, Language>,
    by_language_id: KeyedMap<String, Language>,
}

impl LanguageRegistry {
    /// The languages by id.
    pub closed spec fn ids(&self) -> Map<Seq<char>, Language> {
        self.by_id.map()
    }

    /// The languages by file extension.
    pub closed spec fn exts(&self) -> Map<Seq<char>, Language> {
        self.by_extension.map()
    }

    /// The languages by editor language id.
    pub closed spec fn lang_ids(&self) -> Map<Seq<char>, Language> {
        self.by_language_id.map()
    }

    /// Each language is kept under its own id.
    pub closed spec fn wf(&self) -> bool {
        &&& self.by_id.wf()
        &&& self.by_extension.wf()
        &&& self.by_language_id.wf()
        &&& forall|k: Seq<char>| #[trigger]
            self.ids().dom().contains(k) ==> self.ids()[k].spec_id()@ == k
    }

    /// A registry with no language in it.
    pub fn new() -> (r: Self)
        ensures
            r.wf(),
            r.ids() == Map::<Seq<char>, Language>::empty(),
            r.exts() == Map::<Seq<char>, Language>::empty(),
            r.lang_ids() == Map::<Seq<char>, Language>::empty(),
    {
        LanguageRegistry {
            by_id: KeyedMap::new(),
            by_extension: KeyedMap::new(),
            by_language_id: KeyedMap::new(),
        }
    }

    /// Sets each key of `keys` in `m` to `l`.
    fn assign_all(m: &mut KeyedMap<String, Language>, keys: &Vec<&'static str>, l: Language)
        requires
            old(m).wf(),
        ensures
            final(m).wf(),
            final(m).map() == assign_keys(old(m).map(), keys@, l),
    {
        let mut i: usize = 0;
        while i < keys.len()
            invariant
                m.wf(),
                0 <= i <= keys.len(),
                m.map() == assign_keys(old(m).map(), keys@.take(i as int), l),
            decreases keys.len() - i,
        {
            let key = keys[i].to_string();
            m.insert(key, l);
            proof {
                let before = assign_keys(old(m).map(), keys@.take(i as int), l);
                let after = assign_keys(old(m).map(), keys@.take(i + 1), l);
                let s0 = strs_view(keys@.take(i as int));
                let s1 = strs_view(keys@.take(i + 1));
                assert(s1 =~= s0.push(keys@[i as int]@));
                assert forall|k: Seq<char>| s1.contains(k) <==> (s0.contains(k) || k == keys@[i as int]@) by {
                    if s1.contains(k) {
                        let j = choose|j: int| 0 <= j < s1.len() && #[trigger] s1[j] == k;
                        if j < i {
                            assert(s0[j] == k);
                        }
                    }
                    if s0.contains(k) {
                        let j = choose|j: int| 0 <= j < s0.len() && #[trigger] s0[j] == k;
                        assert(s1[j] == k);
                    }
                    if k == keys@[i as int]@ {
                        assert(s1[i as int] == k);
                    }
                }
                assert(m.map() =~= after);
            }
            i += 1;
        }
        assert(keys@.take(keys.len() as int) =~= keys@);
    }

    /// Registers `language` under its id, its file extensions and its editor
    /// language ids.
    pub fn register(&mut self, language: Language)
        requires
            old(self).wf(),
        ensures
            final(self).wf(),
            final(self).ids() == old(self).ids().insert(language.spec_id()@, language),
            final(self).exts() == assign_keys(old(self).exts(), language.spec_extensions(), language),
            final(self).lang_ids() == assign_keys(
                old(self).lang_ids(),
                language.spec_language_ids(),
                language,
            ),
    {
        let id = language.id().to_string();
        self.by_id.insert(id, language);
        assert forall|k: Seq<char>| #[trigger] self.ids().dom().contains(k) implies self.ids()[
            k].spec_id()@ == k by {
            if k != language.spec_id()@ {
                assert(old(self).ids().dom().contains(k));
            }
        }
        let ghost ids0 = self.ids();
        let exts = language.extensions();
        Self::assign_all(&mut self.by_extension, &exts, language);
        assert(self.ids() == ids0);
        let lang_ids = language.language_ids();
        Self::assign_all(&mut self.by_language_id, &lang_ids, language);
    }

    /// The language registered for file extension `ext`.
    pub fn get_by_extension(&self, ext: &str) -> (r: Option<Language>)
        requires
            self.wf(),
        ensures
            r == self.exts().get(ext@),
    {
        let key = ext.to_string();
        match self.by_extension.get(&key) {
            Some(l) => Some(*l),
            None => None,
        }
    }

    /// The language registered for editor language id `id`.
    pub fn get_by_language_id(&self, id: &str) -> (r: Option<Language>)
        requires
            self.wf(),
        ensures
            r == self.lang_ids().get(id@),
    {
        let key = id.to_string();
        match self.by_language_id.get(&key) {
            Some(l) => Some(*l),
            None => None,
        }
    }

    /// Every registered language once, in no particular order.
    pub fn all_languages(&self) -> (r: Vec<Language>)
        requires
            self.wf(),
        ensures
            r@.len() == self.ids().dom().len(),
            forall|i: int|
                0 <= i < r@.len() ==> #[trigger] self.ids().get(r@[i].spec_id()@) == Some(r@[i]),
            forall|k: Seq<char>| #[trigger]
                self.ids().dom().contains(k) ==> r@.contains(self.ids()[k]),
    {
        proof {
            self.by_id.lemma_entries();
            let ks = key_views(self.by_id.entries@);
            ks.unique_seq_to_set();
            assert(self.ids().dom() =~= ks.to_set());
        }
        let mut r: Vec<Language> = Vec::new();
        let mut i: usize = 0;
        while i < self.by_id.entries.len()
            invariant
                self.wf(),
                0 <= i <= self.by_id.entries.len(),
                r@.len() == i,
                forall|j: int| 0 <= j < i ==> r@[j] == #[trigger] self.by_id.entries@[j].1,
            decreases self.by_id.entries.len() - i,
        {
            r.push(self.by_id.entries[i].1);
            i += 1;
        }
        proof {
            self.by_id.lemma_entries();
            assert forall|j: int| 0 <= j < r@.len() implies #[trigger] self.ids().get(
                r@[j].spec_id()@,
            ) == Some(r@[j]) by {
                let k = self.by_id.entries@[j].0@;
                assert(key_views(self.by_id.entries@)[j] == k);
                assert(self.ids().dom().contains(k));
                assert(self.ids()[k] == r@[j]);
            }
            assert forall|k: Seq<char>| #[trigger]
                self.ids().dom().contains(k) implies r@.contains(self.ids()[k]) by {
                let j = choose|j: int|
                    0 <= j < key_views(self.by_id.entries@).len() && key_views(
                        self.by_id.entries@,
                    )[j] == k;
                assert(self.by_id.entries@[j].0@ == k);
                assert(r@[j] == self.ids()[k]);
            }
        }
        r
    }

    /// The language for a file at `path`: the one registered for its
    /// extension.
    pub open spec fn for_path(&self, path: Seq<char>) -> Option<Language> {
        match path_extension(path) {
            Some(e) => self.exts().get(e),
            None => None,
        }
    }

    /// The language for the file at `path`, by the extension of its last
    /// component.
    pub fn get_for_path(&self, path: &str) -> (r: Option<Language>)
        requires
            self.wf(),
        ensures
            r == self.for_path(path@),
    {
        match extension_of(path) {
            Some(ext) => self.get_by_extension(ext.as_str()),
            None => None,
        }
    }

    /// The language for the document at `uri`: `None` where the URL names
    /// no local file, else the language of that file's path.
    pub fn get_for_uri(&self, uri: &Url) -> (r: Option<Language>)
        requires
            self.wf(),
        ensures
            r == match url_file_path_of(*uri) {
                Some(p) => self.for_path(p),
                None => None,
            },
    {
        match url_file_path(uri) {
            Some(path) => self.get_for_path(path.as_str()),
            None => None,
        }
    }
}

impl Default for LanguageRegistry {
    fn default() -> (r: Self)
        ensures
            r.wf(),
            r.ids() == Map::<Seq<char>, Language>::empty(),
            r.exts() == Map::<Seq<char>, Language>::empty(),
            r.lang_ids() == Map::<Seq<char>, Language>::empty(),
    {
        Self::new()
    }
}

/// Once a language is registered, each of its keys leads to it, and every
/// other key leads where it led before.
pub proof fn law_register_then_lookup(
    m: Map<Seq<char>, Language>,
    keys: Seq<&'static str>,
    l: Language,
    k: Seq<char>,
)
    ensures
        strs_view(keys).contains(k) ==> assign_keys(m, keys, l).get(k) == Some(l),
        !strs_view(keys).contains(k) ==> assign_keys(m, keys, l).get(k) == m.get(k),
{
}

/// Registering the same language a second time changes nothing.
pub proof fn law_register_idempotent(m: Map<Seq<char>, Language>, keys: Seq<&'static str>, l: Language)
    ensures
        assign_keys(assign_keys(m, keys, l), keys, l) == assign_keys(m, keys, l),
{
    assert(assign_keys(assign_keys(m, keys, l), keys, l) =~= assign_keys(m, keys, l));
}

} // verus!
