//! The workspace index: which files read which environment variables, how
//! imports between files were resolved, which files depend on which, and
//! which files need analysing again after a change. File URIs are kept as
//! their text.
use crate::keyed::{key_views, KeyEq, KeyedMap};
use crate::text::{str_eq, strs_of};
use vstd::prelude::*;

verus! {

/// What the index records of one file.
#[derive(Debug, Clone)]
pub struct FileIndexEntry {
    /// When the file was last modified, in seconds.
    pub mtime: u64,
    /// The environment variables the file reads.
    pub env_vars: Vec<String>,
    /// Whether the file is itself an env file.
    pub is_env_file: bool,
    /// The file's path.
    pub path: String,
}

/// Counts over the whole index.
pub struct IndexStats {
    pub total_files: usize,
    pub total_env_vars: usize,
}

/// The URIs of the files of `files` that read `name`.
pub open spec fn files_reading(files: Map<Seq<char>, FileIndexEntry>, name: Seq<char>) -> Set<Seq<char>> {
    Set::new(|u: Seq<char>| files.dom().contains(u) && strs_of(files[u].env_vars@).contains(name))
}

/// Every variable that some file of `files` reads.
pub open spec fn vars_read(files: Map<Seq<char>, FileIndexEntry>) -> Set<Seq<char>> {
    Set::new(
        |n: Seq<char>|
            exists|u: Seq<char>| files.dom().contains(u) && #[trigger] strs_of(
                files[u].env_vars@,
            ).contains(n),
    )
}

/// The files of the graph `deps` that import `target`.
pub open spec fn dependents_of(deps: Map<Seq<char>, Vec<String>>, target: Seq<char>) -> Set<Seq<char>> {
    Set::new(|u: Seq<char>| deps.dom().contains(u) && strs_of(deps[u]@).contains(target))
}

/// The resolution cache without the entries that involve `changed`, as the
/// importing file or as the file an import resolved to.
pub open spec fn cache_without(
    cache: Map<(Seq<char>, Seq<char>), Option<String>>,
    changed: Seq<char>,
) -> Map<(Seq<char>, Seq<char>), Option<String>> {
    cache.restrict(
        Set::new(
            |k: (Seq<char>, Seq<char>)|
                k.0 != changed && !(cache[k] matches Some(r) && r@ == changed),
        ),
    )
}

/// The index of the workspace.
#[derive(Debug, Clone)]
pub struct WorkspaceIndex {
    files: KeyedMap<String, FileIndexEntry>,
    module_cache: KeyedMap<(String, String), Option<String>>,
    dependencies: KeyedMap<String, Vec<String>>,
    dirty: KeyedMap<String, ()>,
    indexing: bool,
    progress: u8,
}

/// Whether `name` is one of `v`.
fn string_in(v: &Vec<String>, name: &str) -> (b: bool)
    ensures
        b == strs_of(v@).contains(name@),
{
    let mut i: usize = 0;
    while i < v.len()
        invariant
            0 <= i <= v.len(),
            forall|j: int| 0 <= j < i ==> v@[j]@ != name@,
        decreases v.len() - i,
    {
        if str_eq(v[i].as_str(), name) {
            assert(strs_of(v@)[i as int] == name@);
            return true;
        }
        i += 1;
    }
    assert forall|j: int| 0 <= j < strs_of(v@).len() implies strs_of(v@)[j] != name@ by {}
    false
}

/// A copy of a list of strings.
fn copy_strings(v: &Vec<String>) -> (r: Vec<String>)
    ensures
        strs_of(r@) == strs_of(v@),
{
    let mut r: Vec<String> = Vec::new();
    let mut i: usize = 0;
    while i < v.len()
        invariant
            0 <= i <= v.len(),
            r@.len() == i,
            forall|j: int| 0 <= j < i ==> (#[trigger] r@[j])@ == v@[j]@,
        decreases v.len() - i,
    {
        r.push(v[i].clone());
        i += 1;
    }
    assert(strs_of(r@) =~= strs_of(v@));
    r
}

/// The keys of a string-keyed map, each once.
fn keys_of<V>(m: &KeyedMap<String, V>) -> (r: Vec<String>)
    requires
        m.wf(),
    ensures
        strs_of(r@).no_duplicates(),
        forall|u: Seq<char>| strs_of(r@).contains(u) <==> m.map().dom().contains(u),
{
    proof {
        m.lemma_entries();
    }
    let mut r: Vec<String> = Vec::new();
    let mut i: usize = 0;
    while i < m.entries.len()
        invariant
            m.wf(),
            0 <= i <= m.entries.len(),
            r@.len() == i,
            forall|j: int| 0 <= j < i ==> (#[trigger] r@[j])@ == m.entries@[j].0@,
        decreases m.entries.len() - i,
    {
        r.push(m.entries[i].0.clone());
        i += 1;
    }
    assert(strs_of(r@) =~= key_views(m.entries@));
    r
}

impl WorkspaceIndex {
    pub closed spec fn wf(&self) -> bool {
        &&& self.files.wf()
        &&& self.module_cache.wf()
        &&& self.dependencies.wf()
        &&& self.dirty.wf()
        &&& self.progress <= 100
    }

    /// The files of the index with what is recorded of each.
    pub closed spec fn file_map(&self) -> Map<Seq<char>, FileIndexEntry> {
        self.files.map()
    }

    /// The cached import resolutions, by importing file and specifier.
    pub closed spec fn cache_map(&self) -> Map<(Seq<char>, Seq<char>), Option<String>> {
        self.module_cache.map()
    }

    /// The imports of each file.
    pub closed spec fn dependency_map(&self) -> Map<Seq<char>, Vec<String>> {
        self.dependencies.map()
    }

    /// The files that need analysing again.
    pub closed spec fn dirty_set(&self) -> Set<Seq<char>> {
        self.dirty.map().dom()
    }

    pub closed spec fn spec_indexing(&self) -> bool {
        self.indexing
    }

    pub closed spec fn spec_progress(&self) -> u8 {
        self.progress
    }

    /// An empty index, not indexing.
    pub fn new() -> (r: Self)
        ensures
            r.wf(),
            r.file_map() == Map::<Seq<char>, FileIndexEntry>::empty(),
            r.cache_map() == Map::<(Seq<char>, Seq<char>), Option<String>>::empty(),
            r.dependency_map() == Map::<Seq<char>, Vec<String>>::empty(),
            r.dirty_set() == Set::<Seq<char>>::empty(),
            !r.spec_indexing(),
            r.spec_progress() == 0,
    {
        WorkspaceIndex {
            files: KeyedMap::new(),
            module_cache: KeyedMap::new(),
            dependencies: KeyedMap::new(),
            dirty: KeyedMap::new(),
            indexing: false,
            progress: 0,
        }
    }

    /// The files that read `name`, each once.
    pub fn files_for_env_var(&self, name: &str) -> (r: Vec<String>)
        requires
            self.wf(),
        ensures
            strs_of(r@).no_duplicates(),
            forall|u: Seq<char>|
                strs_of(r@).contains(u) <==> files_reading(self.file_map(), name@).contains(u),
    {
        proof {
            self.files.lemma_entries();
        }
        let ghost ks = key_views(self.files.entries@);
        let mut r: Vec<String> = Vec::new();
        let mut i: usize = 0;
        while i < self.files.entries.len()
            invariant
                self.wf(),
                ks == key_views(self.files.entries@),
                0 <= i <= self.files.entries.len(),
                strs_of(r@).no_duplicates(),
                forall|u: Seq<char>|
                    strs_of(r@).contains(u) <==> (ks.take(i as int).contains(u) && strs_of(
                        self.file_map()[u].env_vars@,
                    ).contains(name@)),
                forall|j: int|
                    0 <= j < self.files.entries@.len() ==> self.file_map()[#[trigger] ks[j]]
                        == self.files.entries@[j].1,
            decreases self.files.entries.len() - i,
        {
            let ghost before = strs_of(r@);
            assert(ks.take(i + 1) =~= ks.take(i as int).push(ks[i as int]));
            assert(ks[i as int] == self.files.entries@[i as int].0@);
            if string_in(&self.files.entries[i].1.env_vars, name) {
                proof {
                    if before.contains(ks[i as int]) {
                        let j = choose|j: int|
                            0 <= j < i && ks.take(i as int)[j] == ks[i as int];
                        assert(ks[j] == ks[i as int]);
                    }
                }
                r.push(self.files.entries[i].0.clone());
                proof {
                    assert(strs_of(r@) =~= before.push(ks[i as int]));
                    assert forall|a: int, b: int|
                        0 <= a < b < strs_of(r@).len() implies strs_of(r@)[a] != strs_of(
                        r@,
                    )[b] by {
                        if b == before.len() {
                            if strs_of(r@)[a] == strs_of(r@)[b] {
                                assert(before.contains(ks[i as int]));
                            }
                        }
                    }
                    assert forall|u: Seq<char>| strs_of(r@).contains(u) <==> (ks.take(
                        i + 1,
                    ).contains(u) && strs_of(self.file_map()[u].env_vars@).contains(name@)) by {
                        crate::text::lemma_push_contains(before, ks[i as int], u);
                        crate::text::lemma_push_contains(ks.take(i as int), ks[i as int], u);
                    }
                }
            } else {
                proof {
                    assert forall|u: Seq<char>| strs_of(r@).contains(u) <==> (ks.take(
                        i + 1,
                    ).contains(u) && strs_of(self.file_map()[u].env_vars@).contains(name@)) by {
                        crate::text::lemma_push_contains(ks.take(i as int), ks[i as int], u);
                    }
                }
            }
            i += 1;
        }
        proof {
            assert(ks.take(self.files.entries.len() as int) =~= ks);
        }
        r
    }

    /// Every variable that some file reads, each once.
    pub fn all_env_vars(&self) -> (r: Vec<String>)
        requires
            self.wf(),
        ensures
            strs_of(r@).no_duplicates(),
            forall|n: Seq<char>| strs_of(r@).contains(n) <==> vars_read(self.file_map()).contains(n),
    {
        proof {
            self.files.lemma_entries();
        }
        let ghost es = self.files.entries@;
        let mut r: Vec<String> = Vec::new();
        let mut i: usize = 0;
        while i < self.files.entries.len()
            invariant
                self.wf(),
                es == self.files.entries@,
                0 <= i <= es.len(),
                strs_of(r@).no_duplicates(),
                forall|n: Seq<char>|
                    strs_of(r@).contains(n) <==> exists|j: int|
                        0 <= j < i && #[trigger] strs_of(es[j].1.env_vars@).contains(n),
            decreases es.len() - i,
        {
            let vars = &self.files.entries[i].1.env_vars;
            let mut k: usize = 0;
            while k < vars.len()
                invariant
                    es == self.files.entries@,
                    0 <= i < es.len(),
                    *vars == es[i as int].1.env_vars,
                    0 <= k <= vars.len(),
                    strs_of(r@).no_duplicates(),
                    forall|n: Seq<char>|
                        strs_of(r@).contains(n) <==> (exists|j: int|
                            0 <= j < i && #[trigger] strs_of(es[j].1.env_vars@).contains(n))
                            || strs_of(vars@).take(k as int).contains(n),
                decreases vars.len() - k,
            {
                let ghost before = strs_of(r@);
                assert(strs_of(vars@).take(k + 1) =~= strs_of(vars@).take(k as int).push(
                    vars@[k as int]@,
                ));
                if !string_in(&r, vars[k].as_str()) {
                    r.push(vars[k].clone());
                    proof {
                        assert(strs_of(r@) =~= before.push(vars@[k as int]@));
                        assert forall|a: int, b: int|
                            0 <= a < b < strs_of(r@).len() implies strs_of(r@)[a] != strs_of(
                            r@,
                        )[b] by {
                            if b == before.len() && strs_of(r@)[a] == strs_of(r@)[b] {
                                assert(before.contains(vars@[k as int]@));
                            }
                        }
                        assert forall|n: Seq<char>| strs_of(r@).contains(n) <==> ((exists|j: int|
                            0 <= j < i && #[trigger] strs_of(es[j].1.env_vars@).contains(n))
                            || strs_of(vars@).take(k + 1).contains(n)) by {
                            crate::text::lemma_push_contains(before, vars@[k as int]@, n);
                            crate::text::lemma_push_contains(
                                strs_of(vars@).take(k as int),
                                vars@[k as int]@,
                                n,
                            );
                        }
                    }
                } else {
                    proof {
                        assert forall|n: Seq<char>| strs_of(r@).contains(n) <==> ((exists|j: int|
                            0 <= j < i && #[trigger] strs_of(es[j].1.env_vars@).contains(n))
                            || strs_of(vars@).take(k + 1).contains(n)) by {
                            crate::text::lemma_push_contains(
                                strs_of(vars@).take(k as int),
                                vars@[k as int]@,
                                n,
                            );
                        }
                    }
                }
                k += 1;
            }
            proof {
                assert(strs_of(vars@).take(vars.len() as int) =~= strs_of(vars@));
                assert forall|n: Seq<char>| strs_of(r@).contains(n) <==> exists|j: int|
                    0 <= j < i + 1 && #[trigger] strs_of(es[j].1.env_vars@).contains(n) by {
                    if strs_of(vars@).contains(n) {
                        assert(strs_of(es[i as int].1.env_vars@).contains(n));
                    }
                    if exists|j: int|
                        0 <= j < i + 1 && #[trigger] strs_of(es[j].1.env_vars@).contains(n) {
                        let j = choose|j: int|
                            0 <= j < i + 1 && #[trigger] strs_of(es[j].1.env_vars@).contains(n);
                        if j == i {
                            assert(strs_of(vars@).contains(n));
                        }
                    }
                }
            }
            i += 1;
        }
        proof {
            assert forall|n: Seq<char>| strs_of(r@).contains(n) <==> vars_read(
                self.file_map(),
            ).contains(n) by {
                if strs_of(r@).contains(n) {
                    let j = choose|j: int|
                        0 <= j < es.len() && #[trigger] strs_of(es[j].1.env_vars@).contains(n);
                    assert(key_views(es)[j] == es[j].0@);
                    assert(self.file_map()[es[j].0@] == es[j].1);
                    assert(key_views(es).contains(es[j].0@));
                }
                if vars_read(self.file_map()).contains(n) {
                    let u = choose|u: Seq<char>|
                        self.file_map().dom().contains(u) && #[trigger] strs_of(
                            self.file_map()[u].env_vars@,
                        ).contains(n);
                    assert(key_views(es).contains(u));
                    let j = choose|j: int| 0 <= j < key_views(es).len() && key_views(es)[j] == u;
                    assert(self.file_map()[key_views(es)[j]] == es[j].1);
                    assert(strs_of(es[j].1.env_vars@).contains(n));
                }
            }
        }
        r
    }

    /// Whether `uri` is indexed.
    pub fn is_file_indexed(&self, uri: &str) -> (b: bool)
        requires
            self.wf(),
        ensures
            b == self.file_map().dom().contains(uri@),
    {
        self.files.contains_key(&uri.to_string())
    }

    /// The variables that `uri` reads, where it is indexed.
    pub fn env_vars_in_file(&self, uri: &str) -> (r: Option<Vec<String>>)
        requires
            self.wf(),
        ensures
            match r {
                Some(v) => self.file_map().dom().contains(uri@) && strs_of(v@) == strs_of(
                    self.file_map()[uri@].env_vars@,
                ),
                None => !self.file_map().dom().contains(uri@),
            },
    {
        match self.files.get(&uri.to_string()) {
            Some(e) => Some(copy_strings(&e.env_vars)),
            None => None,
        }
    }

    /// How many files are indexed, and how many distinct variables they read.
    pub fn stats(&self) -> (s: IndexStats)
        requires
            self.wf(),
        ensures
            s.total_files == self.file_map().dom().len(),
            s.total_env_vars == vars_read(self.file_map()).len(),
    {
        let vars = self.all_env_vars();
        proof {
            strs_of(vars@).unique_seq_to_set();
            assert(strs_of(vars@).to_set() =~= vars_read(self.file_map()));
        }
        IndexStats { total_files: self.files.len(), total_env_vars: vars.len() }
    }

    /// Records `entry` for `uri`, replacing what was recorded.
    pub fn update_file(&mut self, uri: &str, entry: FileIndexEntry)
        requires
            old(self).wf(),
        ensures
            final(self).wf(),
            final(self).file_map() == old(self).file_map().insert(uri@, entry),
            final(self).cache_map() == old(self).cache_map(),
            final(self).dependency_map() == old(self).dependency_map(),
            final(self).dirty_set() == old(self).dirty_set(),
    {
        self.files.insert(uri.to_string(), entry);
    }

    /// Forgets `uri`.
    pub fn remove_file(&mut self, uri: &str)
        requires
            old(self).wf(),
        ensures
            final(self).wf(),
            final(self).file_map() == old(self).file_map().remove(uri@),
            final(self).cache_map() == old(self).cache_map(),
            final(self).dependency_map() == old(self).dependency_map(),
            final(self).dirty_set() == old(self).dirty_set(),
    {
        self.files.remove(&uri.to_string());
    }

    /// Empties the index: files, resolutions, dependencies and dirty files.
    pub fn clear(&mut self)
        requires
            old(self).wf(),
        ensures
            final(self).wf(),
            final(self).file_map() == Map::<Seq<char>, FileIndexEntry>::empty(),
            final(self).cache_map() == Map::<(Seq<char>, Seq<char>), Option<String>>::empty(),
            final(self).dependency_map() == Map::<Seq<char>, Vec<String>>::empty(),
            final(self).dirty_set() == Set::<Seq<char>>::empty(),
            final(self).spec_indexing() == old(self).spec_indexing(),
            final(self).spec_progress() == old(self).spec_progress(),
    {
        self.files.clear();
        self.module_cache.clear();
        self.dependencies.clear();
        self.dirty.clear();
        assert(self.dirty.map().dom() =~= Set::<Seq<char>>::empty());
    }

    /// How `specifier`, imported by `importer`, was resolved, where that is
    /// cached: `Some(None)` records that it did not resolve.
    pub fn cached_module_resolution(&self, importer: &str, specifier: &str) -> (r: Option<
        Option<String>,
    >)
        requires
            self.wf(),
        ensures
            match r {
                Some(v) => self.cache_map().dom().contains((importer@, specifier@)) && strs_opt(v)
                    == strs_opt(self.cache_map()[(importer@, specifier@)]),
                None => !self.cache_map().dom().contains((importer@, specifier@)),
            },
    {
        let key = (importer.to_string(), specifier.to_string());
        match self.module_cache.get(&key) {
            Some(v) => Some(
                match v {
                    Some(s) => Some(s.clone()),
                    None => None,
                },
            ),
            None => None,
        }
    }

    /// Caches how `specifier`, imported by `importer`, was resolved.
    pub fn cache_module_resolution(&mut self, importer: &str, specifier: &str, resolved: Option<String>)
        requires
            old(self).wf(),
        ensures
            final(self).wf(),
            final(self).cache_map() == old(self).cache_map().insert(
                (importer@, specifier@),
                resolved,
            ),
            final(self).file_map() == old(self).file_map(),
            final(self).dependency_map() == old(self).dependency_map(),
            final(self).dirty_set() == old(self).dirty_set(),
    {
        self.module_cache.insert((importer.to_string(), specifier.to_string()), resolved);
    }

    /// Drops the cached resolutions that involve `changed`.
    pub fn invalidate_resolution_cache(&mut self, changed: &str)
        requires
            old(self).wf(),
        ensures
            final(self).wf(),
            final(self).cache_map() == cache_without(old(self).cache_map(), changed@),
            final(self).file_map() == old(self).file_map(),
            final(self).dependency_map() == old(self).dependency_map(),
            final(self).dirty_set() == old(self).dirty_set(),
    {
        proof {
            self.module_cache.lemma_entries();
        }
        let ghost old_map = self.module_cache.map();
        let ghost es = self.module_cache.entries@;
        let mut kept: KeyedMap<(String, String), Option<String>> = KeyedMap::new();
        let mut i: usize = 0;
        while i < self.module_cache.entries.len()
            invariant
                es == self.module_cache.entries@,
                old_map == self.module_cache.map(),
                self.module_cache.wf(),
                kept.wf(),
                0 <= i <= es.len(),
                forall|j: int| 0 <= j < es.len() ==> old_map[#[trigger] key_views(es)[j]] == es[j].1,
                forall|k: (Seq<char>, Seq<char>)|
                    kept.map().dom().contains(k) <==> (key_views(es).take(i as int).contains(k)
                        && k.0 != changed@ && !(old_map[k] matches Some(r) && r@ == changed@)),
                forall|k: (Seq<char>, Seq<char>)|
                    #[trigger] kept.map().dom().contains(k) ==> kept.map()[k] == old_map[k],
            decreases es.len() - i,
        {
            let e = &self.module_cache.entries[i];
            let involves = str_eq(e.0.0.as_str(), changed) || match &e.1 {
                Some(r) => str_eq(r.as_str(), changed),
                None => false,
            };
            proof {
                assert(key_views(es)[i as int] == es[i as int].0@);
                assert(key_views(es).take(i + 1) =~= key_views(es).take(i as int).push(
                    key_views(es)[i as int],
                ));
            }
            if !involves {
                let v = match &e.1 {
                    Some(r) => Some(r.clone()),
                    None => None,
                };
                let k = e.0.key_clone();
                kept.insert(k, v);
                assert(v == old_map[key_views(es)[i as int]]);
            }
            proof {
                assert forall|k: (Seq<char>, Seq<char>)| kept.map().dom().contains(k) <==> (key_views(
                    es,
                ).take(i + 1).contains(k) && k.0 != changed@ && !(old_map[k] matches Some(r) && r@
                    == changed@)) by {
                    crate::text::lemma_push_contains(
                        key_views(es).take(i as int),
                        key_views(es)[i as int],
                        k,
                    );
                }
            }
            i += 1;
        }
        proof {
            assert(key_views(es).take(es.len() as int) =~= key_views(es));
            assert(kept.map() =~= cache_without(old_map, changed@));
        }
        self.module_cache = kept;
    }

    /// How many resolutions are cached.
    pub fn module_cache_len(&self) -> (n: usize)
        requires
            self.wf(),
        ensures
            n == self.cache_map().dom().len(),
    {
        self.module_cache.len()
    }

    /// The files that `uri` imports.
    pub fn get_dependencies(&self, uri: &str) -> (r: Vec<String>)
        requires
            self.wf(),
        ensures
            self.dependency_map().dom().contains(uri@) ==> strs_of(r@) == strs_of(
                self.dependency_map()[uri@]@,
            ),
            !self.dependency_map().dom().contains(uri@) ==> r@.len() == 0,
    {
        match self.dependencies.get(&uri.to_string()) {
            Some(d) => copy_strings(d),
            None => Vec::new(),
        }
    }

    /// The files that import `uri`, each once.
    pub fn get_dependents(&self, uri: &str) -> (r: Vec<String>)
        requires
            self.wf(),
        ensures
            strs_of(r@).no_duplicates(),
            forall|u: Seq<char>|
                strs_of(r@).contains(u) <==> dependents_of(self.dependency_map(), uri@).contains(u),
    {
        proof {
            self.dependencies.lemma_entries();
        }
        let ghost ks = key_views(self.dependencies.entries@);
        let mut r: Vec<String> = Vec::new();
        let mut i: usize = 0;
        while i < self.dependencies.entries.len()
            invariant
                self.wf(),
                ks == key_views(self.dependencies.entries@),
                0 <= i <= self.dependencies.entries.len(),
                strs_of(r@).no_duplicates(),
                forall|u: Seq<char>|
                    strs_of(r@).contains(u) <==> (ks.take(i as int).contains(u) && strs_of(
                        self.dependency_map()[u]@,
                    ).contains(uri@)),
                forall|j: int|
                    0 <= j < self.dependencies.entries@.len() ==> self.dependency_map()[
                        #[trigger] ks[j]] == self.dependencies.entries@[j].1,
            decreases self.dependencies.entries.len() - i,
        {
            let ghost before = strs_of(r@);
            assert(ks.take(i + 1) =~= ks.take(i as int).push(ks[i as int]));
            assert(ks[i as int] == self.dependencies.entries@[i as int].0@);
            if string_in(&self.dependencies.entries[i].1, uri) {
                proof {
                    if before.contains(ks[i as int]) {
                        let j = choose|j: int|
                            0 <= j < i && ks.take(i as int)[j] == ks[i as int];
                        assert(ks[j] == ks[i as int]);
                    }
                }
                r.push(self.dependencies.entries[i].0.clone());
                proof {
                    assert(strs_of(r@) =~= before.push(ks[i as int]));
                    assert forall|a: int, b: int|
                        0 <= a < b < strs_of(r@).len() implies strs_of(r@)[a] != strs_of(
                        r@,
                    )[b] by {
                        if b == before.len() {
                            if strs_of(r@)[a] == strs_of(r@)[b] {
                                assert(before.contains(ks[i as int]));
                            }
                        }
                    }
                    assert forall|u: Seq<char>| strs_of(r@).contains(u) <==> (ks.take(
                        i + 1,
                    ).contains(u) && strs_of(self.dependency_map()[u]@).contains(uri@)) by {
                        crate::text::lemma_push_contains(before, ks[i as int], u);
                        crate::text::lemma_push_contains(ks.take(i as int), ks[i as int], u);
                    }
                }
            } else {
                proof {
                    assert forall|u: Seq<char>| strs_of(r@).contains(u) <==> (ks.take(
                        i + 1,
                    ).contains(u) && strs_of(self.dependency_map()[u]@).contains(uri@)) by {
                        crate::text::lemma_push_contains(ks.take(i as int), ks[i as int], u);
                    }
                }
            }
            i += 1;
        }
        proof {
            assert(ks.take(self.dependencies.entries.len() as int) =~= ks);
        }
        r
    }

    /// Records that `file` imports `dependencies`.
    pub fn update_dependency_graph(&mut self, file: &str, dependencies: Vec<String>)
        requires
            old(self).wf(),
        ensures
            final(self).wf(),
            final(self).dependency_map() == old(self).dependency_map().insert(file@, dependencies),
            final(self).file_map() == old(self).file_map(),
            final(self).cache_map() == old(self).cache_map(),
            final(self).dirty_set() == old(self).dirty_set(),
    {
        self.dependencies.insert(file.to_string(), dependencies);
    }

    /// After `changed` changed: drops the resolutions that involve it and
    /// marks every file that imports it as needing analysis again.
    pub fn invalidate_for_file_change(&mut self, changed: &str)
        requires
            old(self).wf(),
        ensures
            final(self).wf(),
            final(self).cache_map() == cache_without(old(self).cache_map(), changed@),
            final(self).dirty_set() == old(self).dirty_set().union(
                dependents_of(old(self).dependency_map(), changed@),
            ),
            final(self).file_map() == old(self).file_map(),
            final(self).dependency_map() == old(self).dependency_map(),
    {
        self.invalidate_resolution_cache(changed);
        let dependents = self.get_dependents(changed);
        let ghost start = self.dirty_set();
        let mut i: usize = 0;
        while i < dependents.len()
            invariant
                self.wf(),
                0 <= i <= dependents.len(),
                self.dirty_set() == start.union(strs_of(dependents@).take(i as int).to_set()),
                self.cache_map() == cache_without(old(self).cache_map(), changed@),
                self.file_map() == old(self).file_map(),
                self.dependency_map() == old(self).dependency_map(),
            decreases dependents.len() - i,
        {
            self.dirty.insert(dependents[i].clone(), ());
            proof {
                assert(strs_of(dependents@).take(i + 1) =~= strs_of(dependents@).take(i as int).push(
                    dependents@[i as int]@,
                ));
                assert forall|u: Seq<char>| self.dirty_set().contains(u) <==> start.union(
                    strs_of(dependents@).take(i + 1).to_set(),
                ).contains(u) by {
                    crate::text::lemma_push_contains(
                        strs_of(dependents@).take(i as int),
                        dependents@[i as int]@,
                        u,
                    );
                }
                assert(self.dirty_set() =~= start.union(strs_of(dependents@).take(i + 1).to_set()));
            }
            i += 1;
        }
        proof {
            assert(strs_of(dependents@).take(dependents.len() as int) =~= strs_of(dependents@));
            assert(strs_of(dependents@).to_set() =~= dependents_of(
                old(self).dependency_map(),
                changed@,
            ));
        }
    }

    /// The files that need analysing again, each once.
    pub fn get_dirty_files(&self) -> (r: Vec<String>)
        requires
            self.wf(),
        ensures
            strs_of(r@).no_duplicates(),
            forall|u: Seq<char>| strs_of(r@).contains(u) <==> self.dirty_set().contains(u),
    {
        keys_of(&self.dirty)
    }

    /// Marks `uri` as analysed.
    pub fn clear_dirty(&mut self, uri: &str)
        requires
            old(self).wf(),
        ensures
            final(self).wf(),
            final(self).dirty_set() == old(self).dirty_set().remove(uri@),
            final(self).file_map() == old(self).file_map(),
            final(self).cache_map() == old(self).cache_map(),
            final(self).dependency_map() == old(self).dependency_map(),
    {
        self.dirty.remove(&uri.to_string());
        assert(self.dirty_set() =~= old(self).dirty_set().remove(uri@));
    }

    /// Whether any file needs analysing again.
    pub fn has_dirty_files(&self) -> (b: bool)
        requires
            self.wf(),
        ensures
            b == (self.dirty_set() != Set::<Seq<char>>::empty()),
    {
        proof {
            self.dirty.lemma_entries();
        }
        let n = self.dirty.len();
        proof {
            if n == 0 {
                assert(self.dirty_set() =~= Set::<Seq<char>>::empty());
            } else {
                assert(self.dirty_set().len() > 0);
            }
        }
        n > 0
    }

    /// Whether the workspace is being indexed.
    pub fn is_indexing(&self) -> (b: bool)
        ensures
            b == self.spec_indexing(),
    {
        self.indexing
    }

    /// How far indexing has come, in percent.
    pub fn indexing_progress(&self) -> (p: u8)
        requires
            self.wf(),
        ensures
            p == self.spec_progress(),
            p <= 100,
    {
        self.progress
    }

    /// Starts or ends indexing; starting resets the progress.
    pub fn set_indexing(&mut self, indexing: bool)
        requires
            old(self).wf(),
        ensures
            final(self).wf(),
            final(self).spec_indexing() == indexing,
            final(self).spec_progress() == if indexing {
                0
            } else {
                old(self).spec_progress()
            },
            final(self).file_map() == old(self).file_map(),
            final(self).cache_map() == old(self).cache_map(),
            final(self).dependency_map() == old(self).dependency_map(),
            final(self).dirty_set() == old(self).dirty_set(),
    {
        self.indexing = indexing;
        if indexing {
            self.progress = 0;
        }
    }

    /// Records the indexing progress, capped at 100 percent.
    pub fn set_indexing_progress(&mut self, percent: u8)
        requires
            old(self).wf(),
        ensures
            final(self).wf(),
            final(self).spec_progress() == if percent > 100 {
                100
            } else {
                percent
            },
            final(self).spec_indexing() == old(self).spec_indexing(),
            final(self).file_map() == old(self).file_map(),
            final(self).cache_map() == old(self).cache_map(),
            final(self).dependency_map() == old(self).dependency_map(),
            final(self).dirty_set() == old(self).dirty_set(),
    {
        self.progress = if percent > 100 {
            100
        } else {
            percent
        };
    }
}

/// The view of an optional string.
pub open spec fn strs_opt(o: Option<String>) -> Option<Seq<char>> {
    match o {
        Some(s) => Some(s@),
        None => None,
    }
}

} // verus!

verus! {

/// Resolves import specifiers of the workspace's files.
#[derive(Debug, Clone)]
pub struct ModuleResolver {
    root: String,
}

impl ModuleResolver {
    pub closed spec fn spec_root(&self) -> Seq<char> {
        self.root@
    }

    /// A resolver for the workspace rooted at `root`.
    pub fn new(root: &str) -> (r: Self)
        ensures
            r.spec_root() == root@,
    {
        ModuleResolver { root: root.to_string() }
    }

    /// The root of the workspace.
    pub fn workspace_root(&self) -> (r: &str)
        ensures
            r@ == self.spec_root(),
    {
        self.root.as_str()
    }
}

/// Walks the workspace and fills the index.
#[derive(Debug, Clone)]
pub struct WorkspaceIndexer {
    root: String,
}

impl WorkspaceIndexer {
    pub closed spec fn spec_root(&self) -> Seq<char> {
        self.root@
    }

    /// An indexer for the workspace rooted at `root`.
    pub fn new(root: &str) -> (r: Self)
        ensures
            r.spec_root() == root@,
    {
        WorkspaceIndexer { root: root.to_string() }
    }

    /// The root of the workspace.
    pub fn workspace_root(&self) -> (r: &str)
        ensures
            r@ == self.spec_root(),
    {
        self.root.as_str()
    }
}

/// Reading a file's variables after recording them gives them back, and a
/// file that reads `name` is among the files that read it.
pub proof fn law_update_then_query(
    files: Map<Seq<char>, FileIndexEntry>,
    uri: Seq<char>,
    entry: FileIndexEntry,
    name: Seq<char>,
)
    ensures
        files_reading(files.insert(uri, entry), name).contains(uri) <==> strs_of(
            entry.env_vars@,
        ).contains(name),
        forall|u: Seq<char>|
            u != uri ==> (files_reading(files.insert(uri, entry), name).contains(u)
                <==> files_reading(files, name).contains(u)),
{
}

/// A removed file reads nothing any more; the other files are unaffected.
pub proof fn law_remove_then_absent(files: Map<Seq<char>, FileIndexEntry>, uri: Seq<char>, name: Seq<char>)
    ensures
        !files_reading(files.remove(uri), name).contains(uri),
        forall|u: Seq<char>|
            u != uri ==> (files_reading(files.remove(uri), name).contains(u) <==> files_reading(
                files,
                name,
            ).contains(u)),
{
}

/// Recording that `file` imports `deps` makes `file` a dependent of each of
/// them, and of nothing else.
pub proof fn law_dependency_edges(deps: Map<Seq<char>, Vec<String>>, file: Seq<char>, imports: Vec<String>, target: Seq<char>)
    ensures
        dependents_of(deps.insert(file, imports), target).contains(file) <==> strs_of(
            imports@,
        ).contains(target),
{
}

/// After dropping the resolutions that involve a changed file, none of the
/// cached resolutions imports from it or resolves to it.
pub proof fn law_invalidated_cache_forgets(
    cache: Map<(Seq<char>, Seq<char>), Option<String>>,
    changed: Seq<char>,
    key: (Seq<char>, Seq<char>),
)
    requires
        cache_without(cache, changed).dom().contains(key),
    ensures
        key.0 != changed,
        !(cache_without(cache, changed)[key] matches Some(r) && r@ == changed),
        cache.dom().contains(key) && cache[key] == cache_without(cache, changed)[key],
{
}

} // verus!
