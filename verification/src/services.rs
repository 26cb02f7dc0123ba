//! The services the request handlers use: one over the workspace index, one
//! over the open documents.
use crate::documents::{apply_changes, doc_view, DocumentManager, DocumentState, DocumentView, TextChange};
use crate::text::strs_of;
use crate::workspace::{
    cache_without, dependents_of, files_reading, strs_opt, vars_read, FileIndexEntry, IndexStats,
    ModuleResolver, WorkspaceIndex, WorkspaceIndexer,
};
use vstd::prelude::*;

verus! {

/// How long resolving variables may take before it is given up, in seconds.
pub const RESOLUTION_TIMEOUT_SECS: u64 = 5;

/// How long refreshing the sources may take before it is given up, in
/// seconds.
pub const REFRESH_TIMEOUT_SECS: u64 = 10;

/// The workspace operations: the index, the indexer and the import
/// resolver together.
#[derive(Debug, Clone)]
pub struct WorkspaceService {
    index: WorkspaceIndex,
    indexer: WorkspaceIndexer,
    module_resolver: ModuleResolver,
}

impl WorkspaceService {
    pub closed spec fn wf(&self) -> bool {
        self.index.wf()
    }

    /// The index the service works on.
    pub closed spec fn spec_index(&self) -> WorkspaceIndex {
        self.index
    }

    pub closed spec fn spec_root(&self) -> Seq<char> {
        self.indexer.spec_root()
    }

    pub closed spec fn spec_resolver_root(&self) -> Seq<char> {
        self.module_resolver.spec_root()
    }

    /// A service over `index`, indexed by `indexer` and resolving imports
    /// with `module_resolver`.
    pub fn new(index: WorkspaceIndex, indexer: WorkspaceIndexer, module_resolver: ModuleResolver) -> (s:
        Self)
        requires
            index.wf(),
        ensures
            s.wf(),
            s.spec_index() == index,
            s.spec_root() == indexer.spec_root(),
            s.spec_resolver_root() == module_resolver.spec_root(),
    {
        WorkspaceService { index, indexer, module_resolver }
    }

    /// The workspace index.
    pub fn index(&self) -> (r: &WorkspaceIndex)
        ensures
            *r == self.spec_index(),
    {
        &self.index
    }

    /// The indexer.
    pub fn indexer(&self) -> (r: &WorkspaceIndexer)
        ensures
            r.spec_root() == self.spec_root(),
    {
        &self.indexer
    }

    /// The import resolver.
    pub fn module_resolver(&self) -> (r: &ModuleResolver)
        ensures
            r.spec_root() == self.spec_resolver_root(),
    {
        &self.module_resolver
    }

    /// The files that read `name`, each once.
    pub fn files_for_env_var(&self, name: &str) -> (r: Vec<String>)
        requires
            self.wf(),
        ensures
            strs_of(r@).no_duplicates(),
            forall|u: Seq<char>|
                strs_of(r@).contains(u) <==> files_reading(self.spec_index().file_map(), name@).contains(
                    u,
                ),
    {
        self.index.files_for_env_var(name)
    }

    /// Every variable that some file reads, each once.
    pub fn all_env_vars(&self) -> (r: Vec<String>)
        requires
            self.wf(),
        ensures
            strs_of(r@).no_duplicates(),
            forall|n: Seq<char>|
                strs_of(r@).contains(n) <==> vars_read(self.spec_index().file_map()).contains(n),
    {
        self.index.all_env_vars()
    }

    /// Whether `uri` is indexed.
    pub fn is_file_indexed(&self, uri: &str) -> (b: bool)
        requires
            self.wf(),
        ensures
            b == self.spec_index().file_map().dom().contains(uri@),
    {
        self.index.is_file_indexed(uri)
    }

    /// The variables `uri` reads, where it is indexed.
    pub fn env_vars_in_file(&self, uri: &str) -> (r: Option<Vec<String>>)
        requires
            self.wf(),
        ensures
            match r {
                Some(v) => self.spec_index().file_map().dom().contains(uri@) && strs_of(v@)
                    == strs_of(self.spec_index().file_map()[uri@].env_vars@),
                None => !self.spec_index().file_map().dom().contains(uri@),
            },
    {
        self.index.env_vars_in_file(uri)
    }

    /// Counts over the index.
    pub fn stats(&self) -> (s: IndexStats)
        requires
            self.wf(),
        ensures
            s.total_files == self.spec_index().file_map().dom().len(),
            s.total_env_vars == vars_read(self.spec_index().file_map()).len(),
    {
        self.index.stats()
    }

    /// Records `entry` for `uri`.
    pub fn update_file(&mut self, uri: &str, entry: FileIndexEntry)
        requires
            old(self).wf(),
        ensures
            final(self).wf(),
            final(self).spec_index().file_map() == old(self).spec_index().file_map().insert(
                uri@,
                entry,
            ),
            final(self).spec_index().cache_map() == old(self).spec_index().cache_map(),
            final(self).spec_index().dependency_map() == old(self).spec_index().dependency_map(),
            final(self).spec_index().dirty_set() == old(self).spec_index().dirty_set(),
    {
        self.index.update_file(uri, entry);
    }

    /// Forgets `uri`.
    pub fn remove_file(&mut self, uri: &str)
        requires
            old(self).wf(),
        ensures
            final(self).wf(),
            final(self).spec_index().file_map() == old(self).spec_index().file_map().remove(uri@),
            final(self).spec_index().cache_map() == old(self).spec_index().cache_map(),
            final(self).spec_index().dependency_map() == old(self).spec_index().dependency_map(),
            final(self).spec_index().dirty_set() == old(self).spec_index().dirty_set(),
    {
        self.index.remove_file(uri);
    }

    /// Empties the index.
    pub fn clear(&mut self)
        requires
            old(self).wf(),
        ensures
            final(self).wf(),
            final(self).spec_index().file_map() == Map::<Seq<char>, FileIndexEntry>::empty(),
            final(self).spec_index().cache_map() == Map::<
                (Seq<char>, Seq<char>),
                Option<String>,
            >::empty(),
            final(self).spec_index().dependency_map() == Map::<Seq<char>, Vec<String>>::empty(),
            final(self).spec_index().dirty_set() == Set::<Seq<char>>::empty(),
    {
        self.index.clear();
    }

    /// The cached resolution of `specifier` imported by `importer`.
    pub fn cached_module_resolution(&self, importer: &str, specifier: &str) -> (r: Option<
        Option<String>,
    >)
        requires
            self.wf(),
        ensures
            match r {
                Some(v) => self.spec_index().cache_map().dom().contains((importer@, specifier@))
                    && strs_opt(v) == strs_opt(
                    self.spec_index().cache_map()[(importer@, specifier@)],
                ),
                None => !self.spec_index().cache_map().dom().contains((importer@, specifier@)),
            },
    {
        self.index.cached_module_resolution(importer, specifier)
    }

    /// Caches the resolution of `specifier` imported by `importer`.
    pub fn cache_module_resolution(&mut self, importer: &str, specifier: &str, resolved: Option<String>)
        requires
            old(self).wf(),
        ensures
            final(self).wf(),
            final(self).spec_index().cache_map() == old(self).spec_index().cache_map().insert(
                (importer@, specifier@),
                resolved,
            ),
            final(self).spec_index().file_map() == old(self).spec_index().file_map(),
            final(self).spec_index().dependency_map() == old(self).spec_index().dependency_map(),
            final(self).spec_index().dirty_set() == old(self).spec_index().dirty_set(),
    {
        self.index.cache_module_resolution(importer, specifier, resolved);
    }

    /// Drops the cached resolutions that involve `changed`.
    pub fn invalidate_resolution_cache(&mut self, changed: &str)
        requires
            old(self).wf(),
        ensures
            final(self).wf(),
            final(self).spec_index().cache_map() == cache_without(
                old(self).spec_index().cache_map(),
                changed@,
            ),
            final(self).spec_index().file_map() == old(self).spec_index().file_map(),
            final(self).spec_index().dependency_map() == old(self).spec_index().dependency_map(),
            final(self).spec_index().dirty_set() == old(self).spec_index().dirty_set(),
    {
        self.index.invalidate_resolution_cache(changed);
    }

    /// How many resolutions are cached.
    pub fn module_cache_len(&self) -> (n: usize)
        requires
            self.wf(),
        ensures
            n == self.spec_index().cache_map().dom().len(),
    {
        self.index.module_cache_len()
    }

    /// The files `uri` imports.
    pub fn get_dependencies(&self, uri: &str) -> (r: Vec<String>)
        requires
            self.wf(),
        ensures
            self.spec_index().dependency_map().dom().contains(uri@) ==> strs_of(r@) == strs_of(
                self.spec_index().dependency_map()[uri@]@,
            ),
            !self.spec_index().dependency_map().dom().contains(uri@) ==> r@.len() == 0,
    {
        self.index.get_dependencies(uri)
    }

    /// The files that import `uri`, each once.
    pub fn get_dependents(&self, uri: &str) -> (r: Vec<String>)
        requires
            self.wf(),
        ensures
            strs_of(r@).no_duplicates(),
            forall|u: Seq<char>|
                strs_of(r@).contains(u) <==> dependents_of(
                    self.spec_index().dependency_map(),
                    uri@,
                ).contains(u),
    {
        self.index.get_dependents(uri)
    }

    /// Records that `file` imports `dependencies`.
    pub fn update_dependency_graph(&mut self, file: &str, dependencies: Vec<String>)
        requires
            old(self).wf(),
        ensures
            final(self).wf(),
            final(self).spec_index().dependency_map() == old(
                self,
            ).spec_index().dependency_map().insert(file@, dependencies),
            final(self).spec_index().dirty_set() == old(self).spec_index().dirty_set(),
            final(self).spec_index().file_map() == old(self).spec_index().file_map(),
            final(self).spec_index().cache_map() == old(self).spec_index().cache_map(),
    {
        self.index.update_dependency_graph(file, dependencies);
    }

    /// After `changed` changed: drops its resolutions and marks the files
    /// that import it as needing analysis.
    pub fn invalidate_for_file_change(&mut self, changed: &str)
        requires
            old(self).wf(),
        ensures
            final(self).wf(),
            final(self).spec_index().cache_map() == cache_without(
                old(self).spec_index().cache_map(),
                changed@,
            ),
            final(self).spec_index().dirty_set() == old(self).spec_index().dirty_set().union(
                dependents_of(old(self).spec_index().dependency_map(), changed@),
            ),
            final(self).spec_index().dependency_map() == old(self).spec_index().dependency_map(),
    {
        self.index.invalidate_for_file_change(changed);
    }

    /// The files that need analysing again, each once.
    pub fn get_dirty_files(&self) -> (r: Vec<String>)
        requires
            self.wf(),
        ensures
            strs_of(r@).no_duplicates(),
            forall|u: Seq<char>|
                strs_of(r@).contains(u) <==> self.spec_index().dirty_set().contains(u),
    {
        self.index.get_dirty_files()
    }

    /// Marks `uri` as analysed.
    pub fn clear_dirty(&mut self, uri: &str)
        requires
            old(self).wf(),
        ensures
            final(self).wf(),
            final(self).spec_index().dirty_set() == old(self).spec_index().dirty_set().remove(uri@),
            final(self).spec_index().dependency_map() == old(self).spec_index().dependency_map(),
            final(self).spec_index().file_map() == old(self).spec_index().file_map(),
            final(self).spec_index().cache_map() == old(self).spec_index().cache_map(),
    {
        self.index.clear_dirty(uri);
    }

    /// Whether any file needs analysing again.
    pub fn has_dirty_files(&self) -> (b: bool)
        requires
            self.wf(),
        ensures
            b == (self.spec_index().dirty_set() != Set::<Seq<char>>::empty()),
    {
        self.index.has_dirty_files()
    }

    /// The root of the workspace.
    pub fn workspace_root(&self) -> (r: &str)
        ensures
            r@ == self.spec_root(),
    {
        self.indexer.workspace_root()
    }

    /// Whether the workspace is being indexed.
    pub fn is_indexing(&self) -> (b: bool)
        ensures
            b == self.spec_index().spec_indexing(),
    {
        self.index.is_indexing()
    }

    /// How far indexing has come, in percent.
    pub fn indexing_progress(&self) -> (p: u8)
        requires
            self.wf(),
        ensures
            p == self.spec_index().spec_progress(),
            p <= 100,
    {
        self.index.indexing_progress()
    }
}

/// The document operations over the open documents.
pub struct DocumentService {
    manager: DocumentManager,
}

impl DocumentService {
    pub closed spec fn wf(&self) -> bool {
        self.manager.wf()
    }

    /// The open documents, by URI.
    pub closed spec fn documents(&self) -> Map<Seq<char>, DocumentView> {
        self.manager.documents()
    }

    /// A service over `manager`.
    pub fn new(manager: DocumentManager) -> (s: Self)
        requires
            manager.wf(),
        ensures
            s.wf(),
            s.documents() == manager.documents(),
    {
        DocumentService { manager }
    }

    /// The document manager.
    pub fn manager(&self) -> (m: &DocumentManager)
        ensures
            m.documents() == self.documents(),
    {
        &self.manager
    }

    /// Opens a document.
    pub fn open(&mut self, uri: String, language_id: String, content: String, version: i32)
        requires
            old(self).wf(),
        ensures
            final(self).wf(),
            final(self).documents() == old(self).documents().insert(
                uri@,
                DocumentView { language_id: language_id@, content: content@, version },
            ),
    {
        self.manager.open(uri, language_id, content, version);
    }

    /// Applies the edits `changes` to an open document.
    pub fn update(&mut self, uri: &str, changes: &Vec<TextChange>, version: i32)
        requires
            old(self).wf(),
        ensures
            final(self).wf(),
            old(self).documents().dom().contains(uri@) ==> final(self).documents() == old(
                self,
            ).documents().insert(
                uri@,
                DocumentView {
                    language_id: old(self).documents()[uri@].language_id,
                    content: apply_changes(old(self).documents()[uri@].content, changes@),
                    version,
                },
            ),
            !old(self).documents().dom().contains(uri@) ==> final(self).documents() == old(
                self,
            ).documents(),
    {
        self.manager.change(uri, changes, version);
    }

    /// Closes a document.
    pub fn close(&mut self, uri: &str)
        requires
            old(self).wf(),
        ensures
            final(self).wf(),
            final(self).documents() == old(self).documents().remove(uri@),
    {
        self.manager.close(uri);
    }

    /// The document open at `uri`.
    pub fn get(&self, uri: &str) -> (r: Option<&DocumentState>)
        requires
            self.wf(),
        ensures
            match r {
                Some(d) => self.documents().dom().contains(uri@) && doc_view(*d)
                    == self.documents()[uri@],
                None => !self.documents().dom().contains(uri@),
            },
    {
        self.manager.get(uri)
    }

    /// The URIs of the open documents, each once.
    pub fn all_uris(&self) -> (r: Vec<String>)
        requires
            self.wf(),
        ensures
            strs_of(r@).no_duplicates(),
            forall|u: Seq<char>| strs_of(r@).contains(u) <==> self.documents().dom().contains(u),
    {
        self.manager.all_uris()
    }

    /// How many documents are open.
    pub fn document_count(&self) -> (n: usize)
        requires
            self.wf(),
        ensures
            n == self.documents().dom().len(),
    {
        self.manager.document_count()
    }
}

} // verus!
