//! The workspace index and the workspace service.
use ecolog_lsp::services::WorkspaceService;
use ecolog_lsp::workspace::{FileIndexEntry, ModuleResolver, WorkspaceIndex, WorkspaceIndexer};

fn create_test_service() -> WorkspaceService {
    let index = WorkspaceIndex::new();
    let indexer = WorkspaceIndexer::new("/test");
    let module_resolver = ModuleResolver::new("/test");
    WorkspaceService::new(index, indexer, module_resolver)
}

fn url(path: &str) -> String {
    format!("file://{}", path)
}

fn make_entry(env_vars: &[&str]) -> FileIndexEntry {
    FileIndexEntry {
        mtime: 0,
        env_vars: env_vars.iter().map(|s| s.to_string()).collect(),
        is_env_file: false,
        path: "/test".to_string(),
    }
}

#[test]
fn test_update_and_query_file() {
    let mut service = create_test_service();
    let uri = url("/test.js");
    service.update_file(&uri, make_entry(&["API_KEY", "DB_URL"]));
    let files = service.files_for_env_var("API_KEY");
    assert_eq!(files.len(), 1);
    assert!(files.contains(&uri));
}

#[test]
fn test_remove_file() {
    let mut service = create_test_service();
    let uri = url("/test.js");
    service.update_file(&uri, make_entry(&["API_KEY"]));
    assert!(!service.files_for_env_var("API_KEY").is_empty());
    service.remove_file(&uri);
    assert!(service.files_for_env_var("API_KEY").is_empty());
}

#[test]
fn test_all_env_vars() {
    let mut service = create_test_service();
    service.update_file(&url("/a.js"), make_entry(&["VAR1", "VAR2"]));
    service.update_file(&url("/b.js"), make_entry(&["VAR3"]));
    let vars = service.all_env_vars();
    assert_eq!(vars.len(), 3);
}

#[test]
fn test_stats() {
    let mut service = create_test_service();
    service.update_file(&url("/a.js"), make_entry(&["VAR1"]));
    service.update_file(&url("/b.js"), make_entry(&["VAR2"]));
    let stats = service.stats();
    assert_eq!(stats.total_files, 2);
    assert_eq!(stats.total_env_vars, 2);
}

#[test]
fn test_module_resolution_cache() {
    let mut service = create_test_service();
    let importer = url("/app.js");
    let resolved = url("/config.js");
    assert!(service.cached_module_resolution(&importer, "./config").is_none());
    service.cache_module_resolution(&importer, "./config", Some(resolved.clone()));
    let cached = service.cached_module_resolution(&importer, "./config");
    assert_eq!(cached, Some(Some(resolved)));
}

#[test]
fn test_dependency_graph() {
    let mut service = create_test_service();
    let app = url("/app.js");
    let config = url("/config.js");
    service.update_dependency_graph(&app, vec![config.clone()]);
    let deps = service.get_dependencies(&app);
    assert!(deps.contains(&config));
    let dependents = service.get_dependents(&config);
    assert!(dependents.contains(&app));
}

#[test]
fn test_dirty_files() {
    let mut service = create_test_service();
    let app = url("/app.js");
    let config = url("/config.js");
    service.update_dependency_graph(&app, vec![config.clone()]);
    service.invalidate_for_file_change(&config);
    assert!(service.has_dirty_files());
    let dirty = service.get_dirty_files();
    assert!(dirty.contains(&app));
    service.clear_dirty(&app);
    assert!(!service.has_dirty_files());
}

#[test]
fn updating_a_file_replaces_its_variables() {
    let mut service = create_test_service();
    let uri = url("/a.js");
    service.update_file(&uri, make_entry(&["OLD"]));
    service.update_file(&uri, make_entry(&["NEW"]));
    assert!(service.files_for_env_var("OLD").is_empty());
    assert_eq!(service.files_for_env_var("NEW"), vec![uri.clone()]);
    assert_eq!(service.stats().total_files, 1);
    assert_eq!(service.env_vars_in_file(&uri), Some(vec!["NEW".to_string()]));
    assert!(service.is_file_indexed(&uri));
}

#[test]
fn a_variable_read_twice_counts_once() {
    let mut service = create_test_service();
    service.update_file(&url("/a.js"), make_entry(&["X", "X"]));
    service.update_file(&url("/b.js"), make_entry(&["X"]));
    assert_eq!(service.all_env_vars(), vec!["X".to_string()]);
    assert_eq!(service.stats().total_env_vars, 1);
}

#[test]
fn invalidation_drops_resolutions_involving_the_file() {
    let mut service = create_test_service();
    let app = url("/app.js");
    let config = url("/config.js");
    let other = url("/other.js");
    service.cache_module_resolution(&app, "./config", Some(config.clone()));
    service.cache_module_resolution(&config, "./x", None);
    service.cache_module_resolution(&other, "./y", Some(app.clone()));
    assert_eq!(service.module_cache_len(), 3);
    service.invalidate_resolution_cache(&config);
    assert_eq!(service.module_cache_len(), 1);
    assert!(service.cached_module_resolution(&other, "./y").is_some());
}

#[test]
fn clear_empties_everything() {
    let mut service = create_test_service();
    service.update_file(&url("/a.js"), make_entry(&["X"]));
    service.cache_module_resolution(&url("/a.js"), "./b", None);
    service.clear();
    assert_eq!(service.stats().total_files, 0);
    assert_eq!(service.module_cache_len(), 0);
    assert!(!service.has_dirty_files());
}

#[test]
fn roots_and_indexing_state() {
    let service = create_test_service();
    assert_eq!(service.workspace_root(), "/test");
    assert_eq!(service.indexer().workspace_root(), "/test");
    assert_eq!(service.module_resolver().workspace_root(), "/test");
    assert!(!service.is_indexing());
    assert_eq!(service.indexing_progress(), 0);
}

#[test]
fn indexing_progress_is_capped() {
    let mut index = WorkspaceIndex::new();
    index.set_indexing(true);
    index.set_indexing_progress(150);
    assert!(index.is_indexing());
    assert_eq!(index.indexing_progress(), 100);
}

#[test]
fn workspace_service_test_clone() {
    let mut service = create_test_service();
    let uri = url("/test.js");

    service.update_file(&uri, make_entry(&["VAR1"]));

    let cloned = service.clone();
    assert!(!cloned.files_for_env_var("VAR1").is_empty());
}
