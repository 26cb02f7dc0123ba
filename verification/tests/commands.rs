//! Parsing of command requests and the JSON replies.
use ecolog_lsp::commands::{
    active_files_reply, env_example_reply, example_names, parse_command, parse_precedence,
    precedence_reply, remote_source_lookup, source_list_reply, unknown_source_reply,
    variable_not_found_reply, variable_reply, workspace_list_reply, CommandRequest, RemoteLookup,
    SourceKind,
};
use ecolog_lsp::json::Json;
use ecolog_lsp::variables::ResolvedEnvVarValue;

fn s(v: &str) -> Json {
    Json::String(v.to_string())
}

fn member<'a>(j: &'a Json, k: &str) -> Option<&'a Json> {
    match j {
        Json::Object(m) => m.iter().find(|(n, _)| n == k).map(|(_, v)| v),
        _ => None,
    }
}

fn text(j: Option<&Json>) -> String {
    match j {
        Some(Json::String(t)) => t.clone(),
        Some(Json::Number(t)) => t.clone(),
        other => panic!("not text: {:?}", other),
    }
}

#[test]
fn unknown_command_is_none() {
    assert!(parse_command("ecolog.nothing", &vec![]).is_none());
}

#[test]
fn set_active_takes_the_string_arguments() {
    let args = vec![s(".env"), Json::Bool(true), s(".env.local")];
    match parse_command("ecolog.file.setActive", &args) {
        Some(CommandRequest::SetActiveFiles { patterns }) => {
            assert_eq!(patterns, vec![".env".to_string(), ".env.local".to_string()])
        }
        _ => panic!("wrong command"),
    }
}

#[test]
fn file_list_reads_path_and_flag() {
    let args = vec![s("/w/a.js"), Json::Bool(true)];
    match parse_command("ecolog.file.list", &args) {
        Some(CommandRequest::ListFiles { file_path, return_all }) => {
            assert_eq!(file_path.as_deref(), Some("/w/a.js"));
            assert!(return_all);
        }
        _ => panic!("wrong command"),
    }
    match parse_command("ecolog.file.list", &vec![]) {
        Some(CommandRequest::ListFiles { file_path, return_all }) => {
            assert!(file_path.is_none());
            assert!(!return_all);
        }
        _ => panic!("wrong command"),
    }
}

#[test]
fn interpolation_defaults_to_enabled() {
    assert!(matches!(
        parse_command("ecolog.interpolation.set", &vec![]),
        Some(CommandRequest::SetInterpolation { enabled: true })
    ));
    assert!(matches!(
        parse_command("ecolog.interpolation.set", &vec![Json::Bool(false)]),
        Some(CommandRequest::SetInterpolation { enabled: false })
    ));
}

#[test]
fn authenticate_keeps_string_credentials() {
    let creds = Json::Object(vec![
        ("token".to_string(), s("abc")),
        ("ttl".to_string(), Json::Number("5".to_string())),
    ]);
    match parse_command("ecolog.source.remote.authenticate", &vec![s("vault"), creds]) {
        Some(CommandRequest::RemoteAuthenticate { provider, credentials }) => {
            assert_eq!(provider.as_deref(), Some("vault"));
            assert_eq!(credentials, Some(vec![("token".to_string(), "abc".to_string())]));
        }
        _ => panic!("wrong command"),
    }
}

#[test]
fn active_files_replies() {
    let cleared = active_files_reply(&vec![]);
    assert_eq!(text(member(&cleared, "message")), "Cleared active file filter");
    let set = active_files_reply(&vec![".env".to_string()]);
    assert!(matches!(member(&set, "patterns"), Some(Json::Array(v)) if v.len() == 1));
}

#[test]
fn example_names_are_sorted_and_unique() {
    let defined = vec!["PORT".to_string(), "API_KEY".to_string()];
    let referenced = vec!["DATABASE_URL".to_string(), "PORT".to_string()];
    assert_eq!(
        example_names(&defined, &referenced),
        vec!["API_KEY".to_string(), "DATABASE_URL".to_string(), "PORT".to_string()]
    );
}

#[test]
fn env_example_content() {
    let reply = env_example_reply(&vec!["A".to_string(), "B".to_string()]);
    assert_eq!(text(member(&reply, "content")), "A=\nB=\n");
    assert_eq!(text(member(&reply, "count")), "2");
    let empty = env_example_reply(&vec![]);
    assert_eq!(
        text(member(&empty, "content")),
        "# No environment variables found in workspace\n"
    );
    assert_eq!(text(member(&empty, "count")), "0");
}

#[test]
fn precedence_parsing_ignores_case() {
    let names = vec!["Shell".to_string(), "FILE".to_string(), "remote".to_string()];
    assert_eq!(
        parse_precedence(&names),
        Ok(vec![SourceKind::Shell, SourceKind::File, SourceKind::Remote])
    );
}

#[test]
fn precedence_parsing_names_the_first_unknown_source() {
    let names = vec!["shell".to_string(), "cloud".to_string(), "nope".to_string()];
    assert_eq!(parse_precedence(&names), Err("cloud".to_string()));
    let reply = unknown_source_reply("cloud");
    assert_eq!(
        text(member(&reply, "error")),
        "Unknown source: cloud. Valid sources: Shell, File, Remote"
    );
}

#[test]
fn precedence_reply_lists_names() {
    let reply = precedence_reply(&vec![SourceKind::File, SourceKind::Shell]);
    match member(&reply, "precedence") {
        Some(Json::Array(v)) => {
            assert_eq!(text(v.first()), "File");
            assert_eq!(text(v.get(1)), "Shell");
        }
        _ => panic!("no precedence"),
    }
}

#[test]
fn source_list_marks_enabled_sources_and_providers() {
    let reply = source_list_reply(&vec![SourceKind::File], (1, 2, 3), &vec!["vault".to_string()]);
    match member(&reply, "sources") {
        Some(Json::Array(rows)) => {
            assert_eq!(rows.len(), 3);
            assert!(matches!(member(&rows[0], "enabled"), Some(Json::Bool(false))));
            assert!(matches!(member(&rows[1], "enabled"), Some(Json::Bool(true))));
            assert_eq!(text(member(&rows[0], "priority")), "100");
            assert_eq!(text(member(&rows[2], "count")), "3");
            assert!(member(&rows[2], "providers").is_some());
            assert!(member(&rows[1], "providers").is_none());
        }
        _ => panic!("no sources"),
    }
}

#[test]
fn variable_replies() {
    let resolved = ResolvedEnvVarValue {
        value: "5432".to_string(),
        source: ".env".to_string(),
        description: None,
    };
    let found = variable_reply("PORT", &resolved);
    assert_eq!(text(member(&found, "value")), "5432");
    assert!(matches!(member(&found, "description"), Some(Json::Null)));
    let missing = variable_not_found_reply("PORT");
    assert_eq!(text(member(&missing, "error")), "Variable 'PORT' not found");
}

#[test]
fn workspace_list_names_the_root_directory() {
    let reply = workspace_list_reply(Some("/home/u/project"));
    match member(&reply, "workspaces") {
        Some(Json::Array(v)) => {
            assert_eq!(text(member(&v[0], "name")), "project");
            assert_eq!(text(member(&v[0], "path")), "/home/u/project");
        }
        _ => panic!("no workspaces"),
    }
    let failed = workspace_list_reply(None);
    match member(&failed, "workspaces") {
        Some(Json::Array(v)) => {
            assert_eq!(text(member(&v[0], "error")), "Failed to get workspace info")
        }
        _ => panic!("no workspaces"),
    }
}

#[test]
fn remote_lookup_prefers_existing_sources() {
    let sources = vec!["aws".to_string(), "vault".to_string()];
    let factories = vec!["vault".to_string(), "doppler".to_string()];
    assert!(matches!(remote_source_lookup(&sources, &factories, "vault"), RemoteLookup::Existing(1)));
    assert!(matches!(remote_source_lookup(&sources, &factories, "doppler"), RemoteLookup::Create));
    assert!(matches!(remote_source_lookup(&sources, &factories, "gcp"), RemoteLookup::Unknown));
}
