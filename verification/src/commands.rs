//! The `workspace/executeCommand` commands: what each command name asks for,
//! read from its JSON arguments, and the JSON replies the server sends back.
//! Carrying a command out (reading the environment, talking to remote
//! providers) happens outside the library, between parsing and replying.
use crate::error::decimal;
use crate::json::{error_reply, strs_items, member, obj1, obj2, obj3, obj4, view_items, view_members, Json, JsonV};
use crate::order::{insert_sorted, strictly_sorted};
use crate::paths::{
    file_name_of, parent_of, path_eq, path_file_name, path_has_prefix, path_parent,
    path_starts_with, path_strip_prefix, same_path, strip_path_prefix,
};
use crate::text::{concat, lemma_push_contains, str_eq, strs_of};
use crate::variables::{
    format_source, spec_format_source, ResolvedEnvVarValue, ResolvedVariable,
};
use vstd::prelude::*;

verus! {

/// A command the server knows, with the arguments it reads.
pub enum CommandRequest {
    SetActiveFiles { patterns: Vec<String> },
    ListEnvVariables { file_path: Option<String> },
    GenerateEnvExample,
    ListFiles { file_path: Option<String>, return_all: bool },
    GetVariable { name: Option<String> },
    ListWorkspaces,
    ListSources,
    SetPrecedence { names: Vec<String> },
    SetRoot { path: Option<String> },
    SetInterpolation { enabled: bool },
    GetInterpolation,
    RemoteList,
    RemoteAuthFields { provider: Option<String> },
    RemoteAuthenticate { provider: Option<String>, credentials: Option<Vec<(String, String)>> },
    RemoteNavigate { provider: Option<String>, level: Option<String>, parent_scope: Option<Json> },
    RemoteSelect { provider: Option<String>, scope: Option<Json> },
    RemoteRefresh { provider: Option<String> },
}

/// The strings among `args`, in order.
pub open spec fn str_args(args: Seq<JsonV>) -> Seq<Seq<char>>
    decreases args.len(),
{
    if args.len() == 0 {
        Seq::empty()
    } else {
        let before = str_args(args.drop_last());
        match args.last() {
            JsonV::Str(s) => before.push(s),
            _ => before,
        }
    }
}

/// Argument `i`, where it is a string.
pub open spec fn arg_str(args: Seq<JsonV>, i: int) -> Option<Seq<char>> {
    if 0 <= i < args.len() {
        match args[i] {
            JsonV::Str(s) => Some(s),
            _ => None,
        }
    } else {
        None
    }
}

/// Argument `i`, where it is a boolean.
pub open spec fn arg_bool(args: Seq<JsonV>, i: int) -> Option<bool> {
    if 0 <= i < args.len() {
        match args[i] {
            JsonV::Bool(b) => Some(b),
            _ => None,
        }
    } else {
        None
    }
}

/// Argument `i`, whatever it is.
pub open spec fn arg_at(args: Seq<JsonV>, i: int) -> Option<JsonV> {
    if 0 <= i < args.len() {
        Some(args[i])
    } else {
        None
    }
}

/// The members of `m` whose value is a string, with that string.
pub open spec fn str_members(m: Seq<(Seq<char>, JsonV)>) -> Seq<(Seq<char>, Seq<char>)>
    decreases m.len(),
{
    if m.len() == 0 {
        Seq::empty()
    } else {
        let before = str_members(m.drop_last());
        match m.last().1 {
            JsonV::Str(s) => before.push((m.last().0, s)),
            _ => before,
        }
    }
}

/// The string members of argument 1, where it is an object.
pub open spec fn arg_credentials(args: Seq<JsonV>) -> Option<Seq<(Seq<char>, Seq<char>)>> {
    if 1 < args.len() {
        match args[1] {
            JsonV::Object(m) => Some(str_members(m)),
            _ => None,
        }
    } else {
        None
    }
}

pub open spec fn opt_string_view(o: Option<String>) -> Option<Seq<char>> {
    match o {
        Some(s) => Some(s@),
        None => None,
    }
}

pub open spec fn opt_json_view(o: Option<Json>) -> Option<JsonV> {
    match o {
        Some(j) => Some(j@),
        None => None,
    }
}

pub open spec fn pairs_view(v: Seq<(String, String)>) -> Seq<(Seq<char>, Seq<char>)> {
    Seq::new(v.len(), |i: int| (v[i].0@, v[i].1@))
}

/// The names of the commands, in the order they are tried.
pub open spec fn command_names() -> Seq<Seq<char>> {
    seq![
        "ecolog.file.setActive"@,
        "ecolog.listEnvVariables"@,
        "ecolog.generateEnvExample"@,
        "ecolog.file.list"@,
        "ecolog.variable.get"@,
        "ecolog.workspace.list"@,
        "ecolog.source.list"@,
        "ecolog.source.setPrecedence"@,
        "ecolog.workspace.setRoot"@,
        "ecolog.interpolation.set"@,
        "ecolog.interpolation.get"@,
        "ecolog.source.remote.list"@,
        "ecolog.source.remote.authFields"@,
        "ecolog.source.remote.authenticate"@,
        "ecolog.source.remote.navigate"@,
        "ecolog.source.remote.select"@,
        "ecolog.source.remote.refresh"@,
    ]
}

/// Whether `r` is what the command `name` asks for, given the arguments `a`.
pub open spec fn parsed_as(name: Seq<char>, a: Seq<JsonV>, r: CommandRequest) -> bool {
    let n = command_names();
    if name == n[0] {
        r matches CommandRequest::SetActiveFiles { patterns } && strs_of(patterns@) == str_args(a)
    } else if name == n[1] {
        r matches CommandRequest::ListEnvVariables { file_path } && opt_string_view(file_path)
            == arg_str(a, 0)
    } else if name == n[2] {
        r is GenerateEnvExample
    } else if name == n[3] {
        r matches CommandRequest::ListFiles { file_path, return_all } && opt_string_view(file_path)
            == arg_str(a, 0) && return_all == (arg_bool(a, 1) == Some(true))
    } else if name == n[4] {
        r matches CommandRequest::GetVariable { name: v } && opt_string_view(v) == arg_str(a, 0)
    } else if name == n[5] {
        r is ListWorkspaces
    } else if name == n[6] {
        r is ListSources
    } else if name == n[7] {
        r matches CommandRequest::SetPrecedence { names } && strs_of(names@) == str_args(a)
    } else if name == n[8] {
        r matches CommandRequest::SetRoot { path } && opt_string_view(path) == arg_str(a, 0)
    } else if name == n[9] {
        r matches CommandRequest::SetInterpolation { enabled } && enabled == (arg_bool(a, 0)
            != Some(false))
    } else if name == n[10] {
        r is GetInterpolation
    } else if name == n[11] {
        r is RemoteList
    } else if name == n[12] {
        r matches CommandRequest::RemoteAuthFields { provider } && opt_string_view(provider)
            == arg_str(a, 0)
    } else if name == n[13] {
        r matches CommandRequest::RemoteAuthenticate { provider, credentials } && opt_string_view(
            provider,
        ) == arg_str(a, 0) && match credentials {
            Some(c) => arg_credentials(a) == Some(pairs_view(c@)),
            None => arg_credentials(a) is None,
        }
    } else if name == n[14] {
        r matches CommandRequest::RemoteNavigate { provider, level, parent_scope }
            && opt_string_view(provider) == arg_str(a, 0) && opt_string_view(level) == arg_str(
            a,
            1,
        ) && opt_json_view(parent_scope) == arg_at(a, 2)
    } else if name == n[15] {
        r matches CommandRequest::RemoteSelect { provider, scope } && opt_string_view(provider)
            == arg_str(a, 0) && opt_json_view(scope) == arg_at(a, 1)
    } else if name == n[16] {
        r matches CommandRequest::RemoteRefresh { provider } && opt_string_view(provider)
            == arg_str(a, 0)
    } else {
        false
    }
}

/// The strings among `args`, in order.
pub fn string_args(args: &Vec<Json>) -> (v: Vec<String>)
    ensures
        strs_of(v@) == str_args(view_items(args@)),
{
    let ghost a = view_items(args@);
    let mut v: Vec<String> = Vec::new();
    let mut i: usize = 0;
    proof {
        assert(a.take(0) =~= Seq::<JsonV>::empty());
        assert(strs_of(v@) =~= str_args(a.take(0)));
    }
    while i < args.len()
        invariant
            a == view_items(args@),
            0 <= i <= args.len(),
            strs_of(v@) == str_args(a.take(i as int)),
        decreases args.len() - i,
    {
        proof {
            assert(a.take(i + 1).drop_last() =~= a.take(i as int));
            assert(a.take(i + 1).last() == args@[i as int]@);
        }
        match &args[i] {
            Json::String(s) => {
                let ghost before = v@;
                v.push(s.clone());
                assert(strs_of(v@) =~= strs_of(before).push(s@));
            },
            _ => {},
        }
        i += 1;
    }
    assert(a.take(args.len() as int) =~= a);
    v
}

/// Argument `i`, where it is a string.
pub fn string_arg(args: &Vec<Json>, i: usize) -> (r: Option<String>)
    ensures
        opt_string_view(r) == arg_str(view_items(args@), i as int),
{
    if i < args.len() {
        match &args[i] {
            Json::String(s) => Some(s.clone()),
            _ => None,
        }
    } else {
        None
    }
}

/// Argument `i`, where it is a boolean.
pub fn bool_arg(args: &Vec<Json>, i: usize) -> (r: Option<bool>)
    ensures
        r == arg_bool(view_items(args@), i as int),
{
    if i < args.len() {
        match &args[i] {
            Json::Bool(b) => Some(*b),
            _ => None,
        }
    } else {
        None
    }
}

/// A copy of argument `i`.
pub fn raw_arg(args: &Vec<Json>, i: usize) -> (r: Option<Json>)
    ensures
        opt_json_view(r) == arg_at(view_items(args@), i as int),
{
    if i < args.len() {
        Some(args[i].deep_copy())
    } else {
        None
    }
}

/// The string members of argument 1, where it is an object.
pub fn credentials_arg(args: &Vec<Json>) -> (r: Option<Vec<(String, String)>>)
    ensures
        match r {
            Some(c) => arg_credentials(view_items(args@)) == Some(pairs_view(c@)),
            None => arg_credentials(view_items(args@)) is None,
        },
{
    if args.len() < 2 {
        return None;
    }
    match &args[1] {
        Json::Object(m) => {
            let ghost mv = view_members(m@);
            let mut out: Vec<(String, String)> = Vec::new();
            let mut i: usize = 0;
            proof {
                assert(mv.take(0) =~= Seq::<(Seq<char>, JsonV)>::empty());
                assert(pairs_view(out@) =~= str_members(mv.take(0)));
            }
            while i < m.len()
                invariant
                    mv == view_members(m@),
                    0 <= i <= m.len(),
                    pairs_view(out@) == str_members(mv.take(i as int)),
                decreases m.len() - i,
            {
                proof {
                    assert(mv.take(i + 1).drop_last() =~= mv.take(i as int));
                    assert(mv.take(i + 1).last() == (m@[i as int].0@, m@[i as int].1@));
                }
                match &m[i].1 {
                    Json::String(s) => {
                        let ghost before = out@;
                        out.push((m[i].0.clone(), s.clone()));
                        assert(pairs_view(out@) =~= pairs_view(before).push((m@[i as int].0@, s@)));
                    },
                    _ => {},
                }
                i += 1;
            }
            assert(mv.take(m.len() as int) =~= mv);
            Some(out)
        },
        _ => None,
    }
}

/// What the command `name` asks for, or `None` for a command the server
/// does not know.
pub fn parse_command(name: &str, args: &Vec<Json>) -> (r: Option<CommandRequest>)
    ensures
        r is None <==> !command_names().contains(name@),
        r matches Some(c) ==> parsed_as(name@, view_items(args@), c),
{
    let ghost n = command_names();
    let r = if str_eq(name, "ecolog.file.setActive") {
        Some(CommandRequest::SetActiveFiles { patterns: string_args(args) })
    } else if str_eq(name, "ecolog.listEnvVariables") {
        Some(CommandRequest::ListEnvVariables { file_path: string_arg(args, 0) })
    } else if str_eq(name, "ecolog.generateEnvExample") {
        Some(CommandRequest::GenerateEnvExample)
    } else if str_eq(name, "ecolog.file.list") {
        let return_all = match bool_arg(args, 1) {
            Some(b) => b,
            None => false,
        };
        Some(CommandRequest::ListFiles { file_path: string_arg(args, 0), return_all })
    } else if str_eq(name, "ecolog.variable.get") {
        Some(CommandRequest::GetVariable { name: string_arg(args, 0) })
    } else if str_eq(name, "ecolog.workspace.list") {
        Some(CommandRequest::ListWorkspaces)
    } else if str_eq(name, "ecolog.source.list") {
        Some(CommandRequest::ListSources)
    } else if str_eq(name, "ecolog.source.setPrecedence") {
        Some(CommandRequest::SetPrecedence { names: string_args(args) })
    } else if str_eq(name, "ecolog.workspace.setRoot") {
        Some(CommandRequest::SetRoot { path: string_arg(args, 0) })
    } else if str_eq(name, "ecolog.interpolation.set") {
        let enabled = match bool_arg(args, 0) {
            Some(b) => b,
            None => true,
        };
        Some(CommandRequest::SetInterpolation { enabled })
    } else if str_eq(name, "ecolog.interpolation.get") {
        Some(CommandRequest::GetInterpolation)
    } else if str_eq(name, "ecolog.source.remote.list") {
        Some(CommandRequest::RemoteList)
    } else if str_eq(name, "ecolog.source.remote.authFields") {
        Some(CommandRequest::RemoteAuthFields { provider: string_arg(args, 0) })
    } else if str_eq(name, "ecolog.source.remote.authenticate") {
        Some(
            CommandRequest::RemoteAuthenticate {
                provider: string_arg(args, 0),
                credentials: credentials_arg(args),
            },
        )
    } else if str_eq(name, "ecolog.source.remote.navigate") {
        Some(
            CommandRequest::RemoteNavigate {
                provider: string_arg(args, 0),
                level: string_arg(args, 1),
                parent_scope: raw_arg(args, 2),
            },
        )
    } else if str_eq(name, "ecolog.source.remote.select") {
        Some(
            CommandRequest::RemoteSelect {
                provider: string_arg(args, 0),
                scope: raw_arg(args, 1),
            },
        )
    } else if str_eq(name, "ecolog.source.remote.refresh") {
        Some(CommandRequest::RemoteRefresh { provider: string_arg(args, 0) })
    } else {
        None
    };
    proof {
        if r is None {
            assert forall|k: int| 0 <= k < n.len() implies n[k] != name@ by {}
        } else {
            assert(n.contains(name@));
        }
    }
    r
}

pub open spec fn jstr(s: Seq<char>) -> JsonV {
    JsonV::Str(s)
}

pub open spec fn jnum(n: nat) -> JsonV {
    JsonV::Number(decimal(n))
}

pub open spec fn jerror(message: Seq<char>) -> JsonV {
    JsonV::Object(seq![("error"@, JsonV::Str(message))])
}

/// The reply to a file command while the file source is switched off.
pub fn file_source_disabled_reply() -> (r: Json)
    ensures
        r@ == jerror("File source is not enabled in configuration"@),
{
    error_reply("File source is not enabled in configuration")
}

/// The reply to `ecolog.file.setActive` once the active files are set to
/// `patterns` (cleared where there are none).
pub fn active_files_reply(patterns: &Vec<String>) -> (r: Json)
    ensures
        patterns@.len() == 0 ==> r@ == JsonV::Object(
            seq![("success"@, JsonV::Bool(true)), ("message"@, jstr("Cleared active file filter"@))],
        ),
        patterns@.len() > 0 ==> r@ == JsonV::Object(
            seq![
                ("success"@, JsonV::Bool(true)),
                ("patterns"@, JsonV::Array(strs_items(strs_of(patterns@)))),
            ],
        ),
{
    if patterns.len() == 0 {
        obj2(member("success", Json::Bool(true)), member("message", Json::str("Cleared active file filter")))
    } else {
        obj2(member("success", Json::Bool(true)), member("patterns", Json::str_array(patterns)))
    }
}

/// One row of the variable listing.
pub open spec fn variable_row(v: ResolvedVariable, root: Seq<char>) -> JsonV {
    JsonV::Object(
        seq![
            ("name"@, jstr(v.key@)),
            ("value"@, jstr(v.resolved_value@)),
            ("source"@, jstr(spec_format_source(v.source, root))),
        ],
    )
}

/// The reply to `ecolog.listEnvVariables`.
pub fn env_variables_reply(vars: &Vec<ResolvedVariable>, root: &str) -> (r: Json)
    ensures
        r@ == JsonV::Object(
            seq![
                ("variables"@, JsonV::Array(Seq::new(vars@.len(), |i: int| variable_row(vars@[i], root@)))),
                ("count"@, jnum(vars@.len())),
            ],
        ),
{
    let mut rows: Vec<Json> = Vec::new();
    let mut i: usize = 0;
    while i < vars.len()
        invariant
            0 <= i <= vars.len(),
            rows@.len() == i,
            forall|j: int| 0 <= j < i ==> (#[trigger] rows@[j])@ == variable_row(vars@[j], root@),
        decreases vars.len() - i,
    {
        let v = &vars[i];
        rows.push(
            obj3(
                member("name", Json::str(v.key.as_str())),
                member("value", Json::str(v.resolved_value.as_str())),
                member("source", Json::String(format_source(&v.source, root))),
            ),
        );
        i += 1;
    }
    assert(view_items(rows@) =~= Seq::new(vars@.len(), |i: int| variable_row(vars@[i], root@)));
    let n = rows.len();
    obj2(member("variables", Json::Array(rows)), member("count", Json::count(n)))
}

/// The names to list in an example env file: those defined in env files and
/// those the code reads, each once, in order.
pub fn example_names(defined: &Vec<String>, referenced: &Vec<String>) -> (v: Vec<String>)
    ensures
        strictly_sorted(strs_of(v@)),
        forall|n: Seq<char>|
            strs_of(v@).contains(n) <==> (strs_of(defined@).contains(n) || strs_of(
                referenced@,
            ).contains(n)),
{
    let mut v: Vec<String> = Vec::new();
    let mut i: usize = 0;
    while i < defined.len()
        invariant
            0 <= i <= defined.len(),
            strictly_sorted(strs_of(v@)),
            forall|n: Seq<char>|
                strs_of(v@).contains(n) <==> strs_of(defined@).take(i as int).contains(n),
        decreases defined.len() - i,
    {
        let ghost before = v@;
        insert_sorted(&mut v, defined[i].as_str());
        proof {
            assert(strs_of(defined@).take(i + 1) =~= strs_of(defined@).take(i as int).push(
                defined@[i as int]@,
            ));
            assert forall|n: Seq<char>| strs_of(v@).contains(n) <==> strs_of(defined@).take(
                i + 1,
            ).contains(n) by {
                lemma_push_contains(strs_of(defined@).take(i as int), defined@[i as int]@, n);
            }
        }
        i += 1;
    }
    assert(strs_of(defined@).take(defined.len() as int) =~= strs_of(defined@));
    let mut j: usize = 0;
    while j < referenced.len()
        invariant
            0 <= j <= referenced.len(),
            strictly_sorted(strs_of(v@)),
            forall|n: Seq<char>|
                strs_of(v@).contains(n) <==> (strs_of(defined@).contains(n) || strs_of(
                    referenced@,
                ).take(j as int).contains(n)),
        decreases referenced.len() - j,
    {
        insert_sorted(&mut v, referenced[j].as_str());
        proof {
            assert(strs_of(referenced@).take(j + 1) =~= strs_of(referenced@).take(j as int).push(
                referenced@[j as int]@,
            ));
            assert forall|n: Seq<char>| strs_of(v@).contains(n) <==> (strs_of(defined@).contains(n)
                || strs_of(referenced@).take(j + 1).contains(n)) by {
                lemma_push_contains(strs_of(referenced@).take(j as int), referenced@[j as int]@, n);
            }
        }
        j += 1;
    }
    assert(strs_of(referenced@).take(referenced.len() as int) =~= strs_of(referenced@));
    v
}

/// An example env file: one `NAME=` line per name.
pub open spec fn example_content(names: Seq<Seq<char>>) -> Seq<char>
    decreases names.len(),
{
    if names.len() == 0 {
        Seq::empty()
    } else {
        example_content(names.drop_last()) + names.last() + "=\n"@
    }
}

/// The reply to `ecolog.generateEnvExample` for the listed `names`.
pub fn env_example_reply(names: &Vec<String>) -> (r: Json)
    ensures
        names@.len() == 0 ==> r@ == JsonV::Object(
            seq![
                ("content"@, jstr("# No environment variables found in workspace\n"@)),
                ("count"@, jnum(0)),
            ],
        ),
        names@.len() > 0 ==> r@ == JsonV::Object(
            seq![
                ("content"@, jstr(example_content(strs_of(names@)))),
                ("count"@, jnum(names@.len())),
            ],
        ),
{
    if names.len() == 0 {
        return obj2(
            member("content", Json::str("# No environment variables found in workspace\n")),
            member("count", Json::count(0)),
        );
    }
    let mut content = String::new();
    let mut i: usize = 0;
    proof {
        assert(strs_of(names@).take(0) =~= Seq::<Seq<char>>::empty());
    }
    while i < names.len()
        invariant
            0 <= i <= names.len(),
            content@ == example_content(strs_of(names@).take(i as int)),
        decreases names.len() - i,
    {
        proof {
            assert(strs_of(names@).take(i + 1).drop_last() =~= strs_of(names@).take(i as int));
        }
        content.append(names[i].as_str());
        content.append("=\n");
        i += 1;
    }
    assert(strs_of(names@).take(names.len() as int) =~= strs_of(names@));
    obj2(member("content", Json::String(content)), member("count", Json::count(names.len())))
}

/// How an env file is named in the file listing: relative to the workspace
/// root where it lies under it, else by its file name.
pub open spec fn file_label(path: Seq<char>, root: Seq<char>) -> Option<Seq<char>> {
    match path_strip_prefix(path, root) {
        Some(rel) => Some(rel),
        None => path_file_name(path),
    }
}

/// The labels of `paths`, skipping those that have none.
pub open spec fn file_labels(paths: Seq<Seq<char>>, root: Seq<char>) -> Seq<Seq<char>>
    decreases paths.len(),
{
    if paths.len() == 0 {
        Seq::empty()
    } else {
        let before = file_labels(paths.drop_last(), root);
        match file_label(paths.last(), root) {
            Some(l) => before.push(l),
            None => before,
        }
    }
}

/// The reply to `ecolog.file.list` for the env files `paths`.
pub fn file_list_reply(paths: &Vec<String>, root: &str) -> (r: Json)
    ensures
        r@ == JsonV::Object(
            seq![
                ("files"@, JsonV::Array(strs_items(file_labels(strs_of(paths@), root@)))),
                ("count"@, jnum(file_labels(strs_of(paths@), root@).len())),
            ],
        ),
{
    let ghost ps = strs_of(paths@);
    let mut labels: Vec<String> = Vec::new();
    let mut i: usize = 0;
    proof {
        assert(ps.take(0) =~= Seq::<Seq<char>>::empty());
        assert(strs_of(labels@) =~= file_labels(ps.take(0), root@));
    }
    while i < paths.len()
        invariant
            ps == strs_of(paths@),
            0 <= i <= paths.len(),
            strs_of(labels@) == file_labels(ps.take(i as int), root@),
        decreases paths.len() - i,
    {
        proof {
            assert(ps.take(i + 1).drop_last() =~= ps.take(i as int));
            assert(ps.take(i + 1).last() == paths@[i as int]@);
        }
        let label = match strip_path_prefix(paths[i].as_str(), root) {
            Some(rel) => Some(rel),
            None => file_name_of(paths[i].as_str()),
        };
        match label {
            Some(l) => {
                let ghost before = labels@;
                labels.push(l);
                assert(strs_of(labels@) =~= strs_of(before).push(labels@[before.len() as int]@));
            },
            None => {},
        }
        i += 1;
    }
    assert(ps.take(paths.len() as int) =~= ps);
    let n = labels.len();
    let files = Json::str_array(&labels);
    obj2(member("files", files), member("count", Json::count(n)))
}

/// Whether an env file belongs to the package of a file: it lies under the
/// package root, or directly in the workspace root.
pub open spec fn in_package(path: Seq<char>, package_root: Seq<char>, workspace_root: Seq<char>) -> bool {
    path_starts_with(path, package_root) || match path_parent(path) {
        Some(p) => path_eq(p, workspace_root),
        None => false,
    }
}

/// The env files of `all` that belong to the package of a file.
pub open spec fn package_files(all: Seq<Seq<char>>, package_root: Seq<char>, workspace_root: Seq<char>) -> Seq<Seq<char>>
    decreases all.len(),
{
    if all.len() == 0 {
        Seq::empty()
    } else {
        let before = package_files(all.drop_last(), package_root, workspace_root);
        if in_package(all.last(), package_root, workspace_root) {
            before.push(all.last())
        } else {
            before
        }
    }
}

/// The env files scoped to a package are exactly those of the workspace
/// that lie under the package root or directly in the workspace root, in
/// the workspace's order of listing: each listed file is one of `all` that
/// belongs to the package, and each such file is listed.
pub proof fn law_package_files_are_the_packages(
    all: Seq<Seq<char>>,
    package_root: Seq<char>,
    workspace_root: Seq<char>,
)
    ensures
        forall|k: int|
            0 <= k < package_files(all, package_root, workspace_root).len() ==> all.contains(
                #[trigger] package_files(all, package_root, workspace_root)[k],
            ) && (path_starts_with(package_files(all, package_root, workspace_root)[k], package_root)
                || (path_parent(package_files(all, package_root, workspace_root)[k]) matches Some(p)
                && path_eq(p, workspace_root))),
        forall|i: int|
            0 <= i < all.len() && (path_starts_with(#[trigger] all[i], package_root) || (path_parent(
                all[i],
            ) matches Some(p) && path_eq(p, workspace_root))) ==> package_files(
                all,
                package_root,
                workspace_root,
            ).contains(all[i]),
    decreases all.len(),
{
    if all.len() > 0 {
        let q = all.drop_last();
        law_package_files_are_the_packages(q, package_root, workspace_root);
        let r = package_files(all, package_root, workspace_root);
        let b = package_files(q, package_root, workspace_root);
        assert forall|k: int| 0 <= k < r.len() implies all.contains(#[trigger] r[k]) && (
        path_starts_with(r[k], package_root) || (path_parent(r[k]) matches Some(p) && path_eq(
            p,
            workspace_root,
        ))) by {
            if k < b.len() {
                assert(r[k] == b[k]);
                let j = choose|j: int| 0 <= j < q.len() && q[j] == b[k];
                assert(all[j] == q[j]);
            } else {
                assert(r[k] == all.last());
                assert(all[all.len() - 1] == all.last());
            }
        }
        assert forall|i: int|
            0 <= i < all.len() && (path_starts_with(#[trigger] all[i], package_root) || (path_parent(
                all[i],
            ) matches Some(p) && path_eq(p, workspace_root))) implies r.contains(all[i]) by {
            if i < q.len() {
                assert(q[i] == all[i]);
                let k = choose|k: int| 0 <= k < b.len() && b[k] == q[i];
                assert(r[k] == b[k]);
            } else {
                assert(r[r.len() - 1] == all[i]);
            }
        }
    }
}

/// The env files of `all` that belong to the package whose root is
/// `package_root` in the workspace rooted at `workspace_root`.
pub fn scoped_env_files(all: &Vec<String>, package_root: &str, workspace_root: &str) -> (v: Vec<String>)
    ensures
        strs_of(v@) == package_files(strs_of(all@), package_root@, workspace_root@),
{
    let ghost ps = strs_of(all@);
    let mut v: Vec<String> = Vec::new();
    let mut i: usize = 0;
    proof {
        assert(ps.take(0) =~= Seq::<Seq<char>>::empty());
        assert(strs_of(v@) =~= package_files(ps.take(0), package_root@, workspace_root@));
    }
    while i < all.len()
        invariant
            ps == strs_of(all@),
            0 <= i <= all.len(),
            strs_of(v@) == package_files(ps.take(i as int), package_root@, workspace_root@),
        decreases all.len() - i,
    {
        proof {
            assert(ps.take(i + 1).drop_last() =~= ps.take(i as int));
            assert(ps.take(i + 1).last() == all@[i as int]@);
        }
        let p = all[i].as_str();
        let keep = if path_has_prefix(p, package_root) {
            true
        } else {
            match parent_of(p) {
                Some(parent) => same_path(parent.as_str(), workspace_root),
                None => false,
            }
        };
        if keep {
            let ghost before = v@;
            v.push(all[i].clone());
            assert(strs_of(v@) =~= strs_of(before).push(all@[i as int]@));
        }
        i += 1;
    }
    assert(ps.take(all.len() as int) =~= ps);
    v
}

/// The reply to `ecolog.variable.get` without a name.
pub fn variable_name_required_reply() -> (r: Json)
    ensures
        r@ == jerror("Variable name required"@),
{
    error_reply("Variable name required")
}

/// A string, or `null` for none.
pub open spec fn opt_jstr(o: Option<Seq<char>>) -> JsonV {
    match o {
        Some(s) => JsonV::Str(s),
        None => JsonV::Null,
    }
}

/// The reply to `ecolog.variable.get` for a variable that resolved.
pub fn variable_reply(name: &str, resolved: &ResolvedEnvVarValue) -> (r: Json)
    ensures
        r@ == JsonV::Object(
            seq![
                ("name"@, jstr(name@)),
                ("value"@, jstr(resolved.value@)),
                ("source"@, jstr(resolved.source@)),
                ("description"@, opt_jstr(opt_string_view(resolved.description))),
            ],
        ),
{
    let description = match &resolved.description {
        Some(d) => Json::str(d.as_str()),
        None => Json::Null,
    };
    obj4(
        member("name", Json::str(name)),
        member("value", Json::str(resolved.value.as_str())),
        member("source", Json::str(resolved.source.as_str())),
        member("description", description),
    )
}

/// The reply to `ecolog.variable.get` for a variable that did not resolve.
pub fn variable_not_found_reply(name: &str) -> (r: Json)
    ensures
        r@ == jerror("Variable '"@ + name@ + "' not found"@),
{
    let mut m = concat("Variable '", name);
    m.append("' not found");
    error_reply(m.as_str())
}

/// The name of the workspace rooted at `root`: its directory's name.
pub open spec fn workspace_name(root: Seq<char>) -> Seq<char> {
    match path_file_name(root) {
        Some(n) => n,
        None => "workspace"@,
    }
}

pub open spec fn opt_str_view(o: Option<&str>) -> Option<Seq<char>> {
    match o {
        Some(s) => Some(s@),
        None => None,
    }
}

/// The entry of the workspace rooted at `root` in `ecolog.workspace.list`,
/// or the error shown where the workspace could not be read.
pub open spec fn workspace_entry(root: Option<Seq<char>>) -> JsonV {
    match root {
        Some(p) => JsonV::Object(
            seq![
                ("name"@, jstr(workspace_name(p))),
                ("path"@, jstr(p)),
                ("isActive"@, JsonV::Bool(true)),
            ],
        ),
        None => jerror("Failed to get workspace info"@),
    }
}

/// The reply to `ecolog.workspace.list`; `root` is `None` where the
/// workspace could not be read.
pub fn workspace_list_reply(root: Option<&str>) -> (r: Json)
    ensures
        r@ == JsonV::Object(
            seq![
                ("workspaces"@, JsonV::Array(seq![workspace_entry(opt_str_view(root))])),
                ("count"@, jnum(1)),
            ],
        ),
{
    let ghost rv = opt_str_view(root);
    let entry = match root {
        Some(p) => {
            let name = match file_name_of(p) {
                Some(n) => n,
                None => "workspace".to_string(),
            };
            obj3(
                member("name", Json::String(name)),
                member("path", Json::str(p)),
                member("isActive", Json::Bool(true)),
            )
        },
        None => error_reply("Failed to get workspace info"),
    };
    assert(entry@ == workspace_entry(rv));
    let v = vec![entry];
    assert(view_items(v@) =~= seq![workspace_entry(rv)]);
    obj2(member("workspaces", Json::Array(v)), member("count", Json::count(1)))
}

/// A source of variables, in the order of precedence the user chose.
#[derive(Debug, Clone, Copy, PartialEq, Eq, Structural)]
pub enum SourceKind {
    Shell,
    File,
    Remote,
}

/// The name a source is shown with.
pub open spec fn source_name(k: SourceKind) -> Seq<char> {
    match k {
        SourceKind::Shell => "Shell"@,
        SourceKind::File => "File"@,
        SourceKind::Remote => "Remote"@,
    }
}

/// The name a source is shown with.
pub fn source_display_name(k: SourceKind) -> (s: &'static str)
    ensures
        s@ == source_name(k),
{
    match k {
        SourceKind::Shell => "Shell",
        SourceKind::File => "File",
        SourceKind::Remote => "Remote",
    }
}

/// The lowercase form of `s`, as `str::to_lowercase` computes it.
pub uninterp spec fn lowercase(s: Seq<char>) -> Seq<char>;

/// `str::to_lowercase`.
#[verifier::external_body]
pub(crate) fn to_lowercase(s: &str) -> (r: String)
    ensures
        r@ == lowercase(s@),
{
    s.to_lowercase()
}

/// The source a lowercase name stands for.
pub open spec fn spec_source_named(lower: Seq<char>) -> Option<SourceKind> {
    if lower == "shell"@ {
        Some(SourceKind::Shell)
    } else if lower == "file"@ {
        Some(SourceKind::File)
    } else if lower == "remote"@ {
        Some(SourceKind::Remote)
    } else {
        None
    }
}

/// The source a name stands for once lowercased.
pub fn source_named(lower: &str) -> (r: Option<SourceKind>)
    ensures
        r == spec_source_named(lower@),
{
    if str_eq(lower, "shell") {
        Some(SourceKind::Shell)
    } else if str_eq(lower, "file") {
        Some(SourceKind::File)
    } else if str_eq(lower, "remote") {
        Some(SourceKind::Remote)
    } else {
        None
    }
}

/// The precedence that the names `names` ask for, in their order; or, at
/// the first name that is no source, that name.
pub fn parse_precedence(names: &Vec<String>) -> (r: Result<Vec<SourceKind>, String>)
    ensures
        match r {
            Ok(v) => v@.len() == names@.len() && forall|i: int|
                0 <= i < names@.len() ==> spec_source_named(lowercase(#[trigger] names@[i]@))
                    == Some(v@[i]),
            Err(bad) => exists|k: int|
                0 <= k < names@.len() && bad@ == names@[k]@ && spec_source_named(
                    lowercase(#[trigger] names@[k]@),
                ) is None && forall|j: int|
                    0 <= j < k ==> spec_source_named(lowercase(#[trigger] names@[j]@)) is Some,
        },
{
    let mut v: Vec<SourceKind> = Vec::new();
    let mut i: usize = 0;
    while i < names.len()
        invariant
            0 <= i <= names.len(),
            v@.len() == i,
            forall|j: int|
                0 <= j < i ==> spec_source_named(lowercase(#[trigger] names@[j]@)) == Some(v@[j]),
        decreases names.len() - i,
    {
        let lower = to_lowercase(names[i].as_str());
        match source_named(lower.as_str()) {
            Some(k) => v.push(k),
            None => {
                assert(spec_source_named(lowercase(names@[i as int]@)) is None);
                return Err(names[i].clone());
            },
        }
        i += 1;
    }
    Ok(v)
}

/// The reply to `ecolog.source.setPrecedence` naming a source that does not
/// exist.
pub fn unknown_source_reply(name: &str) -> (r: Json)
    ensures
        r@ == jerror("Unknown source: "@ + name@ + ". Valid sources: Shell, File, Remote"@),
{
    let mut m = concat("Unknown source: ", name);
    m.append(". Valid sources: Shell, File, Remote");
    error_reply(m.as_str())
}

/// The names of the sources of `p`, in order.
pub open spec fn source_names(p: Seq<SourceKind>) -> Seq<Seq<char>> {
    Seq::new(p.len(), |i: int| source_name(p[i]))
}

/// The reply to `ecolog.source.setPrecedence` once the precedence is `p`.
pub fn precedence_reply(p: &Vec<SourceKind>) -> (r: Json)
    ensures
        r@ == JsonV::Object(
            seq![
                ("success"@, JsonV::Bool(true)),
                ("precedence"@, JsonV::Array(strs_items(source_names(p@)))),
            ],
        ),
{
    let mut names: Vec<Json> = Vec::new();
    let mut i: usize = 0;
    while i < p.len()
        invariant
            0 <= i <= p.len(),
            names@.len() == i,
            forall|j: int| 0 <= j < i ==> (#[trigger] names@[j])@ == JsonV::Str(source_name(p@[j])),
        decreases p.len() - i,
    {
        names.push(Json::str(source_display_name(p[i])));
        i += 1;
    }
    assert(view_items(names@) =~= strs_items(source_names(p@)));
    obj2(member("success", Json::Bool(true)), member("precedence", Json::Array(names)))
}

/// One row of `ecolog.source.list`: the source, whether it is enabled, its
/// priority, how many variables came from it, and for the remote source the
/// authenticated providers, where there are any.
pub open spec fn source_row(
    k: SourceKind,
    enabled: bool,
    priority: nat,
    count: nat,
    providers: Seq<Seq<char>>,
) -> JsonV {
    let base = seq![
        ("name"@, jstr(source_name(k))),
        ("enabled"@, JsonV::Bool(enabled)),
        ("priority"@, jnum(priority)),
        ("count"@, jnum(count)),
    ];
    if k == SourceKind::Remote && providers.len() > 0 {
        JsonV::Object(base.push(("providers"@, JsonV::Array(strs_items(providers)))))
    } else {
        JsonV::Object(base)
    }
}

/// Whether `p` holds `k`.
pub fn precedence_has(p: &Vec<SourceKind>, k: SourceKind) -> (b: bool)
    ensures
        b == p@.contains(k),
{
    let mut i: usize = 0;
    while i < p.len()
        invariant
            0 <= i <= p.len(),
            forall|j: int| 0 <= j < i ==> p@[j] != k,
        decreases p.len() - i,
    {
        if p[i] == k {
            return true;
        }
        i += 1;
    }
    false
}

fn source_row_json(
    k: SourceKind,
    enabled: bool,
    priority: usize,
    count: usize,
    providers: &Vec<String>,
) -> (r: Json)
    ensures
        r@ == source_row(k, enabled, priority as nat, count as nat, strs_of(providers@)),
{
    let mut members: Vec<(String, Json)> = vec![
        member("name", Json::str(source_display_name(k))),
        member("enabled", Json::Bool(enabled)),
        member("priority", Json::count(priority)),
        member("count", Json::count(count)),
    ];
    let ghost base = view_members(members@);
    assert(base =~= seq![
        ("name"@, jstr(source_name(k))),
        ("enabled"@, JsonV::Bool(enabled)),
        ("priority"@, jnum(priority as nat)),
        ("count"@, jnum(count as nat)),
    ]);
    if k == SourceKind::Remote && providers.len() > 0 {
        members.push(member("providers", Json::str_array(providers)));
        assert(view_members(members@) =~= base.push(
            ("providers"@, JsonV::Array(strs_items(strs_of(providers@)))),
        ));
    }
    Json::object(members)
}

/// The reply to `ecolog.source.list`: the shell, file and remote sources
/// with the variables counted from each.
pub fn source_list_reply(
    precedence: &Vec<SourceKind>,
    counts: (usize, usize, usize),
    providers: &Vec<String>,
) -> (r: Json)
    ensures
        r@ == JsonV::Object(
            seq![
                ("sources"@, JsonV::Array(seq![
                    source_row(SourceKind::Shell, precedence@.contains(SourceKind::Shell), 100, counts.0 as nat, strs_of(providers@)),
                    source_row(SourceKind::File, precedence@.contains(SourceKind::File), 50, counts.1 as nat, strs_of(providers@)),
                    source_row(SourceKind::Remote, precedence@.contains(SourceKind::Remote), 25, counts.2 as nat, strs_of(providers@)),
                ])),
                ("count"@, jnum(3)),
            ],
        ),
{
    let shell = source_row_json(
        SourceKind::Shell,
        precedence_has(precedence, SourceKind::Shell),
        100,
        counts.0,
        providers,
    );
    let file = source_row_json(
        SourceKind::File,
        precedence_has(precedence, SourceKind::File),
        50,
        counts.1,
        providers,
    );
    let remote = source_row_json(
        SourceKind::Remote,
        precedence_has(precedence, SourceKind::Remote),
        25,
        counts.2,
        providers,
    );
    let rows = vec![shell, file, remote];
    assert(view_items(rows@) =~= seq![rows@[0]@, rows@[1]@, rows@[2]@]);
    obj2(member("sources", Json::Array(rows)), member("count", Json::count(3)))
}

/// The reply to `ecolog.workspace.setRoot` without a path.
pub fn path_required_reply() -> (r: Json)
    ensures
        r@ == jerror("Path argument required"@),
{
    error_reply("Path argument required")
}

/// The reply to `ecolog.workspace.setRoot` for a path that does not exist.
pub fn path_missing_reply(path: &str) -> (r: Json)
    ensures
        r@ == jerror("Path does not exist: "@ + path@),
{
    let m = concat("Path does not exist: ", path);
    error_reply(m.as_str())
}

/// The reply to `ecolog.workspace.setRoot` for a path that is not a
/// directory.
pub fn not_a_directory_reply(path: &str) -> (r: Json)
    ensures
        r@ == jerror("Path is not a directory: "@ + path@),
{
    let m = concat("Path is not a directory: ", path);
    error_reply(m.as_str())
}

/// The reply to `ecolog.workspace.setRoot` once the root is `root`.
pub fn root_set_reply(root: &str) -> (r: Json)
    ensures
        r@ == JsonV::Object(seq![("success"@, JsonV::Bool(true)), ("root"@, jstr(root@))]),
{
    obj2(member("success", Json::Bool(true)), member("root", Json::str(root)))
}

/// The reply to `ecolog.workspace.setRoot` when the root could not be set.
pub fn set_root_failed_reply(reason: &str) -> (r: Json)
    ensures
        r@ == jerror("Failed to set root: "@ + reason@),
{
    let m = concat("Failed to set root: ", reason);
    error_reply(m.as_str())
}

/// The reply to `ecolog.interpolation.set`.
pub fn interpolation_set_reply(enabled: bool) -> (r: Json)
    ensures
        r@ == JsonV::Object(
            seq![("success"@, JsonV::Bool(true)), ("enabled"@, JsonV::Bool(enabled))],
        ),
{
    obj2(member("success", Json::Bool(true)), member("enabled", Json::Bool(enabled)))
}

/// The reply to `ecolog.interpolation.get`.
pub fn interpolation_get_reply(enabled: bool) -> (r: Json)
    ensures
        r@ == JsonV::Object(seq![("enabled"@, JsonV::Bool(enabled))]),
{
    obj1(member("enabled", Json::Bool(enabled)))
}

/// How a remote provider's source is found for a command.
pub enum RemoteLookup {
    /// The source at this index of the registered sources.
    Existing(usize),
    /// No source yet, but a factory for the provider: create one.
    Create,
    /// Neither: the provider is unknown.
    Unknown,
}

/// Finds the source of `provider` among the registered sources (by id),
/// else among the provider factories.
pub fn remote_source_lookup(source_ids: &Vec<String>, factory_ids: &Vec<String>, provider: &str) -> (r:
    RemoteLookup)
    ensures
        match r {
            RemoteLookup::Existing(i) => i < source_ids@.len() && source_ids@[i as int]@ == provider@
                && forall|j: int| 0 <= j < i ==> source_ids@[j]@ != provider@,
            RemoteLookup::Create => !strs_of(source_ids@).contains(provider@) && strs_of(
                factory_ids@,
            ).contains(provider@),
            RemoteLookup::Unknown => !strs_of(source_ids@).contains(provider@) && !strs_of(
                factory_ids@,
            ).contains(provider@),
        },
{
    let mut i: usize = 0;
    while i < source_ids.len()
        invariant
            0 <= i <= source_ids.len(),
            forall|j: int| 0 <= j < i ==> source_ids@[j]@ != provider@,
        decreases source_ids.len() - i,
    {
        if str_eq(source_ids[i].as_str(), provider) {
            return RemoteLookup::Existing(i);
        }
        i += 1;
    }
    assert(!strs_of(source_ids@).contains(provider@)) by {
        assert forall|j: int| 0 <= j < source_ids@.len() implies strs_of(source_ids@)[j]
            != provider@ by {}
    }
    let mut k: usize = 0;
    while k < factory_ids.len()
        invariant
            0 <= k <= factory_ids.len(),
            !strs_of(source_ids@).contains(provider@),
            forall|j: int| 0 <= j < k ==> factory_ids@[j]@ != provider@,
        decreases factory_ids.len() - k,
    {
        if str_eq(factory_ids[k].as_str(), provider) {
            assert(strs_of(factory_ids@)[k as int] == provider@);
            return RemoteLookup::Create;
        }
        k += 1;
    }
    assert(!strs_of(factory_ids@).contains(provider@)) by {
        assert forall|j: int| 0 <= j < factory_ids@.len() implies strs_of(factory_ids@)[j]
            != provider@ by {}
    }
    RemoteLookup::Unknown
}

/// The error for a provider that is neither registered nor creatable.
pub fn unknown_provider_error(provider: &str) -> (s: String)
    ensures
        s@ == "Unknown provider: "@ + provider@,
{
    concat("Unknown provider: ", provider)
}

/// The error for a provider source that could not be created.
pub fn create_source_failed_error(reason: &str) -> (s: String)
    ensures
        s@ == "Failed to create source: "@ + reason@,
{
    concat("Failed to create source: ", reason)
}

/// The reply to a remote command without a provider.
pub fn provider_required_reply() -> (r: Json)
    ensures
        r@ == jerror("Provider ID required"@),
{
    error_reply("Provider ID required")
}

/// The reply to `ecolog.source.remote.authenticate` without credentials.
pub fn credentials_required_reply() -> (r: Json)
    ensures
        r@ == jerror("Credentials required"@),
{
    error_reply("Credentials required")
}

/// The reply to `ecolog.source.remote.navigate` without a scope level.
pub fn scope_level_required_reply() -> (r: Json)
    ensures
        r@ == jerror("Scope level required"@),
{
    error_reply("Scope level required")
}

/// The reply to `ecolog.source.remote.select` without a scope.
pub fn scope_selection_required_reply() -> (r: Json)
    ensures
        r@ == jerror("Scope selection required"@),
{
    error_reply("Scope selection required")
}

/// A field that a provider asks for when authenticating.
pub struct AuthFieldInfo {
    pub name: String,
    pub label: String,
    pub description: Option<String>,
    pub required: bool,
    pub secret: bool,
    pub env_var: Option<String>,
    pub default: Option<String>,
}

pub open spec fn auth_field_view(f: AuthFieldInfo) -> JsonV {
    JsonV::Object(
        seq![
            ("name"@, jstr(f.name@)),
            ("label"@, jstr(f.label@)),
            ("description"@, opt_jstr(opt_string_view(f.description))),
            ("required"@, JsonV::Bool(f.required)),
            ("secret"@, JsonV::Bool(f.secret)),
            ("envVar"@, opt_jstr(opt_string_view(f.env_var))),
            ("default"@, opt_jstr(opt_string_view(f.default))),
        ],
    )
}

fn opt_str_json(o: &Option<String>) -> (r: Json)
    ensures
        r@ == opt_jstr(opt_string_view(*o)),
{
    match o {
        Some(s) => Json::str(s.as_str()),
        None => Json::Null,
    }
}

/// The reply to `ecolog.source.remote.authFields`.
pub fn auth_fields_reply(provider: &str, fields: &Vec<AuthFieldInfo>) -> (r: Json)
    ensures
        r@ == JsonV::Object(
            seq![
                ("provider"@, jstr(provider@)),
                ("fields"@, JsonV::Array(Seq::new(fields@.len(), |i: int| auth_field_view(fields@[i])))),
            ],
        ),
{
    let mut rows: Vec<Json> = Vec::new();
    let mut i: usize = 0;
    while i < fields.len()
        invariant
            0 <= i <= fields.len(),
            rows@.len() == i,
            forall|j: int| 0 <= j < i ==> (#[trigger] rows@[j])@ == auth_field_view(fields@[j]),
        decreases fields.len() - i,
    {
        let f = &fields[i];
        let members = vec![
            member("name", Json::str(f.name.as_str())),
            member("label", Json::str(f.label.as_str())),
            member("description", opt_str_json(&f.description)),
            member("required", Json::Bool(f.required)),
            member("secret", Json::Bool(f.secret)),
            member("envVar", opt_str_json(&f.env_var)),
            member("default", opt_str_json(&f.default)),
        ];
        assert(view_members(members@) =~= seq![
            ("name"@, jstr(f.name@)),
            ("label"@, jstr(f.label@)),
            ("description"@, opt_jstr(opt_string_view(f.description))),
            ("required"@, JsonV::Bool(f.required)),
            ("secret"@, JsonV::Bool(f.secret)),
            ("envVar"@, opt_jstr(opt_string_view(f.env_var))),
            ("default"@, opt_jstr(opt_string_view(f.default))),
        ]);
        rows.push(Json::object(members));
        i += 1;
    }
    assert(view_items(rows@) =~= Seq::new(fields@.len(), |i: int| auth_field_view(fields@[i])));
    obj2(member("provider", Json::str(provider)), member("fields", Json::Array(rows)))
}

/// The reply to a successful `ecolog.source.remote.authenticate`.
pub fn authenticated_reply(provider: &str, auth_status: &str) -> (r: Json)
    ensures
        r@ == JsonV::Object(
            seq![
                ("success"@, JsonV::Bool(true)),
                ("provider"@, jstr(provider@)),
                ("authStatus"@, jstr(auth_status@)),
            ],
        ),
{
    obj3(
        member("success", Json::Bool(true)),
        member("provider", Json::str(provider)),
        member("authStatus", Json::str(auth_status)),
    )
}

/// An error reply that also names the provider.
fn provider_error(prefix: &str, reason: &str, provider: &str) -> (r: Json)
    ensures
        r@ == JsonV::Object(
            seq![("error"@, jstr(prefix@ + reason@)), ("provider"@, jstr(provider@))],
        ),
{
    let m = concat(prefix, reason);
    obj2(member("error", Json::String(m)), member("provider", Json::str(provider)))
}

/// The reply to a failed `ecolog.source.remote.authenticate`.
pub fn authentication_failed_reply(reason: &str, provider: &str) -> (r: Json)
    ensures
        r@ == JsonV::Object(
            seq![
                ("error"@, jstr("Authentication failed: "@ + reason@)),
                ("provider"@, jstr(provider@)),
            ],
        ),
{
    provider_error("Authentication failed: ", reason, provider)
}

/// A choice offered at one level of a provider's scope.
pub struct ScopeOptionInfo {
    pub id: String,
    pub display_name: String,
    pub description: Option<String>,
    pub icon: Option<String>,
}

pub open spec fn scope_option_view(o: ScopeOptionInfo) -> JsonV {
    JsonV::Object(
        seq![
            ("id"@, jstr(o.id@)),
            ("displayName"@, jstr(o.display_name@)),
            ("description"@, opt_jstr(opt_string_view(o.description))),
            ("icon"@, opt_jstr(opt_string_view(o.icon))),
        ],
    )
}

/// The reply to a successful `ecolog.source.remote.navigate`.
pub fn scope_options_reply(provider: &str, level: &str, options: &Vec<ScopeOptionInfo>) -> (r: Json)
    ensures
        r@ == JsonV::Object(
            seq![
                ("provider"@, jstr(provider@)),
                ("level"@, jstr(level@)),
                ("options"@, JsonV::Array(Seq::new(options@.len(), |i: int| scope_option_view(options@[i])))),
                ("count"@, jnum(options@.len())),
            ],
        ),
{
    let mut rows: Vec<Json> = Vec::new();
    let mut i: usize = 0;
    while i < options.len()
        invariant
            0 <= i <= options.len(),
            rows@.len() == i,
            forall|j: int| 0 <= j < i ==> (#[trigger] rows@[j])@ == scope_option_view(options@[j]),
        decreases options.len() - i,
    {
        let o = &options[i];
        rows.push(
            obj4(
                member("id", Json::str(o.id.as_str())),
                member("displayName", Json::str(o.display_name.as_str())),
                member("description", opt_str_json(&o.description)),
                member("icon", opt_str_json(&o.icon)),
            ),
        );
        i += 1;
    }
    assert(view_items(rows@) =~= Seq::new(options@.len(), |i: int| scope_option_view(options@[i])));
    let n = rows.len();
    obj4(
        member("provider", Json::str(provider)),
        member("level", Json::str(level)),
        member("options", Json::Array(rows)),
        member("count", Json::count(n)),
    )
}

/// The reply to a failed `ecolog.source.remote.navigate`.
pub fn list_options_failed_reply(reason: &str, provider: &str, level: &str) -> (r: Json)
    ensures
        r@ == JsonV::Object(
            seq![
                ("error"@, jstr("Failed to list options: "@ + reason@)),
                ("provider"@, jstr(provider@)),
                ("level"@, jstr(level@)),
            ],
        ),
{
    let m = concat("Failed to list options: ", reason);
    obj3(
        member("error", Json::String(m)),
        member("provider", Json::str(provider)),
        member("level", Json::str(level)),
    )
}

/// The reply to a successful `ecolog.source.remote.select`.
pub fn scope_selected_reply(provider: &str, secret_count: usize) -> (r: Json)
    ensures
        r@ == JsonV::Object(
            seq![
                ("success"@, JsonV::Bool(true)),
                ("provider"@, jstr(provider@)),
                ("secretCount"@, jnum(secret_count as nat)),
            ],
        ),
{
    obj3(
        member("success", Json::Bool(true)),
        member("provider", Json::str(provider)),
        member("secretCount", Json::count(secret_count)),
    )
}

/// The reply to a `ecolog.source.remote.select` whose secrets could not be
/// fetched.
pub fn fetch_failed_reply(reason: &str, provider: &str) -> (r: Json)
    ensures
        r@ == JsonV::Object(
            seq![
                ("error"@, jstr("Failed to fetch secrets: "@ + reason@)),
                ("provider"@, jstr(provider@)),
            ],
        ),
{
    provider_error("Failed to fetch secrets: ", reason, provider)
}

/// The reply to `ecolog.source.remote.refresh` for one provider that
/// refreshed.
pub fn refreshed_reply(provider: &str, changed: bool, secret_count: usize) -> (r: Json)
    ensures
        r@ == JsonV::Object(
            seq![
                ("success"@, JsonV::Bool(true)),
                ("provider"@, jstr(provider@)),
                ("changed"@, JsonV::Bool(changed)),
                ("secretCount"@, jnum(secret_count as nat)),
            ],
        ),
{
    obj4(
        member("success", Json::Bool(true)),
        member("provider", Json::str(provider)),
        member("changed", Json::Bool(changed)),
        member("secretCount", Json::count(secret_count)),
    )
}

/// The reply to `ecolog.source.remote.refresh` for one provider that failed.
pub fn refresh_failed_reply(reason: &str, provider: &str) -> (r: Json)
    ensures
        r@ == JsonV::Object(
            seq![
                ("error"@, jstr("Failed to refresh: "@ + reason@)),
                ("provider"@, jstr(provider@)),
            ],
        ),
{
    provider_error("Failed to refresh: ", reason, provider)
}

/// How refreshing one provider went.
pub enum RefreshOutcome {
    Refreshed { provider: String, changed: bool, secret_count: usize },
    Failed { provider: String, reason: String },
}

pub open spec fn refresh_outcome_view(o: RefreshOutcome) -> JsonV {
    match o {
        RefreshOutcome::Refreshed { provider, changed, secret_count } => JsonV::Object(
            seq![
                ("provider"@, jstr(provider@)),
                ("success"@, JsonV::Bool(true)),
                ("changed"@, JsonV::Bool(changed)),
                ("secretCount"@, jnum(secret_count as nat)),
            ],
        ),
        RefreshOutcome::Failed { provider, reason } => JsonV::Object(
            seq![("provider"@, jstr(provider@)), ("error"@, jstr(reason@))],
        ),
    }
}

/// The reply to `ecolog.source.remote.refresh` for all providers.
pub fn refresh_all_reply(outcomes: &Vec<RefreshOutcome>) -> (r: Json)
    ensures
        r@ == JsonV::Object(
            seq![
                ("results"@, JsonV::Array(Seq::new(outcomes@.len(), |i: int| refresh_outcome_view(outcomes@[i])))),
                ("count"@, jnum(outcomes@.len())),
            ],
        ),
{
    let mut rows: Vec<Json> = Vec::new();
    let mut i: usize = 0;
    while i < outcomes.len()
        invariant
            0 <= i <= outcomes.len(),
            rows@.len() == i,
            forall|j: int|
                0 <= j < i ==> (#[trigger] rows@[j])@ == refresh_outcome_view(outcomes@[j]),
        decreases outcomes.len() - i,
    {
        let row = match &outcomes[i] {
            RefreshOutcome::Refreshed { provider, changed, secret_count } => obj4(
                member("provider", Json::str(provider.as_str())),
                member("success", Json::Bool(true)),
                member("changed", Json::Bool(*changed)),
                member("secretCount", Json::count(*secret_count)),
            ),
            RefreshOutcome::Failed { provider, reason } => obj2(
                member("provider", Json::str(provider.as_str())),
                member("error", Json::str(reason.as_str())),
            ),
        };
        rows.push(row);
        i += 1;
    }
    assert(view_items(rows@) =~= Seq::new(
        outcomes@.len(),
        |i: int| refresh_outcome_view(outcomes@[i]),
    ));
    let n = rows.len();
    obj2(member("results", Json::Array(rows)), member("count", Json::count(n)))
}

/// A level of a provider's scope.
pub struct ScopeLevelInfo {
    pub name: String,
    pub display_name: String,
    pub required: bool,
}

/// What `ecolog.source.remote.list` shows of one remote source.
pub struct RemoteSourceInfo {
    pub id: String,
    pub display_name: String,
    pub short_name: String,
    pub auth_status: String,
    pub is_authenticated: bool,
    pub scope: Json,
    pub secret_count: usize,
    pub scope_levels: Vec<ScopeLevelInfo>,
}

pub open spec fn scope_level_view(l: ScopeLevelInfo) -> JsonV {
    JsonV::Object(
        seq![
            ("name"@, jstr(l.name@)),
            ("displayName"@, jstr(l.display_name@)),
            ("required"@, JsonV::Bool(l.required)),
        ],
    )
}

pub open spec fn scope_levels_view(v: Seq<ScopeLevelInfo>) -> Seq<JsonV> {
    Seq::new(v.len(), |i: int| scope_level_view(v[i]))
}

pub open spec fn remote_source_view(s: RemoteSourceInfo) -> JsonV {
    JsonV::Object(
        seq![
            ("id"@, jstr(s.id@)),
            ("displayName"@, jstr(s.display_name@)),
            ("shortName"@, jstr(s.short_name@)),
            ("authStatus"@, jstr(s.auth_status@)),
            ("isAuthenticated"@, JsonV::Bool(s.is_authenticated)),
            ("scope"@, s.scope@),
            ("secretCount"@, jnum(s.secret_count as nat)),
            ("scopeLevels"@, JsonV::Array(scope_levels_view(s.scope_levels@))),
        ],
    )
}

fn remote_source_json(s: &RemoteSourceInfo) -> (r: Json)
    ensures
        r@ == remote_source_view(*s),
{
    let mut levels: Vec<Json> = Vec::new();
    let mut i: usize = 0;
    while i < s.scope_levels.len()
        invariant
            0 <= i <= s.scope_levels.len(),
            levels@.len() == i,
            forall|j: int|
                0 <= j < i ==> (#[trigger] levels@[j])@ == scope_level_view(s.scope_levels@[j]),
        decreases s.scope_levels.len() - i,
    {
        let l = &s.scope_levels[i];
        levels.push(
            obj3(
                member("name", Json::str(l.name.as_str())),
                member("displayName", Json::str(l.display_name.as_str())),
                member("required", Json::Bool(l.required)),
            ),
        );
        i += 1;
    }
    assert(view_items(levels@) =~= scope_levels_view(s.scope_levels@));
    let members = vec![
        member("id", Json::str(s.id.as_str())),
        member("displayName", Json::str(s.display_name.as_str())),
        member("shortName", Json::str(s.short_name.as_str())),
        member("authStatus", Json::str(s.auth_status.as_str())),
        member("isAuthenticated", Json::Bool(s.is_authenticated)),
        member("scope", s.scope.deep_copy()),
        member("secretCount", Json::count(s.secret_count)),
        member("scopeLevels", Json::Array(levels)),
    ];
    assert(view_members(members@) =~= seq![
        ("id"@, jstr(s.id@)),
        ("displayName"@, jstr(s.display_name@)),
        ("shortName"@, jstr(s.short_name@)),
        ("authStatus"@, jstr(s.auth_status@)),
        ("isAuthenticated"@, JsonV::Bool(s.is_authenticated)),
        ("scope"@, s.scope@),
        ("secretCount"@, jnum(s.secret_count as nat)),
        ("scopeLevels"@, JsonV::Array(scope_levels_view(s.scope_levels@))),
    ]);
    Json::object(members)
}

/// The reply to `ecolog.source.remote.list`: the remote sources, and the
/// providers that could be enabled.
pub fn remote_list_reply(sources: &Vec<RemoteSourceInfo>, available: &Vec<String>) -> (r: Json)
    ensures
        r@ == JsonV::Object(
            seq![
                ("sources"@, JsonV::Array(Seq::new(sources@.len(), |i: int| remote_source_view(sources@[i])))),
                ("count"@, jnum(sources@.len())),
                ("availableProviders"@, JsonV::Array(strs_items(strs_of(available@)))),
            ],
        ),
{
    let mut rows: Vec<Json> = Vec::new();
    let mut i: usize = 0;
    while i < sources.len()
        invariant
            0 <= i <= sources.len(),
            rows@.len() == i,
            forall|j: int| 0 <= j < i ==> (#[trigger] rows@[j])@ == remote_source_view(sources@[j]),
        decreases sources.len() - i,
    {
        rows.push(remote_source_json(&sources[i]));
        i += 1;
    }
    assert(view_items(rows@) =~= Seq::new(sources@.len(), |i: int| remote_source_view(sources@[i])));
    let n = rows.len();
    obj3(
        member("sources", Json::Array(rows)),
        member("count", Json::count(n)),
        member("availableProviders", Json::str_array(available)),
    )
}

} // verus!
