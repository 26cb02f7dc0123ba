//! Resolved environment variables as the server shows them: where a value
//! came from, and the markdown of a hover over a variable.
use crate::paths::{path_strip_prefix, strip_path_prefix};
use crate::text::{chars_of, concat, push_char, str_eq};
use vstd::prelude::*;

verus! {

/// Where the value of a variable came from.
pub enum VariableSource {
    /// A dotenv file, and the byte offset of the definition in it.
    File { path: String, offset: usize },
    /// The environment of the server's process.
    Shell,
    /// A value set in memory.
    Memory,
    /// A secret of a remote provider, with its path there if it has one.
    Remote { provider: String, path: Option<String> },
}

/// A variable with its value and origin.
pub struct ResolvedVariable {
    pub key: String,
    pub resolved_value: String,
    pub source: VariableSource,
    pub description: Option<String>,
}

/// A value ready to be shown: the value, its origin as text, and its
/// description.
pub struct ResolvedEnvVarValue {
    pub value: String,
    pub source: String,
    pub description: Option<String>,
}

/// How the origin of a value is shown: a file relative to the workspace
/// root where it lies under it.
pub open spec fn spec_format_source(source: VariableSource, root: Seq<char>) -> Seq<char> {
    match source {
        VariableSource::File { path, .. } => match path_strip_prefix(path@, root) {
            Some(rel) => rel,
            None => path@,
        },
        VariableSource::Shell => "System Environment"@,
        VariableSource::Memory => "In-Memory"@,
        VariableSource::Remote { provider, path } => match path {
            Some(p) => "Remote ("@ + provider@ + ": "@ + p@ + ")"@,
            None => "Remote ("@ + provider@ + ")"@,
        },
    }
}

/// How the origin of a value is shown.
pub fn format_source(source: &VariableSource, root: &str) -> (s: String)
    ensures
        s@ == spec_format_source(*source, root@),
{
    match source {
        VariableSource::File { path, .. } => match strip_path_prefix(path.as_str(), root) {
            Some(rel) => rel,
            None => path.clone(),
        },
        VariableSource::Shell => "System Environment".to_string(),
        VariableSource::Memory => "In-Memory".to_string(),
        VariableSource::Remote { provider, path } => match path {
            Some(p) => {
                let mut s = concat("Remote (", provider.as_str());
                s.append(": ");
                s.append(p.as_str());
                s.append(")");
                s
            },
            None => {
                let mut s = concat("Remote (", provider.as_str());
                s.append(")");
                s
            },
        },
    }
}

/// `s` with every line break shown as a closing backtick, the break, and
/// an opening backtick, so that each line is its own code span.
pub open spec fn code_lines(s: Seq<char>) -> Seq<char>
    decreases s.len(),
{
    if s.len() == 0 {
        Seq::empty()
    } else if s.last() == '\n' {
        code_lines(s.drop_last()) + "`\n`"@
    } else {
        code_lines(s.drop_last()).push(s.last())
    }
}

/// The heading of a hover: the name in the code, and the variable it reads
/// where the two differ.
pub open spec fn hover_header(env_var_name: Seq<char>, identifier_name: Option<Seq<char>>) -> Seq<
    char,
> {
    match identifier_name {
        Some(id) => if id != env_var_name {
            "**`"@ + id + "`** → **`"@ + env_var_name + "`**"@
        } else {
            "**`"@ + env_var_name + "`**"@
        },
        None => "**`"@ + env_var_name + "`**"@,
    }
}

/// The markdown shown when hovering over a variable.
pub open spec fn spec_hover_markdown(
    env_var_name: Seq<char>,
    identifier_name: Option<Seq<char>>,
    value: Seq<char>,
    source: Seq<char>,
    description: Option<Seq<char>>,
) -> Seq<char> {
    let body = hover_header(env_var_name, identifier_name) + "\n\n**Value**: `"@ + code_lines(value)
        + "`\n\n**Source**: `"@ + source + "`"@;
    match description {
        Some(d) => body + "\n\n*"@ + d + "*"@,
        None => body,
    }
}

/// Appends `code_lines(value)` to `out`.
pub(crate) fn push_code_lines(out: &mut String, value: &str)
    ensures
        final(out)@ == old(out)@ + code_lines(value@),
{
    let chars = chars_of(value);
    let mut i: usize = 0;
    let ghost start = out@;
    proof {
        assert(value@.take(0) =~= Seq::<char>::empty());
        assert(start + code_lines(value@.take(0)) =~= start);
    }
    while i < chars.len()
        invariant
            chars@ == value@,
            0 <= i <= chars.len(),
            out@ == start + code_lines(value@.take(i as int)),
        decreases chars.len() - i,
    {
        proof {
            assert(value@.take(i + 1).drop_last() =~= value@.take(i as int));
            assert(value@.take(i + 1).last() == chars@[i as int]);
        }
        let c = chars[i];
        if c == '\n' {
            let ghost before = out@;
            out.append("`\n`");
            assert(out@ =~= start + code_lines(value@.take(i + 1)));
        } else {
            push_char(out, c);
            assert(out@ =~= start + code_lines(value@.take(i + 1)));
        }
        i += 1;
    }
    assert(value@.take(chars.len() as int) =~= value@);
}

/// The markdown shown when hovering over `env_var_name`, read in the code as
/// `identifier_name`.
pub fn format_hover_markdown(
    env_var_name: &str,
    identifier_name: Option<&str>,
    resolved: &ResolvedEnvVarValue,
) -> (s: String)
    ensures
        s@ == spec_hover_markdown(
            env_var_name@,
            match identifier_name {
                Some(id) => Some(id@),
                None => None,
            },
            resolved.value@,
            resolved.source@,
            match resolved.description {
                Some(d) => Some(d@),
                None => None,
            },
        ),
{
    let mut s = "**`".to_string();
    match identifier_name {
        Some(id) => {
            if !str_eq(id, env_var_name) {
                s.append(id);
                s.append("`** → **`");
            }
        },
        None => {},
    }
    s.append(env_var_name);
    s.append("`**");
    s.append("\n\n**Value**: `");
    push_code_lines(&mut s, resolved.value.as_str());
    s.append("`\n\n**Source**: `");
    s.append(resolved.source.as_str());
    s.append("`");
    match &resolved.description {
        Some(d) => {
            s.append("\n\n*");
            s.append(d.as_str());
            s.append("*");
        },
        None => {},
    }
    s
}

/// How many of `vars` came from the shell, from files, and from remote
/// providers.
pub open spec fn source_counts(vars: Seq<VariableSource>) -> (nat, nat, nat)
    decreases vars.len(),
{
    if vars.len() == 0 {
        (0, 0, 0)
    } else {
        let (s, f, r) = source_counts(vars.drop_last());
        match vars.last() {
            VariableSource::Shell => (s + 1, f, r),
            VariableSource::File { .. } => (s, f + 1, r),
            VariableSource::Remote { .. } => (s, f, r + 1),
            VariableSource::Memory => (s, f, r),
        }
    }
}

proof fn lemma_source_counts_bound(vars: Seq<VariableSource>)
    ensures
        source_counts(vars).0 + source_counts(vars).1 + source_counts(vars).2 <= vars.len(),
    decreases vars.len(),
{
    if vars.len() > 0 {
        lemma_source_counts_bound(vars.drop_last());
    }
}

/// How many of `vars` came from the shell, from files, and from remote
/// providers.
pub fn count_by_source(vars: &Vec<ResolvedVariable>) -> (r: (usize, usize, usize))
    ensures
        (r.0 as nat, r.1 as nat, r.2 as nat) == source_counts(
            Seq::new(vars@.len(), |i: int| vars@[i].source),
        ),
{
    let ghost all = Seq::new(vars@.len(), |i: int| vars@[i].source);
    let mut shell: usize = 0;
    let mut file: usize = 0;
    let mut remote: usize = 0;
    let mut i: usize = 0;
    while i < vars.len()
        invariant
            all == Seq::new(vars@.len(), |i: int| vars@[i].source),
            0 <= i <= vars.len(),
            (shell as nat, file as nat, remote as nat) == source_counts(all.take(i as int)),
        decreases vars.len() - i,
    {
        proof {
            assert(all.take(i + 1).drop_last() =~= all.take(i as int));
            lemma_source_counts_bound(all.take(i as int));
        }
        match &vars[i].source {
            VariableSource::Shell => shell += 1,
            VariableSource::File { .. } => file += 1,
            VariableSource::Remote { .. } => remote += 1,
            VariableSource::Memory => {},
        }
        i += 1;
    }
    assert(all.take(vars.len() as int) =~= all);
    (shell, file, remote)
}

} // verus!
