//! What the request handlers decide once the analysis has answered: the
//! text of a hover or a completion item, which usages a rename edits and
//! how the edits are grouped by file, which references are listed, and which
//! variables a workspace symbol search returns, in what order.
use crate::commands::{lowercase, to_lowercase};
use crate::config::{MaskSurface, MaskingConfig};
use crate::keyed::{KeyedMap, key_views};
use crate::order::{lex_lt, str_lt};
use crate::position::{
    is_char_boundary_of, lemma_line_start_le, offset_to_linecol, spec_line_col, Position, Range,
};
use crate::text::{is_valid_env_var_name, spec_is_valid_env_var_name, byte_len, byte_offset_of, lemma_str_len, concat, contains_char, spec_contains_str, contains_str, starts_with, str_eq};
use crate::variables::{
    code_lines, format_hover_markdown, push_code_lines, spec_hover_markdown, ResolvedEnvVarValue,
};
use vstd::prelude::*;
use vstd::string::StrSliceExecFns;

verus! {

/// The text of a hover over a variable. `binding_name` is the name the code
/// gives the variable where it is bound to one (`is_binding`); an object
/// binding whose name has no value is shown as an environment object.
pub open spec fn spec_hover_text(
    env_var_name: Seq<char>,
    binding_name: Option<Seq<char>>,
    is_binding: bool,
    object_binding: bool,
    resolved: Option<(Seq<char>, Seq<char>, Option<Seq<char>>)>,
) -> Option<Seq<char>> {
    let shown = match binding_name {
        Some(b) => b,
        None => env_var_name,
    };
    match resolved {
        Some((value, source, description)) => Some(
            spec_hover_markdown(
                env_var_name,
                if is_binding {
                    Some(shown)
                } else {
                    None
                },
                value,
                source,
                description,
            ),
        ),
        None => if object_binding {
            Some("**`"@ + shown + "`** → **`"@ + env_var_name + "`**\n\n*Environment Object*"@)
        } else {
            None
        },
    }
}

pub open spec fn resolved_view(r: Option<&ResolvedEnvVarValue>) -> Option<
    (Seq<char>, Seq<char>, Option<Seq<char>>),
> {
    match r {
        Some(v) => Some(
            (
                v.value@,
                v.source@,
                match v.description {
                    Some(d) => Some(d@),
                    None => None,
                },
            ),
        ),
        None => None,
    }
}

/// The text of a hover over a variable.
pub fn hover_text(
    env_var_name: &str,
    binding_name: Option<&str>,
    is_binding: bool,
    object_binding: bool,
    resolved: Option<&ResolvedEnvVarValue>,
) -> (r: Option<String>)
    ensures
        match r {
            Some(s) => spec_hover_text(
                env_var_name@,
                match binding_name {
                    Some(b) => Some(b@),
                    None => None,
                },
                is_binding,
                object_binding,
                resolved_view(resolved),
            ) == Some(s@),
            None => spec_hover_text(
                env_var_name@,
                match binding_name {
                    Some(b) => Some(b@),
                    None => None,
                },
                is_binding,
                object_binding,
                resolved_view(resolved),
            ) is None,
        },
{
    let shown = match binding_name {
        Some(b) => b,
        None => env_var_name,
    };
    match resolved {
        Some(v) => {
            let id = if is_binding {
                Some(shown)
            } else {
                None
            };
            Some(format_hover_markdown(env_var_name, id, v))
        },
        None => {
            if object_binding {
                let mut s = concat("**`", shown);
                s.append("`** → **`");
                s.append(env_var_name);
                s.append("`**\n\n*Environment Object*");
                Some(s)
            } else {
                None
            }
        },
    }
}

/// The hover over a name imported from another module that resolves to an
/// environment object: the local name and the object's canonical name where
/// they differ, the canonical name alone where they do not.
pub open spec fn spec_env_object_hover(identifier: Seq<char>, canonical: Seq<char>) -> Seq<char> {
    let header = if identifier != canonical {
        "**`"@ + identifier + "`** → **`"@ + canonical + "`**"@
    } else {
        "**`"@ + canonical + "`**"@
    };
    header + "\n\n*Environment Object*"@
}

/// The hover over an imported name that resolves to an environment object.
pub fn env_object_hover(identifier: &str, canonical: &str) -> (r: String)
    ensures
        r@ == spec_env_object_hover(identifier@, canonical@),
{
    let mut s = if !str_eq(identifier, canonical) {
        let mut h = concat("**`", identifier);
        h.append("`** → **`");
        h.append(canonical);
        h.append("`**");
        h
    } else {
        let mut h = concat("**`", canonical);
        h.append("`**");
        h
    };
    s.append("\n\n*Environment Object*");
    s
}

/// A resolved value as `surface` shows it under the masking settings: the
/// value masked where masking is in force there, source and description as
/// they are.
pub open spec fn masked_view(
    masking: MaskingConfig,
    resolved: Option<(Seq<char>, Seq<char>, Option<Seq<char>>)>,
    surface: MaskSurface,
) -> Option<(Seq<char>, Seq<char>, Option<Seq<char>>)> {
    match resolved {
        Some((value, source, description)) => Some(
            (masking.spec_apply(value, surface), source, description),
        ),
        None => None,
    }
}

/// `resolved` with its value as `surface` shows it under the masking settings.
pub fn masked_value(masking: &MaskingConfig, resolved: &ResolvedEnvVarValue, surface: MaskSurface) -> (r:
    ResolvedEnvVarValue)
    ensures
        resolved_view(Some(&r)) == masked_view(*masking, resolved_view(Some(resolved)), surface),
{
    ResolvedEnvVarValue {
        value: masking.apply(resolved.value.as_str(), surface),
        source: resolved.source.clone(),
        description: match &resolved.description {
            Some(d) => Some(d.clone()),
            None => None,
        },
    }
}

/// The text of a hover over a variable, its value masked where the masking
/// settings hide values in hovers.
pub fn masked_hover_text(
    masking: &MaskingConfig,
    env_var_name: &str,
    binding_name: Option<&str>,
    is_binding: bool,
    object_binding: bool,
    resolved: Option<&ResolvedEnvVarValue>,
) -> (r: Option<String>)
    ensures
        match r {
            Some(s) => spec_hover_text(
                env_var_name@,
                match binding_name {
                    Some(b) => Some(b@),
                    None => None,
                },
                is_binding,
                object_binding,
                masked_view(*masking, resolved_view(resolved), MaskSurface::Hover),
            ) == Some(s@),
            None => spec_hover_text(
                env_var_name@,
                match binding_name {
                    Some(b) => Some(b@),
                    None => None,
                },
                is_binding,
                object_binding,
                masked_view(*masking, resolved_view(resolved), MaskSurface::Hover),
            ) is None,
        },
{
    match resolved {
        Some(v) => {
            let shown = masked_value(masking, v, MaskSurface::Hover);
            hover_text(env_var_name, binding_name, is_binding, object_binding, Some(&shown))
        },
        None => hover_text(env_var_name, binding_name, is_binding, object_binding, None),
    }
}

/// The documentation of a completion item: the value (or a note that it is
/// empty), where it came from, and its description where it has a
/// non-empty one.
pub open spec fn spec_completion_doc(
    value: Seq<char>,
    source: Seq<char>,
    description: Option<Seq<char>>,
) -> Seq<char> {
    let shown = if value.len() == 0 {
        "*(empty)*"@
    } else {
        "`"@ + code_lines(value) + "`"@
    };
    let body = "**Value**: "@ + shown + "\n\n**Source**: `"@ + source + "`"@;
    match description {
        Some(d) => if d.len() > 0 {
            body + "\n\n*"@ + d + "*"@
        } else {
            body
        },
        None => body,
    }
}

/// The documentation of a completion item.
pub fn completion_documentation(value: &str, source: &str, description: Option<&str>) -> (r: String)
    ensures
        r@ == spec_completion_doc(
            value@,
            source@,
            match description {
                Some(d) => Some(d@),
                None => None,
            },
        ),
{
    let mut s = "**Value**: ".to_string();
    if value.unicode_len() == 0 {
        s.append("*(empty)*");
    } else {
        s.append("`");
        push_code_lines(&mut s, value);
        s.append("`");
    }
    s.append("\n\n**Source**: `");
    s.append(source);
    s.append("`");
    match description {
        Some(d) => {
            if d.unicode_len() > 0 {
                s.append("\n\n*");
                s.append(d);
                s.append("*");
            }
        },
        None => {},
    }
    s
}

/// The documentation of a completion item, its value masked where the
/// masking settings hide values in completions.
pub fn masked_completion_documentation(
    masking: &MaskingConfig,
    value: &str,
    source: &str,
    description: Option<&str>,
) -> (r: String)
    ensures
        r@ == spec_completion_doc(
            masking.spec_apply(value@, MaskSurface::Completion),
            source@,
            match description {
                Some(d) => Some(d@),
                None => None,
            },
        ),
{
    let shown = masking.apply(value, MaskSurface::Completion);
    completion_documentation(shown.as_str(), source, description)
}

/// Whether an import specifier points at a file of the workspace (`./` or
/// `../`).
pub fn is_relative_specifier(specifier: &str) -> (b: bool)
    ensures
        b == (specifier@.len() >= 2 && specifier@.subrange(0, 2) == "./"@
            || specifier@.len() >= 3 && specifier@.subrange(0, 3) == "../"@),
{
    proof {
        reveal_strlit("./");
        reveal_strlit("../");
    }
    starts_with(specifier, "./") || starts_with(specifier, "../")
}

/// How a variable is used at a location.
#[derive(Debug, Clone, Copy, PartialEq, Eq, Structural)]
pub enum UsageKind {
    DirectReference,
    PropertyAccess,
    BindingDeclaration,
    BindingUsage,
}

/// A usage of a variable in a file.
#[derive(Debug, Clone, Copy, PartialEq, Eq, Structural)]
pub struct Usage {
    pub range: Range,
    pub kind: UsageKind,
}

/// A place in a file.
pub struct Location {
    pub uri: String,
    pub range: Range,
}

/// A replacement of a range by text.
pub struct TextEdit {
    pub range: Range,
    pub new_text: String,
}

/// The usages a rename or a reference list covers: all but the uses of a
/// bound name, which follow the binding.
pub open spec fn renamed_usages(usages: Seq<Usage>) -> Seq<Usage>
    decreases usages.len(),
{
    if usages.len() == 0 {
        Seq::empty()
    } else {
        let before = renamed_usages(usages.drop_last());
        if usages.last().kind == UsageKind::BindingUsage {
            before
        } else {
            before.push(usages.last())
        }
    }
}

pub open spec fn edits_view(edits: Seq<TextEdit>) -> Seq<(Range, Seq<char>)> {
    Seq::new(edits.len(), |i: int| (edits[i].range, edits[i].new_text@))
}

/// The edits that rename the usages `usages` to `new_name`.
pub fn rename_edits(usages: &Vec<Usage>, new_name: &str) -> (r: Vec<TextEdit>)
    ensures
        edits_view(r@) == Seq::new(
            renamed_usages(usages@).len(),
            |i: int| (renamed_usages(usages@)[i].range, new_name@),
        ),
{
    let mut r: Vec<TextEdit> = Vec::new();
    let mut i: usize = 0;
    proof {
        assert(usages@.take(0) =~= Seq::<Usage>::empty());
    }
    while i < usages.len()
        invariant
            0 <= i <= usages.len(),
            edits_view(r@) == Seq::new(
                renamed_usages(usages@.take(i as int)).len(),
                |k: int| (renamed_usages(usages@.take(i as int))[k].range, new_name@),
            ),
        decreases usages.len() - i,
    {
        proof {
            assert(usages@.take(i + 1).drop_last() =~= usages@.take(i as int));
        }
        let u = usages[i];
        if u.kind != UsageKind::BindingUsage {
            let ghost before = r@;
            r.push(TextEdit { range: u.range, new_text: new_name.to_string() });
            assert(usages@.take(i + 1).last() == u);
            assert(renamed_usages(usages@.take(i + 1)) == renamed_usages(usages@.take(i as int)).push(
                u,
            ));
            assert(edits_view(r@) =~= edits_view(before).push((u.range, new_name@)));
            assert(edits_view(r@) =~= Seq::new(
                renamed_usages(usages@.take(i + 1)).len(),
                |k: int| (renamed_usages(usages@.take(i + 1))[k].range, new_name@),
            ));
        } else {
            assert(edits_view(r@) =~= Seq::new(
                renamed_usages(usages@.take(i + 1)).len(),
                |k: int| (renamed_usages(usages@.take(i + 1))[k].range, new_name@),
            ));
        }
        i += 1;
    }
    assert(usages@.take(usages.len() as int) =~= usages@);
    r
}

/// Whether a variable is listed by a workspace symbol search for `query`:
/// its lowercase name holds the lowercase query.
pub open spec fn spec_symbol_matches(name: Seq<char>, query: Seq<char>) -> bool {
    lowercase(query).len() == 0 || spec_contains_str(lowercase(name), lowercase(query))
}

/// Whether `name` is listed by a workspace symbol search for `query`.
pub fn symbol_matches(name: &str, query: &str) -> (b: bool)
    ensures
        b == spec_symbol_matches(name@, query@),
{
    let q = to_lowercase(query);
    if q.as_str().unicode_len() == 0 {
        return true;
    }
    let n = to_lowercase(name);
    contains_str(n.as_str(), q.as_str())
}

pub open spec fn location_view(l: Location) -> (Seq<char>, Range) {
    (l.uri@, l.range)
}

pub open spec fn locations_view(v: Seq<Location>) -> Seq<(Seq<char>, Range)> {
    Seq::new(v.len(), |i: int| location_view(v[i]))
}

/// The locations of the usages `us` in the file `uri` that a reference list
/// shows.
pub open spec fn file_locations(uri: Seq<char>, us: Seq<Usage>) -> Seq<(Seq<char>, Range)> {
    Seq::new(renamed_usages(us).len(), |i: int| (uri, renamed_usages(us)[i].range))
}

/// The locations of the usages of all files, file after file.
pub open spec fn all_locations(f: Seq<(String, Vec<Usage>)>) -> Seq<(Seq<char>, Range)>
    decreases f.len(),
{
    if f.len() == 0 {
        Seq::empty()
    } else {
        all_locations(f.drop_last()) + file_locations(f.last().0@, f.last().1@)
    }
}

/// The references of a variable: its usages in each file, then its
/// definition where asked for and not already listed.
pub open spec fn spec_references(
    f: Seq<(String, Vec<Usage>)>,
    definition: Option<(Seq<char>, Range)>,
    include_declaration: bool,
) -> Seq<(Seq<char>, Range)> {
    let locs = all_locations(f);
    match definition {
        Some(d) => if include_declaration && !locs.contains(d) {
            locs.push(d)
        } else {
            locs
        },
        None => locs,
    }
}

fn same_location(a: &Location, b: &Location) -> (r: bool)
    ensures
        r == (location_view(*a) == location_view(*b)),
{
    str_eq(a.uri.as_str(), b.uri.as_str()) && a.range == b.range
}

/// A usage that a reference list and a rename take in: every usage but the
/// uses of a name bound to the variable.
pub open spec fn is_reference_usage(u: Usage) -> bool {
    !(u.kind is BindingUsage)
}

proof fn lemma_renamed_usages(us: Seq<Usage>)
    ensures
        forall|k: int|
            0 <= k < renamed_usages(us).len() ==> exists|j: int|
                0 <= j < us.len() && us[j] == #[trigger] renamed_usages(us)[k] && is_reference_usage(us[j]),
        forall|j: int|
            0 <= j < us.len() && is_reference_usage(#[trigger] us[j]) ==> renamed_usages(us).contains(us[j]),
    decreases us.len(),
{
    if us.len() > 0 {
        let p = us.drop_last();
        lemma_renamed_usages(p);
        let r = renamed_usages(us);
        assert forall|k: int| 0 <= k < r.len() implies exists|j: int|
            0 <= j < us.len() && us[j] == #[trigger] r[k] && is_reference_usage(us[j]) by {
            if k < renamed_usages(p).len() {
                let j = choose|j: int|
                    0 <= j < p.len() && p[j] == #[trigger] renamed_usages(p)[k] && is_reference_usage(p[j]);
                assert(us[j] == p[j]);
            } else {
                assert(us[us.len() - 1] == r[k]);
            }
        }
        assert forall|j: int| 0 <= j < us.len() && is_reference_usage(#[trigger] us[j]) implies r.contains(us[j]) by {
            if j < us.len() - 1 {
                assert(p[j] == us[j]);
                let k = choose|k: int| 0 <= k < renamed_usages(p).len() && renamed_usages(p)[k] == p[j];
                assert(r[k] == us[j]);
            } else {
                assert(r[r.len() - 1] == us[j]);
            }
        }
    }
}

proof fn lemma_all_locations(f: Seq<(String, Vec<Usage>)>)
    ensures
        forall|k: int|
            0 <= k < all_locations(f).len() ==> exists|i: int, j: int|
                0 <= i < f.len() && 0 <= j < f[i].1@.len() && is_reference_usage(f[i].1@[j])
                    && #[trigger] all_locations(f)[k] == (f[i].0@, f[i].1@[j].range),
        forall|i: int, j: int|
            0 <= i < f.len() && 0 <= j < f[i].1@.len() && is_reference_usage(#[trigger] f[i].1@[j])
                ==> all_locations(f).contains((f[i].0@, f[i].1@[j].range)),
    decreases f.len(),
{
    if f.len() > 0 {
        let p = f.drop_last();
        lemma_all_locations(p);
        let last = f.last();
        let n = f.len() - 1;
        lemma_renamed_usages(last.1@);
        let a = all_locations(p);
        let fl = file_locations(last.0@, last.1@);
        let all = all_locations(f);
        assert(all == a + fl);
        assert forall|k: int| 0 <= k < all.len() implies exists|i: int, j: int|
            0 <= i < f.len() && 0 <= j < f[i].1@.len() && is_reference_usage(f[i].1@[j])
                && #[trigger] all[k] == (f[i].0@, f[i].1@[j].range) by {
            if k < a.len() {
                let (i, j) = choose|i: int, j: int|
                    0 <= i < p.len() && 0 <= j < p[i].1@.len() && is_reference_usage(p[i].1@[j])
                        && #[trigger] a[k] == (p[i].0@, p[i].1@[j].range);
                assert(f[i] == p[i]);
                assert(all[k] == a[k]);
            } else {
                let k2 = k - a.len();
                let u = renamed_usages(last.1@)[k2];
                let j = choose|j: int|
                    0 <= j < last.1@.len() && last.1@[j] == #[trigger] renamed_usages(last.1@)[k2]
                        && is_reference_usage(last.1@[j]);
                assert(all[k] == fl[k2]);
                assert(f[n] == last);
            }
        }
        assert forall|i: int, j: int|
            0 <= i < f.len() && 0 <= j < f[i].1@.len() && is_reference_usage(#[trigger] f[i].1@[j])
                implies all.contains((f[i].0@, f[i].1@[j].range)) by {
            if i < n {
                assert(p[i] == f[i]);
                let k = choose|k: int| 0 <= k < a.len() && a[k] == (p[i].0@, p[i].1@[j].range);
                assert(all[k] == a[k]);
            } else {
                assert(f[i] == last);
                let k2 = choose|k2: int|
                    0 <= k2 < renamed_usages(last.1@).len() && renamed_usages(last.1@)[k2] == last.1@[j];
                assert(all[a.len() + k2] == fl[k2]);
            }
        }
    }
}

/// A rename edits exactly the places where the variable is read: each edit
/// puts the new name over a usage that is not the use of a bound name, and
/// every such usage gets one.
pub proof fn law_rename_edits_are_reads(us: Seq<Usage>, new_name: Seq<char>)
    ensures
        ({
            let e = Seq::new(
                renamed_usages(us).len(),
                |i: int| (renamed_usages(us)[i].range, new_name),
            );
            &&& forall|k: int|
                0 <= k < e.len() ==> exists|j: int|
                    0 <= j < us.len() && !(us[j].kind is BindingUsage) && #[trigger] e[k] == (
                        us[j].range,
                        new_name,
                    )
            &&& forall|j: int|
                0 <= j < us.len() && !(#[trigger] us[j].kind is BindingUsage) ==> e.contains(
                    (us[j].range, new_name),
                )
        }),
{
    lemma_renamed_usages(us);
    let e = Seq::new(renamed_usages(us).len(), |i: int| (renamed_usages(us)[i].range, new_name));
    assert forall|k: int| 0 <= k < e.len() implies exists|j: int|
        0 <= j < us.len() && !(us[j].kind is BindingUsage) && #[trigger] e[k] == (
            us[j].range,
            new_name,
        ) by {
        let j = choose|j: int|
            0 <= j < us.len() && us[j] == #[trigger] renamed_usages(us)[k] && is_reference_usage(us[j]);
        assert(e[k] == (us[j].range, new_name));
    }
    assert forall|j: int| 0 <= j < us.len() && !(#[trigger] us[j].kind is BindingUsage) implies e.contains(
        (us[j].range, new_name),
    ) by {
        assert(is_reference_usage(us[j]));
        let k = choose|k: int| 0 <= k < renamed_usages(us).len() && renamed_usages(us)[k] == us[j];
        assert(e[k] == (us[j].range, new_name));
    }
}

/// The references of a variable are exactly the places where it is read,
/// plus its definition where asked for: every usage but the uses of a name
/// bound to it is listed, and everything listed is such a usage or, when
/// the declaration is asked for, the definition.
pub proof fn law_references_are_reads(
    f: Seq<(String, Vec<Usage>)>,
    definition: Option<(Seq<char>, Range)>,
    include_declaration: bool,
)
    ensures
        forall|k: int|
            0 <= k < spec_references(f, definition, include_declaration).len() ==> (include_declaration
                && definition == Some(spec_references(f, definition, include_declaration)[k]))
                || exists|i: int, j: int|
                0 <= i < f.len() && 0 <= j < f[i].1@.len() && !(f[i].1@[j].kind is BindingUsage)
                    && #[trigger] spec_references(f, definition, include_declaration)[k] == (
                    f[i].0@,
                    f[i].1@[j].range,
                ),
        forall|i: int, j: int|
            0 <= i < f.len() && 0 <= j < f[i].1@.len() && !(#[trigger] f[i].1@[j].kind is BindingUsage)
                ==> spec_references(f, definition, include_declaration).contains(
                (f[i].0@, f[i].1@[j].range),
            ),
        include_declaration && definition is Some ==> spec_references(
            f,
            definition,
            include_declaration,
        ).contains(definition.unwrap()),
{
    lemma_all_locations(f);
    let locs = all_locations(f);
    let refs = spec_references(f, definition, include_declaration);
    assert forall|k: int| 0 <= k < refs.len() implies (include_declaration && definition == Some(
        refs[k],
    )) || exists|i: int, j: int|
        0 <= i < f.len() && 0 <= j < f[i].1@.len() && !(f[i].1@[j].kind is BindingUsage)
            && #[trigger] refs[k] == (f[i].0@, f[i].1@[j].range) by {
        if k < locs.len() {
            assert(refs[k] == locs[k]);
            let (i, j) = choose|i: int, j: int|
                0 <= i < f.len() && 0 <= j < f[i].1@.len() && is_reference_usage(f[i].1@[j])
                    && #[trigger] locs[k] == (f[i].0@, f[i].1@[j].range);
        }
    }
    assert forall|i: int, j: int|
        0 <= i < f.len() && 0 <= j < f[i].1@.len() && !(#[trigger] f[i].1@[j].kind is BindingUsage)
            implies refs.contains((f[i].0@, f[i].1@[j].range)) by {
        assert(is_reference_usage(f[i].1@[j]));
        let k = choose|k: int| 0 <= k < locs.len() && locs[k] == (f[i].0@, f[i].1@[j].range);
        assert(refs[k] == locs[k]);
    }
    if include_declaration && definition is Some {
        let d = definition.unwrap();
        if !locs.contains(d) {
            assert(refs[refs.len() - 1] == d);
        }
    }
}

/// The references of a variable, from the usages found in each file and
/// its definition; `None` where there are none.
pub fn reference_locations(
    file_usages: &Vec<(String, Vec<Usage>)>,
    definition: Option<Location>,
    include_declaration: bool,
) -> (r: Option<Vec<Location>>)
    ensures
        match r {
            Some(v) => v@.len() > 0 && locations_view(v@) == spec_references(
                file_usages@,
                match definition {
                    Some(d) => Some(location_view(d)),
                    None => None,
                },
                include_declaration,
            ),
            None => spec_references(
                file_usages@,
                match definition {
                    Some(d) => Some(location_view(d)),
                    None => None,
                },
                include_declaration,
            ).len() == 0,
        },
{
    let mut locs: Vec<Location> = Vec::new();
    let mut i: usize = 0;
    proof {
        assert(file_usages@.take(0) =~= Seq::<(String, Vec<Usage>)>::empty());
        assert(locations_view(locs@) =~= all_locations(file_usages@.take(0)));
    }
    while i < file_usages.len()
        invariant
            0 <= i <= file_usages.len(),
            locations_view(locs@) == all_locations(file_usages@.take(i as int)),
        decreases file_usages.len() - i,
    {
        proof {
            assert(file_usages@.take(i + 1).drop_last() =~= file_usages@.take(i as int));
        }
        let uri = &file_usages[i].0;
        let us = &file_usages[i].1;
        let ghost start = locations_view(locs@);
        let mut j: usize = 0;
        proof {
            assert(us@.take(0) =~= Seq::<Usage>::empty());
            assert(start + file_locations(uri@, us@.take(0)) =~= start);
        }
        while j < us.len()
            invariant
                0 <= j <= us.len(),
                locations_view(locs@) == start + file_locations(uri@, us@.take(j as int)),
            decreases us.len() - j,
        {
            proof {
                assert(us@.take(j + 1).drop_last() =~= us@.take(j as int));
                assert(us@.take(j + 1).last() == us@[j as int]);
            }
            let u = us[j];
            if u.kind != UsageKind::BindingUsage {
                let ghost before = locs@;
                locs.push(Location { uri: uri.clone(), range: u.range });
                assert(locations_view(locs@) =~= locations_view(before).push((uri@, u.range)));
                assert(file_locations(uri@, us@.take(j + 1)) =~= file_locations(
                    uri@,
                    us@.take(j as int),
                ).push((uri@, u.range)));
            } else {
                assert(file_locations(uri@, us@.take(j + 1)) =~= file_locations(
                    uri@,
                    us@.take(j as int),
                ));
            }
            j += 1;
        }
        assert(us@.take(us.len() as int) =~= us@);
        assert(file_usages@.take(i + 1).last() == file_usages@[i as int]);
        i += 1;
    }
    assert(file_usages@.take(file_usages.len() as int) =~= file_usages@);
    if include_declaration {
        match definition {
            Some(d) => {
                let mut found = false;
                let mut k: usize = 0;
                while k < locs.len()
                    invariant
                        0 <= k <= locs.len(),
                        found == exists|m: int|
                            0 <= m < k && location_view(#[trigger] locs@[m]) == location_view(d),
                    decreases locs.len() - k,
                {
                    if same_location(&locs[k], &d) {
                        found = true;
                    }
                    k += 1;
                }
                proof {
                    let lv = locations_view(locs@);
                    if found {
                        let m = choose|m: int|
                            0 <= m < locs.len() && location_view(#[trigger] locs@[m])
                                == location_view(d);
                        assert(lv[m] == location_view(d));
                    } else {
                        assert forall|m: int| 0 <= m < lv.len() implies lv[m] != location_view(
                            d,
                        ) by {
                            assert(lv[m] == location_view(locs@[m]));
                        }
                    }
                }
                if !found {
                    let ghost before = locs@;
                    locs.push(d);
                    assert(locations_view(locs@) =~= locations_view(before).push(
                        location_view(d),
                    ));
                }
            },
            None => {},
        }
    }
    if locs.len() == 0 {
        None
    } else {
        Some(locs)
    }
}

/// The edits of a rename, by file: the edit at the renamed definition in an
/// env file, then the edits of each file (which replace what a file already
/// had), then the definition in the env files where its file has no edit.
pub open spec fn spec_rename_changes(
    uri: Seq<char>,
    source_range: Option<Range>,
    files: Seq<(String, Vec<TextEdit>)>,
    definition: Option<(Seq<char>, Range)>,
    new_name: Seq<char>,
) -> Map<Seq<char>, Seq<(Range, Seq<char>)>> {
    let m0 = match source_range {
        Some(r) => Map::empty().insert(uri, seq![(r, new_name)]),
        None => Map::empty(),
    };
    let m1 = fold_file_edits(m0, files);
    match definition {
        Some((du, dr)) => if m1.dom().contains(du) {
            m1
        } else {
            m1.insert(du, seq![(dr, new_name)])
        },
        None => m1,
    }
}

/// `m` with the non-empty edit lists of `files` laid over it, in order.
pub open spec fn fold_file_edits(
    m: Map<Seq<char>, Seq<(Range, Seq<char>)>>,
    files: Seq<(String, Vec<TextEdit>)>,
) -> Map<Seq<char>, Seq<(Range, Seq<char>)>>
    decreases files.len(),
{
    if files.len() == 0 {
        m
    } else {
        let before = fold_file_edits(m, files.drop_last());
        if files.last().1@.len() > 0 {
            before.insert(files.last().0@, edits_view(files.last().1@))
        } else {
            before
        }
    }
}

pub open spec fn changes_view(m: Map<Seq<char>, Vec<TextEdit>>) -> Map<
    Seq<char>,
    Seq<(Range, Seq<char>)>,
> {
    m.map_values(|v: Vec<TextEdit>| edits_view(v@))
}

/// The edits of a rename to `new_name`, by file; `None` where there are
/// none.
pub fn plan_rename(
    uri: &str,
    source_range: Option<Range>,
    files: Vec<(String, Vec<TextEdit>)>,
    definition: Option<Location>,
    new_name: &str,
) -> (r: Option<Vec<(String, Vec<TextEdit>)>>)
    ensures
        match r {
            Some(v) => spec_is_valid_env_var_name(new_name@) && key_views(v@).no_duplicates() && changes_view(
                crate::keyed::pairs_map(v@),
            ) == spec_rename_changes(
                uri@,
                source_range,
                files@,
                match definition {
                    Some(d) => Some(location_view(d)),
                    None => None,
                },
                new_name@,
            ) && v@.len() > 0,
            None => !spec_is_valid_env_var_name(new_name@) || spec_rename_changes(
                uri@,
                source_range,
                files@,
                match definition {
                    Some(d) => Some(location_view(d)),
                    None => None,
                },
                new_name@,
            ) == Map::<Seq<char>, Seq<(Range, Seq<char>)>>::empty(),
        },
{
    if !is_valid_env_var_name(new_name) {
        return None;
    }
    let mut changes: KeyedMap<String, Vec<TextEdit>> = KeyedMap::new();
    match source_range {
        Some(r) => {
            let e = vec![TextEdit { range: r, new_text: new_name.to_string() }];
            assert(edits_view(e@) =~= seq![(r, new_name@)]);
            changes.insert(uri.to_string(), e);
        },
        None => {},
    }
    let ghost m0 = changes_view(changes.map());
    proof {
        assert(m0 =~= match source_range {
            Some(r) => Map::<Seq<char>, Seq<(Range, Seq<char>)>>::empty().insert(
                uri@,
                seq![(r, new_name@)],
            ),
            None => Map::<Seq<char>, Seq<(Range, Seq<char>)>>::empty(),
        });
        assert(files@.take(0) =~= Seq::<(String, Vec<TextEdit>)>::empty());
    }
    let ghost fs = files@;
    let mut files = files;
    let mut i: usize = 0;
    let n = files.len();
    while files.len() > 0
        invariant
            changes.wf(),
            n == fs.len(),
            i + files.len() == n,
            files@ == fs.skip(i as int),
            changes_view(changes.map()) == fold_file_edits(m0, fs.take(i as int)),
        decreases files.len(),
    {
        let (f, edits) = files.remove(0);
        proof {
            assert(fs.take(i + 1).drop_last() =~= fs.take(i as int));
            assert(fs.take(i + 1).last() == fs[i as int]);
            assert(fs.skip(i as int)[0] == fs[i as int]);
            assert(fs.skip(i + 1) =~= fs.skip(i as int).drop_first());
        }
        if edits.len() > 0 {
            let ghost ev = edits_view(edits@);
            let ghost fv = f@;
            changes.insert(f, edits);
            assert(changes_view(changes.map()) =~= fold_file_edits(m0, fs.take(i as int)).insert(
                fv,
                ev,
            ));
        }
        i += 1;
    }
    assert(fs.take(n as int) =~= fs);
    match definition {
        Some(d) => {
            if !changes.contains_key(&d.uri) {
                let e = vec![TextEdit { range: d.range, new_text: new_name.to_string() }];
                assert(edits_view(e@) =~= seq![(d.range, new_name@)]);
                let ghost du = d.uri@;
                let ghost before = changes_view(changes.map());
                changes.insert(d.uri, e);
                assert(changes_view(changes.map()) =~= before.insert(du, seq![(d.range, new_name@)]));
            }
        },
        None => {},
    }
    proof {
        changes.lemma_entries();
    }
    if changes.entries.len() == 0 {
        proof {
            assert(changes.map().dom() =~= Set::<Seq<char>>::empty());
            assert(changes_view(changes.map()) =~= Map::<
                Seq<char>,
                Seq<(Range, Seq<char>)>,
            >::empty());
        }
        None
    } else {
        Some(changes.entries)
    }
}

/// The range a jump to a definition selects: from the key's line and
/// column, as wide as the key's length in UTF-8 bytes.
pub open spec fn spec_definition_range(pos: (u32, u32), key: Seq<char>) -> Range {
    Range {
        start: Position { line: pos.0, character: pos.1 },
        end: Position { line: pos.0, character: (pos.1 + byte_len(key)) as u32 },
    }
}

/// The range selected by a jump to the definition of `key`, which a file
/// source places at byte `offset` of `content`.
pub fn definition_range(content: &str, offset: usize, key: &str) -> (r: Range)
    requires
        byte_len(content@) <= usize::MAX,
        offset >= byte_len(content@) || is_char_boundary_of(content@, offset as int),
        content@.len() + byte_len(key@) <= u32::MAX,
    ensures
        offset >= byte_len(content@) ==> r == spec_definition_range((0u32, 0u32), key@),
        forall|k: int|
            0 <= k <= content@.len() && #[trigger] byte_offset_of(content@, k) == offset && offset
                < byte_len(content@) ==> r == spec_definition_range(spec_line_col(content@, k), key@),
{
    let (line, character) = offset_to_linecol(content, offset);
    proof {
        lemma_str_len(key);
        if offset < byte_len(content@) {
            let k = choose|k: int| 0 <= k <= content@.len() && #[trigger] byte_offset_of(content@, k) == offset;
            lemma_line_start_le(content@, k);
            assert(character == spec_line_col(content@, k).1);
            assert(character <= content@.len());
        }
    }
    Range::new(Position::new(line, character), Position::new(line, character + key.len() as u32))
}

/// The range at the very start of a file.
pub open spec fn file_start() -> Range {
    Range { start: Position { line: 0, character: 0 }, end: Position { line: 0, character: 0 } }
}

/// Where a workspace symbol for a variable points: its definition where one
/// is known; else the first of the files that read it, at the variable's
/// first usage there (`first_usage`) or at the start of the file; nowhere
/// where no file reads it.
pub fn symbol_location(definition: Option<Location>, files: &Vec<String>, first_usage: Option<Range>) -> (r:
    Option<Location>)
    ensures
        match definition {
            Some(d) => r == Some(d),
            None => match r {
                Some(l) => files@.len() > 0 && l.uri@ == files@[0]@ && l.range == match first_usage {
                    Some(u) => u,
                    None => file_start(),
                },
                None => files@.len() == 0,
            },
        },
{
    match definition {
        Some(d) => Some(d),
        None => {
            if files.len() == 0 {
                None
            } else {
                let range = match first_usage {
                    Some(u) => u,
                    None => Range::new(Position::new(0, 0), Position::new(0, 0)),
                };
                Some(Location { uri: files[0].clone(), range })
            }
        },
    }
}

/// A variable found by a workspace symbol search, and where it is.
pub struct SymbolEntry {
    pub name: String,
    pub location: Location,
}

pub open spec fn symbol_view(e: SymbolEntry) -> (Seq<char>, (Seq<char>, Range)) {
    (e.name@, location_view(e.location))
}

pub open spec fn symbols_view(v: Seq<SymbolEntry>) -> Seq<(Seq<char>, (Seq<char>, Range))> {
    Seq::new(v.len(), |i: int| symbol_view(v[i]))
}

/// Names in order: no name comes after a later one.
pub open spec fn names_ordered(v: Seq<(Seq<char>, (Seq<char>, Range))>) -> bool {
    forall|i: int, j: int| 0 <= i < j < v.len() ==> !lex_lt(#[trigger] v[j].0, #[trigger] v[i].0)
}

/// The symbols of a search, ordered by name; `None` where there are none.
pub fn workspace_symbols(found: Vec<SymbolEntry>) -> (r: Option<Vec<SymbolEntry>>)
    ensures
        match r {
            Some(v) => v@.len() > 0 && names_ordered(symbols_view(v@)) && symbols_view(
                v@,
            ).to_multiset() == symbols_view(found@).to_multiset(),
            None => found@.len() == 0,
        },
{
    broadcast use vstd::seq_lib::group_to_multiset_ensures;

    let ghost all = found@;
    let mut found = found;
    let mut out: Vec<SymbolEntry> = Vec::new();
    let mut i: usize = 0;
    let n = found.len();
    proof {
        assert(symbols_view(out@) =~= Seq::<(Seq<char>, (Seq<char>, Range))>::empty());
        assert(all.take(0) =~= Seq::<SymbolEntry>::empty());
        assert(symbols_view(all.take(0)) =~= Seq::<(Seq<char>, (Seq<char>, Range))>::empty());
    }
    while found.len() > 0
        invariant
            n == all.len(),
            i + found.len() == n,
            found@ == all.skip(i as int),
            names_ordered(symbols_view(out@)),
            symbols_view(out@).to_multiset() == symbols_view(all.take(i as int)).to_multiset(),
        decreases found.len(),
    {
        let x = found.remove(0);
        proof {
            assert(all.skip(i as int)[0] == all[i as int]);
            assert(all.skip(i + 1) =~= all.skip(i as int).drop_first());
            assert(symbols_view(all.take(i + 1)) =~= symbols_view(all.take(i as int)).push(
                symbol_view(all[i as int]),
            ));
        }
        let ghost s = symbols_view(out@);
        let mut p: usize = 0;
        while p < out.len() && !str_lt(x.name.as_str(), out[p].name.as_str())
            invariant
                s == symbols_view(out@),
                0 <= p <= out.len(),
                forall|k: int| 0 <= k < p ==> !lex_lt(x.name@, #[trigger] s[k].0),
            decreases out.len() - p,
        {
            p += 1;
        }
        let ghost xv = symbol_view(x);
        out.insert(p, x);
        proof {
            let t = symbols_view(out@);
            assert(t =~= s.insert(p as int, xv));
            assert(xv == symbol_view(all[i as int]));
            vstd::seq_lib::to_multiset_insert(s, p as int, xv);
            vstd::seq_lib::to_multiset_build(symbols_view(all.take(i as int)), xv);
            assert forall|a: int, b: int| 0 <= a < b < t.len() implies !lex_lt(
                #[trigger] t[b].0,
                #[trigger] t[a].0,
            ) by {
                if b < p {
                    assert(t[a] == s[a] && t[b] == s[b]);
                } else if b == p {
                    assert(t[a] == s[a]);
                } else if a == p {
                    assert(t[b] == s[b - 1]);
                    assert(lex_lt(xv.0, s[p as int].0));
                    if b - 1 > p {
                        assert(!lex_lt(s[b - 1].0, s[p as int].0));
                    }
                    if lex_lt(s[b - 1].0, xv.0) {
                        crate::order::lemma_lex_transitive(s[b - 1].0, xv.0, s[p as int].0);
                        if b - 1 == p {
                            crate::order::lemma_lex_irreflexive(s[p as int].0);
                        }
                    }
                } else if a < p {
                    assert(t[a] == s[a] && t[b] == s[b - 1]);
                } else {
                    assert(t[a] == s[a - 1] && t[b] == s[b - 1]);
                }
            }
        }
        i += 1;
    }
    assert(all.take(n as int) =~= all);
    if out.len() == 0 {
        proof {
            assert(symbols_view(all).to_multiset().len() == 0);
            assert(symbols_view(all).len() == 0);
        }
        None
    } else {
        Some(out)
    }
}

} // verus!
