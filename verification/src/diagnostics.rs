//! Diagnostics of a document: parse errors of dotenv files, syntax errors of
//! code files and references to variables that no source defines.
use crate::config::strings_view;
use crate::dotenv::{
    env_file_diagnostics, error_offsets_aligned, errors_of, reports_parse_error, Diagnostic,
    DotenvEntry, Severity,
};
use crate::position::Range;
use crate::text::{byte_len, concat, str_eq};
use vstd::prelude::*;

verus! {

/// An environment variable name found at a range of a document.
#[derive(Debug, Clone, PartialEq, Eq)]
pub struct NamedRange {
    pub name: String,
    pub range: Range,
}

/// A syntax error of a code file, with the parser's message when it has one.
#[derive(Debug, Clone, PartialEq, Eq)]
pub struct SyntaxError {
    pub range: Range,
    pub message: Option<String>,
}

/// Whether `s` is one of `v`.
pub fn contains_string(v: &Vec<String>, s: &str) -> (r: bool)
    ensures
        r == strings_view(v@).contains(s@),
{
    let mut i: usize = 0;
    while i < v.len()
        invariant
            0 <= i <= v.len(),
            forall|j: int| 0 <= j < i ==> v@[j]@ != s@,
        decreases v.len() - i,
    {
        if str_eq(v[i].as_str(), s) {
            assert(strings_view(v@)[i as int] == s@);
            return true;
        }
        i += 1;
    }
    assert forall|j: int| 0 <= j < strings_view(v@).len() implies strings_view(v@)[j] != s@ by {
        assert(strings_view(v@)[j] == v@[j]@);
    }
    false
}

/// `acc` extended with the names of `items` it does not hold yet, in order.
pub open spec fn add_names(acc: Seq<Seq<char>>, items: Seq<NamedRange>) -> Seq<Seq<char>>
    decreases items.len(),
{
    if items.len() == 0 {
        acc
    } else {
        let before = add_names(acc, items.drop_last());
        if before.contains(items.last().name@) {
            before
        } else {
            before.push(items.last().name@)
        }
    }
}

/// The names of `items`, each once, in order of first appearance.
pub open spec fn unique_names(items: Seq<NamedRange>) -> Seq<Seq<char>> {
    add_names(Seq::empty(), items)
}

proof fn lemma_add_names_concat(acc: Seq<Seq<char>>, a: Seq<NamedRange>, b: Seq<NamedRange>)
    ensures
        add_names(acc, a + b) == add_names(add_names(acc, a), b),
    decreases b.len(),
{
    if b.len() == 0 {
        assert(a + b =~= a);
    } else {
        assert((a + b).drop_last() =~= a + b.drop_last());
        lemma_add_names_concat(acc, a, b.drop_last());
    }
}

proof fn lemma_add_names(acc: Seq<Seq<char>>, items: Seq<NamedRange>)
    requires
        acc.no_duplicates(),
    ensures
        add_names(acc, items).no_duplicates(),
        forall|x: Seq<char>|
            #[trigger] add_names(acc, items).contains(x) <==> (acc.contains(x) || exists|j: int|
                0 <= j < items.len() && #[trigger] items[j].name@ == x),
    decreases items.len(),
{
    if items.len() > 0 {
        let p = items.drop_last();
        lemma_add_names(acc, p);
        let before = add_names(acc, p);
        let l = items.last().name@;
        let r = add_names(acc, items);
        assert forall|x: Seq<char>| r.contains(x) <==> (before.contains(x) || x == l) by {
            if !before.contains(l) {
                if r.contains(x) && x != l {
                    let k = choose|k: int| 0 <= k < r.len() && r[k] == x;
                    assert(before[k] == x);
                }
                if x == l {
                    assert(r[r.len() - 1] == l);
                }
                if before.contains(x) {
                    let k = choose|k: int| 0 <= k < before.len() && before[k] == x;
                    assert(r[k] == x);
                }
            }
        }
        assert forall|x: Seq<char>|
            r.contains(x) <==> (acc.contains(x) || exists|j: int|
                0 <= j < items.len() && #[trigger] items[j].name@ == x) by {
            assert(r.contains(x) <==> (before.contains(x) || x == l));
            assert(before.contains(x) <==> (acc.contains(x) || exists|j: int|
                0 <= j < p.len() && #[trigger] p[j].name@ == x));
            if x == l {
                assert(items[items.len() - 1].name@ == x);
            }
            if exists|j: int| 0 <= j < p.len() && #[trigger] p[j].name@ == x {
                let j = choose|j: int| 0 <= j < p.len() && #[trigger] p[j].name@ == x;
                assert(items[j] == p[j]);
            }
            if exists|j: int| 0 <= j < items.len() && #[trigger] items[j].name@ == x {
                let j = choose|j: int| 0 <= j < items.len() && #[trigger] items[j].name@ == x;
                if j < p.len() {
                    assert(p[j] == items[j]);
                } else {
                    assert(x == l);
                }
            }
            assert(items[items.len() - 1].name@ == l);
        }
    }
}

/// The names to resolve for a document are its names, each exactly once: a
/// name is listed if and only if some reference, bound symbol or property
/// access carries it, and no name is listed twice.
pub proof fn law_names_once_each(items: Seq<NamedRange>)
    ensures
        unique_names(items).no_duplicates(),
        forall|x: Seq<char>|
            unique_names(items).contains(x) <==> exists|j: int|
                0 <= j < items.len() && #[trigger] items[j].name@ == x,
{
    let e = Seq::<Seq<char>>::empty();
    lemma_add_names(e, items);
    assert forall|x: Seq<char>|
        unique_names(items).contains(x) <==> exists|j: int|
            0 <= j < items.len() && #[trigger] items[j].name@ == x by {
        assert(!e.contains(x));
        assert(add_names(e, items).contains(x) <==> (e.contains(x) || exists|j: int|
            0 <= j < items.len() && #[trigger] items[j].name@ == x));
    }
}

/// Appends to `names` the names of `items` it does not hold yet.
fn add_unique_names(names: &mut Vec<String>, items: &Vec<NamedRange>)
    ensures
        strings_view(final(names)@) == add_names(strings_view(old(names)@), items@),
{
    let ghost start = strings_view(names@);
    let mut i: usize = 0;
    while i < items.len()
        invariant
            0 <= i <= items.len(),
            strings_view(names@) == add_names(start, items@.take(i as int)),
        decreases items.len() - i,
    {
        proof {
            assert(items@.take(i + 1).drop_last() =~= items@.take(i as int));
        }
        let name = items[i].name.as_str();
        if !contains_string(names, name) {
            let ghost before = names@;
            names.push(items[i].name.clone());
            assert(strings_view(names@) =~= strings_view(before).push(items@[i as int].name@));
        }
        i += 1;
    }
    assert(items@.take(items@.len() as int) =~= items@);
}

/// Every name that has to be resolved to check a document: the names of the
/// direct references, the symbols bound to variables and the property
/// accesses on environment objects, without repetition.
pub fn names_to_resolve(
    references: &Vec<NamedRange>,
    symbols: &Vec<NamedRange>,
    properties: &Vec<NamedRange>,
) -> (names: Vec<String>)
    ensures
        strings_view(names@) == unique_names(references@ + symbols@ + properties@),
{
    let mut names: Vec<String> = Vec::new();
    assert(strings_view(names@) =~= Seq::<Seq<char>>::empty());
    add_unique_names(&mut names, references);
    add_unique_names(&mut names, symbols);
    add_unique_names(&mut names, properties);
    proof {
        let e = Seq::<Seq<char>>::empty();
        lemma_add_names_concat(e, references@, symbols@);
        lemma_add_names_concat(e, references@ + symbols@, properties@);
    }
    names
}

/// Message of an undefined-variable warning.
pub open spec fn undefined_message(name: Seq<char>) -> Seq<char> {
    "Environment variable '"@ + name + "' is not defined."@
}

/// The items whose name is not among `defined`, in order.
pub open spec fn undefined_items(items: Seq<NamedRange>, defined: Seq<Seq<char>>) -> Seq<NamedRange>
    decreases items.len(),
{
    if items.len() == 0 {
        Seq::empty()
    } else {
        let before = undefined_items(items.drop_last(), defined);
        if defined.contains(items.last().name@) {
            before
        } else {
            before.push(items.last())
        }
    }
}

/// Whether `d` is the syntax-error diagnostic of `e`.
pub open spec fn reports_syntax_error(e: SyntaxError, d: Diagnostic) -> bool {
    &&& d.range == e.range
    &&& d.severity == Severity::Error
    &&& d.code@ == "syntax-error"@
    &&& d.source@ == "ecolog"@
    &&& d.message@ == match e.message {
        Some(m) => m@,
        None => "Syntax error"@,
    }
}

/// Whether `d` is the undefined-variable warning of `item`.
pub open spec fn reports_undefined(item: NamedRange, d: Diagnostic) -> bool {
    &&& d.range == item.range
    &&& d.severity == Severity::Warning
    &&& d.code@ == "undefined-env-var"@
    &&& d.source@ == "ecolog"@
    &&& d.message@ == undefined_message(item.name@)
}

/// Appends one undefined-variable warning per item whose name is not defined.
fn push_undefined(out: &mut Vec<Diagnostic>, items: &Vec<NamedRange>, defined: &Vec<String>)
    ensures
        final(out)@.len() == old(out)@.len() + undefined_items(items@, strings_view(defined@)).len(),
        forall|j: int| 0 <= j < old(out)@.len() ==> final(out)@[j] == old(out)@[j],
        forall|j: int|
            0 <= j < undefined_items(items@, strings_view(defined@)).len() ==> reports_undefined(
                #[trigger] undefined_items(items@, strings_view(defined@))[j],
                final(out)@[old(out)@.len() + j],
            ),
{
    let ghost d = strings_view(defined@);
    let ghost start = out@;
    let mut i: usize = 0;
    while i < items.len()
        invariant
            0 <= i <= items.len(),
            d == strings_view(defined@),
            out@.len() == start.len() + undefined_items(items@.take(i as int), d).len(),
            forall|j: int| 0 <= j < start.len() ==> out@[j] == start[j],
            forall|j: int|
                0 <= j < undefined_items(items@.take(i as int), d).len() ==> reports_undefined(
                    #[trigger] undefined_items(items@.take(i as int), d)[j],
                    out@[start.len() + j],
                ),
        decreases items.len() - i,
    {
        proof {
            assert(items@.take(i + 1).drop_last() =~= items@.take(i as int));
        }
        let item = &items[i];
        if !contains_string(defined, item.name.as_str()) {
            let mut message = concat("Environment variable '", item.name.as_str());
            message.append("' is not defined.");
            out.push(
                Diagnostic {
                    range: item.range,
                    severity: Severity::Warning,
                    code: "undefined-env-var".to_string(),
                    source: "ecolog".to_string(),
                    message,
                },
            );
        }
        i += 1;
    }
    assert(items@.take(items@.len() as int) =~= items@);
}

/// Diagnostics of a code file: its syntax errors, then a warning for every
/// reference, bound symbol and property access whose variable is not among
/// the `defined` (resolved) names, in that order.
pub fn code_file_diagnostics(
    syntax_errors: &Vec<SyntaxError>,
    references: &Vec<NamedRange>,
    symbols: &Vec<NamedRange>,
    properties: &Vec<NamedRange>,
    defined: &Vec<String>,
) -> (d: Vec<Diagnostic>)
    ensures
        ({
            let dv = strings_view(defined@);
            let u = undefined_items(references@, dv) + undefined_items(symbols@, dv)
                + undefined_items(properties@, dv);
            &&& d@.len() == syntax_errors@.len() + u.len()
            &&& forall|j: int|
                0 <= j < syntax_errors@.len() ==> reports_syntax_error(
                    #[trigger] syntax_errors@[j],
                    d@[j],
                )
            &&& forall|j: int|
                0 <= j < u.len() ==> reports_undefined(
                    #[trigger] u[j],
                    d@[syntax_errors@.len() + j],
                )
        }),
{
    let mut out: Vec<Diagnostic> = Vec::new();
    let mut i: usize = 0;
    while i < syntax_errors.len()
        invariant
            0 <= i <= syntax_errors.len(),
            out@.len() == i,
            forall|j: int| 0 <= j < i ==> reports_syntax_error(#[trigger] syntax_errors@[j], out@[j]),
        decreases syntax_errors.len() - i,
    {
        let e = &syntax_errors[i];
        let message = match &e.message {
            Some(m) => m.clone(),
            None => "Syntax error".to_string(),
        };
        out.push(
            Diagnostic {
                range: e.range,
                severity: Severity::Error,
                code: "syntax-error".to_string(),
                source: "ecolog".to_string(),
                message,
            },
        );
        i += 1;
    }
    let ghost dv = strings_view(defined@);
    let ghost n0 = out@.len();
    push_undefined(&mut out, references, defined);
    let ghost n1 = out@.len();
    push_undefined(&mut out, symbols, defined);
    let ghost n2 = out@.len();
    push_undefined(&mut out, properties, defined);
    proof {
        let ur = undefined_items(references@, dv);
        let us = undefined_items(symbols@, dv);
        let up = undefined_items(properties@, dv);
        let u = ur + us + up;
        assert forall|j: int| 0 <= j < u.len() implies reports_undefined(
            #[trigger] u[j],
            out@[syntax_errors@.len() + j],
        ) by {
            if j < ur.len() {
                assert(u[j] == ur[j]);
            } else if j < ur.len() + us.len() {
                assert(u[j] == us[j - ur.len()]);
            } else {
                assert(u[j] == up[j - ur.len() - us.len()]);
            }
        }
    }
    out
}

/// Whether an undefined-variable warning is reported for `item`: exactly when
/// its name is not among the defined names.
pub proof fn law_undefined_iff_not_defined(items: Seq<NamedRange>, defined: Seq<Seq<char>>, k: int)
    requires
        0 <= k < items.len(),
    ensures
        undefined_items(items, defined).contains(items[k]) <== !defined.contains(items[k].name@),
        forall|j: int|
            0 <= j < undefined_items(items, defined).len() ==> !defined.contains(
                (#[trigger] undefined_items(items, defined)[j]).name@,
            ),
    decreases items.len(),
{
    lemma_undefined_items_names(items, defined);
    if k < items.len() - 1 {
        law_undefined_iff_not_defined(items.drop_last(), defined, k);
        assert(items.drop_last()[k] == items[k]);
        if !defined.contains(items[k].name@) {
            let before = undefined_items(items.drop_last(), defined);
            let i = choose|i: int| 0 <= i < before.len() && before[i] == items[k];
            if !defined.contains(items.last().name@) {
                assert(before.push(items.last())[i] == items[k]);
            }
        }
    } else {
        if !defined.contains(items[k].name@) {
            let before = undefined_items(items.drop_last(), defined);
            assert(before.push(items.last())[before.len() as int] == items[k]);
        }
    }
}

proof fn lemma_undefined_items_names(items: Seq<NamedRange>, defined: Seq<Seq<char>>)
    ensures
        forall|j: int|
            0 <= j < undefined_items(items, defined).len() ==> !defined.contains(
                (#[trigger] undefined_items(items, defined)[j]).name@,
            ),
    decreases items.len(),
{
    if items.len() > 0 {
        lemma_undefined_items_names(items.drop_last(), defined);
        let before = undefined_items(items.drop_last(), defined);
        if !defined.contains(items.last().name@) {
            assert forall|j: int| 0 <= j < before.push(items.last()).len() implies !defined.contains(
                (#[trigger] before.push(items.last())[j]).name@,
            ) by {
                if j < before.len() {
                    assert(before.push(items.last())[j] == before[j]);
                }
            }
        }
    }
}

/// The diagnostics of a document: nothing when diagnostics are switched off;
/// the parse errors of a dotenv file; otherwise those of a code file.
pub fn document_diagnostics(
    enabled: bool,
    is_env_file: bool,
    content: &str,
    entries: &Vec<DotenvEntry>,
    syntax_errors: &Vec<SyntaxError>,
    references: &Vec<NamedRange>,
    symbols: &Vec<NamedRange>,
    properties: &Vec<NamedRange>,
    defined: &Vec<String>,
) -> (d: Vec<Diagnostic>)
    requires
        enabled && is_env_file ==> byte_len(content@) <= usize::MAX && content@.len() < u32::MAX
            && error_offsets_aligned(content@, entries@),
    ensures
        !enabled ==> d@.len() == 0,
        enabled && is_env_file ==> d@.len() == errors_of(entries@).len() && forall|i: int|
            0 <= i < d@.len() ==> reports_parse_error(
                content@,
                #[trigger] errors_of(entries@)[i],
                d@[i],
            ),
        enabled && !is_env_file ==> ({
            let dv = strings_view(defined@);
            let u = undefined_items(references@, dv) + undefined_items(symbols@, dv)
                + undefined_items(properties@, dv);
            &&& d@.len() == syntax_errors@.len() + u.len()
            &&& forall|j: int|
                0 <= j < syntax_errors@.len() ==> reports_syntax_error(
                    #[trigger] syntax_errors@[j],
                    d@[j],
                )
            &&& forall|j: int|
                0 <= j < u.len() ==> reports_undefined(
                    #[trigger] u[j],
                    d@[syntax_errors@.len() + j],
                )
        }),
{
    if !enabled {
        return Vec::new();
    }
    if is_env_file {
        env_file_diagnostics(content, entries)
    } else {
        code_file_diagnostics(syntax_errors, references, symbols, properties, defined)
    }
}

} // verus!
