//! The glob patterns that tell env files apart (`.env`, `.env.*`, ...),
//! compiled and matched by the `glob` crate.
use vstd::prelude::*;

verus! {

#[verifier::external_type_specification]
#[verifier::external_body]
pub struct ExGlobPattern(glob::Pattern);

/// Whether `glob::Pattern::new` accepts `pattern`.
pub uninterp spec fn glob_valid(pattern: Seq<char>) -> bool;

/// Whether the pattern compiled from `pattern` matches `name`, with the
/// default match options (`glob::Pattern::matches`).
pub uninterp spec fn glob_matches(pattern: Seq<char>, name: Seq<char>) -> bool;

/// A compiled glob pattern together with the text it was compiled from.
pub struct CompiledPattern {
    source: String,
    compiled: glob::Pattern,
}

impl CompiledPattern {
    /// The text the pattern was compiled from.
    pub closed spec fn source_view(&self) -> Seq<char> {
        self.source@
    }
}

/// `glob::Pattern::new`: compiles `pattern`; `None` where it is not a valid
/// glob. The compiled pattern keeps its source text beside it.
#[verifier::external_body]
fn compile_glob(pattern: &str) -> (r: Option<CompiledPattern>)
    ensures
        r is Some <==> glob_valid(pattern@),
        r matches Some(c) ==> c.source_view() == pattern@,
{
    glob::Pattern::new(pattern).ok().map(|p| CompiledPattern { source: pattern.to_string(), compiled: p })
}

/// `glob::Pattern::matches`: whether the compiled pattern matches `name`.
#[verifier::external_body]
fn glob_match(c: &CompiledPattern, name: &str) -> (b: bool)
    ensures
        b == glob_matches(c.source_view(), name@),
{
    c.compiled.matches(name)
}

/// The valid patterns of `raw`, in order.
pub open spec fn valid_patterns(raw: Seq<Seq<char>>) -> Seq<Seq<char>>
    decreases raw.len(),
{
    if raw.len() == 0 {
        Seq::empty()
    } else {
        let before = valid_patterns(raw.drop_last());
        if glob_valid(raw.last()) {
            before.push(raw.last())
        } else {
            before
        }
    }
}

/// The env file patterns of the configuration, those that compile.
pub struct CompiledEnvPatterns {
    patterns: Vec<CompiledPattern>,
}

impl CompiledEnvPatterns {
    /// The sources of the compiled patterns, in order.
    pub closed spec fn sources(&self) -> Seq<Seq<char>> {
        Seq::new(self.patterns@.len(), |i: int| self.patterns@[i].source_view())
    }

    /// Compiles the patterns of `raw`, dropping those that are not valid.
    pub fn compile(raw: &Vec<String>) -> (r: Self)
        ensures
            r.sources() == valid_patterns(crate::text::strs_of(raw@)),
    {
        let ghost rv = crate::text::strs_of(raw@);
        let mut patterns: Vec<CompiledPattern> = Vec::new();
        let mut i: usize = 0;
        proof {
            assert(rv.take(0) =~= Seq::<Seq<char>>::empty());
        }
        while i < raw.len()
            invariant
                rv == crate::text::strs_of(raw@),
                0 <= i <= raw.len(),
                Seq::new(patterns@.len(), |k: int| patterns@[k].source_view()) == valid_patterns(
                    rv.take(i as int),
                ),
            decreases raw.len() - i,
        {
            proof {
                assert(rv.take(i + 1).drop_last() =~= rv.take(i as int));
                assert(rv.take(i + 1).last() == raw@[i as int]@);
            }
            let ghost before = patterns@;
            match compile_glob(raw[i].as_str()) {
                Some(c) => {
                    patterns.push(c);
                    assert(Seq::new(patterns@.len(), |k: int| patterns@[k].source_view()) =~= Seq::new(
                        before.len(),
                        |k: int| before[k].source_view(),
                    ).push(raw@[i as int]@));
                },
                None => {},
            }
            i += 1;
        }
        assert(rv.take(raw.len() as int) =~= rv);
        CompiledEnvPatterns { patterns }
    }

    /// Whether some pattern matches `file_name`.
    pub fn matches(&self, file_name: &str) -> (b: bool)
        ensures
            b == exists|k: int|
                0 <= k < self.sources().len() && glob_matches(#[trigger] self.sources()[k], file_name@),
    {
        let mut i: usize = 0;
        while i < self.patterns.len()
            invariant
                0 <= i <= self.patterns.len(),
                forall|k: int| 0 <= k < i ==> !glob_matches(#[trigger] self.sources()[k], file_name@),
            decreases self.patterns.len() - i,
        {
            if glob_match(&self.patterns[i], file_name) {
                assert(glob_matches(self.sources()[i as int], file_name@));
                return true;
            }
            i += 1;
        }
        false
    }
}

impl Default for CompiledEnvPatterns {
    /// No pattern: nothing is an env file.
    fn default() -> (r: Self)
        ensures
            r.sources() == Seq::<Seq<char>>::empty(),
    {
        let r = CompiledEnvPatterns { patterns: Vec::new() };
        assert(r.sources() =~= Seq::<Seq<char>>::empty());
        r
    }
}

/// Whether a file named `file_name` is an env file under the patterns
/// `patterns` (patterns that do not compile match nothing).
pub fn is_env_file_name(patterns: &Vec<String>, file_name: &str) -> (b: bool)
    ensures
        b == exists|k: int|
            0 <= k < valid_patterns(crate::text::strs_of(patterns@)).len() && glob_matches(
                #[trigger] valid_patterns(crate::text::strs_of(patterns@))[k],
                file_name@,
            ),
{
    let compiled = CompiledEnvPatterns::compile(patterns);
    compiled.matches(file_name)
}

} // verus!
