//! Configuration sections of the server and the rules that read them:
//! feature switches, value masking, inlay-hint display, indexing limits and
//! external-provider settings.
use crate::commands::SourceKind;
use crate::text::push_char;
use std::collections::HashMap;
use vstd::prelude::*;

verus! {

/// Which editor features are switched on.
#[derive(Debug, Clone, PartialEq, Eq, Structural)]
pub struct FeatureConfig {
    pub hover: bool,
    pub completion: bool,
    pub diagnostics: bool,
    pub definition: bool,
    pub inlay_hints: bool,
}

impl Default for FeatureConfig {
    /// Everything on except inlay hints.
    fn default() -> (r: Self)
        ensures
            r.hover && r.completion && r.diagnostics && r.definition && !r.inlay_hints,
    {
        FeatureConfig {
            hover: true,
            completion: true,
            diagnostics: true,
            definition: true,
            inlay_hints: false,
        }
    }
}

/// When set, hover and completion are only offered at recognised
/// environment-access sites.
#[derive(Debug, Clone, PartialEq, Eq, Structural)]
pub struct StrictConfig {
    pub hover: bool,
    pub completion: bool,
}

impl Default for StrictConfig {
    fn default() -> (r: Self)
        ensures
            r.hover && r.completion,
    {
        StrictConfig { hover: true, completion: true }
    }
}

/// The default deserialisation value of the boolean switches that are on.
pub fn true_bool() -> (r: bool)
    ensures
        r,
{
    true
}

/// Width of every mask, whatever the length of the hidden value.
pub const MASK_WIDTH: usize = 8;

/// `n` copies of `c`.
pub open spec fn repeat_char(c: char, n: nat) -> Seq<char> {
    Seq::new(n, |_i: int| c)
}

/// What masking shows for `value`: nothing for an empty value, otherwise a
/// fixed-width run of `mask_char` followed by the last `show_last` characters,
/// and only the run when `show_last` would reveal the whole value.
pub open spec fn spec_mask(mask_char: char, show_last: nat, value: Seq<char>) -> Seq<char> {
    if value.len() == 0 {
        Seq::empty()
    } else if show_last >= value.len() {
        repeat_char(mask_char, MASK_WIDTH as nat)
    } else {
        repeat_char(mask_char, MASK_WIDTH as nat) + value.subrange(
            value.len() - show_last,
            value.len() as int,
        )
    }
}

/// Controls whether resolved values are hidden when shown in the editor.
///
/// Off by default: turning it on changes what every hover and completion shows,
/// which should be a deliberate choice rather than something an upgrade does.
#[derive(Debug, Clone, PartialEq, Eq, Structural)]
pub struct MaskingConfig {
    /// Master switch. When false nothing is masked.
    pub enabled: bool,
    /// Mask values in hover tooltips.
    pub mask_in_hover: bool,
    /// Mask values in completion item documentation.
    pub mask_in_completion: bool,
    /// Mask values in inlay hints.
    pub mask_in_inlay_hints: bool,
    /// Character the value is replaced with.
    pub mask_char: char,
    /// How many trailing characters stay visible, for recognising a value
    /// without revealing it. `0` hides everything.
    pub show_last: usize,
}

/// The default mask character.
pub fn default_mask_char() -> (c: char)
    ensures
        c == '*',
{
    '*'
}

impl Default for MaskingConfig {
    fn default() -> (r: Self)
        ensures
            !r.enabled,
            r.mask_in_hover && r.mask_in_completion && r.mask_in_inlay_hints,
            r.mask_char == '*',
            r.show_last == 0,
    {
        MaskingConfig {
            enabled: false,
            mask_in_hover: true,
            mask_in_completion: true,
            mask_in_inlay_hints: true,
            mask_char: default_mask_char(),
            show_last: 0,
        }
    }
}

/// Where a value is about to be displayed.
#[derive(Debug, Clone, Copy, PartialEq, Eq, Structural)]
pub enum MaskSurface {
    Hover,
    Completion,
    InlayHint,
}

impl MaskingConfig {
    /// Whether masking is in force on `surface`.
    pub open spec fn masks_on(&self, surface: MaskSurface) -> bool {
        self.enabled && match surface {
            MaskSurface::Hover => self.mask_in_hover,
            MaskSurface::Completion => self.mask_in_completion,
            MaskSurface::InlayHint => self.mask_in_inlay_hints,
        }
    }

    /// Returns `value` with its characters replaced, honouring `show_last`.
    ///
    /// The mask is a fixed width so the original length is not leaked. An empty
    /// value stays empty: revealing that a variable is set but blank is not a
    /// disclosure, and callers render it as an explicit "empty" marker.
    pub fn mask(&self, value: &str) -> (r: String)
        ensures
            r@ == spec_mask(self.mask_char, self.show_last as nat, value@),
    {
        let chars = crate::text::chars_of(value);
        let mut out = String::new();
        if chars.len() == 0 {
            return out;
        }
        let revealed = if self.show_last < chars.len() {
            self.show_last
        } else {
            chars.len()
        };
        let hidden = chars.len() - revealed;
        let mut i: usize = 0;
        while i < MASK_WIDTH
            invariant
                i <= MASK_WIDTH,
                out@ == repeat_char(self.mask_char, i as nat),
            decreases MASK_WIDTH - i,
        {
            push_char(&mut out, self.mask_char);
            i += 1;
            assert(out@ =~= repeat_char(self.mask_char, i as nat));
        }
        if hidden == 0 {
            return out;
        }
        let mut j: usize = hidden;
        while j < chars.len()
            invariant
                hidden <= j <= chars.len(),
                chars@ == value@,
                out@ == repeat_char(self.mask_char, MASK_WIDTH as nat) + chars@.subrange(
                    hidden as int,
                    j as int,
                ),
            decreases chars.len() - j,
        {
            push_char(&mut out, chars[j]);
            j += 1;
            assert(out@ =~= repeat_char(self.mask_char, MASK_WIDTH as nat) + chars@.subrange(
                hidden as int,
                j as int,
            ));
        }
        out
    }

    /// What `surface` shows of `value`: its mask where masking is in force
    /// there, the value itself elsewhere.
    pub open spec fn spec_apply(&self, value: Seq<char>, surface: MaskSurface) -> Seq<char> {
        if self.masks_on(surface) {
            spec_mask(self.mask_char, self.show_last as nat, value)
        } else {
            value
        }
    }

    /// Masks `value` when masking is enabled for the given surface, and
    /// returns it unchanged otherwise.
    pub fn apply(&self, value: &str, surface: MaskSurface) -> (r: String)
        ensures
            r@ == self.spec_apply(value@, surface),
            self.masks_on(surface) ==> r@ == spec_mask(
                self.mask_char,
                self.show_last as nat,
                value@,
            ),
            !self.masks_on(surface) ==> r@ == value@,
    {
        let on = self.enabled && match surface {
            MaskSurface::Hover => self.mask_in_hover,
            MaskSurface::Completion => self.mask_in_completion,
            MaskSurface::InlayHint => self.mask_in_inlay_hints,
        };
        if on {
            self.mask(value)
        } else {
            value.to_string()
        }
    }
}

/// Masking hides the length of what it hides: two values that are longer than
/// the visible tail give masks of the same length.
pub proof fn law_mask_hides_length(mask_char: char, show_last: nat, a: Seq<char>, b: Seq<char>)
    requires
        a.len() > show_last,
        b.len() > show_last,
    ensures
        spec_mask(mask_char, show_last, a).len() == spec_mask(mask_char, show_last, b).len(),
        spec_mask(mask_char, show_last, a).len() == MASK_WIDTH + show_last,
{
}

/// A mask never shows more than the configured tail of the value: the first
/// `MASK_WIDTH` characters are the mask character, what follows is a suffix of
/// the value no longer than `show_last`, and a value the tail would cover
/// completely is not shown at all.
pub proof fn law_mask_reveals_only_tail(mask_char: char, show_last: nat, value: Seq<char>)
    requires
        value.len() > 0,
    ensures
        forall|i: int|
            0 <= i < MASK_WIDTH ==> #[trigger] spec_mask(mask_char, show_last, value)[i]
                == mask_char,
        show_last >= value.len() ==> spec_mask(mask_char, show_last, value) == repeat_char(
            mask_char,
            MASK_WIDTH as nat,
        ),
        show_last < value.len() ==> spec_mask(mask_char, show_last, value).subrange(
            MASK_WIDTH as int,
            spec_mask(mask_char, show_last, value).len() as int,
        ) == value.subrange(value.len() - show_last, value.len() as int),
{
    let m = spec_mask(mask_char, show_last, value);
    if show_last < value.len() {
        assert(m.subrange(MASK_WIDTH as int, m.len() as int) =~= value.subrange(
            value.len() - show_last,
            value.len() as int,
        ));
    }
}

/// An empty value masks to an empty string, and masking switched off on a
/// surface leaves every value as it is.
pub proof fn law_mask_empty_and_disabled(cfg: MaskingConfig, surface: MaskSurface)
    ensures
        spec_mask(cfg.mask_char, cfg.show_last as nat, Seq::empty()) == Seq::<char>::empty(),
        !cfg.enabled ==> !cfg.masks_on(surface),
{
}

/// Inlay hint display settings.
#[derive(Debug, Clone, PartialEq, Eq, Structural)]
pub struct InlayHintConfig {
    pub direct_references: bool,
    pub binding_declarations: bool,
    pub binding_usages: bool,
    pub property_accesses: bool,
    pub max_value_length: usize,
    pub max_hints_per_line: usize,
}

/// Default length past which an inlay hint value is cut.
pub fn default_max_hint_length() -> (n: usize)
    ensures
        n == 30,
{
    30
}

impl Default for InlayHintConfig {
    fn default() -> (r: Self)
        ensures
            r.direct_references && r.binding_declarations && !r.binding_usages
                && r.property_accesses,
            r.max_value_length == 30,
            r.max_hints_per_line == 0,
    {
        InlayHintConfig {
            direct_references: true,
            binding_declarations: true,
            binding_usages: false,
            property_accesses: true,
            max_value_length: default_max_hint_length(),
            max_hints_per_line: 0,
        }
    }
}

/// Limits of the background workspace scan.
#[derive(Debug, Clone, PartialEq, Eq)]
pub struct IndexingConfig {
    pub exclude: Vec<String>,
    pub max_files: usize,
    pub max_file_size: u64,
    pub max_depth: usize,
    /// Number of files analyzed concurrently during workspace indexing.
    ///
    /// `0` picks a value from the core count that leaves headroom for the
    /// editor.
    pub parallelism: usize,
}

/// Directory names skipped by default during the scan.
pub open spec fn spec_default_exclude_patterns() -> Seq<Seq<char>> {
    seq![
        "node_modules"@,
        ".git"@,
        "target"@,
        "dist"@,
        "build"@,
        ".next"@,
        "__pycache__"@,
        "vendor"@,
        ".venv"@,
        "out"@,
        ".cache"@,
        ".tox"@,
        "coverage"@,
    ]
}

/// The views of a list of strings.
pub open spec fn strings_view(v: Seq<String>) -> Seq<Seq<char>> {
    v.map_values(|s: String| s@)
}

/// Directory names skipped by default during the scan.
pub fn default_exclude_patterns() -> (v: Vec<String>)
    ensures
        strings_view(v@) == spec_default_exclude_patterns(),
{
    let v = vec![
        "node_modules".to_string(),
        ".git".to_string(),
        "target".to_string(),
        "dist".to_string(),
        "build".to_string(),
        ".next".to_string(),
        "__pycache__".to_string(),
        "vendor".to_string(),
        ".venv".to_string(),
        "out".to_string(),
        ".cache".to_string(),
        ".tox".to_string(),
        "coverage".to_string(),
    ];
    assert(strings_view(v@) =~= spec_default_exclude_patterns());
    v
}

pub fn default_max_files() -> (n: usize)
    ensures
        n == 5000,
{
    5000
}

pub fn default_max_file_size() -> (n: u64)
    ensures
        n == 1_048_576,
{
    1_048_576
}

pub fn default_max_depth() -> (n: usize)
    ensures
        n == 30,
{
    30
}

pub fn default_indexing_parallelism() -> (n: usize)
    ensures
        n == 0,
{
    0
}

impl Default for IndexingConfig {
    fn default() -> (r: Self)
        ensures
            strings_view(r.exclude@) == spec_default_exclude_patterns(),
            r.max_files == 5000,
            r.max_file_size == 1_048_576,
            r.max_depth == 30,
            r.parallelism == 0,
    {
        IndexingConfig {
            exclude: default_exclude_patterns(),
            max_files: default_max_files(),
            max_file_size: default_max_file_size(),
            max_depth: default_max_depth(),
            parallelism: default_indexing_parallelism(),
        }
    }
}

/// Number of logical CPUs the process may use (`num_cpus::get`). It depends
/// on the machine; the crate documents only that it is at least one.
#[verifier::external_body]
fn logical_cpu_count() -> (n: usize)
    ensures
        n >= 1,
{
    num_cpus::get()
}

/// Worker count derived from a CPU count: half the cores, at least one and
/// at most eight.
pub open spec fn spec_parallelism_for_cpus(cpus: nat) -> nat {
    let half = cpus / 2;
    if half < 1 {
        1
    } else if half > 8 {
        8
    } else {
        half
    }
}

/// Leaves roughly half the cores for the editor and the rest of the server.
pub fn parallelism_for_cpus(cpus: usize) -> (n: usize)
    ensures
        n == spec_parallelism_for_cpus(cpus as nat),
        1 <= n <= 8,
{
    let half = cpus / 2;
    if half < 1 {
        1
    } else if half > 8 {
        8
    } else {
        half
    }
}

impl IndexingConfig {
    /// Resolves the configured parallelism to a concrete worker count: the
    /// configured value when it is positive, otherwise a value derived from
    /// the CPU count of the machine. The `ECOLOG_INDEX_PARALLELISM` override
    /// comes on top of this, in [`IndexingConfig::effective_parallelism`].
    pub fn resolved_parallelism(&self) -> (n: usize)
        ensures
            self.parallelism > 0 ==> n == self.parallelism,
            self.parallelism == 0 ==> 1 <= n <= 8,
            self.parallelism == 0 ==> exists|cpus: nat| cpus >= 1 && n == spec_parallelism_for_cpus(cpus),
    {
        if self.parallelism > 0 {
            return self.parallelism;
        }
        parallelism_for_cpus(logical_cpu_count())
    }
}

/// The number that the decimal digits `s` spell.
pub open spec fn digits_value(s: Seq<char>) -> nat
    decreases s.len(),
{
    if s.len() == 0 {
        0
    } else {
        digits_value(s.drop_last()) * 10 + ((s.last() as int) - ('0' as int)) as nat
    }
}

/// Whether every character of `s` is a decimal digit.
pub open spec fn all_digits(s: Seq<char>) -> bool {
    forall|i: int| 0 <= i < s.len() ==> '0' <= #[trigger] s[i] <= '9'
}

/// `s` without a leading `+`.
pub open spec fn unsigned_part(s: Seq<char>) -> Seq<char> {
    if s.len() > 0 && s[0] == '+' {
        s.drop_first()
    } else {
        s
    }
}

/// The worker count that the text of the `ECOLOG_INDEX_PARALLELISM`
/// variable asks for: a positive decimal number, with an optional `+`, that
/// fits a machine word.
pub open spec fn spec_parallelism_override(s: Seq<char>) -> Option<nat> {
    let d = unsigned_part(s);
    if d.len() > 0 && all_digits(d) && 0 < digits_value(d) <= usize::MAX {
        Some(digits_value(d))
    } else {
        None
    }
}

/// The worker count that `value`, the text of the override variable, asks
/// for.
pub fn parallelism_override(value: &str) -> (r: Option<usize>)
    ensures
        match r {
            Some(n) => spec_parallelism_override(value@) == Some(n as nat),
            None => spec_parallelism_override(value@) is None,
        },
{
    let chars = crate::text::chars_of(value);
    let start: usize = if chars.len() > 0 && chars[0] == '+' {
        1
    } else {
        0
    };
    let ghost s = value@;
    let ghost d = unsigned_part(s);
    proof {
        assert(d =~= s.subrange(start as int, s.len() as int));
    }
    if start >= chars.len() {
        return None;
    }
    let mut acc: usize = 0;
    let mut i: usize = start;
    proof {
        assert(d.take(0) =~= Seq::<char>::empty());
    }
    while i < chars.len()
        invariant
            chars@ == s,
            s == value@,
            d == unsigned_part(s),
            d =~= s.subrange(start as int, s.len() as int),
            start <= i <= chars.len(),
            all_digits(d.take(i - start)),
            acc == digits_value(d.take(i - start)),
        decreases chars.len() - i,
    {
        let c = chars[i];
        let k = i - start;
        proof {
            assert(d[k as int] == c);
            assert(d.take(k + 1).drop_last() =~= d.take(k as int));
        }
        if !('0' <= c && c <= '9') {
            proof {
                assert(!('0' <= d[k as int] <= '9'));
                assert(!all_digits(d));
            }
            return None;
        }
        let digit = (c as u32 - '0' as u32) as usize;
        let next = match acc.checked_mul(10) {
            Some(m) => m.checked_add(digit),
            None => None,
        };
        match next {
            Some(n) => {
                acc = n;
            },
            None => {
                proof {
                    assert(digits_value(d.take(k + 1)) > usize::MAX);
                    if all_digits(d) {
                        lemma_digits_value_prefix_le(d, k + 1);
                    }
                }
                return None;
            },
        }
        i += 1;
        proof {
            assert forall|j: int| 0 <= j < d.take(i - start).len() implies '0' <= #[trigger] d.take(
                i - start,
            )[j] <= '9' by {
                if j < k {
                    assert(d.take(i - start)[j] == d.take(k as int)[j]);
                }
            }
        }
    }
    proof {
        assert(d.take(i - start) =~= d);
    }
    if acc == 0 {
        None
    } else {
        Some(acc)
    }
}

/// A longer run of digits spells at least as much as any prefix of it.
proof fn lemma_digits_value_prefix_le(d: Seq<char>, k: int)
    requires
        0 <= k <= d.len(),
        all_digits(d),
    ensures
        digits_value(d.take(k)) <= digits_value(d),
    decreases d.len() - k,
{
    if k < d.len() {
        lemma_digits_value_prefix_le(d, k + 1);
        assert(d.take(k + 1).drop_last() =~= d.take(k));
        assert('0' <= d[k] <= '9');
    } else {
        assert(d.take(k) =~= d);
    }
}

impl IndexingConfig {
    /// The worker count for indexing once the `ECOLOG_INDEX_PARALLELISM`
    /// variable, whose text is `env_override`, is taken into account: a
    /// positive number there overrides the configuration.
    pub fn effective_parallelism(&self, env_override: Option<&str>) -> (n: usize)
        ensures
            env_override matches Some(v) && spec_parallelism_override(v@) is Some ==> Some(n as nat)
                == spec_parallelism_override(env_override.unwrap()@),
            !(env_override matches Some(v) && spec_parallelism_override(v@) is Some) ==> (
            self.parallelism > 0 ==> n == self.parallelism) && (self.parallelism == 0 ==> 1 <= n
                <= 8),
    {
        if let Some(v) = env_override {
            if let Some(n) = parallelism_override(v) {
                return n;
            }
        }
        self.resolved_parallelism()
    }
}

/// Configuration of one external provider.
#[derive(Debug, Clone, PartialEq, Eq)]
pub struct ProviderConfig {
    /// Whether this provider is enabled.
    pub enabled: bool,
    /// Override binary path for this provider.
    pub binary: Option<String>,
}

impl Default for ProviderConfig {
    fn default() -> (r: Self)
        ensures
            !r.enabled,
            r.binary.is_none(),
    {
        ProviderConfig { enabled: false, binary: None }
    }
}

/// Configuration of the external providers.
#[derive(Debug, Clone)]
pub struct ProvidersConfig {
    /// Directory containing provider binaries.
    pub path: String,
    /// Individual provider configurations, keyed by provider name.
    pub providers: HashMap<String, ProviderConfig>,
}

/// Where provider binaries live when nothing is configured:
/// `$XDG_DATA_HOME/ecolog/providers`, else `$HOME/.local/share/ecolog/providers`,
/// else the same path under a literal `~`.
pub open spec fn spec_default_providers_path(xdg_data_home: Option<Seq<char>>, home: Option<
    Seq<char>,
>) -> Seq<char> {
    match xdg_data_home {
        Some(x) => x + "/ecolog/providers"@,
        None => match home {
            Some(h) => h + "/.local/share/ecolog/providers"@,
            None => "~/.local/share/ecolog/providers"@,
        },
    }
}

/// The provider directory chosen from the values of `XDG_DATA_HOME` and
/// `HOME` (each `None` when unset).
pub fn default_providers_path(xdg_data_home: Option<&str>, home: Option<&str>) -> (p: String)
    ensures
        p@ == spec_default_providers_path(
            match xdg_data_home {
                Some(x) => Some(x@),
                None => None,
            },
            match home {
                Some(h) => Some(h@),
                None => None,
            },
        ),
{
    match xdg_data_home {
        Some(x) => {
            let mut p = x.to_string();
            p.append("/ecolog/providers");
            p
        },
        None => match home {
            Some(h) => {
                let mut p = h.to_string();
                p.append("/.local/share/ecolog/providers");
                p
            },
            None => "~/.local/share/ecolog/providers".to_string(),
        },
    }
}

impl ProvidersConfig {
    /// A configuration with the given binary directory and no provider entries.
    pub fn with_path(path: String) -> (r: Self)
        ensures
            r.path@ == path@,
            r.providers@ == Map::<String, ProviderConfig>::empty(),
    {
        ProvidersConfig { path, providers: HashMap::new() }
    }
}

/// Feature switches kept apart from the configuration so hot paths read them
/// without taking the configuration lock.
#[derive(Debug, Clone, PartialEq, Eq, Structural)]
pub struct CachedFeatureFlags {
    pub hover: bool,
    pub completion: bool,
    pub diagnostics: bool,
    pub definition: bool,
    pub inlay_hints: bool,
}

impl CachedFeatureFlags {
    /// The flags of the default feature configuration.
    pub fn new() -> (r: Self)
        ensures
            r.hover && r.completion && r.diagnostics && r.definition && !r.inlay_hints,
    {
        CachedFeatureFlags {
            hover: true,
            completion: true,
            diagnostics: true,
            definition: true,
            inlay_hints: false,
        }
    }

    /// Takes every switch from `features`.
    pub fn update_from(&mut self, features: &FeatureConfig)
        ensures
            final(self).hover == features.hover,
            final(self).completion == features.completion,
            final(self).diagnostics == features.diagnostics,
            final(self).definition == features.definition,
            final(self).inlay_hints == features.inlay_hints,
    {
        self.hover = features.hover;
        self.completion = features.completion;
        self.diagnostics = features.diagnostics;
        self.definition = features.definition;
        self.inlay_hints = features.inlay_hints;
    }
}

/// The order of sources that the source defaults give: shell, then file,
/// then remote, each where it is switched on.
pub open spec fn spec_precedence_from_defaults(shell: bool, file: bool, remote: bool) -> Seq<SourceKind> {
    (if shell {
        seq![SourceKind::Shell]
    } else {
        Seq::empty()
    }) + (if file {
        seq![SourceKind::File]
    } else {
        Seq::empty()
    }) + (if remote {
        seq![SourceKind::Remote]
    } else {
        Seq::empty()
    })
}

/// The order of sources that the source defaults give.
pub fn precedence_from_defaults(shell: bool, file: bool, remote: bool) -> (r: Vec<SourceKind>)
    ensures
        r@ == spec_precedence_from_defaults(shell, file, remote),
{
    let mut r: Vec<SourceKind> = Vec::new();
    if shell {
        r.push(SourceKind::Shell);
    }
    if file {
        r.push(SourceKind::File);
    }
    if remote {
        r.push(SourceKind::Remote);
    }
    assert(r@ =~= spec_precedence_from_defaults(shell, file, remote));
    r
}

/// Whether `p` is the order the configuration had before source defaults
/// existed: shell, then file.
pub open spec fn is_old_default_precedence(p: Seq<SourceKind>) -> bool {
    p == seq![SourceKind::Shell, SourceKind::File]
}

/// The order of sources once the source defaults are applied: the old
/// default order, shell then file, gives way to the order the defaults give;
/// an order the user chose stays.
pub open spec fn spec_apply_source_defaults(
    p: Seq<SourceKind>,
    shell: bool,
    file: bool,
    remote: bool,
) -> Seq<SourceKind> {
    if is_old_default_precedence(p) {
        spec_precedence_from_defaults(shell, file, remote)
    } else {
        p
    }
}

/// Applies the source defaults to the order of sources `precedence`.
pub fn apply_source_defaults(precedence: Vec<SourceKind>, shell: bool, file: bool, remote: bool) -> (r:
    Vec<SourceKind>)
    ensures
        r@ == spec_apply_source_defaults(precedence@, shell, file, remote),
{
    let old_default = precedence.len() == 2 && precedence[0] == SourceKind::Shell && precedence[1]
        == SourceKind::File;
    proof {
        if precedence@.len() == 2 && precedence@[0] == SourceKind::Shell && precedence@[1]
            == SourceKind::File {
            assert(precedence@ =~= seq![SourceKind::Shell, SourceKind::File]);
        }
    }
    if old_default {
        precedence_from_defaults(shell, file, remote)
    } else {
        precedence
    }
}

/// Applying the source defaults a second time changes nothing.
pub proof fn law_source_defaults_idempotent(p: Seq<SourceKind>, shell: bool, file: bool, remote: bool)
    ensures
        spec_apply_source_defaults(
            spec_apply_source_defaults(p, shell, file, remote),
            shell,
            file,
            remote,
        ) == spec_apply_source_defaults(p, shell, file, remote),
{
    let q = spec_precedence_from_defaults(shell, file, remote);
    if is_old_default_precedence(p) && is_old_default_precedence(q) {
        assert(q.len() == 2);
        assert(shell && file && !remote) by {
            if !shell {
                assert(q[0] != SourceKind::Shell);
            }
            if shell && !file {
                assert(q[1] != SourceKind::File);
            }
            if shell && file && remote {
                assert(q.len() == 3);
            }
        }
    }
}

} // verus!
