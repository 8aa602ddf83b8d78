use crate::scanner::walker::Scanner;
use crate::scanner::{Category, RiskLevel};
use crate::text::{copy_string, string_texts};
use vstd::prelude::*;

verus! {

/// How the marker files of a custom pattern are read.
#[derive(Clone, Copy, Debug, PartialEq, Eq, Structural)]
pub enum MarkerMode {
    /// One marker file in the project root is enough.
    AnyOf,
    /// Every marker file must be in the project root.
    AllOf,
}

impl Default for MarkerMode {
    fn default() -> (m: MarkerMode)
        ensures
            m == MarkerMode::AnyOf,
    {
        MarkerMode::AnyOf
    }
}

/// A user-supplied cleanable pattern.
#[derive(Debug)]
pub struct CustomPattern {
    /// Name of the pattern.
    pub name: String,
    /// Glob for the directory to match.
    pub directory: String,
    /// Marker files that identify a project root to which the pattern applies.
    pub marker_files: Vec<String>,
    /// How `marker_files` is read.
    pub marker_mode: MarkerMode,
}

/// The mathematical content of a `CustomPattern`.
pub struct CustomPatternView {
    pub name: Seq<char>,
    pub directory: Seq<char>,
    pub marker_files: Seq<Seq<char>>,
    pub marker_mode: MarkerMode,
}

impl View for CustomPattern {
    type V = CustomPatternView;

    open spec fn view(&self) -> CustomPatternView {
        CustomPatternView {
            name: self.name@,
            directory: self.directory@,
            marker_files: string_texts(self.marker_files@),
            marker_mode: self.marker_mode,
        }
    }
}

/// An owned copy of a list of strings.
pub fn copy_strings(list: &Vec<String>) -> (out: Vec<String>)
    ensures
        string_texts(out@) == string_texts(list@),
{
    let mut out: Vec<String> = Vec::new();
    let mut i: usize = 0;
    while i < list.len()
        invariant
            i <= list.len(),
            out@.len() == i,
            forall|k: int| 0 <= k < i ==> (#[trigger] out@[k])@ == list@[k]@,
        decreases list.len() - i,
    {
        out.push(copy_string(&list[i]));
        i += 1;
    }
    assert(string_texts(out@) =~= string_texts(list@));
    out
}

impl CustomPattern {
    /// An owned copy of the pattern.
    pub fn duplicate(&self) -> (r: CustomPattern)
        ensures
            r@ == self@,
    {
        CustomPattern {
            name: copy_string(&self.name),
            directory: copy_string(&self.directory),
            marker_files: copy_strings(&self.marker_files),
            marker_mode: self.marker_mode,
        }
    }
}

/// The contents of a list of custom patterns, in order.
pub open spec fn pattern_views(v: Seq<CustomPattern>) -> Seq<CustomPatternView> {
    Seq::new(v.len(), |i: int| v[i]@)
}

/// An owned copy of a list of custom patterns.
pub fn copy_patterns(list: &Vec<CustomPattern>) -> (out: Vec<CustomPattern>)
    ensures
        pattern_views(out@) == pattern_views(list@),
{
    let mut out: Vec<CustomPattern> = Vec::new();
    let mut i: usize = 0;
    while i < list.len()
        invariant
            i <= list.len(),
            out@.len() == i,
            forall|k: int| 0 <= k < i ==> (#[trigger] out@[k])@ == list@[k]@,
        decreases list.len() - i,
    {
        out.push(list[i].duplicate());
        i += 1;
    }
    assert(pattern_views(out@) =~= pattern_views(list@));
    out
}

/// How operations are recorded in the audit log.
#[derive(Debug)]
pub struct AuditConfig {
    pub enabled: bool,
    /// Where the log is kept, if not in the default place.
    pub path: Option<String>,
    /// Size in megabytes above which the log is rotated.
    pub max_size_mb: u64,
}

/// The size in megabytes above which the audit log is rotated by default.
pub const DEFAULT_AUDIT_MAX_SIZE_MB: u64 = 5;

impl Default for AuditConfig {
    fn default() -> (a: AuditConfig)
        ensures
            a.enabled,
            a.path is None,
            a.max_size_mb == DEFAULT_AUDIT_MAX_SIZE_MB,
    {
        AuditConfig { enabled: true, path: None, max_size_mb: DEFAULT_AUDIT_MAX_SIZE_MB }
    }
}

/// A named set of scan settings.
#[derive(Debug)]
pub struct ScanProfile {
    pub paths: Vec<String>,
    pub depth: Option<usize>,
    pub min_size_mb: Option<u64>,
    pub max_age_days: Option<i64>,
    pub gitignore: Option<bool>,
    pub category: Option<Category>,
    pub max_risk: Option<RiskLevel>,
}

impl Default for ScanProfile {
    fn default() -> (p: ScanProfile)
        ensures
            p.paths@.len() == 0,
            p.depth is None,
            p.min_size_mb is None,
            p.max_age_days is None,
            p.gitignore is None,
            p.category is None,
            p.max_risk is None,
    {
        ScanProfile {
            paths: Vec::new(),
            depth: None,
            min_size_mb: None,
            max_age_days: None,
            gitignore: None,
            category: None,
            max_risk: None,
        }
    }
}

/// The settings of the cleaner.
#[derive(Debug)]
pub struct Config {
    /// Directory names that are never entered.
    pub exclude_dirs: Vec<String>,
    /// Additional cleanable patterns.
    pub custom_patterns: Vec<CustomPattern>,
    /// Depth of a scan, if limited.
    pub default_depth: Option<usize>,
    /// Smallest size in megabytes that is shown, if limited.
    pub min_size_mb: Option<u64>,
    /// Smallest age in days that is shown, if limited.
    pub max_age_days: Option<i64>,
    /// Scan profiles by name, in the order of their names.
    pub scan_profiles: Vec<(String, ScanProfile)>,
    /// Paths that are protected.
    pub keep_paths: Vec<String>,
    /// Globs of paths that are protected.
    pub keep_globs: Vec<String>,
    /// Globs of project roots that are protected.
    pub keep_project_roots: Vec<String>,
    pub audit: AuditConfig,
}

/// The directory names that are excluded where nothing else is configured.
pub open spec fn default_excludes() -> Seq<Seq<char>> {
    seq![".git"@, ".svn"@, ".hg"@]
}

/// Whether a configuration is the one that applies where none is written:
/// version-control directories excluded, nothing else set, and the audit
/// log on, in its default place, with the default limit on its size.
pub open spec fn is_default(c: Config) -> bool {
    &&& string_texts(c.exclude_dirs@) == default_excludes()
    &&& c.custom_patterns@.len() == 0
    &&& c.default_depth is None
    &&& c.min_size_mb is None
    &&& c.max_age_days is None
    &&& c.scan_profiles@.len() == 0
    &&& c.keep_paths@.len() == 0
    &&& c.keep_globs@.len() == 0
    &&& c.keep_project_roots@.len() == 0
    &&& c.audit.enabled
    &&& c.audit.path is None
    &&& c.audit.max_size_mb == DEFAULT_AUDIT_MAX_SIZE_MB
}

impl Default for Config {
    fn default() -> (c: Config)
        ensures
            is_default(c),
    {
        let mut exclude_dirs: Vec<String> = Vec::new();
        exclude_dirs.push(".git".to_owned());
        exclude_dirs.push(".svn".to_owned());
        exclude_dirs.push(".hg".to_owned());
        assert(string_texts(exclude_dirs@) =~= default_excludes());
        Config {
            exclude_dirs,
            custom_patterns: Vec::new(),
            default_depth: None,
            min_size_mb: None,
            max_age_days: None,
            scan_profiles: Vec::new(),
            keep_paths: Vec::new(),
            keep_globs: Vec::new(),
            keep_project_roots: Vec::new(),
            audit: AuditConfig::default(),
        }
    }
}

/// A size in megabytes as bytes, stopping at the greatest value.
pub open spec fn megabytes(mb: u64) -> u64 {
    if mb * 1048576 > u64::MAX {
        u64::MAX
    } else {
        (mb * 1048576) as u64
    }
}

/// A size in megabytes as bytes, stopping at the greatest value.
pub fn megabytes_to_bytes(mb: u64) -> (bytes: u64)
    ensures
        bytes == megabytes(mb),
{
    if mb > u64::MAX / 1048576 {
        u64::MAX
    } else {
        mb * 1048576
    }
}

impl Config {
    /// The configuration that was found, or the default one where none was.
    pub fn load_or_default(found: Option<Config>) -> (c: Config)
        ensures
            found matches Some(f) ==> c == f,
            found is None ==> is_default(c),
    {
        match found {
            Some(f) => f,
            None => Config::default(),
        }
    }

    /// A scanner for the tree below `root` that follows this configuration:
    /// its exclusions and custom patterns, and its limits on depth, size
    /// and age as far as they are set.
    pub fn scanner(&self, root: &str) -> (s: Scanner)
        ensures
            s.root@ == root@,
            s.excluded() == string_texts(self.exclude_dirs@),
            s.custom() == pattern_views(self.custom_patterns@),
            s.max_depth == self.default_depth,
            s.min_size == (match self.min_size_mb {
                Some(mb) => Some(megabytes(mb)),
                None => None,
            }),
            s.max_age_days == self.max_age_days,
            !s.respect_gitignore,
            s.category is None,
            s.max_risk is None,
    {
        let mut s = Scanner::new(root).exclude_dirs(&self.exclude_dirs).custom_patterns(
            &self.custom_patterns,
        );
        if let Some(depth) = self.default_depth {
            s = s.max_depth(depth);
        }
        if let Some(mb) = self.min_size_mb {
            s = s.min_size(megabytes_to_bytes(mb));
        }
        if let Some(days) = self.max_age_days {
            s = s.max_age_days(days);
        }
        s
    }
}

} // verus!
