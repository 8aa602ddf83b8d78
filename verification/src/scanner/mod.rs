pub mod dedup;
pub mod detector;
pub mod laws;
pub mod rules;
pub mod size_calculator;
pub mod tree;
pub mod walker;

pub use detector::{DirEntry, EntryKind, ProjectDetector, ProjectType};
pub use rules::Matcher;
pub use size_calculator::{SizeCalculator, SizeError, SizeOutcome};
pub use tree::{DirNode, FsTree};
pub use walker::{MatcherCache, Scanner};

use crate::text::{chars_eq_str, chars_start_with_str, copy_opt_string, copy_string, opt_text, to_chars};
use vstd::prelude::*;

verus! {

/// Why the data in a target can be regenerated.
#[derive(Clone, Copy, Debug, PartialEq, Eq, Hash, Structural)]
pub enum Category {
    Cache,
    Build,
    Deps,
    Unknown,
}

/// How cautious a deletion of a target should be, ordered `Low < Medium < High`.
#[derive(Clone, Copy, Debug, PartialEq, Eq, Hash, Structural)]
pub enum RiskLevel {
    Low,
    Medium,
    High,
}

/// How far the rule that matched a target is trusted.
#[derive(Clone, Copy, Debug, PartialEq, Eq, Hash, Structural)]
pub enum Confidence {
    High,
    Medium,
    Low,
    Unknown,
}

/// Where a matching rule came from, in falling order of precedence.
#[derive(Clone, Copy, Debug, PartialEq, Eq, Hash, Structural)]
pub enum RuleSource {
    Custom,
    Builtin,
    Gitignore,
    Heuristic,
}

/// The rule that made a directory a target.
#[derive(Debug)]
pub struct MatchedRule {
    pub source: RuleSource,
    pub pattern: String,
    pub name: Option<String>,
}

/// The mathematical content of a `MatchedRule`.
pub struct RuleView {
    pub source: RuleSource,
    pub pattern: Seq<char>,
    pub name: Option<Seq<char>>,
}

impl View for MatchedRule {
    type V = RuleView;

    open spec fn view(&self) -> RuleView {
        RuleView { source: self.source, pattern: self.pattern@, name: opt_text(self.name) }
    }
}

/// A directory judged cleanable, with everything known about it.
#[derive(Debug)]
pub struct ProjectInfo {
    /// Path of the project root that anchors the target.
    pub root: String,
    /// Detected ecosystem, or `Generic` for a custom pattern.
    pub project_type: ProjectType,
    /// Name of the custom pattern that matched, if one did.
    pub project_name: Option<String>,
    pub category: Category,
    pub risk_level: RiskLevel,
    pub confidence: Confidence,
    pub matched_rule: Option<MatchedRule>,
    /// Path of the cleanable directory.
    pub cleanable_dir: String,
    /// Size in bytes; meaningful once `size_calculated` is set.
    pub size: u64,
    pub size_calculated: bool,
    /// Modification time of the cleanable directory, in seconds since the epoch.
    pub last_modified: i64,
    pub in_use: bool,
    pub protected: bool,
    pub protected_by: Option<String>,
    pub recent: bool,
    pub selection_reason: Option<String>,
    pub skip_reason: Option<String>,
}

/// The mathematical content of a `ProjectInfo`.
pub struct ProjectView {
    pub root: Seq<char>,
    pub project_type: ProjectType,
    pub project_name: Option<Seq<char>>,
    pub category: Category,
    pub risk_level: RiskLevel,
    pub confidence: Confidence,
    pub matched_rule: Option<RuleView>,
    pub cleanable_dir: Seq<char>,
    pub size: u64,
    pub size_calculated: bool,
    pub last_modified: i64,
    pub in_use: bool,
    pub protected: bool,
    pub protected_by: Option<Seq<char>>,
    pub recent: bool,
    pub selection_reason: Option<Seq<char>>,
    pub skip_reason: Option<Seq<char>>,
}

/// The content of an optional rule.
pub open spec fn opt_rule(r: Option<MatchedRule>) -> Option<RuleView> {
    match r {
        Some(m) => Some(m@),
        None => None,
    }
}

impl View for ProjectInfo {
    type V = ProjectView;

    open spec fn view(&self) -> ProjectView {
        ProjectView {
            root: self.root@,
            project_type: self.project_type,
            project_name: opt_text(self.project_name),
            category: self.category,
            risk_level: self.risk_level,
            confidence: self.confidence,
            matched_rule: opt_rule(self.matched_rule),
            cleanable_dir: self.cleanable_dir@,
            size: self.size,
            size_calculated: self.size_calculated,
            last_modified: self.last_modified,
            in_use: self.in_use,
            protected: self.protected,
            protected_by: opt_text(self.protected_by),
            recent: self.recent,
            selection_reason: opt_text(self.selection_reason),
            skip_reason: opt_text(self.skip_reason),
        }
    }
}

/// The contents of a list of targets, in order.
pub open spec fn views(v: Seq<ProjectInfo>) -> Seq<ProjectView> {
    Seq::new(v.len(), |i: int| v[i]@)
}

/// The targets `items` in the order that `order` lists their positions.
pub open spec fn arranged(items: Seq<ProjectView>, order: Seq<int>) -> Seq<ProjectView> {
    Seq::new(order.len(), |k: int| items[order[k]])
}

/// Copies of the targets `items` in the order that `order` lists their positions.
pub fn arrange(items: &Vec<ProjectInfo>, order: &Vec<usize>) -> (out: Vec<ProjectInfo>)
    requires
        forall|k: int| 0 <= k < order@.len() ==> #[trigger] order@[k] < items@.len(),
    ensures
        views(out@) == arranged(views(items@), crate::order::positions(order@)),
{
    let mut out: Vec<ProjectInfo> = Vec::new();
    let mut k: usize = 0;
    while k < order.len()
        invariant
            k <= order.len(),
            out@.len() == k,
            forall|j: int| 0 <= j < order@.len() ==> #[trigger] order@[j] < items@.len(),
            forall|j: int| 0 <= j < k ==> (#[trigger] out@[j])@ == items@[order@[j] as int]@,
        decreases order.len() - k,
    {
        out.push(items[order[k]].duplicate());
        k += 1;
    }
    assert(views(out@) =~= arranged(views(items@), crate::order::positions(order@)));
    out
}

/// The sort keys that order targets by size.
pub open spec fn size_keys(items: Seq<ProjectView>) -> Seq<crate::order::Key> {
    Seq::new(items.len(), |i: int| crate::order::Key { a: items[i].size as i128, b: 0, c: 0 })
}

/// The targets `items`, largest first; targets of one size keep their order.
pub open spec fn by_size_falling(items: Seq<ProjectView>) -> Seq<ProjectView> {
    arranged(items, crate::order::falling_order(size_keys(items)))
}

/// Copies of the targets, largest first; targets of one size keep their order.
pub fn sort_by_size(items: &Vec<ProjectInfo>) -> (out: Vec<ProjectInfo>)
    ensures
        views(out@) == by_size_falling(views(items@)),
{
    let mut keys: Vec<crate::order::Key> = Vec::new();
    let mut i: usize = 0;
    while i < items.len()
        invariant
            i <= items.len(),
            keys@.len() == i,
            forall|k: int|
                0 <= k < i ==> #[trigger] keys@[k] == (crate::order::Key {
                    a: items@[k].size as i128,
                    b: 0,
                    c: 0,
                }),
        decreases items.len() - i,
    {
        keys.push(crate::order::Key { a: items[i].size as i128, b: 0, c: 0 });
        i += 1;
    }
    assert(keys@ =~= size_keys(views(items@)));
    let order = crate::order::sort_falling(&keys);
    arrange(items, &order)
}

/// The category that the fixed lexical table gives to a directory name.
pub open spec fn category_of(name: Seq<char>) -> Category {
    if name == "node_modules"@ || name == "vendor"@ || name == ".venv"@ || name == "venv"@
        || name == "deps"@ || name == "bundle"@ || name == ".bundle"@ || name == ".eggs"@ {
        Category::Deps
    } else if name == "__pycache__"@ || name == ".cache"@ || name == ".tox"@ || name
        == ".pytest_cache"@ || name == ".mypy_cache"@ || name == ".turbo"@ || name
        == ".parcel-cache"@ || name == ".gradle"@ || name == ".swiftpm"@ {
        Category::Cache
    } else if name == "target"@ || name == "build"@ || name == "dist"@ || name == "bin"@ || name
        == "obj"@ || name == "out"@ || name == "_build"@ || name == ".build"@ || name
        == "DerivedData"@ || name == ".next"@ || name == ".nuxt"@ || "build-"@.is_prefix_of(name)
        || "cmake-build-"@.is_prefix_of(name) {
        Category::Build
    } else {
        Category::Unknown
    }
}

/// The risk that a category carries when nothing overrides it.
pub open spec fn default_risk(category: Category) -> RiskLevel {
    match category {
        Category::Cache => RiskLevel::Low,
        Category::Build => RiskLevel::Medium,
        Category::Deps => RiskLevel::High,
        Category::Unknown => RiskLevel::Medium,
    }
}

/// The risk of a target matched by a rule from `source`: a rule taken from an
/// ignore file is always `High`, every other source keeps the category's default.
pub open spec fn risk_for(source: RuleSource, category: Category) -> RiskLevel {
    if source == RuleSource::Gitignore {
        RiskLevel::High
    } else {
        default_risk(category)
    }
}

/// The confidence that a rule source earns.
pub open spec fn confidence_for(source: RuleSource) -> Confidence {
    match source {
        RuleSource::Custom => Confidence::High,
        RuleSource::Builtin => Confidence::High,
        RuleSource::Heuristic => Confidence::Medium,
        RuleSource::Gitignore => Confidence::Low,
    }
}

impl Category {
    /// The category of a directory name under the lexical table.
    pub fn from_name(name: &str) -> (c: Category)
        ensures
            c == category_of(name@),
    {
        let n = to_chars(name);
        if chars_eq_str(&n, "node_modules") || chars_eq_str(&n, "vendor") || chars_eq_str(
            &n,
            ".venv",
        ) || chars_eq_str(&n, "venv") || chars_eq_str(&n, "deps") || chars_eq_str(&n, "bundle")
            || chars_eq_str(&n, ".bundle") || chars_eq_str(&n, ".eggs") {
            Category::Deps
        } else if chars_eq_str(&n, "__pycache__") || chars_eq_str(&n, ".cache") || chars_eq_str(
            &n,
            ".tox",
        ) || chars_eq_str(&n, ".pytest_cache") || chars_eq_str(&n, ".mypy_cache")
            || chars_eq_str(&n, ".turbo") || chars_eq_str(&n, ".parcel-cache") || chars_eq_str(
            &n,
            ".gradle",
        ) || chars_eq_str(&n, ".swiftpm") {
            Category::Cache
        } else if chars_eq_str(&n, "target") || chars_eq_str(&n, "build") || chars_eq_str(
            &n,
            "dist",
        ) || chars_eq_str(&n, "bin") || chars_eq_str(&n, "obj") || chars_eq_str(&n, "out")
            || chars_eq_str(&n, "_build") || chars_eq_str(&n, ".build") || chars_eq_str(
            &n,
            "DerivedData",
        ) || chars_eq_str(&n, ".next") || chars_eq_str(&n, ".nuxt") || chars_start_with_str(
            &n,
            "build-",
        ) || chars_start_with_str(&n, "cmake-build-") {
            Category::Build
        } else {
            Category::Unknown
        }
    }

    /// The lower-case name of the category.
    pub fn as_str(&self) -> (s: &'static str)
        ensures
            s@ == category_label(*self),
    {
        match self {
            Category::Cache => "cache",
            Category::Build => "build",
            Category::Deps => "deps",
            Category::Unknown => "unknown",
        }
    }

    /// The risk this category carries by default.
    pub fn default_risk(&self) -> (r: RiskLevel)
        ensures
            r == default_risk(*self),
    {
        match self {
            Category::Cache => RiskLevel::Low,
            Category::Build => RiskLevel::Medium,
            Category::Deps => RiskLevel::High,
            Category::Unknown => RiskLevel::Medium,
        }
    }
}

/// The lower-case name of a category.
pub open spec fn category_label(c: Category) -> Seq<char> {
    match c {
        Category::Cache => "cache"@,
        Category::Build => "build"@,
        Category::Deps => "deps"@,
        Category::Unknown => "unknown"@,
    }
}

/// The lower-case name of a risk level.
pub open spec fn risk_label(r: RiskLevel) -> Seq<char> {
    match r {
        RiskLevel::Low => "low"@,
        RiskLevel::Medium => "medium"@,
        RiskLevel::High => "high"@,
    }
}

/// The position of a risk level in the order `Low < Medium < High`.
pub open spec fn risk_rank(r: RiskLevel) -> int {
    match r {
        RiskLevel::Low => 0,
        RiskLevel::Medium => 1,
        RiskLevel::High => 2,
    }
}

impl RiskLevel {
    /// The risk of a target of `category` matched by a rule from `source`.
    pub fn for_rule(source: RuleSource, category: Category) -> (r: RiskLevel)
        ensures
            r == risk_for(source, category),
            source == RuleSource::Gitignore ==> r == RiskLevel::High,
    {
        match source {
            RuleSource::Gitignore => RiskLevel::High,
            _ => category.default_risk(),
        }
    }

    /// The position of the level in the order `Low < Medium < High`.
    pub fn rank(&self) -> (k: u8)
        ensures
            k == risk_rank(*self),
    {
        match self {
            RiskLevel::Low => 0,
            RiskLevel::Medium => 1,
            RiskLevel::High => 2,
        }
    }

    /// The lower-case name of the level.
    pub fn as_str(&self) -> (s: &'static str)
        ensures
            s@ == risk_label(*self),
    {
        match self {
            RiskLevel::Low => "low",
            RiskLevel::Medium => "medium",
            RiskLevel::High => "high",
        }
    }
}

impl Confidence {
    /// The confidence earned by a rule from `source`.
    pub fn for_source(source: RuleSource) -> (c: Confidence)
        ensures
            c == confidence_for(source),
    {
        match source {
            RuleSource::Custom => Confidence::High,
            RuleSource::Builtin => Confidence::High,
            RuleSource::Heuristic => Confidence::Medium,
            RuleSource::Gitignore => Confidence::Low,
        }
    }
}

impl MatchedRule {
    /// An owned copy of the rule.
    pub fn duplicate(&self) -> (r: MatchedRule)
        ensures
            r@ == self@,
    {
        MatchedRule {
            source: self.source,
            pattern: copy_string(&self.pattern),
            name: copy_opt_string(&self.name),
        }
    }
}

/// Whole days from `then_secs` to `now_secs`, rounded toward zero.
pub open spec fn days_between(now_secs: int, then_secs: int) -> int {
    let diff = now_secs - then_secs;
    if diff >= 0 {
        diff / 86400
    } else {
        -((-diff) / 86400)
    }
}

/// A pending target as the walker first sees it: not yet sized, not classified,
/// and with every field that belongs to later stages unset.
pub open spec fn pending_view(
    root: Seq<char>,
    project_type: ProjectType,
    cleanable_dir: Seq<char>,
    last_modified: i64,
    in_use: bool,
) -> ProjectView {
    ProjectView {
        root,
        project_type,
        project_name: None,
        category: Category::Unknown,
        risk_level: RiskLevel::Medium,
        confidence: Confidence::Unknown,
        matched_rule: None,
        cleanable_dir,
        size: 0,
        size_calculated: false,
        last_modified,
        in_use,
        protected: false,
        protected_by: None,
        recent: false,
        selection_reason: None,
        skip_reason: None,
    }
}

impl ProjectInfo {
    /// A target whose size is still to be computed.
    pub fn new_pending(
        root: String,
        project_type: ProjectType,
        cleanable_dir: String,
        last_modified: i64,
        in_use: bool,
    ) -> (info: ProjectInfo)
        ensures
            info@ == pending_view(root@, project_type, cleanable_dir@, last_modified, in_use),
    {
        ProjectInfo {
            root,
            project_type,
            project_name: None,
            category: Category::Unknown,
            risk_level: RiskLevel::Medium,
            confidence: Confidence::Unknown,
            matched_rule: None,
            cleanable_dir,
            size: 0,
            size_calculated: false,
            last_modified,
            in_use,
            protected: false,
            protected_by: None,
            recent: false,
            selection_reason: None,
            skip_reason: None,
        }
    }

    /// An owned copy of the target.
    pub fn duplicate(&self) -> (r: ProjectInfo)
        ensures
            r@ == self@,
    {
        let matched_rule = match &self.matched_rule {
            Some(m) => Some(m.duplicate()),
            None => None,
        };
        ProjectInfo {
            root: copy_string(&self.root),
            project_type: self.project_type,
            project_name: copy_opt_string(&self.project_name),
            category: self.category,
            risk_level: self.risk_level,
            confidence: self.confidence,
            matched_rule,
            cleanable_dir: copy_string(&self.cleanable_dir),
            size: self.size,
            size_calculated: self.size_calculated,
            last_modified: self.last_modified,
            in_use: self.in_use,
            protected: self.protected,
            protected_by: copy_opt_string(&self.protected_by),
            recent: self.recent,
            selection_reason: copy_opt_string(&self.selection_reason),
            skip_reason: copy_opt_string(&self.skip_reason),
        }
    }

    /// The size for people: the formatted size once it is computed, and a
    /// note that it is being computed before.
    pub fn size_human(&self) -> (text: String)
        ensures
            text@ == (if self.size_calculated {
                crate::utils::size_text(self.size)
            } else {
                "Calculating..."@
            }),
    {
        if !self.size_calculated {
            "Calculating...".to_owned()
        } else {
            crate::utils::format_size(self.size)
        }
    }

    /// Whole days since the target was last modified, seen from `now_secs`
    /// (seconds since the epoch).
    pub fn days_since_modified(&self, now_secs: i64) -> (days: i64)
        ensures
            days == days_between(now_secs as int, self.last_modified as int),
    {
        let now: i128 = now_secs as i128;
        let then: i128 = self.last_modified as i128;
        let diff: i128 = now - then;
        if diff >= 0 {
            (diff / 86400) as i64
        } else {
            let pos: i128 = -diff;
            let q: i128 = pos / 86400;
            (-q) as i64
        }
    }
}

} // verus!
