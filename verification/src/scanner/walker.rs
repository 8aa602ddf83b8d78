use crate::config::{copy_patterns, copy_strings, pattern_views, CustomPattern, CustomPatternView};
use crate::scanner::detector::{
    cmake_out_of_source, detected, has_entry, has_name, lock_files, recent_lock, DirEntry,
    ProjectDetector, ProjectType,
};
use crate::scanner::rules::{first_hit, registry, rule_views, Matcher};
use crate::scanner::tree::{well_formed, DirNode, FsTree};
use crate::scanner::{
    category_of, confidence_for, risk_for, Category, Confidence, MatchedRule,
    ProjectInfo, ProjectView, RiskLevel, RuleSource, RuleView,
};
use crate::text::{
    chars_eq_str, copy_string, opt_text, push_char, string_texts, text_in_list, to_chars,
};
use vstd::prelude::*;
use vstd::string::*;

verus! {

/// Finds cleanable directories in a snapshot of a directory tree.
#[derive(Debug)]
pub struct Scanner {
    /// Path of the scan root.
    pub root: String,
    /// Whether the snapshot is read without the directories that ignore
    /// files exclude. The walk visits whatever the snapshot holds.
    pub respect_gitignore: bool,
    /// Greatest depth below the scan root that is visited, if limited.
    pub max_depth: Option<usize>,
    /// Smallest size in bytes of a reported target, if limited.
    pub min_size: Option<u64>,
    /// Smallest age in days of a reported target, if limited.
    pub max_age_days: Option<i64>,
    /// Directory names that are never entered.
    pub exclude_dirs: Vec<String>,
    /// User-supplied patterns.
    pub custom_patterns: Vec<CustomPattern>,
    /// The only category that is reported, if limited.
    pub category: Option<Category>,
    /// The greatest risk that is reported, if limited.
    pub max_risk: Option<RiskLevel>,
}

/// The position of the parent of node `i`, or -1 where it has none.
pub open spec fn parent_of(nodes: Seq<DirNode>, i: int) -> int {
    if 0 < i < nodes.len() {
        match nodes[i].parent {
            Some(p) => if p < i {
                p as int
            } else {
                -1
            },
            None => -1,
        }
    } else {
        -1
    }
}

/// How many steps node `i` lies below the scan root.
pub open spec fn depth(nodes: Seq<DirNode>, i: int) -> nat
    decreases i,
{
    let p = parent_of(nodes, i);
    if 0 <= p < i {
        depth(nodes, p) + 1
    } else {
        0
    }
}

/// The path `base` with the component `name` added.
pub open spec fn joined(base: Seq<char>, name: Seq<char>) -> Seq<char> {
    if base.len() > 0 && base.last() == '/' {
        base + name
    } else {
        base.push('/') + name
    }
}

/// The path of node `i` of a tree whose scan root has the path `root`.
pub open spec fn full_path(root: Seq<char>, nodes: Seq<DirNode>, i: int) -> Seq<char>
    decreases i,
{
    let p = parent_of(nodes, i);
    if 0 <= p < i {
        joined(full_path(root, nodes, p), nodes[i].name@)
    } else {
        root
    }
}

/// The path of node `d` relative to its ancestor `a`, components joined by `/`.
pub open spec fn rel_path(nodes: Seq<DirNode>, a: int, d: int) -> Seq<char>
    decreases d,
{
    let p = parent_of(nodes, d);
    if 0 <= p < d && p != a {
        rel_path(nodes, a, p).push('/') + nodes[d].name@
    } else {
        nodes[d].name@
    }
}

/// Whether `name` is the name of a version-control directory.
pub open spec fn is_vcs_name(name: Seq<char>) -> bool {
    name == ".git"@ || name == ".svn"@ || name == ".hg"@
}

/// Whether a directory called `name` is skipped at entry.
pub open spec fn excluded_name(exclude: Seq<Seq<char>>, name: Seq<char>) -> bool {
    is_vcs_name(name) || exclude.contains(name)
}

/// The rules of the project root `node`.
pub open spec fn node_rules(custom: Seq<CustomPatternView>, node: DirNode) -> Seq<RuleView> {
    registry(custom, node.entries@, opt_text(node.ignore_file), detected(node.entries@))
}

/// A match of a directory: the project root that anchors it, the rule, and
/// the ecosystem under which it is reported.
pub struct Hit {
    pub root: int,
    pub rule: RuleView,
    pub project_type: ProjectType,
}

/// The ecosystem under which a rule matched at a project root is reported:
/// `Generic` for a custom pattern, else the ecosystem detected at the root.
pub open spec fn hit_type(rule: RuleView, entries: Seq<DirEntry>) -> ProjectType {
    if rule.source == RuleSource::Custom {
        ProjectType::Generic
    } else {
        match detected(entries) {
            Some(t) => t,
            None => ProjectType::Generic,
        }
    }
}

/// The match of directory `d` by the rules of its ancestors from `a` upward:
/// that of the nearest ancestor whose rules match at all.
pub open spec fn rule_hit_up(custom: Seq<CustomPatternView>, nodes: Seq<DirNode>, d: int, a: int) -> Option<
    Hit,
>
    decreases a,
{
    if a < 0 || a >= nodes.len() {
        None
    } else {
        match first_hit(node_rules(custom, nodes[a]), nodes[d].name@, rel_path(nodes, a, d), 0) {
            Some(rule) => Some(
                Hit { root: a, rule, project_type: hit_type(rule, nodes[a].entries@) },
            ),
            None => {
                let p = parent_of(nodes, a);
                if 0 <= p < a {
                    rule_hit_up(custom, nodes, d, p)
                } else {
                    None
                }
            },
        }
    }
}

/// The nearest directory from `a` upward that holds the CMake project descriptor.
pub open spec fn cmake_root_up(nodes: Seq<DirNode>, a: int) -> Option<int>
    decreases a,
{
    if a < 0 || a >= nodes.len() {
        None
    } else if has_name(nodes[a].entries@, "CMakeLists.txt"@) {
        Some(a)
    } else {
        let p = parent_of(nodes, a);
        if 0 <= p < a {
            cmake_root_up(nodes, p)
        } else {
            None
        }
    }
}

/// The rule under which the CMake heuristic reports a build tree.
pub open spec fn heuristic_rule() -> RuleView {
    RuleView { source: RuleSource::Heuristic, pattern: "CMakeCache.txt"@, name: None }
}

/// The match of directory `d`, if it is a cleanable target: by the rules of
/// its nearest ancestor that has a matching rule, and failing every ancestor,
/// by the CMake heuristic. The scan root itself is never a target.
pub open spec fn find_hit(custom: Seq<CustomPatternView>, nodes: Seq<DirNode>, d: int) -> Option<Hit> {
    let p = parent_of(nodes, d);
    if !(0 <= p < d) {
        None
    } else {
        match rule_hit_up(custom, nodes, d, p) {
            Some(h) => Some(h),
            None => if cmake_out_of_source(nodes[d].entries@) {
                match cmake_root_up(nodes, p) {
                    Some(a) => Some(
                        Hit { root: a, rule: heuristic_rule(), project_type: ProjectType::Cpp },
                    ),
                    None => None,
                }
            } else {
                None
            },
        }
    }
}

/// The pending target reported for directory `d` under the match `h`.
pub open spec fn target_view(
    root: Seq<char>,
    nodes: Seq<DirNode>,
    d: int,
    h: Hit,
    now: i64,
) -> ProjectView {
    ProjectView {
        root: full_path(root, nodes, h.root),
        project_type: h.project_type,
        project_name: if h.rule.source == RuleSource::Custom {
            h.rule.name
        } else {
            None
        },
        category: category_of(nodes[d].name@),
        risk_level: risk_for(h.rule.source, category_of(nodes[d].name@)),
        confidence: confidence_for(h.rule.source),
        matched_rule: Some(h.rule),
        cleanable_dir: full_path(root, nodes, d),
        size: 0,
        size_calculated: false,
        last_modified: nodes[d].modified,
        in_use: recent_lock(nodes[h.root].entries@, lock_files(h.project_type), now),
        protected: false,
        protected_by: None,
        recent: false,
        selection_reason: None,
        skip_reason: None,
    }
}

/// The pending target for directory `d`, if it is one.
pub open spec fn target_at(
    root: Seq<char>,
    custom: Seq<CustomPatternView>,
    nodes: Seq<DirNode>,
    d: int,
    now: i64,
) -> Option<ProjectView> {
    match find_hit(custom, nodes, d) {
        Some(h) => Some(target_view(root, nodes, d, h, now)),
        None => None,
    }
}

/// The content of an optional target.
pub open spec fn opt_view(t: Option<ProjectInfo>) -> Option<ProjectView> {
    match t {
        Some(info) => Some(info@),
        None => None,
    }
}

/// Whether a depth lies within the limit.
pub open spec fn within_depth(max_depth: Option<usize>, depth: nat) -> bool {
    match max_depth {
        Some(m) => depth <= m,
        None => true,
    }
}

/// Whether the walk enters node `i` on reaching it: the scan root always,
/// any other directory unless its name is excluded or it lies too deep.
pub open spec fn enters(s: Scanner, nodes: Seq<DirNode>, i: int) -> bool {
    i == 0 || (!excluded_name(s.excluded(), nodes[i].name@) && within_depth(
        s.max_depth,
        depth(nodes, i),
    ))
}

/// Whether the walk visits node `i`: it visits the scan root, and a directory
/// below it where it visits the parent, the parent is no target, and the
/// directory is entered.
pub open spec fn visited(s: Scanner, nodes: Seq<DirNode>, i: int) -> bool
    decreases i,
{
    if i == 0 {
        true
    } else {
        let p = parent_of(nodes, i);
        0 <= p < i && visited(s, nodes, p) && find_hit(s.custom(), nodes, p) is None && enters(
            s,
            nodes,
            i,
        )
    }
}

/// Whether a target passes the filters of the scanner at time `now`.
pub open spec fn passes(s: Scanner, p: ProjectView, now: i64) -> bool {
    &&& s.min_size matches Some(m) ==> p.size >= m
    &&& s.max_age_days matches Some(a) ==> crate::scanner::days_between(
        now as int,
        p.last_modified as int,
    ) >= a
    &&& s.category matches Some(c) ==> p.category == c
    &&& s.max_risk matches Some(r) ==> crate::scanner::risk_rank(p.risk_level)
        <= crate::scanner::risk_rank(r)
}

/// The candidate that the walk reports at node `i`, if any. The fast walk
/// reports every visited target as pending; the full walk sizes each from the
/// tree and reports it only if it passes the filters.
pub open spec fn candidate_at(s: Scanner, nodes: Seq<DirNode>, now: i64, full: bool, i: int)
    -> Option<ProjectView> {
    if !visited(s, nodes, i) {
        None
    } else {
        match target_at(s.root@, s.custom(), nodes, i, now) {
            None => None,
            Some(t) => if full {
                let sized = crate::scanner::size_calculator::sized(
                    t,
                    crate::scanner::size_calculator::clamped(
                        crate::scanner::size_calculator::subtree_bytes(
                            nodes,
                            i,
                            nodes.len() as int,
                        ),
                    ),
                );
                if passes(s, sized, now) {
                    Some(sized)
                } else {
                    None
                }
            } else {
                Some(t)
            },
        }
    }
}

/// The candidates that the walk reports among the first `n` nodes, in order.
pub open spec fn candidates_upto(s: Scanner, nodes: Seq<DirNode>, now: i64, full: bool, n: int)
    -> Seq<ProjectView>
    decreases n,
{
    if n <= 0 {
        seq![]
    } else {
        let prev = candidates_upto(s, nodes, now, full, n - 1);
        match candidate_at(s, nodes, now, full, n - 1) {
            Some(t) => prev.push(t),
            None => prev,
        }
    }
}

/// What the fast walk returns: the pending targets of the tree, topmost only.
pub open spec fn fast_scan_result(s: Scanner, nodes: Seq<DirNode>, now: i64) -> Seq<ProjectView> {
    crate::scanner::dedup::topmost(candidates_upto(s, nodes, now, false, nodes.len() as int))
}

/// What the full walk returns: the sized targets of the tree that pass the
/// filters, topmost only, largest first.
pub open spec fn scan_result(s: Scanner, nodes: Seq<DirNode>, now: i64) -> Seq<ProjectView> {
    crate::scanner::by_size_falling(
        crate::scanner::dedup::topmost(candidates_upto(s, nodes, now, true, nodes.len() as int)),
    )
}

/// The path `base` with the component `name` added.
pub fn join_path(base: &str, name: &str) -> (path: String)
    ensures
        path@ == joined(base@, name@),
{
    let b = to_chars(base);
    let mut out = base.to_owned();
    if b.len() == 0 || b[b.len() - 1] != '/' {
        push_char(&mut out, '/');
    }
    out.append(name);
    out
}

/// The compiled rules of the project roots met during one scan, by position
/// of the root in the tree. A scan starts with an empty cache and fills it as
/// it goes; nothing of it outlives the scan.
#[derive(Debug)]
pub struct MatcherCache {
    pub slots: Vec<Option<Matcher>>,
}

impl MatcherCache {
    /// Whether every matcher in the cache is the one that `Matcher::build`
    /// gives for its node under the custom patterns `custom`.
    pub open spec fn valid_for(&self, custom: Seq<CustomPatternView>, nodes: Seq<DirNode>) -> bool {
        forall|j: int|
            0 <= j < self.slots@.len() && (#[trigger] self.slots@[j]) is Some ==> {
                &&& j < nodes.len()
                &&& self.slots@[j]->0.ecosystem == detected(nodes[j].entries@)
                &&& rule_views(self.slots@[j]->0.rules@) == node_rules(custom, nodes[j])
            }
    }

    /// An empty cache.
    pub fn new() -> (cache: MatcherCache)
        ensures
            cache.slots@.len() == 0,
            forall|custom: Seq<CustomPatternView>, nodes: Seq<DirNode>|
                #[trigger] cache.valid_for(custom, nodes),
    {
        MatcherCache { slots: Vec::new() }
    }

    /// Whether the cache holds a matcher for the project root at `a`.
    pub open spec fn filled(&self, a: int) -> bool {
        0 <= a < self.slots@.len() && self.slots@[a] is Some
    }

    /// Whether the cache holds a matcher for the project root at `a`.
    pub fn holds(&self, a: usize) -> (held: bool)
        ensures
            held == self.filled(a as int),
    {
        a < self.slots.len() && self.slots[a].is_some()
    }

    /// Offers the cache a matcher built for the project root at `a`. The
    /// matcher that was cached first stays: where the cache holds one for
    /// `a` already, the one offered is discarded, so that building a matcher
    /// twice costs work and changes nothing.
    pub fn insert(&mut self, a: usize, built: Matcher)
        ensures
            final(self).filled(a as int),
            old(self).filled(a as int) ==> final(self).slots@ == old(self).slots@,
            !old(self).filled(a as int) ==> final(self).slots@[a as int] == Some(built),
            forall|j: int|
                0 <= j < old(self).slots@.len() && j != a ==> #[trigger] final(self).slots@[j]
                    == old(self).slots@[j],
            forall|j: int|
                old(self).slots@.len() <= j < final(self).slots@.len() && j != a
                    ==> #[trigger] final(self).slots@[j] is None,
    {
        if self.holds(a) {
            return ;
        }
        while self.slots.len() <= a
            invariant
                !self.filled(a as int),
                old(self).slots@.len() <= self.slots@.len(),
                forall|j: int| 0 <= j < old(self).slots@.len() ==> self.slots@[j] == old(self).slots@[j],
                forall|j: int| old(self).slots@.len() <= j < self.slots@.len() ==> self.slots@[j] is None,
            decreases a + 1 - self.slots.len(),
        {
            self.slots.push(None);
        }
        self.slots.set(a, Some(built));
    }
}

impl Scanner {
    /// A scanner for the tree below `root`, with no limits, no exclusions
    /// beyond version-control directories and no custom patterns.
    pub fn new(root: &str) -> (s: Scanner)
        ensures
            s.root@ == root@,
            !s.respect_gitignore,
            s.max_depth is None,
            s.min_size is None,
            s.max_age_days is None,
            s.exclude_dirs@.len() == 0,
            s.custom_patterns@.len() == 0,
            s.category is None,
            s.max_risk is None,
    {
        Scanner {
            root: root.to_owned(),
            respect_gitignore: false,
            max_depth: None,
            min_size: None,
            max_age_days: None,
            exclude_dirs: Vec::new(),
            custom_patterns: Vec::new(),
            category: None,
            max_risk: None,
        }
    }

    /// The custom patterns of the scanner.
    pub open spec fn custom(&self) -> Seq<CustomPatternView> {
        pattern_views(self.custom_patterns@)
    }

    /// The excluded directory names of the scanner.
    pub open spec fn excluded(&self) -> Seq<Seq<char>> {
        string_texts(self.exclude_dirs@)
    }

    /// Whether a directory called `name` is skipped at entry: it is a
    /// version-control directory or one of the excluded names.
    pub fn is_excluded(&self, name: &str) -> (skip: bool)
        ensures
            skip == excluded_name(self.excluded(), name@),
    {
        let n = to_chars(name);
        if chars_eq_str(&n, ".git") || chars_eq_str(&n, ".svn") || chars_eq_str(&n, ".hg") {
            return true;
        }
        let found = text_in_list(&self.exclude_dirs, self.exclude_dirs.len(), name);
        assert(string_texts(self.exclude_dirs@).subrange(0, self.exclude_dirs@.len() as int)
            =~= string_texts(self.exclude_dirs@));
        found
    }

    /// Asks for a snapshot without the directories that ignore files
    /// exclude, or with them. The walk visits whatever the snapshot holds.
    pub fn respect_gitignore(self, respect: bool) -> (s: Scanner)
        ensures
            s == (Scanner { respect_gitignore: respect, ..self }),
    {
        let mut s = self;
        s.respect_gitignore = respect;
        s
    }

    /// Limits the depth of the walk below the scan root.
    pub fn max_depth(self, depth: usize) -> (s: Scanner)
        ensures
            s == (Scanner { max_depth: Some(depth), ..self }),
    {
        let mut s = self;
        s.max_depth = Some(depth);
        s
    }

    /// Reports only targets of at least `size` bytes.
    pub fn min_size(self, size: u64) -> (s: Scanner)
        ensures
            s == (Scanner { min_size: Some(size), ..self }),
    {
        let mut s = self;
        s.min_size = Some(size);
        s
    }

    /// Reports only targets last modified at least `days` days ago.
    pub fn max_age_days(self, days: i64) -> (s: Scanner)
        ensures
            s == (Scanner { max_age_days: Some(days), ..self }),
    {
        let mut s = self;
        s.max_age_days = Some(days);
        s
    }

    /// Reports only targets of the given category.
    pub fn category(self, category: Category) -> (s: Scanner)
        ensures
            s == (Scanner { category: Some(category), ..self }),
    {
        let mut s = self;
        s.category = Some(category);
        s
    }

    /// Reports only targets of at most the given risk.
    pub fn max_risk(self, risk: RiskLevel) -> (s: Scanner)
        ensures
            s == (Scanner { max_risk: Some(risk), ..self }),
    {
        let mut s = self;
        s.max_risk = Some(risk);
        s
    }

    /// Never enters directories with one of the given names.
    pub fn exclude_dirs(self, dirs: &Vec<String>) -> (s: Scanner)
        ensures
            s.excluded() == string_texts(dirs@),
            s == (Scanner { exclude_dirs: s.exclude_dirs, ..self }),
    {
        let mut s = self;
        s.exclude_dirs = copy_strings(dirs);
        s
    }

    /// Applies the given custom patterns.
    pub fn custom_patterns(self, patterns: &Vec<CustomPattern>) -> (s: Scanner)
        ensures
            s.custom() == pattern_views(patterns@),
            s == (Scanner { custom_patterns: s.custom_patterns, ..self }),
    {
        let mut s = self;
        s.custom_patterns = copy_patterns(patterns);
        s
    }

    /// Whether a target passes the filters at time `now` (seconds since the
    /// epoch): it is large enough, old enough, of the wanted category and of
    /// no more than the accepted risk, as far as each limit is set.
    pub fn passes_filters(&self, info: &ProjectInfo, now: i64) -> (ok: bool)
        ensures
            ok == passes(*self, info@, now),
    {
        if let Some(min_size) = self.min_size {
            if info.size < min_size {
                return false;
            }
        }
        if let Some(max_age) = self.max_age_days {
            if info.days_since_modified(now) < max_age {
                return false;
            }
        }
        if let Some(category) = self.category {
            if info.category != category {
                return false;
            }
        }
        if let Some(max_risk) = self.max_risk {
            if info.risk_level.rank() > max_risk.rank() {
                return false;
            }
        }
        true
    }

    /// The candidates of the walk over the whole tree, in the order of the
    /// nodes: pending ones from the fast walk, sized and filtered ones from
    /// the full walk.
    fn candidates(&self, tree: &FsTree, now: i64, full: bool) -> (found: Vec<ProjectInfo>)
        requires
            well_formed(tree@),
        ensures
            crate::scanner::views(found@) == candidates_upto(
                *self,
                tree@,
                now,
                full,
                tree@.len() as int,
            ),
    {
        let n = tree.len();
        let ghost nodes = tree@;
        let mut cache = MatcherCache::new();
        let mut open: Vec<bool> = Vec::new();
        let mut depths: Vec<usize> = Vec::new();
        let mut found: Vec<ProjectInfo> = Vec::new();
        let mut i: usize = 0;
        assert(crate::scanner::views(found@) =~= candidates_upto(*self, nodes, now, full, 0));
        while i < n
            invariant
                i <= n,
                n == tree@.len(),
                nodes == tree@,
                well_formed(tree@),
                cache.valid_for(self.custom(), nodes),
                open@.len() == i,
                depths@.len() == i,
                forall|k: int|
                    0 <= k < i ==> #[trigger] open@[k] == (visited(*self, nodes, k) && find_hit(
                        self.custom(),
                        nodes,
                        k,
                    ) is None),
                forall|k: int| 0 <= k < i ==> #[trigger] depths@[k] == depth(nodes, k),
                forall|k: int| 0 <= k < i ==> #[trigger] depths@[k] <= k,
                crate::scanner::views(found@) == candidates_upto(*self, nodes, now, full, i as int),
            decreases n - i,
        {
            let node = tree.node(i);
            let ghost before = crate::scanner::views(found@);
            let level: usize = match node.parent {
                Some(p) => if p < i {
                    depths[p] + 1
                } else {
                    0
                },
                None => 0,
            };
            assert(level == depth(nodes, i as int));
            let reached = if i == 0 {
                true
            } else {
                match node.parent {
                    Some(p) => {
                        let deep = match self.max_depth {
                            Some(m) => level > m,
                            None => false,
                        };
                        p < i && open[p] && !self.is_excluded(node.name.as_str()) && !deep
                    },
                    None => false,
                }
            };
            assert(reached == visited(*self, nodes, i as int));
            let mut stays_open = false;
            if reached {
                match self.check_directory(tree, i, &mut cache, now) {
                    Some(info) => {
                        if full {
                            let mut info = info;
                            info.size = crate::scanner::size_calculator::calculate_dir_size(
                                tree,
                                i,
                            );
                            info.size_calculated = true;
                            if self.passes_filters(&info, now) {
                                found.push(info);
                                assert(crate::scanner::views(found@) =~= before.push(
                                    candidate_at(*self, nodes, now, full, i as int)->0,
                                ));
                            }
                        } else {
                            found.push(info);
                            assert(crate::scanner::views(found@) =~= before.push(
                                candidate_at(*self, nodes, now, full, i as int)->0,
                            ));
                        }
                    },
                    None => {
                        stays_open = true;
                    },
                }
            }
            open.push(stays_open);
            depths.push(level);
            i += 1;
        }
        found
    }

    /// The fast walk: finds the targets of the tree without sizing them.
    /// Returns how many there are, and the targets, pending and topmost
    /// only, for the sizes to be streamed in afterwards.
    pub fn scan_with_streaming(&self, tree: &FsTree, now: i64) -> (r: (usize, Vec<ProjectInfo>))
        requires
            well_formed(tree@),
        ensures
            crate::scanner::views(r.1@) == fast_scan_result(*self, tree@, now),
            r.0 == r.1@.len(),
    {
        let found = self.candidates(tree, now, false);
        let pending = crate::scanner::dedup::deduplicate_nested_dirs(found);
        (pending.len(), pending)
    }

    /// The full walk: finds the targets of the tree, sizes each from the
    /// tree, drops those that fail the filters and those nested in another,
    /// and returns the rest, largest first.
    pub fn scan(&self, tree: &FsTree, now: i64) -> (targets: Vec<ProjectInfo>)
        requires
            well_formed(tree@),
        ensures
            crate::scanner::views(targets@) == scan_result(*self, tree@, now),
    {
        let found = self.candidates(tree, now, true);
        let kept = crate::scanner::dedup::deduplicate_nested_dirs(found);
        crate::scanner::sort_by_size(&kept)
    }

    /// Removes the candidates that lie inside another candidate.
    pub fn deduplicate_nested_dirs(results: Vec<ProjectInfo>) -> (kept: Vec<ProjectInfo>)
        ensures
            crate::scanner::views(kept@) == crate::scanner::dedup::topmost(
                crate::scanner::views(results@),
            ),
    {
        crate::scanner::dedup::deduplicate_nested_dirs(results)
    }

    /// How many steps node `i` lies below the scan root.
    pub fn depth_of(tree: &FsTree, i: usize) -> (d: usize)
        requires
            well_formed(tree@),
            i < tree@.len(),
        ensures
            d == depth(tree@, i as int),
            d <= i,
        decreases i,
    {
        match tree.node(i).parent {
            Some(p) => if p < i {
                Self::depth_of(tree, p) + 1
            } else {
                0
            },
            None => 0,
        }
    }

    /// Whether the walk goes on below node `i` once it has reached it: the
    /// directory is entered and is no target.
    pub fn should_descend(&self, tree: &FsTree, i: usize, cache: &mut MatcherCache, now: i64) -> (go:
        bool)
        requires
            well_formed(tree@),
            i < tree@.len(),
            old(cache).valid_for(self.custom(), tree@),
        ensures
            final(cache).valid_for(self.custom(), tree@),
            go == (enters(*self, tree@, i as int) && find_hit(self.custom(), tree@, i as int)
                is None),
    {
        if i != 0 {
            if self.is_excluded(tree.node(i).name.as_str()) {
                return false;
            }
            if let Some(m) = self.max_depth {
                if Self::depth_of(tree, i) > m {
                    return false;
                }
            }
        }
        self.check_directory(tree, i, cache, now).is_none()
    }

    /// The path of node `i`.
    pub fn path_of(&self, tree: &FsTree, i: usize) -> (path: String)
        requires
            well_formed(tree@),
            i < tree@.len(),
        ensures
            path@ == full_path(self.root@, tree@, i as int),
        decreases i,
    {
        let node = tree.node(i);
        match node.parent {
            Some(p) => {
                if p < i {
                    let base = self.path_of(tree, p);
                    join_path(base.as_str(), node.name.as_str())
                } else {
                    copy_string(&self.root)
                }
            },
            None => copy_string(&self.root),
        }
    }

    /// The match of directory `d` with all that is known of it, if the
    /// directory is a cleanable target.
    pub fn check_directory(
        &self,
        tree: &FsTree,
        d: usize,
        cache: &mut MatcherCache,
        now: i64,
    ) -> (found: Option<ProjectInfo>)
        requires
            well_formed(tree@),
            d < tree@.len(),
            old(cache).valid_for(self.custom(), tree@),
        ensures
            final(cache).valid_for(self.custom(), tree@),
            opt_view(found) == target_at(self.root@, self.custom(), tree@, d as int, now),
    {
        let node = tree.node(d);
        let nearest = match node.parent {
            Some(p) => p,
            None => {
                return None;
            },
        };
        let ghost custom = self.custom();
        let ghost nodes = tree@;
        let mut a: usize = nearest;
        let mut more = true;
        while more
            invariant
                well_formed(tree@),
                nodes == tree@,
                custom == self.custom(),
                d < tree@.len(),
                *node == tree@[d as int],
                a < d,
                nearest < d,
                parent_of(nodes, d as int) == nearest,
                cache.valid_for(custom, nodes),
                more ==> rule_hit_up(custom, nodes, d as int, nearest as int) == rule_hit_up(
                    custom,
                    nodes,
                    d as int,
                    a as int,
                ),
                !more ==> rule_hit_up(custom, nodes, d as int, nearest as int) is None,
            decreases a + (if more { 1int } else { 0int }),
        {
            ensure_matcher(self, tree, cache, a);
            let rel = relative_path(tree, a, d);
            let root_node = tree.node(a);
            let (hit, ecosystem) = match &cache.slots[a] {
                Some(m) => (m.matched_rule(node.name.as_str(), rel.as_str()), m.ecosystem),
                None => (None, None),
            };
            match hit {
                Some(rule) => {
                    let project_type = match rule.source {
                        RuleSource::Custom => ProjectType::Generic,
                        _ => match ecosystem {
                            Some(t) => t,
                            None => ProjectType::Generic,
                        },
                    };
                    let info = self.build_target(tree, d, a, rule, project_type, now);
                    return Some(info);
                },
                None => {},
            }
            match root_node.parent {
                Some(p) => {
                    a = p;
                },
                None => {
                    more = false;
                },
            }
        }
        if !ProjectDetector::is_cmake_out_of_source(&node.entries) {
            return None;
        }
        a = nearest;
        more = true;
        while more
            invariant
                well_formed(tree@),
                nodes == tree@,
                custom == self.custom(),
                d < tree@.len(),
                *node == tree@[d as int],
                a < d,
                nearest < d,
                parent_of(nodes, d as int) == nearest,
                cache.valid_for(custom, nodes),
                rule_hit_up(custom, nodes, d as int, nearest as int) is None,
                cmake_out_of_source(node.entries@),
                more ==> cmake_root_up(nodes, nearest as int) == cmake_root_up(nodes, a as int),
                !more ==> cmake_root_up(nodes, nearest as int) is None,
            decreases a + (if more { 1int } else { 0int }),
        {
            let root_node = tree.node(a);
            if has_entry(&root_node.entries, "CMakeLists.txt") {
                let rule = MatchedRule {
                    source: RuleSource::Heuristic,
                    pattern: "CMakeCache.txt".to_owned(),
                    name: None,
                };
                let info = self.build_target(tree, d, a, rule, ProjectType::Cpp, now);
                return Some(info);
            }
            match root_node.parent {
                Some(p) => {
                    a = p;
                },
                None => {
                    more = false;
                },
            }
        }
        None
    }

    /// The pending target for directory `d`, matched by `rule` at the project
    /// root `a`.
    fn build_target(
        &self,
        tree: &FsTree,
        d: usize,
        a: usize,
        rule: MatchedRule,
        project_type: ProjectType,
        now: i64,
    ) -> (info: ProjectInfo)
        requires
            well_formed(tree@),
            d < tree@.len(),
            a < tree@.len(),
        ensures
            info@ == target_view(
                self.root@,
                tree@,
                d as int,
                Hit { root: a as int, rule: rule@, project_type },
                now,
            ),
    {
        let node = tree.node(d);
        let root_node = tree.node(a);
        let category = Category::from_name(node.name.as_str());
        let project_name = match rule.source {
            RuleSource::Custom => crate::text::copy_opt_string(&rule.name),
            _ => None,
        };
        let risk_level = RiskLevel::for_rule(rule.source, category);
        let confidence = Confidence::for_source(rule.source);
        let in_use = ProjectDetector::is_in_use(&root_node.entries, project_type, now);
        ProjectInfo {
            root: self.path_of(tree, a),
            project_type,
            project_name,
            category,
            risk_level,
            confidence,
            matched_rule: Some(rule),
            cleanable_dir: self.path_of(tree, d),
            size: 0,
            size_calculated: false,
            last_modified: node.modified,
            in_use,
            protected: false,
            protected_by: None,
            recent: false,
            selection_reason: None,
            skip_reason: None,
        }
    }
}

/// The path of node `d` relative to its ancestor `a`.
pub fn relative_path(tree: &FsTree, a: usize, d: usize) -> (path: String)
    requires
        well_formed(tree@),
        d < tree@.len(),
    ensures
        path@ == rel_path(tree@, a as int, d as int),
    decreases d,
{
    let node = tree.node(d);
    match node.parent {
        Some(p) => {
            if p < d && p != a {
                let mut base = relative_path(tree, a, p);
                push_char(&mut base, '/');
                base.append(node.name.as_str());
                base
            } else {
                copy_string(&node.name)
            }
        },
        None => copy_string(&node.name),
    }
}

/// Makes sure the cache holds the matcher of the project root `a`.
fn ensure_matcher(s: &Scanner, tree: &FsTree, cache: &mut MatcherCache, a: usize)
    requires
        well_formed(tree@),
        a < tree@.len(),
        old(cache).valid_for(s.custom(), tree@),
    ensures
        final(cache).valid_for(s.custom(), tree@),
        a < final(cache).slots@.len(),
        final(cache).slots@[a as int] is Some,
{
    if !cache.holds(a) {
        let node = tree.node(a);
        let ecosystem = ProjectDetector::detect(&node.entries);
        let built = Matcher::build(ecosystem, &node.entries, &node.ignore_file, &s.custom_patterns);
        cache.insert(a, built);
    }
}

} // verus!
