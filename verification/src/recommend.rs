use crate::order::{falling_order, sort_falling, Key};
use crate::scanner::{
    arrange, arranged, days_between, risk_rank, views, ProjectInfo, ProjectView, RiskLevel,
};
use vstd::prelude::*;

verus! {

/// How candidates are ranked for a recommendation.
#[derive(Clone, Copy, Debug, PartialEq, Eq, Structural)]
pub enum RecommendStrategy {
    SafeFirst,
    Balanced,
    MaxSpace,
}

/// The name of a strategy on the command line.
pub open spec fn strategy_name(s: RecommendStrategy) -> Seq<char> {
    match s {
        RecommendStrategy::SafeFirst => "safe-first"@,
        RecommendStrategy::Balanced => "balanced"@,
        RecommendStrategy::MaxSpace => "max-space"@,
    }
}

/// The reason recorded on a target selected under a strategy.
pub open spec fn strategy_reason(s: RecommendStrategy) -> Seq<char> {
    match s {
        RecommendStrategy::SafeFirst => "strategy_safe_first"@,
        RecommendStrategy::Balanced => "strategy_balanced"@,
        RecommendStrategy::MaxSpace => "strategy_max_space"@,
    }
}

impl RecommendStrategy {
    /// The name of the strategy on the command line.
    pub fn as_str(&self) -> (s: &'static str)
        ensures
            s@ == strategy_name(*self),
    {
        match self {
            RecommendStrategy::SafeFirst => "safe-first",
            RecommendStrategy::Balanced => "balanced",
            RecommendStrategy::MaxSpace => "max-space",
        }
    }
}

/// What a recommendation is asked for.
#[derive(Clone, Copy, Debug)]
pub struct RecommendOptions {
    /// How many bytes the selection should free.
    pub target_bytes: u64,
    pub include_in_use: bool,
    pub include_recent: bool,
    pub include_protected: bool,
    /// A target modified fewer days ago than this is recent.
    pub recent_days: i64,
    pub strategy: RecommendStrategy,
    /// The greatest risk that may be selected, if limited.
    pub max_risk: Option<RiskLevel>,
}

impl RecommendOptions {
    /// Options that aim at `target_bytes` and leave out whatever is in use,
    /// recent or protected: safest first, seven days, no limit on risk.
    pub fn new(target_bytes: u64) -> (o: RecommendOptions)
        ensures
            o == (RecommendOptions {
                target_bytes,
                include_in_use: false,
                include_recent: false,
                include_protected: false,
                recent_days: 7,
                strategy: RecommendStrategy::SafeFirst,
                max_risk: None,
            }),
    {
        RecommendOptions {
            target_bytes,
            include_in_use: false,
            include_recent: false,
            include_protected: false,
            recent_days: 7,
            strategy: RecommendStrategy::SafeFirst,
            max_risk: None,
        }
    }
}

/// How many candidates were held back, and how many bytes, by reason.
#[derive(Clone, Copy, Debug, PartialEq, Eq, Structural)]
pub struct BlockedSummary {
    pub in_use_count: usize,
    pub in_use_bytes: u64,
    pub protected_count: usize,
    pub protected_bytes: u64,
    pub recent_count: usize,
    pub recent_bytes: u64,
    pub risk_count: usize,
    pub risk_bytes: u64,
}

/// The summary in which nothing is held back.
pub open spec fn nothing_blocked() -> BlockedSummary {
    BlockedSummary {
        in_use_count: 0,
        in_use_bytes: 0,
        protected_count: 0,
        protected_bytes: 0,
        recent_count: 0,
        recent_bytes: 0,
        risk_count: 0,
        risk_bytes: 0,
    }
}

impl Default for BlockedSummary {
    fn default() -> (b: BlockedSummary)
        ensures
            b == nothing_blocked(),
    {
        BlockedSummary {
            in_use_count: 0,
            in_use_bytes: 0,
            protected_count: 0,
            protected_bytes: 0,
            recent_count: 0,
            recent_bytes: 0,
            risk_count: 0,
            risk_bytes: 0,
        }
    }
}

impl BlockedSummary {
    /// Whether no candidate was held back.
    pub fn is_empty(&self) -> (empty: bool)
        ensures
            empty == (self.in_use_count == 0 && self.protected_count == 0 && self.recent_count == 0
                && self.risk_count == 0),
    {
        self.in_use_count == 0 && self.protected_count == 0 && self.recent_count == 0
            && self.risk_count == 0
    }
}

/// The outcome of a recommendation.
#[derive(Debug)]
pub struct RecommendResult {
    pub target_bytes: u64,
    pub selected_bytes: u64,
    pub selected: Vec<ProjectInfo>,
    pub blocked: BlockedSummary,
}

/// What becomes of one candidate.
#[derive(Clone, Copy, Debug, PartialEq, Eq, Structural)]
pub enum Verdict {
    Eligible,
    BlockedByRisk,
    BlockedInUse,
    BlockedProtected,
    BlockedRecent,
}

/// Whether a target counts as recent at time `now`.
pub open spec fn is_recent(p: ProjectView, recent_days: i64, now: i64) -> bool {
    days_between(now as int, p.last_modified as int) < recent_days
}

/// What becomes of a candidate: the first of the reasons risk, in use,
/// protected, recent that holds it back, or none.
pub open spec fn verdict_of(p: ProjectView, o: RecommendOptions, now: i64) -> Verdict {
    if o.max_risk is Some && risk_rank(p.risk_level) > risk_rank(o.max_risk->0) {
        Verdict::BlockedByRisk
    } else if !o.include_in_use && p.in_use {
        Verdict::BlockedInUse
    } else if !o.include_protected && p.protected {
        Verdict::BlockedProtected
    } else if !o.include_recent && is_recent(p, o.recent_days, now) {
        Verdict::BlockedRecent
    } else {
        Verdict::Eligible
    }
}

/// A count with one more, stopping at the greatest value.
pub open spec fn one_more(n: usize) -> usize {
    if n < usize::MAX {
        (n + 1) as usize
    } else {
        n
    }
}

/// A byte total with `size` added, stopping at the greatest value.
pub open spec fn plus_bytes(total: u64, size: u64) -> u64 {
    if total + size > u64::MAX {
        u64::MAX
    } else {
        (total + size) as u64
    }
}

/// The summary `b` with one candidate of `size` bytes counted under its verdict.
pub open spec fn tallied(b: BlockedSummary, v: Verdict, size: u64) -> BlockedSummary {
    match v {
        Verdict::Eligible => b,
        Verdict::BlockedByRisk => BlockedSummary {
            risk_count: one_more(b.risk_count),
            risk_bytes: plus_bytes(b.risk_bytes, size),
            ..b
        },
        Verdict::BlockedInUse => BlockedSummary {
            in_use_count: one_more(b.in_use_count),
            in_use_bytes: plus_bytes(b.in_use_bytes, size),
            ..b
        },
        Verdict::BlockedProtected => BlockedSummary {
            protected_count: one_more(b.protected_count),
            protected_bytes: plus_bytes(b.protected_bytes, size),
            ..b
        },
        Verdict::BlockedRecent => BlockedSummary {
            recent_count: one_more(b.recent_count),
            recent_bytes: plus_bytes(b.recent_bytes, size),
            ..b
        },
    }
}

/// The summary of what is held back among the first `n` candidates.
pub open spec fn blocked_upto(c: Seq<ProjectView>, o: RecommendOptions, now: i64, n: int)
    -> BlockedSummary
    decreases n,
{
    if n <= 0 {
        nothing_blocked()
    } else {
        tallied(blocked_upto(c, o, now, n - 1), verdict_of(c[n - 1], o, now), c[n - 1].size)
    }
}

/// A candidate with its recency recorded.
pub open spec fn dated(p: ProjectView, recent_days: i64, now: i64) -> ProjectView {
    ProjectView { recent: is_recent(p, recent_days, now), ..p }
}

/// The eligible ones among the first `n` candidates, in order, each with its
/// recency recorded.
pub open spec fn eligible_upto(c: Seq<ProjectView>, o: RecommendOptions, now: i64, n: int) -> Seq<
    ProjectView,
>
    decreases n,
{
    if n <= 0 {
        seq![]
    } else {
        let prev = eligible_upto(c, o, now, n - 1);
        if verdict_of(c[n - 1], o, now) == Verdict::Eligible {
            prev.push(dated(c[n - 1], o.recent_days, now))
        } else {
            prev
        }
    }
}

/// The penalty that a risk level costs in the score.
pub open spec fn risk_penalty(r: RiskLevel) -> int {
    match r {
        RiskLevel::Low => 0,
        RiskLevel::Medium => 30,
        RiskLevel::High => 80,
    }
}

/// The age of a target in days, held between 0 and 365.
pub open spec fn age_bonus(p: ProjectView, now: i64) -> int {
    let days = days_between(now as int, p.last_modified as int);
    if days < 0 {
        0
    } else if days > 365 {
        365
    } else {
        days
    }
}

/// The score of a target under a strategy; higher is recommended sooner.
pub open spec fn score_of(p: ProjectView, strategy: RecommendStrategy, now: i64) -> int {
    let age = age_bonus(p, now);
    let size_mb = (p.size / 1048576) as int;
    let penalty = risk_penalty(p.risk_level);
    match strategy {
        RecommendStrategy::SafeFirst => age * 2 + size_mb - penalty * 3,
        RecommendStrategy::Balanced => age + size_mb * 2 - penalty * 2,
        RecommendStrategy::MaxSpace => size_mb * 4 + age - penalty,
    }
}

/// The sort key of a target: score, then size, then age in days.
pub open spec fn rank_key(p: ProjectView, strategy: RecommendStrategy, now: i64) -> Key {
    Key {
        a: score_of(p, strategy, now) as i128,
        b: p.size as i128,
        c: days_between(now as int, p.last_modified as int) as i128,
    }
}

/// The sort keys of a list of targets.
pub open spec fn rank_keys(c: Seq<ProjectView>, strategy: RecommendStrategy, now: i64) -> Seq<Key> {
    Seq::new(c.len(), |i: int| rank_key(c[i], strategy, now))
}

/// The eligible candidates in the order of recommendation.
pub open spec fn ranked(c: Seq<ProjectView>, o: RecommendOptions, now: i64) -> Seq<ProjectView> {
    let e = eligible_upto(c, o, now, c.len() as int);
    arranged(e, falling_order(rank_keys(e, o.strategy, now)))
}

/// A target marked as selected under a strategy.
pub open spec fn chosen(p: ProjectView, strategy: RecommendStrategy) -> ProjectView {
    ProjectView { selection_reason: Some(strategy_reason(strategy)), ..p }
}

/// The bytes selected among the first `n` ranked targets: targets are taken
/// in order for as long as the bytes taken so far are short of the goal.
pub open spec fn selected_bytes_upto(r: Seq<ProjectView>, target: u64, n: int) -> u64
    decreases n,
{
    if n <= 0 {
        0
    } else {
        let before = selected_bytes_upto(r, target, n - 1);
        if before < target {
            plus_bytes(before, r[n - 1].size)
        } else {
            before
        }
    }
}

/// The targets selected among the first `n` ranked ones.
pub open spec fn selected_upto(
    r: Seq<ProjectView>,
    target: u64,
    strategy: RecommendStrategy,
    n: int,
) -> Seq<ProjectView>
    decreases n,
{
    if n <= 0 {
        seq![]
    } else {
        let prev = selected_upto(r, target, strategy, n - 1);
        if selected_bytes_upto(r, target, n - 1) < target {
            prev.push(chosen(r[n - 1], strategy))
        } else {
            prev
        }
    }
}

/// The score of a target under a strategy at time `now`.
pub fn score_project(p: &ProjectInfo, strategy: RecommendStrategy, now: i64) -> (score: i64)
    ensures
        score == score_of(p@, strategy, now),
{
    let penalty: i64 = match p.risk_level {
        RiskLevel::Low => 0,
        RiskLevel::Medium => 30,
        RiskLevel::High => 80,
    };
    let days = p.days_since_modified(now);
    let age: i64 = if days < 0 {
        0
    } else if days > 365 {
        365
    } else {
        days
    };
    let size_mb: i64 = (p.size / 1048576) as i64;
    match strategy {
        RecommendStrategy::SafeFirst => age * 2 + size_mb - penalty * 3,
        RecommendStrategy::Balanced => age + size_mb * 2 - penalty * 2,
        RecommendStrategy::MaxSpace => size_mb * 4 + age - penalty,
    }
}

/// What becomes of a candidate under the options at time `now`.
pub fn judge(p: &ProjectInfo, o: &RecommendOptions, now: i64) -> (v: Verdict)
    ensures
        v == verdict_of(p@, *o, now),
{
    if let Some(max_risk) = o.max_risk {
        if p.risk_level.rank() > max_risk.rank() {
            return Verdict::BlockedByRisk;
        }
    }
    if !o.include_in_use && p.in_use {
        return Verdict::BlockedInUse;
    }
    if !o.include_protected && p.protected {
        return Verdict::BlockedProtected;
    }
    if !o.include_recent && p.days_since_modified(now) < o.recent_days {
        return Verdict::BlockedRecent;
    }
    Verdict::Eligible
}

/// Counts one candidate of `size` bytes under its verdict.
fn tally(b: BlockedSummary, v: Verdict, size: u64) -> (r: BlockedSummary)
    ensures
        r == tallied(b, v, size),
{
    let mut r = b;
    match v {
        Verdict::Eligible => {},
        Verdict::BlockedByRisk => {
            r.risk_count = r.risk_count.saturating_add(1);
            r.risk_bytes = r.risk_bytes.saturating_add(size);
        },
        Verdict::BlockedInUse => {
            r.in_use_count = r.in_use_count.saturating_add(1);
            r.in_use_bytes = r.in_use_bytes.saturating_add(size);
        },
        Verdict::BlockedProtected => {
            r.protected_count = r.protected_count.saturating_add(1);
            r.protected_bytes = r.protected_bytes.saturating_add(size);
        },
        Verdict::BlockedRecent => {
            r.recent_count = r.recent_count.saturating_add(1);
            r.recent_bytes = r.recent_bytes.saturating_add(size);
        },
    }
    r
}

/// Recommends what to clean. Candidates held back by risk, use, protection
/// or recency are counted in the summary; the others are ranked by score,
/// then size, then age, and taken in that order until the bytes taken reach
/// `target_bytes`. Each target taken is marked with the strategy.
pub fn recommend_projects(candidates: Vec<ProjectInfo>, options: &RecommendOptions, now: i64) -> (r:
    RecommendResult)
    ensures
        r.target_bytes == options.target_bytes,
        r.blocked == blocked_upto(views(candidates@), *options, now, candidates@.len() as int),
        views(r.selected@) == selected_upto(
            ranked(views(candidates@), *options, now),
            options.target_bytes,
            options.strategy,
            ranked(views(candidates@), *options, now).len() as int,
        ),
        r.selected_bytes == selected_bytes_upto(
            ranked(views(candidates@), *options, now),
            options.target_bytes,
            ranked(views(candidates@), *options, now).len() as int,
        ),
{
    let ghost c = views(candidates@);
    let mut blocked = BlockedSummary::default();
    let mut eligible: Vec<ProjectInfo> = Vec::new();
    let mut keys: Vec<Key> = Vec::new();
    let mut i: usize = 0;
    assert(views(eligible@) =~= eligible_upto(c, *options, now, 0));
    while i < candidates.len()
        invariant
            i <= candidates.len(),
            c == views(candidates@),
            blocked == blocked_upto(c, *options, now, i as int),
            views(eligible@) == eligible_upto(c, *options, now, i as int),
            keys@.len() == eligible@.len(),
            forall|k: int|
                0 <= k < keys@.len() ==> #[trigger] keys@[k] == rank_key(
                    eligible@[k]@,
                    options.strategy,
                    now,
                ),
        decreases candidates.len() - i,
    {
        let p = &candidates[i];
        assert(c[i as int] == p@);
        let v = judge(p, options, now);
        blocked = tally(blocked, v, p.size);
        if v == Verdict::Eligible {
            let ghost before = views(eligible@);
            let mut q = p.duplicate();
            q.recent = q.days_since_modified(now) < options.recent_days;
            keys.push(
                Key {
                    a: score_project(&q, options.strategy, now) as i128,
                    b: q.size as i128,
                    c: q.days_since_modified(now) as i128,
                },
            );
            eligible.push(q);
            assert(views(eligible@) =~= before.push(dated(c[i as int], options.recent_days, now)));
        }
        i += 1;
    }
    let ghost e = views(eligible@);
    assert(keys@ =~= rank_keys(e, options.strategy, now));
    let order = sort_falling(&keys);
    let sorted = arrange(&eligible, &order);
    let ghost r = views(sorted@);
    assert(r == ranked(c, *options, now));
    let mut selected: Vec<ProjectInfo> = Vec::new();
    let mut selected_bytes: u64 = 0;
    let mut k: usize = 0;
    assert(views(selected@) =~= selected_upto(r, options.target_bytes, options.strategy, 0));
    while k < sorted.len()
        invariant
            k <= sorted.len(),
            r == views(sorted@),
            selected_bytes == selected_bytes_upto(r, options.target_bytes, k as int),
            views(selected@) == selected_upto(r, options.target_bytes, options.strategy, k as int),
        decreases sorted.len() - k,
    {
        assert(r[k as int] == sorted@[k as int]@);
        if selected_bytes < options.target_bytes {
            let ghost before = views(selected@);
            let mut project = sorted[k].duplicate();
            selected_bytes = selected_bytes.saturating_add(project.size);
            project.selection_reason = Some(
                match options.strategy {
                    RecommendStrategy::SafeFirst => "strategy_safe_first".to_owned(),
                    RecommendStrategy::Balanced => "strategy_balanced".to_owned(),
                    RecommendStrategy::MaxSpace => "strategy_max_space".to_owned(),
                },
            );
            selected.push(project);
            assert(views(selected@) =~= before.push(chosen(r[k as int], options.strategy)));
        }
        k += 1;
    }
    RecommendResult { target_bytes: options.target_bytes, selected_bytes, selected, blocked }
}

} // verus!
