use crate::recommend::{one_more, plus_bytes};
use crate::scanner::detector::name_of;
use crate::scanner::{by_size_falling, days_between, sort_by_size, views, ProjectInfo, ProjectView};
use crate::text::{chars_eq_str, copy_string, to_chars};
use vstd::prelude::*;

verus! {

/// Totals for one kind of project.
#[derive(Clone, Copy, Debug, PartialEq, Eq, Structural)]
pub struct TypeStats {
    /// Total size of the targets of this kind.
    pub total_size: u64,
    /// Number of targets of this kind.
    pub count: usize,
    /// Average size of a target of this kind.
    pub avg_size: u64,
}

/// What the statistics keep of one target.
#[derive(Debug)]
pub struct ProjectStats {
    /// Path of the cleanable directory.
    pub path: String,
    /// Size in bytes.
    pub size: u64,
    /// Name under which the kind of project is displayed.
    pub project_type: String,
    /// Days since the last modification.
    pub age_days: i64,
}

/// The mathematical content of a `ProjectStats`.
pub struct ProjectStatsView {
    pub path: Seq<char>,
    pub size: u64,
    pub project_type: Seq<char>,
    pub age_days: i64,
}

impl View for ProjectStats {
    type V = ProjectStatsView;

    open spec fn view(&self) -> ProjectStatsView {
        ProjectStatsView {
            path: self.path@,
            size: self.size,
            project_type: self.project_type@,
            age_days: self.age_days,
        }
    }
}

/// Number and total size of the targets in each group of ages.
#[derive(Clone, Copy, Debug, PartialEq, Eq)]
pub struct AgeGroupStats {
    /// Modified less than 30 days ago.
    pub recent: (usize, u64),
    /// Modified 30 to 89 days ago.
    pub medium: (usize, u64),
    /// Modified 90 days ago or earlier.
    pub old: (usize, u64),
}

/// Statistics about cleanable directories.
#[derive(Debug)]
pub struct Statistics {
    /// Total size of all targets.
    pub total_size: u64,
    /// Number of targets.
    pub total_projects: usize,
    /// Totals by kind of project, in the order in which the kinds appear.
    pub by_type: Vec<(String, TypeStats)>,
    /// The targets, largest first.
    pub top_largest: Vec<ProjectStats>,
    /// Totals by age.
    pub by_age_group: AgeGroupStats,
}

/// The name under which the kind of a target is displayed: the name of the
/// custom pattern that matched it, else the name of its ecosystem.
pub open spec fn display_name(p: ProjectView) -> Seq<char> {
    match p.project_name {
        Some(name) => name,
        None => name_of(p.project_type),
    }
}

/// The sizes of the first `n` targets together, stopping at the greatest value.
pub open spec fn total_size_upto(c: Seq<ProjectView>, n: int) -> u64
    decreases n,
{
    if n <= 0 {
        0
    } else {
        plus_bytes(total_size_upto(c, n - 1), c[n - 1].size)
    }
}

/// The position at or after `from` of the kind called `name`, or the length.
pub open spec fn find_type(rows: Seq<(Seq<char>, TypeStats)>, name: Seq<char>, from: int) -> int
    decreases rows.len() - from,
{
    if from < 0 || from >= rows.len() {
        rows.len() as int
    } else if rows[from].0 == name {
        from
    } else {
        find_type(rows, name, from + 1)
    }
}

/// Totals with one more target of `size` bytes; the average is filled in
/// at the end.
pub open spec fn with_target(t: TypeStats, size: u64) -> TypeStats {
    TypeStats { total_size: plus_bytes(t.total_size, size), count: one_more(t.count), avg_size: 0 }
}

/// The totals by kind over the first `n` targets, averages not yet filled in.
pub open spec fn types_upto(c: Seq<ProjectView>, n: int) -> Seq<(Seq<char>, TypeStats)>
    decreases n,
{
    if n <= 0 {
        seq![]
    } else {
        let prev = types_upto(c, n - 1);
        let name = display_name(c[n - 1]);
        let at = find_type(prev, name, 0);
        if 0 <= at < prev.len() {
            prev.update(at, (name, with_target(prev[at].1, c[n - 1].size)))
        } else {
            prev.push(
                (
                    name,
                    with_target(TypeStats { total_size: 0, count: 0, avg_size: 0 }, c[n - 1].size),
                ),
            )
        }
    }
}

/// Totals with their average filled in.
pub open spec fn averaged(t: TypeStats) -> TypeStats {
    TypeStats {
        avg_size: if t.count > 0 {
            (t.total_size as int / t.count as int) as u64
        } else {
            0
        },
        ..t
    }
}

/// The totals by kind of a list of targets.
pub open spec fn type_table(c: Seq<ProjectView>) -> Seq<(Seq<char>, TypeStats)> {
    let rows = types_upto(c, c.len() as int);
    Seq::new(rows.len(), |i: int| (rows[i].0, averaged(rows[i].1)))
}

/// The totals by age over the first `n` targets at time `now`.
pub open spec fn ages_upto(c: Seq<ProjectView>, now: i64, n: int) -> AgeGroupStats
    decreases n,
{
    if n <= 0 {
        AgeGroupStats { recent: (0, 0), medium: (0, 0), old: (0, 0) }
    } else {
        let g = ages_upto(c, now, n - 1);
        let age = days_between(now as int, c[n - 1].last_modified as int);
        let size = c[n - 1].size;
        if age < 30 {
            AgeGroupStats { recent: (one_more(g.recent.0), plus_bytes(g.recent.1, size)), ..g }
        } else if age < 90 {
            AgeGroupStats { medium: (one_more(g.medium.0), plus_bytes(g.medium.1, size)), ..g }
        } else {
            AgeGroupStats { old: (one_more(g.old.0), plus_bytes(g.old.1, size)), ..g }
        }
    }
}

/// What the statistics keep of a target at time `now`.
pub open spec fn stats_of(p: ProjectView, now: i64) -> ProjectStatsView {
    ProjectStatsView {
        path: p.cleanable_dir,
        size: p.size,
        project_type: display_name(p),
        age_days: days_between(now as int, p.last_modified as int) as i64,
    }
}

/// The contents of a list of kept targets, in order.
pub open spec fn stats_views(v: Seq<ProjectStats>) -> Seq<ProjectStatsView> {
    Seq::new(v.len(), |i: int| v[i]@)
}

/// The contents of the totals by kind, in order.
pub open spec fn row_views(v: Seq<(String, TypeStats)>) -> Seq<(Seq<char>, TypeStats)> {
    Seq::new(v.len(), |i: int| (v[i].0@, v[i].1))
}

/// The share of the total that a part makes up, in whole percent; zero of
/// nothing is zero percent.
pub open spec fn percent_of(part: u64, total: u64) -> u64 {
    if total == 0 {
        0
    } else if part as int * 100 / total as int > u64::MAX {
        u64::MAX
    } else {
        (part as int * 100 / total as int) as u64
    }
}

impl ProjectInfo {
    /// The name under which the kind of the target is displayed.
    pub fn project_type_display_name(&self) -> (name: String)
        ensures
            name@ == display_name(self@),
    {
        match &self.project_name {
            Some(name) => copy_string(name),
            None => self.project_type.name().to_owned(),
        }
    }
}

/// The position of the kind called `name`, or the length of the list.
fn position_of_type(rows: &Vec<(String, TypeStats)>, name: &str) -> (at: usize)
    ensures
        at == find_type(row_views(rows@), name@, 0),
        at <= rows@.len(),
{
    let wanted = to_chars(name);
    let ghost rv = row_views(rows@);
    let mut k: usize = 0;
    while k < rows.len()
        invariant
            k <= rows.len(),
            wanted@ == name@,
            rv == row_views(rows@),
            find_type(rv, name@, 0) == find_type(rv, name@, k as int),
        decreases rows.len() - k,
    {
        assert(rv[k as int] == (rows@[k as int].0@, rows@[k as int].1));
        if chars_eq_str(&wanted, rows[k].0.as_str()) {
            return k;
        }
        k += 1;
    }
    k
}

/// The totals by kind, averages not yet filled in.
fn group_by_type(projects: &Vec<ProjectInfo>) -> (rows: Vec<(String, TypeStats)>)
    ensures
        row_views(rows@) == types_upto(views(projects@), projects@.len() as int),
{
    let ghost c = views(projects@);
    let mut rows: Vec<(String, TypeStats)> = Vec::new();
    let mut i: usize = 0;
    assert(row_views(rows@) =~= types_upto(c, 0));
    while i < projects.len()
        invariant
            i <= projects.len(),
            c == views(projects@),
            row_views(rows@) == types_upto(c, i as int),
        decreases projects.len() - i,
    {
        let project = &projects[i];
        assert(c[i as int] == project@);
        let ghost prev = row_views(rows@);
        let name = project.project_type_display_name();
        let at = position_of_type(&rows, name.as_str());
        if at < rows.len() {
            let old = rows[at].1;
            assert(prev[at as int] == (rows@[at as int].0@, rows@[at as int].1));
            let stats = TypeStats {
                total_size: old.total_size.saturating_add(project.size),
                count: old.count.saturating_add(1),
                avg_size: 0,
            };
            rows.set(at, (name, stats));
            assert(row_views(rows@) =~= prev.update(
                at as int,
                (display_name(c[i as int]), with_target(prev[at as int].1, c[i as int].size)),
            ));
        } else {
            let stats = TypeStats { total_size: project.size, count: 1, avg_size: 0 };
            rows.push((name, stats));
            assert(row_views(rows@) =~= prev.push(
                (
                    display_name(c[i as int]),
                    with_target(
                        TypeStats { total_size: 0, count: 0, avg_size: 0 },
                        c[i as int].size,
                    ),
                ),
            ));
        }
        i += 1;
    }
    rows
}

/// The totals by kind with their averages filled in.
fn fill_averages(rows: Vec<(String, TypeStats)>) -> (out: Vec<(String, TypeStats)>)
    ensures
        out@.len() == rows@.len(),
        forall|i: int|
            0 <= i < rows@.len() ==> (#[trigger] out@[i]).0@ == rows@[i].0@ && out@[i].1
                == averaged(rows@[i].1),
{
    let mut out: Vec<(String, TypeStats)> = Vec::new();
    let mut i: usize = 0;
    while i < rows.len()
        invariant
            i <= rows.len(),
            out@.len() == i,
            forall|k: int|
                0 <= k < i ==> (#[trigger] out@[k]).0@ == rows@[k].0@ && out@[k].1 == averaged(
                    rows@[k].1,
                ),
        decreases rows.len() - i,
    {
        let t = rows[i].1;
        let avg_size = if t.count > 0 {
            t.total_size / (t.count as u64)
        } else {
            0
        };
        out.push(
            (copy_string(&rows[i].0), TypeStats { total_size: t.total_size, count: t.count, avg_size }),
        );
        i += 1;
    }
    out
}

impl Statistics {
    /// The statistics of a list of targets at time `now` (seconds since the
    /// epoch): totals, totals by kind and by age, and the targets largest
    /// first.
    pub fn from_projects(projects: Vec<ProjectInfo>, now: i64) -> (s: Statistics)
        ensures
            s.total_projects == projects@.len(),
            s.total_size == total_size_upto(views(projects@), projects@.len() as int),
            row_views(s.by_type@) == type_table(views(projects@)),
            s.by_age_group == ages_upto(views(projects@), now, projects@.len() as int),
            stats_views(s.top_largest@).len() == projects@.len(),
            forall|i: int|
                0 <= i < projects@.len() ==> #[trigger] stats_views(s.top_largest@)[i] == stats_of(
                    by_size_falling(views(projects@))[i],
                    now,
                ),
    {
        let ghost c = views(projects@);
        let mut total_size: u64 = 0;
        let mut ages = AgeGroupStats { recent: (0, 0), medium: (0, 0), old: (0, 0) };
        let mut i: usize = 0;
        while i < projects.len()
            invariant
                i <= projects.len(),
                c == views(projects@),
                total_size == total_size_upto(c, i as int),
                ages == ages_upto(c, now, i as int),
            decreases projects.len() - i,
        {
            let p = &projects[i];
            assert(c[i as int] == p@);
            total_size = total_size.saturating_add(p.size);
            let age = p.days_since_modified(now);
            if age < 30 {
                ages.recent = (ages.recent.0.saturating_add(1), ages.recent.1.saturating_add(p.size));
            } else if age < 90 {
                ages.medium = (ages.medium.0.saturating_add(1), ages.medium.1.saturating_add(p.size));
            } else {
                ages.old = (ages.old.0.saturating_add(1), ages.old.1.saturating_add(p.size));
            }
            i += 1;
        }
        let by_type = fill_averages(group_by_type(&projects));
        assert(row_views(by_type@) =~= type_table(c));
        let sorted = sort_by_size(&projects);
        let ghost sv = views(sorted@);
        proof {
            crate::order::lemma_falling_shape(crate::scanner::size_keys(c), c.len() as int);
        }
        assert(sv.len() == c.len());
        let mut top_largest: Vec<ProjectStats> = Vec::new();
        let mut k: usize = 0;
        while k < sorted.len()
            invariant
                k <= sorted.len(),
                sv == views(sorted@),
                sv.len() == c.len(),
                sv == by_size_falling(c),
                top_largest@.len() == k,
                forall|j: int| 0 <= j < k ==> (#[trigger] top_largest@[j])@ == stats_of(sv[j], now),
            decreases sorted.len() - k,
        {
            let p = &sorted[k];
            assert(sv[k as int] == p@);
            top_largest.push(
                ProjectStats {
                    path: copy_string(&p.cleanable_dir),
                    size: p.size,
                    project_type: p.project_type_display_name(),
                    age_days: p.days_since_modified(now),
                },
            );
            k += 1;
        }
        assert(stats_views(top_largest@).len() == projects@.len());
        assert forall|i: int| 0 <= i < projects@.len() implies #[trigger] stats_views(
            top_largest@,
        )[i] == stats_of(by_size_falling(views(projects@))[i], now) by {
            assert(top_largest@[i]@ == stats_of(sv[i], now));
        }
        Statistics {
            total_size,
            total_projects: projects.len(),
            by_type,
            top_largest,
            by_age_group: ages,
        }
    }

    /// The share of the total size that the five largest targets make up,
    /// in whole percent; nothing where there are fewer than five targets.
    pub fn top_five_share(&self) -> (share: Option<u64>)
        ensures
            self.top_largest@.len() < 5 ==> share is None,
            self.top_largest@.len() >= 5 ==> share == Some(
                percent_of(
                    plus_bytes(
                        plus_bytes(
                            plus_bytes(
                                plus_bytes(self.top_largest@[0].size, self.top_largest@[1].size),
                                self.top_largest@[2].size,
                            ),
                            self.top_largest@[3].size,
                        ),
                        self.top_largest@[4].size,
                    ),
                    self.total_size,
                ),
            ),
    {
        if self.top_largest.len() < 5 {
            return None;
        }
        let top = self.top_largest[0].size.saturating_add(self.top_largest[1].size).saturating_add(
            self.top_largest[2].size,
        ).saturating_add(self.top_largest[3].size).saturating_add(self.top_largest[4].size);
        if self.total_size == 0 {
            Some(0)
        } else {
            let share: u128 = (top as u128) * 100 / (self.total_size as u128);
            if share > 0xffff_ffff_ffff_ffff {
                Some(0xffff_ffff_ffff_ffff)
            } else {
                Some(share as u64)
            }
        }
    }
}

} // verus!
