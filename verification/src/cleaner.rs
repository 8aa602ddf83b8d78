use crate::recommend::plus_bytes;
use crate::scanner::{views, ProjectInfo, ProjectView};
use crate::text::string_texts;
use crate::utils::{format_size, size_text};
use vstd::prelude::*;
use vstd::string::*;

verus! {

/// How a cleaning run behaves.
#[derive(Clone, Copy, Debug, PartialEq, Eq, Structural)]
pub struct CleanOptions {
    /// Only report what would be removed.
    pub dry_run: bool,
    /// Report each directory as it is handled.
    pub verbose: bool,
    /// Skip confirmation prompts.
    pub force: bool,
}

impl Default for CleanOptions {
    fn default() -> (o: CleanOptions)
        ensures
            o == (CleanOptions { dry_run: false, verbose: false, force: false }),
    {
        CleanOptions { dry_run: false, verbose: false, force: false }
    }
}

/// The result of a cleaning run.
#[derive(Debug)]
pub struct CleanResult {
    /// Number of directories cleaned.
    pub cleaned_count: usize,
    /// Total bytes freed.
    pub bytes_freed: u64,
    /// Number of directories that could not be cleaned.
    pub failed_count: usize,
    /// One message for each failure.
    pub errors: Vec<String>,
}

impl CleanResult {
    /// The bytes freed, formatted for people.
    pub fn size_freed_human(&self) -> (text: String)
        ensures
            text@ == size_text(self.bytes_freed),
    {
        format_size(self.bytes_freed)
    }
}

/// What is to be done with one target.
#[derive(Clone, Copy, Debug, PartialEq, Eq, Structural)]
pub enum CleanStep {
    /// The directory is gone already: nothing to do, nothing freed.
    Missing,
    /// A dry run: the directory stays and its size is reported.
    WouldRemove(u64),
    /// The directory is to be removed, which frees its size.
    Remove(u64),
}

/// How the cleaning of one target ended.
#[derive(Debug)]
pub enum CleanOutcome {
    /// The target is clean and this many bytes were freed.
    Cleaned(u64),
    /// The target could not be cleaned, for the reason given.
    Failed(String),
}

/// The mathematical content of a `CleanOutcome`.
pub enum CleanOutcomeView {
    Cleaned(u64),
    Failed(Seq<char>),
}

impl View for CleanOutcome {
    type V = CleanOutcomeView;

    open spec fn view(&self) -> CleanOutcomeView {
        match self {
            CleanOutcome::Cleaned(bytes) => CleanOutcomeView::Cleaned(*bytes),
            CleanOutcome::Failed(reason) => CleanOutcomeView::Failed(reason@),
        }
    }
}

/// The message that records a failure to clean the directory `dir`.
pub open spec fn failure_message(dir: Seq<char>, reason: Seq<char>) -> Seq<char> {
    "Failed to clean "@ + dir + ": "@ + reason
}

/// The running totals of a cleaning run.
pub struct CleanTally {
    pub cleaned_count: usize,
    pub bytes_freed: u64,
    pub failed_count: usize,
    pub errors: Seq<Seq<char>>,
}

/// A count with one more, stopping at the greatest value.
pub open spec fn next_count(n: usize) -> usize {
    crate::recommend::one_more(n)
}

/// The totals over the first `n` targets and their outcomes.
pub open spec fn clean_tally(projects: Seq<ProjectView>, outcomes: Seq<CleanOutcomeView>, n: int)
    -> CleanTally
    decreases n,
{
    if n <= 0 {
        CleanTally { cleaned_count: 0, bytes_freed: 0, failed_count: 0, errors: seq![] }
    } else {
        let t = clean_tally(projects, outcomes, n - 1);
        match outcomes[n - 1] {
            CleanOutcomeView::Cleaned(bytes) => CleanTally {
                cleaned_count: next_count(t.cleaned_count),
                bytes_freed: plus_bytes(t.bytes_freed, bytes),
                ..t
            },
            CleanOutcomeView::Failed(reason) => CleanTally {
                failed_count: next_count(t.failed_count),
                errors: t.errors.push(failure_message(projects[n - 1].cleanable_dir, reason)),
                ..t
            },
        }
    }
}

/// The number of targets that have an outcome.
pub open spec fn paired(projects: int, outcomes: int) -> int {
    if projects <= outcomes {
        projects
    } else {
        outcomes
    }
}

/// Removes cleanable directories, or reports what it would remove.
#[derive(Clone, Copy, Debug)]
pub struct Cleaner {
    pub options: CleanOptions,
}

impl Cleaner {
    /// A cleaner with the default options: it removes, quietly, and asks.
    pub fn new() -> (c: Cleaner)
        ensures
            c.options == (CleanOptions { dry_run: false, verbose: false, force: false }),
    {
        Cleaner { options: CleanOptions::default() }
    }

    /// A cleaner with the given options.
    pub fn with_options(options: CleanOptions) -> (c: Cleaner)
        ensures
            c.options == options,
    {
        Cleaner { options }
    }

    /// Sets whether the cleaner only reports.
    pub fn dry_run(self, dry_run: bool) -> (c: Cleaner)
        ensures
            c.options == (CleanOptions { dry_run, ..self.options }),
    {
        let mut c = self;
        c.options.dry_run = dry_run;
        c
    }

    /// Sets whether the cleaner reports each directory.
    pub fn verbose(self, verbose: bool) -> (c: Cleaner)
        ensures
            c.options == (CleanOptions { verbose, ..self.options }),
    {
        let mut c = self;
        c.options.verbose = verbose;
        c
    }

    /// Sets whether the cleaner skips confirmations.
    pub fn force(self, force: bool) -> (c: Cleaner)
        ensures
            c.options == (CleanOptions { force, ..self.options }),
    {
        let mut c = self;
        c.options.force = force;
        c
    }

    /// What is to be done with one target, given whether its directory
    /// still exists.
    pub fn clean_single(&self, project: &ProjectInfo, exists: bool) -> (step: CleanStep)
        ensures
            !exists ==> step == CleanStep::Missing,
            exists && self.options.dry_run ==> step == CleanStep::WouldRemove(project.size),
            exists && !self.options.dry_run ==> step == CleanStep::Remove(project.size),
    {
        if !exists {
            CleanStep::Missing
        } else if self.options.dry_run {
            CleanStep::WouldRemove(project.size)
        } else {
            CleanStep::Remove(project.size)
        }
    }

    /// Sums up a cleaning run from the outcome of each target, in order:
    /// how many were cleaned and how many bytes that freed, how many failed
    /// and with which messages. A target without an outcome is not counted.
    pub fn clean_multiple(&self, projects: &Vec<ProjectInfo>, outcomes: &Vec<CleanOutcome>) -> (r:
        CleanResult)
        ensures
            ({
                let t = clean_tally(
                    views(projects@),
                    outcome_views(outcomes@),
                    paired(projects@.len() as int, outcomes@.len() as int),
                );
                &&& r.cleaned_count == t.cleaned_count
                &&& r.bytes_freed == t.bytes_freed
                &&& r.failed_count == t.failed_count
                &&& string_texts(r.errors@) == t.errors
            }),
    {
        let n = if projects.len() <= outcomes.len() {
            projects.len()
        } else {
            outcomes.len()
        };
        let ghost p = views(projects@);
        let ghost o = outcome_views(outcomes@);
        let mut cleaned_count: usize = 0;
        let mut bytes_freed: u64 = 0;
        let mut failed_count: usize = 0;
        let mut errors: Vec<String> = Vec::new();
        let mut i: usize = 0;
        assert(string_texts(errors@) =~= clean_tally(p, o, 0).errors);
        while i < n
            invariant
                i <= n,
                n <= projects.len(),
                n <= outcomes.len(),
                p == views(projects@),
                o == outcome_views(outcomes@),
                cleaned_count == clean_tally(p, o, i as int).cleaned_count,
                bytes_freed == clean_tally(p, o, i as int).bytes_freed,
                failed_count == clean_tally(p, o, i as int).failed_count,
                string_texts(errors@) == clean_tally(p, o, i as int).errors,
            decreases n - i,
        {
            assert(o[i as int] == outcomes@[i as int]@);
            assert(p[i as int] == projects@[i as int]@);
            match &outcomes[i] {
                CleanOutcome::Cleaned(bytes) => {
                    cleaned_count = cleaned_count.saturating_add(1);
                    bytes_freed = bytes_freed.saturating_add(*bytes);
                },
                CleanOutcome::Failed(reason) => {
                    failed_count = failed_count.saturating_add(1);
                    let ghost before = string_texts(errors@);
                    let mut message = "Failed to clean ".to_owned();
                    message.append(projects[i].cleanable_dir.as_str());
                    message.append(": ");
                    message.append(reason.as_str());
                    errors.push(message);
                    assert(string_texts(errors@) =~= before.push(
                        failure_message(p[i as int].cleanable_dir, reason@),
                    ));
                },
            }
            i += 1;
        }
        CleanResult { cleaned_count, bytes_freed, failed_count, errors }
    }
}

/// The contents of a list of outcomes, in order.
pub open spec fn outcome_views(v: Seq<CleanOutcome>) -> Seq<CleanOutcomeView> {
    Seq::new(v.len(), |i: int| v[i]@)
}

} // verus!
