use crate::scanner::detector::{DirEntry, EntryKind};
use crate::scanner::tree::{well_formed, DirNode, FsTree};
use crate::scanner::walker::parent_of;
use crate::scanner::{ProjectInfo, ProjectView};
use vstd::prelude::*;

verus! {

/// The per-item time limit that applies where none is given: sixty seconds.
pub const DEFAULT_TIMEOUT_SECS: u64 = 60;

/// How the measuring of one directory ended.
#[derive(Clone, Copy, Debug, PartialEq, Eq, Structural)]
pub enum SizeOutcome {
    /// The walk finished and found this many bytes.
    Measured(u64),
    /// The time limit passed first.
    TimedOut,
    /// The walk failed on the file system.
    Failed,
}

/// Why a single directory could not be measured.
#[derive(Clone, Copy, Debug, PartialEq, Eq, Structural)]
pub enum SizeError {
    Timeout,
    Io,
}

/// Turns the outcomes of measuring directories into sized targets, under a
/// per-item time limit.
#[derive(Clone, Copy, Debug)]
pub struct SizeCalculator {
    /// Time limit for one directory, in seconds.
    pub timeout_secs: u64,
}

/// What counts as the outcome under a limit of `timeout_secs`: with a limit
/// of zero every measurement counts as timed out.
pub open spec fn effective(timeout_secs: u64, outcome: SizeOutcome) -> SizeOutcome {
    if timeout_secs == 0 {
        SizeOutcome::TimedOut
    } else {
        outcome
    }
}

/// The size recorded for an outcome: the bytes found, or zero as the mark of
/// an unknown size.
pub open spec fn recorded_size(outcome: SizeOutcome) -> u64 {
    match outcome {
        SizeOutcome::Measured(bytes) => bytes,
        _ => 0,
    }
}

/// A target once it is sized.
pub open spec fn sized(p: ProjectView, size: u64) -> ProjectView {
    ProjectView { size, size_calculated: true, ..p }
}

/// The target `p` after the batch path has settled it with `outcome`.
pub open spec fn settled(timeout_secs: u64, p: ProjectView, outcome: SizeOutcome) -> ProjectView {
    sized(p, recorded_size(effective(timeout_secs, outcome)))
}

/// The outcome that belongs to item `i` of a batch: the one reported for it,
/// or a failure where none was reported.
pub open spec fn outcome_at(outcomes: Seq<SizeOutcome>, i: int) -> SizeOutcome {
    if 0 <= i < outcomes.len() {
        outcomes[i]
    } else {
        SizeOutcome::Failed
    }
}

/// How many of the first `n` items of a batch were measured with success.
pub open spec fn measured_count(timeout_secs: u64, outcomes: Seq<SizeOutcome>, n: int) -> nat
    decreases n,
{
    if n <= 0 {
        0
    } else {
        measured_count(timeout_secs, outcomes, n - 1) + (if effective(
            timeout_secs,
            outcome_at(outcomes, n - 1),
        ) is Measured {
            1nat
        } else {
            0nat
        })
    }
}

/// What the single-item path returns for an outcome: the bytes found, or the
/// error that names the timeout or the failure.
pub open spec fn single_result(outcome: SizeOutcome) -> Result<u64, SizeError> {
    match outcome {
        SizeOutcome::Measured(bytes) => Ok(bytes),
        SizeOutcome::TimedOut => Err(SizeError::Timeout),
        SizeOutcome::Failed => Err(SizeError::Io),
    }
}

impl SizeCalculator {
    /// A calculator with the default limit of sixty seconds.
    pub fn new() -> (c: SizeCalculator)
        ensures
            c.timeout_secs == DEFAULT_TIMEOUT_SECS,
    {
        SizeCalculator { timeout_secs: DEFAULT_TIMEOUT_SECS }
    }

    /// A calculator with the given limit in seconds.
    pub fn with_timeout(timeout_secs: u64) -> (c: SizeCalculator)
        ensures
            c.timeout_secs == timeout_secs,
    {
        SizeCalculator { timeout_secs }
    }

    /// What counts as the outcome under this calculator's limit.
    pub fn resolve(&self, outcome: SizeOutcome) -> (r: SizeOutcome)
        ensures
            r == effective(self.timeout_secs, outcome),
            self.timeout_secs == 0 ==> r == SizeOutcome::TimedOut,
    {
        if self.timeout_secs == 0 {
            SizeOutcome::TimedOut
        } else {
            outcome
        }
    }

    /// Settles one target of a batch: it is sized whatever the outcome, with
    /// the bytes found or, after a timeout or a failure, with zero. Returns
    /// whether it was measured with success.
    pub fn settle(&self, project: &mut ProjectInfo, outcome: SizeOutcome) -> (measured: bool)
        ensures
            final(project)@ == settled(self.timeout_secs, old(project)@, outcome),
            final(project).size_calculated,
            measured == (effective(self.timeout_secs, outcome) is Measured),
            self.timeout_secs == 0 ==> final(project).size == 0,
    {
        match self.resolve(outcome) {
            SizeOutcome::Measured(bytes) => {
                project.size = bytes;
                project.size_calculated = true;
                true
            },
            _ => {
                project.size = 0;
                project.size_calculated = true;
                false
            },
        }
    }

    /// Settles a batch of pending targets with the outcomes of measuring
    /// them, item by item. Every target comes back sized, in the order given;
    /// the number returned counts those measured with success.
    pub fn calculate_batch_streaming(
        &self,
        projects: Vec<ProjectInfo>,
        outcomes: &Vec<SizeOutcome>,
    ) -> (done: (Vec<ProjectInfo>, usize))
        ensures
            done.0@.len() == projects@.len(),
            forall|i: int|
                0 <= i < projects@.len() ==> (#[trigger] done.0@[i])@ == settled(
                    self.timeout_secs,
                    projects@[i]@,
                    outcome_at(outcomes@, i),
                ),
            forall|i: int| 0 <= i < done.0@.len() ==> (#[trigger] done.0@[i]).size_calculated,
            self.timeout_secs == 0 ==> forall|i: int|
                0 <= i < done.0@.len() ==> (#[trigger] done.0@[i]).size == 0,
            done.1 == measured_count(self.timeout_secs, outcomes@, projects@.len() as int),
    {
        let mut projects = projects;
        let ghost start = projects@;
        let mut completed: usize = 0;
        let mut i: usize = 0;
        while i < projects.len()
            invariant
                i <= projects.len(),
                projects@.len() == start.len(),
                completed <= i,
                completed == measured_count(self.timeout_secs, outcomes@, i as int),
                forall|k: int| i <= k < start.len() ==> projects@[k] == start[k],
                forall|k: int|
                    0 <= k < i ==> (#[trigger] projects@[k])@ == settled(
                        self.timeout_secs,
                        start[k]@,
                        outcome_at(outcomes@, k),
                    ),
            decreases projects.len() - i,
        {
            let outcome = if i < outcomes.len() {
                outcomes[i]
            } else {
                SizeOutcome::Failed
            };
            let mut project = projects[i].duplicate();
            let measured = self.settle(&mut project, outcome);
            projects.set(i, project);
            if measured {
                completed += 1;
            }
            i += 1;
        }
        (projects, completed)
    }

    /// Sizes a single target from the outcome of measuring it. A timeout or
    /// a failure is returned as an error and leaves the target pending.
    pub fn calculate_single(&self, project: &mut ProjectInfo, outcome: SizeOutcome) -> (r: Result<
        u64,
        SizeError,
    >)
        ensures
            r == single_result(effective(self.timeout_secs, outcome)),
            final(project)@ == (match effective(self.timeout_secs, outcome) {
                SizeOutcome::Measured(bytes) => sized(old(project)@, bytes),
                _ => old(project)@,
            }),
    {
        match self.resolve(outcome) {
            SizeOutcome::Measured(bytes) => {
                project.size = bytes;
                project.size_calculated = true;
                Ok(bytes)
            },
            SizeOutcome::TimedOut => Err(SizeError::Timeout),
            SizeOutcome::Failed => Err(SizeError::Io),
        }
    }
}

impl Default for SizeCalculator {
    fn default() -> (c: SizeCalculator)
        ensures
            c.timeout_secs == DEFAULT_TIMEOUT_SECS,
    {
        SizeCalculator::new()
    }
}

/// Whether node `i` is node `t` or lies below it.
pub open spec fn in_subtree(nodes: Seq<DirNode>, i: int, t: int) -> bool
    decreases i,
{
    i == t || {
        let p = parent_of(nodes, i);
        0 <= p < i && in_subtree(nodes, p, t)
    }
}

/// The bytes of the regular files among the first `n` entries of a listing.
pub open spec fn file_bytes(entries: Seq<DirEntry>, n: int) -> nat
    decreases n,
{
    if n <= 0 {
        0
    } else {
        file_bytes(entries, n - 1) + (if entries[n - 1].kind == EntryKind::File {
            entries[n - 1].size as nat
        } else {
            0nat
        })
    }
}

/// The bytes of the regular files in those of the first `n` nodes that lie
/// in the subtree of node `t`.
pub open spec fn subtree_bytes(nodes: Seq<DirNode>, t: int, n: int) -> nat
    decreases n,
{
    if n <= 0 {
        0
    } else {
        subtree_bytes(nodes, t, n - 1) + (if in_subtree(nodes, n - 1, t) {
            file_bytes(nodes[n - 1].entries@, nodes[n - 1].entries@.len() as int)
        } else {
            0nat
        })
    }
}

/// A byte count as it fits into 64 bits: itself, or the greatest value.
pub open spec fn clamped(n: nat) -> u64 {
    if n > u64::MAX {
        u64::MAX
    } else {
        n as u64
    }
}

/// The size of the directory at node `t` in an in-memory tree: the bytes of
/// all regular files at or below it, links not followed, capped at
/// `u64::MAX`.
pub fn calculate_dir_size(tree: &FsTree, t: usize) -> (total: u64)
    requires
        well_formed(tree@),
    ensures
        total == clamped(subtree_bytes(tree@, t as int, tree@.len() as int)),
{
    let n = tree.len();
    let mut inside: Vec<bool> = Vec::new();
    let mut total: u64 = 0;
    let mut i: usize = 0;
    while i < n
        invariant
            i <= n,
            n == tree@.len(),
            well_formed(tree@),
            inside@.len() == i,
            forall|k: int| 0 <= k < i ==> inside@[k] == in_subtree(tree@, k, t as int),
            total == clamped(subtree_bytes(tree@, t as int, i as int)),
        decreases n - i,
    {
        let node = tree.node(i);
        let within = if i == t {
            true
        } else {
            match node.parent {
                Some(p) => p < i && inside[p],
                None => false,
            }
        };
        assert(within == in_subtree(tree@, i as int, t as int));
        if within {
            let mut j: usize = 0;
            let ghost base = subtree_bytes(tree@, t as int, i as int);
            while j < node.entries.len()
                invariant
                    j <= node.entries.len(),
                    total == clamped(base + file_bytes(node.entries@, j as int)),
                decreases node.entries.len() - j,
            {
                if node.entries[j].kind == EntryKind::File {
                    total = total.saturating_add(node.entries[j].size);
                }
                j += 1;
            }
        }
        inside.push(within);
        i += 1;
    }
    total
}

} // verus!
