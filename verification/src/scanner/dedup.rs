use crate::scanner::{views, ProjectInfo, ProjectView};
use crate::text::to_chars;
use vstd::prelude::*;

verus! {

/// Whether the path `path` is `base` itself or lies below it: `base` is a
/// prefix of `path` that ends where a component of `path` ends.
pub open spec fn path_within(path: Seq<char>, base: Seq<char>) -> bool {
    base.is_prefix_of(path) && (path.len() == base.len() || (base.len() > 0 && base.last() == '/')
        || path[base.len() as int] == '/')
}

/// Whether the path `path` is `base` itself or lies below it.
pub fn is_same_or_child(path: &Vec<char>, base: &Vec<char>) -> (within: bool)
    ensures
        within == path_within(path@, base@),
{
    if !crate::text::chars_start_with(path, base) {
        return false;
    }
    path.len() == base.len() || (base.len() > 0 && base[base.len() - 1] == '/') || path[base.len()]
        == '/'
}

/// Whether a candidate in `all` with another directory than `dir` holds `dir`.
pub open spec fn nested_in_other(dir: Seq<char>, all: Seq<ProjectView>) -> bool {
    exists|j: int|
        0 <= j < all.len() && (#[trigger] all[j]).cleanable_dir != dir && path_within(
            dir,
            all[j].cleanable_dir,
        )
}

/// Those of the first `n` candidates that no other candidate holds, in order.
pub open spec fn topmost_of(all: Seq<ProjectView>, n: int) -> Seq<ProjectView>
    decreases n,
{
    if n <= 0 {
        seq![]
    } else {
        let prev = topmost_of(all, n - 1);
        if nested_in_other(all[n - 1].cleanable_dir, all) {
            prev
        } else {
            prev.push(all[n - 1])
        }
    }
}

/// The candidates that no other candidate holds, in order.
pub open spec fn topmost(all: Seq<ProjectView>) -> Seq<ProjectView> {
    topmost_of(all, all.len() as int)
}

/// The directories of a list of targets, as characters.
fn directories(results: &Vec<ProjectInfo>) -> (dirs: Vec<Vec<char>>)
    ensures
        dirs@.len() == results@.len(),
        forall|k: int| 0 <= k < dirs@.len() ==> (#[trigger] dirs@[k])@ == results@[k].cleanable_dir@,
{
    let mut dirs: Vec<Vec<char>> = Vec::new();
    let mut i: usize = 0;
    while i < results.len()
        invariant
            i <= results.len(),
            dirs@.len() == i,
            forall|k: int| 0 <= k < i ==> (#[trigger] dirs@[k])@ == results@[k].cleanable_dir@,
        decreases results.len() - i,
    {
        dirs.push(to_chars(results[i].cleanable_dir.as_str()));
        i += 1;
    }
    dirs
}

/// Removes the candidates that lie inside another candidate, keeping only the
/// topmost ones, in their order. Candidates with one and the same directory
/// do not remove each other.
pub fn deduplicate_nested_dirs(results: Vec<ProjectInfo>) -> (kept: Vec<ProjectInfo>)
    ensures
        views(kept@) == topmost(views(results@)),
{
    let dirs = directories(&results);
    let ghost all = views(results@);
    let mut kept: Vec<ProjectInfo> = Vec::new();
    let mut i: usize = 0;
    assert(views(kept@) =~= topmost_of(all, 0));
    while i < results.len()
        invariant
            i <= results.len(),
            all == views(results@),
            dirs@.len() == results@.len(),
            forall|k: int|
                0 <= k < dirs@.len() ==> (#[trigger] dirs@[k])@ == results@[k].cleanable_dir@,
            views(kept@) == topmost_of(all, i as int),
        decreases results.len() - i,
    {
        let ghost dir = all[i as int].cleanable_dir;
        let mut nested = false;
        let mut j: usize = 0;
        while j < results.len() && !nested
            invariant
                j <= results.len(),
                i < results.len(),
                all == views(results@),
                dir == all[i as int].cleanable_dir,
                dirs@.len() == results@.len(),
                forall|k: int|
                    0 <= k < dirs@.len() ==> (#[trigger] dirs@[k])@ == results@[k].cleanable_dir@,
                nested ==> nested_in_other(dir, all),
                !nested ==> forall|k: int|
                    0 <= k < j ==> !((#[trigger] all[k]).cleanable_dir != dir && path_within(
                        dir,
                        all[k].cleanable_dir,
                    )),
            decreases results.len() - j + (if nested { 0int } else { 1int }),
        {
            assert(all[j as int].cleanable_dir == dirs@[j as int]@);
            assert(dir == dirs@[i as int]@);
            if !crate::text::chars_eq(&dirs[i], &dirs[j]) && is_same_or_child(&dirs[i], &dirs[j]) {
                nested = true;
            } else {
                j += 1;
            }
        }
        if !nested {
            let ghost before = views(kept@);
            kept.push(results[i].duplicate());
            assert(views(kept@) =~= before.push(all[i as int]));
        }
        i += 1;
    }
    kept
}

/// Every kept candidate is one of the candidates, and none that another
/// candidate holds.
pub proof fn lemma_topmost_members(all: Seq<ProjectView>, n: int)
    requires
        0 <= n <= all.len(),
    ensures
        forall|i: int|
            0 <= i < topmost_of(all, n).len() ==> all.contains(#[trigger] topmost_of(all, n)[i])
                && !nested_in_other(topmost_of(all, n)[i].cleanable_dir, all),
    decreases n,
{
    if n > 0 {
        lemma_topmost_members(all, n - 1);
        let prev = topmost_of(all, n - 1);
        let t = topmost_of(all, n);
        assert forall|i: int| 0 <= i < t.len() implies all.contains(#[trigger] t[i])
            && !nested_in_other(t[i].cleanable_dir, all) by {
            if i < prev.len() {
                assert(t[i] == prev[i]);
            } else {
                assert(t[i] == all[n - 1]);
            }
        }
    }
}

/// Containment: of two kept candidates with different directories, neither
/// directory is the other or lies below it.
pub proof fn lemma_no_containment(all: Seq<ProjectView>, i: int, j: int)
    requires
        0 <= i < topmost(all).len(),
        0 <= j < topmost(all).len(),
        topmost(all)[i].cleanable_dir != topmost(all)[j].cleanable_dir,
    ensures
        !path_within(topmost(all)[i].cleanable_dir, topmost(all)[j].cleanable_dir),
        !path_within(topmost(all)[j].cleanable_dir, topmost(all)[i].cleanable_dir),
{
    lemma_topmost_members(all, all.len() as int);
    let t = topmost(all);
    assert(all.contains(t[i]));
    assert(all.contains(t[j]));
    let a = choose|a: int| 0 <= a < all.len() && all[a] == t[i];
    let b = choose|b: int| 0 <= b < all.len() && all[b] == t[j];
    assert(all[a].cleanable_dir != t[j].cleanable_dir);
    assert(all[b].cleanable_dir != t[i].cleanable_dir);
}

/// A candidate is dropped exactly when another candidate holds it: every
/// candidate that none holds is kept.
pub proof fn lemma_topmost_keeps(all: Seq<ProjectView>, n: int, k: int)
    requires
        0 <= k < n <= all.len(),
        !nested_in_other(all[k].cleanable_dir, all),
    ensures
        topmost_of(all, n).contains(all[k]),
    decreases n,
{
    let t = topmost_of(all, n);
    if k == n - 1 {
        assert(t[t.len() - 1] == all[k]);
    } else {
        lemma_topmost_keeps(all, n - 1, k);
        let prev = topmost_of(all, n - 1);
        let j = choose|j: int| 0 <= j < prev.len() && prev[j] == all[k];
        assert(t[j] == all[k]);
    }
}

} // verus!
