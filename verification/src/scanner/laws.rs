use crate::order::falling_order;
use crate::scanner::dedup::{nested_in_other, path_within, topmost, topmost_of};
use crate::scanner::size_calculator::in_subtree;
use crate::scanner::tree::DirNode;
use crate::scanner::walker::{
    candidate_at, candidates_upto, fast_scan_result, find_hit, full_path, joined, parent_of,
    rule_hit_up, cmake_root_up, scan_result, target_at, visited, Scanner,
};
use crate::scanner::{by_size_falling, size_keys, Category, ProjectView, RiskLevel};
use crate::config::CustomPatternView;
use vstd::prelude::*;

verus! {

/// What of a target does not depend on the time of the scan: everything but
/// the mark of being in use.
pub open spec fn timeless(p: ProjectView) -> ProjectView {
    ProjectView { in_use: false, ..p }
}

/// Whether two lists of targets agree in everything but the marks of being in use.
pub open spec fn same_but_use(a: Seq<ProjectView>, b: Seq<ProjectView>) -> bool {
    a.len() == b.len() && forall|i: int|
        0 <= i < a.len() ==> timeless(#[trigger] a[i]) == timeless(#[trigger] b[i])
}

/// The directory, category and risk of each target of a list.
pub open spec fn essentials(a: Seq<ProjectView>) -> Seq<(Seq<char>, Category, RiskLevel)> {
    Seq::new(a.len(), |i: int| (a[i].cleanable_dir, a[i].category, a[i].risk_level))
}

/// Lists that agree but for the marks of being in use have the same
/// directories, categories and risks.
pub proof fn lemma_same_essentials(a: Seq<ProjectView>, b: Seq<ProjectView>)
    requires
        same_but_use(a, b),
    ensures
        essentials(a) == essentials(b),
{
    assert forall|i: int| 0 <= i < a.len() implies essentials(a)[i] == essentials(b)[i] by {
        assert(timeless(a[i]) == timeless(b[i]));
    }
    assert(essentials(a) =~= essentials(b));
}

/// The candidates of two walks over one tree at different times agree but
/// for the marks of being in use. For the full walk this needs that no
/// filter on age is set, since the age of a target grows with time.
pub proof fn lemma_candidates_timeless(
    s: Scanner,
    nodes: Seq<DirNode>,
    now1: i64,
    now2: i64,
    full: bool,
    n: int,
)
    requires
        full ==> s.max_age_days is None,
    ensures
        same_but_use(
            candidates_upto(s, nodes, now1, full, n),
            candidates_upto(s, nodes, now2, full, n),
        ),
    decreases n,
{
    if n > 0 {
        lemma_candidates_timeless(s, nodes, now1, now2, full, n - 1);
        let a = candidates_upto(s, nodes, now1, full, n);
        let b = candidates_upto(s, nodes, now2, full, n);
        let pa = candidates_upto(s, nodes, now1, full, n - 1);
        let pb = candidates_upto(s, nodes, now2, full, n - 1);
        let ca = candidate_at(s, nodes, now1, full, n - 1);
        let cb = candidate_at(s, nodes, now2, full, n - 1);
        assert(ca is Some <==> cb is Some);
        if ca is Some {
            assert(timeless(ca->0) == timeless(cb->0));
        }
        assert forall|i: int| 0 <= i < a.len() implies timeless(#[trigger] a[i]) == timeless(
            #[trigger] b[i],
        ) by {
            if i < pa.len() {
                assert(a[i] == pa[i]);
                assert(b[i] == pb[i]);
            }
        }
    }
}

/// Deduplication looks at directories only: lists that agree but for the
/// marks of being in use keep the same candidates.
pub proof fn lemma_topmost_timeless(a: Seq<ProjectView>, b: Seq<ProjectView>, n: int)
    requires
        same_but_use(a, b),
        0 <= n <= a.len(),
    ensures
        same_but_use(topmost_of(a, n), topmost_of(b, n)),
    decreases n,
{
    if n > 0 {
        lemma_topmost_timeless(a, b, n - 1);
        let da = a[n - 1].cleanable_dir;
        assert(timeless(a[n - 1]) == timeless(b[n - 1]));
        assert(nested_in_other(da, a) <==> nested_in_other(da, b)) by {
            if nested_in_other(da, a) {
                let j = choose|j: int|
                    0 <= j < a.len() && (#[trigger] a[j]).cleanable_dir != da && path_within(
                        da,
                        a[j].cleanable_dir,
                    );
                assert(timeless(a[j]) == timeless(b[j]));
                assert(b[j].cleanable_dir != da && path_within(da, b[j].cleanable_dir));
            }
            if nested_in_other(da, b) {
                let j = choose|j: int|
                    0 <= j < b.len() && (#[trigger] b[j]).cleanable_dir != da && path_within(
                        da,
                        b[j].cleanable_dir,
                    );
                assert(timeless(a[j]) == timeless(b[j]));
                assert(a[j].cleanable_dir != da && path_within(da, a[j].cleanable_dir));
            }
        }
        let ta = topmost_of(a, n);
        let tb = topmost_of(b, n);
        let pa = topmost_of(a, n - 1);
        let pb = topmost_of(b, n - 1);
        assert forall|i: int| 0 <= i < ta.len() implies timeless(#[trigger] ta[i]) == timeless(
            #[trigger] tb[i],
        ) by {
            if i < pa.len() {
                assert(ta[i] == pa[i]);
                assert(tb[i] == pb[i]);
            }
        }
    }
}

/// Idempotence of the fast walk: two scans of one tree, at whatever times,
/// report the same directories with the same categories and risks.
pub proof fn lemma_fast_scan_idempotent(s: Scanner, nodes: Seq<DirNode>, now1: i64, now2: i64)
    ensures
        essentials(fast_scan_result(s, nodes, now1)) == essentials(
            fast_scan_result(s, nodes, now2),
        ),
{
    let n = nodes.len() as int;
    lemma_candidates_timeless(s, nodes, now1, now2, false, n);
    let a = candidates_upto(s, nodes, now1, false, n);
    let b = candidates_upto(s, nodes, now2, false, n);
    lemma_topmost_timeless(a, b, a.len() as int);
    lemma_same_essentials(topmost(a), topmost(b));
}

/// Idempotence of the full walk: two scans of one tree by a scanner without
/// a filter on age, at whatever times, report the same directories with the
/// same categories and risks, in the same order.
pub proof fn lemma_scan_idempotent(s: Scanner, nodes: Seq<DirNode>, now1: i64, now2: i64)
    requires
        s.max_age_days is None,
    ensures
        essentials(scan_result(s, nodes, now1)) == essentials(scan_result(s, nodes, now2)),
{
    let n = nodes.len() as int;
    lemma_candidates_timeless(s, nodes, now1, now2, true, n);
    let a = candidates_upto(s, nodes, now1, true, n);
    let b = candidates_upto(s, nodes, now2, true, n);
    lemma_topmost_timeless(a, b, a.len() as int);
    let ta = topmost(a);
    let tb = topmost(b);
    assert(size_keys(ta) =~= size_keys(tb)) by {
        assert forall|i: int| 0 <= i < ta.len() implies size_keys(ta)[i] == size_keys(tb)[i] by {
            assert(timeless(ta[i]) == timeless(tb[i]));
        }
    }
    let order = falling_order(size_keys(ta));
    crate::order::lemma_falling_sorted(size_keys(ta), ta.len() as int);
    let ra = by_size_falling(ta);
    let rb = by_size_falling(tb);
    assert forall|i: int| 0 <= i < ra.len() implies timeless(#[trigger] ra[i]) == timeless(
        #[trigger] rb[i],
    ) by {
        assert(0 <= order[i] < ta.len());
        assert(timeless(ta[order[i]]) == timeless(tb[order[i]]));
    }
    lemma_same_essentials(ra, rb);
}

/// Pruning: the walk visits nothing below a target. Where directory `t` is
/// matched, no directory `i` in its subtree other than `t` itself is visited,
/// so nothing inside a target is reported on its own.
pub proof fn lemma_nothing_visited_below_target(s: Scanner, nodes: Seq<DirNode>, t: int, i: int)
    requires
        0 <= t,
        i != t,
        in_subtree(nodes, i, t),
        find_hit(s.custom(), nodes, t) is Some,
    ensures
        !visited(s, nodes, i),
    decreases i,
{
    let p = parent_of(nodes, i);
    assert(0 <= p < i && in_subtree(nodes, p, t));
    if p != t {
        lemma_nothing_visited_below_target(s, nodes, t, p);
    }
}

/// A path with a component added lies below the path.
pub proof fn lemma_joined_within(base: Seq<char>, name: Seq<char>)
    ensures
        path_within(joined(base, name), base),
{
    let j = joined(base, name);
    assert(base =~= j.subrange(0, base.len() as int));
}

/// What lies below a path that lies below a third lies below the third.
pub proof fn lemma_within_transitive(a: Seq<char>, b: Seq<char>, c: Seq<char>)
    requires
        path_within(a, b),
        path_within(b, c),
    ensures
        path_within(a, c),
{
    assert(b =~= a.subrange(0, b.len() as int));
    assert(c =~= b.subrange(0, c.len() as int));
    assert(c =~= a.subrange(0, c.len() as int));
    if a.len() != c.len() && !(c.len() > 0 && c.last() == '/') {
        if b.len() == c.len() {
            assert(b =~= c);
        } else {
            assert(a[c.len() as int] == b[c.len() as int]);
        }
    }
}

/// The path of a node lies below the path of each node in whose subtree it is.
pub proof fn lemma_path_below_ancestor(root: Seq<char>, nodes: Seq<DirNode>, d: int, a: int)
    requires
        in_subtree(nodes, d, a),
    ensures
        path_within(full_path(root, nodes, d), full_path(root, nodes, a)),
    decreases d,
{
    if d == a {
        assert(full_path(root, nodes, d).is_prefix_of(full_path(root, nodes, d)));
    } else {
        let p = parent_of(nodes, d);
        lemma_path_below_ancestor(root, nodes, p, a);
        lemma_joined_within(full_path(root, nodes, p), nodes[d].name@);
        lemma_within_transitive(
            full_path(root, nodes, d),
            full_path(root, nodes, p),
            full_path(root, nodes, a),
        );
    }
}

/// The path of every node lies below the path of the scan root.
pub proof fn lemma_path_below_root(root: Seq<char>, nodes: Seq<DirNode>, d: int)
    ensures
        path_within(full_path(root, nodes, d), root),
    decreases d,
{
    let p = parent_of(nodes, d);
    if 0 <= p < d {
        lemma_path_below_root(root, nodes, p);
        lemma_joined_within(full_path(root, nodes, p), nodes[d].name@);
        lemma_within_transitive(full_path(root, nodes, d), full_path(root, nodes, p), root);
    } else {
        assert(root.is_prefix_of(root));
    }
}

/// The project root of a rule match found from `a` upward is `a` or above it.
proof fn lemma_rule_root_above(custom: Seq<CustomPatternView>, nodes: Seq<DirNode>, d: int, a: int)
    requires
        rule_hit_up(custom, nodes, d, a) is Some,
    ensures
        in_subtree(nodes, a, rule_hit_up(custom, nodes, d, a)->0.root),
        0 <= rule_hit_up(custom, nodes, d, a)->0.root < nodes.len(),
    decreases a,
{
    let h = rule_hit_up(custom, nodes, d, a)->0;
    if h.root != a {
        let p = parent_of(nodes, a);
        lemma_rule_root_above(custom, nodes, d, p);
    }
}

/// The project root found by the CMake heuristic from `a` upward is `a` or
/// above it.
proof fn lemma_cmake_root_above(nodes: Seq<DirNode>, a: int)
    requires
        cmake_root_up(nodes, a) is Some,
    ensures
        in_subtree(nodes, a, cmake_root_up(nodes, a)->0),
        0 <= cmake_root_up(nodes, a)->0 < nodes.len(),
    decreases a,
{
    if cmake_root_up(nodes, a)->0 != a {
        let p = parent_of(nodes, a);
        lemma_cmake_root_above(nodes, p);
    }
}

/// Every target lies in its project, and the project in the scanned tree:
/// the cleanable directory is below the project root, a directory other
/// than the target itself, and the project root is the scan root or below it.
pub proof fn lemma_target_within_root(s: Scanner, nodes: Seq<DirNode>, d: int, now: i64)
    requires
        target_at(s.root@, s.custom(), nodes, d, now) is Some,
    ensures
        path_within(
            target_at(s.root@, s.custom(), nodes, d, now)->0.cleanable_dir,
            target_at(s.root@, s.custom(), nodes, d, now)->0.root,
        ),
        path_within(target_at(s.root@, s.custom(), nodes, d, now)->0.root, s.root@),
        find_hit(s.custom(), nodes, d)->0.root < d,
{
    let h = find_hit(s.custom(), nodes, d)->0;
    let p = parent_of(nodes, d);
    if rule_hit_up(s.custom(), nodes, d, p) is Some {
        lemma_rule_root_above(s.custom(), nodes, d, p);
    } else {
        lemma_cmake_root_above(nodes, p);
    }
    assert(in_subtree(nodes, p, h.root));
    lemma_subtree_below(nodes, p, h.root);
    assert(in_subtree(nodes, d, h.root));
    lemma_path_below_ancestor(s.root@, nodes, d, h.root);
    lemma_path_below_root(s.root@, nodes, h.root);
}

/// A node in the subtree of another does not come before it.
pub proof fn lemma_subtree_below(nodes: Seq<DirNode>, i: int, t: int)
    requires
        in_subtree(nodes, i, t),
    ensures
        t <= i,
    decreases i,
{
    if i != t {
        lemma_subtree_below(nodes, parent_of(nodes, i), t);
    }
}

/// Whether a target is as the walk leaves it: matched by a rule, with the
/// risk and the confidence that the policy gives to the source of the rule
/// and the category, and with nothing set that later stages decide.
pub open spec fn as_classified(p: ProjectView) -> bool {
    &&& p.matched_rule is Some
    &&& p.risk_level == crate::scanner::risk_for(p.matched_rule->0.source, p.category)
    &&& p.confidence == crate::scanner::confidence_for(p.matched_rule->0.source)
    &&& !p.protected
    &&& p.protected_by is None
    &&& !p.recent
    &&& p.selection_reason is None
    &&& p.skip_reason is None
}

/// Whether a target is pending: its size is still to be computed.
pub open spec fn is_pending(p: ProjectView) -> bool {
    p.size == 0 && !p.size_calculated
}

/// Every candidate of a walk is as classified; those of the fast walk are
/// pending and those of the full walk are sized.
pub proof fn lemma_candidates_classified(
    s: Scanner,
    nodes: Seq<DirNode>,
    now: i64,
    full: bool,
    n: int,
)
    ensures
        forall|i: int|
            0 <= i < candidates_upto(s, nodes, now, full, n).len() ==> {
                let p = #[trigger] candidates_upto(s, nodes, now, full, n)[i];
                &&& as_classified(p)
                &&& full ==> p.size_calculated && crate::scanner::walker::passes(s, p, now)
                &&& !full ==> is_pending(p)
            },
    decreases n,
{
    if n > 0 {
        lemma_candidates_classified(s, nodes, now, full, n - 1);
        let prev = candidates_upto(s, nodes, now, full, n - 1);
        let c = candidates_upto(s, nodes, now, full, n);
        assert forall|i: int| 0 <= i < c.len() implies {
            let p = #[trigger] c[i];
            &&& as_classified(p)
            &&& full ==> p.size_calculated && crate::scanner::walker::passes(s, p, now)
            &&& !full ==> is_pending(p)
        } by {
            if i < prev.len() {
                assert(c[i] == prev[i]);
            }
        }
    }
}

/// Every target that the fast walk returns is as classified and pending.
pub proof fn lemma_fast_scan_classified(s: Scanner, nodes: Seq<DirNode>, now: i64, i: int)
    requires
        0 <= i < fast_scan_result(s, nodes, now).len(),
    ensures
        as_classified(fast_scan_result(s, nodes, now)[i]),
        is_pending(fast_scan_result(s, nodes, now)[i]),
{
    let all = candidates_upto(s, nodes, now, false, nodes.len() as int);
    lemma_candidates_classified(s, nodes, now, false, nodes.len() as int);
    crate::scanner::dedup::lemma_topmost_members(all, all.len() as int);
    let t = topmost(all)[i];
    assert(all.contains(t));
}

/// Every target that the full walk returns is as classified, sized, and
/// passes the filters of the scanner; and the targets come largest first.
pub proof fn lemma_scan_classified(s: Scanner, nodes: Seq<DirNode>, now: i64, i: int)
    requires
        0 <= i < scan_result(s, nodes, now).len(),
    ensures
        as_classified(scan_result(s, nodes, now)[i]),
        scan_result(s, nodes, now)[i].size_calculated,
        crate::scanner::walker::passes(s, scan_result(s, nodes, now)[i], now),
        forall|j: int|
            i <= j < scan_result(s, nodes, now).len() ==> scan_result(s, nodes, now)[i].size
                >= (#[trigger] scan_result(s, nodes, now)[j]).size,
{
    let all = candidates_upto(s, nodes, now, true, nodes.len() as int);
    lemma_candidates_classified(s, nodes, now, true, nodes.len() as int);
    crate::scanner::dedup::lemma_topmost_members(all, all.len() as int);
    let top = topmost(all);
    let keys = size_keys(top);
    crate::order::lemma_falling_sorted(keys, top.len() as int);
    let order = falling_order(keys);
    let r = scan_result(s, nodes, now);
    assert(r[i] == top[order[i]]);
    assert(all.contains(top[order[i]]));
    assert forall|j: int| i <= j < r.len() implies r[i].size >= (#[trigger] r[j]).size by {
        assert(r[j] == top[order[j]]);
        if i < j {
            assert(!crate::order::key_lt(keys[order[i]], keys[order[j]]));
        }
    }
}

/// Containment in the results of the walks: of two reported targets with
/// different directories, neither directory is the other or lies below it.
pub proof fn lemma_results_hold_no_containment(
    s: Scanner,
    nodes: Seq<DirNode>,
    now: i64,
    full: bool,
    i: int,
    j: int,
)
    requires
        0 <= i < (if full {
            scan_result(s, nodes, now)
        } else {
            fast_scan_result(s, nodes, now)
        }).len(),
        0 <= j < (if full {
            scan_result(s, nodes, now)
        } else {
            fast_scan_result(s, nodes, now)
        }).len(),
        (if full {
            scan_result(s, nodes, now)
        } else {
            fast_scan_result(s, nodes, now)
        })[i].cleanable_dir != (if full {
            scan_result(s, nodes, now)
        } else {
            fast_scan_result(s, nodes, now)
        })[j].cleanable_dir,
    ensures
        !path_within(
            (if full {
                scan_result(s, nodes, now)
            } else {
                fast_scan_result(s, nodes, now)
            })[i].cleanable_dir,
            (if full {
                scan_result(s, nodes, now)
            } else {
                fast_scan_result(s, nodes, now)
            })[j].cleanable_dir,
        ),
{
    let all = candidates_upto(s, nodes, now, full, nodes.len() as int);
    let top = topmost(all);
    if full {
        let keys = size_keys(top);
        crate::order::lemma_falling_shape(keys, top.len() as int);
        let order = falling_order(keys);
        let r = scan_result(s, nodes, now);
        assert(r[i] == top[order[i]]);
        assert(r[j] == top[order[j]]);
        crate::scanner::dedup::lemma_no_containment(all, order[i], order[j]);
    } else {
        crate::scanner::dedup::lemma_no_containment(all, i, j);
    }
}

/// The rule under which a match from `a` upward is reported is the first
/// matching rule of the project root that anchors the match.
proof fn lemma_hit_is_first_of_root(
    custom: Seq<CustomPatternView>,
    nodes: Seq<DirNode>,
    d: int,
    a: int,
)
    requires
        rule_hit_up(custom, nodes, d, a) is Some,
    ensures
        crate::scanner::rules::first_hit(
            crate::scanner::walker::node_rules(
                custom,
                nodes[rule_hit_up(custom, nodes, d, a)->0.root],
            ),
            nodes[d].name@,
            crate::scanner::walker::rel_path(nodes, rule_hit_up(custom, nodes, d, a)->0.root, d),
            0,
        ) == Some(rule_hit_up(custom, nodes, d, a)->0.rule),
    decreases a,
{
    let here = crate::scanner::rules::first_hit(
        crate::scanner::walker::node_rules(custom, nodes[a]),
        nodes[d].name@,
        crate::scanner::walker::rel_path(nodes, a, d),
        0,
    );
    if here is None {
        lemma_hit_is_first_of_root(custom, nodes, d, parent_of(nodes, a));
    }
}

/// Rule precedence in the walk: where a directory is matched by the rules
/// of a project root, and a custom pattern that applies to that root
/// matches the directory, the target is reported under a custom rule,
/// whatever built-in or ignore-file patterns of the root match as well.
pub proof fn lemma_custom_wins_in_walk(s: Scanner, nodes: Seq<DirNode>, d: int, k: int)
    requires
        find_hit(s.custom(), nodes, d) is Some,
        find_hit(s.custom(), nodes, d)->0.rule.source != crate::scanner::RuleSource::Heuristic,
        0 <= k < s.custom().len(),
        crate::scanner::rules::marker_gate(
            s.custom()[k],
            nodes[find_hit(s.custom(), nodes, d)->0.root].entries@,
        ),
        crate::scanner::rules::rule_hits(
            crate::scanner::rules::custom_rule(s.custom()[k]),
            nodes[d].name@,
            crate::scanner::walker::rel_path(nodes, find_hit(s.custom(), nodes, d)->0.root, d),
        ),
    ensures
        find_hit(s.custom(), nodes, d)->0.rule.source == crate::scanner::RuleSource::Custom,
{
    let custom = s.custom();
    let h = find_hit(custom, nodes, d)->0;
    let p = parent_of(nodes, d);
    assert(rule_hit_up(custom, nodes, d, p) == Some(h));
    lemma_hit_is_first_of_root(custom, nodes, d, p);
    let root = nodes[h.root];
    crate::scanner::rules::lemma_custom_rule_wins(
        custom,
        root.entries@,
        crate::text::opt_text(root.ignore_file),
        crate::scanner::detector::detected(root.entries@),
        nodes[d].name@,
        crate::scanner::walker::rel_path(nodes, h.root, d),
        k,
    );
}

} // verus!
