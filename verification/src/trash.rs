use crate::order::{falling_order, positions, sort_falling, Key};
use crate::recommend::{one_more, plus_bytes};
use crate::scanner::days_between;
use crate::scanner::walker::{join_path, joined};
use crate::text::{
    chars_eq_str, copy_opt_string, copy_string, opt_text, slice_to_string, string_texts, to_chars,
};
use vstd::prelude::*;
use vstd::string::*;

verus! {

/// One directory that was moved to the trash.
#[derive(Debug)]
pub struct TrashEntry {
    pub batch_id: String,
    /// When the directory was trashed, in seconds since the epoch.
    pub created_at: i64,
    pub original_path: String,
    pub trashed_path: String,
    pub size: u64,
    pub tool_version: Option<String>,
}

/// The mathematical content of a `TrashEntry`.
pub struct EntryView {
    pub batch_id: Seq<char>,
    pub created_at: i64,
    pub original_path: Seq<char>,
    pub trashed_path: Seq<char>,
    pub size: u64,
    pub tool_version: Option<Seq<char>>,
}

impl View for TrashEntry {
    type V = EntryView;

    open spec fn view(&self) -> EntryView {
        EntryView {
            batch_id: self.batch_id@,
            created_at: self.created_at,
            original_path: self.original_path@,
            trashed_path: self.trashed_path@,
            size: self.size,
            tool_version: opt_text(self.tool_version),
        }
    }
}

impl TrashEntry {
    /// An owned copy of the entry.
    pub fn duplicate(&self) -> (r: TrashEntry)
        ensures
            r@ == self@,
    {
        TrashEntry {
            batch_id: copy_string(&self.batch_id),
            created_at: self.created_at,
            original_path: copy_string(&self.original_path),
            trashed_path: copy_string(&self.trashed_path),
            size: self.size,
            tool_version: copy_opt_string(&self.tool_version),
        }
    }
}

/// The contents of a list of entries, in order.
pub open spec fn entry_views(v: Seq<TrashEntry>) -> Seq<EntryView> {
    Seq::new(v.len(), |i: int| v[i]@)
}

/// What the trash holds of one batch.
#[derive(Debug)]
pub struct TrashBatchSummary {
    pub batch_id: String,
    /// When the first directory of the batch was trashed.
    pub created_at: i64,
    pub entries_count: usize,
    pub total_size: u64,
}

/// The mathematical content of a `TrashBatchSummary`.
pub struct BatchView {
    pub batch_id: Seq<char>,
    pub created_at: i64,
    pub entries_count: usize,
    pub total_size: u64,
}

impl View for TrashBatchSummary {
    type V = BatchView;

    open spec fn view(&self) -> BatchView {
        BatchView {
            batch_id: self.batch_id@,
            created_at: self.created_at,
            entries_count: self.entries_count,
            total_size: self.total_size,
        }
    }
}

impl TrashBatchSummary {
    /// An owned copy of the summary.
    pub fn duplicate(&self) -> (r: TrashBatchSummary)
        ensures
            r@ == self@,
    {
        TrashBatchSummary {
            batch_id: copy_string(&self.batch_id),
            created_at: self.created_at,
            entries_count: self.entries_count,
            total_size: self.total_size,
        }
    }
}

/// The contents of a list of batch summaries, in order.
pub open spec fn batch_views(v: Seq<TrashBatchSummary>) -> Seq<BatchView> {
    Seq::new(v.len(), |i: int| v[i]@)
}

/// The first position at or after `from` that holds no `/`, or the length.
pub open spec fn skip_slashes(s: Seq<char>, from: int) -> int
    decreases s.len() - from,
{
    if 0 <= from < s.len() && s[from] == '/' {
        skip_slashes(s, from + 1)
    } else {
        from
    }
}

/// A path made relative for keeping it inside the trash: the path without
/// the separators at its start.
pub open spec fn trash_relpath(path: Seq<char>) -> Seq<char> {
    path.subrange(skip_slashes(path, 0), path.len() as int)
}

/// A path made relative for keeping it inside the trash.
pub fn path_to_trash_relpath(path: &str) -> (rel: String)
    ensures
        rel@ == trash_relpath(path@),
{
    let v = to_chars(path);
    let mut k: usize = 0;
    while k < v.len() && v[k] == '/'
        invariant
            k <= v.len(),
            skip_slashes(v@, 0) == skip_slashes(v@, k as int),
        decreases v.len() - k,
    {
        k += 1;
    }
    slice_to_string(&v, k, v.len())
}

/// The name of the log that lists what the trash holds.
pub open spec fn log_name() -> Seq<char> {
    "trash_log.jsonl"@
}

/// Moves directories into one batch of the trash.
#[derive(Debug)]
pub struct TrashManager {
    pub batch_id: String,
    pub root: String,
    pub log_path: String,
}

impl TrashManager {
    /// The directory that holds the trash.
    pub open spec fn root_text(&self) -> Seq<char> {
        self.root@
    }

    /// The path of the log of the trash.
    pub open spec fn log_text(&self) -> Seq<char> {
        self.log_path@
    }

    /// A manager for the batch `batch_id` of the trash kept in `root`.
    pub fn new_with_root(root: String, batch_id: String) -> (m: TrashManager)
        ensures
            m.batch_id@ == batch_id@,
            m.root_text() == root@,
            m.log_text() == joined(root@, log_name()),
    {
        let log_path = join_path(root.as_str(), "trash_log.jsonl");
        TrashManager { batch_id, root, log_path }
    }

    /// The directory that holds the trash.
    pub fn root(&self) -> (r: &str)
        ensures
            r@ == self.root_text(),
    {
        self.root.as_str()
    }

    /// The path of the log of the trash.
    pub fn log_path(&self) -> (p: &str)
        ensures
            p@ == self.log_text(),
    {
        self.log_path.as_str()
    }

    /// The directory of this batch inside the trash.
    pub fn batch_dir(&self) -> (d: String)
        ensures
            d@ == joined(self.root_text(), self.batch_id@),
    {
        join_path(self.root.as_str(), self.batch_id.as_str())
    }

    /// The entry for trashing the directory `original` of `size` bytes at
    /// the time `created_at`: where in the batch it goes, and what the log
    /// will say of it.
    pub fn trash_dir(
        &self,
        original: &str,
        size: u64,
        created_at: i64,
        tool_version: Option<String>,
    ) -> (entry: TrashEntry)
        ensures
            entry@ == (EntryView {
                batch_id: self.batch_id@,
                created_at,
                original_path: original@,
                trashed_path: joined(
                    joined(self.root_text(), self.batch_id@),
                    trash_relpath(original@),
                ),
                size,
                tool_version: opt_text(tool_version),
            }),
    {
        let batch_dir = self.batch_dir();
        let rel = path_to_trash_relpath(original);
        TrashEntry {
            batch_id: copy_string(&self.batch_id),
            created_at,
            original_path: original.to_owned(),
            trashed_path: join_path(batch_dir.as_str(), rel.as_str()),
            size,
            tool_version,
        }
    }
}

/// The position at or after `from` of the summary of the batch `id`, or the
/// length of the list where there is none.
pub open spec fn find_batch(batches: Seq<BatchView>, id: Seq<char>, from: int) -> int
    decreases batches.len() - from,
{
    if from < 0 || from >= batches.len() {
        batches.len() as int
    } else if batches[from].batch_id == id {
        from
    } else {
        find_batch(batches, id, from + 1)
    }
}

/// A batch summary with one more entry counted.
pub open spec fn with_entry(b: BatchView, e: EntryView) -> BatchView {
    BatchView {
        batch_id: b.batch_id,
        created_at: if e.created_at < b.created_at {
            e.created_at
        } else {
            b.created_at
        },
        entries_count: one_more(b.entries_count),
        total_size: plus_bytes(b.total_size, e.size),
    }
}

/// The summary of a batch that holds nothing yet but is about to take `e`.
pub open spec fn empty_batch(e: EntryView) -> BatchView {
    BatchView { batch_id: e.batch_id, created_at: e.created_at, entries_count: 0, total_size: 0 }
}

/// The batches of the first `n` entries, in the order in which they first appear.
pub open spec fn batches_upto(entries: Seq<EntryView>, n: int) -> Seq<BatchView>
    decreases n,
{
    if n <= 0 {
        seq![]
    } else {
        let prev = batches_upto(entries, n - 1);
        let e = entries[n - 1];
        let at = find_batch(prev, e.batch_id, 0);
        if 0 <= at < prev.len() {
            prev.update(at, with_entry(prev[at], e))
        } else {
            prev.push(with_entry(empty_batch(e), e))
        }
    }
}

/// The sort keys that order batches by the time of their creation.
pub open spec fn created_keys(b: Seq<BatchView>) -> Seq<Key> {
    Seq::new(b.len(), |i: int| Key { a: b[i].created_at as i128, b: 0, c: 0 })
}

/// The batches in the order that `order` lists their positions.
pub open spec fn arranged_batches(b: Seq<BatchView>, order: Seq<int>) -> Seq<BatchView> {
    Seq::new(order.len(), |k: int| b[order[k]])
}

/// The batches of a log, newest first; batches of one age in the order in
/// which they first appear.
pub open spec fn summarized(entries: Seq<EntryView>) -> Seq<BatchView> {
    let b = batches_upto(entries, entries.len() as int);
    arranged_batches(b, falling_order(created_keys(b)))
}

/// The position of the summary of the batch `id`, or the length of the list.
fn position_of_batch(batches: &Vec<TrashBatchSummary>, id: &str) -> (at: usize)
    ensures
        at == find_batch(batch_views(batches@), id@, 0),
        at <= batches@.len(),
{
    let wanted = to_chars(id);
    let ghost bv = batch_views(batches@);
    let mut k: usize = 0;
    while k < batches.len()
        invariant
            k <= batches.len(),
            wanted@ == id@,
            bv == batch_views(batches@),
            find_batch(bv, id@, 0) == find_batch(bv, id@, k as int),
        decreases batches.len() - k,
    {
        assert(bv[k as int] == batches@[k as int]@);
        if chars_eq_str(&wanted, batches[k].batch_id.as_str()) {
            return k;
        }
        k += 1;
    }
    k
}

/// Copies of the batches in the order that `order` lists their positions.
fn arrange_batches(batches: &Vec<TrashBatchSummary>, order: &Vec<usize>) -> (out: Vec<
    TrashBatchSummary,
>)
    requires
        forall|k: int| 0 <= k < order@.len() ==> #[trigger] order@[k] < batches@.len(),
    ensures
        batch_views(out@) == arranged_batches(batch_views(batches@), positions(order@)),
{
    let mut out: Vec<TrashBatchSummary> = Vec::new();
    let mut k: usize = 0;
    while k < order.len()
        invariant
            k <= order.len(),
            out@.len() == k,
            forall|j: int| 0 <= j < order@.len() ==> #[trigger] order@[j] < batches@.len(),
            forall|j: int| 0 <= j < k ==> (#[trigger] out@[j])@ == batches@[order@[j] as int]@,
        decreases order.len() - k,
    {
        out.push(batches[order[k]].duplicate());
        k += 1;
    }
    assert(batch_views(out@) =~= arranged_batches(batch_views(batches@), positions(order@)));
    out
}

/// The batches of the first entries of a log, in the order in which they appear.
fn group_batches(entries: &Vec<TrashEntry>) -> (batches: Vec<TrashBatchSummary>)
    ensures
        batch_views(batches@) == batches_upto(entry_views(entries@), entries@.len() as int),
{
    let ghost all = entry_views(entries@);
    let mut batches: Vec<TrashBatchSummary> = Vec::new();
    let mut i: usize = 0;
    assert(batch_views(batches@) =~= batches_upto(all, 0));
    while i < entries.len()
        invariant
            i <= entries.len(),
            all == entry_views(entries@),
            batch_views(batches@) == batches_upto(all, i as int),
        decreases entries.len() - i,
    {
        let entry = &entries[i];
        assert(all[i as int] == entry@);
        let ghost prev = batch_views(batches@);
        let at = position_of_batch(&batches, entry.batch_id.as_str());
        if at < batches.len() {
            let old = &batches[at];
            let summary = TrashBatchSummary {
                batch_id: copy_string(&old.batch_id),
                created_at: if entry.created_at < old.created_at {
                    entry.created_at
                } else {
                    old.created_at
                },
                entries_count: old.entries_count.saturating_add(1),
                total_size: old.total_size.saturating_add(entry.size),
            };
            batches.set(at, summary);
            assert(batch_views(batches@) =~= prev.update(
                at as int,
                with_entry(prev[at as int], entry@),
            ));
        } else {
            batches.push(
                TrashBatchSummary {
                    batch_id: copy_string(&entry.batch_id),
                    created_at: entry.created_at,
                    entries_count: 1,
                    total_size: entry.size,
                },
            );
            assert(batch_views(batches@) =~= prev.push(with_entry(empty_batch(entry@), entry@)));
        }
        i += 1;
    }
    batches
}

/// The batches that the entries of a log make up, newest first.
pub fn summarize_batches(entries: &Vec<TrashEntry>) -> (out: Vec<TrashBatchSummary>)
    ensures
        batch_views(out@) == summarized(entry_views(entries@)),
{
    let batches = group_batches(entries);
    let mut keys: Vec<Key> = Vec::new();
    let mut i: usize = 0;
    while i < batches.len()
        invariant
            i <= batches.len(),
            keys@.len() == i,
            forall|k: int|
                0 <= k < i ==> #[trigger] keys@[k] == (Key {
                    a: batches@[k].created_at as i128,
                    b: 0,
                    c: 0,
                }),
        decreases batches.len() - i,
    {
        keys.push(Key { a: batches[i].created_at as i128, b: 0, c: 0 });
        i += 1;
    }
    assert(keys@ =~= created_keys(batch_views(batches@)));
    let order = sort_falling(&keys);
    arrange_batches(&batches, &order)
}

/// The batches in the trash, newest first.
pub fn list_trash_batches(entries: &Vec<TrashEntry>) -> (out: Vec<TrashBatchSummary>)
    ensures
        batch_views(out@) == summarized(entry_views(entries@)),
{
    summarize_batches(entries)
}

/// The position among the first `n` entries of the one trashed last, the
/// later of two trashed at one time; -1 where there is no entry.
pub open spec fn latest_upto(entries: Seq<EntryView>, n: int) -> int
    decreases n,
{
    if n <= 0 {
        -1
    } else {
        let prev = latest_upto(entries, n - 1);
        if prev < 0 || prev >= n - 1 || entries[n - 1].created_at >= entries[prev].created_at {
            n - 1
        } else {
            prev
        }
    }
}

/// The batch of the entry trashed last, if the log holds any entry.
pub open spec fn latest_batch(entries: Seq<EntryView>) -> Option<Seq<char>> {
    let at = latest_upto(entries, entries.len() as int);
    if 0 <= at < entries.len() {
        Some(entries[at].batch_id)
    } else {
        None
    }
}

/// The batch into which something was trashed last.
pub fn latest_batch_id(entries: &Vec<TrashEntry>) -> (id: Option<String>)
    ensures
        opt_text(id) == latest_batch(entry_views(entries@)),
{
    if entries.len() == 0 {
        return None;
    }
    let ghost all = entry_views(entries@);
    let mut best: usize = 0;
    let mut i: usize = 1;
    assert(latest_upto(all, 1) == 0) by {
        assert(latest_upto(all, 0) == -1);
    }
    while i < entries.len()
        invariant
            1 <= i <= entries.len(),
            all == entry_views(entries@),
            best < i,
            best == latest_upto(all, i as int),
        decreases entries.len() - i,
    {
        assert(all[i as int] == entries@[i as int]@);
        assert(all[best as int] == entries@[best as int]@);
        if entries[i].created_at >= entries[best].created_at {
            best = i;
        }
        i += 1;
    }
    assert(all[best as int] == entries@[best as int]@);
    Some(copy_string(&entries[best].batch_id))
}

/// The entries of the batch `id` among the first `n`, in order.
pub open spec fn entries_of_batch(entries: Seq<EntryView>, id: Seq<char>, n: int) -> Seq<EntryView>
    decreases n,
{
    if n <= 0 {
        seq![]
    } else {
        let prev = entries_of_batch(entries, id, n - 1);
        if entries[n - 1].batch_id == id {
            prev.push(entries[n - 1])
        } else {
            prev
        }
    }
}

/// The entries of the other batches than `id` among the first `n`, in order.
pub open spec fn entries_of_others(entries: Seq<EntryView>, id: Seq<char>, n: int) -> Seq<
    EntryView,
>
    decreases n,
{
    if n <= 0 {
        seq![]
    } else {
        let prev = entries_of_others(entries, id, n - 1);
        if entries[n - 1].batch_id != id {
            prev.push(entries[n - 1])
        } else {
            prev
        }
    }
}

/// The entries of the batch `batch_id` and those of all other batches, each
/// in the order of the log.
pub fn split_by_batch(entries: &Vec<TrashEntry>, batch_id: &str) -> (parts: (
    Vec<TrashEntry>,
    Vec<TrashEntry>,
))
    ensures
        entry_views(parts.0@) == entries_of_batch(
            entry_views(entries@),
            batch_id@,
            entries@.len() as int,
        ),
        entry_views(parts.1@) == entries_of_others(
            entry_views(entries@),
            batch_id@,
            entries@.len() as int,
        ),
{
    let wanted = to_chars(batch_id);
    let ghost all = entry_views(entries@);
    let mut own: Vec<TrashEntry> = Vec::new();
    let mut others: Vec<TrashEntry> = Vec::new();
    let mut i: usize = 0;
    assert(entry_views(own@) =~= entries_of_batch(all, batch_id@, 0));
    assert(entry_views(others@) =~= entries_of_others(all, batch_id@, 0));
    while i < entries.len()
        invariant
            i <= entries.len(),
            wanted@ == batch_id@,
            all == entry_views(entries@),
            entry_views(own@) == entries_of_batch(all, batch_id@, i as int),
            entry_views(others@) == entries_of_others(all, batch_id@, i as int),
        decreases entries.len() - i,
    {
        assert(all[i as int] == entries@[i as int]@);
        if chars_eq_str(&wanted, entries[i].batch_id.as_str()) {
            let ghost before = entry_views(own@);
            own.push(entries[i].duplicate());
            assert(entry_views(own@) =~= before.push(all[i as int]));
        } else {
            let ghost before = entry_views(others@);
            others.push(entries[i].duplicate());
            assert(entry_views(others@) =~= before.push(all[i as int]));
        }
        i += 1;
    }
    (own, others)
}

/// The entries in the order that `order` lists their positions.
pub open spec fn arranged_entries(e: Seq<EntryView>, order: Seq<int>) -> Seq<EntryView> {
    Seq::new(order.len(), |k: int| e[order[k]])
}

/// Copies of the entries in the order that `order` lists their positions.
fn arrange_entries(entries: &Vec<TrashEntry>, order: &Vec<usize>) -> (out: Vec<TrashEntry>)
    requires
        forall|k: int| 0 <= k < order@.len() ==> #[trigger] order@[k] < entries@.len(),
    ensures
        entry_views(out@) == arranged_entries(entry_views(entries@), positions(order@)),
{
    let mut out: Vec<TrashEntry> = Vec::new();
    let mut k: usize = 0;
    while k < order.len()
        invariant
            k <= order.len(),
            out@.len() == k,
            forall|j: int| 0 <= j < order@.len() ==> #[trigger] order@[j] < entries@.len(),
            forall|j: int| 0 <= j < k ==> (#[trigger] out@[j])@ == entries@[order@[j] as int]@,
        decreases order.len() - k,
    {
        out.push(entries[order[k]].duplicate());
        k += 1;
    }
    assert(entry_views(out@) =~= arranged_entries(entry_views(entries@), positions(order@)));
    out
}

/// The rank of a character in the order of paths: the separator comes
/// before every other character.
pub open spec fn sep_rank(c: char) -> int {
    if c == '/' {
        0
    } else {
        c as u32 + 1
    }
}

/// Whether the path `a` comes before the path `b`, comparing from position
/// `k` on: component by component, a shorter path before its extensions.
pub open spec fn path_lt_from(a: Seq<char>, b: Seq<char>, k: int) -> bool
    decreases a.len() - k,
{
    if k < 0 || k >= a.len() {
        k < b.len()
    } else if k >= b.len() {
        false
    } else if a[k] != b[k] {
        sep_rank(a[k]) < sep_rank(b[k])
    } else {
        path_lt_from(a, b, k + 1)
    }
}

/// Whether the path `a` comes strictly before the path `b`.
pub open spec fn path_lt(a: Seq<char>, b: Seq<char>) -> bool {
    path_lt_from(a, b, 0)
}

/// Whether the path `a` comes strictly before the path `b`.
pub fn path_less(a: &Vec<char>, b: &Vec<char>) -> (r: bool)
    ensures
        r == path_lt(a@, b@),
{
    let mut k: usize = 0;
    while k < a.len() && k < b.len()
        invariant
            k <= a.len(),
            k <= b.len(),
            path_lt(a@, b@) == path_lt_from(a@, b@, k as int),
        decreases a.len() - k,
    {
        if a[k] != b[k] {
            let x: u64 = if a[k] == '/' {
                0
            } else {
                (a[k] as u32) as u64 + 1
            };
            let y: u64 = if b[k] == '/' {
                0
            } else {
                (b[k] as u32) as u64 + 1
            };
            return x < y;
        }
        k += 1;
    }
    k < b.len()
}

/// How many of the first `n` entries have a path before that of entry `i`.
pub open spec fn path_rank(e: Seq<EntryView>, i: int, n: int) -> nat
    decreases n,
{
    if n <= 0 {
        0
    } else {
        path_rank(e, i, n - 1) + (if path_lt(e[n - 1].original_path, e[i].original_path) {
            1nat
        } else {
            0nat
        })
    }
}

/// The sort keys that order entries by rising path.
pub open spec fn path_keys(e: Seq<EntryView>) -> Seq<Key> {
    Seq::new(e.len(), |i: int| Key { a: (-(path_rank(e, i, e.len() as int) as int)) as i128, b: 0, c: 0 })
}

/// The entries of the batch `id`, in the order of their original paths.
pub open spec fn batch_listing(entries: Seq<EntryView>, id: Seq<char>) -> Seq<EntryView> {
    let own = entries_of_batch(entries, id, entries.len() as int);
    arranged_entries(own, falling_order(path_keys(own)))
}

/// The original paths of a list of entries, as characters.
fn original_paths(entries: &Vec<TrashEntry>) -> (paths: Vec<Vec<char>>)
    ensures
        paths@.len() == entries@.len(),
        forall|k: int|
            0 <= k < paths@.len() ==> (#[trigger] paths@[k])@ == entries@[k].original_path@,
{
    let mut paths: Vec<Vec<char>> = Vec::new();
    let mut i: usize = 0;
    while i < entries.len()
        invariant
            i <= entries.len(),
            paths@.len() == i,
            forall|k: int| 0 <= k < i ==> (#[trigger] paths@[k])@ == entries@[k].original_path@,
        decreases entries.len() - i,
    {
        paths.push(to_chars(entries[i].original_path.as_str()));
        i += 1;
    }
    paths
}

/// The entries of the batch `batch_id`, in the order of their original paths.
pub fn trash_entries_for_batch(entries: &Vec<TrashEntry>, batch_id: &str) -> (out: Vec<TrashEntry>)
    ensures
        entry_views(out@) == batch_listing(entry_views(entries@), batch_id@),
{
    let (own, _) = split_by_batch(entries, batch_id);
    let paths = original_paths(&own);
    let ghost e = entry_views(own@);
    let mut keys: Vec<Key> = Vec::new();
    let mut a: usize = 0;
    while a < own.len()
        invariant
            a <= own.len(),
            e == entry_views(own@),
            paths@.len() == own@.len(),
            forall|k: int|
                0 <= k < paths@.len() ==> (#[trigger] paths@[k])@ == own@[k].original_path@,
            keys@.len() == a,
            forall|k: int|
                0 <= k < a ==> #[trigger] keys@[k] == (Key {
                    a: (-(path_rank(e, k, e.len() as int) as int)) as i128,
                    b: 0,
                    c: 0,
                }),
        decreases own.len() - a,
    {
        let mut rank: usize = 0;
        let mut b: usize = 0;
        while b < own.len()
            invariant
                b <= own.len(),
                a < own.len(),
                e == entry_views(own@),
                paths@.len() == own@.len(),
                forall|k: int|
                    0 <= k < paths@.len() ==> (#[trigger] paths@[k])@ == own@[k].original_path@,
                rank <= b,
                rank == path_rank(e, a as int, b as int),
            decreases own.len() - b,
        {
            assert(e[b as int].original_path == paths@[b as int]@);
            assert(e[a as int].original_path == paths@[a as int]@);
            if path_less(&paths[b], &paths[a]) {
                rank += 1;
            }
            b += 1;
        }
        keys.push(Key { a: -(rank as i128), b: 0, c: 0 });
        a += 1;
    }
    assert(keys@ =~= path_keys(e));
    let order = sort_falling(&keys);
    arrange_entries(&own, &order)
}

/// How many components begin among the first `n` characters of a path.
pub open spec fn component_starts(s: Seq<char>, n: int) -> nat
    decreases n,
{
    if n <= 0 {
        0
    } else {
        component_starts(s, n - 1) + (if s[n - 1] != '/' && (n - 1 == 0 || s[n - 2] == '/') {
            1nat
        } else {
            0nat
        })
    }
}

/// How many components a path has, the root counting as one.
pub open spec fn component_count(s: Seq<char>) -> nat {
    component_starts(s, s.len() as int) + (if s.len() > 0 && s[0] == '/' {
        1nat
    } else {
        0nat
    })
}

/// How many components a path has, the root counting as one.
pub fn count_components(path: &str) -> (n: usize)
    ensures
        n == component_count(path@),
{
    let v = to_chars(path);
    let mut count: usize = 0;
    let mut k: usize = 0;
    while k < v.len()
        invariant
            k <= v.len(),
            count <= k,
            count == component_starts(v@, k as int),
        decreases v.len() - k,
    {
        if v[k] != '/' && (k == 0 || v[k - 1] == '/') {
            count += 1;
        }
        k += 1;
    }
    if v.len() > 0 && v[0] == '/' {
        proof {
            lemma_starts_after_root(v@, v@.len() as int);
        }
        count + 1
    } else {
        count
    }
}

/// A path that begins with the separator has fewer component starts than characters.
proof fn lemma_starts_after_root(s: Seq<char>, n: int)
    requires
        s.len() > 0,
        s[0] == '/',
        0 <= n <= s.len(),
    ensures
        n > 0 ==> component_starts(s, n) < n,
        component_starts(s, n) <= n,
    decreases n,
{
    if n > 0 {
        lemma_starts_after_root(s, n - 1);
    }
}

/// The sort keys that order entries by the depth of their original paths.
pub open spec fn depth_keys(e: Seq<EntryView>) -> Seq<Key> {
    Seq::new(e.len(), |i: int| Key { a: component_count(e[i].original_path) as i128, b: 0, c: 0 })
}

/// The entries of the batch `id` in the order of restoring: deepest path first.
pub open spec fn restore_sequence(entries: Seq<EntryView>, id: Seq<char>) -> Seq<EntryView> {
    let own = entries_of_batch(entries, id, entries.len() as int);
    arranged_entries(own, falling_order(depth_keys(own)))
}

/// The entries of the batch `batch_id` in the order in which they are
/// restored: deepest path first.
pub fn restore_order(entries: &Vec<TrashEntry>, batch_id: &str) -> (out: Vec<TrashEntry>)
    ensures
        entry_views(out@) == restore_sequence(entry_views(entries@), batch_id@),
{
    let (own, _) = split_by_batch(entries, batch_id);
    let mut keys: Vec<Key> = Vec::new();
    let mut i: usize = 0;
    while i < own.len()
        invariant
            i <= own.len(),
            keys@.len() == i,
            forall|k: int|
                0 <= k < i ==> #[trigger] keys@[k] == (Key {
                    a: component_count(own@[k].original_path@) as i128,
                    b: 0,
                    c: 0,
                }),
        decreases own.len() - i,
    {
        keys.push(Key { a: count_components(own[i].original_path.as_str()) as i128, b: 0, c: 0 });
        i += 1;
    }
    assert(keys@ =~= depth_keys(entry_views(own@)));
    let order = sort_falling(&keys);
    arrange_entries(&own, &order)
}

/// What is to be done with one entry on restoring.
#[derive(Clone, Copy, Debug, PartialEq, Eq, Structural)]
pub enum RestoreStep {
    /// Nothing is in the trash for the entry: it is skipped.
    SkipMissing,
    /// The original path is taken and may not be replaced: it is skipped,
    /// with a message.
    SkipExisting,
    /// A dry run: the entry counts as restored and nothing moves.
    WouldRestore,
    /// The entry is moved back, after removing what is in its place where
    /// `replace` is set.
    Restore { replace: bool },
}

/// What is to be done with one entry, given whether it is still in the
/// trash and whether its original path is taken.
pub fn restore_step(trashed_exists: bool, original_exists: bool, dry_run: bool, force: bool) -> (step:
    RestoreStep)
    ensures
        !trashed_exists ==> step == RestoreStep::SkipMissing,
        trashed_exists && original_exists && !force ==> step == RestoreStep::SkipExisting,
        trashed_exists && !(original_exists && !force) && dry_run ==> step
            == RestoreStep::WouldRestore,
        trashed_exists && !(original_exists && !force) && !dry_run ==> step == (
        RestoreStep::Restore { replace: original_exists }),
{
    if !trashed_exists {
        RestoreStep::SkipMissing
    } else if original_exists && !force {
        RestoreStep::SkipExisting
    } else if dry_run {
        RestoreStep::WouldRestore
    } else {
        RestoreStep::Restore { replace: original_exists }
    }
}

/// How the restoring of one entry ended.
#[derive(Debug)]
pub enum RestoreOutcome {
    SkippedMissing,
    SkippedExisting,
    WouldRestore,
    Restored,
    Failed(String),
}

/// The mathematical content of a `RestoreOutcome`.
pub enum RestoreOutcomeView {
    SkippedMissing,
    SkippedExisting,
    WouldRestore,
    Restored,
    Failed(Seq<char>),
}

impl View for RestoreOutcome {
    type V = RestoreOutcomeView;

    open spec fn view(&self) -> RestoreOutcomeView {
        match self {
            RestoreOutcome::SkippedMissing => RestoreOutcomeView::SkippedMissing,
            RestoreOutcome::SkippedExisting => RestoreOutcomeView::SkippedExisting,
            RestoreOutcome::WouldRestore => RestoreOutcomeView::WouldRestore,
            RestoreOutcome::Restored => RestoreOutcomeView::Restored,
            RestoreOutcome::Failed(reason) => RestoreOutcomeView::Failed(reason@),
        }
    }
}

/// The contents of a list of outcomes, in order.
pub open spec fn restore_views(v: Seq<RestoreOutcome>) -> Seq<RestoreOutcomeView> {
    Seq::new(v.len(), |i: int| v[i]@)
}

/// The result of restoring a batch.
#[derive(Debug)]
pub struct RestoreResult {
    pub restored_count: usize,
    pub skipped_count: usize,
    pub failed_count: usize,
    pub errors: Vec<String>,
}

/// The running totals of restoring a batch.
pub struct RestoreTally {
    pub restored_count: usize,
    pub skipped_count: usize,
    pub failed_count: usize,
    pub errors: Seq<Seq<char>>,
}

/// The message for an original path that is taken.
pub open spec fn exists_message(path: Seq<char>) -> Seq<char> {
    "Restore target already exists (use --force to override): "@ + path
}

/// The message for an entry that could not be moved back.
pub open spec fn restore_failure(path: Seq<char>, reason: Seq<char>) -> Seq<char> {
    "Failed to restore "@ + path + ": "@ + reason
}

/// The message for a batch of which the log knows nothing.
pub open spec fn no_entries_message(id: Seq<char>) -> Seq<char> {
    ("No entries found for batch_id `"@ + id).push('`')
}

/// The totals `t` with the outcome of one entry counted.
pub open spec fn restore_counted(t: RestoreTally, e: EntryView, o: RestoreOutcomeView)
    -> RestoreTally {
    match o {
        RestoreOutcomeView::SkippedMissing => RestoreTally {
            skipped_count: one_more(t.skipped_count),
            ..t
        },
        RestoreOutcomeView::SkippedExisting => RestoreTally {
            skipped_count: one_more(t.skipped_count),
            errors: t.errors.push(exists_message(e.original_path)),
            ..t
        },
        RestoreOutcomeView::WouldRestore => RestoreTally {
            restored_count: one_more(t.restored_count),
            ..t
        },
        RestoreOutcomeView::Restored => RestoreTally {
            restored_count: one_more(t.restored_count),
            ..t
        },
        RestoreOutcomeView::Failed(reason) => RestoreTally {
            failed_count: one_more(t.failed_count),
            errors: t.errors.push(restore_failure(e.original_path, reason)),
            ..t
        },
    }
}

/// The totals over the first `n` entries and their outcomes.
pub open spec fn restore_tally(e: Seq<EntryView>, o: Seq<RestoreOutcomeView>, n: int)
    -> RestoreTally
    decreases n,
{
    if n <= 0 {
        RestoreTally { restored_count: 0, skipped_count: 0, failed_count: 0, errors: seq![] }
    } else {
        restore_counted(restore_tally(e, o, n - 1), e[n - 1], o[n - 1])
    }
}

/// What restoring a batch comes to: the totals over its entries in the
/// order of restoring, as far as outcomes are given; or, for a batch
/// without entries, nothing but the message that says so.
pub open spec fn restore_summary(
    entries: Seq<EntryView>,
    id: Seq<char>,
    outcomes: Seq<RestoreOutcomeView>,
) -> RestoreTally {
    let e = restore_sequence(entries, id);
    if e.len() == 0 {
        RestoreTally {
            restored_count: 0,
            skipped_count: 0,
            failed_count: 0,
            errors: seq![no_entries_message(id)],
        }
    } else {
        restore_tally(e, outcomes, crate::cleaner::paired(e.len() as int, outcomes.len() as int))
    }
}

/// Sums up the restoring of the batch `batch_id` from the outcome of each
/// of its entries, the entries taken in the order of `restore_order`.
pub fn restore_batch(entries: &Vec<TrashEntry>, batch_id: &str, outcomes: &Vec<RestoreOutcome>) -> (r:
    RestoreResult)
    ensures
        ({
            let t = restore_summary(entry_views(entries@), batch_id@, restore_views(outcomes@));
            &&& r.restored_count == t.restored_count
            &&& r.skipped_count == t.skipped_count
            &&& r.failed_count == t.failed_count
            &&& string_texts(r.errors@) == t.errors
        }),
{
    let ordered = restore_order(entries, batch_id);
    let mut errors: Vec<String> = Vec::new();
    if ordered.len() == 0 {
        let mut message = "No entries found for batch_id `".to_owned();
        message.append(batch_id);
        crate::text::push_char(&mut message, '`');
        errors.push(message);
        assert(string_texts(errors@) =~= seq![no_entries_message(batch_id@)]);
        return RestoreResult { restored_count: 0, skipped_count: 0, failed_count: 0, errors };
    }
    let n = if ordered.len() <= outcomes.len() {
        ordered.len()
    } else {
        outcomes.len()
    };
    let ghost e = entry_views(ordered@);
    let ghost o = restore_views(outcomes@);
    let mut restored_count: usize = 0;
    let mut skipped_count: usize = 0;
    let mut failed_count: usize = 0;
    let mut i: usize = 0;
    assert(string_texts(errors@) =~= restore_tally(e, o, 0).errors);
    while i < n
        invariant
            i <= n,
            n <= ordered.len(),
            n <= outcomes.len(),
            e == entry_views(ordered@),
            o == restore_views(outcomes@),
            restored_count == restore_tally(e, o, i as int).restored_count,
            skipped_count == restore_tally(e, o, i as int).skipped_count,
            failed_count == restore_tally(e, o, i as int).failed_count,
            string_texts(errors@) == restore_tally(e, o, i as int).errors,
        decreases n - i,
    {
        assert(e[i as int] == ordered@[i as int]@);
        assert(o[i as int] == outcomes@[i as int]@);
        let ghost before = string_texts(errors@);
        match &outcomes[i] {
            RestoreOutcome::SkippedMissing => {
                skipped_count = skipped_count.saturating_add(1);
            },
            RestoreOutcome::SkippedExisting => {
                skipped_count = skipped_count.saturating_add(1);
                let mut message =
                    "Restore target already exists (use --force to override): ".to_owned();
                message.append(ordered[i].original_path.as_str());
                errors.push(message);
                assert(string_texts(errors@) =~= before.push(
                    exists_message(e[i as int].original_path),
                ));
            },
            RestoreOutcome::WouldRestore => {
                restored_count = restored_count.saturating_add(1);
            },
            RestoreOutcome::Restored => {
                restored_count = restored_count.saturating_add(1);
            },
            RestoreOutcome::Failed(reason) => {
                failed_count = failed_count.saturating_add(1);
                let mut message = "Failed to restore ".to_owned();
                message.append(ordered[i].original_path.as_str());
                message.append(": ");
                message.append(reason.as_str());
                errors.push(message);
                assert(string_texts(errors@) =~= before.push(
                    restore_failure(e[i as int].original_path, reason@),
                ));
            },
        }
        i += 1;
    }
    RestoreResult { restored_count, skipped_count, failed_count, errors }
}

/// How the removal of the directory of a batch ended.
#[derive(Debug)]
pub enum BatchRemoval {
    /// The directory was not there in the first place.
    Absent,
    /// The directory is removed.
    Removed,
    /// The path is a symbolic link, which is never followed.
    Symlink,
    /// The directory could not be removed, for the reason given.
    Failed(String),
}

/// The mathematical content of a `BatchRemoval`.
pub enum RemovalView {
    Absent,
    Removed,
    Symlink,
    Failed(Seq<char>),
}

impl View for BatchRemoval {
    type V = RemovalView;

    open spec fn view(&self) -> RemovalView {
        match self {
            BatchRemoval::Absent => RemovalView::Absent,
            BatchRemoval::Removed => RemovalView::Removed,
            BatchRemoval::Symlink => RemovalView::Symlink,
            BatchRemoval::Failed(reason) => RemovalView::Failed(reason@),
        }
    }
}

/// The contents of a list of removals, in order.
pub open spec fn removal_views(v: Seq<BatchRemoval>) -> Seq<RemovalView> {
    Seq::new(v.len(), |i: int| v[i]@)
}

/// The message that a removal leaves, if it did not succeed; `dir` is the
/// directory of the batch.
pub open spec fn removal_error(dir: Seq<char>, r: RemovalView) -> Option<Seq<char>> {
    match r {
        RemovalView::Absent => None,
        RemovalView::Removed => None,
        RemovalView::Symlink => Some("Refusing to purge symlink path: "@ + dir),
        RemovalView::Failed(reason) => Some("Failed to remove batch dir "@ + dir + ": "@ + reason),
    }
}

/// The message that a removal leaves, if it did not succeed.
fn removal_message(dir: &str, removal: &BatchRemoval) -> (m: Option<String>)
    ensures
        opt_text(m) == removal_error(dir@, removal@),
{
    match removal {
        BatchRemoval::Absent => None,
        BatchRemoval::Removed => None,
        BatchRemoval::Symlink => {
            let mut message = "Refusing to purge symlink path: ".to_owned();
            message.append(dir);
            Some(message)
        },
        BatchRemoval::Failed(reason) => {
            let mut message = "Failed to remove batch dir ".to_owned();
            message.append(dir);
            message.append(": ");
            message.append(reason.as_str());
            Some(message)
        },
    }
}

/// The bytes of the first `n` entries together, stopping at the greatest value.
pub open spec fn entry_bytes(e: Seq<EntryView>, n: int) -> u64
    decreases n,
{
    if n <= 0 {
        0
    } else {
        plus_bytes(entry_bytes(e, n - 1), e[n - 1].size)
    }
}

/// The result of purging one batch.
#[derive(Debug)]
pub struct PurgeResult {
    pub removed_batches: usize,
    pub removed_entries: usize,
    pub removed_bytes: u64,
    pub failed_batches: usize,
    pub errors: Vec<String>,
}

/// The content of an optional list of entries.
pub open spec fn opt_entries(v: Option<Vec<TrashEntry>>) -> Option<Seq<EntryView>> {
    match v {
        Some(list) => Some(entry_views(list@)),
        None => None,
    }
}

/// Purges the batch `batch_id` from the trash kept in `root`. In a dry run
/// nothing was removed and the result says what a purge would remove.
/// Otherwise `removal` says how removing the directory of the batch ended:
/// unless that failed, the entries of the other batches come back as the
/// new content of the log.
pub fn purge_trash_batch(
    entries: &Vec<TrashEntry>,
    root: &str,
    batch_id: &str,
    dry_run: bool,
    removal: &BatchRemoval,
) -> (r: (PurgeResult, Option<Vec<TrashEntry>>))
    ensures
        ({
            let all = entry_views(entries@);
            let own = entries_of_batch(all, batch_id@, all.len() as int);
            let others = entries_of_others(all, batch_id@, all.len() as int);
            let error = removal_error(joined(root@, batch_id@), removal@);
            &&& r.0.removed_entries == own.len()
            &&& r.0.removed_bytes == entry_bytes(own, own.len() as int)
            &&& dry_run ==> r.0.removed_batches == 1 && r.0.failed_batches == 0
                && r.0.errors@.len() == 0 && r.1 is None
            &&& !dry_run ==> r.0.removed_batches == (if own.len() > 0 {
                1usize
            } else {
                0usize
            })
            &&& !dry_run && error is None ==> r.0.failed_batches == 0 && r.0.errors@.len() == 0
                && opt_entries(r.1) == Some(others)
            &&& !dry_run && error is Some ==> r.0.failed_batches == 1 && string_texts(r.0.errors@)
                == seq![error->0] && r.1 is None
        }),
{
    let (own, others) = split_by_batch(entries, batch_id);
    let removed_entries = own.len();
    let removed_bytes = sum_entry_bytes(&own);
    if dry_run {
        return (
            PurgeResult {
                removed_batches: 1,
                removed_entries,
                removed_bytes,
                failed_batches: 0,
                errors: Vec::new(),
            },
            None,
        );
    }
    let batch_dir = join_path(root, batch_id);
    let mut errors: Vec<String> = Vec::new();
    let removed_batches: usize = if removed_entries > 0 {
        1
    } else {
        0
    };
    match removal_message(batch_dir.as_str(), removal) {
        Some(message) => {
            errors.push(message);
            assert(string_texts(errors@) =~= seq![
                removal_error(joined(root@, batch_id@), removal@)->0,
            ]);
            (
                PurgeResult {
                    removed_batches,
                    removed_entries,
                    removed_bytes,
                    failed_batches: 1,
                    errors,
                },
                None,
            )
        },
        None => (
            PurgeResult { removed_batches, removed_entries, removed_bytes, failed_batches: 0, errors },
            Some(others),
        ),
    }
}

/// The bytes of the entries together, stopping at the greatest value.
fn sum_entry_bytes(entries: &Vec<TrashEntry>) -> (total: u64)
    ensures
        total == entry_bytes(entry_views(entries@), entries@.len() as int),
{
    let ghost e = entry_views(entries@);
    let mut total: u64 = 0;
    let mut i: usize = 0;
    while i < entries.len()
        invariant
            i <= entries.len(),
            e == entry_views(entries@),
            total == entry_bytes(e, i as int),
        decreases entries.len() - i,
    {
        assert(e[i as int] == entries@[i as int]@);
        total = total.saturating_add(entries[i].size);
        i += 1;
    }
    total
}

/// The bytes of the first `n` batches together, stopping at the greatest value.
pub open spec fn batch_bytes(b: Seq<BatchView>, n: int) -> u64
    decreases n,
{
    if n <= 0 {
        0
    } else {
        plus_bytes(batch_bytes(b, n - 1), b[n - 1].total_size)
    }
}

/// The entries of the first `n` batches together, stopping at the greatest value.
pub open spec fn batch_entries(b: Seq<BatchView>, n: int) -> usize
    decreases n,
{
    if n <= 0 {
        0
    } else {
        let before = batch_entries(b, n - 1);
        if before + b[n - 1].entries_count > usize::MAX {
            usize::MAX
        } else {
            (before + b[n - 1].entries_count) as usize
        }
    }
}

/// `total` less `part`, but not below zero.
pub open spec fn less_bytes(total: u64, part: u64) -> u64 {
    if part > total {
        0
    } else {
        (total - part) as u64
    }
}

/// Those of the first `n` batches that are more than `days` whole days old
/// at time `now`, in order.
pub open spec fn expired(b: Seq<BatchView>, days: i64, now: i64, n: int) -> Seq<BatchView>
    decreases n,
{
    if n <= 0 {
        seq![]
    } else {
        let prev = expired(b, days, now, n - 1);
        if days_between(now as int, b[n - 1].created_at as int) > days {
            prev.push(b[n - 1])
        } else {
            prev
        }
    }
}

/// The sort keys that order batches oldest first.
pub open spec fn age_keys(b: Seq<BatchView>) -> Seq<Key> {
    Seq::new(b.len(), |i: int| Key { a: (-(b[i].created_at as int)) as i128, b: 0, c: 0 })
}

/// The batches oldest first; batches of one age keep their order.
pub open spec fn oldest_first(b: Seq<BatchView>) -> Seq<BatchView> {
    arranged_batches(b, falling_order(age_keys(b)))
}

/// The bytes left after taking from the first `n` of the batches `c`, in
/// order, for as long as more than `limit` bytes are left of `start`.
pub open spec fn left_after(c: Seq<BatchView>, start: u64, limit: u64, n: int) -> u64
    decreases n,
{
    if n <= 0 {
        start
    } else {
        let before = left_after(c, start, limit, n - 1);
        if before > limit {
            less_bytes(before, c[n - 1].total_size)
        } else {
            before
        }
    }
}

/// The batches taken from the first `n` of `c`, in order, for as long as
/// more than `limit` bytes are left of `start`.
pub open spec fn taken(c: Seq<BatchView>, start: u64, limit: u64, n: int) -> Seq<BatchView>
    decreases n,
{
    if n <= 0 {
        seq![]
    } else {
        let prev = taken(c, start, limit, n - 1);
        if left_after(c, start, limit, n - 1) > limit {
            prev.push(c[n - 1])
        } else {
            prev
        }
    }
}

/// What a collection of the trash selects.
#[derive(Debug)]
pub struct GcSelection {
    /// The batches to remove, in the order of removal.
    pub selected: Vec<TrashBatchSummary>,
    /// The bytes that the trash holds.
    pub total_bytes: u64,
    /// The bytes that the trash holds once the selection is removed.
    pub bytes_after: u64,
    /// Whether the limit on bytes is missed because only batches past the
    /// limit on age may go.
    pub blocked_by_keep_days: bool,
}

/// The mathematical content of a `GcSelection`.
pub struct SelectionView {
    pub selected: Seq<BatchView>,
    pub total_bytes: u64,
    pub bytes_after: u64,
    pub blocked_by_keep_days: bool,
}

impl View for GcSelection {
    type V = SelectionView;

    open spec fn view(&self) -> SelectionView {
        SelectionView {
            selected: batch_views(self.selected@),
            total_bytes: self.total_bytes,
            bytes_after: self.bytes_after,
            blocked_by_keep_days: self.blocked_by_keep_days,
        }
    }
}

/// What a collection selects. With a limit on age, every batch older than
/// `keep_days` whole days goes and no other, even where that leaves more
/// than `keep_bytes`. Without one, the oldest batches go, one by one, until
/// no more than `keep_bytes` are left.
pub open spec fn gc_selection(
    entries: Seq<EntryView>,
    keep_days: Option<i64>,
    keep_bytes: Option<u64>,
    now: i64,
) -> SelectionView {
    let b = summarized(entries);
    let total = batch_bytes(b, b.len() as int);
    match keep_days {
        Some(days) => {
            let selected = expired(b, days, now, b.len() as int);
            let after = less_bytes(total, batch_bytes(selected, selected.len() as int));
            SelectionView {
                selected,
                total_bytes: total,
                bytes_after: after,
                blocked_by_keep_days: keep_bytes is Some && after > keep_bytes->0,
            }
        },
        None => match keep_bytes {
            Some(limit) => {
                let c = oldest_first(b);
                SelectionView {
                    selected: taken(c, total, limit, c.len() as int),
                    total_bytes: total,
                    bytes_after: left_after(c, total, limit, c.len() as int),
                    blocked_by_keep_days: false,
                }
            },
            None => SelectionView {
                selected: seq![],
                total_bytes: total,
                bytes_after: total,
                blocked_by_keep_days: false,
            },
        },
    }
}

/// The bytes of the batches together, stopping at the greatest value.
fn sum_batch_bytes(batches: &Vec<TrashBatchSummary>) -> (total: u64)
    ensures
        total == batch_bytes(batch_views(batches@), batches@.len() as int),
{
    let ghost b = batch_views(batches@);
    let mut total: u64 = 0;
    let mut i: usize = 0;
    while i < batches.len()
        invariant
            i <= batches.len(),
            b == batch_views(batches@),
            total == batch_bytes(b, i as int),
        decreases batches.len() - i,
    {
        assert(b[i as int] == batches@[i as int]@);
        total = total.saturating_add(batches[i].total_size);
        i += 1;
    }
    total
}

/// The entries of the batches together, stopping at the greatest value.
fn sum_batch_entries(batches: &Vec<TrashBatchSummary>) -> (total: usize)
    ensures
        total == batch_entries(batch_views(batches@), batches@.len() as int),
{
    let ghost b = batch_views(batches@);
    let mut total: usize = 0;
    let mut i: usize = 0;
    while i < batches.len()
        invariant
            i <= batches.len(),
            b == batch_views(batches@),
            total == batch_entries(b, i as int),
        decreases batches.len() - i,
    {
        assert(b[i as int] == batches@[i as int]@);
        total = total.saturating_add(batches[i].entries_count);
        i += 1;
    }
    total
}

/// The batches that are more than `days` whole days old at time `now`.
fn select_expired(batches: &Vec<TrashBatchSummary>, days: i64, now: i64) -> (out: Vec<
    TrashBatchSummary,
>)
    ensures
        batch_views(out@) == expired(batch_views(batches@), days, now, batches@.len() as int),
{
    let ghost b = batch_views(batches@);
    let mut out: Vec<TrashBatchSummary> = Vec::new();
    let mut i: usize = 0;
    assert(batch_views(out@) =~= expired(b, days, now, 0));
    while i < batches.len()
        invariant
            i <= batches.len(),
            b == batch_views(batches@),
            batch_views(out@) == expired(b, days, now, i as int),
        decreases batches.len() - i,
    {
        assert(b[i as int] == batches@[i as int]@);
        if whole_days(now, batches[i].created_at) > days as i128 {
            let ghost before = batch_views(out@);
            out.push(batches[i].duplicate());
            assert(batch_views(out@) =~= before.push(b[i as int]));
        }
        i += 1;
    }
    out
}

/// Whole days from `then` to `now`, rounded toward zero.
fn whole_days(now: i64, then: i64) -> (days: i128)
    ensures
        days == days_between(now as int, then as int),
{
    let diff: i128 = now as i128 - then as i128;
    if diff >= 0 {
        diff / 86400
    } else {
        let pos: i128 = -diff;
        -(pos / 86400)
    }
}

/// The batches oldest first.
fn sort_oldest_first(batches: &Vec<TrashBatchSummary>) -> (out: Vec<TrashBatchSummary>)
    ensures
        batch_views(out@) == oldest_first(batch_views(batches@)),
{
    let mut keys: Vec<Key> = Vec::new();
    let mut i: usize = 0;
    while i < batches.len()
        invariant
            i <= batches.len(),
            keys@.len() == i,
            forall|k: int|
                0 <= k < i ==> #[trigger] keys@[k] == (Key {
                    a: (-(batches@[k].created_at as int)) as i128,
                    b: 0,
                    c: 0,
                }),
        decreases batches.len() - i,
    {
        keys.push(Key { a: -(batches[i].created_at as i128), b: 0, c: 0 });
        i += 1;
    }
    assert(keys@ =~= age_keys(batch_views(batches@)));
    let order = sort_falling(&keys);
    arrange_batches(batches, &order)
}

/// Takes batches in order for as long as more than `limit` bytes are left.
fn take_until(candidates: &Vec<TrashBatchSummary>, start: u64, limit: u64) -> (r: (
    Vec<TrashBatchSummary>,
    u64,
))
    ensures
        batch_views(r.0@) == taken(
            batch_views(candidates@),
            start,
            limit,
            candidates@.len() as int,
        ),
        r.1 == left_after(batch_views(candidates@), start, limit, candidates@.len() as int),
{
    let ghost c = batch_views(candidates@);
    let mut out: Vec<TrashBatchSummary> = Vec::new();
    let mut left = start;
    let mut i: usize = 0;
    assert(batch_views(out@) =~= taken(c, start, limit, 0));
    while i < candidates.len()
        invariant
            i <= candidates.len(),
            c == batch_views(candidates@),
            left == left_after(c, start, limit, i as int),
            batch_views(out@) == taken(c, start, limit, i as int),
        decreases candidates.len() - i,
    {
        assert(c[i as int] == candidates@[i as int]@);
        if left > limit {
            let ghost before = batch_views(out@);
            left = left.saturating_sub(candidates[i].total_size);
            out.push(candidates[i].duplicate());
            assert(batch_views(out@) =~= before.push(c[i as int]));
        }
        i += 1;
    }
    (out, left)
}

/// Selects the batches that a collection of the trash removes.
pub fn gc_select(entries: &Vec<TrashEntry>, keep_days: Option<i64>, keep_bytes: Option<u64>, now: i64) -> (sel:
    GcSelection)
    ensures
        sel@ == gc_selection(entry_views(entries@), keep_days, keep_bytes, now),
{
    let summaries = summarize_batches(entries);
    let total_bytes = sum_batch_bytes(&summaries);
    match keep_days {
        Some(days) => {
            let selected = select_expired(&summaries, days, now);
            let bytes_after = total_bytes.saturating_sub(sum_batch_bytes(&selected));
            let blocked_by_keep_days = match keep_bytes {
                Some(limit) => bytes_after > limit,
                None => false,
            };
            GcSelection { selected, total_bytes, bytes_after, blocked_by_keep_days }
        },
        None => match keep_bytes {
            Some(limit) => {
                let candidates = sort_oldest_first(&summaries);
                let (selected, bytes_after) = take_until(&candidates, total_bytes, limit);
                GcSelection { selected, total_bytes, bytes_after, blocked_by_keep_days: false }
            },
            None => {
                let selected: Vec<TrashBatchSummary> = Vec::new();
                assert(batch_views(selected@) =~= seq![]);
                GcSelection {
                    selected,
                    total_bytes,
                    bytes_after: total_bytes,
                    blocked_by_keep_days: false,
                }
            },
        },
    }
}

/// The result of collecting the trash.
#[derive(Debug)]
pub struct GcResult {
    pub removed_batches: usize,
    pub removed_entries: usize,
    pub removed_bytes: u64,
    pub remaining_bytes: u64,
    pub target_keep_bytes: Option<u64>,
    pub blocked_by_keep_days: bool,
    pub failed_batches: usize,
    pub errors: Vec<String>,
}

/// The mathematical content of a `GcResult`.
pub struct GcView {
    pub removed_batches: usize,
    pub removed_entries: usize,
    pub removed_bytes: u64,
    pub remaining_bytes: u64,
    pub target_keep_bytes: Option<u64>,
    pub blocked_by_keep_days: bool,
    pub failed_batches: usize,
    pub errors: Seq<Seq<char>>,
}

impl View for GcResult {
    type V = GcView;

    open spec fn view(&self) -> GcView {
        GcView {
            removed_batches: self.removed_batches,
            removed_entries: self.removed_entries,
            removed_bytes: self.removed_bytes,
            remaining_bytes: self.remaining_bytes,
            target_keep_bytes: self.target_keep_bytes,
            blocked_by_keep_days: self.blocked_by_keep_days,
            failed_batches: self.failed_batches,
            errors: string_texts(self.errors@),
        }
    }
}

/// How the removal of batch `i` of a selection ended: as reported, or as
/// failed where nothing was reported for it.
pub open spec fn removal_at(removals: Seq<RemovalView>, i: int) -> RemovalView {
    if 0 <= i < removals.len() {
        removals[i]
    } else {
        RemovalView::Failed("no outcome reported"@)
    }
}

/// The batches among the first `n` of a selection that are gone, in order.
pub open spec fn gone(root: Seq<char>, sel: Seq<BatchView>, removals: Seq<RemovalView>, n: int)
    -> Seq<BatchView>
    decreases n,
{
    if n <= 0 {
        seq![]
    } else {
        let prev = gone(root, sel, removals, n - 1);
        if removal_error(joined(root, sel[n - 1].batch_id), removal_at(removals, n - 1)) is None {
            prev.push(sel[n - 1])
        } else {
            prev
        }
    }
}

/// The messages of the removals among the first `n` of a selection that failed.
pub open spec fn removal_errors(
    root: Seq<char>,
    sel: Seq<BatchView>,
    removals: Seq<RemovalView>,
    n: int,
) -> Seq<Seq<char>>
    decreases n,
{
    if n <= 0 {
        seq![]
    } else {
        let prev = removal_errors(root, sel, removals, n - 1);
        match removal_error(joined(root, sel[n - 1].batch_id), removal_at(removals, n - 1)) {
            Some(message) => prev.push(message),
            None => prev,
        }
    }
}

/// Whether one of the batches has the identifier `id`.
pub open spec fn has_batch(b: Seq<BatchView>, id: Seq<char>) -> bool {
    exists|k: int| 0 <= k < b.len() && (#[trigger] b[k]).batch_id == id
}

/// The entries among the first `n` that belong to none of the batches `b`.
pub open spec fn entries_outside(e: Seq<EntryView>, b: Seq<BatchView>, n: int) -> Seq<EntryView>
    decreases n,
{
    if n <= 0 {
        seq![]
    } else {
        let prev = entries_outside(e, b, n - 1);
        if has_batch(b, e[n - 1].batch_id) {
            prev
        } else {
            prev.push(e[n - 1])
        }
    }
}

/// What a dry run of a collection reports.
pub open spec fn gc_preview(sel: SelectionView, keep_bytes: Option<u64>) -> GcView {
    GcView {
        removed_batches: sel.selected.len() as usize,
        removed_entries: batch_entries(sel.selected, sel.selected.len() as int),
        removed_bytes: batch_bytes(sel.selected, sel.selected.len() as int),
        remaining_bytes: sel.bytes_after,
        target_keep_bytes: keep_bytes,
        blocked_by_keep_days: sel.blocked_by_keep_days,
        failed_batches: 0,
        errors: seq![],
    }
}

/// What a collection reports once the removals are done.
pub open spec fn gc_report(
    root: Seq<char>,
    sel: SelectionView,
    keep_bytes: Option<u64>,
    removals: Seq<RemovalView>,
) -> GcView {
    let n = sel.selected.len() as int;
    let ok = gone(root, sel.selected, removals, n);
    let errors = removal_errors(root, sel.selected, removals, n);
    GcView {
        removed_batches: ok.len() as usize,
        removed_entries: batch_entries(ok, ok.len() as int),
        removed_bytes: batch_bytes(ok, ok.len() as int),
        remaining_bytes: less_bytes(sel.total_bytes, batch_bytes(ok, ok.len() as int)),
        target_keep_bytes: keep_bytes,
        blocked_by_keep_days: sel.blocked_by_keep_days,
        failed_batches: errors.len() as usize,
        errors,
    }
}

/// Sorts the removals of a selection into the batches that are gone and
/// the messages of those that are not.
fn sort_removals(root: &str, selected: &Vec<TrashBatchSummary>, removals: &Vec<BatchRemoval>) -> (r:
    (Vec<TrashBatchSummary>, Vec<String>))
    ensures
        batch_views(r.0@) == gone(
            root@,
            batch_views(selected@),
            removal_views(removals@),
            selected@.len() as int,
        ),
        string_texts(r.1@) == removal_errors(
            root@,
            batch_views(selected@),
            removal_views(removals@),
            selected@.len() as int,
        ),
        r.0@.len() <= selected@.len(),
        r.1@.len() <= selected@.len(),
{
    let ghost sel = batch_views(selected@);
    let ghost rem = removal_views(removals@);
    let mut ok: Vec<TrashBatchSummary> = Vec::new();
    let mut errors: Vec<String> = Vec::new();
    let mut i: usize = 0;
    assert(batch_views(ok@) =~= gone(root@, sel, rem, 0));
    assert(string_texts(errors@) =~= removal_errors(root@, sel, rem, 0));
    while i < selected.len()
        invariant
            i <= selected.len(),
            sel == batch_views(selected@),
            rem == removal_views(removals@),
            ok@.len() <= i,
            errors@.len() <= i,
            batch_views(ok@) == gone(root@, sel, rem, i as int),
            string_texts(errors@) == removal_errors(root@, sel, rem, i as int),
        decreases selected.len() - i,
    {
        assert(sel[i as int] == selected@[i as int]@);
        let dir = join_path(root, selected[i].batch_id.as_str());
        let message = if i < removals.len() {
            assert(rem[i as int] == removals@[i as int]@);
            removal_message(dir.as_str(), &removals[i])
        } else {
            let missing = BatchRemoval::Failed("no outcome reported".to_owned());
            removal_message(dir.as_str(), &missing)
        };
        match message {
            Some(text) => {
                let ghost before = string_texts(errors@);
                errors.push(text);
                assert(string_texts(errors@) =~= before.push(
                    removal_error(joined(root@, sel[i as int].batch_id), removal_at(rem, i as int))->0,
                ));
            },
            None => {
                let ghost before = batch_views(ok@);
                ok.push(selected[i].duplicate());
                assert(batch_views(ok@) =~= before.push(sel[i as int]));
            },
        }
        i += 1;
    }
    (ok, errors)
}

/// Whether one of the batches has the identifier `id`.
fn batch_listed(batches: &Vec<TrashBatchSummary>, id: &str) -> (found: bool)
    ensures
        found == has_batch(batch_views(batches@), id@),
{
    let at = position_of_batch(batches, id);
    proof {
        lemma_find_batch(batch_views(batches@), id@, 0);
    }
    at < batches.len()
}

/// `find_batch` finds a batch exactly where one has the identifier.
proof fn lemma_find_batch(b: Seq<BatchView>, id: Seq<char>, from: int)
    requires
        0 <= from,
    ensures
        from <= find_batch(b, id, from) || from >= b.len(),
        find_batch(b, id, from) < b.len() ==> b[find_batch(b, id, from)].batch_id == id,
        find_batch(b, id, from) >= b.len() ==> forall|k: int|
            from <= k < b.len() ==> (#[trigger] b[k]).batch_id != id,
    decreases b.len() - from,
{
    if from < b.len() && b[from].batch_id != id {
        lemma_find_batch(b, id, from + 1);
    }
}

/// The entries that belong to none of the batches.
fn entries_not_in(entries: &Vec<TrashEntry>, batches: &Vec<TrashBatchSummary>) -> (out: Vec<
    TrashEntry,
>)
    ensures
        entry_views(out@) == entries_outside(
            entry_views(entries@),
            batch_views(batches@),
            entries@.len() as int,
        ),
{
    let ghost e = entry_views(entries@);
    let ghost b = batch_views(batches@);
    let mut out: Vec<TrashEntry> = Vec::new();
    let mut i: usize = 0;
    assert(entry_views(out@) =~= entries_outside(e, b, 0));
    while i < entries.len()
        invariant
            i <= entries.len(),
            e == entry_views(entries@),
            b == batch_views(batches@),
            entry_views(out@) == entries_outside(e, b, i as int),
        decreases entries.len() - i,
    {
        assert(e[i as int] == entries@[i as int]@);
        if !batch_listed(batches, entries[i].batch_id.as_str()) {
            let ghost before = entry_views(out@);
            out.push(entries[i].duplicate());
            assert(entry_views(out@) =~= before.push(e[i as int]));
        }
        i += 1;
    }
    out
}

/// Collects the trash kept in `root`. In a dry run the result says what the
/// selection of `gc_select` would remove. Otherwise `removals` says, batch
/// by batch of that selection, how removing its directory ended; the result
/// counts the batches that are gone, and where any is gone, the entries of
/// all other batches come back as the new content of the log.
pub fn gc_trash(
    entries: &Vec<TrashEntry>,
    root: &str,
    keep_days: Option<i64>,
    keep_bytes: Option<u64>,
    dry_run: bool,
    now: i64,
    removals: &Vec<BatchRemoval>,
) -> (r: (GcResult, Option<Vec<TrashEntry>>))
    ensures
        ({
            let sel = gc_selection(entry_views(entries@), keep_days, keep_bytes, now);
            let ok = gone(
                root@,
                sel.selected,
                removal_views(removals@),
                sel.selected.len() as int,
            );
            &&& dry_run ==> r.0@ == gc_preview(sel, keep_bytes) && r.1 is None
            &&& !dry_run ==> r.0@ == gc_report(root@, sel, keep_bytes, removal_views(removals@))
            &&& !dry_run && ok.len() == 0 ==> r.1 is None
            &&& !dry_run && ok.len() > 0 ==> opt_entries(r.1) == Some(
                entries_outside(entry_views(entries@), ok, entries@.len() as int),
            )
        }),
{
    let sel = gc_select(entries, keep_days, keep_bytes, now);
    if dry_run {
        let result = GcResult {
            removed_batches: sel.selected.len(),
            removed_entries: sum_batch_entries(&sel.selected),
            removed_bytes: sum_batch_bytes(&sel.selected),
            remaining_bytes: sel.bytes_after,
            target_keep_bytes: keep_bytes,
            blocked_by_keep_days: sel.blocked_by_keep_days,
            failed_batches: 0,
            errors: Vec::new(),
        };
        assert(result@.errors =~= seq![]);
        return (result, None);
    }
    let (ok, errors) = sort_removals(root, &sel.selected, removals);
    let kept = if ok.len() > 0 {
        Some(entries_not_in(entries, &ok))
    } else {
        None
    };
    let removed_bytes = sum_batch_bytes(&ok);
    let result = GcResult {
        removed_batches: ok.len(),
        removed_entries: sum_batch_entries(&ok),
        removed_bytes,
        remaining_bytes: sel.total_bytes.saturating_sub(removed_bytes),
        target_keep_bytes: keep_bytes,
        blocked_by_keep_days: sel.blocked_by_keep_days,
        failed_batches: errors.len(),
        errors,
    };
    (result, kept)
}

/// No path comes before itself.
pub proof fn lemma_path_lt_irreflexive(a: Seq<char>, k: int)
    requires
        0 <= k,
    ensures
        !path_lt_from(a, a, k),
    decreases a.len() - k,
{
    if k < a.len() {
        lemma_path_lt_irreflexive(a, k + 1);
    }
}

/// The order of paths is transitive.
pub proof fn lemma_path_lt_transitive(a: Seq<char>, b: Seq<char>, c: Seq<char>, k: int)
    requires
        0 <= k,
        path_lt_from(a, b, k),
        path_lt_from(b, c, k),
    ensures
        path_lt_from(a, c, k),
    decreases a.len() - k,
{
    if k < a.len() && k < b.len() && k < c.len() && a[k] == b[k] && b[k] == c[k] {
        lemma_path_lt_transitive(a, b, c, k + 1);
    }
}

/// An entry whose path comes before that of another has fewer entries
/// before it.
proof fn lemma_rank_follows_path(e: Seq<EntryView>, a: int, b: int, n: int)
    requires
        0 <= a < e.len(),
        0 <= b < e.len(),
        0 <= n <= e.len(),
        path_lt(e[a].original_path, e[b].original_path),
    ensures
        path_rank(e, a, n) <= path_rank(e, b, n),
        n > a ==> path_rank(e, a, n) < path_rank(e, b, n),
        path_rank(e, a, n) <= n,
        path_rank(e, b, n) <= n,
    decreases n,
{
    if n > 0 {
        lemma_rank_follows_path(e, a, b, n - 1);
        let x = e[n - 1].original_path;
        if path_lt(x, e[a].original_path) {
            lemma_path_lt_transitive(x, e[a].original_path, e[b].original_path, 0);
        }
        if n - 1 == a {
            lemma_path_lt_irreflexive(e[a].original_path, 0);
        }
    }
}

/// The entries of a batch are listed in the order of their paths: no entry
/// in the list has a path that comes after that of a later entry.
pub proof fn lemma_listing_in_path_order(entries: Seq<EntryView>, id: Seq<char>, p: int, q: int)
    requires
        0 <= p < q < batch_listing(entries, id).len(),
        entries_of_batch(entries, id, entries.len() as int).len() <= usize::MAX,
    ensures
        !path_lt(
            batch_listing(entries, id)[q].original_path,
            batch_listing(entries, id)[p].original_path,
        ),
{
    let own = entries_of_batch(entries, id, entries.len() as int);
    let keys = path_keys(own);
    crate::order::lemma_falling_sorted(keys, keys.len() as int);
    let order = falling_order(keys);
    let a = order[p];
    let b = order[q];
    assert(0 <= a < own.len() && 0 <= b < own.len());
    assert(!crate::order::key_lt(keys[a], keys[b]));
    if path_lt(own[b].original_path, own[a].original_path) {
        lemma_rank_follows_path(own, b, a, own.len() as int);
        assert(crate::order::key_lt(keys[a], keys[b]));
    }
}

/// The batches are listed newest first, and those for a collection by size
/// oldest first.
pub proof fn lemma_batches_by_age(entries: Seq<EntryView>, p: int, q: int)
    requires
        0 <= p < q < summarized(entries).len(),
    ensures
        summarized(entries)[p].created_at >= summarized(entries)[q].created_at,
        oldest_first(summarized(entries))[p].created_at <= oldest_first(
            summarized(entries),
        )[q].created_at,
{
    let b = batches_upto(entries, entries.len() as int);
    let keys = created_keys(b);
    crate::order::lemma_falling_sorted(keys, keys.len() as int);
    let order = falling_order(keys);
    assert(!crate::order::key_lt(keys[order[p]], keys[order[q]]));
    let s = summarized(entries);
    let ages = age_keys(s);
    crate::order::lemma_falling_sorted(ages, ages.len() as int);
    let by_age = falling_order(ages);
    assert(!crate::order::key_lt(ages[by_age[p]], ages[by_age[q]]));
}

} // verus!
