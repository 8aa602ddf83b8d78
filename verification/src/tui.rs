use crate::order::{falling_order, positions, sort_falling, Key};
use crate::recommend::plus_bytes;
use crate::scanner::{
    days_between, risk_rank, views, Category, ProjectInfo, ProjectView, RiskLevel,
};
use crate::stats::display_name;
use crate::text::{slice_to_string, to_chars};
use vstd::prelude::*;
use vstd::string::*;

verus! {

/// By what the list of targets is ordered.
#[derive(Clone, Copy, Debug, PartialEq, Eq, Structural)]
pub enum SortKey {
    Size,
    Age,
    Risk,
}

/// The sort key that follows `k` in the cycle size, age, risk.
pub open spec fn next_sort(k: SortKey) -> SortKey {
    match k {
        SortKey::Size => SortKey::Age,
        SortKey::Age => SortKey::Risk,
        SortKey::Risk => SortKey::Size,
    }
}

/// The name of a sort key.
pub open spec fn sort_name(k: SortKey) -> Seq<char> {
    match k {
        SortKey::Size => "size"@,
        SortKey::Age => "age"@,
        SortKey::Risk => "risk"@,
    }
}

impl SortKey {
    /// The sort key that follows in the cycle size, age, risk.
    pub fn next(self) -> (k: SortKey)
        ensures
            k == next_sort(self),
    {
        match self {
            SortKey::Size => SortKey::Age,
            SortKey::Age => SortKey::Risk,
            SortKey::Risk => SortKey::Size,
        }
    }

    /// The name of the sort key.
    pub fn as_str(self) -> (s: &'static str)
        ensures
            s@ == sort_name(self),
    {
        match self {
            SortKey::Size => "size",
            SortKey::Age => "age",
            SortKey::Risk => "risk",
        }
    }
}

/// The category filter that follows in the cycle none, cache, build, deps.
pub open spec fn next_category(c: Option<Category>) -> Option<Category> {
    match c {
        None => Some(Category::Cache),
        Some(Category::Cache) => Some(Category::Build),
        Some(Category::Build) => Some(Category::Deps),
        Some(Category::Deps) => None,
        Some(Category::Unknown) => None,
    }
}

/// The risk filter that follows in the cycle none, low, medium, high.
pub open spec fn next_risk(r: Option<RiskLevel>) -> Option<RiskLevel> {
    match r {
        None => Some(RiskLevel::Low),
        Some(RiskLevel::Low) => Some(RiskLevel::Medium),
        Some(RiskLevel::Medium) => Some(RiskLevel::High),
        Some(RiskLevel::High) => None,
    }
}

/// The lower-case form of an ASCII letter; any other character as it is.
pub open spec fn lower(c: char) -> char {
    if 'A' <= c && c <= 'Z' {
        ((c as u32 + 32) as u8) as char
    } else {
        c
    }
}

/// A text with its ASCII letters in lower case.
pub open spec fn lower_text(s: Seq<char>) -> Seq<char> {
    Seq::new(s.len(), |i: int| lower(s[i]))
}

/// Whether `needle` stands in `hay` at position `at`.
pub open spec fn stands_at(hay: Seq<char>, needle: Seq<char>, at: int) -> bool {
    0 <= at && at + needle.len() <= hay.len() && hay.subrange(at, at + needle.len()) == needle
}

/// Whether `needle` occurs in `hay`.
pub open spec fn occurs_in(hay: Seq<char>, needle: Seq<char>) -> bool {
    exists|at: int| #[trigger] stands_at(hay, needle, at)
}

/// What decides which targets are shown.
pub struct Filters {
    pub include_recent: bool,
    pub include_protected: bool,
    pub query: Seq<char>,
    pub category: Option<Category>,
    pub risk: Option<RiskLevel>,
}

/// Whether a target is shown under the filters: it is not hidden as
/// protected or recent, it is of the wanted category and risk, and the
/// query, if there is one, occurs in its path or in the name of its kind,
/// whatever the case of letters.
pub open spec fn shown(p: ProjectView, f: Filters) -> bool {
    &&& f.include_protected || !p.protected
    &&& f.include_recent || !p.recent
    &&& f.category matches Some(c) ==> p.category == c
    &&& f.risk matches Some(r) ==> p.risk_level == r
    &&& f.query.len() == 0 || occurs_in(lower_text(p.cleanable_dir), lower_text(f.query))
        || occurs_in(lower_text(display_name(p)), lower_text(f.query))
}

/// The positions among the first `n` targets of those that are shown, in order.
pub open spec fn shown_upto(c: Seq<ProjectView>, f: Filters, n: int) -> Seq<usize>
    decreases n,
{
    if n <= 0 {
        seq![]
    } else {
        let prev = shown_upto(c, f, n - 1);
        if shown(c[n - 1], f) {
            prev.push((n - 1) as usize)
        } else {
            prev
        }
    }
}

/// The sort key of a target: by size, then age; by age, then size; or by
/// rising risk, then size.
pub open spec fn view_key(p: ProjectView, k: SortKey, now: i64) -> Key {
    let days = days_between(now as int, p.last_modified as int) as i128;
    match k {
        SortKey::Size => Key { a: p.size as i128, b: days, c: 0 },
        SortKey::Age => Key { a: days, b: p.size as i128, c: 0 },
        SortKey::Risk => Key { a: (-risk_rank(p.risk_level)) as i128, b: p.size as i128, c: 0 },
    }
}

/// The sort keys of the shown targets.
pub open spec fn view_keys(c: Seq<ProjectView>, shown: Seq<usize>, k: SortKey, now: i64) -> Seq<
    Key,
> {
    Seq::new(shown.len(), |i: int| view_key(c[shown[i] as int], k, now))
}

/// The positions of the shown targets in the order of display.
pub open spec fn visible_order(c: Seq<ProjectView>, f: Filters, k: SortKey, now: i64) -> Seq<
    usize,
> {
    let s = shown_upto(c, f, c.len() as int);
    let order = falling_order(view_keys(c, s, k, now));
    Seq::new(order.len(), |i: int| s[order[i]])
}

/// Where the cursor stands once `count` targets are shown: nowhere if none
/// is, else where it stood, but no further than the last target.
pub open spec fn settled_cursor(cursor: Option<usize>, count: nat) -> Option<usize> {
    let current = match cursor {
        Some(c) => c,
        None => 0,
    };
    if count == 0 {
        None
    } else if current >= count {
        Some((count - 1) as usize)
    } else {
        Some(current)
    }
}

/// Where the cursor stands after a step down, around the end.
pub open spec fn cursor_after_next(cursor: Option<usize>, count: nat) -> Option<usize> {
    match cursor {
        None => Some(0),
        Some(c) => if count == 0 {
            None
        } else if c + 1 >= count {
            Some(0)
        } else {
            Some((c + 1) as usize)
        },
    }
}

/// Where the cursor stands after a step up, around the start.
pub open spec fn cursor_after_previous(cursor: Option<usize>, count: nat) -> Option<usize> {
    match cursor {
        None => Some(0),
        Some(c) => if count == 0 {
            None
        } else if c == 0 {
            Some((count - 1) as usize)
        } else {
            Some((c - 1) as usize)
        },
    }
}

/// Whether a target is selected from the start: it is not in use, not
/// protected, and at least `recent_days` days old.
pub open spec fn selectable(p: ProjectView, recent_days: i64, now: i64) -> bool {
    !p.in_use && !p.protected && days_between(now as int, p.last_modified as int) >= recent_days
}

/// The state of the interactive list of targets.
#[derive(Debug)]
pub struct AppState {
    pub projects: Vec<ProjectInfo>,
    /// Positions in `projects` of the targets shown, in the order of display.
    pub visible_indices: Vec<usize>,
    /// For each target, whether it is selected for cleaning.
    pub selected: Vec<bool>,
    /// Position in `visible_indices` of the target under the cursor.
    pub cursor: Option<usize>,
    pub include_recent: bool,
    pub include_protected: bool,
    pub recent_days: i64,
    pub query: String,
    pub category_filter: Option<Category>,
    pub risk_filter: Option<RiskLevel>,
    pub sort_key: SortKey,
    pub show_help: bool,
}

/// A key as the list of targets understands it.
#[derive(Clone, Copy, Debug, PartialEq, Eq, Structural)]
pub enum KeyInput {
    Char(char),
    Esc,
    Down,
    Up,
    Enter,
    Backspace,
    Other,
}

/// What follows from a key.
#[derive(Clone, Copy, Debug, PartialEq, Eq, Structural)]
pub enum KeyOutcome {
    /// The list goes on.
    Continue,
    /// The list is left without cleaning.
    Quit,
    /// The selected targets are to be cleaned.
    Clean,
}

/// Whether a character may be typed into the query.
pub open spec fn query_char(c: char) -> bool {
    ('a' <= c && c <= 'z') || ('A' <= c && c <= 'Z') || ('0' <= c && c <= '9') || c == '/' || c
        == '.' || c == '-' || c == '_'
}

/// The lower-case form of a text.
fn lower_chars(s: &str) -> (out: Vec<char>)
    ensures
        out@ == lower_text(s@),
{
    let v = to_chars(s);
    let mut out: Vec<char> = Vec::new();
    let mut i: usize = 0;
    while i < v.len()
        invariant
            i <= v.len(),
            v@ == s@,
            out@ == lower_text(s@).subrange(0, i as int),
        decreases v.len() - i,
    {
        let c = v[i];
        let l = if 'A' <= c && c <= 'Z' {
            ((c as u32 + 32) as u8) as char
        } else {
            c
        };
        out.push(l);
        assert(out@ =~= lower_text(s@).subrange(0, i + 1));
        i += 1;
    }
    assert(lower_text(s@).subrange(0, v@.len() as int) =~= lower_text(s@));
    out
}

/// Whether `needle` occurs in `hay`.
pub fn contains_chars(hay: &Vec<char>, needle: &Vec<char>) -> (found: bool)
    ensures
        found == occurs_in(hay@, needle@),
{
    if needle.len() > hay.len() {
        assert forall|at: int| !stands_at(hay@, needle@, at) by {}
        return false;
    }
    if needle.len() == 0 {
        assert(hay@.subrange(0, 0) =~= needle@);
        assert(stands_at(hay@, needle@, 0));
        return true;
    }
    let last = hay.len() - needle.len();
    let mut at: usize = 0;
    while at <= last
        invariant
            at <= last + 1,
            last == hay.len() - needle.len(),
            needle.len() <= hay.len(),
            needle.len() > 0,
            forall|k: int| 0 <= k < at ==> !stands_at(hay@, needle@, k),
        decreases last + 1 - at,
    {
        let mut j: usize = 0;
        let mut same = true;
        while j < needle.len() && same
            invariant
                j <= needle.len(),
                at <= last,
                last == hay.len() - needle.len(),
                needle.len() <= hay.len(),
                same ==> forall|k: int| 0 <= k < j ==> hay@[at + k] == needle@[k],
                !same ==> !stands_at(hay@, needle@, at as int),
            decreases needle.len() - j + (if same { 1int } else { 0int }),
        {
            if hay[at + j] != needle[j] {
                same = false;
                assert(hay@.subrange(at as int, at + needle@.len())[j as int] != needle@[j as int]);
            } else {
                j += 1;
            }
        }
        if same {
            assert(hay@.subrange(at as int, at + needle@.len()) =~= needle@);
            assert(stands_at(hay@, needle@, at as int));
            return true;
        }
        at += 1;
    }
    assert forall|k: int| !stands_at(hay@, needle@, k) by {}
    false
}

impl AppState {
    /// Whether the lists of the state fit together: every target has its
    /// mark of selection and every position shown is that of a target.
    pub open spec fn wf(&self) -> bool {
        &&& self.selected@.len() == self.projects@.len()
        &&& forall|k: int|
            0 <= k < self.visible_indices@.len() ==> #[trigger] self.visible_indices@[k]
                < self.projects@.len()
    }

    /// The filters of the state.
    pub open spec fn filters(&self) -> Filters {
        Filters {
            include_recent: self.include_recent,
            include_protected: self.include_protected,
            query: self.query@,
            category: self.category_filter,
            risk: self.risk_filter,
        }
    }

    /// Whether target `i` is shown under the filters of the state.
    fn is_shown(&self, i: usize, query: &Vec<char>) -> (r: bool)
        requires
            i < self.projects@.len(),
            query@ == lower_text(self.query@),
        ensures
            r == shown(self.projects@[i as int]@, self.filters()),
    {
        let p = &self.projects[i];
        if !self.include_protected && p.protected {
            return false;
        }
        if !self.include_recent && p.recent {
            return false;
        }
        if let Some(category) = self.category_filter {
            if p.category != category {
                return false;
            }
        }
        if let Some(risk) = self.risk_filter {
            if p.risk_level != risk {
                return false;
            }
        }
        if query.len() > 0 {
            let path = lower_chars(p.cleanable_dir.as_str());
            let name = p.project_type_display_name();
            let kind = lower_chars(name.as_str());
            if !contains_chars(&path, query) && !contains_chars(&kind, query) {
                return false;
            }
        }
        true
    }

    /// Works out anew which targets are shown and in what order, and moves
    /// the cursor back into the list where it fell off.
    pub fn recompute_visible(&mut self, now: i64)
        requires
            old(self).wf(),
        ensures
            final(self).wf(),
            final(self).visible_indices@ == visible_order(
                views(old(self).projects@),
                old(self).filters(),
                old(self).sort_key,
                now,
            ),
            final(self).cursor == settled_cursor(
                old(self).cursor,
                final(self).visible_indices@.len(),
            ),
            final(self).projects == old(self).projects,
            final(self).selected == old(self).selected,
            final(self).filters() == old(self).filters(),
            final(self).sort_key == old(self).sort_key,
            final(self).recent_days == old(self).recent_days,
            final(self).show_help == old(self).show_help,
    {
        let ghost c = views(self.projects@);
        let ghost f = self.filters();
        let query = lower_chars(self.query.as_str());
        let mut shown_now: Vec<usize> = Vec::new();
        let mut keys: Vec<Key> = Vec::new();
        let n = self.projects.len();
        let mut i: usize = 0;
        assert(shown_now@ =~= shown_upto(c, f, 0));
        while i < n
            invariant
                i <= n,
                n == self.projects@.len(),
                c == views(self.projects@),
                f == self.filters(),
                query@ == lower_text(self.query@),
                shown_now@ == shown_upto(c, f, i as int),
                keys@.len() == shown_now@.len(),
                forall|k: int| 0 <= k < shown_now@.len() ==> #[trigger] shown_now@[k] < i,
                forall|k: int|
                    0 <= k < keys@.len() ==> #[trigger] keys@[k] == view_key(
                        c[shown_now@[k] as int],
                        self.sort_key,
                        now,
                    ),
            decreases n - i,
        {
            assert(c[i as int] == self.projects@[i as int]@);
            if self.is_shown(i, &query) {
                let p = &self.projects[i];
                let days = p.days_since_modified(now) as i128;
                let key = match self.sort_key {
                    SortKey::Size => Key { a: p.size as i128, b: days, c: 0 },
                    SortKey::Age => Key { a: days, b: p.size as i128, c: 0 },
                    SortKey::Risk => Key { a: -(p.risk_level.rank() as i128), b: p.size as i128, c: 0 },
                };
                shown_now.push(i);
                keys.push(key);
            }
            i += 1;
        }
        assert(keys@ =~= view_keys(c, shown_now@, self.sort_key, now));
        let order = sort_falling(&keys);
        let mut visible: Vec<usize> = Vec::new();
        let mut k: usize = 0;
        while k < order.len()
            invariant
                k <= order.len(),
                visible@.len() == k,
                forall|j: int| 0 <= j < order@.len() ==> #[trigger] order@[j] < shown_now@.len(),
                forall|j: int| 0 <= j < shown_now@.len() ==> #[trigger] shown_now@[j] < n,
                forall|j: int| 0 <= j < k ==> #[trigger] visible@[j] == shown_now@[order@[j] as int],
            decreases order.len() - k,
        {
            visible.push(shown_now[order[k]]);
            k += 1;
        }
        assert(visible@ =~= visible_order(c, f, self.sort_key, now));
        let current = match self.cursor {
            Some(at) => at,
            None => 0,
        };
        self.cursor = if visible.len() == 0 {
            None
        } else if current >= visible.len() {
            Some(visible.len() - 1)
        } else {
            Some(current)
        };
        self.visible_indices = visible;
    }

    /// The state in which the list starts: each target marked as recent or
    /// not, the targets that pass the filters shown largest first, those of
    /// them that are neither in use nor protected nor recent selected, and
    /// the cursor on the first.
    pub fn new(
        projects: Vec<ProjectInfo>,
        include_recent: bool,
        include_protected: bool,
        recent_days: i64,
        now: i64,
    ) -> (app: AppState)
        ensures
            app.wf(),
            app.projects@.len() == projects@.len(),
            forall|i: int|
                0 <= i < projects@.len() ==> (#[trigger] app.projects@[i])@ == (ProjectView {
                    recent: days_between(now as int, projects@[i].last_modified as int)
                        < recent_days,
                    ..projects@[i]@
                }),
            app.visible_indices@ == visible_order(
                views(app.projects@),
                app.filters(),
                SortKey::Size,
                now,
            ),
            forall|i: int|
                0 <= i < app.selected@.len() ==> #[trigger] app.selected@[i] == (
                app.visible_indices@.contains(i as usize) && selectable(
                    app.projects@[i]@,
                    recent_days,
                    now,
                )),
            app.cursor == (if app.visible_indices@.len() > 0 {
                Some(0usize)
            } else {
                None
            }),
            app.include_recent == include_recent,
            app.include_protected == include_protected,
            app.recent_days == recent_days,
            app.query@.len() == 0,
            app.category_filter is None,
            app.risk_filter is None,
            app.sort_key == SortKey::Size,
            !app.show_help,
    {
        let mut marked: Vec<ProjectInfo> = Vec::new();
        let mut selected: Vec<bool> = Vec::new();
        let mut i: usize = 0;
        while i < projects.len()
            invariant
                i <= projects.len(),
                marked@.len() == i,
                selected@.len() == i,
                forall|k: int| 0 <= k < i ==> !(#[trigger] selected@[k]),
                forall|k: int|
                    0 <= k < i ==> (#[trigger] marked@[k])@ == (ProjectView {
                        recent: days_between(now as int, projects@[k].last_modified as int)
                            < recent_days,
                        ..projects@[k]@
                    }),
            decreases projects.len() - i,
        {
            let mut p = projects[i].duplicate();
            p.recent = p.days_since_modified(now) < recent_days;
            marked.push(p);
            selected.push(false);
            i += 1;
        }
        let mut app = AppState {
            projects: marked,
            visible_indices: Vec::new(),
            selected,
            cursor: None,
            include_recent,
            include_protected,
            recent_days,
            query: String::new(),
            category_filter: None,
            risk_filter: None,
            sort_key: SortKey::Size,
            show_help: false,
        };
        app.recompute_visible(now);
        let ghost snap = app;
        let count = app.selected.len();
        let mut k: usize = 0;
        while k < app.visible_indices.len()
            invariant
                k <= app.visible_indices@.len(),
                app.wf(),
                app.selected@.len() == count,
                app == (AppState { selected: app.selected, ..snap }),
                forall|i: int| 0 <= i < app.selected@.len() && !app.visible_indices@.subrange(
                    0,
                    k as int,
                ).contains(i as usize) ==> !(#[trigger] app.selected@[i]),
                forall|i: int|
                    0 <= i < app.selected@.len() ==> #[trigger] app.selected@[i] == (
                    app.visible_indices@.subrange(0, k as int).contains(i as usize) && selectable(
                        app.projects@[i]@,
                        recent_days,
                        now,
                    )),
            decreases app.visible_indices.len() - k,
        {
            let idx = app.visible_indices[k];
            let ghost before = app.visible_indices@.subrange(0, k as int);
            let ghost after = app.visible_indices@.subrange(0, k + 1);
            let p = &app.projects[idx];
            let pick = !p.in_use && !p.protected && p.days_since_modified(now) >= recent_days;
            app.selected.set(idx, pick);
            assert(after == before.push(idx));
            assert forall|i: int| 0 <= i < app.selected@.len() implies #[trigger] app.selected@[i]
                == (after.contains(i as usize) && selectable(app.projects@[i]@, recent_days, now)) by {
                lemma_push_contains(before, idx, i as usize);
            }
            k += 1;
        }
        assert(app.visible_indices@.subrange(0, app.visible_indices@.len() as int)
            =~= app.visible_indices@);
        app
    }

    /// How many targets are selected.
    pub fn selected_count(&self) -> (n: usize)
        ensures
            n == count_selected(self.selected@, self.selected@.len() as int),
    {
        let mut n: usize = 0;
        let mut i: usize = 0;
        while i < self.selected.len()
            invariant
                i <= self.selected@.len(),
                n <= i,
                n == count_selected(self.selected@, i as int),
            decreases self.selected.len() - i,
        {
            if self.selected[i] {
                n += 1;
            }
            i += 1;
        }
        n
    }

    /// The sizes of the selected targets together.
    pub fn selected_size(&self) -> (total: u64)
        requires
            self.wf(),
        ensures
            total == selected_bytes(views(self.projects@), self.selected@, self.projects@.len() as int),
    {
        let ghost c = views(self.projects@);
        let mut total: u64 = 0;
        let mut i: usize = 0;
        while i < self.projects.len()
            invariant
                i <= self.projects@.len(),
                self.wf(),
                c == views(self.projects@),
                total == selected_bytes(c, self.selected@, i as int),
            decreases self.projects.len() - i,
        {
            assert(c[i as int] == self.projects@[i as int]@);
            if self.selected[i] {
                total = total.saturating_add(self.projects[i].size);
            }
            i += 1;
        }
        total
    }

    /// The sizes of the shown targets together.
    pub fn visible_total_size(&self) -> (total: u64)
        requires
            self.wf(),
        ensures
            total == visible_bytes(
                views(self.projects@),
                self.visible_indices@,
                self.visible_indices@.len() as int,
            ),
    {
        let ghost c = views(self.projects@);
        let mut total: u64 = 0;
        let mut k: usize = 0;
        while k < self.visible_indices.len()
            invariant
                k <= self.visible_indices@.len(),
                self.wf(),
                c == views(self.projects@),
                total == visible_bytes(c, self.visible_indices@, k as int),
            decreases self.visible_indices.len() - k,
        {
            let idx = self.visible_indices[k];
            assert(c[idx as int] == self.projects@[idx as int]@);
            total = total.saturating_add(self.projects[idx].size);
            k += 1;
        }
        total
    }

    /// Copies of the selected targets, in order.
    pub fn get_selected_projects(&self) -> (out: Vec<ProjectInfo>)
        requires
            self.wf(),
        ensures
            views(out@) == selected_views(
                views(self.projects@),
                self.selected@,
                self.projects@.len() as int,
            ),
    {
        let ghost c = views(self.projects@);
        let mut out: Vec<ProjectInfo> = Vec::new();
        let mut i: usize = 0;
        assert(views(out@) =~= selected_views(c, self.selected@, 0));
        while i < self.projects.len()
            invariant
                i <= self.projects@.len(),
                self.wf(),
                c == views(self.projects@),
                views(out@) == selected_views(c, self.selected@, i as int),
            decreases self.projects.len() - i,
        {
            assert(c[i as int] == self.projects@[i as int]@);
            if self.selected[i] {
                let ghost before = views(out@);
                out.push(self.projects[i].duplicate());
                assert(views(out@) =~= before.push(c[i as int]));
            }
            i += 1;
        }
        out
    }

    /// The position in `projects` of the target under the cursor, if the
    /// cursor stands on one.
    pub fn selected_project(&self) -> (at: Option<usize>)
        requires
            self.wf(),
        ensures
            at == under_cursor(self.cursor, self.visible_indices@),
            at matches Some(i) ==> i < self.projects@.len(),
    {
        match self.cursor {
            Some(c) => if c < self.visible_indices.len() {
                Some(self.visible_indices[c])
            } else {
                None
            },
            None => None,
        }
    }

    /// Moves the cursor one target down, from the last to the first.
    pub fn next(&mut self)
        ensures
            final(self).cursor == cursor_after_next(
                old(self).cursor,
                old(self).visible_indices@.len(),
            ),
            *final(self) == (AppState { cursor: final(self).cursor, ..*old(self) }),
    {
        self.cursor = match self.cursor {
            None => Some(0),
            Some(c) => if self.visible_indices.len() == 0 {
                None
            } else if c >= self.visible_indices.len() - 1 {
                Some(0)
            } else {
                Some(c + 1)
            },
        };
    }

    /// Moves the cursor one target up, from the first to the last.
    pub fn previous(&mut self)
        ensures
            final(self).cursor == cursor_after_previous(
                old(self).cursor,
                old(self).visible_indices@.len(),
            ),
            *final(self) == (AppState { cursor: final(self).cursor, ..*old(self) }),
    {
        self.cursor = match self.cursor {
            None => Some(0),
            Some(c) => if self.visible_indices.len() == 0 {
                None
            } else if c == 0 {
                Some(self.visible_indices.len() - 1)
            } else {
                Some(c - 1)
            },
        };
    }

    /// Selects the target under the cursor, or deselects it if it is selected.
    pub fn toggle_current_selection(&mut self)
        requires
            old(self).wf(),
        ensures
            final(self).wf(),
            final(self).selected@ == (match under_cursor(
                old(self).cursor,
                old(self).visible_indices@,
            ) {
                Some(i) => old(self).selected@.update(i as int, !old(self).selected@[i as int]),
                None => old(self).selected@,
            }),
            *final(self) == (AppState { selected: final(self).selected, ..*old(self) }),
    {
        if let Some(i) = self.selected_project() {
            let flipped = !self.selected[i];
            self.selected.set(i, flipped);
        }
    }

    /// Marks every shown target as selected or not: with `pick`, those that
    /// are selectable are selected and the others deselected; without it,
    /// all are deselected. Targets that are not shown keep their marks.
    fn mark_visible(&mut self, pick: bool, now: i64)
        requires
            old(self).wf(),
        ensures
            final(self).wf(),
            final(self).selected@.len() == old(self).selected@.len(),
            forall|i: int|
                0 <= i < old(self).selected@.len() ==> #[trigger] final(self).selected@[i] == (
                if old(self).visible_indices@.contains(i as usize) {
                    pick && selectable(old(self).projects@[i]@, old(self).recent_days, now)
                } else {
                    old(self).selected@[i]
                }),
            *final(self) == (AppState { selected: final(self).selected, ..*old(self) }),
    {
        let ghost start = self.selected@;
        let count = self.selected.len();
        let mut k: usize = 0;
        while k < self.visible_indices.len()
            invariant
                k <= self.visible_indices@.len(),
                self.wf(),
                start.len() == self.selected@.len(),
                start.len() == count,
                *self == (AppState { selected: self.selected, ..*old(self) }),
                forall|i: int|
                    0 <= i < start.len() ==> #[trigger] self.selected@[i] == (
                    if self.visible_indices@.subrange(0, k as int).contains(i as usize) {
                        pick && selectable(self.projects@[i]@, self.recent_days, now)
                    } else {
                        start[i]
                    }),
            decreases self.visible_indices.len() - k,
        {
            let idx = self.visible_indices[k];
            let ghost before = self.visible_indices@.subrange(0, k as int);
            let ghost after = self.visible_indices@.subrange(0, k + 1);
            let p = &self.projects[idx];
            let value = pick && !p.in_use && !p.protected && p.days_since_modified(now)
                >= self.recent_days;
            self.selected.set(idx, value);
            assert(after == before.push(idx));
            assert forall|i: int| 0 <= i < start.len() implies #[trigger] self.selected@[i] == (
            if after.contains(i as usize) {
                pick && selectable(self.projects@[i]@, self.recent_days, now)
            } else {
                start[i]
            }) by {
                lemma_push_contains(before, idx, i as usize);
            }
            k += 1;
        }
        assert(self.visible_indices@.subrange(0, self.visible_indices@.len() as int)
            =~= self.visible_indices@);
    }

    /// Selects every shown target that is selectable and deselects the
    /// other shown ones.
    pub fn select_all_visible(&mut self, now: i64)
        requires
            old(self).wf(),
        ensures
            final(self).wf(),
            final(self).selected@.len() == old(self).selected@.len(),
            forall|i: int|
                0 <= i < old(self).selected@.len() ==> #[trigger] final(self).selected@[i] == (
                if old(self).visible_indices@.contains(i as usize) {
                    selectable(old(self).projects@[i]@, old(self).recent_days, now)
                } else {
                    old(self).selected@[i]
                }),
            *final(self) == (AppState { selected: final(self).selected, ..*old(self) }),
    {
        self.mark_visible(true, now);
    }

    /// Deselects every shown target.
    pub fn deselect_all_visible(&mut self)
        requires
            old(self).wf(),
        ensures
            final(self).wf(),
            final(self).selected@.len() == old(self).selected@.len(),
            forall|i: int|
                0 <= i < old(self).selected@.len() ==> #[trigger] final(self).selected@[i] == (
                !old(self).visible_indices@.contains(i as usize) && old(self).selected@[i]),
            *final(self) == (AppState { selected: final(self).selected, ..*old(self) }),
    {
        self.mark_visible(false, 0);
    }

    /// Moves the category filter on and works out the shown targets anew.
    pub fn cycle_category(&mut self, now: i64)
        requires
            old(self).wf(),
        ensures
            final(self).wf(),
            final(self).category_filter == next_category(old(self).category_filter),
            recomputed(
                *old(self),
                *final(self),
                (Filters { category: next_category(old(self).category_filter), ..old(self).filters() }),
                old(self).sort_key,
                now,
            ),
    {
        self.category_filter = match self.category_filter {
            None => Some(Category::Cache),
            Some(Category::Cache) => Some(Category::Build),
            Some(Category::Build) => Some(Category::Deps),
            Some(Category::Deps) => None,
            Some(Category::Unknown) => None,
        };
        self.recompute_visible(now);
    }

    /// Moves the risk filter on and works out the shown targets anew.
    pub fn cycle_risk(&mut self, now: i64)
        requires
            old(self).wf(),
        ensures
            final(self).wf(),
            final(self).risk_filter == next_risk(old(self).risk_filter),
            recomputed(
                *old(self),
                *final(self),
                (Filters { risk: next_risk(old(self).risk_filter), ..old(self).filters() }),
                old(self).sort_key,
                now,
            ),
    {
        self.risk_filter = match self.risk_filter {
            None => Some(RiskLevel::Low),
            Some(RiskLevel::Low) => Some(RiskLevel::Medium),
            Some(RiskLevel::Medium) => Some(RiskLevel::High),
            Some(RiskLevel::High) => None,
        };
        self.recompute_visible(now);
    }

    /// Takes one key. While the help is shown, any key only closes it.
    /// Otherwise `q` and escape leave the list; the arrows and `j`, `k` move
    /// the cursor; space toggles the target under the cursor; `a` and `d`
    /// select and deselect what is shown; `c`, `r`, `s` move the category
    /// filter, the risk filter and the sort key on; `R` and `P` show or hide
    /// recent and protected targets; `?` and `h` show the help; enter asks
    /// for cleaning if anything is selected; backspace shortens the query
    /// and any other letter, digit or one of `/ . - _` is added to it.
    pub fn handle_key(&mut self, key: KeyInput, now: i64) -> (outcome: KeyOutcome)
        requires
            old(self).wf(),
        ensures
            final(self).wf(),
            key_relation(*old(self), *final(self), key, now),
            outcome == key_outcome(*old(self), key),
    {
        if self.show_help {
            self.show_help = false;
            return KeyOutcome::Continue;
        }
        match key {
            KeyInput::Esc => {
                return KeyOutcome::Quit;
            },
            KeyInput::Down => {
                self.next();
            },
            KeyInput::Up => {
                self.previous();
            },
            KeyInput::Enter => {
                if self.any_selected() {
                    return KeyOutcome::Clean;
                }
            },
            KeyInput::Backspace => {
                let v = to_chars(self.query.as_str());
                if v.len() > 0 {
                    self.query = slice_to_string(&v, 0, v.len() - 1);
                    assert(self.query@ =~= old(self).query@.drop_last());
                }
                self.recompute_visible(now);
            },
            KeyInput::Other => {},
            KeyInput::Char(c) => {
                if c == 'q' {
                    return KeyOutcome::Quit;
                } else if c == 'j' {
                    self.next();
                } else if c == 'k' {
                    self.previous();
                } else if c == ' ' {
                    self.toggle_current_selection();
                } else if c == 'a' {
                    self.select_all_visible(now);
                } else if c == 'd' {
                    self.deselect_all_visible();
                } else if c == 'c' {
                    self.cycle_category(now);
                } else if c == 'r' {
                    self.cycle_risk(now);
                } else if c == 's' {
                    self.sort_key = self.sort_key.next();
                    self.recompute_visible(now);
                } else if c == 'R' {
                    self.include_recent = !self.include_recent;
                    self.recompute_visible(now);
                } else if c == 'P' {
                    self.include_protected = !self.include_protected;
                    self.recompute_visible(now);
                } else if c == '?' || c == 'h' {
                    self.show_help = true;
                } else if ('a' <= c && c <= 'z') || ('A' <= c && c <= 'Z') || ('0' <= c && c <= '9')
                    || c == '/' || c == '.' || c == '-' || c == '_' {
                    crate::text::push_char(&mut self.query, c);
                    self.recompute_visible(now);
                }
            },
        }
        KeyOutcome::Continue
    }

    /// Whether any target is selected.
    pub fn any_selected(&self) -> (any: bool)
        ensures
            any == self.selected@.contains(true),
    {
        let mut i: usize = 0;
        while i < self.selected.len()
            invariant
                i <= self.selected@.len(),
                forall|k: int| 0 <= k < i ==> !self.selected@[k],
            decreases self.selected.len() - i,
        {
            if self.selected[i] {
                return true;
            }
            i += 1;
        }
        false
    }
}

/// A list with one more item holds what the list held, and the item.
pub proof fn lemma_push_contains(s: Seq<usize>, v: usize, x: usize)
    ensures
        s.push(v).contains(x) <==> (s.contains(x) || x == v),
{
    if s.contains(x) {
        let j = choose|j: int| 0 <= j < s.len() && s[j] == x;
        assert(s.push(v)[j] == x);
    }
    if x == v {
        assert(s.push(v)[s.len() as int] == x);
    }
    if s.push(v).contains(x) {
        let j = choose|j: int| 0 <= j < s.push(v).len() && s.push(v)[j] == x;
        if j < s.len() {
            assert(s[j] == x);
        }
    }
}

/// Whether the state `n` is the state `o` with the shown targets worked out
/// anew under the filters `f` and the sort key `k`.
pub open spec fn recomputed(o: AppState, n: AppState, f: Filters, k: SortKey, now: i64) -> bool {
    &&& n.visible_indices@ == visible_order(views(o.projects@), f, k, now)
    &&& n.cursor == settled_cursor(o.cursor, n.visible_indices@.len())
    &&& n.projects == o.projects
    &&& n.selected == o.selected
    &&& n.filters() == f
    &&& n.sort_key == k
    &&& n.recent_days == o.recent_days
    &&& n.show_help == o.show_help
}

/// Whether the state `n` is the state `o` but for the marks of selection,
/// which are `marks`.
pub open spec fn reselected(o: AppState, n: AppState) -> bool {
    n == (AppState { selected: n.selected, ..o })
}

/// What a command letter does to the state.
pub open spec fn letter_relation(o: AppState, n: AppState, c: char, now: i64) -> bool {
    if c == 'q' {
        n == o
    } else if c == 'j' {
        n == (AppState { cursor: cursor_after_next(o.cursor, o.visible_indices@.len()), ..o })
    } else if c == 'k' {
        n == (AppState { cursor: cursor_after_previous(o.cursor, o.visible_indices@.len()), ..o })
    } else if c == ' ' {
        reselected(o, n) && n.selected@ == (match under_cursor(o.cursor, o.visible_indices@) {
            Some(i) => o.selected@.update(i as int, !o.selected@[i as int]),
            None => o.selected@,
        })
    } else if c == 'a' {
        reselected(o, n) && n.selected@.len() == o.selected@.len() && forall|i: int|
            0 <= i < o.selected@.len() ==> #[trigger] n.selected@[i] == (
            if o.visible_indices@.contains(i as usize) {
                selectable(o.projects@[i]@, o.recent_days, now)
            } else {
                o.selected@[i]
            })
    } else if c == 'd' {
        reselected(o, n) && n.selected@.len() == o.selected@.len() && forall|i: int|
            0 <= i < o.selected@.len() ==> #[trigger] n.selected@[i] == (
            !o.visible_indices@.contains(i as usize) && o.selected@[i])
    } else if c == 'c' {
        recomputed(
            o,
            n,
            Filters { category: next_category(o.category_filter), ..o.filters() },
            o.sort_key,
            now,
        )
    } else if c == 'r' {
        recomputed(o, n, Filters { risk: next_risk(o.risk_filter), ..o.filters() }, o.sort_key, now)
    } else if c == 's' {
        recomputed(o, n, o.filters(), next_sort(o.sort_key), now)
    } else if c == 'R' {
        recomputed(
            o,
            n,
            Filters { include_recent: !o.include_recent, ..o.filters() },
            o.sort_key,
            now,
        )
    } else if c == 'P' {
        recomputed(
            o,
            n,
            Filters { include_protected: !o.include_protected, ..o.filters() },
            o.sort_key,
            now,
        )
    } else if c == '?' || c == 'h' {
        n == (AppState { show_help: true, ..o })
    } else if query_char(c) {
        recomputed(o, n, Filters { query: o.query@.push(c), ..o.filters() }, o.sort_key, now)
    } else {
        n == o
    }
}

/// What a key does to the state. While the help is shown, any key closes
/// it and does nothing else.
pub open spec fn key_relation(o: AppState, n: AppState, key: KeyInput, now: i64) -> bool {
    if o.show_help {
        n == (AppState { show_help: false, ..o })
    } else {
        match key {
            KeyInput::Esc => n == o,
            KeyInput::Enter => n == o,
            KeyInput::Other => n == o,
            KeyInput::Down => n == (AppState {
                cursor: cursor_after_next(o.cursor, o.visible_indices@.len()),
                ..o
            }),
            KeyInput::Up => n == (AppState {
                cursor: cursor_after_previous(o.cursor, o.visible_indices@.len()),
                ..o
            }),
            KeyInput::Backspace => recomputed(
                o,
                n,
                Filters {
                    query: if o.query@.len() > 0 {
                        o.query@.drop_last()
                    } else {
                        o.query@
                    },
                    ..o.filters()
                },
                o.sort_key,
                now,
            ),
            KeyInput::Char(c) => letter_relation(o, n, c, now),
        }
    }
}

/// What follows from a key: the list is left on `q` or escape, cleaning
/// is asked for on enter if anything is selected, and the list goes on
/// otherwise; while the help is shown it always goes on.
pub open spec fn key_outcome(o: AppState, key: KeyInput) -> KeyOutcome {
    if o.show_help {
        KeyOutcome::Continue
    } else if key == KeyInput::Esc || key == KeyInput::Char('q') {
        KeyOutcome::Quit
    } else if key == KeyInput::Enter && o.selected@.contains(true) {
        KeyOutcome::Clean
    } else {
        KeyOutcome::Continue
    }
}

/// The position of the target under the cursor, if the cursor stands on one.
pub open spec fn under_cursor(cursor: Option<usize>, visible: Seq<usize>) -> Option<usize> {
    match cursor {
        Some(c) => if c < visible.len() {
            Some(visible[c as int])
        } else {
            None
        },
        None => None,
    }
}

/// How many of the first `n` marks are set.
pub open spec fn count_selected(selected: Seq<bool>, n: int) -> nat
    decreases n,
{
    if n <= 0 {
        0
    } else {
        count_selected(selected, n - 1) + (if selected[n - 1] {
            1nat
        } else {
            0nat
        })
    }
}

/// The sizes of the selected ones among the first `n` targets together.
pub open spec fn selected_bytes(c: Seq<ProjectView>, selected: Seq<bool>, n: int) -> u64
    decreases n,
{
    if n <= 0 {
        0
    } else {
        let before = selected_bytes(c, selected, n - 1);
        if selected[n - 1] {
            plus_bytes(before, c[n - 1].size)
        } else {
            before
        }
    }
}

/// The sizes of the first `n` shown targets together.
pub open spec fn visible_bytes(c: Seq<ProjectView>, visible: Seq<usize>, n: int) -> u64
    decreases n,
{
    if n <= 0 {
        0
    } else {
        plus_bytes(visible_bytes(c, visible, n - 1), c[visible[n - 1] as int].size)
    }
}

/// The selected ones among the first `n` targets, in order.
pub open spec fn selected_views(c: Seq<ProjectView>, selected: Seq<bool>, n: int) -> Seq<
    ProjectView,
>
    decreases n,
{
    if n <= 0 {
        seq![]
    } else {
        let prev = selected_views(c, selected, n - 1);
        if selected[n - 1] {
            prev.push(c[n - 1])
        } else {
            prev
        }
    }
}

} // verus!
