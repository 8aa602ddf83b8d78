use crate::config::{megabytes, megabytes_to_bytes, Config};
use crate::order::{falling_order, positions, sort_falling, Key};
use crate::text::{
    chars_contain, chars_eq_str, copy_opt_string, copy_string, decimal, opt_string_less,
    opt_text, opt_text_lt, push_char, push_decimal, to_chars,
};
use vstd::prelude::*;
use vstd::string::*;

verus! {

/// One line of the audit log.
#[derive(Debug)]
pub enum AuditRecord {
    RunStarted { run_id: String, command: String, ts: String },
    ItemAction {
        run_id: String,
        command: String,
        path: String,
        action: String,
        result: String,
        bytes: u64,
        reason: Option<String>,
        ts: String,
    },
    RunFinished {
        run_id: String,
        command: String,
        ts: String,
        cleaned: usize,
        skipped: usize,
        failed: usize,
        freed_bytes: u64,
    },
}

/// The mathematical content of an `AuditRecord`.
pub enum AuditRecordView {
    RunStarted { run_id: Seq<char>, command: Seq<char>, ts: Seq<char> },
    ItemAction {
        run_id: Seq<char>,
        command: Seq<char>,
        path: Seq<char>,
        action: Seq<char>,
        result: Seq<char>,
        bytes: u64,
        reason: Option<Seq<char>>,
        ts: Seq<char>,
    },
    RunFinished {
        run_id: Seq<char>,
        command: Seq<char>,
        ts: Seq<char>,
        cleaned: usize,
        skipped: usize,
        failed: usize,
        freed_bytes: u64,
    },
}

impl View for AuditRecord {
    type V = AuditRecordView;

    open spec fn view(&self) -> AuditRecordView {
        match self {
            AuditRecord::RunStarted { run_id, command, ts } => AuditRecordView::RunStarted {
                run_id: run_id@,
                command: command@,
                ts: ts@,
            },
            AuditRecord::ItemAction {
                run_id,
                command,
                path,
                action,
                result,
                bytes,
                reason,
                ts,
            } => AuditRecordView::ItemAction {
                run_id: run_id@,
                command: command@,
                path: path@,
                action: action@,
                result: result@,
                bytes: *bytes,
                reason: opt_text(*reason),
                ts: ts@,
            },
            AuditRecord::RunFinished {
                run_id,
                command,
                ts,
                cleaned,
                skipped,
                failed,
                freed_bytes,
            } => AuditRecordView::RunFinished {
                run_id: run_id@,
                command: command@,
                ts: ts@,
                cleaned: *cleaned,
                skipped: *skipped,
                failed: *failed,
                freed_bytes: *freed_bytes,
            },
        }
    }
}

/// The run that a record belongs to.
pub open spec fn run_of(r: AuditRecordView) -> Seq<char> {
    match r {
        AuditRecordView::RunStarted { run_id, .. } => run_id,
        AuditRecordView::ItemAction { run_id, .. } => run_id,
        AuditRecordView::RunFinished { run_id, .. } => run_id,
    }
}

impl AuditRecord {
    /// An owned copy of the record.
    pub fn duplicate(&self) -> (r: AuditRecord)
        ensures
            r@ == self@,
    {
        match self {
            AuditRecord::RunStarted { run_id, command, ts } => AuditRecord::RunStarted {
                run_id: copy_string(run_id),
                command: copy_string(command),
                ts: copy_string(ts),
            },
            AuditRecord::ItemAction {
                run_id,
                command,
                path,
                action,
                result,
                bytes,
                reason,
                ts,
            } => AuditRecord::ItemAction {
                run_id: copy_string(run_id),
                command: copy_string(command),
                path: copy_string(path),
                action: copy_string(action),
                result: copy_string(result),
                bytes: *bytes,
                reason: copy_opt_string(reason),
                ts: copy_string(ts),
            },
            AuditRecord::RunFinished {
                run_id,
                command,
                ts,
                cleaned,
                skipped,
                failed,
                freed_bytes,
            } => AuditRecord::RunFinished {
                run_id: copy_string(run_id),
                command: copy_string(command),
                ts: copy_string(ts),
                cleaned: *cleaned,
                skipped: *skipped,
                failed: *failed,
                freed_bytes: *freed_bytes,
            },
        }
    }

    /// The identifier of the run that the record belongs to.
    pub fn run_id(&self) -> (id: &String)
        ensures
            id@ == run_of(self@),
    {
        match self {
            AuditRecord::RunStarted { run_id, .. } => run_id,
            AuditRecord::ItemAction { run_id, .. } => run_id,
            AuditRecord::RunFinished { run_id, .. } => run_id,
        }
    }
}

/// What the log says of one run.
#[derive(Debug)]
pub struct AuditRunSummary {
    pub run_id: String,
    pub command: String,
    pub started_at: Option<String>,
    pub finished_at: Option<String>,
    pub cleaned: usize,
    pub skipped: usize,
    pub failed: usize,
    pub freed_bytes: u64,
}

/// The mathematical content of an `AuditRunSummary`.
pub struct RunView {
    pub run_id: Seq<char>,
    pub command: Seq<char>,
    pub started_at: Option<Seq<char>>,
    pub finished_at: Option<Seq<char>>,
    pub cleaned: usize,
    pub skipped: usize,
    pub failed: usize,
    pub freed_bytes: u64,
}

impl View for AuditRunSummary {
    type V = RunView;

    open spec fn view(&self) -> RunView {
        RunView {
            run_id: self.run_id@,
            command: self.command@,
            started_at: opt_text(self.started_at),
            finished_at: opt_text(self.finished_at),
            cleaned: self.cleaned,
            skipped: self.skipped,
            failed: self.failed,
            freed_bytes: self.freed_bytes,
        }
    }
}

impl AuditRunSummary {
    /// An owned copy of the summary.
    pub fn duplicate(&self) -> (r: AuditRunSummary)
        ensures
            r@ == self@,
    {
        AuditRunSummary {
            run_id: copy_string(&self.run_id),
            command: copy_string(&self.command),
            started_at: copy_opt_string(&self.started_at),
            finished_at: copy_opt_string(&self.finished_at),
            cleaned: self.cleaned,
            skipped: self.skipped,
            failed: self.failed,
            freed_bytes: self.freed_bytes,
        }
    }
}

/// The contents of a list of records, in order.
pub open spec fn record_views(v: Seq<AuditRecord>) -> Seq<AuditRecordView> {
    Seq::new(v.len(), |i: int| v[i]@)
}

/// The contents of a list of summaries, in order.
pub open spec fn run_views(v: Seq<AuditRunSummary>) -> Seq<RunView> {
    Seq::new(v.len(), |i: int| v[i]@)
}

/// The records among the first `n` that belong to the run `run_id`, in order.
pub open spec fn records_of_run(records: Seq<AuditRecordView>, run_id: Seq<char>, n: int) -> Seq<
    AuditRecordView,
>
    decreases n,
{
    if n <= 0 {
        seq![]
    } else {
        let prev = records_of_run(records, run_id, n - 1);
        if run_of(records[n - 1]) == run_id {
            prev.push(records[n - 1])
        } else {
            prev
        }
    }
}

/// The position at or after `from` of the summary of the run `run_id`, or
/// the length of the list where there is none.
pub open spec fn find_run(runs: Seq<RunView>, run_id: Seq<char>, from: int) -> int
    decreases runs.len() - from,
{
    if from < 0 || from >= runs.len() {
        runs.len() as int
    } else if runs[from].run_id == run_id {
        from
    } else {
        find_run(runs, run_id, from + 1)
    }
}

/// The summary with which a run enters the list.
pub open spec fn fresh_run(run_id: Seq<char>, command: Seq<char>) -> RunView {
    RunView {
        run_id,
        command,
        started_at: None,
        finished_at: None,
        cleaned: 0,
        skipped: 0,
        failed: 0,
        freed_bytes: 0,
    }
}

/// A summary with what one record adds to it.
pub open spec fn absorbed(run: RunView, r: AuditRecordView) -> RunView {
    match r {
        AuditRecordView::RunStarted { ts, .. } => RunView { started_at: Some(ts), ..run },
        AuditRecordView::RunFinished { ts, cleaned, skipped, failed, freed_bytes, .. } => RunView {
            finished_at: Some(ts),
            cleaned,
            skipped,
            failed,
            freed_bytes,
            ..run
        },
        AuditRecordView::ItemAction { .. } => run,
    }
}

/// The command that a record names.
pub open spec fn command_of(r: AuditRecordView) -> Seq<char> {
    match r {
        AuditRecordView::RunStarted { command, .. } => command,
        AuditRecordView::ItemAction { command, .. } => command,
        AuditRecordView::RunFinished { command, .. } => command,
    }
}

/// The summaries of the runs that the first `n` records start or finish, in
/// the order in which the runs first appear. A run takes its command from
/// its first such record.
pub open spec fn runs_upto(records: Seq<AuditRecordView>, n: int) -> Seq<RunView>
    decreases n,
{
    if n <= 0 {
        seq![]
    } else {
        let prev = runs_upto(records, n - 1);
        let r = records[n - 1];
        if r is ItemAction {
            prev
        } else {
            let at = find_run(prev, run_of(r), 0);
            if 0 <= at < prev.len() {
                prev.update(at, absorbed(prev[at], r))
            } else {
                prev.push(absorbed(fresh_run(run_of(r), command_of(r)), r))
            }
        }
    }
}

/// How many of the first `n` runs started strictly before the run `i`, a run
/// without a start counting as the earliest.
pub open spec fn start_rank(runs: Seq<RunView>, i: int, n: int) -> nat
    decreases n,
{
    if n <= 0 {
        0
    } else {
        start_rank(runs, i, n - 1) + (if opt_text_lt(runs[n - 1].started_at, runs[i].started_at) {
            1nat
        } else {
            0nat
        })
    }
}

/// The sort keys that order runs by their start.
pub open spec fn start_keys(runs: Seq<RunView>) -> Seq<Key> {
    Seq::new(
        runs.len(),
        |i: int| Key { a: start_rank(runs, i, runs.len() as int) as i128, b: 0, c: 0 },
    )
}

/// The runs in the order that `order` lists their positions.
pub open spec fn arranged_runs(runs: Seq<RunView>, order: Seq<int>) -> Seq<RunView> {
    Seq::new(order.len(), |k: int| runs[order[k]])
}

/// The runs of a log, latest start first; runs with one and the same start
/// in the order in which they first appear.
pub open spec fn listed_runs(records: Seq<AuditRecordView>) -> Seq<RunView> {
    let runs = runs_upto(records, records.len() as int);
    arranged_runs(runs, falling_order(start_keys(runs)))
}

/// A text with every double quote doubled, from position `from` on.
pub open spec fn quotes_doubled(s: Seq<char>, from: int) -> Seq<char>
    decreases s.len() - from,
{
    if from < 0 || from >= s.len() {
        seq![]
    } else if s[from] == '"' {
        seq!['"', '"'] + quotes_doubled(s, from + 1)
    } else {
        seq![s[from]] + quotes_doubled(s, from + 1)
    }
}

/// A field as it stands in a CSV line: put in double quotes, with its own
/// double quotes doubled, if it holds a comma, a double quote or a line
/// break; as it is otherwise.
pub open spec fn csv_escaped(s: Seq<char>) -> Seq<char> {
    if s.contains(',') || s.contains('"') || s.contains('\n') {
        seq!['"'] + quotes_doubled(s, 0) + seq!['"']
    } else {
        s
    }
}

/// The first line of a CSV export.
pub open spec fn csv_header() -> Seq<char> {
    "type,run_id,command,ts,path,action,result,bytes,reason,cleaned,skipped,failed,freed_bytes\n"@
}

/// The text of an optional field.
pub open spec fn or_empty(s: Option<Seq<char>>) -> Seq<char> {
    match s {
        Some(t) => t,
        None => seq![],
    }
}

/// The text `acc` with one more field and the comma after it.
pub open spec fn with_field(acc: Seq<char>, field: Seq<char>) -> Seq<char> {
    (acc + field).push(',')
}

/// The text `acc` with the CSV line of a record added.
pub open spec fn csv_line_onto(acc: Seq<char>, r: AuditRecordView) -> Seq<char> {
    match r {
        AuditRecordView::RunStarted { run_id, command, ts } => {
            let a = with_field(acc + "run_started,"@, csv_escaped(run_id));
            let b = with_field(a, csv_escaped(command));
            b + csv_escaped(ts) + ",,,,,,,,\n"@
        },
        AuditRecordView::ItemAction { run_id, command, path, action, result, bytes, reason, ts } => {
            let a = with_field(acc + "item_action,"@, csv_escaped(run_id));
            let b = with_field(a, csv_escaped(command));
            let c = with_field(b, csv_escaped(ts));
            let d = with_field(c, csv_escaped(path));
            let e = with_field(d, csv_escaped(action));
            let f = with_field(e, csv_escaped(result));
            let g = with_field(f, decimal(bytes as nat));
            g + csv_escaped(or_empty(reason)) + ",,,,\n"@
        },
        AuditRecordView::RunFinished {
            run_id,
            command,
            ts,
            cleaned,
            skipped,
            failed,
            freed_bytes,
        } => {
            let a = with_field(acc + "run_finished,"@, csv_escaped(run_id));
            let b = with_field(a, csv_escaped(command));
            let c = b + csv_escaped(ts) + ",,,,,,,"@;
            let d = with_field(c, decimal(cleaned as nat));
            let e = with_field(d, decimal(skipped as nat));
            let f = with_field(e, decimal(failed as nat));
            (f + decimal(freed_bytes as nat)).push('\n')
        },
    }
}

/// The CSV line of a record.
pub open spec fn csv_line(r: AuditRecordView) -> Seq<char> {
    csv_line_onto(seq![], r)
}

/// The CSV export of the first `n` records: the header, then the line of
/// each record in order.
pub open spec fn csv_text(records: Seq<AuditRecordView>, n: int) -> Seq<char>
    decreases n,
{
    if n <= 0 {
        csv_header()
    } else {
        csv_line_onto(csv_text(records, n - 1), records[n - 1])
    }
}

/// The identifier of a run begun at the moment `stamp` (a date and time in
/// digits), `nanos` nanoseconds after the epoch, by the process `pid`.
pub open spec fn run_id_text(stamp: Seq<char>, nanos: u128, pid: u32) -> Seq<char> {
    stamp + seq!['-'] + decimal(nanos as nat) + seq!['-'] + decimal(pid as nat)
}

/// The identifier of a run begun at the moment `stamp`, `nanos` nanoseconds
/// after the epoch, by the process `pid`.
pub fn generate_run_id(stamp: &str, nanos: u128, pid: u32) -> (id: String)
    ensures
        id@ == run_id_text(stamp@, nanos, pid),
{
    let mut id = stamp.to_owned();
    push_char(&mut id, '-');
    push_decimal(&mut id, nanos);
    push_char(&mut id, '-');
    push_decimal(&mut id, pid as u128);
    id
}

/// Appends to `out` the text `s` with every double quote doubled.
fn push_doubled(out: &mut String, s: &Vec<char>)
    ensures
        final(out)@ == old(out)@ + quotes_doubled(s@, 0),
{
    let ghost goal = out@ + quotes_doubled(s@, 0);
    let mut k: usize = 0;
    while k < s.len()
        invariant
            k <= s.len(),
            goal == out@ + quotes_doubled(s@, k as int),
        decreases s.len() - k,
    {
        let ghost before = out@;
        let ghost rest = quotes_doubled(s@, k + 1);
        if s[k] == '"' {
            push_char(out, '"');
            push_char(out, '"');
            assert(before + (seq!['"', '"'] + rest) =~= out@ + rest);
        } else {
            push_char(out, s[k]);
            assert(before + (seq![s@[k as int]] + rest) =~= out@ + rest);
        }
        k += 1;
    }
    assert(out@ + quotes_doubled(s@, s@.len() as int) =~= out@);
}

/// Appends to `out` the field `input` as it stands in a CSV line.
fn push_escaped(out: &mut String, input: &str)
    ensures
        final(out)@ == old(out)@ + csv_escaped(input@),
{
    let v = to_chars(input);
    if chars_contain(&v, ',') || chars_contain(&v, '"') || chars_contain(&v, '\n') {
        let ghost start = out@;
        push_char(out, '"');
        push_doubled(out, &v);
        push_char(out, '"');
        assert(out@ =~= start + csv_escaped(input@));
    } else {
        out.append(input);
    }
}

/// A field as it stands in a CSV line.
pub fn csv_escape(input: &str) -> (field: String)
    ensures
        field@ == csv_escaped(input@),
{
    let mut out = String::new();
    push_escaped(&mut out, input);
    assert(Seq::<char>::empty() + csv_escaped(input@) =~= csv_escaped(input@));
    out
}

/// Appends to `out` the CSV line of a record.
fn push_line(out: &mut String, record: &AuditRecord)
    ensures
        final(out)@ == csv_line_onto(old(out)@, record@),
{
    match record {
        AuditRecord::RunStarted { run_id, command, ts } => {
            out.append("run_started,");
            push_escaped(out, run_id.as_str());
            push_char(out, ',');
            push_escaped(out, command.as_str());
            push_char(out, ',');
            push_escaped(out, ts.as_str());
            out.append(",,,,,,,,\n");
        },
        AuditRecord::ItemAction { run_id, command, path, action, result, bytes, reason, ts } => {
            out.append("item_action,");
            push_escaped(out, run_id.as_str());
            push_char(out, ',');
            push_escaped(out, command.as_str());
            push_char(out, ',');
            push_escaped(out, ts.as_str());
            push_char(out, ',');
            push_escaped(out, path.as_str());
            push_char(out, ',');
            push_escaped(out, action.as_str());
            push_char(out, ',');
            push_escaped(out, result.as_str());
            push_char(out, ',');
            push_decimal(out, *bytes as u128);
            push_char(out, ',');
            match reason {
                Some(text) => {
                    push_escaped(out, text.as_str());
                },
                None => {
                    let empty = String::new();
                    push_escaped(out, empty.as_str());
                },
            }
            out.append(",,,,\n");
        },
        AuditRecord::RunFinished {
            run_id,
            command,
            ts,
            cleaned,
            skipped,
            failed,
            freed_bytes,
        } => {
            out.append("run_finished,");
            push_escaped(out, run_id.as_str());
            push_char(out, ',');
            push_escaped(out, command.as_str());
            push_char(out, ',');
            push_escaped(out, ts.as_str());
            out.append(",,,,,,,");
            push_decimal(out, *cleaned as u128);
            push_char(out, ',');
            push_decimal(out, *skipped as u128);
            push_char(out, ',');
            push_decimal(out, *failed as u128);
            push_char(out, ',');
            push_decimal(out, *freed_bytes as u128);
            push_char(out, '\n');
        },
    }
}

/// Writes records of operations to a log file and reads them back.
#[derive(Debug)]
pub struct AuditLogger {
    path: String,
    enabled: bool,
    max_size_bytes: u64,
}

impl AuditLogger {
    /// Where the log is kept.
    pub closed spec fn path_text(&self) -> Seq<char> {
        self.path@
    }

    /// Whether records are written at all.
    pub closed spec fn is_enabled(&self) -> bool {
        self.enabled
    }

    /// The size in bytes above which the log is rotated; zero for never.
    pub closed spec fn rotate_above(&self) -> u64 {
        self.max_size_bytes
    }

    /// The logger that the configuration asks for; the log is kept at
    /// `default_path` where the configuration names no other place.
    pub fn from_config(config: &Config, default_path: String) -> (logger: AuditLogger)
        ensures
            logger.path_text() == (match config.audit.path {
                Some(p) => p@,
                None => default_path@,
            }),
            logger.is_enabled() == config.audit.enabled,
            logger.rotate_above() == megabytes(config.audit.max_size_mb),
    {
        let path = match &config.audit.path {
            Some(p) => copy_string(p),
            None => default_path,
        };
        AuditLogger {
            path,
            enabled: config.audit.enabled,
            max_size_bytes: megabytes_to_bytes(config.audit.max_size_mb),
        }
    }

    /// A logger that keeps its log at `path`.
    pub fn new(path: String, enabled: bool, max_size_bytes: u64) -> (logger: AuditLogger)
        ensures
            logger.path_text() == path@,
            logger.is_enabled() == enabled,
            logger.rotate_above() == max_size_bytes,
    {
        AuditLogger { path, enabled, max_size_bytes }
    }

    /// Where the log is kept.
    pub fn path(&self) -> (p: &str)
        ensures
            p@ == self.path_text(),
    {
        self.path.as_str()
    }

    /// Whether records are written at all.
    pub fn enabled(&self) -> (e: bool)
        ensures
            e == self.is_enabled(),
    {
        self.enabled
    }

    /// Whether the log must be rotated before the next record is written:
    /// rotation is on, the log exists, and it is larger than the limit.
    /// `existing_len` is the size of the log, if there is one.
    pub fn rotate_if_needed(&self, existing_len: Option<u64>) -> (rotate: bool)
        ensures
            rotate == (self.rotate_above() != 0 && existing_len is Some && existing_len->0
                > self.rotate_above()),
    {
        match existing_len {
            Some(len) => self.max_size_bytes != 0 && len > self.max_size_bytes,
            None => false,
        }
    }

    /// The record that opens the run `run_id` of `command` at time `ts`.
    pub fn start_run(run_id: &str, command: &str, ts: &str) -> (r: AuditRecord)
        ensures
            r@ == (AuditRecordView::RunStarted { run_id: run_id@, command: command@, ts: ts@ }),
    {
        AuditRecord::RunStarted {
            run_id: run_id.to_owned(),
            command: command.to_owned(),
            ts: ts.to_owned(),
        }
    }

    /// The record of what was done to one path.
    pub fn log_item(
        run_id: &str,
        command: &str,
        path: &str,
        action: &str,
        result: &str,
        bytes: u64,
        reason: Option<String>,
        ts: &str,
    ) -> (r: AuditRecord)
        ensures
            r@ == (AuditRecordView::ItemAction {
                run_id: run_id@,
                command: command@,
                path: path@,
                action: action@,
                result: result@,
                bytes,
                reason: opt_text(reason),
                ts: ts@,
            }),
    {
        AuditRecord::ItemAction {
            run_id: run_id.to_owned(),
            command: command.to_owned(),
            path: path.to_owned(),
            action: action.to_owned(),
            result: result.to_owned(),
            bytes,
            reason,
            ts: ts.to_owned(),
        }
    }

    /// The record that closes a run with its totals.
    pub fn finish_run(
        run_id: &str,
        command: &str,
        ts: &str,
        cleaned: usize,
        skipped: usize,
        failed: usize,
        freed_bytes: u64,
    ) -> (r: AuditRecord)
        ensures
            r@ == (AuditRecordView::RunFinished {
                run_id: run_id@,
                command: command@,
                ts: ts@,
                cleaned,
                skipped,
                failed,
                freed_bytes,
            }),
    {
        AuditRecord::RunFinished {
            run_id: run_id.to_owned(),
            command: command.to_owned(),
            ts: ts.to_owned(),
            cleaned,
            skipped,
            failed,
            freed_bytes,
        }
    }

    /// The records that belong to the run `run_id`, in order.
    pub fn records_for_run(records: &Vec<AuditRecord>, run_id: &str) -> (out: Vec<AuditRecord>)
        ensures
            record_views(out@) == records_of_run(
                record_views(records@),
                run_id@,
                records@.len() as int,
            ),
    {
        let wanted = to_chars(run_id);
        let ghost all = record_views(records@);
        let mut out: Vec<AuditRecord> = Vec::new();
        let mut i: usize = 0;
        assert(record_views(out@) =~= records_of_run(all, run_id@, 0));
        while i < records.len()
            invariant
                i <= records.len(),
                wanted@ == run_id@,
                all == record_views(records@),
                record_views(out@) == records_of_run(all, run_id@, i as int),
            decreases records.len() - i,
        {
            assert(all[i as int] == records@[i as int]@);
            if chars_eq_str(&wanted, records[i].run_id().as_str()) {
                let ghost before = record_views(out@);
                out.push(records[i].duplicate());
                assert(record_views(out@) =~= before.push(all[i as int]));
            }
            i += 1;
        }
        out
    }

    /// The runs of a log, latest start first.
    pub fn list_runs(records: &Vec<AuditRecord>) -> (out: Vec<AuditRunSummary>)
        ensures
            run_views(out@) == listed_runs(record_views(records@)),
    {
        let ghost all = record_views(records@);
        let mut runs: Vec<AuditRunSummary> = Vec::new();
        let mut i: usize = 0;
        assert(run_views(runs@) =~= runs_upto(all, 0));
        while i < records.len()
            invariant
                i <= records.len(),
                all == record_views(records@),
                run_views(runs@) == runs_upto(all, i as int),
            decreases records.len() - i,
        {
            let record = &records[i];
            assert(all[i as int] == record@);
            let ghost prev = run_views(runs@);
            match record {
                AuditRecord::ItemAction { .. } => {},
                AuditRecord::RunStarted { run_id, command, ts } => {
                    let at = position_of_run(&runs, run_id.as_str());
                    let mut summary = if at < runs.len() {
                        runs[at].duplicate()
                    } else {
                        new_summary(run_id, command)
                    };
                    summary.started_at = Some(copy_string(ts));
                    if at < runs.len() {
                        runs.set(at, summary);
                        assert(run_views(runs@) =~= prev.update(
                            at as int,
                            absorbed(prev[at as int], record@),
                        ));
                    } else {
                        runs.push(summary);
                        assert(run_views(runs@) =~= prev.push(
                            absorbed(fresh_run(run_id@, command@), record@),
                        ));
                    }
                },
                AuditRecord::RunFinished {
                    run_id,
                    command,
                    ts,
                    cleaned,
                    skipped,
                    failed,
                    freed_bytes,
                } => {
                    let at = position_of_run(&runs, run_id.as_str());
                    let mut summary = if at < runs.len() {
                        runs[at].duplicate()
                    } else {
                        new_summary(run_id, command)
                    };
                    summary.finished_at = Some(copy_string(ts));
                    summary.cleaned = *cleaned;
                    summary.skipped = *skipped;
                    summary.failed = *failed;
                    summary.freed_bytes = *freed_bytes;
                    if at < runs.len() {
                        runs.set(at, summary);
                        assert(run_views(runs@) =~= prev.update(
                            at as int,
                            absorbed(prev[at as int], record@),
                        ));
                    } else {
                        runs.push(summary);
                        assert(run_views(runs@) =~= prev.push(
                            absorbed(fresh_run(run_id@, command@), record@),
                        ));
                    }
                },
            }
            i += 1;
        }
        let ghost rv = run_views(runs@);
        let mut keys: Vec<Key> = Vec::new();
        let mut a: usize = 0;
        while a < runs.len()
            invariant
                a <= runs.len(),
                rv == run_views(runs@),
                keys@.len() == a,
                forall|k: int|
                    0 <= k < a ==> #[trigger] keys@[k] == (Key {
                        a: start_rank(rv, k, rv.len() as int) as i128,
                        b: 0,
                        c: 0,
                    }),
            decreases runs.len() - a,
        {
            let mut rank: usize = 0;
            let mut b: usize = 0;
            while b < runs.len()
                invariant
                    b <= runs.len(),
                    a < runs.len(),
                    rv == run_views(runs@),
                    rank <= b,
                    rank == start_rank(rv, a as int, b as int),
                decreases runs.len() - b,
            {
                assert(rv[b as int] == runs@[b as int]@);
                assert(rv[a as int] == runs@[a as int]@);
                if opt_string_less(&runs[b].started_at, &runs[a].started_at) {
                    rank += 1;
                }
                b += 1;
            }
            keys.push(Key { a: rank as i128, b: 0, c: 0 });
            a += 1;
        }
        assert(keys@ =~= start_keys(rv));
        let order = sort_falling(&keys);
        let mut out: Vec<AuditRunSummary> = Vec::new();
        let mut k: usize = 0;
        while k < order.len()
            invariant
                k <= order.len(),
                out@.len() == k,
                forall|j: int| 0 <= j < order@.len() ==> #[trigger] order@[j] < runs@.len(),
                forall|j: int| 0 <= j < k ==> (#[trigger] out@[j])@ == runs@[order@[j] as int]@,
            decreases order.len() - k,
        {
            out.push(runs[order[k]].duplicate());
            k += 1;
        }
        assert(run_views(out@) =~= arranged_runs(rv, positions(order@)));
        out
    }

    /// The records as CSV: a header, then one line for each record.
    pub fn export_csv(records: &Vec<AuditRecord>) -> (csv: String)
        ensures
            csv@ == csv_text(record_views(records@), records@.len() as int),
    {
        let ghost all = record_views(records@);
        let mut out =
            "type,run_id,command,ts,path,action,result,bytes,reason,cleaned,skipped,failed,freed_bytes\n".to_owned();
        let mut i: usize = 0;
        while i < records.len()
            invariant
                i <= records.len(),
                all == record_views(records@),
                out@ == csv_text(all, i as int),
            decreases records.len() - i,
        {
            assert(all[i as int] == records@[i as int]@);
            push_line(&mut out, &records[i]);
            i += 1;
        }
        out
    }
}

/// The summary with which a run enters the list.
fn new_summary(run_id: &String, command: &String) -> (s: AuditRunSummary)
    ensures
        s@ == fresh_run(run_id@, command@),
{
    AuditRunSummary {
        run_id: copy_string(run_id),
        command: copy_string(command),
        started_at: None,
        finished_at: None,
        cleaned: 0,
        skipped: 0,
        failed: 0,
        freed_bytes: 0,
    }
}

/// The position of the summary of the run `run_id`, or the length of the list.
fn position_of_run(runs: &Vec<AuditRunSummary>, run_id: &str) -> (at: usize)
    ensures
        at == find_run(run_views(runs@), run_id@, 0),
        at <= runs@.len(),
{
    let wanted = to_chars(run_id);
    let ghost rv = run_views(runs@);
    let mut k: usize = 0;
    while k < runs.len()
        invariant
            k <= runs.len(),
            wanted@ == run_id@,
            rv == run_views(runs@),
            find_run(rv, run_id@, 0) == find_run(rv, run_id@, k as int),
        decreases runs.len() - k,
    {
        assert(rv[k as int] == runs@[k as int]@);
        if chars_eq_str(&wanted, runs[k].run_id.as_str()) {
            return k;
        }
        k += 1;
    }
    k
}

/// A run that starts before another has fewer runs before it: among the
/// first `n` runs no more, and once `n` is past the earlier run, fewer.
proof fn lemma_rank_follows_start(runs: Seq<RunView>, a: int, b: int, n: int)
    requires
        0 <= a < runs.len(),
        0 <= b < runs.len(),
        0 <= n <= runs.len(),
        opt_text_lt(runs[a].started_at, runs[b].started_at),
    ensures
        start_rank(runs, a, n) <= start_rank(runs, b, n),
        n > a ==> start_rank(runs, a, n) < start_rank(runs, b, n),
    decreases n,
{
    if n > 0 {
        lemma_rank_follows_start(runs, a, b, n - 1);
        let x = runs[n - 1].started_at;
        let ya = runs[a].started_at;
        let yb = runs[b].started_at;
        if opt_text_lt(x, ya) {
            if x is Some {
                crate::text::lemma_text_lt_transitive(x->0, ya->0, yb->0, 0);
            }
        }
        if n - 1 == a {
            if ya is Some {
                crate::text::lemma_text_lt_irreflexive(ya->0, 0);
            }
        }
    }
}

/// `start_rank` never exceeds the number of runs counted.
proof fn lemma_rank_bound(runs: Seq<RunView>, i: int, n: int)
    requires
        0 <= n,
    ensures
        start_rank(runs, i, n) <= n,
    decreases n,
{
    if n > 0 {
        lemma_rank_bound(runs, i, n - 1);
    }
}

/// The runs are listed latest start first: no run in the list starts
/// before a run that is listed after it, a run without a start counting as
/// the earliest. The list holds each run of the log once.
pub proof fn lemma_runs_latest_first(records: Seq<AuditRecordView>, p: int, q: int)
    requires
        0 <= p < q < listed_runs(records).len(),
        runs_upto(records, records.len() as int).len() <= usize::MAX,
    ensures
        !opt_text_lt(listed_runs(records)[p].started_at, listed_runs(records)[q].started_at),
        listed_runs(records).len() == runs_upto(records, records.len() as int).len(),
{
    let runs = runs_upto(records, records.len() as int);
    let keys = start_keys(runs);
    crate::order::lemma_falling_sorted(keys, keys.len() as int);
    let order = falling_order(keys);
    let a = order[p];
    let b = order[q];
    assert(0 <= a < runs.len() && 0 <= b < runs.len());
    assert(!crate::order::key_lt(keys[a], keys[b]));
    if opt_text_lt(runs[a].started_at, runs[b].started_at) {
        lemma_rank_follows_start(runs, a, b, runs.len() as int);
        lemma_rank_bound(runs, a, runs.len() as int);
        lemma_rank_bound(runs, b, runs.len() as int);
        assert(crate::order::key_lt(keys[a], keys[b]));
    }
}

} // verus!
