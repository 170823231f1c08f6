//! The task-scheduler facade: bulk file operations and precache jobs are
//! turned into an ordered queue of task descriptions, a running-task table
//! feeds pagination, and a progress pump derives aggregate progress from
//! that table, emitting only when it changes.

use vstd::prelude::*;

use crate::fs::File;
use crate::layout;
use crate::mime::{mime_kind_of, MimeKind};
use crate::url::{Url, UrlView};

verus! {

/// Mathematical shape of one queued task.
#[verifier::ext_equal]
pub ghost enum TaskOpView {
    ProcessOpen { run: Seq<char>, args: Seq<UrlView> },
    FileCut { from: UrlView, to: UrlView, force: bool },
    FileCopy { from: UrlView, to: UrlView, force: bool },
    FileLink { from: UrlView, to: UrlView, relative: bool, force: bool },
    FileDelete { target: UrlView },
    FileTrash { target: UrlView },
    PrecacheSize { targets: Seq<UrlView> },
    PrecacheMime { targets: Seq<UrlView> },
    PrecacheImage { targets: Seq<UrlView> },
    PrecacheVideo { targets: Seq<UrlView> },
    PrecachePdf { targets: Seq<UrlView> },
}

/// One queued task: what the scheduler has accepted, in acceptance order.
#[derive(Debug)]
pub enum TaskOp {
    ProcessOpen { run: String, args: Vec<Url> },
    FileCut { from: Url, to: Url, force: bool },
    FileCopy { from: Url, to: Url, force: bool },
    FileLink { from: Url, to: Url, relative: bool, force: bool },
    FileDelete { target: Url },
    FileTrash { target: Url },
    PrecacheSize { targets: Vec<Url> },
    PrecacheMime { targets: Vec<Url> },
    PrecacheImage { targets: Vec<Url> },
    PrecacheVideo { targets: Vec<Url> },
    PrecachePdf { targets: Vec<Url> },
}

/// The views of a sequence of URLs.
pub open spec fn urls_view(s: Seq<Url>) -> Seq<UrlView> {
    s.map_values(|u: Url| u@)
}

impl View for TaskOp {
    type V = TaskOpView;

    open spec fn view(&self) -> TaskOpView {
        match self {
            TaskOp::ProcessOpen { run, args } => TaskOpView::ProcessOpen {
                run: run@,
                args: urls_view(args@),
            },
            TaskOp::FileCut { from, to, force } => TaskOpView::FileCut {
                from: from@,
                to: to@,
                force: *force,
            },
            TaskOp::FileCopy { from, to, force } => TaskOpView::FileCopy {
                from: from@,
                to: to@,
                force: *force,
            },
            TaskOp::FileLink { from, to, relative, force } => TaskOpView::FileLink {
                from: from@,
                to: to@,
                relative: *relative,
                force: *force,
            },
            TaskOp::FileDelete { target } => TaskOpView::FileDelete { target: target@ },
            TaskOp::FileTrash { target } => TaskOpView::FileTrash { target: target@ },
            TaskOp::PrecacheSize { targets } => TaskOpView::PrecacheSize {
                targets: urls_view(targets@),
            },
            TaskOp::PrecacheMime { targets } => TaskOpView::PrecacheMime {
                targets: urls_view(targets@),
            },
            TaskOp::PrecacheImage { targets } => TaskOpView::PrecacheImage {
                targets: urls_view(targets@),
            },
            TaskOp::PrecacheVideo { targets } => TaskOpView::PrecacheVideo {
                targets: urls_view(targets@),
            },
            TaskOp::PrecachePdf { targets } => TaskOpView::PrecachePdf {
                targets: urls_view(targets@),
            },
        }
    }
}

/// One row of the running-task table.
#[derive(Debug)]
pub struct TaskRecord {
    pub id: u64,
    pub name: String,
    pub bytes_done: u64,
    pub bytes_total: u64,
    pub items_done: u64,
    pub items_total: u64,
    pub running: bool,
}

/// Mathematical shape of a task summary.
#[verifier::ext_equal]
pub ghost struct TaskSummaryView {
    pub name: Seq<char>,
    pub bytes_done: u64,
    pub bytes_total: u64,
    pub items_done: u64,
    pub items_total: u64,
    pub running: bool,
}

/// The human summary of one running task, as pagination hands it to the
/// task pane.
#[derive(Debug)]
pub struct TaskSummary {
    pub name: String,
    pub bytes_done: u64,
    pub bytes_total: u64,
    pub items_done: u64,
    pub items_total: u64,
    pub running: bool,
}

impl View for TaskSummary {
    type V = TaskSummaryView;

    open spec fn view(&self) -> TaskSummaryView {
        TaskSummaryView {
            name: self.name@,
            bytes_done: self.bytes_done,
            bytes_total: self.bytes_total,
            items_done: self.items_done,
            items_total: self.items_total,
            running: self.running,
        }
    }
}

/// The summary a table row shows as.
pub open spec fn summary_of(r: TaskRecord) -> TaskSummaryView {
    TaskSummaryView {
        name: r.name@,
        bytes_done: r.bytes_done,
        bytes_total: r.bytes_total,
        items_done: r.items_done,
        items_total: r.items_total,
        running: r.running,
    }
}

/// Aggregate progress over the whole running table.
#[derive(Clone, Copy, Debug, PartialEq, Eq, Structural)]
pub struct TasksProgress {
    pub bytes_done: u64,
    pub bytes_total: u64,
    pub items_done: u64,
    pub items_total: u64,
    pub active: u64,
}

impl Default for TasksProgress {
    /// The progress of an empty table: all zero.
    fn default() -> (r: TasksProgress)
        ensures
            r == (TasksProgress {
                bytes_done: 0,
                bytes_total: 0,
                items_done: 0,
                items_total: 0,
                active: 0,
            }),
    {
        TasksProgress { bytes_done: 0, bytes_total: 0, items_done: 0, items_total: 0, active: 0 }
    }
}

/// `x` clamped into a `u64`, for sums that may exceed the machine word.
pub open spec fn sat_u64(x: int) -> u64 {
    if x > u64::MAX {
        u64::MAX
    } else {
        x as u64
    }
}

/// Sum of one `u64` field over the table.
pub open spec fn sum_by(tbl: Seq<TaskRecord>, f: spec_fn(TaskRecord) -> u64) -> int
    decreases tbl.len(),
{
    if tbl.len() == 0 {
        0
    } else {
        sum_by(tbl.drop_last(), f) + f(tbl.last())
    }
}

proof fn lemma_sum_by_nonneg(tbl: Seq<TaskRecord>, f: spec_fn(TaskRecord) -> u64)
    ensures
        sum_by(tbl, f) >= 0,
    decreases tbl.len(),
{
    if tbl.len() > 0 {
        lemma_sum_by_nonneg(tbl.drop_last(), f);
    }
}

/// How many rows of the table are still running.
pub open spec fn count_running(tbl: Seq<TaskRecord>) -> int
    decreases tbl.len(),
{
    if tbl.len() == 0 {
        0
    } else {
        count_running(tbl.drop_last()) + if tbl.last().running {
            1int
        } else {
            0int
        }
    }
}

proof fn lemma_count_running_bounds(tbl: Seq<TaskRecord>)
    ensures
        0 <= count_running(tbl) <= tbl.len(),
    decreases tbl.len(),
{
    if tbl.len() > 0 {
        lemma_count_running_bounds(tbl.drop_last());
    }
}

/// The progress a table aggregates to. Byte and item sums saturate at the
/// largest machine value; `active` counts the rows still running.
pub open spec fn progress_of(tbl: Seq<TaskRecord>) -> TasksProgress {
    TasksProgress {
        bytes_done: sat_u64(sum_by(tbl, |r: TaskRecord| r.bytes_done)),
        bytes_total: sat_u64(sum_by(tbl, |r: TaskRecord| r.bytes_total)),
        items_done: sat_u64(sum_by(tbl, |r: TaskRecord| r.items_done)),
        items_total: sat_u64(sum_by(tbl, |r: TaskRecord| r.items_total)),
        active: count_running(tbl) as u64,
    }
}

impl TasksProgress {
    /// Derive aggregate progress from a snapshot of the running table.
    /// The same table always derives the same value.
    pub fn from(running: &Vec<TaskRecord>) -> (p: TasksProgress)
        ensures
            p == progress_of(running@),
    {
        let ghost fbd = |r: TaskRecord| r.bytes_done;
        let ghost fbt = |r: TaskRecord| r.bytes_total;
        let ghost fid = |r: TaskRecord| r.items_done;
        let ghost fit = |r: TaskRecord| r.items_total;
        let mut bytes_done: u64 = 0;
        let mut bytes_total: u64 = 0;
        let mut items_done: u64 = 0;
        let mut items_total: u64 = 0;
        let mut active: u64 = 0;
        let mut i: usize = 0;
        proof {
            assert(running@.take(0) =~= Seq::<TaskRecord>::empty());
        }
        while i < running.len()
            invariant
                i <= running@.len(),
                bytes_done == sat_u64(sum_by(running@.take(i as int), fbd)),
                bytes_total == sat_u64(sum_by(running@.take(i as int), fbt)),
                items_done == sat_u64(sum_by(running@.take(i as int), fid)),
                items_total == sat_u64(sum_by(running@.take(i as int), fit)),
                active == count_running(running@.take(i as int)),
                fbd == (|r: TaskRecord| r.bytes_done),
                fbt == (|r: TaskRecord| r.bytes_total),
                fid == (|r: TaskRecord| r.items_done),
                fit == (|r: TaskRecord| r.items_total),
            decreases running@.len() - i,
        {
            let r = &running[i];
            proof {
                let pre = running@.take(i + 1);
                assert(pre.drop_last() =~= running@.take(i as int));
                assert(pre.last() == running@[i as int]);
                lemma_sum_by_nonneg(running@.take(i as int), fbd);
                lemma_sum_by_nonneg(running@.take(i as int), fbt);
                lemma_sum_by_nonneg(running@.take(i as int), fid);
                lemma_sum_by_nonneg(running@.take(i as int), fit);
                lemma_count_running_bounds(running@.take(i as int));
            }
            bytes_done = bytes_done.saturating_add(r.bytes_done);
            bytes_total = bytes_total.saturating_add(r.bytes_total);
            items_done = items_done.saturating_add(r.items_done);
            items_total = items_total.saturating_add(r.items_total);
            if r.running {
                active = active + 1;
            }
            i = i + 1;
        }
        proof {
            assert(running@.take(running@.len() as int) =~= running@);
        }
        TasksProgress { bytes_done, bytes_total, items_done, items_total, active }
    }
}

/// Deriving progress is deterministic: equal tables aggregate to equal
/// values.
pub proof fn lemma_progress_deterministic(t1: Seq<TaskRecord>, t2: Seq<TaskRecord>)
    requires
        t1 == t2,
    ensures
        progress_of(t1) == progress_of(t2),
{
}

/// How long the progress pump sleeps between polls of the running
/// table, in milliseconds.
pub const PUMP_INTERVAL_MILLIS: u64 = 500;

/// One step of the progress pump: aggregate the table snapshot and emit
/// exactly when the value differs from the last published one.
pub fn pump_step(running: &Vec<TaskRecord>, last: &TasksProgress) -> (r: Option<TasksProgress>)
    ensures
        match r {
            Some(p) => p == progress_of(running@) && p != *last,
            None => progress_of(running@) == *last,
        },
{
    let new = TasksProgress::from(running);
    if new == *last {
        None
    } else {
        Some(new)
    }
}

/// The owned scheduler: the ordered queue of accepted tasks and the
/// running table its workers maintain.
#[derive(Debug)]
pub struct Scheduler {
    pub queued: Vec<TaskOp>,
    pub running: Vec<TaskRecord>,
}

/// The views of the queued tasks, in order.
pub open spec fn queue_view(q: Seq<TaskOp>) -> Seq<TaskOpView> {
    q.map_values(|op: TaskOp| op@)
}

impl Scheduler {
    /// A scheduler with nothing queued and nothing running.
    pub fn start() -> (s: Scheduler)
        ensures
            s.queued@.len() == 0,
            s.running@.len() == 0,
    {
        Scheduler { queued: Vec::new(), running: Vec::new() }
    }

    /// Accept one task at the back of the queue.
    fn enqueue(&mut self, op: TaskOp)
        ensures
            queue_view(final(self).queued@) == queue_view(old(self).queued@).push(op@),
            final(self).running == old(self).running,
    {
        self.queued.push(op);
        proof {
            assert(queue_view(self.queued@) =~= queue_view(old(self).queued@).push(op@));
        }
    }

    /// Accept an opener invocation over the given arguments.
    pub fn process_open(&mut self, run: String, args: Vec<Url>)
        ensures
            queue_view(final(self).queued@) == queue_view(old(self).queued@).push(
                TaskOpView::ProcessOpen { run: run@, args: urls_view(args@) },
            ),
            final(self).running == old(self).running,
    {
        self.enqueue(TaskOp::ProcessOpen { run, args });
    }

    /// Accept a cut of `from` to `to`.
    pub fn file_cut(&mut self, from: Url, to: Url, force: bool)
        ensures
            queue_view(final(self).queued@) == queue_view(old(self).queued@).push(
                TaskOpView::FileCut { from: from@, to: to@, force },
            ),
            final(self).running == old(self).running,
    {
        self.enqueue(TaskOp::FileCut { from, to, force });
    }

    /// Accept a copy of `from` to `to`.
    pub fn file_copy(&mut self, from: Url, to: Url, force: bool)
        ensures
            queue_view(final(self).queued@) == queue_view(old(self).queued@).push(
                TaskOpView::FileCopy { from: from@, to: to@, force },
            ),
            final(self).running == old(self).running,
    {
        self.enqueue(TaskOp::FileCopy { from, to, force });
    }

    /// Accept a link from `from` at `to`.
    pub fn file_link(&mut self, from: Url, to: Url, relative: bool, force: bool)
        ensures
            queue_view(final(self).queued@) == queue_view(old(self).queued@).push(
                TaskOpView::FileLink { from: from@, to: to@, relative, force },
            ),
            final(self).running == old(self).running,
    {
        self.enqueue(TaskOp::FileLink { from, to, relative, force });
    }

    /// Accept a permanent deletion of `target`.
    pub fn file_delete(&mut self, target: Url)
        ensures
            queue_view(final(self).queued@) == queue_view(old(self).queued@).push(
                TaskOpView::FileDelete { target: target@ },
            ),
            final(self).running == old(self).running,
    {
        self.enqueue(TaskOp::FileDelete { target });
    }

    /// Accept a move of `target` to the trash.
    pub fn file_trash(&mut self, target: Url)
        ensures
            queue_view(final(self).queued@) == queue_view(old(self).queued@).push(
                TaskOpView::FileTrash { target: target@ },
            ),
            final(self).running == old(self).running,
    {
        self.enqueue(TaskOp::FileTrash { target });
    }

    /// Accept a folder-size computation over `targets`.
    pub fn precache_size(&mut self, targets: Vec<Url>)
        ensures
            queue_view(final(self).queued@) == queue_view(old(self).queued@).push(
                TaskOpView::PrecacheSize { targets: urls_view(targets@) },
            ),
            final(self).running == old(self).running,
    {
        self.enqueue(TaskOp::PrecacheSize { targets });
    }

    /// Accept a MIME classification over `targets`.
    pub fn precache_mime(&mut self, targets: Vec<Url>)
        ensures
            queue_view(final(self).queued@) == queue_view(old(self).queued@).push(
                TaskOpView::PrecacheMime { targets: urls_view(targets@) },
            ),
            final(self).running == old(self).running,
    {
        self.enqueue(TaskOp::PrecacheMime { targets });
    }

    /// Accept thumbnail generation for the image files in `targets`.
    pub fn precache_image(&mut self, targets: Vec<Url>)
        ensures
            queue_view(final(self).queued@) == queue_view(old(self).queued@).push(
                TaskOpView::PrecacheImage { targets: urls_view(targets@) },
            ),
            final(self).running == old(self).running,
    {
        self.enqueue(TaskOp::PrecacheImage { targets });
    }

    /// Accept thumbnail generation for the video files in `targets`.
    pub fn precache_video(&mut self, targets: Vec<Url>)
        ensures
            queue_view(final(self).queued@) == queue_view(old(self).queued@).push(
                TaskOpView::PrecacheVideo { targets: urls_view(targets@) },
            ),
            final(self).running == old(self).running,
    {
        self.enqueue(TaskOp::PrecacheVideo { targets });
    }

    /// Accept thumbnail generation for the PDF files in `targets`.
    pub fn precache_pdf(&mut self, targets: Vec<Url>)
        ensures
            queue_view(final(self).queued@) == queue_view(old(self).queued@).push(
                TaskOpView::PrecachePdf { targets: urls_view(targets@) },
            ),
            final(self).running == old(self).running,
    {
        self.enqueue(TaskOp::PrecachePdf { targets });
    }
}

/// How files are sorted in the listing the size precache inspects.
#[derive(Clone, Copy, Debug, PartialEq, Eq, Structural)]
pub enum SortBy {
    Alphabetical,
    Created,
    Modified,
    Natural,
    Size,
}

/// The slice of a folder listing the precache operations inspect: its
/// files, the folder sizes already memoized, and the current sort key.
#[derive(Debug)]
pub struct Files {
    pub files: Vec<File>,
    pub sizes: Vec<(Url, u64)>,
    pub sort_by: SortBy,
}

/// Which transfer a bulk file operation performs.
#[derive(Clone, Copy, Debug, PartialEq, Eq, Structural)]
pub enum TransferKind {
    Cut,
    Copy,
    Link { relative: bool },
}

/// Every source URL carries a file name.
pub open spec fn src_named(src: Seq<Url>) -> bool {
    forall|i: int| 0 <= i < src.len() ==> (#[trigger] src[i])@.comps.len() > 0
}

/// The destination of one source: `dest` with the source's file name
/// appended.
pub open spec fn dest_of(u: UrlView, dest: UrlView) -> UrlView {
    UrlView { scheme: dest.scheme, comps: dest.comps.push(u.comps.last()) }
}

/// A forced transfer whose destination equals its source is skipped: the
/// one collision the facade short-circuits.
pub open spec fn transfer_skipped(u: UrlView, dest: UrlView, force: bool) -> bool {
    force && u == dest_of(u, dest)
}

/// The task one source element becomes.
pub open spec fn transfer_op(kind: TransferKind, u: UrlView, dest: UrlView, force: bool) -> TaskOpView {
    match kind {
        TransferKind::Cut => TaskOpView::FileCut { from: u, to: dest_of(u, dest), force },
        TransferKind::Copy => TaskOpView::FileCopy { from: u, to: dest_of(u, dest), force },
        TransferKind::Link { relative } => TaskOpView::FileLink {
            from: u,
            to: dest_of(u, dest),
            relative,
            force,
        },
    }
}

/// The tasks a bulk transfer enqueues: one per source, except the
/// skipped self-transfers.
pub open spec fn transfer_ops(kind: TransferKind, src: Seq<UrlView>, dest: UrlView, force: bool) -> Seq<
    TaskOpView,
> {
    src.filter_map(
        |u: UrlView|
            if transfer_skipped(u, dest, force) {
                None
            } else {
                Some(transfer_op(kind, u, dest, force))
            },
    )
}

/// A URL whose folder size is already memoized.
pub open spec fn has_size(sizes: Seq<(Url, u64)>, u: UrlView) -> bool {
    exists|j: int| 0 <= j < sizes.len() && sizes[j].0@ == u
}

/// A URL whose MIME label is already memoized.
pub open spec fn has_mime(m: Seq<(Url, String)>, u: UrlView) -> bool {
    exists|j: int| 0 <= j < m.len() && m[j].0@ == u
}

/// The directories whose size is not yet memoized.
pub open spec fn size_targets(files: Seq<File>, sizes: Seq<(Url, u64)>) -> Seq<UrlView> {
    files.filter_map(
        |f: File|
            if f.cha.kind.dir && !has_size(sizes, f.url@) {
                Some(f.url@)
            } else {
                None
            },
    )
}

/// The non-directories lacking a memoized MIME label.
pub open spec fn mime_targets(files: Seq<File>, m: Seq<(Url, String)>) -> Seq<UrlView> {
    files.filter_map(
        |f: File|
            if !f.cha.kind.dir && !has_mime(m, f.url@) {
                Some(f.url@)
            } else {
                None
            },
    )
}

/// The entries of a `(url, mime)` mapping whose label classifies as `k`.
pub open spec fn kind_targets(m: Seq<(Url, String)>, k: MimeKind) -> Seq<UrlView> {
    m.filter_map(
        |p: (Url, String)|
            if mime_kind_of(p.1@) == k {
                Some(p.0@)
            } else {
                None
            },
    )
}

/// The tasks a removal enqueues: deletion or trashing, one per target.
pub open spec fn remove_ops(targets: Seq<UrlView>, permanently: bool) -> Seq<TaskOpView> {
    targets.map_values(
        |u: UrlView|
            if permanently {
                TaskOpView::FileDelete { target: u }
            } else {
                TaskOpView::FileTrash { target: u }
            },
    )
}

/// The facade in front of the scheduler: what the interface calls when
/// the user acts, plus the task-pane state it owns.
#[derive(Debug)]
pub struct Tasks {
    pub scheduler: Scheduler,
    pub visible: bool,
    pub cursor: usize,
    pub progress: TasksProgress,
}

impl Tasks {
    /// A fresh facade over a fresh scheduler: nothing queued, nothing
    /// running, no progress published. The progress pump is driven by the
    /// caller, one `pump_step` per poll.
    pub fn start() -> (t: Tasks)
        ensures
            t.scheduler.queued@.len() == 0,
            t.scheduler.running@.len() == 0,
            !t.visible,
            t.cursor == 0,
            t.progress == progress_of(Seq::<TaskRecord>::empty()),
    {
        Tasks {
            scheduler: Scheduler::start(),
            visible: false,
            cursor: 0,
            progress: TasksProgress::default(),
        }
    }

    /// How many task summaries the pane can show for a terminal `rows`
    /// rows tall.
    pub fn limit(rows: u16) -> (r: usize)
        ensures
            r == layout::spec_tasks_limit(rows),
    {
        layout::tasks_limit(rows)
    }

    /// How many tasks the running table holds.
    pub fn len(&self) -> (r: usize)
        ensures
            r == self.scheduler.running@.len(),
    {
        self.scheduler.running.len()
    }

    /// Up to `limit(rows)` task summaries from the running table, in
    /// insertion order.
    pub fn paginate(&self, rows: u16) -> (r: Vec<TaskSummary>)
        ensures
            r@.len() == vstd::math::min(
                layout::spec_tasks_limit(rows) as int,
                self.scheduler.running@.len() as int,
            ),
            forall|i: int|
                0 <= i < r@.len() ==> r@[i]@ == summary_of(self.scheduler.running@[i]),
    {
        let limit = layout::tasks_limit(rows);
        let n = if limit < self.scheduler.running.len() {
            limit
        } else {
            self.scheduler.running.len()
        };
        let mut r: Vec<TaskSummary> = Vec::new();
        let mut i: usize = 0;
        while i < n
            invariant
                n <= self.scheduler.running@.len(),
                i <= n,
                r@.len() == i,
                forall|j: int|
                    0 <= j < i ==> r@[j]@ == summary_of(self.scheduler.running@[j]),
            decreases n - i,
        {
            let rec = &self.scheduler.running[i];
            r.push(
                TaskSummary {
                    name: rec.name.clone(),
                    bytes_done: rec.bytes_done,
                    bytes_total: rec.bytes_total,
                    items_done: rec.items_done,
                    items_total: rec.items_total,
                    running: rec.running,
                },
            );
            i = i + 1;
        }
        r
    }

    /// One bulk transfer: each source goes to `dest` joined with its file
    /// name; a forced transfer onto itself is skipped.
    fn transfer(&mut self, kind: TransferKind, src: &Vec<Url>, dest: &Url, force: bool)
        requires
            src_named(src@),
        ensures
            queue_view(final(self).scheduler.queued@) == queue_view(old(self).scheduler.queued@)
                + transfer_ops(kind, urls_view(src@), dest@, force),
            final(self).scheduler.running == old(self).scheduler.running,
            final(self).visible == old(self).visible,
            final(self).cursor == old(self).cursor,
            final(self).progress == old(self).progress,
    {
        let ghost q0 = queue_view(self.scheduler.queued@);
        let mut i: usize = 0;
        proof {
            assert(urls_view(src@).take(0) =~= Seq::<UrlView>::empty());
            assert(q0 + transfer_ops(kind, urls_view(src@).take(0), dest@, force) =~= q0);
        }
        while i < src.len()
            invariant
                src_named(src@),
                i <= src@.len(),
                q0 == queue_view(old(self).scheduler.queued@),
                queue_view(self.scheduler.queued@) == q0 + transfer_ops(
                    kind,
                    urls_view(src@).take(i as int),
                    dest@,
                    force,
                ),
                self.scheduler.running == old(self).scheduler.running,
                self.visible == old(self).visible,
                self.cursor == old(self).cursor,
                self.progress == old(self).progress,
            decreases src@.len() - i,
        {
            let u = &src[i];
            let name = match u.file_name() {
                Some(n) => n,
                None => vstd::pervasive::unreached(),
            };
            let to = u_join(dest, name);
            let ghost uv = src@[i as int]@;
            proof {
                assert(urls_view(src@)[i as int] == uv);
                assert(to@ =~~= dest_of(uv, dest@));
                let pre = urls_view(src@).take(i + 1);
                assert(pre.drop_last() =~= urls_view(src@).take(i as int));
                assert(pre.last() == uv);
            }
            if force && *u == to {
                proof {
                    assert(transfer_skipped(uv, dest@, force));
                    assert(transfer_ops(kind, urls_view(src@).take(i + 1), dest@, force)
                        =~= transfer_ops(kind, urls_view(src@).take(i as int), dest@, force));
                }
            } else {
                let from = u.clone();
                match kind {
                    TransferKind::Cut => self.scheduler.file_cut(from, to, force),
                    TransferKind::Copy => self.scheduler.file_copy(from, to, force),
                    TransferKind::Link { relative } => self.scheduler.file_link(
                        from,
                        to,
                        relative,
                        force,
                    ),
                }
                proof {
                    assert(!transfer_skipped(uv, dest@, force));
                    assert(transfer_ops(kind, urls_view(src@).take(i + 1), dest@, force)
                        =~= transfer_ops(kind, urls_view(src@).take(i as int), dest@, force).push(
                        transfer_op(kind, uv, dest@, force),
                    ));
                    assert(queue_view(self.scheduler.queued@) =~= q0 + transfer_ops(
                        kind,
                        urls_view(src@).take(i + 1),
                        dest@,
                        force,
                    ));
                }
            }
            i = i + 1;
        }
        proof {
            assert(urls_view(src@).take(src@.len() as int) =~= urls_view(src@));
        }
    }

    /// Cut each source to `dest`. A forced cut onto itself is skipped;
    /// no interface refresh is warranted.
    pub fn file_cut(&mut self, src: &Vec<Url>, dest: &Url, force: bool) -> (b: bool)
        requires
            src_named(src@),
        ensures
            !b,
            queue_view(final(self).scheduler.queued@) == queue_view(old(self).scheduler.queued@)
                + transfer_ops(TransferKind::Cut, urls_view(src@), dest@, force),
            final(self).scheduler.running == old(self).scheduler.running,
    {
        self.transfer(TransferKind::Cut, src, dest, force);
        false
    }

    /// Copy each source to `dest`. A forced copy onto itself is skipped;
    /// no interface refresh is warranted.
    pub fn file_copy(&mut self, src: &Vec<Url>, dest: &Url, force: bool) -> (b: bool)
        requires
            src_named(src@),
        ensures
            !b,
            queue_view(final(self).scheduler.queued@) == queue_view(old(self).scheduler.queued@)
                + transfer_ops(TransferKind::Copy, urls_view(src@), dest@, force),
            final(self).scheduler.running == old(self).scheduler.running,
    {
        self.transfer(TransferKind::Copy, src, dest, force);
        false
    }

    /// Link each source at `dest`, relatively when asked. A forced link
    /// onto itself is skipped; no interface refresh is warranted.
    pub fn file_link(&mut self, src: &Vec<Url>, dest: &Url, relative: bool, force: bool) -> (b:
        bool)
        requires
            src_named(src@),
        ensures
            !b,
            queue_view(final(self).scheduler.queued@) == queue_view(old(self).scheduler.queued@)
                + transfer_ops(TransferKind::Link { relative }, urls_view(src@), dest@, force),
            final(self).scheduler.running == old(self).scheduler.running,
    {
        self.transfer(TransferKind::Link { relative }, src, dest, force);
        false
    }

    /// Enqueue deletion or trashing for every target.
    fn remove_all(&mut self, targets: Vec<Url>, permanently: bool)
        ensures
            queue_view(final(self).scheduler.queued@) == queue_view(old(self).scheduler.queued@)
                + remove_ops(urls_view(targets@), permanently),
            final(self).scheduler.running == old(self).scheduler.running,
    {
        let ghost q0 = queue_view(self.scheduler.queued@);
        let ghost tv = urls_view(targets@);
        let mut i: usize = 0;
        proof {
            assert(tv.take(0) =~= Seq::<UrlView>::empty());
            assert(remove_ops(tv.take(0), permanently) =~= Seq::<TaskOpView>::empty());
            assert(q0 + remove_ops(tv.take(0), permanently) =~= q0);
        }
        while i < targets.len()
            invariant
                i <= targets@.len(),
                tv == urls_view(targets@),
                q0 == queue_view(old(self).scheduler.queued@),
                queue_view(self.scheduler.queued@) == q0 + remove_ops(
                    tv.take(i as int),
                    permanently,
                ),
                self.scheduler.running == old(self).scheduler.running,
            decreases targets@.len() - i,
        {
            let u = targets[i].clone();
            if permanently {
                self.scheduler.file_delete(u);
            } else {
                self.scheduler.file_trash(u);
            }
            proof {
                assert(remove_ops(tv.take(i + 1), permanently) =~= remove_ops(
                    tv.take(i as int),
                    permanently,
                ).push(remove_ops(tv, permanently)[i as int]));
                assert(queue_view(self.scheduler.queued@) =~= q0 + remove_ops(
                    tv.take(i + 1),
                    permanently,
                ));
            }
            i = i + 1;
        }
        proof {
            assert(tv.take(targets@.len() as int) =~= tv);
        }
    }

    /// Remove the targets. Forced removal enqueues at once; otherwise the
    /// queue is untouched and the caller prompts the user, answering
    /// through `remove_confirmed`.
    pub fn file_remove(&mut self, targets: Vec<Url>, force: bool, permanently: bool) -> (b: bool)
        ensures
            !b,
            force ==> queue_view(final(self).scheduler.queued@) == queue_view(
                old(self).scheduler.queued@,
            ) + remove_ops(urls_view(targets@), permanently),
            !force ==> final(self).scheduler == old(self).scheduler,
            final(self).scheduler.running == old(self).scheduler.running,
    {
        if force {
            self.remove_all(targets, permanently);
        }
        false
    }

    /// Apply the user's answer to a removal prompt: an affirmative `y` or
    /// `Y` enqueues what the prompt asked about, anything else does
    /// nothing.
    pub fn remove_confirmed(&mut self, targets: Vec<Url>, permanently: bool, choice: &str) -> (b:
        bool)
        ensures
            !b,
            (choice@ == "y"@ || choice@ == "Y"@) ==> queue_view(final(self).scheduler.queued@)
                == queue_view(old(self).scheduler.queued@) + remove_ops(
                urls_view(targets@),
                permanently,
            ),
            !(choice@ == "y"@ || choice@ == "Y"@) ==> final(self).scheduler == old(self).scheduler,
    {
        if crate::text::str_eq(choice, "y") || crate::text::str_eq(choice, "Y") {
            self.remove_all(targets, permanently);
        }
        false
    }

    /// Precache folder sizes: only when sorting by size, and only for
    /// directories whose size is not yet memoized. An empty selection
    /// enqueues nothing.
    pub fn precache_size(&mut self, targets: &Files) -> (b: bool)
        ensures
            !b,
            (targets.sort_by == SortBy::Size && size_targets(targets.files@, targets.sizes@).len()
                > 0) ==> queue_view(final(self).scheduler.queued@) == queue_view(
                old(self).scheduler.queued@,
            ).push(TaskOpView::PrecacheSize { targets: size_targets(targets.files@, targets.sizes@) }),
            !(targets.sort_by == SortBy::Size && size_targets(targets.files@, targets.sizes@).len()
                > 0) ==> final(self).scheduler == old(self).scheduler,
            final(self).scheduler.running == old(self).scheduler.running,
    {
        if !(targets.sort_by == SortBy::Size) {
            return false;
        }
        let mut v: Vec<Url> = Vec::new();
        let mut i: usize = 0;
        proof {
            assert(targets.files@.take(0) =~= Seq::<File>::empty());
            assert(urls_view(v@) =~= size_targets(targets.files@.take(0), targets.sizes@));
        }
        while i < targets.files.len()
            invariant
                i <= targets.files@.len(),
                urls_view(v@) == size_targets(targets.files@.take(i as int), targets.sizes@),
            decreases targets.files@.len() - i,
        {
            let f = &targets.files[i];
            let keep = f.is_dir() && !contains_size(&targets.sizes, &f.url);
            proof {
                let pre = targets.files@.take(i + 1);
                assert(pre.drop_last() =~= targets.files@.take(i as int));
                assert(pre.last() == targets.files@[i as int]);
            }
            if keep {
                v.push(f.url.clone());
                proof {
                    assert(urls_view(v@) =~= size_targets(
                        targets.files@.take(i + 1),
                        targets.sizes@,
                    ));
                }
            } else {
                proof {
                    assert(urls_view(v@) =~= size_targets(
                        targets.files@.take(i + 1),
                        targets.sizes@,
                    ));
                }
            }
            i = i + 1;
        }
        proof {
            assert(targets.files@.take(targets.files@.len() as int) =~= targets.files@);
        }
        if v.len() > 0 {
            self.scheduler.precache_size(v);
        }
        false
    }

    /// Precache MIME labels for the files that are not directories and
    /// have no label memoized. An empty selection enqueues nothing.
    pub fn precache_mime(&mut self, targets: &Vec<File>, mimetype: &Vec<(Url, String)>) -> (b: bool)
        ensures
            !b,
            mime_targets(targets@, mimetype@).len() > 0 ==> queue_view(
                final(self).scheduler.queued@,
            ) == queue_view(old(self).scheduler.queued@).push(
                TaskOpView::PrecacheMime { targets: mime_targets(targets@, mimetype@) },
            ),
            mime_targets(targets@, mimetype@).len() == 0 ==> final(self).scheduler == old(
                self,
            ).scheduler,
            final(self).scheduler.running == old(self).scheduler.running,
    {
        let mut v: Vec<Url> = Vec::new();
        let mut i: usize = 0;
        proof {
            assert(targets@.take(0) =~= Seq::<File>::empty());
            assert(urls_view(v@) =~= mime_targets(targets@.take(0), mimetype@));
        }
        while i < targets.len()
            invariant
                i <= targets@.len(),
                urls_view(v@) == mime_targets(targets@.take(i as int), mimetype@),
            decreases targets@.len() - i,
        {
            let f = &targets[i];
            let keep = !f.is_dir() && !contains_mime(mimetype, &f.url);
            proof {
                let pre = targets@.take(i + 1);
                assert(pre.drop_last() =~= targets@.take(i as int));
                assert(pre.last() == targets@[i as int]);
            }
            if keep {
                v.push(f.url.clone());
                proof {
                    assert(urls_view(v@) =~= mime_targets(targets@.take(i + 1), mimetype@));
                }
            } else {
                proof {
                    assert(urls_view(v@) =~= mime_targets(targets@.take(i + 1), mimetype@));
                }
            }
            i = i + 1;
        }
        proof {
            assert(targets@.take(targets@.len() as int) =~= targets@);
        }
        if v.len() > 0 {
            self.scheduler.precache_mime(v);
        }
        false
    }

    /// Precache thumbnails for the entries labelled as images.
    pub fn precache_image(&mut self, mimetype: &Vec<(Url, String)>) -> (b: bool)
        ensures
            !b,
            kind_targets(mimetype@, MimeKind::Image).len() > 0 ==> queue_view(
                final(self).scheduler.queued@,
            ) == queue_view(old(self).scheduler.queued@).push(
                TaskOpView::PrecacheImage { targets: kind_targets(mimetype@, MimeKind::Image) },
            ),
            kind_targets(mimetype@, MimeKind::Image).len() == 0 ==> final(self).scheduler == old(
                self,
            ).scheduler,
            final(self).scheduler.running == old(self).scheduler.running,
    {
        let v = collect_kind_targets(mimetype, MimeKind::Image);
        if v.len() > 0 {
            self.scheduler.precache_image(v);
        }
        false
    }

    /// Precache thumbnails for the entries labelled as videos.
    pub fn precache_video(&mut self, mimetype: &Vec<(Url, String)>) -> (b: bool)
        ensures
            !b,
            kind_targets(mimetype@, MimeKind::Video).len() > 0 ==> queue_view(
                final(self).scheduler.queued@,
            ) == queue_view(old(self).scheduler.queued@).push(
                TaskOpView::PrecacheVideo { targets: kind_targets(mimetype@, MimeKind::Video) },
            ),
            kind_targets(mimetype@, MimeKind::Video).len() == 0 ==> final(self).scheduler == old(
                self,
            ).scheduler,
            final(self).scheduler.running == old(self).scheduler.running,
    {
        let v = collect_kind_targets(mimetype, MimeKind::Video);
        if v.len() > 0 {
            self.scheduler.precache_video(v);
        }
        false
    }

    /// Precache rendered pages for the entries labelled as PDFs.
    pub fn precache_pdf(&mut self, mimetype: &Vec<(Url, String)>) -> (b: bool)
        ensures
            !b,
            kind_targets(mimetype@, MimeKind::PDF).len() > 0 ==> queue_view(
                final(self).scheduler.queued@,
            ) == queue_view(old(self).scheduler.queued@).push(
                TaskOpView::PrecachePdf { targets: kind_targets(mimetype@, MimeKind::PDF) },
            ),
            kind_targets(mimetype@, MimeKind::PDF).len() == 0 ==> final(self).scheduler == old(
                self,
            ).scheduler,
            final(self).scheduler.running == old(self).scheduler.running,
    {
        let v = collect_kind_targets(mimetype, MimeKind::PDF);
        if v.len() > 0 {
            self.scheduler.precache_pdf(v);
        }
        false
    }
}

/// Whether a folder size is memoized for `u`.
fn contains_size(sizes: &Vec<(Url, u64)>, u: &Url) -> (r: bool)
    ensures
        r == has_size(sizes@, u@),
{
    let mut i: usize = 0;
    while i < sizes.len()
        invariant
            i <= sizes@.len(),
            forall|j: int| 0 <= j < i ==> sizes@[j].0@ != u@,
        decreases sizes@.len() - i,
    {
        if sizes[i].0 == *u {
            return true;
        }
        i = i + 1;
    }
    false
}

/// Whether a MIME label is memoized for `u`.
fn contains_mime(m: &Vec<(Url, String)>, u: &Url) -> (r: bool)
    ensures
        r == has_mime(m@, u@),
{
    let mut i: usize = 0;
    while i < m.len()
        invariant
            i <= m@.len(),
            forall|j: int| 0 <= j < i ==> m@[j].0@ != u@,
        decreases m@.len() - i,
    {
        if m[i].0 == *u {
            return true;
        }
        i = i + 1;
    }
    false
}

/// The URLs of a `(url, mime)` mapping whose label classifies as `k`.
fn collect_kind_targets(m: &Vec<(Url, String)>, k: MimeKind) -> (v: Vec<Url>)
    ensures
        urls_view(v@) == kind_targets(m@, k),
{
    let mut v: Vec<Url> = Vec::new();
    let mut i: usize = 0;
    proof {
        assert(m@.take(0) =~= Seq::<(Url, String)>::empty());
        assert(urls_view(v@) =~= kind_targets(m@.take(0), k));
    }
    while i < m.len()
        invariant
            i <= m@.len(),
            urls_view(v@) == kind_targets(m@.take(i as int), k),
        decreases m@.len() - i,
    {
        proof {
            let pre = m@.take(i + 1);
            assert(pre.drop_last() =~= m@.take(i as int));
            assert(pre.last() == m@[i as int]);
        }
        if MimeKind::new(m[i].1.as_str()) == k {
            v.push(m[i].0.clone());
            proof {
                assert(urls_view(v@) =~= kind_targets(m@.take(i + 1), k));
            }
        } else {
            proof {
                assert(urls_view(v@) =~= kind_targets(m@.take(i + 1), k));
            }
        }
        i = i + 1;
    }
    proof {
        assert(m@.take(m@.len() as int) =~= m@);
    }
    v
}

/// Join, as the transfer loop performs it.
fn u_join(dest: &Url, name: &String) -> (r: Url)
    ensures
        r@.scheme == dest@.scheme,
        r@.comps == dest@.comps.push(name@),
{
    dest.join(name)
}

/// Mathematical shape of an opener.
#[verifier::ext_equal]
pub ghost struct OpenerView {
    pub run: Seq<char>,
    pub spread: bool,
}

/// A configured opener: the command to run, and whether one invocation
/// takes all its arguments at once.
#[derive(Debug)]
pub struct Opener {
    pub run: String,
    pub spread: bool,
}

impl View for Opener {
    type V = OpenerView;

    open spec fn view(&self) -> OpenerView {
        OpenerView { run: self.run@, spread: self.spread }
    }
}

impl Clone for Opener {
    /// A copy names the same opener.
    fn clone(&self) -> (r: Opener)
        ensures
            r@ == self@,
    {
        Opener { run: self.run.clone(), spread: self.spread }
    }
}

/// One configured rule: a target whose file name and MIME label both
/// match the rule's patterns uses this opener; the pattern `*` matches
/// anything.
#[derive(Debug)]
pub struct OpenRule {
    pub name: String,
    pub mime: String,
    pub opener: Opener,
}

/// The configured opener rules, in priority order.
#[derive(Debug)]
pub struct OpenRules {
    pub rules: Vec<OpenRule>,
}

/// Whether a rule's pattern claims a value: exactly, or as the `*`
/// wildcard.
pub open spec fn pattern_matches(pat: Seq<char>, v: Seq<char>) -> bool {
    pat == "*"@ || pat == v
}

/// The file name a URL presents to the opener rules: its last component,
/// the empty string on an empty path.
pub open spec fn spec_name_of(u: UrlView) -> Seq<char> {
    if u.comps.len() > 0 {
        u.comps.last()
    } else {
        Seq::<char>::empty()
    }
}

/// The opener of the first rule claiming the `(name, mime)` pair, if any
/// does.
pub open spec fn spec_opener_for(rules: Seq<OpenRule>, name: Seq<char>, mime: Seq<char>) -> Option<
    OpenerView,
>
    decreases rules.len(),
{
    if rules.len() == 0 {
        None
    } else if pattern_matches(rules[0].name@, name) && pattern_matches(rules[0].mime@, mime) {
        Some(rules[0].opener@)
    } else {
        spec_opener_for(rules.drop_first(), name, mime)
    }
}

impl OpenRules {
    /// The opener the configuration resolves for a target's file name and
    /// MIME label: the first rule both of whose patterns claim it.
    pub fn opener_for(&self, name: &str, mime: &str) -> (r: Option<&Opener>)
        ensures
            match r {
                Some(op) => spec_opener_for(self.rules@, name@, mime@) == Some(op@),
                None => spec_opener_for(self.rules@, name@, mime@) is None,
            },
    {
        let mut i: usize = 0;
        proof {
            assert(self.rules@.skip(0) =~= self.rules@);
        }
        while i < self.rules.len()
            invariant
                i <= self.rules@.len(),
                spec_opener_for(self.rules@, name@, mime@) == spec_opener_for(
                    self.rules@.skip(i as int),
                    name@,
                    mime@,
                ),
            decreases self.rules@.len() - i,
        {
            let rule = &self.rules[i];
            proof {
                let rest = self.rules@.skip(i as int);
                assert(rest.len() > 0 && rest[0] == self.rules@[i as int]);
                assert(rest.drop_first() =~= self.rules@.skip(i + 1));
            }
            let name_hit = crate::text::str_eq(rule.name.as_str(), "*") || crate::text::str_eq(
                rule.name.as_str(),
                name,
            );
            let mime_hit = crate::text::str_eq(rule.mime.as_str(), "*") || crate::text::str_eq(
                rule.mime.as_str(),
                mime,
            );
            if name_hit && mime_hit {
                return Some(&rule.opener);
            }
            i = i + 1;
        }
        proof {
            assert(self.rules@.skip(self.rules@.len() as int) =~= Seq::<OpenRule>::empty());
        }
        None
    }
}

/// The views of grouped opener invocations.
pub open spec fn groups_view(gs: Seq<(Opener, Vec<Url>)>) -> Seq<(OpenerView, Seq<UrlView>)> {
    gs.map_values(|g: (Opener, Vec<Url>)| (g.0@, urls_view(g.1@)))
}

/// `gs` with `u` appended to the group keyed by `op`, a fresh group at
/// the back when none is.
pub open spec fn add_to_group(
    gs: Seq<(OpenerView, Seq<UrlView>)>,
    op: OpenerView,
    u: UrlView,
) -> Seq<(OpenerView, Seq<UrlView>)>
    decreases gs.len(),
{
    if gs.len() == 0 {
        seq![(op, seq![u])]
    } else if gs[0].0 == op {
        seq![(gs[0].0, gs[0].1.push(u))] + gs.drop_first()
    } else {
        seq![gs[0]] + add_to_group(gs.drop_first(), op, u)
    }
}

/// The targets grouped by their resolved opener, groups in first-use
/// order, arguments in target order; targets no rule claims are dropped.
pub open spec fn groups_of(targets: Seq<(Url, String)>, rules: Seq<OpenRule>) -> Seq<
    (OpenerView, Seq<UrlView>),
>
    decreases targets.len(),
{
    if targets.len() == 0 {
        Seq::<(OpenerView, Seq<UrlView>)>::empty()
    } else {
        let g = groups_of(targets.drop_last(), rules);
        match spec_opener_for(rules, spec_name_of(targets.last().0@), targets.last().1@) {
            None => g,
            Some(op) => add_to_group(g, op, targets.last().0@),
        }
    }
}

/// The tasks one opener group enqueues: one invocation with all arguments
/// for a spreading opener, one per argument otherwise.
pub open spec fn ops_of_group(op: OpenerView, args: Seq<UrlView>) -> Seq<TaskOpView> {
    if op.spread {
        seq![TaskOpView::ProcessOpen { run: op.run, args }]
    } else {
        args.map_values(|u: UrlView| TaskOpView::ProcessOpen { run: op.run, args: seq![u] })
    }
}

/// The tasks a sequence of opener groups enqueues, in group order.
pub open spec fn ops_of_groups(gs: Seq<(OpenerView, Seq<UrlView>)>) -> Seq<TaskOpView>
    decreases gs.len(),
{
    if gs.len() == 0 {
        Seq::<TaskOpView>::empty()
    } else {
        ops_of_group(gs[0].0, gs[0].1) + ops_of_groups(gs.drop_first())
    }
}

/// Whether two openers are the same rule.
fn opener_eq(a: &Opener, b: &Opener) -> (r: bool)
    ensures
        r == (a@ == b@),
{
    let same = a.run == b.run && a.spread == b.spread;
    proof {
        if a.run@ == b.run@ && a.spread == b.spread {
            assert(a@ =~= b@);
        }
    }
    same
}

/// `groups` with `u` appended to the group keyed by `op`, a fresh group
/// at the back when none is.
fn group_push(groups: Vec<(Opener, Vec<Url>)>, op: &Opener, u: Url) -> (r: Vec<(Opener, Vec<Url>)>)
    ensures
        groups_view(r@) == add_to_group(groups_view(groups@), op@, u@),
    decreases groups@.len(),
{
    let mut groups = groups;
    let ghost g0 = groups_view(groups@);
    if groups.len() == 0 {
        let mut args: Vec<Url> = Vec::new();
        args.push(u);
        groups.push((op.clone(), args));
        proof {
            assert(urls_view(args@) =~= seq![u@]);
            assert(groups_view(groups@) =~= add_to_group(g0, op@, u@));
        }
        return groups;
    }
    let ghost gv = groups_view(groups@);
    let (k, mut args) = groups.remove(0);
    let ghost rest = groups@;
    proof {
        assert(groups_view(rest) =~= gv.drop_first());
        assert(gv[0] == (k@, urls_view(args@)));
    }
    if opener_eq(&k, op) {
        args.push(u);
        let mut r = groups;
        r.insert(0, (k, args));
        proof {
            assert(urls_view(args@) =~= gv[0].1.push(u@));
            assert(groups_view(r@) =~= seq![(gv[0].0, gv[0].1.push(u@))] + gv.drop_first());
        }
        r
    } else {
        let mut r = group_push(groups, op, u);
        r.insert(0, (k, args));
        proof {
            assert(groups_view(r@) =~= seq![gv[0]] + add_to_group(gv.drop_first(), op@, u@));
        }
        r
    }
}

impl Tasks {
    /// Invoke one opener over the given arguments: a spreading opener is
    /// invoked once with all of them, any other once per argument. No
    /// interface refresh is warranted.
    pub fn file_open_with(&mut self, opener: &Opener, args: &Vec<Url>) -> (b: bool)
        ensures
            !b,
            queue_view(final(self).scheduler.queued@) == queue_view(old(self).scheduler.queued@)
                + ops_of_group(opener@, urls_view(args@)),
            final(self).scheduler.running == old(self).scheduler.running,
    {
        let ghost q0 = queue_view(self.scheduler.queued@);
        if opener.spread {
            let copy = clone_urls(args);
            self.scheduler.process_open(opener.run.clone(), copy);
            proof {
                assert(queue_view(self.scheduler.queued@) =~= q0 + ops_of_group(
                    opener@,
                    urls_view(args@),
                ));
            }
            return false;
        }
        let ghost av = urls_view(args@);
        let mut i: usize = 0;
        proof {
            assert(q0 + ops_of_group(opener@, av.take(0)) =~= q0);
        }
        while i < args.len()
            invariant
                i <= args@.len(),
                av == urls_view(args@),
                !opener@.spread,
                q0 == queue_view(old(self).scheduler.queued@),
                queue_view(self.scheduler.queued@) == q0 + ops_of_group(opener@, av.take(i as int)),
                self.scheduler.running == old(self).scheduler.running,
            decreases args@.len() - i,
        {
            let mut one: Vec<Url> = Vec::new();
            one.push(args[i].clone());
            self.scheduler.process_open(opener.run.clone(), one);
            proof {
                assert(urls_view(one@) =~= seq![av[i as int]]);
                assert(ops_of_group(opener@, av.take(i + 1)) =~= ops_of_group(
                    opener@,
                    av.take(i as int),
                ).push(TaskOpView::ProcessOpen { run: opener@.run, args: seq![av[i as int]] }));
                assert(queue_view(self.scheduler.queued@) =~= q0 + ops_of_group(
                    opener@,
                    av.take(i + 1),
                ));
            }
            i = i + 1;
        }
        proof {
            assert(av.take(args@.len() as int) =~= av);
        }
        false
    }

    /// Open each target with the opener its file name and MIME label
    /// resolve to: targets are grouped by opener in first-use order, and
    /// each group is invoked as the opener asks. Targets no rule claims
    /// are dropped.
    pub fn file_open(&mut self, targets: &Vec<(Url, String)>, rules: &OpenRules) -> (b: bool)
        ensures
            !b,
            queue_view(final(self).scheduler.queued@) == queue_view(old(self).scheduler.queued@)
                + ops_of_groups(groups_of(targets@, rules.rules@)),
            final(self).scheduler.running == old(self).scheduler.running,
    {
        let mut groups: Vec<(Opener, Vec<Url>)> = Vec::new();
        let mut i: usize = 0;
        proof {
            assert(targets@.take(0) =~= Seq::<(Url, String)>::empty());
            assert(groups_view(groups@) =~= groups_of(targets@.take(0), rules.rules@));
        }
        while i < targets.len()
            invariant
                i <= targets@.len(),
                groups_view(groups@) == groups_of(targets@.take(i as int), rules.rules@),
            decreases targets@.len() - i,
        {
            proof {
                let pre = targets@.take(i + 1);
                assert(pre.drop_last() =~= targets@.take(i as int));
                assert(pre.last() == targets@[i as int]);
            }
            let name_str = match targets[i].0.file_name() {
                Some(n) => n.as_str(),
                None => "",
            };
            proof {
                reveal_strlit("");
                assert(name_str@ =~= spec_name_of(targets@[i as int].0@));
            }
            match rules.opener_for(name_str, targets[i].1.as_str()) {
                Some(op) => {
                    let op = op.clone();
                    let u = targets[i].0.clone();
                    groups = group_push(groups, &op, u);
                },
                None => {
                },
            }
            proof {
                assert(groups_view(groups@) =~= groups_of(targets@.take(i + 1), rules.rules@));
            }
            i = i + 1;
        }
        proof {
            assert(targets@.take(targets@.len() as int) =~= targets@);
        }
        let ghost gv = groups_view(groups@);
        let ghost q0 = queue_view(self.scheduler.queued@);
        let mut j: usize = 0;
        proof {
            assert(gv.skip(0) =~= gv);
        }
        while j < groups.len()
            invariant
                j <= groups@.len(),
                gv == groups_view(groups@),
                q0 == queue_view(old(self).scheduler.queued@),
                queue_view(self.scheduler.queued@) + ops_of_groups(gv.skip(j as int)) == q0
                    + ops_of_groups(gv),
                self.scheduler.running == old(self).scheduler.running,
            decreases groups@.len() - j,
        {
            let g = &groups[j];
            proof {
                let rest = gv.skip(j as int);
                assert(rest.len() > 0 && rest[0] == gv[j as int]);
                assert(rest.drop_first() =~= gv.skip(j + 1));
            }
            let ghost qpre = queue_view(self.scheduler.queued@);
            self.file_open_with(&g.0, &g.1);
            proof {
                assert(qpre + (ops_of_group(gv[j as int].0, gv[j as int].1) + ops_of_groups(
                    gv.skip(j + 1),
                )) =~= (qpre + ops_of_group(gv[j as int].0, gv[j as int].1)) + ops_of_groups(
                    gv.skip(j + 1),
                ));
            }
            j = j + 1;
        }
        proof {
            assert(gv.skip(groups@.len() as int) =~= Seq::<(OpenerView, Seq<UrlView>)>::empty());
            assert(queue_view(self.scheduler.queued@) + ops_of_groups(
                gv.skip(groups@.len() as int),
            ) =~= queue_view(self.scheduler.queued@));
        }
        false
    }
}

/// Element-wise copy of a URL vector.
fn clone_urls(v: &Vec<Url>) -> (r: Vec<Url>)
    ensures
        urls_view(r@) == urls_view(v@),
{
    let mut r: Vec<Url> = Vec::new();
    let mut i: usize = 0;
    while i < v.len()
        invariant
            i <= v@.len(),
            r@.len() == i,
            forall|j: int| 0 <= j < i ==> r@[j]@ == v@[j]@,
        decreases v@.len() - i,
    {
        r.push(v[i].clone());
        i = i + 1;
    }
    proof {
        assert(urls_view(r@) =~= urls_view(v@));
    }
    r
}

/// A transfer with no skipped source enqueues one task per source; in
/// particular an unforced transfer always does.
pub proof fn lemma_transfer_all_kept(kind: TransferKind, src: Seq<UrlView>, dest: UrlView, force: bool)
    requires
        forall|i: int| 0 <= i < src.len() ==> !transfer_skipped(#[trigger] src[i], dest, force),
    ensures
        transfer_ops(kind, src, dest, force).len() == src.len(),
    decreases src.len(),
{
    if src.len() > 0 {
        assert(src[src.len() - 1] == src.last());
        lemma_transfer_all_kept(kind, src.drop_last(), dest, force);
    }
}

/// A forced transfer of one source onto itself enqueues nothing; an
/// unforced transfer enqueues exactly one task per source.
pub proof fn lemma_transfer_counts(kind: TransferKind, src: Seq<UrlView>, dest: UrlView, force: bool)
    ensures
        (force && src.len() == 1 && src[0] == dest_of(src[0], dest)) ==> transfer_ops(
            kind,
            src,
            dest,
            force,
        ).len() == 0,
        !force ==> transfer_ops(kind, src, dest, force).len() == src.len(),
{
    if force && src.len() == 1 && src[0] == dest_of(src[0], dest) {
        assert(src.drop_last() =~= Seq::<UrlView>::empty());
        assert(src.last() == src[0]);
        assert(transfer_skipped(src.last(), dest, force));
        assert(transfer_ops(kind, src.drop_last(), dest, force) =~= Seq::<TaskOpView>::empty());
        assert(transfer_ops(kind, src, dest, force) =~= transfer_ops(
            kind,
            src.drop_last(),
            dest,
            force,
        ));
    }
    if !force {
        lemma_transfer_all_kept(kind, src, dest, force);
    }
}

/// The precache-by-kind filter is monotone: an entry whose label does
/// not classify as `k` never grows the enqueued set.
pub proof fn lemma_kind_targets_monotone(m: Seq<(Url, String)>, k: MimeKind, extra: (Url, String))
    requires
        mime_kind_of(extra.1@) != k,
    ensures
        kind_targets(m.push(extra), k) == kind_targets(m, k),
{
    assert(m.push(extra).drop_last() =~= m);
    assert(m.push(extra).last() == extra);
}

/// The MIME precache filter is monotone: a file whose label is already
/// memoized never grows the enqueued set.
pub proof fn lemma_mime_targets_monotone(files: Seq<File>, m: Seq<(Url, String)>, extra: File)
    requires
        has_mime(m, extra.url@),
    ensures
        mime_targets(files.push(extra), m) == mime_targets(files, m),
{
    assert(files.push(extra).drop_last() =~= files);
    assert(files.push(extra).last() == extra);
}

/// The size precache filter is monotone: a directory whose size is
/// already memoized never grows the enqueued set.
pub proof fn lemma_size_targets_monotone(files: Seq<File>, sizes: Seq<(Url, u64)>, extra: File)
    requires
        has_size(sizes, extra.url@),
    ensures
        size_targets(files.push(extra), sizes) == size_targets(files, sizes),
{
    assert(files.push(extra).drop_last() =~= files);
    assert(files.push(extra).last() == extra);
}

} // verus!
