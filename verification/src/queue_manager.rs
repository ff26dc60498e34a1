//! Decisions of the upload queue: the bookkeeping the workers apply to the
//! shared progress record, the retry list, and what to do with a finished
//! upload.

use vstd::prelude::*;
use crate::state_manager::{AppState, AppStateView};
use crate::text::{
    decimal, push_decimal, same_text, path_parent, path_file_name, path_parent_of,
    path_file_name_of,
};

verus! {

/// A file waiting to be uploaded, with the album it should land in (from the
/// per-folder configuration).
#[derive(Clone, Debug)]
pub struct FileTask {
    pub path: String,
    pub checksum: String,
    /// Album id, if already resolved.
    pub album_id: Option<String>,
    /// Album name to look up or create.
    pub album_name: Option<String>,
}

/// `a - b`, or zero when `b` exceeds `a`.
pub open spec fn sat_sub(a: nat, b: nat) -> nat {
    if a >= b { (a - b) as nat } else { 0 }
}

fn saturating_sub(a: usize, b: usize) -> (r: usize)
    ensures
        r == sat_sub(a as nat, b as nat),
{
    if a >= b { a - b } else { 0 }
}

/// The notification text shown when the queue has drained.
pub open spec fn processed_message(n: nat) -> Seq<char> {
    "Processed "@ + decimal(n) + " file(s)."@
}

impl AppStateView {
    /// A file was added to the queue.
    pub open spec fn enqueued(self) -> AppStateView {
        AppStateView {
            total_queued: self.total_queued + 1,
            queue_size: sat_sub(self.total_queued + 1, self.processed_count),
            ..self
        }
    }

    /// A worker picked up the file at `path`.
    pub open spec fn begun(self, path: Seq<char>) -> AppStateView {
        AppStateView {
            active_workers: self.active_workers + 1,
            status: "uploading"@,
            current_file: Some(path),
            queue_size: sat_sub(self.total_queued, self.processed_count),
            ..self
        }
    }

    /// The progress percentage is set from `percent`, or zero when nothing was queued.
    pub open spec fn with_progress(self, percent: nat) -> AppStateView {
        AppStateView {
            progress: if self.total_queued > 0 { percent } else { 0 },
            ..self
        }
    }

    /// An upload failed and its task went to the retry list.
    pub open spec fn failed_once(self) -> AppStateView {
        AppStateView { failed_count: self.failed_count + 1, ..self }
    }

    /// `n` tasks from the retry list were sent back to the queue.
    pub open spec fn requeued(self, n: nat) -> AppStateView {
        AppStateView {
            failed_count: sat_sub(self.failed_count, n),
            total_queued: self.total_queued + n,
            ..self
        }
    }

    /// Whether the queue is drained once a worker has finished.
    pub open spec fn drained(self) -> bool {
        self.processed_count + 1 >= self.total_queued && self.active_workers == 1
    }

    /// A worker finished its file (with success or failure).
    pub open spec fn finished(self) -> AppStateView {
        let base = AppStateView {
            processed_count: self.processed_count + 1,
            active_workers: (self.active_workers - 1) as nat,
            current_file: None,
            ..self
        };
        if self.drained() {
            AppStateView { queue_size: 0, status: "idle"@, progress: 100, ..base }
        } else {
            AppStateView {
                queue_size: sat_sub(base.total_queued, base.processed_count),
                status: "uploading"@,
                ..base
            }
        }
    }

    /// The failures persisted by the last run (`n` of them) are counted as failed.
    pub open spec fn with_loaded_retries(self, n: nat) -> AppStateView {
        if n > 0 { AppStateView { failed_count: n, ..self } } else { self }
    }

    /// The `n` persisted failures are queued again.
    pub open spec fn loaded_retries_requeued(self, n: nat) -> AppStateView {
        if n > 0 {
            AppStateView { failed_count: 0, total_queued: self.total_queued + n, ..self }
        } else {
            self
        }
    }
}

impl AppState {
    /// Bookkeeping for a file added to the queue.
    pub fn note_enqueued(&mut self)
        requires
            old(self).total_queued < usize::MAX,
        ensures
            final(self)@ == old(self)@.enqueued(),
    {
        self.total_queued = self.total_queued + 1;
        self.queue_size = saturating_sub(self.total_queued, self.processed_count);
    }

    /// Bookkeeping for a worker that picks up the file at `path`. The progress
    /// percentage is refreshed separately with [`AppState::refresh_progress`].
    pub fn begin_upload(&mut self, path: String)
        requires
            old(self).active_workers < usize::MAX,
        ensures
            final(self)@ == old(self)@.begun(path@),
    {
        self.active_workers = self.active_workers + 1;
        self.status = String::from_str("uploading");
        self.current_file = Some(path);
        self.queue_size = saturating_sub(self.total_queued, self.processed_count);
    }

    /// Sets the progress percentage; `percent` is `processed / total * 100`
    /// computed by the caller, and is ignored while nothing was queued.
    pub fn refresh_progress(&mut self, percent: u8)
        ensures
            final(self)@ == old(self)@.with_progress(percent as nat),
    {
        self.progress = if self.total_queued > 0 { percent } else { 0 };
    }

    /// Bookkeeping for an upload that failed.
    pub fn note_failure(&mut self)
        requires
            old(self).failed_count < usize::MAX,
        ensures
            final(self)@ == old(self)@.failed_once(),
    {
        self.failed_count = self.failed_count + 1;
    }

    /// Bookkeeping for `n` retry tasks sent back to the queue after a success.
    pub fn note_requeued(&mut self, n: usize)
        requires
            old(self).total_queued + n <= usize::MAX,
        ensures
            final(self)@ == old(self)@.requeued(n as nat),
    {
        self.failed_count = saturating_sub(self.failed_count, n);
        self.total_queued = self.total_queued + n;
    }

    /// Bookkeeping for a worker that finished its file. When the queue is
    /// drained the record turns idle and the completion message is returned;
    /// otherwise the caller refreshes the progress percentage.
    pub fn finish_upload(&mut self) -> (msg: Option<String>)
        requires
            old(self).processed_count < usize::MAX,
            old(self).active_workers > 0,
        ensures
            final(self)@ == old(self)@.finished(),
            old(self)@.drained() ==> msg is Some && msg->0@ == processed_message(
                sat_sub(final(self).processed_count as nat, final(self).failed_count as nat),
            ),
            !old(self)@.drained() ==> msg is None,
    {
        self.processed_count = self.processed_count + 1;
        self.active_workers = self.active_workers - 1;
        self.current_file = None;
        if self.processed_count >= self.total_queued && self.active_workers == 0 {
            self.queue_size = 0;
            self.status = String::from_str("idle");
            self.progress = 100;
            let mut m = String::from_str("Processed ");
            push_decimal(&mut m, saturating_sub(self.processed_count, self.failed_count) as u64);
            m.append(" file(s).");
            Some(m)
        } else {
            self.queue_size = saturating_sub(self.total_queued, self.processed_count);
            self.status = String::from_str("uploading");
            None
        }
    }

    /// Bookkeeping at start-up for the `n` failures persisted by the last run.
    pub fn note_loaded_retries(&mut self, n: usize)
        ensures
            final(self)@ == old(self)@.with_loaded_retries(n as nat),
    {
        if n > 0 {
            self.failed_count = n;
        }
    }

    /// Bookkeeping when the `n` persisted failures are queued again.
    pub fn requeue_loaded_retries(&mut self, n: usize)
        requires
            old(self).total_queued + n <= usize::MAX,
        ensures
            final(self)@ == old(self)@.loaded_retries_requeued(n as nat),
    {
        if n > 0 {
            self.failed_count = 0;
            self.total_queued = self.total_queued + n;
        }
    }
}

/// Two tasks are for the same upload: same path and same checksum.
pub open spec fn same_task(a: FileTask, b: FileTask) -> bool {
    a.path@ == b.path@ && a.checksum@ == b.checksum@
}

/// Whether `s` holds a task for the same upload as `t`.
pub open spec fn has_task(s: Seq<FileTask>, t: FileTask) -> bool {
    exists|i: int| 0 <= i < s.len() && same_task(s[i], t)
}

/// The tasks of `s` with later repeats of an upload left out, in order.
pub open spec fn unique_tasks(s: Seq<FileTask>) -> Seq<FileTask>
    decreases s.len(),
{
    if s.len() == 0 {
        Seq::empty()
    } else {
        let d = unique_tasks(s.drop_last());
        if has_task(d, s.last()) { d } else { d.push(s.last()) }
    }
}

/// Deduplicating loaded retries keeps one task per upload: no two kept tasks
/// are for the same upload, every loaded task has a kept counterpart, and
/// every kept task is one of the loaded ones.
pub proof fn lemma_unique_tasks(s: Seq<FileTask>)
    ensures
        forall|i: int, j: int| 0 <= i < j < unique_tasks(s).len() ==> !same_task(
            #[trigger] unique_tasks(s)[i], #[trigger] unique_tasks(s)[j]),
        forall|i: int| 0 <= i < s.len() ==> has_task(unique_tasks(s), #[trigger] s[i]),
        forall|j: int| 0 <= j < unique_tasks(s).len() ==> exists|i: int| 0 <= i < s.len() && s[i] == #[trigger] unique_tasks(s)[j],
        unique_tasks(s).len() <= s.len(),
    decreases s.len(),
{
    if s.len() > 0 {
        let p = s.drop_last();
        let d = unique_tasks(p);
        lemma_unique_tasks(p);
        let u = unique_tasks(s);
        assert forall|i: int| 0 <= i < s.len() implies has_task(u, #[trigger] s[i]) by {
            if i < p.len() {
                assert(s[i] == p[i]);
                assert(has_task(d, p[i]));
                let w = choose|k: int| 0 <= k < d.len() && same_task(d[k], p[i]);
                assert(u[w] == d[w]);
            } else if !has_task(d, s.last()) {
                assert(same_task(u[d.len() as int], s[i]));
            } else {
                let w = choose|k: int| 0 <= k < d.len() && same_task(d[k], s.last());
                assert(same_task(u[w], s[i]));
            }
        }
        assert forall|j: int| 0 <= j < u.len() implies exists|i: int| 0 <= i < s.len() && s[i] == #[trigger] u[j] by {
            if j < d.len() {
                let w = choose|i: int| 0 <= i < p.len() && p[i] == d[j];
                assert(s[w] == u[j]);
            } else {
                assert(s[s.len() - 1] == u[j]);
            }
        }
        assert forall|i: int, j: int| 0 <= i < j < u.len() implies !same_task(#[trigger] u[i], #[trigger] u[j]) by {
            if j == d.len() && !has_task(d, s.last()) {
                if same_task(u[i], u[j]) {
                    assert(same_task(d[i], s.last()));
                }
            } else {
                assert(u[i] == d[i] && u[j] == d[j]);
            }
        }
    }
}

fn holds_task(kept: &Vec<FileTask>, t: &FileTask) -> (b: bool)
    ensures
        b == has_task(kept@, *t),
{
    let n = kept.len();
    let mut i: usize = 0;
    while i < n
        invariant
            n == kept@.len(),
            i <= n,
            forall|j: int| 0 <= j < i ==> !same_task(#[trigger] kept@[j], *t),
        decreases n - i,
    {
        if same_text(kept[i].path.as_str(), t.path.as_str())
            && same_text(kept[i].checksum.as_str(), t.checksum.as_str())
        {
            assert(same_task(kept@[i as int], *t));
            return true;
        }
        i = i + 1;
    }
    false
}

/// Drops later repeats of an upload (same path and checksum) from a list of
/// tasks loaded at start-up, keeping the first of each in order.
pub fn dedup_tasks(tasks: Vec<FileTask>) -> (out: Vec<FileTask>)
    ensures
        out@ == unique_tasks(tasks@),
{
    let ghost all = tasks@;
    let mut rest = tasks;
    let mut out: Vec<FileTask> = Vec::new();
    let n = rest.len();
    let mut k: usize = 0;
    while k < n
        invariant
            n == all.len(),
            k <= n,
            rest@ == all.subrange(k as int, n as int),
            out@ == unique_tasks(all.subrange(0, k as int)),
        decreases n - k,
    {
        let t = rest.remove(0);
        assert(t == all[k as int]);
        assert(all.subrange(0, k + 1).drop_last() =~= all.subrange(0, k as int));
        if !holds_task(&out, &t) {
            out.push(t);
        }
        assert(rest@ =~= all.subrange(k + 1, n as int));
        k = k + 1;
    }
    assert(all.subrange(0, n as int) =~= all);
    out
}

/// `n` files added to the queue one after the other.
pub open spec fn enqueue_many(s: AppStateView, n: nat) -> AppStateView
    decreases n,
{
    if n == 0 { s } else { enqueue_many(s, (n - 1) as nat).enqueued() }
}

/// `k` files uploaded one after the other by a single worker, each one picked
/// up, given a progress percentage and finished.
pub open spec fn process_many(s: AppStateView, k: nat, path: Seq<char>, percent: nat) -> AppStateView
    decreases k,
{
    if k == 0 {
        s
    } else {
        process_many(s, (k - 1) as nat, path, percent).begun(path).with_progress(percent).finished()
    }
}

/// Queueing one file on a drained record and uploading it brings the record
/// back to idle: one more file queued and processed, nothing pending, full
/// progress, no worker busy and the failure count untouched.
pub proof fn lemma_single_upload_returns_to_idle(s: AppStateView, path: Seq<char>, percent: nat)
    requires
        s.active_workers == 0,
        s.processed_count == s.total_queued,
    ensures
        ({
            let t = s.enqueued().begun(path).with_progress(percent).finished();
            &&& t.status == "idle"@
            &&& t.queue_size == 0
            &&& t.progress == 100
            &&& t.active_workers == 0
            &&& t.current_file is None
            &&& t.total_queued == s.total_queued + 1
            &&& t.processed_count == s.processed_count + 1
            &&& t.failed_count == s.failed_count
        }),
{
}

/// `k` failed uploads in a row.
pub open spec fn fail_many(s: AppStateView, k: nat) -> AppStateView
    decreases k,
{
    if k == 0 { s } else { fail_many(s, (k - 1) as nat).failed_once() }
}

/// Re-queueing `n` retry tasks lowers the failure count by `n` (stopping at
/// zero) and raises the queued count by `n`; so a success after `k` failures
/// kept for retry brings the failure count back to where it was before them.
pub proof fn lemma_requeue_clears_failures(s: AppStateView, n: nat, k: nat)
    ensures
        s.failed_count >= n ==> s.requeued(n).failed_count + n == s.failed_count,
        s.failed_count < n ==> s.requeued(n).failed_count == 0,
        s.requeued(n).total_queued == s.total_queued + n,
        fail_many(s, k).failed_count == s.failed_count + k,
        fail_many(s, k).requeued(k).failed_count == s.failed_count,
        fail_many(s, k).requeued(k).total_queued == s.total_queued + k,
    decreases k,
{
    if k > 0 {
        lemma_requeue_clears_failures(s, n, (k - 1) as nat);
    }
}

/// A failure followed by the re-queueing of that one task leaves the failure
/// count where it was and counts the task as queued once more.
pub proof fn lemma_failure_then_requeue_balances(s: AppStateView)
    ensures
        s.failed_once().requeued(1).failed_count == s.failed_count,
        s.failed_once().requeued(1).total_queued == s.total_queued + 1,
{
}

proof fn lemma_enqueue_many(s: AppStateView, n: nat)
    ensures
        enqueue_many(s, n).total_queued == s.total_queued + n,
        enqueue_many(s, n).processed_count == s.processed_count,
        enqueue_many(s, n).active_workers == s.active_workers,
        enqueue_many(s, n).failed_count == s.failed_count,
    decreases n,
{
    if n > 0 {
        lemma_enqueue_many(s, (n - 1) as nat);
    }
}

proof fn lemma_process_many(s: AppStateView, k: nat, path: Seq<char>, percent: nat)
    requires
        s.active_workers == 0,
        s.processed_count + k <= s.total_queued,
    ensures
        process_many(s, k, path, percent).processed_count == s.processed_count + k,
        process_many(s, k, path, percent).total_queued == s.total_queued,
        process_many(s, k, path, percent).active_workers == 0,
        process_many(s, k, path, percent).failed_count == s.failed_count,
        k > 0 && s.processed_count + k == s.total_queued ==> {
            let t = process_many(s, k, path, percent);
            &&& t.status == "idle"@
            &&& t.queue_size == 0
            &&& t.progress == 100
        },
        k > 0 && s.processed_count + k < s.total_queued ==>
            process_many(s, k, path, percent).status == "uploading"@,
    decreases k,
{
    if k > 0 {
        lemma_process_many(s, (k - 1) as nat, path, percent);
    }
}

/// Queueing `n` files on a drained record and then uploading them one by one
/// ends idle with all `n` counted as queued and processed, nothing pending and
/// full progress; every intermediate record reports uploading.
pub proof fn lemma_batch_drains_to_idle(s: AppStateView, n: nat, path: Seq<char>, percent: nat)
    requires
        s.active_workers == 0,
        s.processed_count == s.total_queued,
        n > 0,
    ensures
        ({
            let t = process_many(enqueue_many(s, n), n, path, percent);
            &&& t.status == "idle"@
            &&& t.queue_size == 0
            &&& t.progress == 100
            &&& t.active_workers == 0
            &&& t.total_queued == s.total_queued + n
            &&& t.processed_count == s.processed_count + n
            &&& t.failed_count == s.failed_count
        }),
        forall|k: nat| 0 < k < n ==> #[trigger] process_many(enqueue_many(s, n), k, path, percent).status
            == "uploading"@,
{
    lemma_enqueue_many(s, n);
    lemma_process_many(enqueue_many(s, n), n, path, percent);
    assert forall|k: nat| 0 < k < n implies #[trigger] process_many(enqueue_many(s, n), k, path, percent).status
        == "uploading"@ by {
        lemma_process_many(enqueue_many(s, n), k, path, percent);
    }
}

/// Failed tasks kept in memory until a later upload succeeds (then they are
/// queued again) or the daemon shuts down (then they are written to disk).
pub struct RetryList {
    pub tasks: Vec<FileTask>,
}

impl RetryList {
    /// An empty retry list.
    pub fn new() -> (r: RetryList)
        ensures
            r.tasks@.len() == 0,
    {
        RetryList { tasks: Vec::new() }
    }

    /// Keeps a failed task for later.
    pub fn record_failure(&mut self, task: FileTask)
        ensures
            final(self).tasks@ == old(self).tasks@.push(task),
    {
        self.tasks.push(task);
    }

    /// Takes every kept task, leaving the list empty.
    pub fn drain(&mut self) -> (taken: Vec<FileTask>)
        ensures
            taken@ == old(self).tasks@,
            final(self).tasks@.len() == 0,
    {
        let mut taken = Vec::new();
        std::mem::swap(&mut taken, &mut self.tasks);
        taken
    }

    /// Whether shutting down has anything to persist.
    pub fn needs_flush(&self) -> (b: bool)
        ensures
            b == (self.tasks@.len() > 0),
    {
        self.tasks.len() > 0
    }
}

/// The retry list side of settling an attempt of `task` while `kept` waits
/// for retry: (tasks handed back for queueing, tasks kept afterwards).
pub open spec fn settled_retries(kept: Seq<FileTask>, task: FileTask, success: bool) -> (Seq<FileTask>, Seq<FileTask>) {
    if success { (kept, Seq::empty()) } else { (Seq::empty(), kept.push(task)) }
}

/// A failed task is handed back, last, by the next successful upload: a
/// failure of `task` followed by a success of `other` hands back every task
/// kept before, then `task`, and leaves nothing kept.
pub proof fn lemma_failed_task_requeued_on_next_success(kept: Seq<FileTask>, task: FileTask, other: FileTask)
    ensures
        settled_retries(settled_retries(kept, task, false).1, other, true).0 == kept.push(task),
        settled_retries(settled_retries(kept, task, false).1, other, true).1.len() == 0,
{
}

impl AppState {
    /// Settles the bookkeeping of an upload attempt of `task`. After a success
    /// every kept retry task is taken out (and returned, to be queued again)
    /// and counted as queued; after a failure the task is kept for retry and
    /// counted as failed.
    pub fn settle_upload(&mut self, retries: &mut RetryList, task: FileTask, success: bool) -> (requeue: Vec<FileTask>)
        requires
            old(self).total_queued + old(retries).tasks@.len() <= usize::MAX,
            old(self).failed_count < usize::MAX,
        ensures
            (requeue@, final(retries).tasks@) == settled_retries(old(retries).tasks@, task, success),
            success ==> final(self)@ == old(self)@.requeued(old(retries).tasks@.len()),
            !success ==> final(self)@ == old(self)@.failed_once(),
    {
        if success {
            let taken = retries.drain();
            if taken.len() > 0 {
                self.note_requeued(taken.len());
            } else {
                proof {
                    assert(old(self)@.requeued(0) == old(self)@);
                }
            }
            taken
        } else {
            retries.record_failure(task);
            self.note_failure();
            let none: Vec<FileTask> = Vec::new();
            assert(none@ =~= Seq::<FileTask>::empty());
            none
        }
    }
}

/// What the server's answer to an upload means for the task.
pub enum UploadOutcome {
    /// Nothing was stored; the task goes to the retry list.
    Failed,
    /// The server already held the file.
    AlreadyOnServer,
    /// A new asset with this id was stored.
    Uploaded(String),
}

/// The marker the client returns for an asset the server already holds.
pub open spec fn duplicate_marker() -> Seq<char> {
    "DUPLICATE"@
}

/// Reads the asset id returned by an upload: none means failure, the
/// duplicate marker means the file was already there.
pub fn classify_upload(asset_id: Option<String>) -> (o: UploadOutcome)
    ensures
        match asset_id {
            None => o is Failed,
            Some(id) => if id@ == duplicate_marker() {
                o is AlreadyOnServer
            } else {
                (o matches UploadOutcome::Uploaded(x) && x@ == id@)
            },
        },
{
    match asset_id {
        None => UploadOutcome::Failed,
        Some(id) => {
            if same_text(id.as_str(), "DUPLICATE") {
                UploadOutcome::AlreadyOnServer
            } else {
                UploadOutcome::Uploaded(id)
            }
        }
    }
}

/// Whether a task counts as done (and is not retried) after this outcome.
pub open spec fn outcome_succeeds(o: UploadOutcome) -> bool {
    !(o is Failed)
}

/// The label the settings window uses for "no explicit album".
pub open spec fn default_album_label() -> Seq<char> {
    "Default (Folder Name)"@
}

/// The album a file falls back to: the name of the folder that holds it, or
/// "Mimick" when the path has no such folder.
pub open spec fn folder_album_name(path: Seq<char>) -> Seq<char> {
    match path_parent_of(path) {
        Some(parent) => match path_file_name_of(parent) {
            Some(name) => name,
            None => "Mimick"@,
        },
        None => "Mimick"@,
    }
}

/// The album name for a task: its configured name unless empty or the default
/// label, else the folder fallback.
pub open spec fn task_album_name(task: FileTask) -> Seq<char> {
    match task.album_name {
        Some(n) if n@.len() > 0 && n@ != default_album_label() => n@,
        _ => folder_album_name(task.path@),
    }
}

/// How an uploaded asset is attached to an album.
pub enum AlbumPlan {
    /// The task names the album id directly.
    UseId(String),
    /// Look the album up by name, creating it when missing.
    LookupOrCreate(String),
}

/// The album name for a task (see [`task_album_name`]).
pub fn album_name_for_task(task: &FileTask) -> (name: String)
    ensures
        name@ == task_album_name(*task),
{
    match &task.album_name {
        Some(n) => {
            if n.as_str().unicode_len() > 0 && !same_text(n.as_str(), "Default (Folder Name)") {
                return n.clone();
            }
        },
        None => {},
    }
    match path_parent(task.path.as_str()) {
        Some(parent) => match path_file_name(parent.as_str()) {
            Some(name) => name,
            None => String::from_str("Mimick"),
        },
        None => String::from_str("Mimick"),
    }
}

/// Decides how an uploaded asset of `task` reaches its album: a non-empty
/// configured id is used as is, otherwise the album is found or created by name.
pub fn plan_album(task: &FileTask) -> (plan: AlbumPlan)
    ensures
        match task.album_id {
            Some(id) if id@.len() > 0 => (plan matches AlbumPlan::UseId(x) && x@ == id@),
            _ => (plan matches AlbumPlan::LookupOrCreate(n) && n@ == task_album_name(*task)),
        },
{
    match &task.album_id {
        Some(id) => {
            if id.as_str().unicode_len() > 0 {
                return AlbumPlan::UseId(id.clone());
            }
        },
        None => {},
    }
    AlbumPlan::LookupOrCreate(album_name_for_task(task))
}

} // verus!
