//! Startup reconciliation: what the store and the staged selections left by
//! an earlier process require before new submissions are accepted.
use vstd::prelude::*;
use vstd::string::*;

use crate::pending::PendingDownload;
use crate::pending::PendingConversion;
use crate::queue::{
    conversion_rows_entries, conversion_rows_map, download_rows_entries, TaskQueue, MAX_CONCURRENT_TASKS,
};
use crate::store::{
    conversion_files, conversion_files_spec, expired_rows, live_rows, split_expired, task_files, task_files_spec,
    texts, unix_now, PendingConversionRow, PendingDownloadRow, TaskRow, Timestamped,
};

verus! {

/// Messages that recovery sends to a chat.
#[derive(Debug, Clone, Copy, PartialEq, Eq, Structural)]
pub enum Notice {
    /// A task was processing when the process stopped.
    Interrupted,
    /// A task was waiting in the queue when the process stopped.
    QueueReset,
    /// A link was waiting for a quality choice; it must be sent again.
    ResendLink,
    /// A downloaded file that waited for a format choice is gone.
    FileLost,
}

/// One thing that recovery asks the caller to do.
#[derive(Debug)]
pub enum RecoveryAction {
    Notify { chat_id: i64, notice: Notice },
    DeleteFile(String),
    DeleteTaskRow(String),
    DeletePendingDownloadRow(String),
    DeletePendingConversionRow(String),
    /// Show the format choice again, under the same short identifier.
    OfferFormats { chat_id: i64, short_id: String },
}

/// A recovery action with its texts.
pub enum RecoveryStep {
    Notify { chat_id: i64, notice: Notice },
    DeleteFile(Seq<char>),
    DeleteTaskRow(Seq<char>),
    DeletePendingDownloadRow(Seq<char>),
    DeletePendingConversionRow(Seq<char>),
    OfferFormats { chat_id: i64, short_id: Seq<char> },
}

impl View for RecoveryAction {
    type V = RecoveryStep;

    open spec fn view(&self) -> RecoveryStep {
        match self {
            RecoveryAction::Notify { chat_id, notice } => RecoveryStep::Notify { chat_id: *chat_id, notice: *notice },
            RecoveryAction::DeleteFile(f) => RecoveryStep::DeleteFile(f@),
            RecoveryAction::DeleteTaskRow(id) => RecoveryStep::DeleteTaskRow(id@),
            RecoveryAction::DeletePendingDownloadRow(id) => RecoveryStep::DeletePendingDownloadRow(id@),
            RecoveryAction::DeletePendingConversionRow(id) => RecoveryStep::DeletePendingConversionRow(id@),
            RecoveryAction::OfferFormats { chat_id, short_id } => RecoveryStep::OfferFormats {
                chat_id: *chat_id,
                short_id: short_id@,
            },
        }
    }
}

pub open spec fn steps(v: Seq<RecoveryAction>) -> Seq<RecoveryStep> {
    v.map_values(|a: RecoveryAction| a@)
}

pub open spec fn delete_opt(o: Option<String>) -> Seq<RecoveryStep> {
    match o {
        Some(f) => seq![RecoveryStep::DeleteFile(f@)],
        None => seq![],
    }
}

/// A task row that was processing or queued: the chat is told, the task's
/// files and the row are deleted. Other rows need nothing.
pub open spec fn task_row_steps(r: TaskRow) -> Seq<RecoveryStep> {
    if r.status@ == "processing"@ || r.status@ == "queued"@ {
        seq![
            RecoveryStep::Notify {
                chat_id: r.chat_id,
                notice: if r.status@ == "processing"@ {
                    Notice::Interrupted
                } else {
                    Notice::QueueReset
                },
            },
        ] + delete_opt(r.filename) + delete_opt(r.thumbnail_path) + seq![RecoveryStep::DeleteTaskRow(r.id@)]
    } else {
        seq![]
    }
}

pub open spec fn task_steps(rows: Seq<TaskRow>) -> Seq<RecoveryStep>
    decreases rows.len(),
{
    if rows.len() == 0 {
        seq![]
    } else {
        task_steps(rows.drop_last()) + task_row_steps(rows.last())
    }
}

/// Each staged download: the chat is asked to send the link again and the
/// row is deleted.
pub open spec fn download_steps(es: Seq<(Seq<char>, PendingDownload)>) -> Seq<RecoveryStep>
    decreases es.len(),
{
    if es.len() == 0 {
        seq![]
    } else {
        download_steps(es.drop_last()) + seq![
            RecoveryStep::Notify { chat_id: es.last().1.chat_id, notice: Notice::ResendLink },
            RecoveryStep::DeletePendingDownloadRow(es.last().0),
        ]
    }
}

/// Each staged conversion: if its file is lost the chat is told and the row
/// deleted; otherwise the format choice is offered again.
pub open spec fn conversion_steps(es: Seq<(Seq<char>, PendingConversion)>, lost: Seq<Seq<char>>) -> Seq<RecoveryStep>
    decreases es.len(),
{
    if es.len() == 0 {
        seq![]
    } else {
        conversion_steps(es.drop_last(), lost) + if lost.contains(es.last().0) {
            seq![
                RecoveryStep::Notify { chat_id: es.last().1.chat_id, notice: Notice::FileLost },
                RecoveryStep::DeletePendingConversionRow(es.last().0),
            ]
        } else {
            seq![RecoveryStep::OfferFormats { chat_id: es.last().1.chat_id, short_id: es.last().0 }]
        }
    }
}

/// `m` without the keys in `keys`.
pub open spec fn without_keys<V>(m: Map<Seq<char>, V>, keys: Seq<Seq<char>>) -> Map<Seq<char>, V>
    decreases keys.len(),
{
    if keys.len() == 0 {
        m
    } else {
        without_keys(m, keys.drop_last()).remove(keys.last())
    }
}

fn push_action(out: &mut Vec<RecoveryAction>, a: RecoveryAction)
    ensures
        steps(final(out)@) == steps(old(out)@).push(a@),
{
    let ghost g = a@;
    out.push(a);
    assert(steps(final(out)@) =~= steps(old(out)@).push(g));
}

fn push_delete_opt(out: &mut Vec<RecoveryAction>, o: &Option<String>)
    ensures
        steps(final(out)@) == steps(old(out)@) + delete_opt(*o),
{
    let ghost before = steps(out@);
    match o {
        Some(f) => {
            push_action(out, RecoveryAction::DeleteFile(f.clone()));
        },
        None => {},
    }
    assert(steps(out@) =~= before + delete_opt(*o));
}

fn status_is(r: &TaskRow, name: &str) -> (b: bool)
    ensures
        b == (r.status@ == name@),
{
    r.status == String::from_str(name)
}

/// What recovery does for one task row.
pub fn recover_task_row(out: &mut Vec<RecoveryAction>, row: &TaskRow)
    ensures
        steps(final(out)@) == steps(old(out)@) + task_row_steps(*row),
{
    let processing = status_is(row, "processing");
    let queued = status_is(row, "queued");
    if processing || queued {
        let ghost before = steps(out@);
        let notice = if processing {
            Notice::Interrupted
        } else {
            Notice::QueueReset
        };
        push_action(out, RecoveryAction::Notify { chat_id: row.chat_id, notice });
        push_delete_opt(out, &row.filename);
        push_delete_opt(out, &row.thumbnail_path);
        push_action(out, RecoveryAction::DeleteTaskRow(row.id.clone()));
        assert(steps(out@) =~= before + task_row_steps(*row));
    } else {
        assert(steps(out@) =~= steps(old(out)@) + task_row_steps(*row));
    }
}

fn contains_text(v: &Vec<String>, s: &String) -> (r: bool)
    ensures
        r == texts(v@).contains(s@),
{
    let mut i: usize = 0;
    while i < v.len()
        invariant
            i <= v@.len(),
            forall|j: int| 0 <= j < i ==> v@[j]@ != s@,
        decreases v@.len() - i,
    {
        if v[i] == *s {
            assert(texts(v@)[i as int] == s@);
            return true;
        }
        i = i + 1;
    }
    assert forall|j: int| 0 <= j < texts(v@).len() implies texts(v@)[j] != s@ by {
        assert(texts(v@)[j] == v@[j]@);
    }
    false
}

impl TaskQueue {
    /// Reconciles what an earlier process left behind. `tasks` are the live
    /// rows of the `tasks` table; `lost` holds the short identifiers of
    /// staged conversions whose file no longer exists.
    ///
    /// No task can still be running in a fresh process, so every processing
    /// or queued row is reported to its chat and cleaned up, never resumed.
    /// Staged downloads are dropped and their chats asked to send the link
    /// again. Staged conversions whose file is lost are dropped with a
    /// notice; the others are offered again under the same identifier.
    pub fn restore_on_startup(&mut self, tasks: &Vec<TaskRow>, lost: &Vec<String>) -> (r: Vec<RecoveryAction>)
        requires
            old(self).wf(),
        ensures
            final(self).wf(),
            steps(r@) == task_steps(tasks@) + download_steps(old(self).download_entries()) + conversion_steps(
                old(self).conversion_entries(),
                texts(lost@),
            ),
            final(self).downloads() == Map::<Seq<char>, PendingDownload>::empty(),
            final(self).conversions() == without_keys(old(self).conversions(), texts(lost@)),
            final(self).same_tasks(old(self)),
    {
        let mut out: Vec<RecoveryAction> = Vec::new();
        let mut i: usize = 0;
        while i < tasks.len()
            invariant
                i <= tasks@.len(),
                steps(out@) == task_steps(tasks@.subrange(0, i as int)),
            decreases tasks@.len() - i,
        {
            recover_task_row(&mut out, &tasks[i]);
            let ghost next = tasks@.subrange(0, i + 1);
            assert(next.drop_last() =~= tasks@.subrange(0, i as int));
            i = i + 1;
        }
        assert(tasks@.subrange(0, i as int) =~= tasks@);
        let ghost after_tasks = steps(out@);
        let n = self.staged_download_count();
        let mut j: usize = 0;
        while j < n
            invariant
                self.wf(),
                self == old(self),
                n == self.download_entries().len(),
                j <= n,
                steps(out@) == after_tasks + download_steps(self.download_entries().subrange(0, j as int)),
            decreases n - j,
        {
            let (key, pending) = self.staged_download_at(j);
            push_action(&mut out, RecoveryAction::Notify { chat_id: pending.chat_id, notice: Notice::ResendLink });
            push_action(&mut out, RecoveryAction::DeletePendingDownloadRow(key.clone()));
            let ghost next = self.download_entries().subrange(0, j + 1);
            assert(next.drop_last() =~= self.download_entries().subrange(0, j as int));
            assert(steps(out@) =~= after_tasks + download_steps(next));
            j = j + 1;
        }
        assert(self.download_entries().subrange(0, j as int) =~= self.download_entries());
        let ghost after_downloads = steps(out@);
        let ghost lost_texts = texts(lost@);
        let m = self.staged_conversion_count();
        let mut k: usize = 0;
        while k < m
            invariant
                self.wf(),
                self == old(self),
                m == self.conversion_entries().len(),
                k <= m,
                lost_texts == texts(lost@),
                steps(out@) == after_downloads + conversion_steps(
                    self.conversion_entries().subrange(0, k as int),
                    lost_texts,
                ),
            decreases m - k,
        {
            let (key, pending) = self.staged_conversion_at(k);
            if contains_text(lost, key) {
                push_action(&mut out, RecoveryAction::Notify { chat_id: pending.chat_id, notice: Notice::FileLost });
                push_action(&mut out, RecoveryAction::DeletePendingConversionRow(key.clone()));
            } else {
                push_action(&mut out, RecoveryAction::OfferFormats { chat_id: pending.chat_id, short_id: key.clone() });
            }
            let ghost next = self.conversion_entries().subrange(0, k + 1);
            assert(next.drop_last() =~= self.conversion_entries().subrange(0, k as int));
            assert(steps(out@) =~= after_downloads + conversion_steps(next, lost_texts));
            k = k + 1;
        }
        assert(self.conversion_entries().subrange(0, k as int) =~= self.conversion_entries());
        self.clear_pending_downloads();
        let ghost base = self.conversions();
        let mut x: usize = 0;
        while x < lost.len()
            invariant
                self.wf(),
                x <= lost@.len(),
                self.conversions() == without_keys(base, texts(lost@.subrange(0, x as int))),
                self.downloads() == Map::<Seq<char>, PendingDownload>::empty(),
                self.same_tasks(old(self)),
            decreases lost@.len() - x,
        {
            let _ = self.take_pending_conversion(lost[x].as_str());
            assert(texts(lost@.subrange(0, x + 1)).drop_last() =~= texts(lost@.subrange(0, x as int)));
            assert(texts(lost@.subrange(0, x + 1)).last() == lost@[x as int]@);
            x = x + 1;
        }
        assert(lost@.subrange(0, x as int) =~= lost@);
        out
    }
}

/// What the purge of expired rows leaves and asks for.
pub struct Purge {
    /// Staged downloads still live.
    pub downloads: Vec<PendingDownloadRow>,
    /// Staged conversions still live.
    pub conversions: Vec<PendingConversionRow>,
    /// Task rows still live.
    pub tasks: Vec<TaskRow>,
    /// Deletions of the expired rows and of the files they hold.
    pub actions: Vec<RecoveryAction>,
}

pub open spec fn file_deletions(files: Seq<Seq<char>>) -> Seq<RecoveryStep> {
    files.map_values(|f: Seq<char>| RecoveryStep::DeleteFile(f))
}

pub open spec fn download_row_deletions(rows: Seq<PendingDownloadRow>) -> Seq<RecoveryStep> {
    rows.map_values(|r: PendingDownloadRow| RecoveryStep::DeletePendingDownloadRow(r.short_id@))
}

pub open spec fn conversion_row_deletions(rows: Seq<PendingConversionRow>) -> Seq<RecoveryStep> {
    rows.map_values(|r: PendingConversionRow| RecoveryStep::DeletePendingConversionRow(r.short_id@))
}

pub open spec fn task_row_deletions(rows: Seq<TaskRow>) -> Seq<RecoveryStep> {
    rows.map_values(|r: TaskRow| RecoveryStep::DeleteTaskRow(r.id@))
}

/// Expired staged downloads lose their rows only, as no file exists for
/// them yet; expired staged conversions and tasks lose their rows and then
/// their files.
pub open spec fn purge_steps(
    downloads: Seq<PendingDownloadRow>,
    conversions: Seq<PendingConversionRow>,
    tasks: Seq<TaskRow>,
) -> Seq<RecoveryStep> {
    download_row_deletions(downloads) + conversion_row_deletions(conversions) + file_deletions(
        conversion_files_spec(conversions),
    ) + task_row_deletions(tasks) + file_deletions(task_files_spec(tasks))
}

fn push_file_deletions(out: &mut Vec<RecoveryAction>, files: &Vec<String>)
    ensures
        steps(final(out)@) == steps(old(out)@) + file_deletions(texts(files@)),
{
    let mut i: usize = 0;
    while i < files.len()
        invariant
            i <= files@.len(),
            steps(out@) == steps(old(out)@) + file_deletions(texts(files@.subrange(0, i as int))),
        decreases files@.len() - i,
    {
        push_action(out, RecoveryAction::DeleteFile(files[i].clone()));
        assert(file_deletions(texts(files@.subrange(0, i + 1))) =~= file_deletions(
            texts(files@.subrange(0, i as int)),
        ).push(RecoveryStep::DeleteFile(files@[i as int]@)));
        i = i + 1;
    }
    assert(files@.subrange(0, i as int) =~= files@);
}

fn push_download_deletions(out: &mut Vec<RecoveryAction>, rows: &Vec<PendingDownloadRow>)
    ensures
        steps(final(out)@) == steps(old(out)@) + download_row_deletions(rows@),
{
    let mut i: usize = 0;
    while i < rows.len()
        invariant
            i <= rows@.len(),
            steps(out@) == steps(old(out)@) + download_row_deletions(rows@.subrange(0, i as int)),
        decreases rows@.len() - i,
    {
        push_action(out, RecoveryAction::DeletePendingDownloadRow(rows[i].short_id.clone()));
        assert(download_row_deletions(rows@.subrange(0, i + 1)) =~= download_row_deletions(
            rows@.subrange(0, i as int),
        ).push(RecoveryStep::DeletePendingDownloadRow(rows@[i as int].short_id@)));
        i = i + 1;
    }
    assert(rows@.subrange(0, i as int) =~= rows@);
}

fn push_conversion_deletions(out: &mut Vec<RecoveryAction>, rows: &Vec<PendingConversionRow>)
    ensures
        steps(final(out)@) == steps(old(out)@) + conversion_row_deletions(rows@),
{
    let mut i: usize = 0;
    while i < rows.len()
        invariant
            i <= rows@.len(),
            steps(out@) == steps(old(out)@) + conversion_row_deletions(rows@.subrange(0, i as int)),
        decreases rows@.len() - i,
    {
        push_action(out, RecoveryAction::DeletePendingConversionRow(rows[i].short_id.clone()));
        assert(conversion_row_deletions(rows@.subrange(0, i + 1)) =~= conversion_row_deletions(
            rows@.subrange(0, i as int),
        ).push(RecoveryStep::DeletePendingConversionRow(rows@[i as int].short_id@)));
        i = i + 1;
    }
    assert(rows@.subrange(0, i as int) =~= rows@);
}

fn push_task_deletions(out: &mut Vec<RecoveryAction>, rows: &Vec<TaskRow>)
    ensures
        steps(final(out)@) == steps(old(out)@) + task_row_deletions(rows@),
{
    let mut i: usize = 0;
    while i < rows.len()
        invariant
            i <= rows@.len(),
            steps(out@) == steps(old(out)@) + task_row_deletions(rows@.subrange(0, i as int)),
        decreases rows@.len() - i,
    {
        push_action(out, RecoveryAction::DeleteTaskRow(rows[i].id.clone()));
        assert(task_row_deletions(rows@.subrange(0, i + 1)) =~= task_row_deletions(rows@.subrange(0, i as int)).push(
            RecoveryStep::DeleteTaskRow(rows@[i as int].id@),
        ));
        i = i + 1;
    }
    assert(rows@.subrange(0, i as int) =~= rows@);
}

/// The first step of recovery: the rows of all three tables that are
/// expired at `now` are deleted, and with them the files of expired staged
/// conversions and conversion tasks. The live rows are handed back, to be
/// loaded and reconciled by `TaskQueue::new` and `restore_on_startup`.
pub fn purge_expired(
    downloads: Vec<PendingDownloadRow>,
    conversions: Vec<PendingConversionRow>,
    tasks: Vec<TaskRow>,
    now: i64,
) -> (r: Purge)
    ensures
        r.downloads@ == live_rows(downloads@, now),
        r.conversions@ == live_rows(conversions@, now),
        r.tasks@ == live_rows(tasks@, now),
        steps(r.actions@) == purge_steps(
            expired_rows(downloads@, now),
            expired_rows(conversions@, now),
            expired_rows(tasks@, now),
        ),
{
    let (live_d, gone_d) = split_expired(downloads, now);
    let (live_c, gone_c) = split_expired(conversions, now);
    let (live_t, gone_t) = split_expired(tasks, now);
    let mut out: Vec<RecoveryAction> = Vec::new();
    assert(steps(out@) =~= Seq::<RecoveryStep>::empty());
    push_download_deletions(&mut out, &gone_d);
    push_conversion_deletions(&mut out, &gone_c);
    let files_c = conversion_files(&gone_c);
    push_file_deletions(&mut out, &files_c);
    push_task_deletions(&mut out, &gone_t);
    let files_t = task_files(&gone_t);
    push_file_deletions(&mut out, &files_t);
    assert(steps(out@) =~= purge_steps(gone_d@, gone_c@, gone_t@));
    Purge { downloads: live_d, conversions: live_c, tasks: live_t, actions: out }
}

/// `purge_expired` at the current time.
pub fn purge_expired_now(
    downloads: Vec<PendingDownloadRow>,
    conversions: Vec<PendingConversionRow>,
    tasks: Vec<TaskRow>,
) -> (r: Purge)
    ensures
        exists|now: i64|
            r.downloads@ == live_rows(downloads@, now) && r.conversions@ == live_rows(conversions@, now)
                && r.tasks@ == live_rows(tasks@, now) && steps(r.actions@) == purge_steps(
                expired_rows(downloads@, now),
                expired_rows(conversions@, now),
                expired_rows(tasks@, now),
            ),
{
    let now = unix_now();
    purge_expired(downloads, conversions, tasks, now)
}

/// Identifiers of the staged downloads of one chat, in staging order.
pub open spec fn chat_download_keys(es: Seq<(Seq<char>, PendingDownload)>, chat_id: i64) -> Seq<Seq<char>>
    decreases es.len(),
{
    if es.len() == 0 {
        seq![]
    } else if es.last().1.chat_id == chat_id {
        chat_download_keys(es.drop_last(), chat_id).push(es.last().0)
    } else {
        chat_download_keys(es.drop_last(), chat_id)
    }
}

/// Identifiers of the staged conversions of one chat, in staging order.
pub open spec fn chat_conversion_keys(es: Seq<(Seq<char>, PendingConversion)>, chat_id: i64) -> Seq<Seq<char>>
    decreases es.len(),
{
    if es.len() == 0 {
        seq![]
    } else if es.last().1.chat_id == chat_id {
        chat_conversion_keys(es.drop_last(), chat_id).push(es.last().0)
    } else {
        chat_conversion_keys(es.drop_last(), chat_id)
    }
}

/// What cancelling a chat's staged selections asks for: each staged
/// download loses its row; each staged conversion loses its row and its
/// files.
pub open spec fn cancel_steps(
    downloads: Seq<(Seq<char>, PendingDownload)>,
    conversions: Seq<(Seq<char>, PendingConversion)>,
    chat_id: i64,
) -> Seq<RecoveryStep> {
    cancel_download_steps(downloads, chat_id) + cancel_conversion_steps(conversions, chat_id)
}

pub open spec fn cancel_download_steps(es: Seq<(Seq<char>, PendingDownload)>, chat_id: i64) -> Seq<RecoveryStep>
    decreases es.len(),
{
    if es.len() == 0 {
        seq![]
    } else if es.last().1.chat_id == chat_id {
        cancel_download_steps(es.drop_last(), chat_id).push(RecoveryStep::DeletePendingDownloadRow(es.last().0))
    } else {
        cancel_download_steps(es.drop_last(), chat_id)
    }
}

pub open spec fn cancel_conversion_steps(es: Seq<(Seq<char>, PendingConversion)>, chat_id: i64) -> Seq<RecoveryStep>
    decreases es.len(),
{
    if es.len() == 0 {
        seq![]
    } else if es.last().1.chat_id == chat_id {
        cancel_conversion_steps(es.drop_last(), chat_id) + seq![
            RecoveryStep::DeletePendingConversionRow(es.last().0),
            RecoveryStep::DeleteFile(es.last().1.filename@),
        ] + delete_opt(es.last().1.thumbnail_path)
    } else {
        cancel_conversion_steps(es.drop_last(), chat_id)
    }
}

impl TaskQueue {
    /// Drops every staged selection of a chat, which has not become a task
    /// yet; tasks already submitted run to their end. Returns the deletions
    /// of the rows and of the downloaded files that the dropped selections
    /// held.
    pub fn cancel_staged(&mut self, chat_id: i64) -> (r: Vec<RecoveryAction>)
        requires
            old(self).wf(),
        ensures
            final(self).wf(),
            steps(r@) == cancel_steps(old(self).download_entries(), old(self).conversion_entries(), chat_id),
            final(self).downloads() == without_keys(
                old(self).downloads(),
                chat_download_keys(old(self).download_entries(), chat_id),
            ),
            final(self).conversions() == without_keys(
                old(self).conversions(),
                chat_conversion_keys(old(self).conversion_entries(), chat_id),
            ),
            final(self).same_tasks(old(self)),
    {
        let mut out: Vec<RecoveryAction> = Vec::new();
        let mut download_ids: Vec<String> = Vec::new();
        let n = self.staged_download_count();
        let mut j: usize = 0;
        while j < n
            invariant
                self.wf(),
                self == old(self),
                n == self.download_entries().len(),
                j <= n,
                steps(out@) == cancel_download_steps(self.download_entries().subrange(0, j as int), chat_id),
                texts(download_ids@) == chat_download_keys(self.download_entries().subrange(0, j as int), chat_id),
            decreases n - j,
        {
            let (key, pending) = self.staged_download_at(j);
            let ghost before_ids = texts(download_ids@);
            if pending.chat_id == chat_id {
                push_action(&mut out, RecoveryAction::DeletePendingDownloadRow(key.clone()));
                download_ids.push(key.clone());
                assert(texts(download_ids@) =~= before_ids.push(key@));
            }
            let ghost next = self.download_entries().subrange(0, j + 1);
            assert(next.drop_last() =~= self.download_entries().subrange(0, j as int));
            j = j + 1;
        }
        assert(self.download_entries().subrange(0, j as int) =~= self.download_entries());
        let ghost after_downloads = steps(out@);
        let mut conversion_ids: Vec<String> = Vec::new();
        let m = self.staged_conversion_count();
        let mut k: usize = 0;
        while k < m
            invariant
                self.wf(),
                self == old(self),
                m == self.conversion_entries().len(),
                k <= m,
                steps(out@) == after_downloads + cancel_conversion_steps(
                    self.conversion_entries().subrange(0, k as int),
                    chat_id,
                ),
                texts(conversion_ids@) == chat_conversion_keys(self.conversion_entries().subrange(0, k as int), chat_id),
            decreases m - k,
        {
            let (key, pending) = self.staged_conversion_at(k);
            let ghost before = steps(out@);
            let ghost before_ids = texts(conversion_ids@);
            if pending.chat_id == chat_id {
                push_action(&mut out, RecoveryAction::DeletePendingConversionRow(key.clone()));
                push_action(&mut out, RecoveryAction::DeleteFile(pending.filename.clone()));
                push_delete_opt(&mut out, &pending.thumbnail_path);
                conversion_ids.push(key.clone());
                assert(texts(conversion_ids@) =~= before_ids.push(key@));
            }
            let ghost next = self.conversion_entries().subrange(0, k + 1);
            assert(next.drop_last() =~= self.conversion_entries().subrange(0, k as int));
            assert(steps(out@) =~= after_downloads + cancel_conversion_steps(next, chat_id));
            k = k + 1;
        }
        assert(self.conversion_entries().subrange(0, k as int) =~= self.conversion_entries());
        let ghost base_d = self.downloads();
        let mut x: usize = 0;
        while x < download_ids.len()
            invariant
                self.wf(),
                x <= download_ids@.len(),
                self.downloads() == without_keys(base_d, texts(download_ids@.subrange(0, x as int))),
                self.conversions() == old(self).conversions(),
                self.same_tasks(old(self)),
            decreases download_ids@.len() - x,
        {
            let _ = self.take_pending_download(download_ids[x].as_str());
            assert(texts(download_ids@.subrange(0, x + 1)).drop_last() =~= texts(download_ids@.subrange(0, x as int)));
            assert(texts(download_ids@.subrange(0, x + 1)).last() == download_ids@[x as int]@);
            x = x + 1;
        }
        assert(download_ids@.subrange(0, x as int) =~= download_ids@);
        let ghost base_c = self.conversions();
        let mut y: usize = 0;
        while y < conversion_ids.len()
            invariant
                self.wf(),
                y <= conversion_ids@.len(),
                self.conversions() == without_keys(base_c, texts(conversion_ids@.subrange(0, y as int))),
                self.downloads() == without_keys(base_d, texts(download_ids@)),
                self.same_tasks(old(self)),
            decreases conversion_ids@.len() - y,
        {
            let _ = self.take_pending_conversion(conversion_ids[y].as_str());
            assert(texts(conversion_ids@.subrange(0, y + 1)).drop_last() =~= texts(
                conversion_ids@.subrange(0, y as int),
            ));
            assert(texts(conversion_ids@.subrange(0, y + 1)).last() == conversion_ids@[y as int]@);
            y = y + 1;
        }
        assert(conversion_ids@.subrange(0, y as int) =~= conversion_ids@);
        out
    }
}

proof fn lemma_live_rows_twice<T: Timestamped>(rows: Seq<T>, now: i64)
    ensures
        live_rows(live_rows(rows, now), now) == live_rows(rows, now),
    decreases rows.len(),
{
    reveal(Seq::filter);
    if rows.len() > 0 {
        lemma_live_rows_twice(rows.drop_last(), now);
        let once = live_rows(rows.drop_last(), now);
        if !crate::store::expired_at(rows.last().created(), now) {
            assert(once.push(rows.last()).drop_last() =~= once);
        }
    }
}

/// The state a process starts from and what it must do first.
pub struct Startup {
    pub queue: TaskQueue,
    pub actions: Vec<RecoveryAction>,
}

impl TaskQueue {
    /// The reconciliation that runs once, before any submission, from every
    /// row of the store. First the rows expired at `now` are deleted with
    /// their files; then the live staged selections are loaded into a queue
    /// with `MAX_CONCURRENT_TASKS` worker slots, and `restore_on_startup`
    /// settles the live task rows and the staged selections. `lost` holds
    /// the short identifiers of staged conversions whose file no longer
    /// exists.
    pub fn reconcile(
        download_rows: Vec<PendingDownloadRow>,
        conversion_rows: Vec<PendingConversionRow>,
        task_rows: Vec<TaskRow>,
        now: i64,
        lost: &Vec<String>,
    ) -> (r: Startup)
        ensures
            r.queue.wf(),
            r.queue.capacity() == MAX_CONCURRENT_TASKS,
            !r.queue.is_closed(),
            r.queue.listed().len() == 0,
            r.queue.slots().len() == 0,
            r.queue.downloads() == Map::<Seq<char>, PendingDownload>::empty(),
            r.queue.conversions() == without_keys(
                conversion_rows_map(live_rows(conversion_rows@, now)),
                texts(lost@),
            ),
            steps(r.actions@) == purge_steps(
                expired_rows(download_rows@, now),
                expired_rows(conversion_rows@, now),
                expired_rows(task_rows@, now),
            ) + task_steps(live_rows(task_rows@, now)) + download_steps(
                download_rows_entries(live_rows(download_rows@, now)),
            ) + conversion_steps(conversion_rows_entries(live_rows(conversion_rows@, now)), texts(lost@)),
    {
        let purge = purge_expired(download_rows, conversion_rows, task_rows, now);
        let Purge { downloads, conversions, tasks, actions } = purge;
        proof {
            lemma_live_rows_twice(download_rows@, now);
            lemma_live_rows_twice(conversion_rows@, now);
        }
        let mut queue = TaskQueue::new(downloads, conversions, now);
        let mut all = actions;
        let mut rest = queue.restore_on_startup(&tasks, lost);
        let ghost a0 = steps(all@);
        let ghost b0 = steps(rest@);
        all.append(&mut rest);
        assert(steps(all@) =~= a0 + b0);
        Startup { queue, actions: all }
    }

    /// `reconcile` at the current time.
    pub fn reconcile_now(
        download_rows: Vec<PendingDownloadRow>,
        conversion_rows: Vec<PendingConversionRow>,
        task_rows: Vec<TaskRow>,
        lost: &Vec<String>,
    ) -> (r: Startup)
        ensures
            r.queue.wf(),
            r.queue.capacity() == MAX_CONCURRENT_TASKS,
            r.queue.listed().len() == 0,
            r.queue.downloads() == Map::<Seq<char>, PendingDownload>::empty(),
            exists|now: i64|
                r.queue.conversions() == without_keys(
                    conversion_rows_map(live_rows(conversion_rows@, now)),
                    texts(lost@),
                ) && steps(r.actions@) == purge_steps(
                    expired_rows(download_rows@, now),
                    expired_rows(conversion_rows@, now),
                    expired_rows(task_rows@, now),
                ) + task_steps(live_rows(task_rows@, now)) + download_steps(
                    download_rows_entries(live_rows(download_rows@, now)),
                ) + conversion_steps(conversion_rows_entries(live_rows(conversion_rows@, now)), texts(lost@)),
    {
        let now = unix_now();
        TaskQueue::reconcile(download_rows, conversion_rows, task_rows, now, lost)
    }
}

} // verus!
