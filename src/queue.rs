//! The task queue: staged selections, submitted tasks, their statuses and
//! the worker slots that bound how many run at once.
//!
//! The queue decides; the caller performs. A caller submits tasks, asks
//! `dispatch` for the next task that may start, runs it, reports its outcome
//! with `complete`, and after a grace period calls `forget`, which drops the
//! task from listings and gives its worker slot back.
use vstd::prelude::*;
use vstd::string::*;

use crate::ids::{ShortId, TaskId};
use crate::pending::{lookup, take_spec, upsert, PendingConversion, PendingDownload, PendingTable};
use crate::store::{conversion_of, download_of, live_rows, split_expired, PendingConversionRow, PendingDownloadRow};
use crate::task::{type_label, QueuedTaskInfo, Task, TaskStatus};

verus! {

/// Worker slots of a queue made by `new`.
pub const MAX_CONCURRENT_TASKS: usize = 2;

/// Seconds a finished task stays listed before `forget` drops it.
pub const DISPLAY_GRACE_SECONDS: u64 = 60;

/// A class of statuses that the queue counts.
pub enum StatusClass {
    Queued,
    Processing,
    /// Left the queue: processing or finished, and holding a worker slot.
    Dispatched,
}

pub open spec fn in_class(s: TaskStatus, c: StatusClass) -> bool {
    match c {
        StatusClass::Queued => s is Queued,
        StatusClass::Processing => s is Processing,
        StatusClass::Dispatched => !(s is Queued),
    }
}

/// How many tracked tasks have a status of class `c`.
pub open spec fn count_class(s: Seq<(i64, QueuedTaskInfo)>, c: StatusClass) -> nat
    decreases s.len(),
{
    if s.len() == 0 {
        0
    } else {
        count_class(s.drop_last(), c) + if in_class(s.last().1.status, c) {
            1nat
        } else {
            0nat
        }
    }
}

/// The listing of one chat: its tasks in submission order.
pub open spec fn for_chat(s: Seq<(i64, QueuedTaskInfo)>, chat_id: i64) -> Seq<QueuedTaskInfo>
    decreases s.len(),
{
    if s.len() == 0 {
        seq![]
    } else if s.last().0 == chat_id {
        for_chat(s.drop_last(), chat_id).push(s.last().1)
    } else {
        for_chat(s.drop_last(), chat_id)
    }
}

/// Whether a task with this identifier is tracked.
pub open spec fn tracks(s: Seq<(i64, QueuedTaskInfo)>, id: Seq<char>) -> bool {
    exists|i: int| 0 <= i < s.len() && (#[trigger] s[i]).1.task_id.0@ == id
}

pub open spec fn with_status(x: (i64, QueuedTaskInfo), st: TaskStatus) -> (i64, QueuedTaskInfo) {
    (x.0, QueuedTaskInfo { task_id: x.1.task_id, status: st, task_type: x.1.task_type })
}

/// The terminal status that an outcome leads to.
pub open spec fn outcome_status(result: Result<(), String>) -> TaskStatus {
    match result {
        Ok(_) => TaskStatus::Completed,
        Err(reason) => TaskStatus::Failed(reason),
    }
}

/// What staged downloads a sequence of rows loads: later rows win.
pub open spec fn download_rows_map(rows: Seq<PendingDownloadRow>) -> Map<Seq<char>, PendingDownload>
    decreases rows.len(),
{
    if rows.len() == 0 {
        Map::empty()
    } else {
        download_rows_map(rows.drop_last()).insert(rows.last().short_id@, download_of(rows.last()))
    }
}

/// The staging order that a sequence of rows loads: a later row with a key
/// already loaded takes that key's place.
pub open spec fn download_rows_entries(rows: Seq<PendingDownloadRow>) -> Seq<(Seq<char>, PendingDownload)>
    decreases rows.len(),
{
    if rows.len() == 0 {
        seq![]
    } else {
        upsert(download_rows_entries(rows.drop_last()), rows.last().short_id@, download_of(rows.last()))
    }
}

/// The staging order that a sequence of rows loads, as for downloads.
pub open spec fn conversion_rows_entries(rows: Seq<PendingConversionRow>) -> Seq<(Seq<char>, PendingConversion)>
    decreases rows.len(),
{
    if rows.len() == 0 {
        seq![]
    } else {
        upsert(conversion_rows_entries(rows.drop_last()), rows.last().short_id@, conversion_of(rows.last()))
    }
}

/// What staged conversions a sequence of rows loads: later rows win.
pub open spec fn conversion_rows_map(rows: Seq<PendingConversionRow>) -> Map<Seq<char>, PendingConversion>
    decreases rows.len(),
{
    if rows.len() == 0 {
        Map::empty()
    } else {
        conversion_rows_map(rows.drop_last()).insert(rows.last().short_id@, conversion_of(rows.last()))
    }
}

proof fn lemma_count_push(s: Seq<(i64, QueuedTaskInfo)>, x: (i64, QueuedTaskInfo), c: StatusClass)
    ensures
        count_class(s.push(x), c) == count_class(s, c) + if in_class(x.1.status, c) {
            1nat
        } else {
            0nat
        },
{
    assert(s.push(x).drop_last() =~= s);
}

proof fn lemma_count_update(s: Seq<(i64, QueuedTaskInfo)>, i: int, x: (i64, QueuedTaskInfo), c: StatusClass)
    requires
        0 <= i < s.len(),
    ensures
        count_class(s.update(i, x), c) + (if in_class(s[i].1.status, c) {
            1nat
        } else {
            0nat
        }) == count_class(s, c) + if in_class(x.1.status, c) {
            1nat
        } else {
            0nat
        },
    decreases s.len(),
{
    let t = s.update(i, x);
    if i == s.len() - 1 {
        assert(t.drop_last() =~= s.drop_last());
    } else {
        assert(t.drop_last() =~= s.drop_last().update(i, x));
        lemma_count_update(s.drop_last(), i, x, c);
    }
}

proof fn lemma_count_remove(s: Seq<(i64, QueuedTaskInfo)>, i: int, c: StatusClass)
    requires
        0 <= i < s.len(),
    ensures
        count_class(s.remove(i), c) + (if in_class(s[i].1.status, c) {
            1nat
        } else {
            0nat
        }) == count_class(s, c),
    decreases s.len(),
{
    let t = s.remove(i);
    if i == s.len() - 1 {
        assert(t =~= s.drop_last());
    } else {
        assert(t.drop_last() =~= s.drop_last().remove(i));
        lemma_count_remove(s.drop_last(), i, c);
    }
}

proof fn lemma_processing_le_dispatched(s: Seq<(i64, QueuedTaskInfo)>)
    ensures
        count_class(s, StatusClass::Processing) <= count_class(s, StatusClass::Dispatched),
    decreases s.len(),
{
    if s.len() > 0 {
        lemma_processing_le_dispatched(s.drop_last());
    }
}

/// `t` is `s` after the task `id` reached status `st`: the processing task
/// with that identifier takes the status; without one nothing changes.
pub open spec fn finish_spec(
    s: Seq<(i64, QueuedTaskInfo)>,
    id: Seq<char>,
    st: TaskStatus,
    t: Seq<(i64, QueuedTaskInfo)>,
) -> bool {
    &&& forall|i: int|
        0 <= i < s.len() && (#[trigger] s[i]).1.task_id.0@ == id && s[i].1.status is Processing ==> t == s.update(
            i,
            with_status(s[i], st),
        )
    &&& !(exists|i: int| 0 <= i < s.len() && (#[trigger] s[i]).1.task_id.0@ == id && s[i].1.status is Processing)
        ==> t == s
}

/// What a finished download produced.
#[derive(Debug, Clone)]
pub struct DownloadedMedia {
    pub video_path: String,
    pub thumbnail_path: Option<String>,
}

proof fn lemma_count_zero(s: Seq<(i64, QueuedTaskInfo)>, c: StatusClass)
    requires
        forall|j: int| 0 <= j < s.len() ==> !in_class((#[trigger] s[j]).1.status, c),
    ensures
        count_class(s, c) == 0,
    decreases s.len(),
{
    if s.len() > 0 {
        assert(!in_class(s[s.len() - 1].1.status, c));
        lemma_count_zero(s.drop_last(), c);
    }
}

/// A tracked task: its chat, what callers see of it, and the task itself
/// while it waits to be dispatched.
struct Entry {
    chat_id: i64,
    info: QueuedTaskInfo,
    task: Option<Task>,
}

/// The scheduler's state. See the module documentation for the protocol.
pub struct TaskQueue {
    max_concurrent: usize,
    closed: bool,
    entries: Vec<Entry>,
    queued: usize,
    in_use: usize,
    pending_downloads: PendingTable<PendingDownload>,
    pending_conversions: PendingTable<PendingConversion>,
}

impl TaskQueue {
    /// Tracked tasks with their chats, in submission order.
    pub closed spec fn listed(&self) -> Seq<(i64, QueuedTaskInfo)> {
        self.entries@.map_values(|e: Entry| (e.chat_id, e.info))
    }

    /// For each tracked task, the task itself while it waits in the queue.
    pub closed spec fn slots(&self) -> Seq<Option<Task>> {
        self.entries@.map_values(|e: Entry| e.task)
    }

    /// Number of worker slots.
    pub closed spec fn capacity(&self) -> nat {
        self.max_concurrent as nat
    }

    /// Whether submissions are refused (the queue is shutting down).
    pub closed spec fn is_closed(&self) -> bool {
        self.closed
    }

    pub closed spec fn downloads(&self) -> Map<Seq<char>, PendingDownload> {
        self.pending_downloads@
    }

    pub closed spec fn conversions(&self) -> Map<Seq<char>, PendingConversion> {
        self.pending_conversions@
    }

    /// Staged downloads in the order in which they were staged.
    pub closed spec fn download_entries(&self) -> Seq<(Seq<char>, PendingDownload)> {
        self.pending_downloads.entries()
    }

    /// Staged conversions in the order in which they were staged.
    pub closed spec fn conversion_entries(&self) -> Seq<(Seq<char>, PendingConversion)> {
        self.pending_conversions.entries()
    }

    /// Worker slots held: tasks dispatched and not yet forgotten.
    pub open spec fn in_use(&self) -> nat {
        count_class(self.listed(), StatusClass::Dispatched)
    }

    /// Tasks submitted and not yet dispatched.
    pub open spec fn queued_count(&self) -> nat {
        count_class(self.listed(), StatusClass::Queued)
    }

    /// Tasks whose status is `Processing`.
    pub open spec fn processing_count(&self) -> nat {
        count_class(self.listed(), StatusClass::Processing)
    }

    /// The task state is the same in both queues.
    pub open spec fn same_tasks(&self, other: &TaskQueue) -> bool {
        &&& self.listed() == other.listed()
        &&& self.slots() == other.slots()
        &&& self.capacity() == other.capacity()
        &&& self.is_closed() == other.is_closed()
    }

    /// The staged selections are the same in both queues.
    pub open spec fn same_staged(&self, other: &TaskQueue) -> bool {
        &&& self.downloads() == other.downloads()
        &&& self.conversions() == other.conversions()
        &&& self.download_entries() == other.download_entries()
        &&& self.conversion_entries() == other.conversion_entries()
    }

    pub closed spec fn wf(&self) -> bool {
        let s = self.listed();
        &&& self.pending_downloads.wf()
        &&& self.pending_conversions.wf()
        &&& self.max_concurrent > 0
        &&& self.queued as nat == count_class(s, StatusClass::Queued)
        &&& self.in_use as nat == count_class(s, StatusClass::Dispatched)
        &&& self.in_use <= self.max_concurrent
        &&& forall|i: int|
            0 <= i < self.entries@.len() ==> {
                let e = #[trigger] self.entries@[i];
                &&& (e.task is Some <==> e.info.status is Queued)
                &&& e.task is Some ==> e.task->Some_0.id.0@ == e.info.task_id.0@ && e.task->Some_0.chat_id
                    == e.chat_id
            }
        &&& forall|i: int, j: int|
            0 <= i < self.entries@.len() && 0 <= j < self.entries@.len() && i != j
                ==> (#[trigger] self.entries@[i]).info.task_id.0@ != (#[trigger] self.entries@[j]).info.task_id.0@
    }

    /// A queue with `MAX_CONCURRENT_TASKS` worker slots that starts with the
    /// staged selections of the rows still live at `now`; expired rows are
    /// left out.
    pub fn new(
        download_rows: Vec<PendingDownloadRow>,
        conversion_rows: Vec<PendingConversionRow>,
        now: i64,
    ) -> (r: TaskQueue)
        ensures
            r.wf(),
            r.capacity() == MAX_CONCURRENT_TASKS,
            !r.is_closed(),
            r.listed().len() == 0,
            r.slots().len() == 0,
            r.downloads() == download_rows_map(live_rows(download_rows@, now)),
            r.conversions() == conversion_rows_map(live_rows(conversion_rows@, now)),
            r.download_entries() == download_rows_entries(live_rows(download_rows@, now)),
            r.conversion_entries() == conversion_rows_entries(live_rows(conversion_rows@, now)),
    {
        TaskQueue::with_capacity(MAX_CONCURRENT_TASKS, download_rows, conversion_rows, now)
    }

    /// A queue with `max_concurrent` worker slots that starts with the staged
    /// selections of the rows still live at `now`.
    pub fn with_capacity(
        max_concurrent: usize,
        download_rows: Vec<PendingDownloadRow>,
        conversion_rows: Vec<PendingConversionRow>,
        now: i64,
    ) -> (r: TaskQueue)
        requires
            max_concurrent > 0,
        ensures
            r.wf(),
            r.capacity() == max_concurrent,
            !r.is_closed(),
            r.listed().len() == 0,
            r.slots().len() == 0,
            r.downloads() == download_rows_map(live_rows(download_rows@, now)),
            r.conversions() == conversion_rows_map(live_rows(conversion_rows@, now)),
            r.download_entries() == download_rows_entries(live_rows(download_rows@, now)),
            r.conversion_entries() == conversion_rows_entries(live_rows(conversion_rows@, now)),
    {
        let (download_rows, _) = split_expired(download_rows, now);
        let (conversion_rows, _) = split_expired(conversion_rows, now);
        let mut downloads: PendingTable<PendingDownload> = PendingTable::new();
        let ghost all = download_rows@;
        let mut rest = download_rows;
        let ghost mut i: int = 0;
        while rest.len() > 0
            invariant
                0 <= i <= all.len(),
                rest@ == all.subrange(i, all.len() as int),
                downloads.wf(),
                downloads@ == download_rows_map(all.subrange(0, i)),
                downloads.entries() == download_rows_entries(all.subrange(0, i)),
            decreases rest@.len(),
        {
            let row = rest.remove(0);
            let ghost next = all.subrange(0, i + 1);
            assert(next.drop_last() =~= all.subrange(0, i));
            let key = row.short_id.clone();
            downloads.insert(key, row.to_pending());
            proof {
                i = i + 1;
            }
            assert(rest@ =~= all.subrange(i, all.len() as int));
        }
        assert(all.subrange(0, i) =~= all);
        let mut conversions: PendingTable<PendingConversion> = PendingTable::new();
        let ghost all_c = conversion_rows@;
        let mut rest_c = conversion_rows;
        let ghost mut k: int = 0;
        while rest_c.len() > 0
            invariant
                0 <= k <= all_c.len(),
                rest_c@ == all_c.subrange(k, all_c.len() as int),
                conversions.wf(),
                conversions@ == conversion_rows_map(all_c.subrange(0, k)),
                conversions.entries() == conversion_rows_entries(all_c.subrange(0, k)),
            decreases rest_c@.len(),
        {
            let row = rest_c.remove(0);
            let ghost next = all_c.subrange(0, k + 1);
            assert(next.drop_last() =~= all_c.subrange(0, k));
            let key = row.short_id.clone();
            conversions.insert(key, row.to_pending());
            proof {
                k = k + 1;
            }
            assert(rest_c@ =~= all_c.subrange(k, all_c.len() as int));
        }
        assert(all_c.subrange(0, k) =~= all_c);
        let q = TaskQueue {
            max_concurrent,
            closed: false,
            entries: Vec::new(),
            queued: 0,
            in_use: 0,
            pending_downloads: downloads,
            pending_conversions: conversions,
        };
        assert(q.listed() =~= Seq::<(i64, QueuedTaskInfo)>::empty());
        assert(q.slots() =~= Seq::<Option<Task>>::empty());
        q
    }

    /// Stages a link that waits for a quality choice; returns its identifier.
    pub fn add_pending_download(&mut self, url: String, chat_id: i64, message_id: i32) -> (r: ShortId)
        requires
            old(self).wf(),
        ensures
            final(self).wf(),
            r.0@.len() == 8,
            forall|i: int| 0 <= i < 8 ==> crate::ids::is_hex_digit(#[trigger] r.0@[i]),
            final(self).downloads() == old(self).downloads().insert(
                r.0@,
                PendingDownload { url, chat_id, message_id },
            ),
            final(self).conversions() == old(self).conversions(),
            final(self).same_tasks(old(self)),
    {
        let short_id = ShortId::new();
        self.pending_downloads.insert(short_id.0.clone(), PendingDownload { url, chat_id, message_id });
        short_id
    }

    /// Removes and returns the staged download under `short_id`.
    pub fn take_pending_download(&mut self, short_id: &str) -> (r: Option<PendingDownload>)
        requires
            old(self).wf(),
        ensures
            final(self).wf(),
            (final(self).downloads(), r) == take_spec(old(self).downloads(), short_id@),
            final(self).conversions() == old(self).conversions(),
            final(self).same_tasks(old(self)),
    {
        self.pending_downloads.remove(short_id)
    }

    /// The staged download under `short_id`, left in place.
    pub fn peek_pending_download(&self, short_id: &str) -> (r: Option<&PendingDownload>)
        requires
            self.wf(),
        ensures
            match r {
                Some(p) => lookup(self.downloads(), short_id@) == Some(*p),
                None => lookup(self.downloads(), short_id@) is None,
            },
    {
        self.pending_downloads.get(short_id)
    }

    /// Stages a downloaded file that waits for a format choice; returns its
    /// identifier.
    pub fn add_pending_conversion(
        &mut self,
        filename: String,
        thumbnail_path: Option<String>,
        chat_id: i64,
        message_id: i32,
    ) -> (r: ShortId)
        requires
            old(self).wf(),
        ensures
            final(self).wf(),
            r.0@.len() == 8,
            forall|i: int| 0 <= i < 8 ==> crate::ids::is_hex_digit(#[trigger] r.0@[i]),
            final(self).conversions() == old(self).conversions().insert(
                r.0@,
                PendingConversion { filename, thumbnail_path, chat_id, message_id },
            ),
            final(self).downloads() == old(self).downloads(),
            final(self).same_tasks(old(self)),
    {
        let short_id = ShortId::new();
        self.pending_conversions.insert(
            short_id.0.clone(),
            PendingConversion { filename, thumbnail_path, chat_id, message_id },
        );
        short_id
    }

    /// Removes and returns the staged conversion under `short_id`.
    pub fn take_pending_conversion(&mut self, short_id: &str) -> (r: Option<PendingConversion>)
        requires
            old(self).wf(),
        ensures
            final(self).wf(),
            (final(self).conversions(), r) == take_spec(old(self).conversions(), short_id@),
            final(self).downloads() == old(self).downloads(),
            final(self).same_tasks(old(self)),
    {
        self.pending_conversions.remove(short_id)
    }

    /// The staged conversion under `short_id`, left in place.
    pub fn peek_pending_conversion(&self, short_id: &str) -> (r: Option<&PendingConversion>)
        requires
            self.wf(),
        ensures
            match r {
                Some(p) => lookup(self.conversions(), short_id@) == Some(*p),
                None => lookup(self.conversions(), short_id@) is None,
            },
    {
        self.pending_conversions.get(short_id)
    }

    /// Number of staged downloads.
    pub fn staged_download_count(&self) -> (r: usize)
        requires
            self.wf(),
        ensures
            r == self.download_entries().len(),
    {
        self.pending_downloads.len()
    }

    /// The staged download at position `i` of the staging order.
    pub fn staged_download_at(&self, i: usize) -> (r: (&String, &PendingDownload))
        requires
            self.wf(),
            i < self.download_entries().len(),
        ensures
            r.0@ == self.download_entries()[i as int].0,
            *r.1 == self.download_entries()[i as int].1,
    {
        self.pending_downloads.entry_at(i)
    }

    /// Number of staged conversions.
    pub fn staged_conversion_count(&self) -> (r: usize)
        requires
            self.wf(),
        ensures
            r == self.conversion_entries().len(),
    {
        self.pending_conversions.len()
    }

    /// The staged conversion at position `i` of the staging order.
    pub fn staged_conversion_at(&self, i: usize) -> (r: (&String, &PendingConversion))
        requires
            self.wf(),
            i < self.conversion_entries().len(),
        ensures
            r.0@ == self.conversion_entries()[i as int].0,
            *r.1 == self.conversion_entries()[i as int].1,
    {
        self.pending_conversions.entry_at(i)
    }

    /// Drops every staged download.
    pub fn clear_pending_downloads(&mut self)
        requires
            old(self).wf(),
        ensures
            final(self).wf(),
            final(self).downloads() == Map::<Seq<char>, PendingDownload>::empty(),
            final(self).download_entries().len() == 0,
            final(self).conversions() == old(self).conversions(),
            final(self).same_tasks(old(self)),
    {
        self.pending_downloads.clear();
    }

    fn find_task(&self, id: &String) -> (r: Option<usize>)
        requires
            self.wf(),
        ensures
            match r {
                Some(i) => i < self.listed().len() && self.listed()[i as int].1.task_id.0@ == id@,
                None => !tracks(self.listed(), id@),
            },
    {
        let mut i: usize = 0;
        while i < self.entries.len()
            invariant
                self.wf(),
                i <= self.entries@.len(),
                forall|j: int| 0 <= j < i ==> self.entries@[j].info.task_id.0@ != id@,
            decreases self.entries@.len() - i,
        {
            if self.entries[i].info.task_id.0 == *id {
                assert(self.listed()[i as int].1 == self.entries@[i as int].info);
                return Some(i);
            }
            i = i + 1;
        }
        assert forall|j: int| 0 <= j < self.listed().len() implies (#[trigger] self.listed()[j]).1.task_id.0@
            != id@ by {
            assert(self.listed()[j].1 == self.entries@[j].info);
        }
        None
    }

    /// Whether a task with this identifier is tracked.
    pub fn is_tracked(&self, task_id: &TaskId) -> (r: bool)
        requires
            self.wf(),
        ensures
            r == tracks(self.listed(), task_id.0@),
    {
        self.find_task(&task_id.0).is_some()
    }

    /// Number of tasks submitted and not yet dispatched.
    pub fn pending_count(&self) -> (r: usize)
        requires
            self.wf(),
        ensures
            r == self.queued_count(),
    {
        self.queued
    }

    /// Refuses further submissions.
    pub fn close(&mut self)
        requires
            old(self).wf(),
        ensures
            final(self).wf(),
            final(self).is_closed(),
            final(self).listed() == old(self).listed(),
            final(self).slots() == old(self).slots(),
            final(self).capacity() == old(self).capacity(),
            final(self).same_staged(old(self)),
    {
        self.closed = true;
    }

    /// Submits a task. Its position is one more than the number of tasks
    /// that wait at that moment; it is tracked as `Queued` at that position.
    /// A closed queue, or a task whose identifier is already tracked, is
    /// refused and nothing changes.
    pub fn submit(&mut self, task: Task) -> (r: Result<usize, String>)
        requires
            old(self).wf(),
            old(self).queued_count() < usize::MAX,
        ensures
            final(self).wf(),
            final(self).same_staged(old(self)),
            r is Err <==> (old(self).is_closed() || tracks(old(self).listed(), task.id.0@)),
            r is Err ==> final(self).same_tasks(old(self)),
            r is Ok ==> {
                &&& r->Ok_0 == old(self).queued_count() + 1
                &&& final(self).listed() == old(self).listed().push(
                    (
                        task.chat_id,
                        QueuedTaskInfo {
                            task_id: task.id,
                            status: TaskStatus::Queued { position: r->Ok_0 },
                            task_type: final(self).listed().last().1.task_type,
                        },
                    ),
                )
                &&& final(self).listed().last().1.task_type@ == type_label(task.task_type)
                &&& final(self).slots() == old(self).slots().push(Some(task))
                &&& final(self).capacity() == old(self).capacity()
                &&& final(self).is_closed() == old(self).is_closed()
            },
    {
        if self.closed {
            return Err(String::from_str("Failed to submit task: the queue is closed"));
        }
        if self.find_task(&task.id.0).is_some() {
            return Err(String::from_str("Failed to submit task: the task is already queued"));
        }
        let position = self.queued + 1;
        let info = QueuedTaskInfo {
            task_id: task.id.copied(),
            status: TaskStatus::Queued { position },
            task_type: task.task_type.label(),
        };
        let ghost old_listed = self.listed();
        let ghost old_entries = self.entries@;
        let ghost t = task;
        let chat_id = task.chat_id;
        self.entries.push(Entry { chat_id, info, task: Some(task) });
        self.queued = position;
        assert(self.listed() =~= old_listed.push(self.listed().last()));
        assert(self.slots() =~= old(self).slots().push(Some(t)));
        proof {
            lemma_count_push(old_listed, self.listed().last(), StatusClass::Queued);
            lemma_count_push(old_listed, self.listed().last(), StatusClass::Dispatched);
            assert forall|i: int, j: int|
                0 <= i < self.entries@.len() && 0 <= j < self.entries@.len() && i != j implies (#[trigger] self.entries@[i]).info.task_id.0@
                != (#[trigger] self.entries@[j]).info.task_id.0@ by {
                if i < old_entries.len() && j < old_entries.len() {
                } else if i < old_entries.len() {
                    assert(old_listed[i].1.task_id.0@ == old_entries[i].info.task_id.0@);
                } else {
                    assert(old_listed[j].1.task_id.0@ == old_entries[j].info.task_id.0@);
                }
            }
        }
        Ok(position)
    }

    /// The listing of one chat: its tracked tasks in submission order.
    pub fn get_user_tasks(&self, chat_id: i64) -> (r: Vec<QueuedTaskInfo>)
        requires
            self.wf(),
        ensures
            r@ == for_chat(self.listed(), chat_id),
    {
        let mut out: Vec<QueuedTaskInfo> = Vec::new();
        let mut i: usize = 0;
        while i < self.entries.len()
            invariant
                i <= self.entries@.len(),
                out@ == for_chat(self.listed().subrange(0, i as int), chat_id),
            decreases self.entries@.len() - i,
        {
            let ghost next = self.listed().subrange(0, i + 1);
            assert(next.drop_last() =~= self.listed().subrange(0, i as int));
            assert(next.last() == (self.entries@[i as int].chat_id, self.entries@[i as int].info));
            if self.entries[i].chat_id == chat_id {
                out.push(self.entries[i].info.copied());
            }
            i = i + 1;
        }
        assert(self.listed().subrange(0, i as int) =~= self.listed());
        out
    }

    proof fn lemma_listed_update(&self, old_entries: Seq<Entry>, i: int, e: Entry)
        requires
            0 <= i < old_entries.len(),
            self.entries@ == old_entries.update(i, e),
        ensures
            self.listed() == old_entries.map_values(|x: Entry| (x.chat_id, x.info)).update(i, (e.chat_id, e.info)),
            self.slots() == old_entries.map_values(|x: Entry| x.task).update(i, e.task),
    {
        assert(self.listed() =~= old_entries.map_values(|x: Entry| (x.chat_id, x.info)).update(i, (e.chat_id, e.info)));
        assert(self.slots() =~= old_entries.map_values(|x: Entry| x.task).update(i, e.task));
    }

    /// Starts the first waiting task in submission order, if a worker slot
    /// is free: it takes a slot, becomes `Processing`, and is handed back to
    /// be run. Otherwise nothing changes.
    pub fn dispatch(&mut self) -> (r: Option<Task>)
        requires
            old(self).wf(),
        ensures
            final(self).wf(),
            final(self).same_staged(old(self)),
            final(self).capacity() == old(self).capacity(),
            final(self).is_closed() == old(self).is_closed(),
            match r {
                Some(t) => exists|i: int|
                    0 <= i < old(self).listed().len() && (#[trigger] old(self).listed()[i]).1.status is Queued && (
                    forall|j: int| 0 <= j < i ==> !((#[trigger] old(self).listed()[j]).1.status is Queued))
                        && old(self).slots()[i] == Some(t) && t.id.0@ == old(self).listed()[i].1.task_id.0@
                        && t.chat_id == old(self).listed()[i].0 && final(self).listed() == old(self).listed().update(
                        i,
                        with_status(old(self).listed()[i], TaskStatus::Processing),
                    ) && final(self).slots() == old(self).slots().update(i, None),
                None => final(self).same_tasks(old(self)),
            },
            r is Some <==> (old(self).in_use() < old(self).capacity() && old(self).queued_count() > 0),
            r is Some ==> {
                &&& final(self).queued_count() + 1 == old(self).queued_count()
                &&& final(self).in_use() == old(self).in_use() + 1
                &&& final(self).processing_count() == old(self).processing_count() + 1
            },
    {
        if self.in_use >= self.max_concurrent {
            return None;
        }
        let mut i: usize = 0;
        while i < self.entries.len() && self.entries[i].task.is_none()
            invariant
                self.wf(),
                self == old(self),
                i <= self.entries@.len(),
                forall|j: int| 0 <= j < i ==> !((#[trigger] self.entries@[j]).info.status is Queued),
            decreases self.entries@.len() - i,
        {
            i = i + 1;
        }
        if i == self.entries.len() {
            proof {
                assert forall|j: int| 0 <= j < self.listed().len() implies !in_class(
                    (#[trigger] self.listed()[j]).1.status,
                    StatusClass::Queued,
                ) by {
                    assert(self.listed()[j].1 == self.entries@[j].info);
                }
                lemma_count_zero(self.listed(), StatusClass::Queued);
            }
            return None;
        }
        let ghost old_entries = self.entries@;
        let ghost old_listed = self.listed();
        let e = self.entries.remove(i);
        let Entry { chat_id, info, task } = e;
        let QueuedTaskInfo { task_id, status: _, task_type } = info;
        let fresh = Entry {
            chat_id,
            info: QueuedTaskInfo { task_id, status: TaskStatus::Processing, task_type },
            task: None,
        };
        let ghost fresh_g = fresh;
        self.entries.insert(i, fresh);
        assert(self.entries@ =~= old_entries.update(i as int, fresh_g));
        proof {
            self.lemma_listed_update(old_entries, i as int, fresh_g);
            assert(old_listed[i as int].1 == old_entries[i as int].info);
            assert(old_listed[i as int].1.status is Queued);
            assert((fresh_g.chat_id, fresh_g.info) == with_status(old_listed[i as int], TaskStatus::Processing));
            lemma_count_update(old_listed, i as int, (fresh_g.chat_id, fresh_g.info), StatusClass::Queued);
            lemma_count_update(old_listed, i as int, (fresh_g.chat_id, fresh_g.info), StatusClass::Dispatched);
            lemma_count_update(old_listed, i as int, (fresh_g.chat_id, fresh_g.info), StatusClass::Processing);
            assert forall|j: int| 0 <= j < i implies !((#[trigger] old_listed[j]).1.status is Queued) by {
                assert(old_listed[j].1 == old_entries[j].info);
            }
            assert forall|a: int, b: int|
                0 <= a < self.entries@.len() && 0 <= b < self.entries@.len() && a != b implies (#[trigger] self.entries@[a]).info.task_id.0@
                != (#[trigger] self.entries@[b]).info.task_id.0@ by {
                assert(self.entries@[a].info.task_id == old_entries[a].info.task_id);
                assert(self.entries@[b].info.task_id == old_entries[b].info.task_id);
            }
            assert(old(self).slots()[i as int] == task);
            assert(old_entries[i as int].task == task);
        }
        self.queued = self.queued - 1;
        self.in_use = self.in_use + 1;
        task
    }

    /// Starts waiting tasks, in submission order, until every worker slot
    /// is held or nothing waits. Under load the queue then holds exactly as
    /// many processing tasks as it has free slots before, and the rest keep
    /// waiting: from a fresh queue with `K` slots and `K + 3` submissions,
    /// `K` tasks are processing and 3 are queued.
    pub fn dispatch_ready(&mut self) -> (r: Vec<Task>)
        requires
            old(self).wf(),
        ensures
            final(self).wf(),
            final(self).same_staged(old(self)),
            final(self).capacity() == old(self).capacity(),
            r@.len() == if old(self).queued_count() < old(self).capacity() - old(self).in_use() {
                old(self).queued_count() as int
            } else {
                old(self).capacity() - old(self).in_use()
            },
            final(self).in_use() == old(self).in_use() + r@.len(),
            final(self).queued_count() == old(self).queued_count() - r@.len(),
            final(self).processing_count() == old(self).processing_count() + r@.len(),
    {
        proof {
            processing_within_capacity(self);
        }
        let mut started: Vec<Task> = Vec::new();
        loop
            invariant
                self.wf(),
                self.same_staged(old(self)),
                self.capacity() == old(self).capacity(),
                self.in_use() == old(self).in_use() + started@.len(),
                self.queued_count() == old(self).queued_count() - started@.len(),
                self.processing_count() == old(self).processing_count() + started@.len(),
                started@.len() <= old(self).queued_count(),
                old(self).in_use() <= old(self).capacity(),
            ensures
                self.wf(),
                self.same_staged(old(self)),
                self.capacity() == old(self).capacity(),
                self.in_use() == old(self).in_use() + started@.len(),
                self.queued_count() == old(self).queued_count() - started@.len(),
                self.processing_count() == old(self).processing_count() + started@.len(),
                self.in_use() == self.capacity() || self.queued_count() == 0,
            decreases self.queued_count(),
        {
            proof {
                processing_within_capacity(self);
            }
            match self.dispatch() {
                Some(t) => started.push(t),
                None => {
                    proof {
                        processing_within_capacity(self);
                    }
                    break;
                },
            }
        }
        started
    }

    fn set_terminal(&mut self, i: usize, status: TaskStatus)
        requires
            old(self).wf(),
            i < old(self).listed().len(),
            old(self).listed()[i as int].1.status is Processing,
            !(status is Queued),
        ensures
            final(self).wf(),
            final(self).same_staged(old(self)),
            final(self).capacity() == old(self).capacity(),
            final(self).is_closed() == old(self).is_closed(),
            final(self).slots() == old(self).slots(),
            final(self).listed() == old(self).listed().update(i as int, with_status(old(self).listed()[i as int], status)),
    {
        let ghost old_entries = self.entries@;
        let ghost old_listed = self.listed();
        let e = self.entries.remove(i);
        let Entry { chat_id, info, task } = e;
        let QueuedTaskInfo { task_id, status: _, task_type } = info;
        let fresh = Entry { chat_id, info: QueuedTaskInfo { task_id, status, task_type }, task };
        let ghost fresh_g = fresh;
        self.entries.insert(i, fresh);
        assert(self.entries@ =~= old_entries.update(i as int, fresh_g));
        proof {
            self.lemma_listed_update(old_entries, i as int, fresh_g);
            assert(old_listed[i as int].1 == old_entries[i as int].info);
            assert(old(self).slots() =~= old_entries.map_values(|x: Entry| x.task));
            assert(old(self).slots().update(i as int, fresh_g.task) =~= old(self).slots());
            lemma_count_update(old_listed, i as int, (fresh_g.chat_id, fresh_g.info), StatusClass::Queued);
            lemma_count_update(old_listed, i as int, (fresh_g.chat_id, fresh_g.info), StatusClass::Dispatched);
            assert forall|a: int, b: int|
                0 <= a < self.entries@.len() && 0 <= b < self.entries@.len() && a != b implies (#[trigger] self.entries@[a]).info.task_id.0@
                != (#[trigger] self.entries@[b]).info.task_id.0@ by {
                assert(self.entries@[a].info.task_id == old_entries[a].info.task_id);
                assert(self.entries@[b].info.task_id == old_entries[b].info.task_id);
            }
        }
    }

    fn finish_with(&mut self, task_id: &TaskId, status: TaskStatus)
        requires
            old(self).wf(),
            !(status is Queued),
        ensures
            final(self).wf(),
            final(self).same_staged(old(self)),
            final(self).capacity() == old(self).capacity(),
            final(self).is_closed() == old(self).is_closed(),
            final(self).slots() == old(self).slots(),
            finish_spec(old(self).listed(), task_id.0@, status, final(self).listed()),
    {
        let ghost old_listed = self.listed();
        match self.find_task(&task_id.0) {
            Some(i) => {
                if matches!(self.entries[i].info.status, TaskStatus::Processing) {
                    assert(self.listed()[i as int].1 == self.entries@[i as int].info);
                    self.set_terminal(i, status);
                    proof {
                        assert forall|k: int|
                            0 <= k < old_listed.len() && (#[trigger] old_listed[k]).1.task_id.0@ == task_id.0@
                                && old_listed[k].1.status is Processing implies k == i by {
                            if k != i {
                                assert(old_listed[k].1 == old(self).entries@[k].info);
                                assert(old_listed[i as int].1 == old(self).entries@[i as int].info);
                            }
                        }
                    }
                } else {
                    proof {
                        assert forall|k: int|
                            0 <= k < old_listed.len() && (#[trigger] old_listed[k]).1.task_id.0@ == task_id.0@ implies !(
                            old_listed[k].1.status is Processing) by {
                            assert(old_listed[k].1 == old(self).entries@[k].info);
                            assert(old_listed[i as int].1 == old(self).entries@[i as int].info);
                        }
                    }
                }
            },
            None => {},
        }
    }

    /// Records the outcome of a processing task: `Completed`, or `Failed`
    /// with the reason. A task that is not processing keeps its status.
    pub fn complete(&mut self, task_id: &TaskId, result: Result<(), String>)
        requires
            old(self).wf(),
        ensures
            final(self).wf(),
            final(self).same_staged(old(self)),
            final(self).capacity() == old(self).capacity(),
            final(self).is_closed() == old(self).is_closed(),
            final(self).slots() == old(self).slots(),
            finish_spec(old(self).listed(), task_id.0@, outcome_status(result), final(self).listed()),
    {
        let status = match result {
            Ok(()) => TaskStatus::Completed,
            Err(reason) => TaskStatus::Failed(reason),
        };
        self.finish_with(task_id, status);
    }

    /// Records the outcome of a download task. On success the file is staged
    /// for a format choice under the returned identifier and the task is
    /// `Completed`; on failure the task is `Failed` and nothing is staged.
    pub fn finish_download(&mut self, task: &Task, outcome: Result<DownloadedMedia, String>) -> (r: Option<ShortId>)
        requires
            old(self).wf(),
        ensures
            final(self).wf(),
            final(self).downloads() == old(self).downloads(),
            final(self).capacity() == old(self).capacity(),
            final(self).is_closed() == old(self).is_closed(),
            final(self).slots() == old(self).slots(),
            match outcome {
                Ok(media) => {
                    &&& r is Some
                    &&& final(self).conversions() == old(self).conversions().insert(
                        r->Some_0.0@,
                        PendingConversion {
                            filename: media.video_path,
                            thumbnail_path: media.thumbnail_path,
                            chat_id: task.chat_id,
                            message_id: task.message_id,
                        },
                    )
                    &&& finish_spec(old(self).listed(), task.id.0@, TaskStatus::Completed, final(self).listed())
                },
                Err(e) => {
                    &&& r is None
                    &&& final(self).conversions() == old(self).conversions()
                    &&& exists|reason: String|
                        reason@ == "Download failed: "@ + e@ && finish_spec(
                            old(self).listed(),
                            task.id.0@,
                            TaskStatus::Failed(reason),
                            final(self).listed(),
                        )
                },
            },
    {
        match outcome {
            Ok(media) => {
                let DownloadedMedia { video_path, thumbnail_path } = media;
                let id = self.add_pending_conversion(video_path, thumbnail_path, task.chat_id, task.message_id);
                self.finish_with(&task.id, TaskStatus::Completed);
                Some(id)
            },
            Err(e) => {
                let mut reason = String::from_str("Download failed: ");
                reason.append(e.as_str());
                let ghost rg = reason;
                self.finish_with(&task.id, TaskStatus::Failed(reason));
                assert(rg@ == "Download failed: "@ + e@);
                None
            },
        }
    }

    /// Drops a finished task (`Completed` or `Failed`) from the listings and
    /// gives its worker slot back; called once the display grace period
    /// after its outcome is over. A task still waiting or still processing,
    /// or not tracked, is left as it is: a slot is given back only after the
    /// task's final status is set.
    pub fn forget(&mut self, task_id: &TaskId)
        requires
            old(self).wf(),
        ensures
            final(self).wf(),
            final(self).same_staged(old(self)),
            final(self).capacity() == old(self).capacity(),
            final(self).is_closed() == old(self).is_closed(),
            forall|i: int|
                0 <= i < old(self).listed().len() && (#[trigger] old(self).listed()[i]).1.task_id.0@ == task_id.0@
                    && !(old(self).listed()[i].1.status is Queued) && !(old(self).listed()[i].1.status is Processing) ==> final(self).listed() == old(self).listed().remove(
                    i,
                ) && final(self).slots() == old(self).slots().remove(i),
            !(exists|i: int|
                0 <= i < old(self).listed().len() && (#[trigger] old(self).listed()[i]).1.task_id.0@ == task_id.0@
                    && !(old(self).listed()[i].1.status is Queued) && !(old(self).listed()[i].1.status is Processing))
                ==> final(self).same_tasks(old(self)),
    {
        let ghost old_listed = self.listed();
        let ghost old_entries = self.entries@;
        match self.find_task(&task_id.0) {
            Some(i) => {
                assert(old_listed[i as int].1 == old_entries[i as int].info);
                if self.entries[i].task.is_none() && !matches!(self.entries[i].info.status, TaskStatus::Processing) {
                    self.entries.remove(i);
                    proof {
                        assert(self.listed() =~= old_listed.remove(i as int));
                        assert(self.slots() =~= old(self).slots().remove(i as int));
                        lemma_count_remove(old_listed, i as int, StatusClass::Queued);
                        lemma_count_remove(old_listed, i as int, StatusClass::Dispatched);
                        assert forall|k: int|
                            0 <= k < old_listed.len() && (#[trigger] old_listed[k]).1.task_id.0@ == task_id.0@ implies k
                            == i by {
                            assert(old_listed[k].1 == old_entries[k].info);
                        }
                        assert forall|a: int, b: int|
                            0 <= a < self.entries@.len() && 0 <= b < self.entries@.len() && a != b implies (#[trigger] self.entries@[a]).info.task_id.0@
                            != (#[trigger] self.entries@[b]).info.task_id.0@ by {
                            let oa = if a < i { a } else { a + 1 };
                            let ob = if b < i { b } else { b + 1 };
                            assert(self.entries@[a] == old_entries[oa]);
                            assert(self.entries@[b] == old_entries[ob]);
                        }
                        assert forall|a: int| 0 <= a < self.entries@.len() implies {
                            let e = #[trigger] self.entries@[a];
                            &&& (e.task is Some <==> e.info.status is Queued)
                            &&& e.task is Some ==> e.task->Some_0.id.0@ == e.info.task_id.0@ && e.task->Some_0.chat_id
                                == e.chat_id
                        } by {
                            let oa = if a < i { a } else { a + 1 };
                            assert(self.entries@[a] == old_entries[oa]);
                        }
                    }
                    self.in_use = self.in_use - 1;
                } else {
                    proof {
                        assert forall|k: int|
                            0 <= k < old_listed.len() && (#[trigger] old_listed[k]).1.task_id.0@ == task_id.0@ implies old_listed[k].1.status is Queued
                                || old_listed[k].1.status is Processing by {
                            assert(old_listed[k].1 == old_entries[k].info);
                        }
                    }
                }
            },
            None => {},
        }
    }
}

/// However tasks are submitted, dispatched, completed and forgotten, no more
/// tasks are processing at once than the queue has worker slots, and the
/// slots in use never exceed them.
pub proof fn processing_within_capacity(q: &TaskQueue)
    requires
        q.wf(),
    ensures
        q.processing_count() <= q.in_use(),
        q.in_use() <= q.capacity(),
        q.processing_count() <= q.capacity(),
{
    lemma_processing_le_dispatched(q.listed());
}

/// A staged conversion written to the store as a row, and loaded back by a
/// fresh queue at a time when that row is still live, from rows that end
/// with that one, reads back with the same filename, thumbnail, chat and
/// message.
pub proof fn staged_conversion_round_trip(
    rows: Seq<PendingConversionRow>,
    row: PendingConversionRow,
    short_id: Seq<char>,
    pending: PendingConversion,
    created_at: i64,
    now: i64,
)
    requires
        crate::store::conversion_row_holds(row, short_id, pending, created_at),
        !crate::store::expired_at(created_at, now),
    ensures
        lookup(conversion_rows_map(live_rows(rows.push(row), now)), short_id) == Some(pending),
{
    reveal(Seq::filter);
    let all = rows.push(row);
    assert(all.drop_last() =~= rows);
    let live = live_rows(all, now);
    assert(live == live_rows(rows, now).push(row));
    assert(live.drop_last() =~= live_rows(rows, now));
}

/// The same for a staged download: url, chat and message read back.
pub proof fn staged_download_round_trip(
    rows: Seq<PendingDownloadRow>,
    row: PendingDownloadRow,
    short_id: Seq<char>,
    pending: PendingDownload,
    created_at: i64,
    now: i64,
)
    requires
        crate::store::download_row_holds(row, short_id, pending, created_at),
        !crate::store::expired_at(created_at, now),
    ensures
        lookup(download_rows_map(live_rows(rows.push(row), now)), short_id) is Some,
        lookup(download_rows_map(live_rows(rows.push(row), now)), short_id)->Some_0.url@ == pending.url@,
        lookup(download_rows_map(live_rows(rows.push(row), now)), short_id)->Some_0.chat_id == pending.chat_id,
        lookup(download_rows_map(live_rows(rows.push(row), now)), short_id)->Some_0.message_id
            == pending.message_id,
{
    reveal(Seq::filter);
    let all = rows.push(row);
    assert(all.drop_last() =~= rows);
    let live = live_rows(all, now);
    assert(live == live_rows(rows, now).push(row));
    assert(live.drop_last() =~= live_rows(rows, now));
}

} // verus!
