//! Rows of the durable store and the rules by which they age out.
//!
//! The store has three tables: staged downloads, staged conversions and
//! submitted tasks. Every row carries the second at which it was written; a
//! row is expired once it is at least a day old.
use vstd::prelude::*;
use vstd::string::*;

use crate::ids::ShortId;
use crate::pending::{PendingConversion, PendingDownload};
use crate::task::{Task, TaskStatus, TaskType};

verus! {

/// How long a row stays live, in seconds.
pub const TASK_TTL_SECONDS: i64 = 86400;

/// A row written at `created_at` is expired at `now` once it is at least
/// `TASK_TTL_SECONDS` old.
pub open spec fn expired_at(created_at: i64, now: i64) -> bool {
    created_at <= now - TASK_TTL_SECONDS
}

/// Whether a row written at `created_at` is expired at `now`.
pub fn is_expired(created_at: i64, now: i64) -> (r: bool)
    ensures
        r == expired_at(created_at, now),
{
    created_at as i128 <= now as i128 - TASK_TTL_SECONDS as i128
}

/// A row of `pending_downloads`.
#[derive(Debug, Clone)]
pub struct PendingDownloadRow {
    pub short_id: String,
    pub url: String,
    pub chat_id: i64,
    pub message_id: i32,
    pub created_at: i64,
}

/// A row of `pending_conversions`.
#[derive(Debug, Clone)]
pub struct PendingConversionRow {
    pub short_id: String,
    pub filename: String,
    pub thumbnail_path: Option<String>,
    pub chat_id: i64,
    pub message_id: i32,
    pub created_at: i64,
}

/// A row of `tasks`: the discriminator and the fields of either task type.
#[derive(Debug, Clone)]
pub struct TaskRow {
    pub id: String,
    pub task_type: String,
    pub chat_id: i64,
    pub message_id: i32,
    pub unique_file_id: String,
    pub status: String,
    pub url: Option<String>,
    pub quality: Option<i64>,
    pub filename: Option<String>,
    pub thumbnail_path: Option<String>,
    pub format: Option<String>,
    pub created_at: i64,
}

/// A row that records when it was written.
pub trait Timestamped {
    spec fn created(&self) -> i64;

    fn created_at(&self) -> (r: i64)
        ensures
            r == self.created(),
    ;
}

impl Timestamped for PendingDownloadRow {
    open spec fn created(&self) -> i64 {
        self.created_at
    }

    fn created_at(&self) -> (r: i64) {
        self.created_at
    }
}

impl Timestamped for PendingConversionRow {
    open spec fn created(&self) -> i64 {
        self.created_at
    }

    fn created_at(&self) -> (r: i64) {
        self.created_at
    }
}

impl Timestamped for TaskRow {
    open spec fn created(&self) -> i64 {
        self.created_at
    }

    fn created_at(&self) -> (r: i64) {
        self.created_at
    }
}

pub open spec fn live_rows<T: Timestamped>(rows: Seq<T>, now: i64) -> Seq<T> {
    rows.filter(|r: T| !expired_at(r.created(), now))
}

pub open spec fn expired_rows<T: Timestamped>(rows: Seq<T>, now: i64) -> Seq<T> {
    rows.filter(|r: T| expired_at(r.created(), now))
}

/// Splits rows into those still live at `now` and those expired, each in
/// the order given.
pub fn split_expired<T: Timestamped>(rows: Vec<T>, now: i64) -> (r: (Vec<T>, Vec<T>))
    ensures
        r.0@ == live_rows(rows@, now),
        r.1@ == expired_rows(rows@, now),
{
    let ghost all = rows@;
    proof {
        reveal(Seq::filter);
    }
    let mut rest = rows;
    let mut live: Vec<T> = Vec::new();
    let mut expired: Vec<T> = Vec::new();
    let ghost mut i: int = 0;
    while rest.len() > 0
        invariant
            0 <= i <= all.len(),
            rest@ == all.subrange(i, all.len() as int),
            live@ == live_rows(all.subrange(0, i), now),
            expired@ == expired_rows(all.subrange(0, i), now),
        decreases rest@.len(),
    {
        let row = rest.remove(0);
        let ghost next = all.subrange(0, i + 1);
        assert(next.drop_last() =~= all.subrange(0, i));
        assert(next.last() == row);
        proof {
            reveal(Seq::filter);
            assert(live_rows(next, now) == if expired_at(row.created(), now) {
                live_rows(all.subrange(0, i), now)
            } else {
                live_rows(all.subrange(0, i), now).push(row)
            });
            assert(expired_rows(next, now) == if expired_at(row.created(), now) {
                expired_rows(all.subrange(0, i), now).push(row)
            } else {
                expired_rows(all.subrange(0, i), now)
            });
        }
        if is_expired(row.created_at(), now) {
            expired.push(row);
        } else {
            live.push(row);
        }
        proof {
            i = i + 1;
        }
        assert(rest@ =~= all.subrange(i, all.len() as int));
    }
    assert(all.subrange(0, i) =~= all);
    (live, expired)
}

/// Relies on `chrono::Utc::now` and `chrono::DateTime::timestamp`: the
/// current time in whole seconds since the Unix epoch. Nothing is known of
/// its value.
#[verifier::external_body]
pub(crate) fn unix_now() -> (r: i64) {
    chrono::Utc::now().timestamp()
}

/// Splits rows by their age at the current time, as `split_expired` does at
/// some instant.
pub fn split_expired_now<T: Timestamped>(rows: Vec<T>) -> (r: (Vec<T>, Vec<T>))
    ensures
        exists|now: i64| r.0@ == live_rows(rows@, now) && r.1@ == expired_rows(rows@, now),
{
    let now = unix_now();
    split_expired(rows, now)
}

/// The texts of a sequence of strings.
pub open spec fn texts(v: Seq<String>) -> Seq<Seq<char>> {
    v.map_values(|s: String| s@)
}

pub open spec fn opt_text(o: Option<String>) -> Seq<Seq<char>> {
    match o {
        Some(t) => seq![t@],
        None => seq![],
    }
}

/// The thumbnails that the rows name, in order.
pub open spec fn conversion_thumbnails(rows: Seq<PendingConversionRow>) -> Seq<Seq<char>>
    decreases rows.len(),
{
    if rows.len() == 0 {
        seq![]
    } else {
        conversion_thumbnails(rows.drop_last()) + opt_text(rows.last().thumbnail_path)
    }
}

/// The files that staged conversions hold: every filename, then every
/// thumbnail.
pub open spec fn conversion_files_spec(rows: Seq<PendingConversionRow>) -> Seq<Seq<char>> {
    rows.map_values(|r: PendingConversionRow| r.filename@) + conversion_thumbnails(rows)
}

pub open spec fn is_convert_row(r: TaskRow) -> bool {
    r.task_type@ == "convert"@
}

pub open spec fn task_filenames(rows: Seq<TaskRow>) -> Seq<Seq<char>>
    decreases rows.len(),
{
    if rows.len() == 0 {
        seq![]
    } else if is_convert_row(rows.last()) {
        task_filenames(rows.drop_last()) + opt_text(rows.last().filename)
    } else {
        task_filenames(rows.drop_last())
    }
}

pub open spec fn task_thumbnails(rows: Seq<TaskRow>) -> Seq<Seq<char>>
    decreases rows.len(),
{
    if rows.len() == 0 {
        seq![]
    } else if is_convert_row(rows.last()) {
        task_thumbnails(rows.drop_last()) + opt_text(rows.last().thumbnail_path)
    } else {
        task_thumbnails(rows.drop_last())
    }
}

/// The files that conversion tasks hold: every filename, then every
/// thumbnail. Download tasks hold none.
pub open spec fn task_files_spec(rows: Seq<TaskRow>) -> Seq<Seq<char>> {
    task_filenames(rows) + task_thumbnails(rows)
}

fn push_opt(out: &mut Vec<String>, o: &Option<String>)
    ensures
        texts(final(out)@) == texts(old(out)@) + opt_text(*o),
{
    match o {
        Some(t) => {
            out.push(t.clone());
        },
        None => {},
    }
    assert(texts(final(out)@) =~= texts(old(out)@) + opt_text(*o));
}

fn is_convert_kind(r: &TaskRow) -> (b: bool)
    ensures
        b == is_convert_row(*r),
{
    let convert = String::from_str("convert");
    r.task_type == convert
}

/// Files that the given staged conversions hold, so that they can be
/// deleted with the rows.
pub fn conversion_files(rows: &Vec<PendingConversionRow>) -> (r: Vec<String>)
    ensures
        texts(r@) == conversion_files_spec(rows@),
{
    let mut out: Vec<String> = Vec::new();
    let mut i: usize = 0;
    while i < rows.len()
        invariant
            i <= rows@.len(),
            texts(out@) == rows@.subrange(0, i as int).map_values(|r: PendingConversionRow| r.filename@),
        decreases rows@.len() - i,
    {
        let ghost before = out@;
        out.push(rows[i].filename.clone());
        assert(texts(out@) =~= texts(before).push(rows@[i as int].filename@));
        assert(rows@.subrange(0, i + 1).map_values(|r: PendingConversionRow| r.filename@) =~= rows@.subrange(
            0,
            i as int,
        ).map_values(|r: PendingConversionRow| r.filename@).push(rows@[i as int].filename@));
        i = i + 1;
    }
    assert(rows@.subrange(0, i as int) =~= rows@);
    let ghost names = texts(out@);
    let mut j: usize = 0;
    while j < rows.len()
        invariant
            j <= rows@.len(),
            texts(out@) == names + conversion_thumbnails(rows@.subrange(0, j as int)),
        decreases rows@.len() - j,
    {
        push_opt(&mut out, &rows[j].thumbnail_path);
        let ghost next = rows@.subrange(0, j + 1);
        assert(next.drop_last() =~= rows@.subrange(0, j as int));
        j = j + 1;
    }
    assert(rows@.subrange(0, j as int) =~= rows@);
    out
}

/// Files that the given task rows hold, so that they can be deleted with the
/// rows.
pub fn task_files(rows: &Vec<TaskRow>) -> (r: Vec<String>)
    ensures
        texts(r@) == task_files_spec(rows@),
{
    let mut out: Vec<String> = Vec::new();
    let mut i: usize = 0;
    while i < rows.len()
        invariant
            i <= rows@.len(),
            texts(out@) == task_filenames(rows@.subrange(0, i as int)),
        decreases rows@.len() - i,
    {
        if is_convert_kind(&rows[i]) {
            push_opt(&mut out, &rows[i].filename);
        }
        let ghost next = rows@.subrange(0, i + 1);
        assert(next.drop_last() =~= rows@.subrange(0, i as int));
        assert(texts(out@) =~= task_filenames(next));
        i = i + 1;
    }
    let ghost names = texts(out@);
    let mut j: usize = 0;
    while j < rows.len()
        invariant
            j <= rows@.len(),
            texts(out@) == names + task_thumbnails(rows@.subrange(0, j as int)),
            names == task_filenames(rows@.subrange(0, rows@.len() as int)),
        decreases rows@.len() - j,
    {
        if is_convert_kind(&rows[j]) {
            push_opt(&mut out, &rows[j].thumbnail_path);
        }
        let ghost next = rows@.subrange(0, j + 1);
        assert(next.drop_last() =~= rows@.subrange(0, j as int));
        assert(texts(out@) =~= names + task_thumbnails(next));
        j = j + 1;
    }
    assert(rows@.subrange(0, j as int) =~= rows@);
    out
}

/// Every file that the store still refers to: those of staged conversions,
/// then those of conversion tasks.
pub fn active_filenames(conversions: &Vec<PendingConversionRow>, tasks: &Vec<TaskRow>) -> (r: Vec<String>)
    ensures
        texts(r@) == conversion_files_spec(conversions@) + task_files_spec(tasks@),
{
    let mut a = conversion_files(conversions);
    let mut b = task_files(tasks);
    let ghost a0 = a@;
    let ghost b0 = b@;
    a.append(&mut b);
    assert(texts(a@) =~= texts(a0) + texts(b0));
    a
}

pub open spec fn download_row_holds(row: PendingDownloadRow, id: Seq<char>, p: PendingDownload, t: i64) -> bool {
    &&& row.short_id@ == id
    &&& row.url@ == p.url@
    &&& row.chat_id == p.chat_id
    &&& row.message_id == p.message_id
    &&& row.created_at == t
}

pub open spec fn conversion_row_holds(row: PendingConversionRow, id: Seq<char>, p: PendingConversion, t: i64) -> bool {
    &&& row.short_id@ == id
    &&& row.filename == p.filename
    &&& row.thumbnail_path == p.thumbnail_path
    &&& row.chat_id == p.chat_id
    &&& row.message_id == p.message_id
    &&& row.created_at == t
}

pub open spec fn download_of(row: PendingDownloadRow) -> PendingDownload {
    PendingDownload { url: row.url, chat_id: row.chat_id, message_id: row.message_id }
}

pub open spec fn conversion_of(row: PendingConversionRow) -> PendingConversion {
    PendingConversion {
        filename: row.filename,
        thumbnail_path: row.thumbnail_path,
        chat_id: row.chat_id,
        message_id: row.message_id,
    }
}

impl PendingDownloadRow {
    /// The row that stores a staged download under `short_id`.
    pub fn from_pending(short_id: &ShortId, pending: &PendingDownload, created_at: i64) -> (r: PendingDownloadRow)
        ensures
            download_row_holds(r, short_id.0@, *pending, created_at),
            download_of(r) == *pending,
    {
        PendingDownloadRow {
            short_id: short_id.0.clone(),
            url: pending.url.clone(),
            chat_id: pending.chat_id,
            message_id: pending.message_id,
            created_at,
        }
    }

    /// The staged download that the row stores.
    pub fn to_pending(self) -> (r: PendingDownload)
        ensures
            r == download_of(self),
    {
        PendingDownload { url: self.url, chat_id: self.chat_id, message_id: self.message_id }
    }
}

impl PendingConversionRow {
    /// The row that stores a staged conversion under `short_id`.
    pub fn from_pending(short_id: &ShortId, pending: &PendingConversion, created_at: i64) -> (r: PendingConversionRow)
        ensures
            conversion_row_holds(r, short_id.0@, *pending, created_at),
            conversion_of(r) == *pending,
    {
        let p = pending.copied();
        PendingConversionRow {
            short_id: short_id.0.clone(),
            filename: p.filename,
            thumbnail_path: p.thumbnail_path,
            chat_id: p.chat_id,
            message_id: p.message_id,
            created_at,
        }
    }

    /// The staged conversion that the row stores.
    pub fn to_pending(self) -> (r: PendingConversion)
        ensures
            r == conversion_of(self),
    {
        PendingConversion {
            filename: self.filename,
            thumbnail_path: self.thumbnail_path,
            chat_id: self.chat_id,
            message_id: self.message_id,
        }
    }
}

pub open spec fn opt_same(o: Option<String>, t: Option<Seq<char>>) -> bool {
    match (o, t) {
        (Some(a), Some(b)) => a@ == b,
        (None, None) => true,
        _ => false,
    }
}

/// The row that stores `task` with `status`: the discriminator and the
/// fields of its type, the others empty.
pub open spec fn task_row_holds(row: TaskRow, task: Task, status: TaskStatus, t: i64) -> bool {
    &&& row.id@ == task.id.0@
    &&& row.task_type@ == crate::task::kind_name(task.task_type)
    &&& row.chat_id == task.chat_id
    &&& row.message_id == task.message_id
    &&& row.unique_file_id@ == task.unique_file_id@
    &&& row.status@ == crate::task::status_name(status)
    &&& row.created_at == t
    &&& match task.task_type {
        TaskType::Download { url, quality } => {
            &&& opt_same(row.url, Some(url@))
            &&& row.quality == Some(quality as i64)
            &&& row.filename is None
            &&& row.thumbnail_path is None
            &&& row.format is None
        },
        TaskType::Convert { filename, thumbnail_path, format } => {
            &&& row.url is None
            &&& row.quality is None
            &&& opt_same(row.filename, Some(filename@))
            &&& row.thumbnail_path == thumbnail_path
            &&& opt_same(row.format, Some(crate::media::label_text(format)))
        },
    }
}

impl TaskRow {
    /// The row that stores `task` with `status`, written at `created_at`.
    pub fn from_task(task: &Task, status: &TaskStatus, created_at: i64) -> (r: TaskRow)
        ensures
            task_row_holds(r, *task, *status, created_at),
    {
        let kind = String::from_str(task.task_type.kind_name());
        let status_text = String::from_str(status.name());
        match &task.task_type {
            TaskType::Download { url, quality } => TaskRow {
                id: task.id.0.clone(),
                task_type: kind,
                chat_id: task.chat_id,
                message_id: task.message_id,
                unique_file_id: task.unique_file_id.clone(),
                status: status_text,
                url: Some(url.clone()),
                quality: Some(*quality as i64),
                filename: None,
                thumbnail_path: None,
                format: None,
                created_at,
            },
            TaskType::Convert { filename, thumbnail_path, format } => TaskRow {
                id: task.id.0.clone(),
                task_type: kind,
                chat_id: task.chat_id,
                message_id: task.message_id,
                unique_file_id: task.unique_file_id.clone(),
                status: status_text,
                url: None,
                quality: None,
                filename: Some(filename.clone()),
                thumbnail_path: match thumbnail_path {
                    Some(t) => Some(t.clone()),
                    None => None,
                },
                format: Some(format.label()),
                created_at,
            },
        }
    }
}

/// A row at least a day old is among the expired rows and never among the
/// live ones; a younger row is among the live ones and never among the
/// expired. A row written one second after the cutoff is not expired.
pub proof fn ttl_partition<T: Timestamped>(rows: Seq<T>, now: i64, i: int)
    requires
        0 <= i < rows.len(),
    ensures
        expired_at(rows[i].created(), now) ==> expired_rows(rows, now).contains(rows[i]) && !live_rows(
            rows,
            now,
        ).contains(rows[i]),
        !expired_at(rows[i].created(), now) ==> live_rows(rows, now).contains(rows[i]) && !expired_rows(
            rows,
            now,
        ).contains(rows[i]),
        !expired_at((now - TASK_TTL_SECONDS + 1) as i64, now),
{
    let live = |r: T| !expired_at(r.created(), now);
    let gone = |r: T| expired_at(r.created(), now);
    if expired_at(rows[i].created(), now) {
        rows.lemma_filter_contains(gone, i);
    } else {
        rows.lemma_filter_contains(live, i);
    }
    if live_rows(rows, now).contains(rows[i]) {
        let k = choose|k: int| 0 <= k < rows.filter(live).len() && rows.filter(live)[k] == rows[i];
        rows.lemma_filter_pred(live, k);
    }
    if expired_rows(rows, now).contains(rows[i]) {
        let k = choose|k: int| 0 <= k < rows.filter(gone).len() && rows.filter(gone)[k] == rows[i];
        rows.lemma_filter_pred(gone, k);
    }
}

} // verus!
