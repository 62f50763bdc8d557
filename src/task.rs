//! Fully specified tasks and their lifecycle states.
use vstd::prelude::*;
use vstd::string::*;

use crate::ids::TaskId;
use crate::media::{label_text, MediaFormatType};
use crate::text::{decimal, push_decimal, push_text};

verus! {

/// What a task does.
#[derive(Debug, Clone)]
pub enum TaskType {
    /// Fetch a remote video at the given height.
    Download { url: String, quality: u32 },
    /// Turn a downloaded file into the chosen format.
    Convert { filename: String, thumbnail_path: Option<String>, format: MediaFormatType },
}

/// A task as submitted; it does not change afterwards.
#[derive(Debug, Clone)]
pub struct Task {
    pub id: TaskId,
    pub task_type: TaskType,
    pub chat_id: i64,
    pub message_id: i32,
    /// Caller-supplied idempotency token.
    pub unique_file_id: String,
}

/// Where a task stands: `Queued` → `Processing` → `Completed` or `Failed`.
#[derive(Debug, Clone, PartialEq)]
pub enum TaskStatus {
    Queued { position: usize },
    Processing,
    Completed,
    Failed(String),
}

/// What a caller sees of one of its tasks.
#[derive(Debug, Clone)]
pub struct QueuedTaskInfo {
    pub task_id: TaskId,
    pub status: TaskStatus,
    pub task_type: String,
}

/// The label shown for a task: the height for a download, the format for a
/// conversion.
pub open spec fn type_label(t: TaskType) -> Seq<char> {
    match t {
        TaskType::Download { quality, .. } => "📥 "@ + decimal(quality as nat) + "p"@,
        TaskType::Convert { format, .. } => label_text(format),
    }
}

/// The name under which a status is stored.
pub open spec fn status_name(s: TaskStatus) -> Seq<char> {
    match s {
        TaskStatus::Queued { .. } => "queued"@,
        TaskStatus::Processing => "processing"@,
        TaskStatus::Completed => "completed"@,
        TaskStatus::Failed(_) => "failed"@,
    }
}

/// The stored discriminator of a task type.
pub open spec fn kind_name(t: TaskType) -> Seq<char> {
    match t {
        TaskType::Download { .. } => "download"@,
        TaskType::Convert { .. } => "convert"@,
    }
}

impl TaskType {
    pub fn label(&self) -> (r: String)
        ensures
            r@ == type_label(*self),
    {
        match self {
            TaskType::Download { quality, .. } => {
                let mut s = String::from_str("📥 ");
                push_decimal(&mut s, *quality as u64);
                push_text(&mut s, "p");
                s
            },
            TaskType::Convert { format, .. } => format.label(),
        }
    }

    pub fn kind_name(&self) -> (r: &'static str)
        ensures
            r@ == kind_name(*self),
    {
        match self {
            TaskType::Download { .. } => "download",
            TaskType::Convert { .. } => "convert",
        }
    }
}

impl TaskStatus {
    pub fn name(&self) -> (r: &'static str)
        ensures
            r@ == status_name(*self),
    {
        match self {
            TaskStatus::Queued { .. } => "queued",
            TaskStatus::Processing => "processing",
            TaskStatus::Completed => "completed",
            TaskStatus::Failed(_) => "failed",
        }
    }

    pub fn copied(&self) -> (r: TaskStatus)
        ensures
            r == *self,
    {
        match self {
            TaskStatus::Queued { position } => TaskStatus::Queued { position: *position },
            TaskStatus::Processing => TaskStatus::Processing,
            TaskStatus::Completed => TaskStatus::Completed,
            TaskStatus::Failed(reason) => TaskStatus::Failed(reason.clone()),
        }
    }

    /// Whether the task has left the queue (it holds a worker slot).
    pub fn is_dispatched(&self) -> (r: bool)
        ensures
            r == !(*self is Queued),
    {
        !matches!(self, TaskStatus::Queued { .. })
    }
}

impl QueuedTaskInfo {
    pub fn copied(&self) -> (r: QueuedTaskInfo)
        ensures
            r == *self,
    {
        QueuedTaskInfo {
            task_id: self.task_id.copied(),
            status: self.status.copied(),
            task_type: self.task_type.clone(),
        }
    }
}

} // verus!
