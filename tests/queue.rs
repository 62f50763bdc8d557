use media_queue::ids::TaskId;
use media_queue::media::MediaFormatType;
use media_queue::pending::PendingConversion;
use media_queue::processing::{ConvertAction, ConvertEvent, ConvertJob};
use media_queue::queue::{DownloadedMedia, TaskQueue, MAX_CONCURRENT_TASKS};
use media_queue::store::{PendingConversionRow, PendingDownloadRow};
use media_queue::task::{Task, TaskStatus, TaskType};

fn download(id: &str, chat: i64, quality: u32) -> Task {
    Task {
        id: TaskId(id.to_string()),
        task_type: TaskType::Download { url: format!("https://youtu.be/{}", id), quality },
        chat_id: chat,
        message_id: 1,
        unique_file_id: format!("chat{}_msg1", chat),
    }
}

fn statuses(q: &TaskQueue, chat: i64) -> Vec<TaskStatus> {
    q.get_user_tasks(chat).into_iter().map(|i| i.status).collect()
}

#[test]
fn positions_count_waiting_tasks() {
    let mut q = TaskQueue::new(vec![], vec![], 0);
    assert_eq!(q.submit(download("a", 1, 720)), Ok(1));
    assert_eq!(q.submit(download("b", 1, 480)), Ok(2));
    assert_eq!(q.submit(download("c", 2, 360)), Ok(3));
    assert_eq!(q.pending_count(), 3);
    let listing = q.get_user_tasks(1);
    assert_eq!(listing.len(), 2);
    assert_eq!(listing[0].task_id.0, "a");
    assert_eq!(listing[0].status, TaskStatus::Queued { position: 1 });
    assert_eq!(listing[0].task_type, "📥 720p");
    assert_eq!(listing[1].task_id.0, "b");
    assert_eq!(q.get_user_tasks(2)[0].task_type, "📥 360p");
    assert!(q.get_user_tasks(3).is_empty());
}

#[test]
fn concurrency_bound_under_load() {
    let k = MAX_CONCURRENT_TASKS;
    let mut q = TaskQueue::new(vec![], vec![], 0);
    for i in 0..k + 3 {
        q.submit(download(&format!("t{}", i), 7, 720)).unwrap();
    }
    let mut started = Vec::new();
    while let Some(t) = q.dispatch() {
        started.push(t.id.0.clone());
    }
    assert_eq!(started, vec!["t0".to_string(), "t1".to_string()]);
    let st = statuses(&q, 7);
    assert_eq!(st.iter().filter(|s| **s == TaskStatus::Processing).count(), k);
    assert_eq!(st.iter().filter(|s| matches!(s, TaskStatus::Queued { .. })).count(), 3);
    assert_eq!(q.pending_count(), 3);
    assert!(q.dispatch().is_none());
}

#[test]
fn concurrency_bound_with_wider_pool() {
    let mut q = TaskQueue::with_capacity(3, vec![], vec![], 0);
    for i in 0..6 {
        q.submit(download(&format!("w{}", i), 1, 720)).unwrap();
    }
    let mut n = 0;
    while q.dispatch().is_some() {
        n += 1;
    }
    assert_eq!(n, 3);
    let st = statuses(&q, 1);
    assert_eq!(st.iter().filter(|s| **s == TaskStatus::Processing).count(), 3);
    assert_eq!(st.iter().filter(|s| matches!(s, TaskStatus::Queued { .. })).count(), 3);
}

#[test]
fn slot_is_released_only_by_forget() {
    let mut q = TaskQueue::with_capacity(1, vec![], vec![], 0);
    q.submit(download("a", 1, 720)).unwrap();
    q.submit(download("b", 1, 720)).unwrap();
    let a = q.dispatch().unwrap();
    assert_eq!(a.id.0, "a");
    assert!(q.dispatch().is_none());
    // A task still processing keeps its slot.
    q.forget(&a.id);
    assert_eq!(statuses(&q, 1)[0], TaskStatus::Processing);
    assert!(q.dispatch().is_none());
    q.complete(&a.id, Ok(()));
    assert_eq!(statuses(&q, 1)[0], TaskStatus::Completed);
    // Still listed during the grace period, and still holding the slot.
    assert!(q.dispatch().is_none());
    q.forget(&a.id);
    assert_eq!(q.get_user_tasks(1).len(), 1);
    let b = q.dispatch().unwrap();
    assert_eq!(b.id.0, "b");
    q.complete(&b.id, Err("boom".to_string()));
    assert_eq!(statuses(&q, 1)[0], TaskStatus::Failed("boom".to_string()));
}

#[test]
fn complete_leaves_queued_task_alone() {
    let mut q = TaskQueue::new(vec![], vec![], 0);
    q.submit(download("a", 1, 720)).unwrap();
    q.complete(&TaskId("a".to_string()), Ok(()));
    assert_eq!(statuses(&q, 1)[0], TaskStatus::Queued { position: 1 });
    q.forget(&TaskId("a".to_string()));
    assert_eq!(q.get_user_tasks(1).len(), 1);
}

#[test]
fn submit_refuses_closed_queue_and_duplicates() {
    let mut q = TaskQueue::new(vec![], vec![], 0);
    assert_eq!(q.submit(download("a", 1, 720)), Ok(1));
    assert!(q.submit(download("a", 1, 720)).is_err());
    assert!(q.is_tracked(&TaskId("a".to_string())));
    q.close();
    assert!(q.submit(download("b", 1, 720)).is_err());
    assert_eq!(q.pending_count(), 1);
}

#[test]
fn take_is_idempotent() {
    let mut q = TaskQueue::new(vec![], vec![], 0);
    let id = q.add_pending_download("https://youtu.be/x".to_string(), 5, 9);
    assert_eq!(id.0.len(), 8);
    let peeked = q.peek_pending_download(&id.0).unwrap();
    assert_eq!(peeked.url, "https://youtu.be/x");
    let first = q.take_pending_download(&id.0).unwrap();
    assert_eq!(first.url, "https://youtu.be/x");
    assert_eq!(first.chat_id, 5);
    assert_eq!(first.message_id, 9);
    assert!(q.take_pending_download(&id.0).is_none());
    assert!(q.peek_pending_download(&id.0).is_none());
}

#[test]
fn staged_conversion_survives_restart() {
    let mut q = TaskQueue::new(vec![], vec![], 0);
    let id = q.add_pending_conversion("videos/a.mp4".to_string(), Some("videos/a.jpg".to_string()), 11, 22);
    let staged = q.peek_pending_conversion(&id.0).unwrap().clone();
    let row = PendingConversionRow::from_pending(&id, &staged, 1_700_000_000);
    let restarted = TaskQueue::new(vec![], vec![row], 1_700_000_000);
    let back = restarted.peek_pending_conversion(&id.0).unwrap();
    assert_eq!(back.filename, "videos/a.mp4");
    assert_eq!(back.thumbnail_path.as_deref(), Some("videos/a.jpg"));
    assert_eq!(back.chat_id, 11);
    assert_eq!(back.message_id, 22);
}

#[test]
fn new_loads_rows_later_rows_win() {
    let rows = vec![
        PendingDownloadRow { short_id: "k".to_string(), url: "u1".to_string(), chat_id: 1, message_id: 1, created_at: 0 },
        PendingDownloadRow { short_id: "k".to_string(), url: "u2".to_string(), chat_id: 2, message_id: 2, created_at: 0 },
    ];
    let q = TaskQueue::new(rows, vec![], 0);
    assert_eq!(q.staged_download_count(), 1);
    assert_eq!(q.peek_pending_download("k").unwrap().url, "u2");
}

#[test]
fn download_then_convert_end_to_end() {
    let mut q = TaskQueue::new(vec![], vec![], 0);
    let task = Task {
        id: TaskId::new(),
        task_type: TaskType::Download { url: "X".to_string(), quality: 720 },
        chat_id: 3,
        message_id: 4,
        unique_file_id: "chat3_msg4".to_string(),
    };
    assert_eq!(q.submit(task), Ok(1));
    let running = q.dispatch().unwrap();
    let media = DownloadedMedia { video_path: "/tmp/a.mp4".to_string(), thumbnail_path: None };
    let short_id = q.finish_download(&running, Ok(media)).unwrap();
    assert_eq!(statuses(&q, 3)[0], TaskStatus::Completed);
    let staged: PendingConversion = q.peek_pending_conversion(&short_id.0).unwrap().clone();
    assert_eq!(staged.filename, "/tmp/a.mp4");
    assert_eq!(staged.thumbnail_path, None);
    q.forget(&running.id);

    let pending = q.take_pending_conversion(&short_id.0).unwrap();
    let convert = Task {
        id: TaskId::new(),
        task_type: TaskType::Convert {
            filename: pending.filename.clone(),
            thumbnail_path: pending.thumbnail_path.clone(),
            format: MediaFormatType::Audio,
        },
        chat_id: 3,
        message_id: 4,
        unique_file_id: "chat3_msg4".to_string(),
    };
    assert_eq!(q.submit(convert), Ok(1));
    let running = q.dispatch().unwrap();
    let (filename, thumb, format) = match running.task_type.clone() {
        TaskType::Convert { filename, thumbnail_path, format } => (filename, thumbnail_path, format),
        _ => panic!("expected a conversion"),
    };
    let (mut job, first) = ConvertJob::start(filename, thumb, format);
    assert!(matches!(first, ConvertAction::Convert { ref source, format: MediaFormatType::Audio } if source == "/tmp/a.mp4"));
    let next = job.step(ConvertEvent::Converted("/tmp/a.mp3".to_string()));
    assert!(matches!(next, ConvertAction::Deliver { ref path, .. } if path == "/tmp/a.mp3"));
    let last = job.step(ConvertEvent::Delivered);
    let (result, remove) = match last {
        ConvertAction::Finish { result, remove } => (result, remove),
        _ => panic!("expected the end of the task"),
    };
    assert_eq!(result, Ok(()));
    assert_eq!(remove, vec!["/tmp/a.mp4".to_string(), "/tmp/a.mp3".to_string()]);
    q.complete(&running.id, result);
    assert_eq!(statuses(&q, 3), vec![TaskStatus::Completed]);
}

#[test]
fn failed_download_stages_nothing() {
    let mut q = TaskQueue::new(vec![], vec![], 0);
    q.submit(download("d", 1, 720)).unwrap();
    let t = q.dispatch().unwrap();
    assert!(q.finish_download(&t, Err("no such video".to_string())).is_none());
    assert_eq!(q.staged_conversion_count(), 0);
    assert_eq!(statuses(&q, 1)[0], TaskStatus::Failed("Download failed: no such video".to_string()));
}

#[test]
fn dispatch_ready_fills_every_slot() {
    let k = MAX_CONCURRENT_TASKS;
    let mut q = TaskQueue::new(vec![], vec![], 0);
    for i in 0..k + 3 {
        q.submit(download(&format!("r{}", i), 9, 720)).unwrap();
    }
    let started = q.dispatch_ready();
    assert_eq!(started.len(), k);
    assert_eq!(q.pending_count(), 3);
    let st = statuses(&q, 9);
    assert_eq!(st.len(), k + 3);
    assert_eq!(st.iter().filter(|s| **s == TaskStatus::Processing).count(), k);
    assert!(q.dispatch_ready().is_empty());
}

#[test]
fn new_leaves_out_expired_rows() {
    let now = 1_000_000;
    let rows = vec![
        PendingDownloadRow { short_id: "old".to_string(), url: "u".to_string(), chat_id: 1, message_id: 1, created_at: now - 86_400 },
        PendingDownloadRow { short_id: "new".to_string(), url: "u".to_string(), chat_id: 1, message_id: 1, created_at: now - 86_399 },
    ];
    let q = TaskQueue::new(rows, vec![], now);
    assert!(q.peek_pending_download("old").is_none());
    assert!(q.peek_pending_download("new").is_some());
    assert_eq!(q.staged_download_count(), 1);
}
