use media_queue::queue::TaskQueue;
use media_queue::recovery::{purge_expired, Notice, RecoveryAction};
use media_queue::store::{PendingConversionRow, PendingDownloadRow, TaskRow};

fn row(id: &str, status: &str, filename: Option<&str>, thumb: Option<&str>) -> TaskRow {
    TaskRow {
        id: id.to_string(),
        task_type: "convert".to_string(),
        chat_id: 42,
        message_id: 7,
        unique_file_id: "chat42_msg7".to_string(),
        status: status.to_string(),
        url: None,
        quality: None,
        filename: filename.map(|s| s.to_string()),
        thumbnail_path: thumb.map(|s| s.to_string()),
        format: Some("🔈 Аудио".to_string()),
        created_at: 100,
    }
}

fn describe(a: &RecoveryAction) -> String {
    match a {
        RecoveryAction::Notify { chat_id, notice } => format!("notify {} {:?}", chat_id, notice),
        RecoveryAction::DeleteFile(f) => format!("rm {}", f),
        RecoveryAction::DeleteTaskRow(id) => format!("task-row {}", id),
        RecoveryAction::DeletePendingDownloadRow(id) => format!("download-row {}", id),
        RecoveryAction::DeletePendingConversionRow(id) => format!("conversion-row {}", id),
        RecoveryAction::OfferFormats { chat_id, short_id } => format!("offer {} {}", chat_id, short_id),
    }
}

#[test]
fn processing_row_is_cleaned_up_with_one_notice() {
    let mut q = TaskQueue::new(vec![], vec![], 0);
    let actions = q.restore_on_startup(&vec![row("t1", "processing", Some("videos/a.mp4"), None)], &vec![]);
    let text: Vec<String> = actions.iter().map(describe).collect();
    assert_eq!(text, vec!["notify 42 Interrupted", "rm videos/a.mp4", "task-row t1"]);
    let notices = actions.iter().filter(|a| matches!(a, RecoveryAction::Notify { chat_id: 42, .. })).count();
    assert_eq!(notices, 1);
}

#[test]
fn queued_row_is_reset_and_finished_rows_left() {
    let mut q = TaskQueue::new(vec![], vec![], 0);
    let rows = vec![
        row("q", "queued", Some("videos/b.mp4"), Some("videos/b.jpg")),
        row("c", "completed", Some("videos/c.mp4"), None),
    ];
    let actions = q.restore_on_startup(&rows, &vec![]);
    let text: Vec<String> = actions.iter().map(describe).collect();
    assert_eq!(text, vec!["notify 42 QueueReset", "rm videos/b.mp4", "rm videos/b.jpg", "task-row q"]);
}

#[test]
fn staged_selections_after_restart() {
    let downloads = vec![PendingDownloadRow {
        short_id: "d1".to_string(),
        url: "https://youtu.be/x".to_string(),
        chat_id: 1,
        message_id: 2,
        created_at: 0,
    }];
    let conversions = vec![
        PendingConversionRow {
            short_id: "c1".to_string(),
            filename: "videos/kept.mp4".to_string(),
            thumbnail_path: None,
            chat_id: 3,
            message_id: 4,
            created_at: 0,
        },
        PendingConversionRow {
            short_id: "c2".to_string(),
            filename: "videos/gone.mp4".to_string(),
            thumbnail_path: None,
            chat_id: 5,
            message_id: 6,
            created_at: 0,
        },
    ];
    let mut q = TaskQueue::new(downloads, conversions, 0);
    let actions = q.restore_on_startup(&vec![], &vec!["c2".to_string()]);
    let text: Vec<String> = actions.iter().map(describe).collect();
    assert_eq!(
        text,
        vec!["notify 1 ResendLink", "download-row d1", "offer 3 c1", "notify 5 FileLost", "conversion-row c2"]
    );
    assert_eq!(q.staged_download_count(), 0);
    assert!(q.peek_pending_conversion("c1").is_some());
    assert!(q.peek_pending_conversion("c2").is_none());
    assert_eq!(Notice::FileLost, Notice::FileLost);
}

#[test]
fn purge_removes_expired_rows_and_their_files() {
    let now = 1_000_000;
    let old = now - 86_400;
    let downloads = vec![
        PendingDownloadRow { short_id: "d_old".to_string(), url: "u".to_string(), chat_id: 1, message_id: 1, created_at: old },
        PendingDownloadRow { short_id: "d_new".to_string(), url: "u".to_string(), chat_id: 1, message_id: 1, created_at: old + 1 },
    ];
    let conversions = vec![PendingConversionRow {
        short_id: "c_old".to_string(),
        filename: "videos/c.mp4".to_string(),
        thumbnail_path: Some("videos/c.jpg".to_string()),
        chat_id: 2,
        message_id: 2,
        created_at: old - 10,
    }];
    let mut stale = row("t_old", "processing", Some("videos/t.mp4"), None);
    stale.created_at = old;
    let mut fresh = row("t_new", "processing", Some("videos/n.mp4"), None);
    fresh.created_at = now;
    let purge = purge_expired(downloads, conversions, vec![stale, fresh], now);
    let text: Vec<String> = purge.actions.iter().map(describe).collect();
    assert_eq!(
        text,
        vec![
            "download-row d_old",
            "conversion-row c_old",
            "rm videos/c.mp4",
            "rm videos/c.jpg",
            "task-row t_old",
            "rm videos/t.mp4",
        ]
    );
    assert_eq!(purge.downloads.len(), 1);
    assert_eq!(purge.downloads[0].short_id, "d_new");
    assert!(purge.conversions.is_empty());
    assert_eq!(purge.tasks.len(), 1);
    assert_eq!(purge.tasks[0].id, "t_new");
}

#[test]
fn cancel_drops_only_this_chats_selections() {
    let downloads = vec![
        PendingDownloadRow { short_id: "d1".to_string(), url: "u".to_string(), chat_id: 1, message_id: 1, created_at: 0 },
        PendingDownloadRow { short_id: "d2".to_string(), url: "u".to_string(), chat_id: 2, message_id: 1, created_at: 0 },
    ];
    let conversions = vec![PendingConversionRow {
        short_id: "c1".to_string(),
        filename: "videos/c.mp4".to_string(),
        thumbnail_path: Some("videos/c.jpg".to_string()),
        chat_id: 1,
        message_id: 2,
        created_at: 0,
    }];
    let mut q = TaskQueue::new(downloads, conversions, 0);
    let text: Vec<String> = q.cancel_staged(1).iter().map(describe).collect();
    assert_eq!(text, vec!["download-row d1", "conversion-row c1", "rm videos/c.mp4", "rm videos/c.jpg"]);
    assert!(q.peek_pending_download("d1").is_none());
    assert!(q.peek_pending_download("d2").is_some());
    assert!(q.peek_pending_conversion("c1").is_none());
    assert!(q.cancel_staged(1).is_empty());
}

#[test]
fn reconcile_purges_then_restores() {
    let now = 1_000_000;
    let downloads = vec![
        PendingDownloadRow { short_id: "d_old".to_string(), url: "u".to_string(), chat_id: 1, message_id: 1, created_at: now - 90_000 },
        PendingDownloadRow { short_id: "d_new".to_string(), url: "u".to_string(), chat_id: 1, message_id: 1, created_at: now },
    ];
    let conversions = vec![
        PendingConversionRow {
            short_id: "c_old".to_string(),
            filename: "videos/old.mp4".to_string(),
            thumbnail_path: None,
            chat_id: 2,
            message_id: 2,
            created_at: now - 90_000,
        },
        PendingConversionRow {
            short_id: "c_keep".to_string(),
            filename: "videos/keep.mp4".to_string(),
            thumbnail_path: None,
            chat_id: 3,
            message_id: 3,
            created_at: now,
        },
    ];
    let mut running = row("t1", "processing", Some("videos/t.mp4"), None);
    running.created_at = now;
    let start = TaskQueue::reconcile(downloads, conversions, vec![running], now, &vec![]);
    let text: Vec<String> = start.actions.iter().map(describe).collect();
    assert_eq!(
        text,
        vec![
            "download-row d_old",
            "conversion-row c_old",
            "rm videos/old.mp4",
            "notify 42 Interrupted",
            "rm videos/t.mp4",
            "task-row t1",
            "notify 1 ResendLink",
            "download-row d_new",
            "offer 3 c_keep",
        ]
    );
    assert_eq!(start.queue.staged_download_count(), 0);
    assert!(start.queue.peek_pending_conversion("c_keep").is_some());
    assert!(start.queue.peek_pending_conversion("c_old").is_none());
    assert_eq!(start.queue.pending_count(), 0);
}
