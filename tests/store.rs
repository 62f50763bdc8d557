use media_queue::ids::TaskId;
use media_queue::media::MediaFormatType;
use media_queue::store::{
    active_filenames, conversion_files, is_expired, split_expired, split_expired_now, task_files,
    PendingConversionRow, PendingDownloadRow, TaskRow, TASK_TTL_SECONDS,
};
use media_queue::task::{Task, TaskStatus, TaskType};

fn pd(id: &str, created_at: i64) -> PendingDownloadRow {
    PendingDownloadRow { short_id: id.to_string(), url: "u".to_string(), chat_id: 1, message_id: 1, created_at }
}

fn pc(id: &str, filename: &str, thumb: Option<&str>) -> PendingConversionRow {
    PendingConversionRow {
        short_id: id.to_string(),
        filename: filename.to_string(),
        thumbnail_path: thumb.map(|t| t.to_string()),
        chat_id: 1,
        message_id: 1,
        created_at: 0,
    }
}

#[test]
fn ttl_expiry_boundaries() {
    let now = 1_000_000;
    let cutoff = now - TASK_TTL_SECONDS;
    let rows = vec![pd("old", cutoff - 5), pd("edge", cutoff), pd("young", cutoff + 1), pd("new", now)];
    let (live, expired) = split_expired(rows, now);
    let live_ids: Vec<&str> = live.iter().map(|r| r.short_id.as_str()).collect();
    let expired_ids: Vec<&str> = expired.iter().map(|r| r.short_id.as_str()).collect();
    assert_eq!(live_ids, vec!["young", "new"]);
    assert_eq!(expired_ids, vec!["old", "edge"]);
    assert!(!is_expired(cutoff + 1, now));
    assert!(is_expired(cutoff, now));
    assert!(!is_expired(0, i64::MIN));
}

#[test]
fn expiry_against_the_clock() {
    let (live, expired) = split_expired_now(vec![pd("ancient", 0), pd("future", i64::MAX)]);
    assert_eq!(live.len(), 1);
    assert_eq!(live[0].short_id, "future");
    assert_eq!(expired[0].short_id, "ancient");
}

#[test]
fn conversion_files_lists_names_then_thumbnails() {
    let rows = vec![pc("a", "v/a.mp4", Some("v/a.jpg")), pc("b", "v/b.mp4", None), pc("c", "v/c.mp4", Some("v/c.jpg"))];
    assert_eq!(conversion_files(&rows), vec!["v/a.mp4", "v/b.mp4", "v/c.mp4", "v/a.jpg", "v/c.jpg"]);
    assert!(conversion_files(&vec![]).is_empty());
}

fn task_row(kind: &str, filename: Option<&str>, thumb: Option<&str>) -> TaskRow {
    TaskRow {
        id: "t".to_string(),
        task_type: kind.to_string(),
        chat_id: 1,
        message_id: 1,
        unique_file_id: "x".to_string(),
        status: "queued".to_string(),
        url: None,
        quality: None,
        filename: filename.map(|s| s.to_string()),
        thumbnail_path: thumb.map(|s| s.to_string()),
        format: None,
        created_at: 0,
    }
}

#[test]
fn task_files_skip_downloads() {
    let rows = vec![
        task_row("convert", Some("v/a.mp4"), Some("v/a.jpg")),
        task_row("download", Some("v/ignored.mp4"), None),
        task_row("convert", None, Some("v/b.jpg")),
    ];
    assert_eq!(task_files(&rows), vec!["v/a.mp4", "v/a.jpg", "v/b.jpg"]);
    let convs = vec![pc("a", "v/p.mp4", None)];
    assert_eq!(active_filenames(&convs, &rows), vec!["v/p.mp4", "v/a.mp4", "v/a.jpg", "v/b.jpg"]);
}

#[test]
fn task_row_flattens_each_type() {
    let d = Task {
        id: TaskId("id1".to_string()),
        task_type: TaskType::Download { url: "X".to_string(), quality: 720 },
        chat_id: 5,
        message_id: 6,
        unique_file_id: "chat5_msg6".to_string(),
    };
    let r = TaskRow::from_task(&d, &TaskStatus::Queued { position: 1 }, 99);
    assert_eq!(r.task_type, "download");
    assert_eq!(r.status, "queued");
    assert_eq!(r.url.as_deref(), Some("X"));
    assert_eq!(r.quality, Some(720));
    assert_eq!(r.filename, None);
    assert_eq!(r.created_at, 99);
    let c = Task {
        id: TaskId("id2".to_string()),
        task_type: TaskType::Convert {
            filename: "v/a.mp4".to_string(),
            thumbnail_path: None,
            format: MediaFormatType::Voice,
        },
        chat_id: 5,
        message_id: 6,
        unique_file_id: "chat5_msg6".to_string(),
    };
    let r = TaskRow::from_task(&c, &TaskStatus::Processing, 0);
    assert_eq!(r.task_type, "convert");
    assert_eq!(r.status, "processing");
    assert_eq!(r.url, None);
    assert_eq!(r.filename.as_deref(), Some("v/a.mp4"));
    assert_eq!(r.format.as_deref(), Some("🎙️ Войс"));
}

#[test]
fn rows_convert_to_and_from_records() {
    let id = media_queue::ids::ShortId("abcd1234".to_string());
    let p = media_queue::pending::PendingDownload { url: "u".to_string(), chat_id: 3, message_id: 4 };
    let row = PendingDownloadRow::from_pending(&id, &p, 10);
    assert_eq!(row.short_id, "abcd1234");
    assert_eq!(row.created_at, 10);
    let back = row.to_pending();
    assert_eq!(back.url, "u");
    assert_eq!(back.chat_id, 3);
}
