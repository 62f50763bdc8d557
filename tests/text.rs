use media_queue::white::{is_white_char, split_words, trim_text};
use media_queue::ids::ShortId;
use media_queue::links::{is_video_link_text, is_youtube_video_link};
use media_queue::media::{
    choice_callback_data, parse_choice_callback, parse_quality_callback, CallbackError, QUALITY_CALLBACK_PREFIX,
};
use media_queue::paths::replace_path_keep_extension_inplace;
use media_queue::status::{progress_bar, queue_status_text};
use media_queue::ids::TaskId;
use media_queue::task::{QueuedTaskInfo, TaskStatus};

#[test]
fn video_links() {
    assert!(is_youtube_video_link("https://www.youtube.com/watch?v=dQw4w9WgXcQ"));
    assert!(is_youtube_video_link("  HTTPS://YOUTU.BE/dQw4w9WgXcQ \n"));
    assert!(is_youtube_video_link("http://youtube.com/watch?feature=x&v=abc"));
    assert!(!is_youtube_video_link("https://www.youtube.com/watch?list=abc"));
    assert!(!is_youtube_video_link("https://youtu.be/"));
    assert!(!is_youtube_video_link("https://youtu.be/a/youtu.be/b"));
    assert!(!is_youtube_video_link("https://example.com/watch?v=abc"));
    assert!(!is_youtube_video_link("https://vimeo.com/123"));
    let far = format!("https://youtube.com/watch?{}v=abc", "x".repeat(100));
    assert!(!is_youtube_video_link(&far));
    // The verified part sees the text as given: no trimming, no lowercasing.
    assert!(!is_video_link_text(" https://youtu.be/abc"));
    assert!(is_video_link_text("https://youtu.be/abc"));
}

#[test]
fn path_keeps_extension() {
    assert_eq!(replace_path_keep_extension_inplace("videos/a.mp4", "converted", "out"), "converted/out.mp4");
    assert_eq!(replace_path_keep_extension_inplace("videos/a", "converted", "out"), "converted/out");
    assert_eq!(replace_path_keep_extension_inplace("a.tar.gz", "d/", "x"), "d/x.gz");
    assert_eq!(replace_path_keep_extension_inplace("a.mp4", "d", "/abs"), "/abs.mp4");
}

#[test]
fn bars() {
    assert_eq!(progress_bar(Some(0), 10), "░░░░░░░░░░ 0%");
    assert_eq!(progress_bar(Some(55), 10), "▓▓▓▓▓░░░░░ 55%");
    assert_eq!(progress_bar(Some(100), 4), "▓▓▓▓ 100%");
    assert_eq!(progress_bar(None, 3), "░░░ ожидает");
}

fn info(id: &str, status: TaskStatus, label: &str) -> QueuedTaskInfo {
    QueuedTaskInfo { task_id: TaskId(id.to_string()), status, task_type: label.to_string() }
}

#[test]
fn status_text() {
    let tasks = vec![
        info("a", TaskStatus::Processing, "📥 720p"),
        info("b", TaskStatus::Completed, "📥 480p"),
        info("c", TaskStatus::Queued { position: 2 }, "🔈 Аудио"),
    ];
    assert_eq!(
        queue_status_text(3, &tasks),
        "📊 Очередь (3)\n\n📥 720p ░░░░░░░░░░ 0%\n🔈 Аудио ░░░░░░░░░░ #2\n"
    );
    let done = vec![info("b", TaskStatus::Failed("x".to_string()), "📥 480p")];
    assert_eq!(queue_status_text(0, &done), "📊 Очередь (0)\n\nУ вас нет активных задач.");
    assert_eq!(queue_status_text(0, &vec![]), "📊 Очередь (0)\n\nУ вас нет активных задач.");
}

#[test]
fn quality_payloads() {
    let id = ShortId("0f0f0f0f".to_string());
    let data = choice_callback_data(QUALITY_CALLBACK_PREFIX, 2, &id);
    assert_eq!(data, "q:2:0f0f0f0f");
    let q = parse_quality_callback(&data, QUALITY_CALLBACK_PREFIX).unwrap();
    assert_eq!(q.quality, 720);
    assert_eq!(q.short_id, "0f0f0f0f");
    assert_eq!(parse_quality_callback("q:4:x", "q:"), Err(CallbackError::InvalidIndex));
    let c = parse_choice_callback("z:17:k", "z:", 20).unwrap();
    assert_eq!(c.index, 17);
    assert_eq!(parse_choice_callback("z:20:k", "z:", 20), Err(CallbackError::InvalidIndex));
}

#[test]
fn white_space_rules() {
    assert_eq!(trim_text("  \t a b \n"), "a b");
    assert_eq!(trim_text("\u{3000}x\u{a0}"), "x");
    assert_eq!(trim_text(" \r\n "), "");
    assert_eq!(trim_text(""), "");
    assert_eq!(trim_text("x"), "x");
    assert_eq!(split_words("  /grant\t1 \u{2003} 30\n"), vec!["/grant", "1", "30"]);
    assert!(split_words(" \t ").is_empty());
    assert_eq!(split_words("a"), vec!["a"]);
    for c in ['\t', '\n', '\u{b}', '\u{c}', '\r', ' ', '\u{85}', '\u{a0}', '\u{1680}', '\u{2000}', '\u{200a}', '\u{2028}', '\u{2029}', '\u{202f}', '\u{205f}', '\u{3000}'] {
        assert!(is_white_char(c));
        assert_eq!(is_white_char(c), c.is_whitespace());
    }
    for c in ['a', '\u{200b}', '\u{180e}', '_', '\u{feff}'] {
        assert_eq!(is_white_char(c), c.is_whitespace());
    }
}

#[test]
fn white_space_matches_std_everywhere() {
    for code in 0u32..=0x10FFFF {
        if let Some(c) = char::from_u32(code) {
            assert_eq!(is_white_char(c), c.is_whitespace(), "U+{:04X}", code);
        }
    }
    for s in ["", " a  b ", "\u{2003}x\u{2003}y", "no-space", "\n\n"] {
        assert_eq!(trim_text(s), s.trim());
        let std_words: Vec<String> = s.split_whitespace().map(|w| w.to_string()).collect();
        assert_eq!(split_words(s), std_words);
    }
}
