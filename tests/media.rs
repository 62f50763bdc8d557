use media_queue::ids::ShortId;
use media_queue::media::{
    format_callback_data, is_premium_format, parse_format_callback, CallbackError, MediaFormatType,
    FORMAT_CALLBACK_PREFIX,
};

#[test]
fn callback_payload_round_trip() {
    let id = ShortId("1a2b3c4d".to_string());
    for f in MediaFormatType::all() {
        let data = format_callback_data(FORMAT_CALLBACK_PREFIX, f, &id);
        let choice = parse_format_callback(&data, FORMAT_CALLBACK_PREFIX).unwrap();
        assert_eq!(choice.format, f);
        assert_eq!(choice.short_id, "1a2b3c4d");
    }
    assert_eq!(format_callback_data("fmt:", MediaFormatType::VideoNote, &id), "fmt:2:1a2b3c4d");
}

#[test]
fn callback_payload_errors() {
    assert_eq!(parse_format_callback("xx:1:abc", "fmt:"), Err(CallbackError::MissingPrefix));
    assert_eq!(parse_format_callback("fm", "fmt:"), Err(CallbackError::MissingPrefix));
    assert_eq!(parse_format_callback("fmt:1abc", "fmt:"), Err(CallbackError::MissingSeparator));
    assert_eq!(parse_format_callback("fmt::abc", "fmt:"), Err(CallbackError::InvalidIndex));
    assert_eq!(parse_format_callback("fmt:x:abc", "fmt:"), Err(CallbackError::InvalidIndex));
    assert_eq!(parse_format_callback("fmt:4:abc", "fmt:"), Err(CallbackError::InvalidIndex));
    assert_eq!(parse_format_callback("fmt:99999999999999999999999:abc", "fmt:"), Err(CallbackError::InvalidIndex));
    let c = parse_format_callback("ff:03:a:b", "ff:").unwrap();
    assert_eq!(c.format, MediaFormatType::Voice);
    assert_eq!(c.short_id, "a:b");
    let c = parse_format_callback("fmt:0:", "fmt:").unwrap();
    assert_eq!(c.format, MediaFormatType::Video);
    assert_eq!(c.short_id, "");
}

#[test]
fn formats_in_display_order() {
    assert_eq!(
        MediaFormatType::all(),
        vec![MediaFormatType::Video, MediaFormatType::Audio, MediaFormatType::VideoNote, MediaFormatType::Voice]
    );
    assert_eq!(MediaFormatType::from_index(1), Some(MediaFormatType::Audio));
    assert_eq!(MediaFormatType::from_index(4), None);
    assert_eq!(MediaFormatType::Voice.index(), 3);
    assert_eq!(MediaFormatType::Video.label(), "🎥 Видео");
    assert_eq!(MediaFormatType::Audio.label(), "🔈 Аудио");
    assert_eq!(MediaFormatType::VideoNote.label(), "📷 Кружочек");
    assert!(!MediaFormatType::Video.needs_conversion());
    assert!(MediaFormatType::Audio.needs_conversion());
    assert!(is_premium_format(&MediaFormatType::VideoNote));
    assert!(is_premium_format(&MediaFormatType::Voice));
    assert!(!is_premium_format(&MediaFormatType::Audio));
}
