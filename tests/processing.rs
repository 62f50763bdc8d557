use media_queue::media::MediaFormatType;
use media_queue::processing::{ConvertAction, ConvertEvent, ConvertJob, ConvertStage, OperationFailure};

fn finish(a: ConvertAction) -> (Result<(), String>, Vec<String>) {
    match a {
        ConvertAction::Finish { result, remove } => (result, remove),
        other => panic!("expected the end of the task, got {:?}", other),
    }
}

#[test]
fn video_is_delivered_without_conversion() {
    let (mut job, first) = ConvertJob::start("v/a.mp4".to_string(), Some("v/a.jpg".to_string()), MediaFormatType::Video);
    assert!(matches!(first, ConvertAction::Deliver { ref path, format: MediaFormatType::Video } if path == "v/a.mp4"));
    let (result, remove) = finish(job.step(ConvertEvent::Delivered));
    assert_eq!(result, Ok(()));
    assert_eq!(remove, vec!["v/a.mp4", "v/a.jpg"]);
}

#[test]
fn oversized_video_is_compressed_once() {
    let (mut job, _) = ConvertJob::start("v/a.mp4".to_string(), None, MediaFormatType::Video);
    let a = job.step(ConvertEvent::DeliveryFailed(OperationFailure::TooLarge));
    assert!(matches!(a, ConvertAction::Compress { ref source } if source == "v/a.mp4"));
    let a = job.step(ConvertEvent::Compressed("v/a_small.mp4".to_string()));
    assert!(matches!(a, ConvertAction::Deliver { ref path, .. } if path == "v/a_small.mp4"));
    let (result, remove) = finish(job.step(ConvertEvent::DeliveryFailed(OperationFailure::TooLarge)));
    assert_eq!(result, Err("Send error: the output is too large".to_string()));
    assert_eq!(remove, vec!["v/a.mp4", "v/a_small.mp4"]);
}

#[test]
fn oversized_conversion_is_compressed_then_converted_again() {
    let (mut job, first) = ConvertJob::start("v/a.mp4".to_string(), None, MediaFormatType::Audio);
    assert!(matches!(first, ConvertAction::Convert { format: MediaFormatType::Audio, .. }));
    let a = job.step(ConvertEvent::ConvertFailed(OperationFailure::TooLarge));
    assert!(matches!(a, ConvertAction::Compress { ref source } if source == "v/a.mp4"));
    let a = job.step(ConvertEvent::Compressed("v/a_small.mp4".to_string()));
    assert!(matches!(a, ConvertAction::Convert { ref source, format: MediaFormatType::Audio } if source == "v/a_small.mp4"));
    let a = job.step(ConvertEvent::Converted("v/a_small.mp3".to_string()));
    assert!(matches!(a, ConvertAction::Deliver { ref path, format: MediaFormatType::Audio } if path == "v/a_small.mp3"));
    let (result, remove) = finish(job.step(ConvertEvent::Delivered));
    assert_eq!(result, Ok(()));
    assert_eq!(remove, vec!["v/a.mp4", "v/a_small.mp4", "v/a_small.mp3"]);
}

#[test]
fn second_oversized_conversion_fails() {
    let (mut job, _) = ConvertJob::start("v/a.mp4".to_string(), None, MediaFormatType::VideoNote);
    job.step(ConvertEvent::ConvertFailed(OperationFailure::TooLarge));
    job.step(ConvertEvent::Compressed("v/a_small.mp4".to_string()));
    let (result, remove) = finish(job.step(ConvertEvent::ConvertFailed(OperationFailure::TooLarge)));
    assert_eq!(result, Err("Conversion error: the output is too large".to_string()));
    assert_eq!(remove, vec!["v/a.mp4", "v/a_small.mp4"]);
}

#[test]
fn failed_compression_ends_the_task() {
    let (mut job, _) = ConvertJob::start("v/a.mp4".to_string(), None, MediaFormatType::VideoNote);
    let a = job.step(ConvertEvent::ConvertFailed(OperationFailure::TooLarge));
    assert!(matches!(a, ConvertAction::Compress { .. }));
    let (result, remove) = finish(job.step(ConvertEvent::CompressFailed("ffmpeg exited 1".to_string())));
    assert_eq!(result, Err("Compression failed: ffmpeg exited 1".to_string()));
    assert_eq!(remove, vec!["v/a.mp4"]);
}

#[test]
fn other_conversion_failure_ends_the_task() {
    let (mut job, _) = ConvertJob::start("v/a.mp4".to_string(), Some("v/t.jpg".to_string()), MediaFormatType::Voice);
    let (result, remove) = finish(job.step(ConvertEvent::ConvertFailed(OperationFailure::Other("bad codec".to_string()))));
    assert_eq!(result, Err("Conversion error: bad codec".to_string()));
    assert_eq!(remove, vec!["v/a.mp4", "v/t.jpg"]);
    let (again, nothing) = finish(job.step(ConvertEvent::Delivered));
    assert!(again.is_err());
    assert!(nothing.is_empty());
}

#[test]
fn delivery_failure_still_removes_files() {
    let (mut job, _) = ConvertJob::start("v/a.mp4".to_string(), None, MediaFormatType::Audio);
    job.step(ConvertEvent::Converted("v/a.mp3".to_string()));
    let (result, remove) = finish(job.step(ConvertEvent::DeliveryFailed(OperationFailure::TooLarge)));
    assert_eq!(result, Err("Send error: the output is too large".to_string()));
    assert_eq!(remove, vec!["v/a.mp4", "v/a.mp3"]);
}

#[test]
fn unexpected_event_fails_the_task() {
    let (mut job, _) = ConvertJob::start("v/a.mp4".to_string(), None, MediaFormatType::Audio);
    let (result, remove) = finish(job.step(ConvertEvent::Delivered));
    assert_eq!(result, Err("Unexpected delivery result".to_string()));
    assert_eq!(remove, vec!["v/a.mp4"]);
    assert_eq!(ConvertStage::Done, ConvertStage::Done);
}
