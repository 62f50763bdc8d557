use media_queue::commands::{payment_user_id, starts_with_text, subscription_payload};
use media_queue::commands::{parse_grant_command, parse_i64, GrantError};
use media_queue::ids::{ShortId, TaskId};
use media_queue::paths::move_to_new_folder;
use media_queue::subscription::{extended_expiration, get_subscription_info, is_subscribed, SubscriptionInfo};
use media_queue::temp_file::TempFile;
use media_queue::youtube::{format_duration, get_output_format, get_unique_file_id, is_video_too_long};

#[test]
fn durations() {
    assert_eq!(format_duration(0), "0:00");
    assert_eq!(format_duration(65), "1:05");
    assert_eq!(format_duration(3599), "59:59");
    assert_eq!(format_duration(3600), "1:00:00");
    assert_eq!(format_duration(3725), "1:02:05");
    assert_eq!(format_duration(36_000 + 600 + 10), "10:10:10");
    assert!(!is_video_too_long(3600));
    assert!(is_video_too_long(3601));
}

#[test]
fn output_template_and_token() {
    assert_eq!(get_output_format("chat1_msg2"), "videos/%(id)s_chat1_msg2.%(ext)s");
    assert_eq!(get_unique_file_id(-100123, 45), "chat-100123_msg45");
    assert_eq!(get_unique_file_id(7, 0), "chat7_msg0");
}

#[test]
fn files_move_under_a_folder() {
    assert_eq!(move_to_new_folder("videos/a.mp4", "converted"), "converted/a.mp4");
    assert_eq!(move_to_new_folder("/tmp/x/b.mp3", "out/"), "out/b.mp3");
    assert_eq!(move_to_new_folder("/", "converted"), "converted");
    assert_eq!(move_to_new_folder("c.mp4", ""), "c.mp4");
}

#[test]
fn identifiers() {
    let s = ShortId::new();
    assert_eq!(s.0.len(), 8);
    assert!(s.0.chars().all(|c| c.is_ascii_hexdigit() && !c.is_ascii_uppercase()));
    let t = TaskId::new();
    assert_eq!(t.0.len(), 36);
    assert_eq!(t.0.chars().filter(|c| *c == '-').count(), 4);
    assert_ne!(TaskId::new().0, t.0);
    assert_eq!(TaskId::from_short(&s).0, s.0);
    assert_eq!(ShortId::from_uuid_text("67e55044-10b1-426f-9247-bb680e5fe0c8").0, "67e55044");
    assert_ne!(ShortId::new().0, ShortId::new().0);
}

#[test]
fn temp_file_keeps_its_path() {
    let f = TempFile::new("videos/x.mp4".to_string());
    assert_eq!(f.path(), "videos/x.mp4");
}

#[test]
fn subscriptions() {
    let day = 86_400;
    assert!(is_subscribed(Some(100), 99));
    assert!(!is_subscribed(Some(100), 100));
    assert!(!is_subscribed(None, 0));
    assert_eq!(extended_expiration(None, 1000, 30), Some(1000 + 30 * day));
    assert_eq!(extended_expiration(Some(5000), 1000, 1), Some(5000 + day));
    assert_eq!(extended_expiration(Some(500), 1000, 1), Some(1000 + day));
    assert_eq!(extended_expiration(Some(i64::MAX - 1), 0, 1), None);
    assert_eq!(
        get_subscription_info(Some(1000 + 2 * day + 5), 1000),
        SubscriptionInfo::Active { expires_at: 1000 + 2 * day + 5, days_left: 2 }
    );
    assert_eq!(get_subscription_info(Some(10), 1000), SubscriptionInfo::Expired { expired_at: 10 });
    assert_eq!(get_subscription_info(None, 1000), SubscriptionInfo::Unsubscribed);
}

#[test]
fn grant_arguments() {
    assert_eq!(parse_grant_command("/grant 578503618 30"), Ok((578503618, 30)));
    assert_eq!(parse_grant_command("  /grant\t-5   +7 "), Ok((-5, 7)));
    assert_eq!(parse_grant_command("/grant 1"), Err(GrantError::Usage));
    assert_eq!(parse_grant_command("/grant 1 2 3"), Err(GrantError::Usage));
    assert_eq!(parse_grant_command("/grant x 2"), Err(GrantError::InvalidUserId));
    assert_eq!(parse_grant_command("/grant 1 2d"), Err(GrantError::InvalidDays));
    assert_eq!(parse_i64("9223372036854775807"), Some(i64::MAX));
    assert_eq!(parse_i64("-9223372036854775808"), Some(i64::MIN));
    assert_eq!(parse_i64("9223372036854775808"), None);
    assert_eq!(parse_i64("-"), None);
    assert_eq!(parse_i64(""), None);
    assert_eq!(parse_i64("007"), Some(7));
}

#[test]
fn payment_payloads() {
    let payload = subscription_payload(578503618);
    assert_eq!(payload, "premium_sub_578503618");
    assert_eq!(payment_user_id(&payload), Some(578503618));
    assert_eq!(payment_user_id("premium_sub_x"), None);
    assert_eq!(payment_user_id("other_1"), None);
    assert!(starts_with_text("premium_sub_1", "premium_sub_"));
    assert!(!starts_with_text("prem", "premium_sub_"));
}
