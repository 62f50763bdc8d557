//! Rules about remote videos: the length limit, how a duration is shown,
//! and where the downloader writes its output.
use vstd::prelude::*;
use vstd::string::*;

use crate::text::{decimal, push_char, push_decimal, push_text, push_two_digits, two_digits};

verus! {

/// Longest video accepted, in seconds.
pub const MAX_VIDEO_DURATION_SECONDS: u32 = 3600;

/// Whether a video is longer than the limit.
pub fn is_video_too_long(duration_seconds: u32) -> (r: bool)
    ensures
        r == (duration_seconds > MAX_VIDEO_DURATION_SECONDS),
{
    duration_seconds > MAX_VIDEO_DURATION_SECONDS
}

/// `H:MM:SS` when there is at least one hour, `M:SS` otherwise.
pub open spec fn duration_text(seconds: nat) -> Seq<char> {
    let hours = seconds / 3600;
    let minutes = (seconds % 3600) / 60;
    let secs = seconds % 60;
    if hours > 0 {
        decimal(hours) + ":"@ + two_digits(minutes) + ":"@ + two_digits(secs)
    } else {
        decimal(minutes) + ":"@ + two_digits(secs)
    }
}

/// Shows a duration given in seconds.
pub fn format_duration(seconds: u32) -> (r: String)
    ensures
        r@ == duration_text(seconds as nat),
{
    let hours = seconds / 3600;
    let minutes = (seconds % 3600) / 60;
    let secs = seconds % 60;
    let mut s = String::new();
    if hours > 0 {
        push_decimal(&mut s, hours as u64);
        push_text(&mut s, ":");
        push_two_digits(&mut s, minutes as u64);
        push_text(&mut s, ":");
        push_two_digits(&mut s, secs as u64);
    } else {
        push_decimal(&mut s, minutes as u64);
        push_text(&mut s, ":");
        push_two_digits(&mut s, secs as u64);
    }
    assert(s@ =~= duration_text(seconds as nat));
    s
}

/// The output template handed to the downloader for a request.
pub fn get_output_format(unique_id: &str) -> (r: String)
    ensures
        r@ == "videos/%(id)s_"@ + unique_id@ + ".%(ext)s"@,
{
    let mut s = String::from_str("videos/%(id)s_");
    push_text(&mut s, unique_id);
    push_text(&mut s, ".%(ext)s");
    s
}

/// The idempotency token of a request: its chat and message.
pub open spec fn unique_file_id_text(chat_id: int, message_id: int) -> Seq<char> {
    "chat"@ + signed_decimal(chat_id) + "_msg"@ + signed_decimal(message_id)
}

pub open spec fn signed_decimal(n: int) -> Seq<char> {
    if n < 0 {
        seq!['-'] + decimal((-n) as nat)
    } else {
        decimal(n as nat)
    }
}

fn push_signed(s: &mut String, n: i64)
    ensures
        final(s)@ == old(s)@ + signed_decimal(n as int),
{
    if n < 0 {
        push_char(s, '-');
        let magnitude: u64 = if n == i64::MIN {
            9223372036854775808u64
        } else {
            (-n) as u64
        };
        push_decimal(s, magnitude);
        assert(final(s)@ =~= old(s)@ + signed_decimal(n as int));
    } else {
        push_decimal(s, n as u64);
    }
}

/// The idempotency token `chat<chat>_msg<message>` of a request.
pub fn get_unique_file_id(chat_id: i64, message_id: i32) -> (r: String)
    ensures
        r@ == unique_file_id_text(chat_id as int, message_id as int),
{
    let mut s = String::from_str("chat");
    push_signed(&mut s, chat_id);
    push_text(&mut s, "_msg");
    push_signed(&mut s, message_id as i64);
    assert(s@ =~= unique_file_id_text(chat_id as int, message_id as int));
    s
}

} // verus!
