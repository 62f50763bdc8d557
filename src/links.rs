//! Which messages are links to a single remote video.
use vstd::prelude::*;
use vstd::string::*;

use crate::white::{trim_text, trimmed};

verus! {

/// What `str::to_lowercase` makes of a text.
pub uninterp spec fn lower_of(s: Seq<char>) -> Seq<char>;

/// Relies on `str::to_lowercase`: the lowercase form of the text; the
/// result depends on the text alone.
#[verifier::external_body]
fn lowercase(s: &str) -> (r: String)
    ensures
        r@ == lower_of(s@),
{
    s.to_lowercase()
}

/// `p` occurs in `s` at position `i`.
pub open spec fn occurs_at(s: Seq<char>, i: int, p: Seq<char>) -> bool {
    0 <= i && i + p.len() <= s.len() && s.subrange(i, i + p.len()) == p
}

pub open spec fn occurs(s: Seq<char>, p: Seq<char>) -> bool {
    exists|i: int| occurs_at(s, i, p)
}

pub open spec fn starts_with(s: Seq<char>, p: Seq<char>) -> bool {
    occurs_at(s, 0, p)
}

pub open spec fn video_host_prefix(s: Seq<char>) -> bool {
    ||| starts_with(s, "https://www.youtube.com/watch?"@)
    ||| starts_with(s, "http://www.youtube.com/watch?"@)
    ||| starts_with(s, "https://youtube.com/watch?"@)
    ||| starts_with(s, "http://youtube.com/watch?"@)
    ||| starts_with(s, "https://youtu.be/"@)
    ||| starts_with(s, "http://youtu.be/"@)
}

/// Whether a normalized text is a video link: a known host prefix, then
/// either a watch page whose first `v=` starts within the first hundred
/// characters, or a short link with exactly one `youtu.be/` and something
/// after it.
pub open spec fn video_link(s: Seq<char>) -> bool {
    if !video_host_prefix(s) {
        false
    } else if occurs(s, "youtube.com/watch?"@) {
        exists|i: int| 0 <= i < 100 && occurs_at(s, i, "v="@)
    } else if occurs(s, "youtu.be/"@) {
        exists|i: int|
            occurs_at(s, i, "youtu.be/"@) && i + 9 < s.len() && forall|j: int| occurs_at(s, j, "youtu.be/"@) ==> j == i
    } else {
        false
    }
}

fn chars_of(s: &str) -> (r: Vec<char>)
    ensures
        r@ == s@,
{
    let n = s.unicode_len();
    let mut out: Vec<char> = Vec::new();
    let mut i: usize = 0;
    while i < n
        invariant
            n == s@.len(),
            i <= n,
            out@ == s@.subrange(0, i as int),
        decreases n - i,
    {
        out.push(s.get_char(i));
        assert(out@ =~= s@.subrange(0, i + 1));
        i = i + 1;
    }
    assert(out@ =~= s@);
    out
}

fn matches_at(s: &Vec<char>, i: usize, p: &Vec<char>) -> (r: bool)
    ensures
        r == occurs_at(s@, i as int, p@),
{
    let n = s.len();
    let m = p.len();
    if m > n || i > n - m {
        return false;
    }
    let mut k: usize = 0;
    while k < m
        invariant
            n == s@.len(),
            m == p@.len(),
            i + m <= n,
            k <= p@.len(),
            forall|j: int| 0 <= j < k ==> s@[i + j] == p@[j],
        decreases p@.len() - k,
    {
        if s[i + k] != p[k] {
            assert(s@.subrange(i as int, i + p@.len())[k as int] != p@[k as int]);
            return false;
        }
        k = k + 1;
    }
    assert(s@.subrange(i as int, i + p@.len()) =~= p@);
    true
}

/// The first position at or after `from` where `p` occurs.
fn find_from(s: &Vec<char>, p: &Vec<char>, from: usize) -> (r: Option<usize>)
    ensures
        match r {
            Some(i) => i >= from && occurs_at(s@, i as int, p@) && forall|j: int|
                from <= j < i ==> !occurs_at(s@, j, p@),
            None => forall|j: int| from <= j ==> !occurs_at(s@, j, p@),
        },
{
    let n = s.len();
    if from > n {
        return None;
    }
    let mut i: usize = from;
    while i < n
        invariant
            n == s@.len(),
            from <= i <= n,
            forall|j: int| from <= j < i ==> !occurs_at(s@, j, p@),
        decreases n - i,
    {
        if matches_at(s, i, p) {
            return Some(i);
        }
        i = i + 1;
    }
    if matches_at(s, n, p) {
        return Some(n);
    }
    None
}

fn text(s: &str) -> (r: Vec<char>)
    ensures
        r@ == s@,
{
    chars_of(s)
}

/// Whether an already trimmed and lowercased text is a video link.
pub fn is_video_link_text(url: &str) -> (r: bool)
    ensures
        r == video_link(url@),
{
    let s = chars_of(url);
    let n = s.len();
    let prefixes = [
        "https://www.youtube.com/watch?",
        "http://www.youtube.com/watch?",
        "https://youtube.com/watch?",
        "http://youtube.com/watch?",
        "https://youtu.be/",
        "http://youtu.be/",
    ];
    let www_https = matches_at(&s, 0, &text(prefixes[0]));
    let www_http = matches_at(&s, 0, &text(prefixes[1]));
    let bare_https = matches_at(&s, 0, &text(prefixes[2]));
    let bare_http = matches_at(&s, 0, &text(prefixes[3]));
    let short_https = matches_at(&s, 0, &text(prefixes[4]));
    let short_http = matches_at(&s, 0, &text(prefixes[5]));
    if !(www_https || www_http || bare_https || bare_http || short_https || short_http) {
        return false;
    }
    let watch = text("youtube.com/watch?");
    match find_from(&s, &watch, 0) {
        Some(_) => {
            let v = text("v=");
            return match find_from(&s, &v, 0) {
                Some(i) => {
                    proof {
                        if !(i < 100) {
                            assert forall|j: int| 0 <= j < 100 implies !occurs_at(s@, j, "v="@) by {}
                        }
                    }
                    i < 100
                },
                None => false,
            };
        },
        None => {},
    }
    let short = text("youtu.be/");
    assert(short@.len() == 9) by {
        reveal_strlit("youtu.be/");
    }
    match find_from(&s, &short, 0) {
        Some(i) => {
            match find_from(&s, &short, i + 1) {
                Some(j) => {
                    proof {
                        assert(occurs_at(s@, j as int, "youtu.be/"@));
                        assert(j != i);
                    }
                    false
                },
                None => {
                    assert(forall|j: int| occurs_at(s@, j, "youtu.be/"@) ==> j == i);
                    i + 9 < n
                },
            }
        },
        None => false,
    }
}

/// Whether a message text is a link to a single remote video, judged after
/// trimming and lowercasing it.
pub fn is_youtube_video_link(url: &str) -> (r: bool)
    ensures
        r == video_link(lower_of(trimmed(url@))),
{
    let t = trim_text(url);
    let l = lowercase(t.as_str());
    is_video_link_text(l.as_str())
}

} // verus!
