//! Output formats a user can choose, and the callback payloads that carry
//! the choice back.
use vstd::prelude::*;
use vstd::string::*;

use crate::ids::ShortId;
use crate::text::{decimal, digit_char, push_char, push_decimal, push_text};

verus! {

/// Formats offered after a download, in the order in which they are shown.
#[derive(Debug, Clone, Copy, PartialEq, Eq, Structural, Hash)]
pub enum MediaFormatType {
    Video,
    Audio,
    VideoNote,
    Voice,
}

/// Number of formats offered.
pub const FORMAT_COUNT: usize = 4;

/// Prefix of the payload that picks the output format of a finished download.
pub const FORMAT_CALLBACK_PREFIX: &'static str = "fmt:";

pub open spec fn format_at(i: nat) -> Option<MediaFormatType> {
    if i == 0 {
        Some(MediaFormatType::Video)
    } else if i == 1 {
        Some(MediaFormatType::Audio)
    } else if i == 2 {
        Some(MediaFormatType::VideoNote)
    } else if i == 3 {
        Some(MediaFormatType::Voice)
    } else {
        None
    }
}

pub open spec fn format_index(f: MediaFormatType) -> nat {
    match f {
        MediaFormatType::Video => 0,
        MediaFormatType::Audio => 1,
        MediaFormatType::VideoNote => 2,
        MediaFormatType::Voice => 3,
    }
}

pub open spec fn label_text(f: MediaFormatType) -> Seq<char> {
    match f {
        MediaFormatType::Video => "🎥 Видео"@,
        MediaFormatType::Audio => "🔈 Аудио"@,
        MediaFormatType::VideoNote => "📷 Кружочек"@,
        MediaFormatType::Voice => "🎙️ Войс"@,
    }
}

/// Formats that only subscribers may choose.
pub open spec fn premium(f: MediaFormatType) -> bool {
    f == MediaFormatType::VideoNote || f == MediaFormatType::Voice
}

impl MediaFormatType {
    /// The format shown at position `index`, if there is one.
    pub fn from_index(index: usize) -> (r: Option<MediaFormatType>)
        ensures
            r == format_at(index as nat),
    {
        if index == 0 {
            Some(MediaFormatType::Video)
        } else if index == 1 {
            Some(MediaFormatType::Audio)
        } else if index == 2 {
            Some(MediaFormatType::VideoNote)
        } else if index == 3 {
            Some(MediaFormatType::Voice)
        } else {
            None
        }
    }

    /// Position at which the format is shown.
    pub fn index(&self) -> (r: usize)
        ensures
            r as nat == format_index(*self),
            format_at(r as nat) == Some(*self),
    {
        match self {
            MediaFormatType::Video => 0,
            MediaFormatType::Audio => 1,
            MediaFormatType::VideoNote => 2,
            MediaFormatType::Voice => 3,
        }
    }

    /// All formats, in the order in which they are shown.
    pub fn all() -> (r: Vec<MediaFormatType>)
        ensures
            r@.len() == FORMAT_COUNT,
            forall|i: int| 0 <= i < FORMAT_COUNT ==> format_at(i as nat) == Some(#[trigger] r@[i]),
    {
        vec![
            MediaFormatType::Video,
            MediaFormatType::Audio,
            MediaFormatType::VideoNote,
            MediaFormatType::Voice,
        ]
    }

    /// Text shown to the user for this format.
    pub fn label(&self) -> (r: String)
        ensures
            r@ == label_text(*self),
    {
        match self {
            MediaFormatType::Video => String::from_str("🎥 Видео"),
            MediaFormatType::Audio => String::from_str("🔈 Аудио"),
            MediaFormatType::VideoNote => String::from_str("📷 Кружочек"),
            MediaFormatType::Voice => String::from_str("🎙️ Войс"),
        }
    }

    /// Whether the source file must be transformed to reach this format.
    pub fn needs_conversion(&self) -> (r: bool)
        ensures
            r == (*self != MediaFormatType::Video),
    {
        !matches!(self, MediaFormatType::Video)
    }
}

/// Whether a format requires a subscription.
pub fn is_premium_format(format: &MediaFormatType) -> (r: bool)
    ensures
        r == premium(*format),
{
    matches!(format, MediaFormatType::VideoNote | MediaFormatType::Voice)
}

/// Why a callback payload was refused.
#[derive(Debug, Clone, Copy, PartialEq, Eq, Structural)]
pub enum CallbackError {
    /// The payload does not start with the expected prefix.
    MissingPrefix,
    /// No `:` separates the format index from the short identifier.
    MissingSeparator,
    /// The index is not a decimal number of a format that is offered.
    InvalidIndex,
}

/// A decoded callback payload.
#[derive(Debug, Clone, PartialEq, Eq)]
pub struct FormatChoice {
    pub format: MediaFormatType,
    pub short_id: String,
}

pub open spec fn has_prefix(s: Seq<char>, p: Seq<char>) -> bool {
    p.len() <= s.len() && s.subrange(0, p.len() as int) == p
}

/// Position of the first occurrence of `c` in `s`, or -1.
pub open spec fn index_of(s: Seq<char>, c: char) -> int
    decreases s.len(),
{
    if s.len() == 0 {
        -1
    } else if s[0] == c {
        0
    } else {
        let r = index_of(s.subrange(1, s.len() as int), c);
        if r < 0 {
            -1
        } else {
            r + 1
        }
    }
}

pub open spec fn is_digit(c: char) -> bool {
    '0' <= c && c <= '9'
}

pub open spec fn digit_value(c: char) -> nat {
    (c as u32 - '0' as u32) as nat
}

pub open spec fn all_digits(s: Seq<char>) -> bool {
    forall|i: int| 0 <= i < s.len() ==> is_digit(#[trigger] s[i])
}

/// The number that a string of decimal digits denotes.
pub open spec fn digits_value(s: Seq<char>) -> nat
    decreases s.len(),
{
    if s.len() == 0 {
        0
    } else {
        digits_value(s.drop_last()) * 10 + digit_value(s.last())
    }
}

/// The index below `limit` that a decimal text names, if any.
pub open spec fn index_of_text(t: Seq<char>, limit: nat) -> Option<nat> {
    if t.len() > 0 && all_digits(t) && digits_value(t) < limit {
        Some(digits_value(t))
    } else {
        None
    }
}

/// What `parse_choice_callback` returns for a payload, a prefix and the
/// number of choices: prefix, index digits, `:`, short identifier (which may
/// hold more `:`).
pub open spec fn parse_choice(data: Seq<char>, prefix: Seq<char>, limit: nat) -> Result<
    (nat, Seq<char>),
    CallbackError,
> {
    if !has_prefix(data, prefix) {
        Err(CallbackError::MissingPrefix)
    } else {
        let rest = data.subrange(prefix.len() as int, data.len() as int);
        let k = index_of(rest, ':');
        if k < 0 {
            Err(CallbackError::MissingSeparator)
        } else {
            match index_of_text(rest.subrange(0, k), limit) {
                Some(i) => Ok((i, rest.subrange(k + 1, rest.len() as int))),
                None => Err(CallbackError::InvalidIndex),
            }
        }
    }
}

/// What `parse_format_callback` returns for a payload and a prefix.
pub open spec fn parse_callback(data: Seq<char>, prefix: Seq<char>) -> Result<
    (MediaFormatType, Seq<char>),
    CallbackError,
> {
    match parse_choice(data, prefix, FORMAT_COUNT as nat) {
        Ok((i, id)) => Ok((format_at(i)->Some_0, id)),
        Err(e) => Err(e),
    }
}

/// The payload that `format_callback_data` builds.
pub open spec fn callback_text(prefix: Seq<char>, index: nat, short_id: Seq<char>) -> Seq<char> {
    prefix + decimal(index) + seq![':'] + short_id
}

proof fn lemma_index_of_first(s: Seq<char>, c: char, i: int)
    requires
        0 <= i < s.len(),
        s[i] == c,
        forall|j: int| 0 <= j < i ==> s[j] != c,
    ensures
        index_of(s, c) == i,
    decreases s.len(),
{
    if i > 0 {
        let t = s.subrange(1, s.len() as int);
        lemma_index_of_first(t, c, i - 1);
    }
}

proof fn lemma_index_of_none(s: Seq<char>, c: char)
    requires
        forall|j: int| 0 <= j < s.len() ==> s[j] != c,
    ensures
        index_of(s, c) == -1,
    decreases s.len(),
{
    if s.len() > 0 {
        lemma_index_of_none(s.subrange(1, s.len() as int), c);
    }
}

proof fn lemma_decimal_digits(n: nat)
    ensures
        decimal(n).len() > 0,
        all_digits(decimal(n)),
        digits_value(decimal(n)) == n,
        forall|j: int| 0 <= j < decimal(n).len() ==> decimal(n)[j] != ':',
    decreases n,
{
    let d = decimal(n);
    if n >= 10 {
        lemma_decimal_digits(n / 10);
        lemma_digit(n % 10);
        assert(d.drop_last() =~= decimal(n / 10));
        assert(d[d.len() - 1] == digit_char(n % 10));
        assert(d.last() == digit_char(n % 10));
        assert(digits_value(d) == digits_value(decimal(n / 10)) * 10 + digit_value(d.last()));
        assert(digits_value(d) == (n / 10) * 10 + n % 10);
        assert forall|j: int| 0 <= j < d.len() implies is_digit(#[trigger] d[j]) && d[j] != ':' by {
            if j < d.len() - 1 {
                assert(d[j] == decimal(n / 10)[j]);
            }
        }
    } else {
        lemma_digit(n);
        assert(d.drop_last() =~= Seq::<char>::empty());
        assert(d.last() == digit_char(n));
        assert(digits_value(d) == digits_value(d.drop_last()) * 10 + digit_value(d.last()));
    }
}

proof fn lemma_digit(d: nat)
    requires
        d < 10,
    ensures
        is_digit(digit_char(d)),
        digit_value(digit_char(d)) == d,
        digit_char(d) != ':',
{
}

/// Builds the payload `prefix`, index, `:`, short identifier.
pub fn format_callback_data(prefix: &str, format: MediaFormatType, short_id: &ShortId) -> (r: String)
    ensures
        r@ == callback_text(prefix@, format_index(format), short_id.0@),
{
    let mut s = String::from_str(prefix);
    push_decimal(&mut s, format.index() as u64);
    push_char(&mut s, ':');
    push_text(&mut s, short_id.0.as_str());
    assert(s@ =~= callback_text(prefix@, format_index(format), short_id.0@));
    s
}

/// A decoded payload: the chosen index and the short identifier.
#[derive(Debug, Clone, PartialEq, Eq)]
pub struct Choice {
    pub index: usize,
    pub short_id: String,
}

/// Decodes a payload `prefix`, index, `:`, short identifier, where the
/// index must be below `limit`.
pub fn parse_choice_callback(data: &str, prefix: &str, limit: usize) -> (r: Result<Choice, CallbackError>)
    ensures
        match parse_choice(data@, prefix@, limit as nat) {
            Ok((i, id)) => r is Ok && r->Ok_0.index == i && r->Ok_0.short_id@ == id,
            Err(e) => r == Err::<Choice, CallbackError>(e),
        },
{
    let n = data.unicode_len();
    let p = prefix.unicode_len();
    if p > n {
        return Err(CallbackError::MissingPrefix);
    }
    let mut i: usize = 0;
    while i < p
        invariant
            p == prefix@.len(),
            n == data@.len(),
            p <= n,
            i <= p,
            forall|j: int| 0 <= j < i ==> data@[j] == prefix@[j],
        decreases p - i,
    {
        if data.get_char(i) != prefix.get_char(i) {
            assert(data@.subrange(0, p as int)[i as int] != prefix@[i as int]);
            return Err(CallbackError::MissingPrefix);
        }
        i = i + 1;
    }
    assert(data@.subrange(0, p as int) =~= prefix@);
    let ghost rest = data@.subrange(p as int, n as int);
    // Scan the index digits up to the first separator.
    let mut k: usize = p;
    let mut value: u128 = 0;
    let mut digits_ok = true;
    while k < n && data.get_char(k) != ':'
        invariant
            p <= k <= n,
            n == data@.len(),
            rest == data@.subrange(p as int, n as int),
            forall|j: int| p <= j < k ==> data@[j] != ':',
            digits_ok == all_digits(data@.subrange(p as int, k as int)),
            digits_ok ==> value as nat == if digits_value(data@.subrange(p as int, k as int)) < limit {
                digits_value(data@.subrange(p as int, k as int))
            } else {
                limit as nat
            },
            value <= limit,
        decreases n - k,
    {
        let c = data.get_char(k);
        let ghost before = data@.subrange(p as int, k as int);
        let ghost after = data@.subrange(p as int, k + 1);
        assert(after.drop_last() =~= before);
        assert(after.last() == c);
        if digits_ok && '0' <= c && c <= '9' {
            let d = (c as u32 - '0' as u32) as u128;
            let next = value * 10 + d;
            value = if next < limit as u128 { next } else { limit as u128 };
            proof {
                assert(all_digits(after)) by {
                    assert forall|j: int| 0 <= j < after.len() implies is_digit(#[trigger] after[j]) by {
                        if j < before.len() {
                            assert(after[j] == before[j]);
                        }
                    }
                }
                let v = digits_value(before);
                assert(digits_value(after) == v * 10 + d);
                if v >= limit {
                    assert(v * 10 + d >= limit) by (nonlinear_arith)
                        requires v >= limit;
                }
            }
        } else {
            if digits_ok {
                assert(!is_digit(after[after.len() - 1]));
            }
            digits_ok = false;
        }
        k = k + 1;
    }
    let ghost idx_text = data@.subrange(p as int, k as int);
    assert(rest.subrange(0, (k - p) as int) =~= idx_text);
    if k == n {
        proof {
            assert forall|j: int| 0 <= j < rest.len() implies rest[j] != ':' by {
                assert(rest[j] == data@[p + j]);
            }
            lemma_index_of_none(rest, ':');
        }
        return Err(CallbackError::MissingSeparator);
    }
    proof {
        assert forall|j: int| 0 <= j < k - p implies rest[j] != ':' by {
            assert(rest[j] == data@[p + j]);
        }
        assert(rest[(k - p) as int] == data@[k as int]);
        lemma_index_of_first(rest, ':', (k - p) as int);
    }
    if k == p || !digits_ok || value >= limit as u128 {
        return Err(CallbackError::InvalidIndex);
    }
    let id = data.substring_char(k + 1, n);
    assert(id@ =~= rest.subrange((k - p) + 1, rest.len() as int));
    Ok(Choice { index: value as usize, short_id: String::from_str(id) })
}

/// Decodes a payload `prefix`, format index, `:`, short identifier.
pub fn parse_format_callback(data: &str, prefix: &str) -> (r: Result<FormatChoice, CallbackError>)
    ensures
        match parse_callback(data@, prefix@) {
            Ok((f, id)) => r is Ok && r->Ok_0.format == f && r->Ok_0.short_id@ == id,
            Err(e) => r == Err::<FormatChoice, CallbackError>(e),
        },
{
    match parse_choice_callback(data, prefix, FORMAT_COUNT) {
        Ok(c) => match MediaFormatType::from_index(c.index) {
            Some(format) => Ok(FormatChoice { format, short_id: c.short_id }),
            None => Err(CallbackError::InvalidIndex),
        },
        Err(e) => Err(e),
    }
}

/// Heights offered for a download, in the order in which they are shown.
pub const QUALITY_COUNT: usize = 4;

/// Prefix of the payload that picks the height of a staged download.
pub const QUALITY_CALLBACK_PREFIX: &'static str = "q:";

pub open spec fn quality_at(i: nat) -> Option<u32> {
    if i == 0 {
        Some(360u32)
    } else if i == 1 {
        Some(480u32)
    } else if i == 2 {
        Some(720u32)
    } else if i == 3 {
        Some(1080u32)
    } else {
        None
    }
}

/// The height shown at position `index`, if there is one.
pub fn quality_from_index(index: usize) -> (r: Option<u32>)
    ensures
        r == quality_at(index as nat),
{
    if index == 0 {
        Some(360)
    } else if index == 1 {
        Some(480)
    } else if index == 2 {
        Some(720)
    } else if index == 3 {
        Some(1080)
    } else {
        None
    }
}

/// A decoded quality payload.
#[derive(Debug, Clone, PartialEq, Eq)]
pub struct QualityChoice {
    pub quality: u32,
    pub short_id: String,
}

/// Decodes a payload `prefix`, quality index, `:`, short identifier.
pub fn parse_quality_callback(data: &str, prefix: &str) -> (r: Result<QualityChoice, CallbackError>)
    ensures
        match parse_choice(data@, prefix@, QUALITY_COUNT as nat) {
            Ok((i, id)) => r is Ok && r->Ok_0.quality == quality_at(i)->Some_0 && r->Ok_0.short_id@ == id,
            Err(e) => r == Err::<QualityChoice, CallbackError>(e),
        },
{
    match parse_choice_callback(data, prefix, QUALITY_COUNT) {
        Ok(c) => match quality_from_index(c.index) {
            Some(quality) => Ok(QualityChoice { quality, short_id: c.short_id }),
            None => Err(CallbackError::InvalidIndex),
        },
        Err(e) => Err(e),
    }
}

/// Builds the payload `prefix`, index, `:`, short identifier.
pub fn choice_callback_data(prefix: &str, index: usize, short_id: &ShortId) -> (r: String)
    ensures
        r@ == callback_text(prefix@, index as nat, short_id.0@),
{
    let mut s = String::from_str(prefix);
    push_decimal(&mut s, index as u64);
    push_char(&mut s, ':');
    push_text(&mut s, short_id.0.as_str());
    assert(s@ =~= callback_text(prefix@, index as nat, short_id.0@));
    s
}

/// A payload built by `format_callback_data` decodes to the same format and
/// short identifier.
pub proof fn callback_round_trip(prefix: Seq<char>, format: MediaFormatType, short_id: Seq<char>)
    ensures
        parse_callback(callback_text(prefix, format_index(format), short_id), prefix) == Ok::<
            (MediaFormatType, Seq<char>),
            CallbackError,
        >((format, short_id)),
{
    let i = format_index(format);
    let data = callback_text(prefix, i, short_id);
    let d = decimal(i);
    lemma_decimal_digits(i);
    assert(data.subrange(0, prefix.len() as int) =~= prefix);
    let rest = data.subrange(prefix.len() as int, data.len() as int);
    assert(rest =~= d + seq![':'] + short_id);
    assert forall|j: int| 0 <= j < d.len() implies rest[j] != ':' by {
        assert(rest[j] == d[j]);
    }
    lemma_index_of_first(rest, ':', d.len() as int);
    assert(rest.subrange(0, d.len() as int) =~= d);
    assert(rest.subrange(d.len() as int + 1, rest.len() as int) =~= short_id);
    assert(index_of_text(d, FORMAT_COUNT as nat) == Some(i));
}

} // verus!
