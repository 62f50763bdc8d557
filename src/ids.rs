//! Identifiers for staged selections and submitted tasks.
use vstd::prelude::*;
use vstd::string::*;

verus! {

/// Lowercase hexadecimal digit.
pub open spec fn is_hex_digit(c: char) -> bool {
    ('0' <= c && c <= '9') || ('a' <= c && c <= 'f')
}

/// The hyphenated text form of a UUID: 36 characters, hyphens at 8, 13, 18
/// and 23, lowercase hexadecimal digits everywhere else.
pub open spec fn is_uuid_text(s: Seq<char>) -> bool {
    &&& s.len() == 36
    &&& forall|i: int|
        0 <= i < 36 ==> if i == 8 || i == 13 || i == 18 || i == 23 {
            #[trigger] s[i] == '-'
        } else {
            is_hex_digit(s[i])
        }
}

/// Relies on `uuid::Uuid::new_v4` and the `Display` impl of `uuid::Uuid`,
/// which writes the hyphenated lowercase form.
#[verifier::external_body]
fn random_uuid_text() -> (r: String)
    ensures
        is_uuid_text(r@),
{
    uuid::Uuid::new_v4().to_string()
}

/// Short identifier used in length-limited callback payloads.
#[derive(Debug, Clone, PartialEq, Eq, Hash)]
pub struct ShortId(pub String);

impl ShortId {
    /// A fresh identifier: the first eight characters of a random UUID.
    pub fn new() -> (r: ShortId)
        ensures
            r.0@.len() == 8,
            forall|i: int| 0 <= i < 8 ==> is_hex_digit(#[trigger] r.0@[i]),
    {
        let full = random_uuid_text();
        ShortId::from_uuid_text(full.as_str())
    }

    /// The identifier made of the first eight characters of a UUID's text.
    pub fn from_uuid_text(full: &str) -> (r: ShortId)
        requires
            is_uuid_text(full@),
        ensures
            r.0@ == full@.subrange(0, 8),
            r.0@.len() == 8,
            forall|i: int| 0 <= i < 8 ==> is_hex_digit(#[trigger] r.0@[i]),
    {
        proof {
            assert forall|i: int| 0 <= i < 8 implies is_hex_digit(#[trigger] full@[i]) by {
                assert(i != 8 && i != 13 && i != 18 && i != 23);
            }
        }
        let prefix = full.substring_char(0, 8);
        ShortId(String::from_str(prefix))
    }

    pub fn copied(&self) -> (r: ShortId)
        ensures
            r == *self,
    {
        ShortId(self.0.clone())
    }
}

/// Identifier of a submitted task, stable for the task's lifetime.
#[derive(Debug, Clone, PartialEq, Eq, Hash)]
pub struct TaskId(pub String);

impl TaskId {
    /// A fresh identifier: the full text of a random UUID.
    pub fn new() -> (r: TaskId)
        ensures
            is_uuid_text(r.0@),
    {
        TaskId(random_uuid_text())
    }

    /// A task identifier that reuses the text of a short identifier.
    pub fn from_short(short: &ShortId) -> (r: TaskId)
        ensures
            r.0@ == short.0@,
    {
        TaskId(short.0.clone())
    }

    pub fn copied(&self) -> (r: TaskId)
        ensures
            r == *self,
    {
        TaskId(self.0.clone())
    }

    /// Whether two identifiers have the same text.
    pub fn same_as(&self, other: &TaskId) -> (r: bool)
        ensures
            r == (self.0@ == other.0@),
    {
        self.0 == other.0
    }
}

} // verus!
