//! The type of the operating system, such as `Linux`.

use crate::grammar::{chars_of, find, until, ReadError};
use vstd::prelude::*;
use vstd::string::StrSliceExecFns;

verus! {

/// The type of the operating system, the way its pseudo-file writes it.
pub struct OsType(String);

/// The first line of `text`, with the line feed that ends it.
pub open spec fn first_line(text: Seq<char>) -> Seq<char> {
    let n = until(text, '\n') as int;
    if n < text.len() {
        text.take(n + 1)
    } else {
        text
    }
}

/// Takes the first line of `text`, with the line feed that ends it.
pub fn take_first_line(text: &str) -> (line: String)
    ensures
        line@ == first_line(text@),
{
    let chars = chars_of(text);
    let n: usize = chars.len();
    assert(chars@.subrange(0, n as int) =~= chars@);
    let at: usize = find(&chars, 0, n, '\n');
    let end: usize = if at < n {
        at + 1
    } else {
        n
    };
    let line = text.substring_char(0, end);
    assert(text@.subrange(0, n as int) =~= text@);
    line.to_owned()
}

impl View for OsType {
    type V = Seq<char>;

    closed spec fn view(&self) -> Seq<char> {
        self.0@
    }
}

impl OsType {
    /// The type that `os_type` writes.
    pub fn new(os_type: String) -> (r: Self)
        ensures
            r@ == os_type@,
    {
        OsType(os_type)
    }

    /// The type of the running system, from what was read of its
    /// pseudo-file: the first line of `source`, or no type where the file
    /// could not be opened and `source` is `None`.
    pub fn current(source: Option<&str>) -> (r: Result<Self, ReadError>)
        ensures
            match source {
                Some(text) => r matches Ok(found) && found@ == first_line(text@),
                None => r matches Err(e) && e == ReadError::Unavailable,
            },
    {
        match source {
            Some(text) => Ok(OsType::new(take_first_line(text))),
            None => Err(ReadError::Unavailable),
        }
    }

    /// The type, the way it was written.
    pub fn to_string(&self) -> (r: String)
        ensures
            r@ == self@,
    {
        self.0.clone()
    }
}

} // verus!
