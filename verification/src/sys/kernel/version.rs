//! The build of the running kernel: its build number and the date of the
//! build, such as `#52 SMP Fri Oct 15 16:23:14 CEST 2021`.

use crate::grammar::ReadError;
use crate::sys::kernel::ostype::{first_line, take_first_line};
use vstd::prelude::*;

verus! {

/// The build string of the kernel, the way its pseudo-file writes it.
pub struct OsVersion(String);

impl View for OsVersion {
    type V = Seq<char>;

    closed spec fn view(&self) -> Seq<char> {
        self.0@
    }
}

impl OsVersion {
    /// The build that `os_version` writes.
    pub fn new(os_version: String) -> (r: Self)
        ensures
            r@ == os_version@,
    {
        OsVersion(os_version)
    }

    /// The build of the running kernel, from what was read of its
    /// pseudo-file: the first line of `source`, or no build where the file
    /// could not be opened and `source` is `None`.
    pub fn current(source: Option<&str>) -> (r: Result<Self, ReadError>)
        ensures
            match source {
                Some(text) => r matches Ok(found) && found@ == first_line(text@),
                None => r matches Err(e) && e == ReadError::Unavailable,
            },
    {
        match source {
            Some(text) => Ok(OsVersion::new(take_first_line(text))),
            None => Err(ReadError::Unavailable),
        }
    }

    /// The build, the way it was written.
    pub fn to_string(&self) -> (r: String)
        ensures
            r@ == self@,
    {
        self.0.clone()
    }
}

} // verus!
